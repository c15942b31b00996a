//! Going from page to page without losing what is being worked on.
use crate::i18n::Language;
use crate::interface;
use crate::interface::say;
use crate::lists;
use crate::text;
use crate::text::{list_contains, opt_is, strip_prefix};
use vstd::prelude::*;

verus! {

/// A page of the manager.
#[derive(Debug, Clone, Copy, PartialEq, Eq, Structural)]
pub enum Page {
    Home,
    Capture,
    Library,
    Settings,
    Editor,
}

/// Where the program is asked to begin.
#[derive(Debug, Clone, PartialEq, Eq)]
pub enum StartPage {
    Capture,
    Library,
    Settings,
    Edit(String),
}

pub enum StartView {
    Capture,
    Library,
    Settings,
    Edit(Seq<char>),
}

impl View for StartPage {
    type V = StartView;

    open spec fn view(&self) -> StartView {
        match *self {
            StartPage::Capture => StartView::Capture,
            StartPage::Library => StartView::Library,
            StartPage::Settings => StartView::Settings,
            StartPage::Edit(key) => StartView::Edit(key@),
        }
    }
}

pub open spec fn opt_start(p: Option<StartPage>) -> Option<StartView> {
    match p {
        Some(s) => Some(s@),
        None => None,
    }
}

pub open spec fn names_recipe(arg: Seq<char>) -> bool {
    "--edit="@.is_prefix_of(arg)
}

/// Where the arguments of the program ask to begin.
pub open spec fn start_of(args: Seq<Seq<char>>) -> Option<StartView> {
    if args.contains("--capture"@) {
        Some(StartView::Capture)
    } else if args.contains("--library"@) {
        Some(StartView::Library)
    } else if args.contains("--settings"@) {
        Some(StartView::Settings)
    } else {
        match lists::find(args, |a: Seq<char>| names_recipe(a)) {
            Some(a) => Some(StartView::Edit(a.skip("--edit="@.len() as int))),
            None => None,
        }
    }
}

/// Where the arguments of the program ask to begin.
pub fn parse_start_page(args: &Vec<String>) -> (out: Option<StartPage>)
    ensures
        opt_start(out) == start_of(text::texts(args@)),
{
    if list_contains(args, "--capture") {
        return Some(StartPage::Capture);
    }
    if list_contains(args, "--library") {
        return Some(StartPage::Library);
    }
    if list_contains(args, "--settings") {
        return Some(StartPage::Settings);
    }
    let ghost all = text::texts(args@);
    let ghost p = |a: Seq<char>| names_recipe(a);
    for i in 0..args.len()
        invariant
            all == text::texts(args@),
            p == (|a: Seq<char>| names_recipe(a)),
            forall|k: int| 0 <= k < i ==> !p(#[trigger] all[k]),
            !all.contains("--capture"@),
            !all.contains("--library"@),
            !all.contains("--settings"@),
    {
        assert(all[i as int] == args@[i as int]@);
        if let Some(key) = strip_prefix(args[i].as_str(), "--edit=") {
            proof {
                lists::first_is(all, p, i as int);
            }
            return Some(StartPage::Edit(key.to_owned()));
        }
    }
    proof {
        lists::first_is_none(all, p);
    }
    None
}

/// The page that a start page is.
pub open spec fn page_of(start: StartView) -> Page {
    match start {
        StartView::Capture => Page::Capture,
        StartView::Library => Page::Library,
        StartView::Settings => Page::Settings,
        StartView::Edit(_) => Page::Editor,
    }
}

/// A page on which something may be lost by leaving it.
pub open spec fn is_protected(page: Option<Page>) -> bool {
    page == Some(Page::Editor) || page == Some(Page::Capture)
}

/// What becomes of the wish to go to another page.
#[derive(Debug, PartialEq, Eq)]
pub enum Route {
    /// It is the page that is shown.
    Stay,
    /// Not while something is being worked on, with what to say.
    Refuse(&'static str),
    /// The page is shown.
    Go,
    /// The page is shown once the loss of a draft is confirmed: a question and what
    /// it is about.
    Ask(&'static str, &'static str),
}

pub enum RouteView {
    Stay,
    Refuse(Seq<char>),
    Go,
    Ask(Seq<char>, Seq<char>),
}

impl View for Route {
    type V = RouteView;

    open spec fn view(&self) -> RouteView {
        match *self {
            Route::Stay => RouteView::Stay,
            Route::Refuse(s) => RouteView::Refuse(s@),
            Route::Go => RouteView::Go,
            Route::Ask(a, b) => RouteView::Ask(a@, b@),
        }
    }
}

/// What becomes of the wish to begin at `start` while `current` is shown; `editing`
/// is the recipe that is being edited.
pub open spec fn start_route(
    start: StartView,
    current: Option<Page>,
    editing: Option<Seq<char>>,
    language: Language,
) -> RouteView {
    let same = match start {
        StartView::Capture => current == Some(Page::Capture),
        StartView::Edit(key) => current == Some(Page::Editor) && editing == Some(key),
        _ => false,
    };
    if same {
        RouteView::Stay
    } else if is_protected(current) {
        RouteView::Refuse(
            interface::said(
                language,
                "Сначала закончи редактирование или захват."@,
                "Finish editing or capture before opening another page."@,
            ),
        )
    } else {
        RouteView::Go
    }
}

fn protected(page: Option<Page>) -> (out: bool)
    ensures
        out == is_protected(page),
{
    match page {
        Some(Page::Editor) | Some(Page::Capture) => true,
        _ => false,
    }
}

fn is_page(page: Option<Page>, wanted: Page) -> (out: bool)
    ensures
        out == (page == Some(wanted)),
{
    match page {
        Some(p) => p == wanted,
        None => false,
    }
}

/// Decides on the wish to begin at `start` while `current` is shown; `editing` is
/// the recipe that is being edited.
pub fn route_start_page(
    start: &StartPage,
    current: Option<Page>,
    editing: &Option<String>,
    language: Language,
) -> (out: Route)
    ensures
        out@ == start_route(start@, current, text::opt_text(*editing), language),
{
    let same: bool = match start {
        StartPage::Capture => is_page(current, Page::Capture),
        StartPage::Edit(key) => is_page(current, Page::Editor) && opt_is(editing, key.as_str()),
        _ => false,
    };
    if same {
        return Route::Stay;
    }
    if protected(current) {
        return Route::Refuse(
            say(
                language,
                "Сначала закончи редактирование или захват.",
                "Finish editing or capture before opening another page.",
            ),
        );
    }
    Route::Go
}

/// Decides on the wish to speak `next` while `page` is shown.
pub fn change_language(language: Language, next: Language, page: Option<Page>) -> (out: Route)
    ensures
        out@ == if language == next {
            RouteView::Stay
        } else if is_protected(page) {
            RouteView::Refuse(
                interface::said(
                    language,
                    "Сначала закончи редактирование или захват."@,
                    "Finish editing or capture before changing language."@,
                ),
            )
        } else {
            RouteView::Go
        },
{
    if language == next {
        return Route::Stay;
    }
    if protected(page) {
        return Route::Refuse(
            say(
                language,
                "Сначала закончи редактирование или захват.",
                "Finish editing or capture before changing language.",
            ),
        );
    }
    Route::Go
}

/// The page that is shown again after the language changed.
pub fn page_after_language(page: Option<Page>) -> (out: Page)
    ensures
        out == match page {
            Some(Page::Library) => Page::Library,
            Some(Page::Settings) => Page::Settings,
            _ => Page::Home,
        },
{
    match page {
        Some(Page::Library) => Page::Library,
        Some(Page::Settings) => Page::Settings,
        _ => Page::Home,
    }
}

/// Decides on the wish to capture anew.
pub fn new_capture(page: Option<Page>, language: Language) -> (out: Route)
    ensures
        out@ == match page {
            Some(Page::Editor) => RouteView::Refuse(
                interface::said(
                    language,
                    "Сначала сохрани или отмени изменения в редакторе."@,
                    "Save or cancel the editor changes first."@,
                ),
            ),
            Some(Page::Capture) => RouteView::Refuse(
                interface::said(language, "Захват уже открыт."@, "Capture is already open."@),
            ),
            _ => RouteView::Go,
        },
{
    match page {
        Some(Page::Editor) => Route::Refuse(
            say(
                language,
                "Сначала сохрани или отмени изменения в редакторе.",
                "Save or cancel the editor changes first.",
            ),
        ),
        Some(Page::Capture) => Route::Refuse(
            say(language, "Захват уже открыт.", "Capture is already open."),
        ),
        _ => Route::Go,
    }
}

/// Decides on the wish to go to `wanted` by the side bar.
pub fn navigate(page: Option<Page>, wanted: Page, language: Language) -> (out: Route)
    ensures
        out@ == if page == Some(Page::Capture) && wanted != Page::Capture {
            RouteView::Ask(
                interface::said(
                    language,
                    "Покинуть незавершённый захват?"@,
                    "Leave unfinished capture?"@,
                ),
                interface::said(
                    language,
                    "Черновик Capture ещё не сохранён как окружение."@,
                    "The Capture draft has not been saved as a workbench yet."@,
                ),
            )
        } else {
            RouteView::Go
        },
{
    if is_page(page, Page::Capture) && wanted != Page::Capture {
        return Route::Ask(
            say(language, "Покинуть незавершённый захват?", "Leave unfinished capture?"),
            say(
                language,
                "Черновик Capture ещё не сохранён как окружение.",
                "The Capture draft has not been saved as a workbench yet.",
            ),
        );
    }
    Route::Go
}

/// Decides on the wish to close the window. `unsaved` says that an editor is open
/// whose draft would be lost.
pub fn close_window(
    allowed: bool,
    unsaved: bool,
    page: Option<Page>,
    language: Language,
) -> (out: Route)
    ensures
        out@ == if allowed {
            RouteView::Go
        } else if unsaved {
            RouteView::Ask(
                interface::said(language, "Закрыть без сохранения?"@, "Close without saving?"@),
                interface::said(
                    language,
                    "Изменения в редакторе ещё не сохранены."@,
                    "Editor changes have not been saved yet."@,
                ),
            )
        } else if page == Some(Page::Capture) {
            RouteView::Ask(
                interface::said(
                    language,
                    "Закрыть незавершённый захват?"@,
                    "Close unfinished capture?"@,
                ),
                interface::said(
                    language,
                    "Черновик Capture ещё не сохранён как окружение."@,
                    "The Capture draft has not been saved as a workbench yet."@,
                ),
            )
        } else {
            RouteView::Go
        },
{
    if allowed {
        return Route::Go;
    }
    if unsaved {
        return Route::Ask(
            say(language, "Закрыть без сохранения?", "Close without saving?"),
            say(
                language,
                "Изменения в редакторе ещё не сохранены.",
                "Editor changes have not been saved yet.",
            ),
        );
    }
    if is_page(page, Page::Capture) {
        return Route::Ask(
            say(language, "Закрыть незавершённый захват?", "Close unfinished capture?"),
            say(
                language,
                "Черновик Capture ещё не сохранён как окружение.",
                "The Capture draft has not been saved as a workbench yet.",
            ),
        );
    }
    Route::Go
}

/// Decides on the wish to leave the editor. `unsaved` says that its draft would be
/// lost.
pub fn leave_editor(unsaved: bool, language: Language) -> (out: Route)
    ensures
        out@ == if unsaved {
            RouteView::Ask(
                interface::said(language, "Не сохранять изменения?"@, "Discard changes?"@),
                interface::said(
                    language,
                    "Изменения этого окружения ещё не сохранены."@,
                    "Changes to this workbench have not been saved yet."@,
                ),
            )
        } else {
            RouteView::Go
        },
{
    if unsaved {
        return Route::Ask(
            say(language, "Не сохранять изменения?", "Discard changes?"),
            say(
                language,
                "Изменения этого окружения ещё не сохранены.",
                "Changes to this workbench have not been saved yet.",
            ),
        );
    }
    Route::Go
}

/// A page on which something may be lost is never left for another by the program
/// being started again: it is stayed on, or the wish is refused.
pub proof fn protected_pages_are_kept(
    start: StartView,
    current: Option<Page>,
    editing: Option<Seq<char>>,
    language: Language,
)
    requires
        is_protected(current),
    ensures
        !(start_route(start, current, editing, language) is Go),
        start_route(start, current, editing, language) is Stay ==> current == Some(page_of(start)),
{
}

} // verus!
