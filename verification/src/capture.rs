//! Saving what is on a workspace as a recipe.
use crate::apps;
use crate::apps::{AppView, InstalledApp};
use crate::launch;
use crate::launch::{
    code_project_path, cwd_is_within_project, infer_command, is_browser_window,
    is_project_editor_window, is_terminal_window, process_references_project, ProcessFacts,
    ProcessView, Programs,
};
use crate::lists;
use crate::lists::sort_places;
use crate::model;
use crate::model::{
    MatchSpec, MatchView, ObservedState, OutputFallback, PlacementSpec, PlacementView, Recipe,
    RecipeView, ReusePolicy, RuntimeView, RuntimeWindow, RuntimeWorkspace, Size, StateView,
    WindowSpec, WindowView, WorkspaceView,
};
use crate::naming;
use crate::naming::{free_name, unique_slug};
use crate::outside;
use crate::outside::escape_pattern;
use crate::resolve;
use crate::resolve::own_window;
use crate::text;
use crate::text::{ascii_lowercase, blank, contains, copy_opt, opt_is, push_number, str_eq, trim};
use vstd::prelude::*;

verus! {

// Sizes

/// Two to the power of 52: where the fraction of a double begins.
pub const FRACTION: u64 = 0x10_0000_0000_0000;

/// The exponent of a positive double of at least 1.
pub open spec fn exponent(bits: u64) -> int {
    bits as int / FRACTION as int - 1023
}

/// A double of at least 1 and below 2 to the power of 53 is this number over
/// [`denominator`].
pub open spec fn numerator(bits: u64) -> int {
    FRACTION + bits as int % FRACTION as int
}

pub open spec fn denominator(bits: u64) -> int {
    vstd::arithmetic::power2::pow2((52 - exponent(bits)) as nat) as int
}

/// A double from 1 to the greatest 32-bit number. Positive doubles are in the
/// order of their bits, and all others come behind them.
pub open spec fn is_pixel_extent(bits: u64) -> bool {
    0x3ff0_0000_0000_0000 <= bits <= 0x41df_ffff_ffc0_0000
}

/// An extent in whole pixels: rounded to the nearest number, halves up.
pub open spec fn rounded(bits: u64) -> int {
    (numerator(bits) + denominator(bits) / 2) / denominator(bits)
}

/// The size that an observed extent is saved as.
pub open spec fn pixels(bits: u64) -> Option<Size> {
    if is_pixel_extent(bits) {
        Some(Size::Pixels(rounded(bits) as i32))
    } else {
        None
    }
}

/// The size that an observed extent is saved as. `bits` are those of a double.
pub fn pixel_size(bits: u64) -> (out: Option<Size>)
    ensures
        out == pixels(bits),
        is_pixel_extent(bits) ==> 1 <= rounded(bits) <= i32::MAX,
{
    if bits < 0x3ff0_0000_0000_0000 || bits > 0x41df_ffff_ffc0_0000 {
        return None;
    }
    let e: u64 = bits / FRACTION - 1023;
    let num: u64 = FRACTION + bits % FRACTION;
    let mut den: u64 = 0x40_0000;
    let mut k: u64 = 30;
    proof {
        vstd::arithmetic::power2::lemma2_to64();
        vstd::arithmetic::power2::lemma2_to64_rest();
    }
    while k > e
        invariant
            e <= k <= 30,
            den == vstd::arithmetic::power2::pow2((52 - k) as nat),
            0x40_0000 <= den <= 0x10_0000_0000_0000,
            k < 30 ==> den >= 0x80_0000,
        decreases k,
    {
        proof {
            vstd::arithmetic::power2::lemma_pow2_unfold((53 - k) as nat);
            vstd::arithmetic::power2::lemma2_to64();
            vstd::arithmetic::power2::lemma2_to64_rest();
            if k >= 2 {
                vstd::arithmetic::power2::lemma_pow2_strictly_increases((53 - k) as nat, 52);
            }
        }
        den = den * 2;
        k = k - 1;
    }
    assert(e == exponent(bits) && num == numerator(bits) && den == denominator(bits));
    let q: u64 = (num + den / 2) / den;
    proof {
        let x = num + den / 2;
        if e == 30 {
            vstd::arithmetic::power2::lemma2_to64();
            assert(den == 0x40_0000);
            assert(bits % FRACTION <= 0xf_ffff_ffc0_0000);
            assert(x <= 0x1f_ffff_ffe0_0000);
            assert(x / 0x40_0000 <= i32::MAX);
            assert(q == x / 0x40_0000);
        } else {
            vstd::arithmetic::div_mod::lemma_div_is_ordered_by_denominator(
                x,
                0x80_0000,
                den as int,
            );
        }
        assert(q >= 1) by {
            vstd::arithmetic::div_mod::lemma_div_is_ordered(den as int, x, den as int);
            vstd::arithmetic::div_mod::lemma_div_by_self(den as int);
        }
    }
    Some(Size::Pixels(q as i32))
}

// Results

/// A recipe as it was captured, and what is shown of each of its windows.
#[derive(Debug, Clone, PartialEq)]
pub struct CaptureDraft {
    pub recipe: Recipe,
    pub details: Vec<CapturedWindow>,
}

/// What is shown of a captured window.
#[derive(Debug, Clone, PartialEq, Eq)]
pub struct CapturedWindow {
    pub title: String,
    pub app_id: String,
    pub cwd: Option<String>,
    pub include_by_default: bool,
    pub inclusion_note: Option<String>,
}

#[verifier::ext_equal]
pub struct CapturedView {
    pub title: Seq<char>,
    pub app_id: Seq<char>,
    pub cwd: Option<Seq<char>>,
    pub include_by_default: bool,
    pub inclusion_note: Option<Seq<char>>,
}

impl View for CapturedWindow {
    type V = CapturedView;

    open spec fn view(&self) -> CapturedView {
        CapturedView {
            title: self.title@,
            app_id: self.app_id@,
            cwd: text::opt_text(self.cwd),
            include_by_default: self.include_by_default,
            inclusion_note: text::opt_text(self.inclusion_note),
        }
    }
}

pub open spec fn captured_views(v: Seq<CapturedWindow>) -> Seq<CapturedView> {
    v.map_values(|c: CapturedWindow| c@)
}

/// Why nothing was captured or kept.
#[derive(Debug, Clone, Copy, PartialEq, Eq, Structural)]
pub enum CaptureError {
    NoWorkspace,
    NoWindows,
    SelectionMismatch,
    NothingSelected,
}

pub open spec fn capture_error_text(e: CaptureError) -> Seq<char> {
    match e {
        CaptureError::NoWorkspace => "Niri has no workspace to capture"@,
        CaptureError::NoWindows => "focused workspace has no windows"@,
        CaptureError::SelectionMismatch => "capture selection does not match detected windows"@,
        CaptureError::NothingSelected => "select at least one window to save"@,
    }
}

impl CaptureError {
    /// The message for people.
    pub fn text(&self) -> (out: &'static str)
        ensures
            out@ == capture_error_text(*self),
    {
        match self {
            CaptureError::NoWorkspace => "Niri has no workspace to capture",
            CaptureError::NoWindows => "focused workspace has no windows",
            CaptureError::SelectionMismatch => "capture selection does not match detected windows",
            CaptureError::NothingSelected => "select at least one window to save",
        }
    }
}

// Inclusion

/// The note that goes with a window, and whether it is saved unless the user says
/// otherwise. Without a project everything is; with one, the terminals that work
/// in it, the editors, what was started from it, and browsers.
pub open spec fn inclusion(w: RuntimeView, p: ProcessView, root: Option<Seq<char>>) -> (
    bool,
    Option<Seq<char>>,
) {
    match root {
        None => (true, None),
        Some(r) => if launch::is_terminal(w) {
            if launch::works_in(w, p, r) {
                (true, Some("terminal belongs to the detected project"@))
            } else {
                (false, Some("terminal is outside project "@ + r))
            }
        } else if launch::is_project_editor(w) {
            (true, Some("editor identifies the detected project"@))
        } else if launch::refers_to(w, p, r) {
            (
                true,
                Some("process executable or launch arguments reference the detected project"@),
            )
        } else if launch::is_browser(w) {
            (true, Some("browser window on the project workspace; review before saving"@))
        } else {
            (
                false,
                Some("no project context detected for this app (project "@ + r + ")"@),
            )
        },
    }
}

/// Whether a window is saved unless the user says otherwise, and the note that
/// goes with it.
pub fn capture_inclusion(
    window: &RuntimeWindow,
    facts: &ProcessFacts,
    project_root: &Option<String>,
) -> (out: (bool, Option<String>))
    ensures
        (out.0, text::opt_text(out.1)) == inclusion(
            window@,
            facts@,
            text::opt_text(*project_root),
        ),
{
    let root: &String = match project_root {
        Some(r) => r,
        None => {
            return (true, None);
        },
    };
    if is_terminal_window(window) {
        if cwd_is_within_project(window, facts, root.as_str()) {
            return (true, Some("terminal belongs to the detected project".to_owned()));
        }
        let mut note: String = "terminal is outside project ".to_owned();
        note.append(root.as_str());
        return (false, Some(note));
    }
    if is_project_editor_window(window) {
        return (true, Some("editor identifies the detected project".to_owned()));
    }
    if process_references_project(window, facts, root.as_str()) {
        return (
            true,
            Some(
                "process executable or launch arguments reference the detected project".to_owned(),
            ),
        );
    }
    if is_browser_window(window) {
        return (
            true,
            Some("browser window on the project workspace; review before saving".to_owned()),
        );
    }
    let mut note: String = "no project context detected for this app (project ".to_owned();
    note.append(root.as_str());
    note.append(")");
    (false, Some(note))
}

// Recognising a window again

/// The pattern for the title of a window: where it has an application that no
/// other window shares, none is needed.
pub open spec fn title_pattern(w: RuntimeView, shared: bool) -> Option<Seq<char>> {
    if w.title is None || text::is_blank(w.title->0) || (w.app_id is Some && !text::is_blank(
        w.app_id->0,
    ) && !shared) {
        None
    } else {
        Some(outside::literal_pattern(text::trimmed(w.title->0)))
    }
}

/// The pattern that stands for a text and nothing else.
fn literal(s: &str) -> (out: String)
    ensures
        out@ == outside::literal_pattern(s@),
{
    let mut out = String::new();
    out.push('^');
    out.append(escape_pattern(s).as_str());
    out.push('$');
    assert(out@ =~= outside::literal_pattern(s@));
    out
}

/// The pattern for the title of a window. `duplicate_app_id` says that another
/// window has the same application.
pub fn capture_title_match(window: &RuntimeWindow, duplicate_app_id: bool) -> (out: Option<String>)
    ensures
        text::opt_text(out) == title_pattern(window@, duplicate_app_id),
{
    let title: &str = match &window.title {
        Some(t) => trim(t.as_str()),
        None => {
            return None;
        },
    };
    proof {
        text::blank_iff_trims_away(window@.title->0);
    }
    if title.is_empty() {
        return None;
    }
    let has_app_id: bool = match &window.app_id {
        Some(id) => !blank(id.as_str()),
        None => false,
    };
    if has_app_id && !duplicate_app_id {
        return None;
    }
    Some(literal(title))
}

/// A window of application `app_id` that is not the manager's own.
pub open spec fn is_of_app(w: RuntimeView, app_id: Seq<char>) -> bool {
    w.app_id == Some(app_id) && !text::is_blank(app_id) && !resolve::is_own_window(w)
}

pub open spec fn of_app(windows: Seq<RuntimeView>, app_id: Seq<char>) -> spec_fn(int) -> Option<int> {
    |i: int|
        if is_of_app(windows[i], app_id) {
            Some(i)
        } else {
            None
        }
}

pub open spec fn of_app_in(windows: Seq<RuntimeView>, app_id: Seq<char>, cwd: Seq<char>) -> spec_fn(
    int,
) -> Option<int> {
    |i: int|
        if is_of_app(windows[i], app_id) && windows[i].cwd == Some(cwd) && !text::is_blank(cwd) {
            Some(i)
        } else {
            None
        }
}

/// Another window, on whatever workspace, has the application of `w`.
pub open spec fn shares_app(windows: Seq<RuntimeView>, w: RuntimeView) -> bool {
    w.app_id is Some && lists::gather(windows.len(), of_app(windows, w.app_id->0)).len() > 1
}

/// The pattern for the working directory of a window: where it shares its
/// application, but with no window that works in the same directory.
pub open spec fn cwd_pattern(windows: Seq<RuntimeView>, w: RuntimeView) -> Option<Seq<char>> {
    if shares_app(windows, w) && w.cwd is Some && lists::gather(
        windows.len(),
        of_app_in(windows, w.app_id->0, w.cwd->0),
    ).len() == 1 {
        Some(outside::literal_pattern(w.cwd->0))
    } else {
        None
    }
}

/// The signals by which a captured window is recognised again. All windows are
/// looked at, so that none on another workspace is taken for it.
pub open spec fn captured_match(windows: Seq<RuntimeView>, w: RuntimeView) -> MatchView {
    MatchView {
        window_id: None,
        app_id: match w.app_id {
            Some(id) => Some(outside::literal_pattern(id)),
            None => None,
        },
        title: title_pattern(w, shares_app(windows, w) && cwd_pattern(windows, w) is None),
        process: None,
        cwd: cwd_pattern(windows, w),
        pid: None,
    }
}

fn count_of_app(windows: &Vec<RuntimeWindow>, app_id: &str) -> (out: usize)
    ensures
        out == lists::gather(
            windows@.len(),
            of_app(model::runtime_views(windows@), app_id@),
        ).len(),
{
    let ghost views = model::runtime_views(windows@);
    let ghost f = of_app(views, app_id@);
    let mut n: usize = 0;
    let counts: bool = !blank(app_id);
    for i in 0..windows.len()
        invariant
            views == model::runtime_views(windows@),
            f == of_app(views, app_id@),
            counts == !text::is_blank(app_id@),
            n == lists::gather(i as nat, f).len(),
            n <= i,
    {
        assert(views[i as int] == windows@[i as int]@);
        let ghost given = f(i as int);
        if counts && opt_is(&windows[i].app_id, app_id) && !own_window(&windows[i].app_id) {
            n = n + 1;
        }
    }
    n
}

fn count_of_app_in(windows: &Vec<RuntimeWindow>, app_id: &str, cwd: &str) -> (out: usize)
    ensures
        out == lists::gather(
            windows@.len(),
            of_app_in(model::runtime_views(windows@), app_id@, cwd@),
        ).len(),
{
    let ghost views = model::runtime_views(windows@);
    let ghost f = of_app_in(views, app_id@, cwd@);
    let mut n: usize = 0;
    let counts: bool = !blank(app_id) && !blank(cwd);
    for i in 0..windows.len()
        invariant
            views == model::runtime_views(windows@),
            f == of_app_in(views, app_id@, cwd@),
            counts == (!text::is_blank(app_id@) && !text::is_blank(cwd@)),
            n == lists::gather(i as nat, f).len(),
            n <= i,
    {
        assert(views[i as int] == windows@[i as int]@);
        let ghost given = f(i as int);
        if counts && opt_is(&windows[i].app_id, app_id) && !own_window(&windows[i].app_id) && opt_is(
            &windows[i].cwd,
            cwd,
        ) {
            n = n + 1;
        }
    }
    n
}

/// The signals by which window `i` is recognised again.
fn match_for(windows: &Vec<RuntimeWindow>, i: usize) -> (out: MatchSpec)
    requires
        i < windows@.len(),
    ensures
        out@ == captured_match(model::runtime_views(windows@), windows@[i as int]@),
{
    let w: &RuntimeWindow = &windows[i];
    let ghost views = model::runtime_views(windows@);
    let shared: bool = match &w.app_id {
        Some(id) => count_of_app(windows, id.as_str()) > 1,
        None => false,
    };
    let cwd: Option<String> = match (&w.app_id, &w.cwd) {
        (Some(id), Some(dir)) => if shared && count_of_app_in(windows, id.as_str(), dir.as_str())
            == 1 {
            Some(literal(dir.as_str()))
        } else {
            None
        },
        _ => None,
    };
    let app_id: Option<String> = match &w.app_id {
        Some(id) => Some(literal(id.as_str())),
        None => None,
    };
    let title: Option<String> = capture_title_match(w, shared && cwd.is_none());
    let out = MatchSpec { window_id: None, app_id, title, process: None, cwd, pid: None };
    assert(out@ =~= captured_match(views, w@));
    out
}

// Capturing

/// All that a capture depends on.
pub struct Capture {
    pub state: StateView,
    pub facts: Seq<ProcessView>,
    pub installed: Seq<AppView>,
    pub programs: Programs,
    pub workspace: WorkspaceView,
    pub focus: Option<u64>,
}

/// The workspace to capture: the preferred one, where it is there, or else the one
/// that has the focus.
pub open spec fn captured_workspace(s: StateView, preferred: Option<u64>) -> Option<WorkspaceView> {
    if preferred is Some && s.workspace(preferred->0) is Some {
        s.workspace(preferred->0)
    } else {
        s.focused_workspace()
    }
}

pub open spec fn or_max(n: Option<usize>) -> usize {
    match n {
        Some(x) => x,
        None => usize::MAX,
    }
}

/// Window `a` may stand before window `b`: by column, then by tile, then by
/// identifier.
pub open spec fn stands_before(a: RuntimeView, b: RuntimeView) -> bool {
    if or_max(a.column) != or_max(b.column) {
        or_max(a.column) < or_max(b.column)
    } else if or_max(a.tile_index) != or_max(b.tile_index) {
        or_max(a.tile_index) < or_max(b.tile_index)
    } else {
        a.id <= b.id
    }
}

/// The text from which the name of a logical window is made.
pub open spec fn name_source(w: RuntimeView) -> Seq<char> {
    match w.app_id {
        Some(id) => id,
        None => match w.title {
            Some(title) => title,
            None => "window"@,
        },
    }
}

/// The name that the `k`th window would have if no other had it.
pub open spec fn plain_name(w: RuntimeView, k: int) -> Seq<char> {
    let base = naming::slug(name_source(w));
    if base.len() == 0 {
        "window-"@ + text::decimal((k + 1) as nat)
    } else {
        base
    }
}

pub open spec fn first_free(base: Seq<char>, taken: Seq<Seq<char>>) -> Seq<char> {
    choose|name: Seq<char>| naming::is_first_free(base, taken, name)
}

impl Capture {
    /// The place of window `i`, if it is to be captured: it is on the workspace, and
    /// not the manager's own.
    pub open spec fn shown_at(self) -> spec_fn(int) -> Option<int> {
        |i: int|
            if self.state.windows[i].workspace_id == Some(self.workspace.id)
                && !resolve::is_own_window(self.state.windows[i]) {
                Some(i)
            } else {
                None
            }
    }

    /// The places of the windows to capture.
    pub open spec fn shown(self) -> Seq<int> {
        lists::gather(self.state.windows.len(), self.shown_at())
    }

    pub open spec fn before(self) -> spec_fn(int, int) -> bool {
        |a: int, b: int|
            stands_before(self.state.windows[self.shown()[a]], self.state.windows[self.shown()[b]])
    }

    /// The places of the windows to capture, from left to right and top to bottom.
    pub open spec fn places(self) -> Seq<int> {
        lists::order(self.shown().len(), self.before()).map_values(|a: int| self.shown()[a])
    }

    /// The `k`th captured window.
    pub open spec fn window(self, k: int) -> RuntimeView {
        self.state.windows[self.places()[k]]
    }

    pub open spec fn process(self, k: int) -> ProcessView {
        self.facts[self.places()[k]]
    }

    /// The project that the `k`th window, an editor, was started with.
    pub open spec fn editor_project(self) -> spec_fn(int) -> Option<Seq<char>> {
        |k: int|
            if launch::names_code(launch::lower_app(self.window(k))) {
                launch::opened_project(self.window(k), self.process(k))
            } else {
                None
            }
    }

    /// The project in which the `k`th window works.
    pub open spec fn working_project(self) -> spec_fn(int) -> Option<Seq<char>> {
        |k: int|
            if self.window(k).cwd is Some {
                self.process(k).cwd_root
            } else {
                None
            }
    }

    /// The project that the workspace is about: the one that an editor was started
    /// with, or else one that a window works in.
    pub open spec fn project_root(self) -> Option<Seq<char>> {
        let n = self.places().len();
        if lists::first_given(n, self.editor_project()) is Some {
            lists::first_given(n, self.editor_project())
        } else {
            lists::first_given(n, self.working_project())
        }
    }

    /// The names of the first `n` logical windows.
    pub open spec fn names(self, n: nat) -> Seq<Seq<char>>
        decreases n,
    {
        if n == 0 {
            Seq::empty()
        } else {
            let taken = self.names((n - 1) as nat);
            taken.push(first_free(plain_name(self.window(n - 1), n - 1), taken))
        }
    }

    pub open spec fn name(self, k: int) -> Seq<char> {
        first_free(plain_name(self.window(k), k), self.names(k as nat))
    }

    /// The column of the `k`th window.
    pub open spec fn column(self, k: int) -> usize {
        match self.window(k).column {
            Some(c) => c,
            None => (k + 1) as usize,
        }
    }

    /// No tiled window before the `k`th is in its column.
    pub open spec fn leads_column(self, k: int) -> bool {
        forall|j: int|
            0 <= j < k && !(#[trigger] self.window(j)).is_floating ==> self.column(j)
                != self.column(k)
    }

    pub open spec fn in_column(self, c: usize) -> spec_fn(int) -> Option<int> {
        |k: int|
            if self.window(k).column == Some(c) {
                Some(k)
            } else {
                None
            }
    }

    /// Several captured windows are in column `c`.
    pub open spec fn is_shared_column(self, c: usize) -> bool {
        lists::gather(self.places().len(), self.in_column(c)).len() > 1
    }

    /// Where the `k`th window belongs. The first tiled window of a column says how
    /// wide it is, and windows that share a column how high they are.
    pub open spec fn layout(self, k: int) -> PlacementView {
        let w = self.window(k);
        PlacementView {
            column: self.column(k),
            column_width: if !w.is_floating && self.leads_column(k) {
                pixels(w.tile_width)
            } else {
                None
            },
            window_height: if !w.is_floating && self.is_shared_column(self.column(k)) {
                pixels(w.tile_height)
            } else {
                None
            },
            display: None,
            floating: w.is_floating,
            output: None,
        }
    }

    pub open spec fn spec_of(self, k: int) -> WindowView {
        WindowView {
            name: self.name(k),
            command: launch::start_command(
                self.window(k),
                self.process(k),
                self.installed,
                self.programs,
            ),
            match_spec: captured_match(self.state.windows, self.window(k)),
            reuse: ReusePolicy::Unique,
            layout: self.layout(k),
        }
    }

    pub open spec fn detail_of(self, k: int) -> CapturedView {
        let w = self.window(k);
        let kept = inclusion(w, self.process(k), self.project_root());
        CapturedView {
            title: match w.title {
                Some(title) => title,
                None => self.name(k),
            },
            app_id: apps::or_empty(w.app_id),
            cwd: w.cwd,
            include_by_default: kept.0,
            inclusion_note: kept.1,
        }
    }

    /// The `k`th window is the one to focus.
    pub open spec fn wants_focus(self, k: int) -> bool {
        match self.focus {
            Some(id) => self.window(k).id == id,
            None => self.window(k).is_focused,
        }
    }

    /// The name of the last of the first `n` windows that is to be focused.
    pub open spec fn focus_name(self, n: nat) -> Option<Seq<char>>
        decreases n,
    {
        if n == 0 {
            None
        } else if self.wants_focus(n - 1) {
            Some(self.name(n - 1))
        } else {
            self.focus_name((n - 1) as nat)
        }
    }

    pub open spec fn workspace_name(self) -> Seq<char> {
        match self.workspace.name {
            Some(name) => name,
            None => "Workspace "@ + text::decimal(self.workspace.index as nat),
        }
    }

    pub open spec fn recipe(self) -> RecipeView {
        RecipeView {
            name: Some(self.workspace_name()),
            workspace: self.workspace_name(),
            output: self.workspace.output,
            output_fallback: OutputFallback::Focused,
            focus: self.focus_name(self.places().len()),
            spawn_timeout_ms: 10_000,
            windows: Seq::new(self.places().len(), |k: int| self.spec_of(k)),
        }
    }

    pub open spec fn details(self) -> Seq<CapturedView> {
        Seq::new(self.places().len(), |k: int| self.detail_of(k))
    }
}

/// The capture that the arguments of [`capture_workspace`] make up, on the
/// workspace that is captured.
pub open spec fn capture_of(
    state: &ObservedState,
    facts: &Vec<ProcessFacts>,
    installed: &Vec<InstalledApp>,
    programs: &Programs,
    preferred: Option<u64>,
    focus: Option<u64>,
) -> Capture {
    Capture {
        state: state@,
        facts: launch::process_views(facts@),
        installed: apps::app_views(installed@),
        programs: *programs,
        workspace: captured_workspace(state@, preferred)->0,
        focus,
    }
}

fn find_workspace<'a>(state: &'a ObservedState, preferred: Option<u64>) -> (out: Option<
    &'a RuntimeWorkspace,
>)
    ensures
        match out {
            Some(w) => captured_workspace(state@, preferred) == Some(w@),
            None => captured_workspace(state@, preferred) is None,
        },
{
    if let Some(id) = preferred {
        if let Some(w) = state.workspace(id) {
            return Some(w);
        }
    }
    state.focused_workspace()
}

fn place_le(windows: &Vec<RuntimeWindow>, shown: &Vec<usize>, a: usize, b: usize) -> (out: bool)
    requires
        a < shown@.len(),
        b < shown@.len(),
        shown@[a as int] < windows@.len(),
        shown@[b as int] < windows@.len(),
    ensures
        out == stands_before(windows@[shown@[a as int] as int]@, windows@[shown@[b as int] as int]@),
{
    let x: &RuntimeWindow = &windows[shown[a]];
    let y: &RuntimeWindow = &windows[shown[b]];
    let xc: usize = match x.column {
        Some(c) => c,
        None => usize::MAX,
    };
    let yc: usize = match y.column {
        Some(c) => c,
        None => usize::MAX,
    };
    let xt: usize = match x.tile_index {
        Some(c) => c,
        None => usize::MAX,
    };
    let yt: usize = match y.tile_index {
        Some(c) => c,
        None => usize::MAX,
    };
    if xc != yc {
        xc < yc
    } else if xt != yt {
        xt < yt
    } else {
        x.id <= y.id
    }
}

/// The places of the windows to capture, from left to right and top to bottom.
fn capture_places(state: &ObservedState, workspace_id: u64, Ghost(c): Ghost<Capture>) -> (out: Vec<
    usize,
>)
    requires
        c.state == state@,
        c.workspace.id == workspace_id,
    ensures
        lists::as_places(out@) == c.places(),
        forall|k: int| 0 <= k < out@.len() ==> (#[trigger] out@[k]) < state.windows@.len(),
{
    let windows: &Vec<RuntimeWindow> = &state.windows;
    let ghost f = c.shown_at();
    let mut shown: Vec<usize> = Vec::new();
    assert(lists::as_places(shown@) =~= lists::gather(0, f));
    for i in 0..windows.len()
        invariant
            c.state == state@,
            c.workspace.id == workspace_id,
            windows == &state.windows,
            f == c.shown_at(),
            lists::as_places(shown@) == lists::gather(i as nat, f),
            forall|k: int| 0 <= k < shown@.len() ==> (#[trigger] shown@[k]) < windows@.len(),
    {
        let ghost before = shown@;
        let ghost given = f(i as int);
        assert(c.state.windows[i as int] == windows@[i as int]@);
        let here: bool = match windows[i].workspace_id {
            Some(id) => id == workspace_id,
            None => false,
        };
        if here && !own_window(&windows[i].app_id) {
            shown.push(i);
            assert(lists::as_places(shown@) =~= lists::as_places(before).push(given->0));
        }
    }
    let n: usize = shown.len();
    let ghost rank = c.before();
    let le = |a: usize, b: usize| -> (r: bool)
        requires
            a < shown@.len(),
            b < shown@.len(),
            shown@[a as int] < windows@.len(),
            shown@[b as int] < windows@.len(),
        ensures
            r == stands_before(
                windows@[shown@[a as int] as int]@,
                windows@[shown@[b as int] as int]@,
            ),
        { place_le(windows, &shown, a, b) };
    assert forall|a: usize, b: usize, r: bool| a < n && b < n && le.ensures((a, b), r) implies r
        == rank(a as int, b as int) by {
        assert(c.shown()[a as int] == shown@[a as int] as int);
        assert(c.shown()[b as int] == shown@[b as int] as int);
    }
    let sorted: Vec<usize> = sort_places(n, le, Ghost(rank));
    let mut out: Vec<usize> = Vec::new();
    for k in 0..sorted.len()
        invariant
            n == shown@.len(),
            forall|x: int| 0 <= x < sorted@.len() ==> (#[trigger] sorted@[x]) < n,
            forall|x: int| 0 <= x < shown@.len() ==> (#[trigger] shown@[x]) < windows@.len(),
            out@.len() == k,
            forall|x: int| 0 <= x < k ==> #[trigger] out@[x] == shown@[sorted@[x] as int],
    {
        out.push(shown[sorted[k]]);
    }
    let ghost o = lists::order(n as nat, rank);
    assert forall|x: int| 0 <= x < out@.len() implies #[trigger] lists::as_places(out@)[x]
        == c.shown()[o[x]] by {
        assert(lists::as_places(sorted@)[x] == o[x]);
        assert(out@[x] == shown@[sorted@[x] as int]);
        assert(lists::as_places(shown@)[sorted@[x] as int] == shown@[sorted@[x] as int] as int);
    }
    assert(lists::as_places(out@) =~= c.places());
    out
}

/// The `k`th place of a capture, as the executable code holds it.
pub open spec fn holds_capture(
    places: Seq<usize>,
    state: ObservedState,
    facts: Seq<ProcessFacts>,
    c: Capture,
) -> bool {
    &&& c.state == state@
    &&& c.facts == launch::process_views(facts)
    &&& facts.len() == state.windows@.len()
    &&& lists::as_places(places) == c.places()
    &&& forall|k: int| 0 <= k < places.len() ==> (#[trigger] places[k]) < state.windows@.len()
}

proof fn capture_at(
    places: Seq<usize>,
    state: ObservedState,
    facts: Seq<ProcessFacts>,
    c: Capture,
    k: int,
)
    requires
        holds_capture(places, state, facts, c),
        0 <= k < places.len(),
    ensures
        places[k] as int == c.places()[k],
        c.window(k) == state.windows@[places[k] as int]@,
        c.process(k) == facts[places[k] as int]@,
{
    assert(lists::as_places(places)[k] == places[k] as int);
}

/// The project that the workspace is about.
fn infer_capture_project_root(
    state: &ObservedState,
    facts: &Vec<ProcessFacts>,
    places: &Vec<usize>,
    Ghost(c): Ghost<Capture>,
) -> (out: Option<String>)
    requires
        holds_capture(places@, *state, facts@, c),
    ensures
        text::opt_text(out) == c.project_root(),
{
    let ghost f = c.editor_project();
    let ghost n = c.places().len();
    for k in 0..places.len()
        invariant
            holds_capture(places@, *state, facts@, c),
            f == c.editor_project(),
            n == places@.len(),
            n == c.places().len(),
            forall|x: int| 0 <= x < k ==> (#[trigger] f(x)) is None,
    {
        proof {
            capture_at(places@, *state, facts@, c, k as int);
        }
        let ghost given = f(k as int);
        let w: &RuntimeWindow = &state.windows[places[k]];
        let app: String = match &w.app_id {
            Some(id) => ascii_lowercase(id.as_str()),
            None => {
                let none = String::new();
                assert(none@ =~= text::lower_text(Seq::<char>::empty()));
                none
            },
        };
        if str_eq(app.as_str(), "code") || contains(app.as_str(), "visual-studio-code") {
            let found: Option<String> = code_project_path(w, &facts[places[k]]);
            if found.is_some() {
                proof {
                    lists::first_given_is(n, f, k as int);
                }
                return found;
            }
        }
        assert(given is None);
    }
    proof {
        lists::first_given_none(n, f);
    }
    let ghost g = c.working_project();
    for k in 0..places.len()
        invariant
            holds_capture(places@, *state, facts@, c),
            g == c.working_project(),
            n == places@.len(),
            n == c.places().len(),
            lists::first_given(n, c.editor_project()) is None,
            forall|x: int| 0 <= x < k ==> (#[trigger] g(x)) is None,
    {
        proof {
            capture_at(places@, *state, facts@, c, k as int);
        }
        let ghost given = g(k as int);
        if state.windows[places[k]].cwd.is_some() {
            let found: Option<String> = copy_opt(&facts[places[k]].cwd_root);
            if found.is_some() {
                proof {
                    lists::first_given_is(n, g, k as int);
                }
                return found;
            }
        }
        assert(given is None);
    }
    proof {
        lists::first_given_none(n, g);
    }
    None
}

/// The name of a window among those that are taken.
fn unique_window_name(window: &RuntimeWindow, index: usize, used: &Vec<String>) -> (out: String)
    ensures
        out@ == first_free(plain_name(window@, index as int), text::texts(used@)),
{
    let raw: String = match &window.app_id {
        Some(id) => id.clone(),
        None => match &window.title {
            Some(title) => title.clone(),
            None => "window".to_owned(),
        },
    };
    let slug: String = unique_slug(raw.as_str());
    let base: String = if slug.as_str().is_empty() {
        let mut name: String = "window-".to_owned();
        text::push_wide(&mut name, index as u128 + 1);
        name
    } else {
        slug
    };
    let out: String = free_name(base.as_str(), used);
    proof {
        let ghost_name = first_free(base@, text::texts(used@));
        assert(naming::is_first_free(base@, text::texts(used@), ghost_name));
        naming::first_free_is_unique(base@, text::texts(used@), out@, ghost_name);
    }
    out
}

/// Whether no tiled window before the `k`th is in column `column`.
fn leads(
    state: &ObservedState,
    facts: &Vec<ProcessFacts>,
    places: &Vec<usize>,
    k: usize,
    column: usize,
    Ghost(c): Ghost<Capture>,
) -> (out: bool)
    requires
        holds_capture(places@, *state, facts@, c),
        k < places@.len(),
        column == c.column(k as int),
    ensures
        out == c.leads_column(k as int),
{
    for j in 0..k
        invariant
            holds_capture(places@, *state, facts@, c),
            k < places@.len(),
            column == c.column(k as int),
            forall|x: int|
                0 <= x < j && !(#[trigger] c.window(x)).is_floating ==> c.column(x) != column,
    {
        proof {
            capture_at(places@, *state, facts@, c, j as int);
        }
        let w: &RuntimeWindow = &state.windows[places[j]];
        let other: usize = match w.column {
            Some(x) => x,
            None => j + 1,
        };
        assert(other == c.column(j as int));
        if !w.is_floating && other == column {
            assert(!c.window(j as int).is_floating);
            return false;
        }
    }
    true
}

/// Whether several captured windows are in column `column`.
fn shares_column(
    state: &ObservedState,
    facts: &Vec<ProcessFacts>,
    places: &Vec<usize>,
    column: usize,
    Ghost(c): Ghost<Capture>,
) -> (out: bool)
    requires
        holds_capture(places@, *state, facts@, c),
    ensures
        out == c.is_shared_column(column),
{
    let ghost f = c.in_column(column);
    let mut n: usize = 0;
    for k in 0..places.len()
        invariant
            holds_capture(places@, *state, facts@, c),
            f == c.in_column(column),
            n == lists::gather(k as nat, f).len(),
            n <= k,
    {
        proof {
            capture_at(places@, *state, facts@, c, k as int);
        }
        let ghost given = f(k as int);
        let here: bool = match state.windows[places[k]].column {
            Some(x) => x == column,
            None => false,
        };
        if here {
            n = n + 1;
        }
    }
    assert(places@.len() == c.places().len());
    n > 1
}

/// Where the `k`th window belongs.
fn layout_for(
    state: &ObservedState,
    facts: &Vec<ProcessFacts>,
    places: &Vec<usize>,
    k: usize,
    Ghost(c): Ghost<Capture>,
) -> (out: PlacementSpec)
    requires
        holds_capture(places@, *state, facts@, c),
        k < places@.len(),
    ensures
        out@ == c.layout(k as int),
{
    let n: usize = places.len();
    proof {
        capture_at(places@, *state, facts@, c, k as int);
    }
    let w: &RuntimeWindow = &state.windows[places[k]];
    let column: usize = match w.column {
        Some(x) => x,
        None => k + 1,
    };
    assert(column == c.column(k as int));
    let mut column_width: Option<Size> = None;
    let mut window_height: Option<Size> = None;
    if !w.is_floating {
        if leads(state, facts, places, k, column, Ghost(c)) {
            column_width = pixel_size(w.tile_width);
        }
        if shares_column(state, facts, places, column, Ghost(c)) {
            window_height = pixel_size(w.tile_height);
        }
    }
    let out = PlacementSpec {
        column,
        column_width,
        window_height,
        display: None,
        floating: w.is_floating,
        output: None,
    };
    assert(out@ =~= c.layout(k as int));
    out
}

/// Saves what is on a workspace as a recipe: on the preferred workspace, where it
/// is there, or else on the one that has the focus.
///
/// `facts` says of every window of `state` what the system knows of its process.
/// With a preferred window to focus, that one is; otherwise the one that has the
/// focus.
pub fn capture_workspace(
    state: &ObservedState,
    facts: &Vec<ProcessFacts>,
    installed_apps: &Vec<InstalledApp>,
    programs: &Programs,
    preferred_workspace_id: Option<u64>,
    preferred_focus_window_id: Option<u64>,
) -> (out: Result<CaptureDraft, CaptureError>)
    requires
        facts@.len() == state.windows@.len(),
    ensures
        ({
            let c = capture_of(
                state,
                facts,
                installed_apps,
                programs,
                preferred_workspace_id,
                preferred_focus_window_id,
            );
            match out {
                Ok(draft) => captured_workspace(state@, preferred_workspace_id) is Some
                    && c.places().len() > 0 && draft.recipe@ == c.recipe() && captured_views(
                    draft.details@,
                ) == c.details(),
                Err(CaptureError::NoWorkspace) => captured_workspace(
                    state@,
                    preferred_workspace_id,
                ) is None,
                Err(CaptureError::NoWindows) => captured_workspace(
                    state@,
                    preferred_workspace_id,
                ) is Some && c.places().len() == 0,
                Err(_) => false,
            }
        }),
{
    let workspace: &RuntimeWorkspace = match find_workspace(state, preferred_workspace_id) {
        Some(w) => w,
        None => {
            return Err(CaptureError::NoWorkspace);
        },
    };
    let ghost c = capture_of(
        state,
        facts,
        installed_apps,
        programs,
        preferred_workspace_id,
        preferred_focus_window_id,
    );
    let places: Vec<usize> = capture_places(state, workspace.id, Ghost(c));
    let n: usize = places.len();
    assert(n == c.places().len());
    if n == 0 {
        return Err(CaptureError::NoWindows);
    }
    let project_root: Option<String> = infer_capture_project_root(state, facts, &places, Ghost(c));
    let mut used: Vec<String> = Vec::new();
    let mut windows: Vec<WindowSpec> = Vec::new();
    let mut details: Vec<CapturedWindow> = Vec::new();
    let mut focus: Option<String> = None;
    assert(text::texts(used@) =~= c.names(0));
    for k in 0..n
        invariant
            n == places@.len(),
            holds_capture(places@, *state, facts@, c),
            c.installed == apps::app_views(installed_apps@),
            c.programs == *programs,
            c.focus == preferred_focus_window_id,
            text::opt_text(project_root) == c.project_root(),
            text::texts(used@) == c.names(k as nat),
            windows@.len() == k,
            details@.len() == k,
            forall|x: int| 0 <= x < k ==> (#[trigger] windows@[x])@ == c.spec_of(x),
            forall|x: int| 0 <= x < k ==> (#[trigger] details@[x])@ == c.detail_of(x),
            text::opt_text(focus) == c.focus_name(k as nat),
    {
        proof {
            capture_at(places@, *state, facts@, c, k as int);
        }
        let at: usize = places[k];
        let w: &RuntimeWindow = &state.windows[at];
        let process: &ProcessFacts = &facts[at];
        let name: String = unique_window_name(w, k, &used);
        assert(name@ == c.name(k as int));
        let ghost taken = used@;
        used.push(name.clone());
        assert(text::texts(used@) =~= text::texts(taken).push(name@));
        let wanted: bool = match preferred_focus_window_id {
            Some(id) => w.id == id,
            None => w.is_focused,
        };
        if wanted {
            focus = Some(name.clone());
        }
        let title: String = match &w.title {
            Some(t) => t.clone(),
            None => name.clone(),
        };
        let app_id: String = match &w.app_id {
            Some(id) => id.clone(),
            None => String::new(),
        };
        let layout: PlacementSpec = layout_for(state, facts, &places, k, Ghost(c));
        let kept: (bool, Option<String>) = capture_inclusion(w, process, &project_root);
        let spec = WindowSpec {
            name,
            command: infer_command(w, process, installed_apps.as_slice(), programs),
            match_spec: match_for(&state.windows, at),
            reuse: ReusePolicy::Unique,
            layout,
        };
        assert(spec@ =~= c.spec_of(k as int));
        windows.push(spec);
        let detail = CapturedWindow {
            title,
            app_id,
            cwd: copy_opt(&w.cwd),
            include_by_default: kept.0,
            inclusion_note: kept.1,
        };
        assert(detail@ =~= c.detail_of(k as int));
        details.push(detail);
    }
    let workspace_name: String = match &workspace.name {
        Some(name) => name.clone(),
        None => {
            let mut name: String = "Workspace ".to_owned();
            push_number(&mut name, workspace.index as u64);
            name
        },
    };
    let recipe = Recipe {
        name: Some(workspace_name.clone()),
        workspace: workspace_name,
        output: copy_opt(&workspace.output),
        output_fallback: OutputFallback::Focused,
        focus,
        spawn_timeout_ms: 10_000,
        windows,
    };
    assert(model::window_views(recipe.windows@) =~= c.recipe().windows);
    assert(recipe@ =~= c.recipe());
    assert(captured_views(details@) =~= c.details());
    Ok(CaptureDraft { recipe, details })
}

} // verus!
