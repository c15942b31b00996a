//! Editing a recipe: its fields, what is wrong with them, and saving it.
use crate::commands;
use crate::commands::parse_command;
use crate::editing;
use crate::editing::normalize_columns;
use crate::i18n::Language;
use crate::interface;
use crate::interface::say;
use crate::model::{
    Config, MatchView, PlacementView, Recipe, RecipeView, ReusePolicy, Size, WindowView,
};
use crate::names;
use crate::names::NameMap;
use crate::outside;
use crate::outside::pattern_error;
use crate::same::same_recipe;
use crate::sizes;
use crate::sizes::Percentage;
use crate::text;
use crate::text::{blank, list_contains, opt_is, str_eq, str_lt, trim};
use vstd::prelude::*;

verus! {

// What is wrong

/// The faults by field, after the field `key` was found to have this fault or
/// none.
pub open spec fn noted(
    faults: Seq<(Seq<char>, Seq<char>)>,
    key: Seq<char>,
    fault: Option<Seq<char>>,
) -> Seq<(Seq<char>, Seq<char>)> {
    match fault {
        Some(f) => names::inserted(faults, key, f),
        None => names::removed(faults, key),
    }
}

/// What is wrong with which field of a recipe that is being edited.
#[derive(Debug)]
pub struct Faults {
    pub by_field: NameMap<String>,
}

pub open spec fn as_text() -> spec_fn(String) -> Seq<char> {
    |s: String| s@
}

impl View for Faults {
    type V = Seq<(Seq<char>, Seq<char>)>;

    open spec fn view(&self) -> Seq<(Seq<char>, Seq<char>)> {
        names::mapped(self.by_field@, as_text())
    }
}

impl Faults {
    /// Nothing is wrong.
    pub fn new() -> (out: Faults)
        ensures
            out@ == Seq::<(Seq<char>, Seq<char>)>::empty(),
    {
        let out = Faults { by_field: NameMap::new() };
        assert(out@ =~= Seq::<(Seq<char>, Seq<char>)>::empty());
        out
    }

    /// Whether nothing is wrong.
    pub fn is_empty(&self) -> (out: bool)
        ensures
            out == (self@.len() == 0),
    {
        self.by_field.is_empty()
    }
}

/// Takes note of what is wrong with a field, or that nothing is.
pub fn set_entry_validation(faults: &mut Faults, key: &str, fault: Option<String>)
    ensures
        final(faults)@ == noted(old(faults)@, key@, text::opt_text(fault)),
{
    let ghost before = faults.by_field@;
    match fault {
        Some(f) => {
            proof {
                names::mapping_keeps_places(before, key@, f, as_text());
            }
            faults.by_field.insert(key.to_owned(), f);
        },
        None => {
            proof {
                names::mapping_keeps_places(before, key@, arbitrary::<String>(), as_text());
            }
            faults.by_field.remove(key);
        },
    }
}

pub open spec fn empty_workspace(language: Language) -> Seq<char> {
    interface::said(
        language,
        "Имя workspace не может быть пустым"@,
        "Workspace name cannot be empty"@,
    )
}

pub open spec fn no_windows(language: Language) -> Seq<char> {
    interface::said(
        language,
        "В окружении должно быть хотя бы одно окно"@,
        "The workbench must contain at least one window"@,
    )
}

/// The fault of the name of a workspace, if it has one.
pub open spec fn fault_of_workspace(name: Seq<char>, language: Language) -> Option<Seq<char>> {
    if text::is_blank(name) {
        Some(empty_workspace(language))
    } else {
        None
    }
}

/// The fault of the name of a workspace, if it has one.
pub fn workspace_fault(name: &str, language: Language) -> (out: Option<String>)
    ensures
        text::opt_text(out) == fault_of_workspace(name@, language),
{
    if blank(name) {
        Some(
            say(
                language,
                "Имя workspace не может быть пустым",
                "Workspace name cannot be empty",
            ).to_owned(),
        )
    } else {
        None
    }
}

/// The faults with which the editing of a recipe begins.
pub open spec fn first_faults_of(r: RecipeView, language: Language) -> Seq<(Seq<char>, Seq<char>)> {
    let none = Seq::<(Seq<char>, Seq<char>)>::empty();
    let one = if text::is_blank(r.workspace) {
        names::inserted(none, "workspace"@, empty_workspace(language))
    } else {
        none
    };
    if r.windows.len() == 0 {
        names::inserted(one, "windows"@, no_windows(language))
    } else {
        one
    }
}

/// The faults with which the editing of a recipe begins.
pub fn first_faults(draft: &Recipe, language: Language) -> (out: Faults)
    ensures
        out@ == first_faults_of(draft@, language),
{
    let mut out: Faults = Faults::new();
    let fault: Option<String> = workspace_fault(draft.workspace.as_str(), language);
    if fault.is_some() {
        set_entry_validation(&mut out, "workspace", fault);
    }
    assert(draft@.windows.len() == draft.windows@.len());
    if draft.windows.len() == 0 {
        let missing: &str = say(
            language,
            "В окружении должно быть хотя бы одно окно",
            "The workbench must contain at least one window",
        );
        set_entry_validation(&mut out, "windows", Some(missing.to_owned()));
    }
    out
}

// Changing fields

/// The recipe with `w` as its logical window `i`, where it has so many.
pub open spec fn with_window(r: RecipeView, i: int, w: WindowView) -> RecipeView {
    if 0 <= i < r.windows.len() {
        RecipeView { windows: r.windows.update(i, w), ..r }
    } else {
        r
    }
}

/// Changes the name of the workspace.
pub fn edit_workspace(draft: &mut Recipe, faults: &mut Faults, value: &str, language: Language)
    ensures
        final(draft)@ == (RecipeView { workspace: value@, ..old(draft)@ }),
        final(faults)@ == noted(
            old(faults)@,
            "workspace"@,
            fault_of_workspace(value@, language),
        ),
{
    draft.workspace = value.to_owned();
    set_entry_validation(faults, "workspace", workspace_fault(value, language));
}

pub open spec fn with_command(w: WindowView, command: Seq<Seq<char>>) -> WindowView {
    WindowView { command, ..w }
}

/// Changes the command of logical window `index`. A command line with an open
/// quote is not taken.
pub fn edit_command(draft: &mut Recipe, faults: &mut Faults, index: usize, line: &str)
    ensures
        match commands::command_of(line@, outside::shell_words(line@)) {
            Some(command) => final(draft)@ == with_window(
                old(draft)@,
                index as int,
                with_command(old(draft)@.windows[index as int], command),
            ) && final(faults)@ == noted(old(faults)@, "command"@, None),
            None => final(draft)@ == old(draft)@ && final(faults)@ == noted(
                old(faults)@,
                "command"@,
                Some("unclosed quote in launch command"@),
            ),
        },
{
    let ghost before = draft@;
    match parse_command(line) {
        Ok(command) => {
            if index < draft.windows.len() {
                assert(before.windows[index as int] == draft.windows@[index as int]@);
                draft.windows[index].command = command;
                assert(draft@.windows =~= before.windows.update(
                    index as int,
                    with_command(before.windows[index as int], text::texts(command@)),
                ));
            }
            set_entry_validation(faults, "command", None);
        },
        Err(fault) => {
            set_entry_validation(faults, "command", Some(fault.to_owned()));
        },
    }
}

pub open spec fn reuse_choice(selected: u32) -> ReusePolicy {
    if selected == 0 {
        ReusePolicy::Unique
    } else {
        ReusePolicy::Never
    }
}

/// The place of a reuse rule in the list of them.
pub fn reuse_place(reuse: ReusePolicy) -> (out: u32)
    ensures
        reuse_choice(out) == reuse,
        out <= 1,
{
    match reuse {
        ReusePolicy::Unique => 0,
        ReusePolicy::Never => 1,
    }
}

/// Changes the reuse rule of logical window `index` to the one at this place of
/// the list.
pub fn edit_reuse(draft: &mut Recipe, index: usize, selected: u32)
    ensures
        final(draft)@ == with_window(
            old(draft)@,
            index as int,
            WindowView {
                reuse: reuse_choice(selected),
                ..old(draft)@.windows[index as int]
            },
        ),
{
    let ghost before = draft@;
    if index < draft.windows.len() {
        assert(before.windows[index as int] == draft.windows@[index as int]@);
        let reuse: ReusePolicy = if selected == 0 {
            ReusePolicy::Unique
        } else {
            ReusePolicy::Never
        };
        draft.windows[index].reuse = reuse;
        assert(draft@.windows =~= before.windows.update(
            index as int,
            WindowView { reuse, ..before.windows[index as int] },
        ));
    }
}

/// What a size field stands for: nothing where it is blank.
pub open spec fn size_field(line: Seq<char>, number: Option<Percentage>) -> Result<
    Option<Size>,
    Seq<char>,
> {
    if text::is_blank(line) {
        Ok(None)
    } else {
        match sizes::size_of(text::trimmed(line), number) {
            Ok(size) => Ok(Some(size)),
            Err(fault) => Err(fault),
        }
    }
}

fn read_size(line: &str, number: Option<Percentage>) -> (out: Result<Option<Size>, String>)
    ensures
        match out {
            Ok(size) => size_field(line@, number) == Ok::<Option<Size>, Seq<char>>(size),
            Err(fault) => size_field(line@, number) == Err::<Option<Size>, Seq<char>>(fault@),
        },
{
    if blank(line) {
        return Ok(None);
    }
    match Size::from_str(trim(line), number) {
        Ok(size) => Ok(Some(size)),
        Err(fault) => Err(fault.to_owned()),
    }
}

pub open spec fn with_width(w: WindowView, size: Option<Size>) -> WindowView {
    WindowView { layout: PlacementView { column_width: size, ..w.layout }, ..w }
}

pub open spec fn with_height(w: WindowView, size: Option<Size>) -> WindowView {
    WindowView { layout: PlacementView { window_height: size, ..w.layout }, ..w }
}

/// Changes the width of the column of logical window `index`. `number` is the
/// number in front of the percent sign of the text, where it has one.
pub fn edit_column_width(
    draft: &mut Recipe,
    faults: &mut Faults,
    index: usize,
    line: &str,
    number: Option<Percentage>,
)
    ensures
        match size_field(line@, number) {
            Ok(size) => final(draft)@ == with_window(
                old(draft)@,
                index as int,
                with_width(old(draft)@.windows[index as int], size),
            ) && final(faults)@ == noted(old(faults)@, "column-width"@, None),
            Err(fault) => final(draft)@ == old(draft)@ && final(faults)@ == noted(
                old(faults)@,
                "column-width"@,
                Some(fault),
            ),
        },
{
    let ghost before = draft@;
    match read_size(line, number) {
        Ok(size) => {
            if index < draft.windows.len() {
                assert(before.windows[index as int] == draft.windows@[index as int]@);
                draft.windows[index].layout.column_width = size;
                assert(draft@.windows =~= before.windows.update(
                    index as int,
                    with_width(before.windows[index as int], size),
                ));
            }
            set_entry_validation(faults, "column-width", None);
        },
        Err(fault) => {
            set_entry_validation(faults, "column-width", Some(fault));
        },
    }
}

/// Changes the height of logical window `index`. `number` is the number in front
/// of the percent sign of the text, where it has one.
pub fn edit_window_height(
    draft: &mut Recipe,
    faults: &mut Faults,
    index: usize,
    line: &str,
    number: Option<Percentage>,
)
    ensures
        match size_field(line@, number) {
            Ok(size) => final(draft)@ == with_window(
                old(draft)@,
                index as int,
                with_height(old(draft)@.windows[index as int], size),
            ) && final(faults)@ == noted(old(faults)@, "window-height"@, None),
            Err(fault) => final(draft)@ == old(draft)@ && final(faults)@ == noted(
                old(faults)@,
                "window-height"@,
                Some(fault),
            ),
        },
{
    let ghost before = draft@;
    match read_size(line, number) {
        Ok(size) => {
            if index < draft.windows.len() {
                assert(before.windows[index as int] == draft.windows@[index as int]@);
                draft.windows[index].layout.window_height = size;
                assert(draft@.windows =~= before.windows.update(
                    index as int,
                    with_height(before.windows[index as int], size),
                ));
            }
            set_entry_validation(faults, "window-height", None);
        },
        Err(fault) => {
            set_entry_validation(faults, "window-height", Some(fault));
        },
    }
}

/// What a pattern field stands for: nothing where it is blank, and no pattern that
/// does not compile.
pub open spec fn pattern_field(line: Seq<char>, fault: Option<Seq<char>>) -> Result<
    Option<Seq<char>>,
    Seq<char>,
> {
    if text::is_blank(line) {
        Ok(None)
    } else {
        match fault {
            Some(f) => Err(f),
            None => Ok(Some(text::trimmed(line))),
        }
    }
}

pub open spec fn pattern_view(out: Result<Option<String>, String>) -> Result<
    Option<Seq<char>>,
    Seq<char>,
> {
    match out {
        Ok(p) => Ok(text::opt_text(p)),
        Err(f) => Err(f@),
    }
}

/// Decides on a pattern field. `fault` says what is wrong with the pattern that it
/// holds.
pub fn read_pattern(line: &str, fault: Option<String>) -> (out: Result<Option<String>, String>)
    ensures
        pattern_view(out) == pattern_field(line@, text::opt_text(fault)),
{
    if blank(line) {
        return Ok(None);
    }
    match fault {
        Some(f) => Err(f),
        None => Ok(Some(trim(line).to_owned())),
    }
}

pub open spec fn with_app_pattern(w: WindowView, pattern: Option<Seq<char>>) -> WindowView {
    WindowView { match_spec: MatchView { app_id: pattern, ..w.match_spec }, ..w }
}

pub open spec fn with_title_pattern(w: WindowView, pattern: Option<Seq<char>>) -> WindowView {
    WindowView { match_spec: MatchView { title: pattern, ..w.match_spec }, ..w }
}

/// Changes the pattern for the application of logical window `index`. One that
/// does not compile is not taken.
pub fn edit_app_pattern(draft: &mut Recipe, faults: &mut Faults, index: usize, line: &str)
    ensures
        match pattern_field(line@, outside::regex_error(text::trimmed(line@))) {
            Ok(pattern) => final(draft)@ == with_window(
                old(draft)@,
                index as int,
                with_app_pattern(old(draft)@.windows[index as int], pattern),
            ) && final(faults)@ == noted(old(faults)@, "match-app-id"@, None),
            Err(fault) => final(draft)@ == old(draft)@ && final(faults)@ == noted(
                old(faults)@,
                "match-app-id"@,
                Some(fault),
            ),
        },
{
    let ghost before = draft@;
    match read_pattern(line, pattern_error(trim(line))) {
        Ok(pattern) => {
            if index < draft.windows.len() {
                assert(before.windows[index as int] == draft.windows@[index as int]@);
                draft.windows[index].match_spec.app_id = pattern;
                assert(draft@.windows =~= before.windows.update(
                    index as int,
                    with_app_pattern(before.windows[index as int], text::opt_text(pattern)),
                ));
            }
            set_entry_validation(faults, "match-app-id", None);
        },
        Err(fault) => {
            set_entry_validation(faults, "match-app-id", Some(fault));
        },
    }
}

/// Changes the pattern for the title of logical window `index`. One that does not
/// compile is not taken.
pub fn edit_title_pattern(draft: &mut Recipe, faults: &mut Faults, index: usize, line: &str)
    ensures
        match pattern_field(line@, outside::regex_error(text::trimmed(line@))) {
            Ok(pattern) => final(draft)@ == with_window(
                old(draft)@,
                index as int,
                with_title_pattern(old(draft)@.windows[index as int], pattern),
            ) && final(faults)@ == noted(old(faults)@, "match-title"@, None),
            Err(fault) => final(draft)@ == old(draft)@ && final(faults)@ == noted(
                old(faults)@,
                "match-title"@,
                Some(fault),
            ),
        },
{
    let ghost before = draft@;
    match read_pattern(line, pattern_error(trim(line))) {
        Ok(pattern) => {
            if index < draft.windows.len() {
                assert(before.windows[index as int] == draft.windows@[index as int]@);
                draft.windows[index].match_spec.title = pattern;
                assert(draft@.windows =~= before.windows.update(
                    index as int,
                    with_title_pattern(before.windows[index as int], text::opt_text(pattern)),
                ));
            }
            set_entry_validation(faults, "match-title", None);
        },
        Err(fault) => {
            set_entry_validation(faults, "match-title", Some(fault));
        },
    }
}

pub open spec fn with_column_number(w: WindowView, column: usize) -> WindowView {
    WindowView { layout: PlacementView { column, ..w.layout }, ..w }
}

/// Changes the column of logical window `index`; there is none below the first.
pub fn edit_column(draft: &mut Recipe, index: usize, value: i32)
    ensures
        final(draft)@ == with_window(
            old(draft)@,
            index as int,
            with_column_number(
                old(draft)@.windows[index as int],
                if value < 1 {
                    1
                } else {
                    value as usize
                },
            ),
        ),
{
    let ghost before = draft@;
    if index < draft.windows.len() {
        assert(before.windows[index as int] == draft.windows@[index as int]@);
        let column: usize = if value < 1 {
            1
        } else {
            value as usize
        };
        draft.windows[index].layout.column = column;
        assert(draft@.windows =~= before.windows.update(
            index as int,
            with_column_number(before.windows[index as int], column),
        ));
    }
}

/// The window that gets the focus, after the switch of the window `name` was set.
pub open spec fn focus_after(
    focus: Option<Seq<char>>,
    name: Seq<char>,
    active: bool,
) -> Option<Seq<char>> {
    if active {
        Some(name)
    } else if focus == Some(name) {
        None
    } else {
        focus
    }
}

/// Says whether the window `name` gets the focus at the end.
pub fn edit_focus(draft: &mut Recipe, name: &str, active: bool)
    ensures
        final(draft)@ == (RecipeView {
            focus: focus_after(old(draft)@.focus, name@, active),
            ..old(draft)@
        }),
{
    if active {
        draft.focus = Some(name.to_owned());
    } else if opt_is(&draft.focus, name) {
        draft.focus = None;
    }
}

// Outputs

/// `out` lists the texts of `names` in their order, each once.
pub open spec fn lists_names(out: Seq<Seq<char>>, names: Seq<Seq<char>>) -> bool {
    &&& forall|i: int, j: int|
        0 <= i < j < out.len() ==> text::text_lt(#[trigger] out[i], #[trigger] out[j])
    &&& forall|s: Seq<char>|
        #![trigger out.contains(s)]
        #![trigger names.contains(s)]
        out.contains(s) <==> names.contains(s)
}

fn sorted_names(list: &Vec<String>) -> (out: Vec<String>)
    ensures
        lists_names(text::texts(out@), text::texts(list@)),
{
    let ghost all = text::texts(list@);
    let mut out: Vec<String> = Vec::new();
    for i in 0..list.len()
        invariant
            all == text::texts(list@),
            lists_names(text::texts(out@), all.take(i as int)),
    {
        let ghost before = text::texts(out@);
        let name: &str = list[i].as_str();
        assert(all[i as int] == name@);
        let mut at: usize = 0;
        while at < out.len() && str_lt(out[at].as_str(), name)
            invariant
                before == text::texts(out@),
                at <= out@.len(),
                forall|k: int| 0 <= k < at ==> text::text_lt(#[trigger] before[k], name@),
            decreases out@.len() - at,
        {
            assert(before[at as int] == out@[at as int]@);
            at = at + 1;
        }
        let there: bool = at < out.len() && str_eq(out[at].as_str(), name);
        proof {
            assert(at < out@.len() ==> before[at as int] == out@[at as int]@);
            assert forall|s: Seq<char>| all.take(i + 1).contains(s) <==> all.take(
                i as int,
            ).contains(s) || s == name@ by {
                let t = all.take(i as int);
                let u = all.take(i + 1);
                if u.contains(s) {
                    let k = choose|k: int| 0 <= k < u.len() && u[k] == s;
                    if k < i {
                        assert(t[k] == s);
                    }
                }
                if t.contains(s) {
                    let k = choose|k: int| 0 <= k < t.len() && t[k] == s;
                    assert(u[k] == s);
                }
                if s == name@ {
                    assert(u[i as int] == s);
                }
            }
        }
        if there {
            assert(before.contains(name@)) by {
                assert(before[at as int] == name@);
            }
        } else {
            proof {
                assert forall|k: int| at <= k < before.len() implies text::text_lt(
                    name@,
                    #[trigger] before[k],
                ) by {
                    text::text_lt_is_total(name@, before[at as int]);
                    if k > at {
                        assert(text::text_lt(before[at as int], before[k]));
                        text::text_lt_is_transitive(name@, before[at as int], before[k]);
                    }
                }
            }
            out.insert(at, name.to_owned());
            let ghost after = text::texts(out@);
            assert(after =~= before.insert(at as int, name@));
            assert forall|a: int, b: int| 0 <= a < b < after.len() implies text::text_lt(
                #[trigger] after[a],
                #[trigger] after[b],
            ) by {
                if b < at {
                    assert(after[a] == before[a] && after[b] == before[b]);
                } else if b == at {
                    assert(after[a] == before[a]);
                } else if a < at {
                    assert(after[a] == before[a] && after[b] == before[b - 1]);
                } else if a == at {
                    assert(after[b] == before[b - 1]);
                } else {
                    assert(after[a] == before[a - 1] && after[b] == before[b - 1]);
                }
            }
            assert forall|s: Seq<char>| after.contains(s) <==> before.contains(s) || s
                == name@ by {
                if after.contains(s) {
                    let k = choose|k: int| 0 <= k < after.len() && after[k] == s;
                    if k < at {
                        assert(before[k] == s);
                    } else if k > at {
                        assert(before[k - 1] == s);
                    }
                }
                if before.contains(s) {
                    let k = choose|k: int| 0 <= k < before.len() && before[k] == s;
                    if k < at {
                        assert(after[k] == s);
                    } else {
                        assert(after[k + 1] == s);
                    }
                }
                if s == name@ {
                    assert(after[at as int] == s);
                }
            }
        }
    }
    assert(all.take(list@.len() as int) =~= all);
    out
}

/// The names of the outputs to choose from: those that are connected, and the one
/// that is asked for.
pub open spec fn offered_outputs(current: Option<Seq<char>>, connected: Seq<Seq<char>>) -> Seq<
    Seq<char>,
> {
    if current is Some && current->0.len() > 0 && !connected.contains(current->0) {
        connected.push(current->0)
    } else {
        connected
    }
}

/// The outputs to choose from, and the place of the one that is asked for. At the
/// first place stands the choice of none.
#[derive(Debug)]
pub struct OutputChoice {
    pub names: Vec<String>,
    pub selected: usize,
}

impl OutputChoice {
    /// The output at a place of the list.
    pub fn at(&self, place: usize) -> (out: Option<String>)
        ensures
            text::opt_text(out) == if 0 < place <= self.names@.len() {
                Some(self.names@[place - 1]@)
            } else {
                None
            },
    {
        if 0 < place && place <= self.names.len() {
            Some(self.names[place - 1].clone())
        } else {
            None
        }
    }
}

/// The outputs to choose from.
pub fn output_dropdown(current: &Option<String>, connected: &Vec<String>) -> (out: OutputChoice)
    ensures
        lists_names(
            text::texts(out.names@),
            offered_outputs(text::opt_text(*current), text::texts(connected@)),
        ),
        if current is Some && text::texts(out.names@).contains(current->0@) {
            0 < out.selected <= out.names@.len() && out.names@[out.selected - 1]@ == current->0@
        } else {
            out.selected == 0
        },
{
    let mut list: Vec<String> = Vec::new();
    for i in 0..connected.len()
        invariant
            list@.len() == i,
            forall|k: int| 0 <= k < i ==> (#[trigger] list@[k])@ == connected@[k]@,
    {
        list.push(connected[i].clone());
    }
    assert(text::texts(list@) =~= text::texts(connected@));
    if let Some(name) = current {
        if name.as_str().unicode_len() > 0 && !list_contains(connected, name.as_str()) {
            list.push(name.clone());
            assert(text::texts(list@) =~= text::texts(connected@).push(name@));
        }
    }
    let names: Vec<String> = sorted_names(&list);
    let mut selected: usize = 0;
    let mut i: usize = 0;
    if let Some(name) = current {
        while i < names.len() && selected == 0
            invariant
                i <= names@.len(),
                selected == 0 || (0 < selected <= names@.len() && names@[selected - 1]@ == name@),
                selected == 0 ==> forall|k: int| 0 <= k < i ==> (#[trigger] names@[k])@ != name@,
            ensures
                selected == 0 || (0 < selected <= names@.len() && names@[selected - 1]@ == name@),
                selected == 0 ==> forall|k: int|
                    0 <= k < names@.len() ==> (#[trigger] names@[k])@ != name@,
            decreases names@.len() - i,
        {
            if str_eq(names[i].as_str(), name.as_str()) {
                selected = i + 1;
            }
            i = i + 1;
        }
        proof {
            let t = text::texts(names@);
            if selected == 0 && t.contains(name@) {
                let k = choose|k: int| 0 <= k < t.len() && t[k] == name@;
                assert(names@[k]@ == name@);
            }
            if selected > 0 {
                assert(t[selected - 1] == name@);
            }
        }
    }
    OutputChoice { names, selected }
}

// Saving

/// The draft differs from what is saved under its key, or nothing is.
pub open spec fn is_unsaved(saved: Seq<(Seq<char>, Recipe)>, key: Seq<char>, draft: RecipeView) -> bool {
    match names::lookup(saved, key) {
        Some(r) => r@ != draft,
        None => true,
    }
}

/// Whether the draft differs from what is saved under its key.
pub fn editor_has_unsaved_changes(config: &Config, key: &str, draft: &Recipe) -> (out: bool)
    ensures
        out == is_unsaved(config.workbench@, key@, draft@),
{
    match config.workbench.get(key) {
        Some(saved) => !same_recipe(saved, draft),
        None => true,
    }
}

/// Whether something would be lost by leaving the editor.
pub fn editor_requires_confirmation(
    config: &Config,
    key: &str,
    draft: &Recipe,
    faults: &Faults,
) -> (out: bool)
    ensures
        out == (is_unsaved(config.workbench@, key@, draft@) || faults@.len() > 0),
{
    editor_has_unsaved_changes(config, key, draft) || !faults.is_empty()
}

/// What the editor shows of its draft.
#[derive(Debug, Clone, Copy, PartialEq, Eq, Structural)]
pub enum EditorStatus {
    Faulty,
    Unsaved,
    Saved,
}

/// What the editor shows of its draft.
pub fn editor_status(config: &Config, key: &str, draft: &Recipe, faults: &Faults) -> (out:
    EditorStatus)
    ensures
        out == if faults@.len() > 0 {
            EditorStatus::Faulty
        } else if is_unsaved(config.workbench@, key@, draft@) {
            EditorStatus::Unsaved
        } else {
            EditorStatus::Saved
        },
{
    if !faults.is_empty() {
        EditorStatus::Faulty
    } else if editor_has_unsaved_changes(config, key, draft) {
        EditorStatus::Unsaved
    } else {
        EditorStatus::Saved
    }
}

impl EditorStatus {
    /// How the status is called.
    pub fn label(self, language: Language) -> (out: &'static str)
        ensures
            out@ == match self {
                EditorStatus::Faulty => interface::said(language, "Исправь ошибки"@, "Fix errors"@),
                EditorStatus::Unsaved => interface::said(
                    language,
                    "Есть изменения"@,
                    "Unsaved changes"@,
                ),
                EditorStatus::Saved => interface::said(language, "Сохранено"@, "Saved"@),
            },
    {
        match self {
            EditorStatus::Faulty => say(language, "Исправь ошибки", "Fix errors"),
            EditorStatus::Unsaved => say(language, "Есть изменения", "Unsaved changes"),
            EditorStatus::Saved => say(language, "Сохранено", "Saved"),
        }
    }

    /// The style of the status.
    pub fn class(self) -> (out: &'static str)
        ensures
            out@ == match self {
                EditorStatus::Faulty => "status-error"@,
                EditorStatus::Unsaved => "status-warning"@,
                EditorStatus::Saved => "status-ready"@,
            },
    {
        match self {
            EditorStatus::Faulty => "status-error",
            EditorStatus::Unsaved => "status-warning",
            EditorStatus::Saved => "status-ready",
        }
    }

    /// Whether the draft can be saved.
    pub fn can_save(self) -> (out: bool)
        ensures
            out == (self == EditorStatus::Unsaved),
    {
        self == EditorStatus::Unsaved
    }
}

/// What saving a draft comes to.
#[derive(Debug)]
pub enum SaveStep {
    /// A field is wrong, with what to say.
    Refuse(String),
    /// There is nothing to save.
    Nothing,
    /// This recipe is to be saved.
    Save(Recipe),
}

#[verifier::ext_equal]
pub enum SaveView {
    Refuse(Seq<char>),
    Nothing,
    Save(RecipeView),
}

impl View for SaveStep {
    type V = SaveView;

    open spec fn view(&self) -> SaveView {
        match *self {
            SaveStep::Refuse(s) => SaveView::Refuse(s@),
            SaveStep::Nothing => SaveView::Nothing,
            SaveStep::Save(r) => SaveView::Save(r@),
        }
    }
}

/// What saving a draft comes to: where no field is wrong and something changed, the
/// draft with its columns numbered without gaps is saved.
pub open spec fn save_step(
    saved: Seq<(Seq<char>, Recipe)>,
    key: Seq<char>,
    draft: RecipeView,
    faults: Seq<(Seq<char>, Seq<char>)>,
    language: Language,
) -> SaveView {
    if faults.len() > 0 {
        SaveView::Refuse(
            interface::said(
                language,
                "Исправь ошибку перед сохранением: "@,
                "Fix the invalid field before saving: "@,
            ) + faults[0].1,
        )
    } else if !is_unsaved(saved, key, draft) {
        SaveView::Nothing
    } else {
        SaveView::Save(editing::with_windows(draft, editing::normalized(draft.windows)))
    }
}

/// Says what saving a draft comes to.
pub fn save_editor_draft(
    config: &Config,
    key: &str,
    draft: &Recipe,
    faults: &Faults,
    language: Language,
) -> (out: SaveStep)
    ensures
        out@ == save_step(config.workbench@, key@, draft@, faults@, language),
{
    if !faults.is_empty() {
        let mut message: String = say(
            language,
            "Исправь ошибку перед сохранением: ",
            "Fix the invalid field before saving: ",
        ).to_owned();
        message.append(faults.by_field.value_at(0).as_str());
        return SaveStep::Refuse(message);
    }
    if !editor_has_unsaved_changes(config, key, draft) {
        return SaveStep::Nothing;
    }
    let mut recipe: Recipe = draft.clone();
    normalize_columns(&mut recipe);
    SaveStep::Save(recipe)
}

// Laws

/// What was saved is no longer unsaved, and saving it again does nothing.
pub proof fn saved_drafts_are_clean(
    saved: Seq<(Seq<char>, Recipe)>,
    key: Seq<char>,
    recipe: Recipe,
    language: Language,
)
    requires
        names::names_ascend(saved),
    ensures
        !is_unsaved(names::inserted(saved, key, recipe), key, recipe@),
        save_step(
            names::inserted(saved, key, recipe),
            key,
            recipe@,
            Seq::empty(),
            language,
        ) is Nothing,
{
    names::insertion_is_local(saved, key, recipe, key);
}

/// A draft with a fault is not saved.
pub proof fn faulty_drafts_are_not_saved(
    saved: Seq<(Seq<char>, Recipe)>,
    key: Seq<char>,
    draft: RecipeView,
    faults: Seq<(Seq<char>, Seq<char>)>,
    language: Language,
)
    requires
        faults.len() > 0,
    ensures
        save_step(saved, key, draft, faults, language) is Refuse,
{
}

/// A recipe that is saved has its columns numbered from 1 without gaps.
pub proof fn saved_columns_are_contiguous(
    saved: Seq<(Seq<char>, Recipe)>,
    key: Seq<char>,
    draft: RecipeView,
    faults: Seq<(Seq<char>, Seq<char>)>,
    language: Language,
)
    requires
        draft.windows.len() <= usize::MAX,
    ensures
        match save_step(saved, key, draft, faults, language) {
            SaveView::Save(r) => crate::edit_laws::is_contiguous(r.windows),
            _ => true,
        },
{
    crate::edit_laws::renumbering_leaves_no_gaps(draft.windows);
}

} // verus!
