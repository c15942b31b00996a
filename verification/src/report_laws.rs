//! What is promised of what the program reports.
use crate::doctor;
use crate::doctor::{CommandFinding, FindingsView, IpcFinding, LibraryFinding};
use crate::execute;
use crate::lists;
use crate::model;
use crate::model::{
    ColumnDisplay, MatchView, OutputView, Recipe, RecipeView, Size, StateView, WindowView,
    WorkspaceView,
};
use crate::outside;
use crate::paths;
use crate::planner::ActionView;
use crate::report;
use crate::report::SharesView;
use crate::resolve::ExistingResolution;
use crate::saving;
use crate::show;
use crate::sizes;
use crate::sizes::Percentage;
use crate::text;
use vstd::prelude::*;

verus! {

// Findings

/// The findings `b` hold all lines of `a`, `e` errors and `w` warnings more.
pub open spec fn adds(a: FindingsView, b: FindingsView, e: int, w: int) -> bool {
    a.lines.is_prefix_of(b.lines) && b.errors == a.errors + e && b.warnings == a.warnings + w
}

/// It is an error where the compositor's program is not found, the library cannot be
/// read, or the compositor cannot be reached. A compositor of another version than the
/// one that is known, or that does not say its version, is a warning.
pub proof fn findings_count_what_is_wrong(
    f: FindingsView,
    path: Option<Seq<char>>,
    at: Seq<char>,
    library: LibraryFinding,
    ipc: IpcFinding,
)
    ensures
        adds(
            f,
            doctor::niri_found(f, path),
            if path is None {
                1
            } else {
                0
            },
            0,
        ),
        adds(
            f,
            doctor::library_found(f, at, library),
            if library is Failed {
                1
            } else {
                0
            },
            0,
        ),
        adds(
            f,
            doctor::ipc_found(f, ipc),
            if ipc is NoSocket || ipc is Failed {
                1
            } else {
                0
            },
            match ipc {
                IpcFinding::NoVersion(_) => 1,
                IpcFinding::Connected(version) => if "26.04"@.is_prefix_of(version@) {
                    0
                } else {
                    1
                },
                _ => 0,
            },
        ),
{
}

/// The program of a command cannot be run: it was not found, or its name could not be
/// expanded.
pub open spec fn cannot_run(c: CommandFinding) -> bool {
    match c {
        CommandFinding::Nothing => false,
        CommandFinding::Program { found, .. } => !found,
        CommandFinding::Failed { .. } => true,
    }
}

/// A program that cannot be run is an error, and a logical window without a command a
/// warning. A program that is found is counted.
pub proof fn commands_are_counted(
    f: (FindingsView, nat),
    key: Seq<char>,
    w: Seq<char>,
    c: CommandFinding,
)
    ensures
        adds(
            f.0,
            doctor::command_found(f, key, w, c).0,
            if cannot_run(c) {
                1
            } else {
                0
            },
            if c is Nothing {
                1
            } else {
                0
            },
        ),
        doctor::command_found(f, key, w, c).1 == f.1 + if !cannot_run(c) && !(c is Nothing) {
            1int
        } else {
            0
        },
{
}

proof fn recipe_errors(
    f: (FindingsView, nat),
    key: Seq<char>,
    windows: Seq<WindowView>,
    cs: Seq<CommandFinding>,
    n: nat,
)
    ensures
        doctor::recipe_found(f, key, windows, cs, n).0.errors >= f.0.errors,
        doctor::recipe_found(f, key, windows, cs, n).0.errors == f.0.errors <==> forall|k: int|
            0 <= k < n ==> !cannot_run(#[trigger] cs[k]),
    decreases n,
{
    if n > 0 {
        recipe_errors(f, key, windows, cs, (n - 1) as nat);
        let before = doctor::recipe_found(f, key, windows, cs, (n - 1) as nat);
        commands_are_counted(before, key, windows[n - 1].name, cs[n - 1]);
    }
}

proof fn all_errors(
    f: (FindingsView, nat),
    recipes: Seq<(Seq<char>, Recipe)>,
    cs: Seq<Seq<CommandFinding>>,
    n: nat,
)
    requires
        n <= recipes.len(),
    ensures
        doctor::commands_found(f, recipes, cs, n).0.errors >= f.0.errors,
        doctor::commands_found(f, recipes, cs, n).0.errors == f.0.errors <==> forall|i: int, k: int|
            0 <= i < n && 0 <= k < recipes[i].1@.windows.len() ==> !cannot_run(
                #[trigger] cs[i][k],
            ),
    decreases n,
{
    if n > 0 {
        all_errors(f, recipes, cs, (n - 1) as nat);
        let before = doctor::commands_found(f, recipes, cs, (n - 1) as nat);
        let r = recipes[n - 1].1@.windows;
        recipe_errors(before, recipes[n - 1].0, r, cs[n - 1], r.len());
        if forall|i: int, k: int|
            0 <= i < n && 0 <= k < recipes[i].1@.windows.len() ==> !cannot_run(#[trigger] cs[i][k]) {
            assert forall|k: int| 0 <= k < r.len() implies !cannot_run(
                #[trigger] cs[n - 1][k],
            ) by {}
        }
    }
}

/// The commands of a library bring no error just where each program can be run.
pub proof fn commands_that_run_are_no_error(
    f: FindingsView,
    recipes: Seq<(Seq<char>, Recipe)>,
    cs: Seq<Seq<CommandFinding>>,
)
    ensures
        doctor::all_commands_found(f, recipes, cs).errors == f.errors <==> forall|i: int, k: int|
            0 <= i < recipes.len() && 0 <= k < recipes[i].1@.windows.len() ==> !cannot_run(
                #[trigger] cs[i][k],
            ),
{
    all_errors((f, 0), recipes, cs, recipes.len());
}

proof fn request_warnings(
    f: FindingsView,
    recipes: Seq<(Seq<char>, Recipe)>,
    shown: Seq<Seq<char>>,
    n: nat,
)
    requires
        n <= recipes.len(),
    ensures
        doctor::requests_found(f, recipes, shown, n).errors == f.errors,
        doctor::requests_found(f, recipes, shown, n).warnings >= f.warnings,
        doctor::requests_found(f, recipes, shown, n).warnings == f.warnings <==> forall|i: int|
            0 <= i < n && (#[trigger] recipes[i]).1@.output is Some ==> shown.contains(
                recipes[i].1@.output->0,
            ),
    decreases n,
{
    if n > 0 {
        request_warnings(f, recipes, shown, (n - 1) as nat);
        let r = recipes[n - 1];
    }
}

/// The outputs of a library bring no warning just where some output shows something,
/// and each that is asked for does.
pub proof fn connected_outputs_are_no_warning(
    f: FindingsView,
    recipes: Seq<(Seq<char>, Recipe)>,
    outputs: Seq<OutputView>,
)
    ensures
        doctor::outputs_found(f, recipes, outputs).errors == f.errors,
        doctor::outputs_found(f, recipes, outputs).warnings == f.warnings <==> (exists|j: int|
            0 <= j < outputs.len() && (#[trigger] outputs[j]).width is Some) && forall|i: int|
            0 <= i < recipes.len() && (#[trigger] recipes[i]).1@.output is Some ==> is_shown_on(
                outputs,
                recipes[i].1@.output->0,
            ),
{
    let shown = doctor::shown_outputs(outputs);
    let n = outputs.len();
    assert forall|name: Seq<char>| #[trigger] shown.contains(name) <==> is_shown_on(
        outputs,
        name,
    ) by {
        doctor::shown_so_far(outputs, n as int, name);
    }
    if exists|j: int| 0 <= j < n && (#[trigger] outputs[j]).width is Some {
        let j = choose|j: int| 0 <= j < n && (#[trigger] outputs[j]).width is Some;
        assert(is_shown_on(outputs, outputs[j].name));
        assert(shown.contains(outputs[j].name));
    }
    if shown.len() > 0 {
        assert(shown.contains(shown[0]));
        assert(is_shown_on(outputs, shown[0]));
    }
    let g = if shown.len() == 0 {
        f.warned("! Niri reports no enabled outputs"@)
    } else {
        f.good("✓ output(s): "@ + text::joined(shown, ", "@))
    };
    request_warnings(g, recipes, shown, recipes.len());
    if shown.len() > 0 {
        assert forall|i: int| 0 <= i < recipes.len() && (
        #[trigger] recipes[i]).1@.output is Some implies (shown.contains(recipes[i].1@.output->0)
            <==> is_shown_on(outputs, recipes[i].1@.output->0)) by {
            let b = shown.contains(recipes[i].1@.output->0);
        }
    }
}

/// An output of this name shows something.
pub open spec fn is_shown_on(outputs: Seq<OutputView>, name: Seq<char>) -> bool {
    exists|k: int|
        0 <= k < outputs.len() && (#[trigger] outputs[k]).width is Some && outputs[k].name == name
}

/// A command that is a path stands for itself, and any other for a file of its name in
/// each directory, in their order.
pub proof fn commands_are_looked_for_in_order(command: Seq<char>, dirs: Seq<Seq<char>>, i: int)
    ensures
        paths::rooted(command).len() > 1 ==> doctor::executable_paths(command, dirs) == seq![
            command,
        ],
        paths::rooted(command).len() <= 1 ==> doctor::executable_paths(command, dirs).len()
            == dirs.len() && (0 <= i < dirs.len() ==> doctor::executable_paths(command, dirs)[i]
            == paths::join_path(dirs[i], command)),
{
}

// The command line

/// A line of the list tells the key, what the recipe is called, and its workspace.
pub proof fn lists_tell_recipes_apart(key: Seq<char>, r: RecipeView)
    ensures
        ({
            let line = report::list_line(key, r);
            &&& line.len() >= key.len() && line.take(key.len() as int) == key
            &&& text::has_part(line, saving::display_name(r))
            &&& text::has_part(line, "[workspace: "@ + r.workspace + "]"@)
        }),
{
    let line = report::list_line(key, r);
    let name = saving::display_name(r);
    assert(line.take(key.len() as int) =~= key);
    let a = show::padded(key, 20) + " "@;
    assert(line.subrange(a.len() as int, (a.len() + name.len()) as int) =~= name);
    assert(text::occurs_at(line, name, a.len() as int));
    let end = "[workspace: "@ + r.workspace + "]"@;
    reveal_strlit("  [workspace: ");
    reveal_strlit("[workspace: ");
    assert("  [workspace: "@ =~= seq![' ', ' '] + "[workspace: "@);
    assert(line.subrange(line.len() - end.len(), line.len() as int) =~= end);
    assert(text::occurs_at(line, end, line.len() - end.len()));
}

/// A plan says of a logical window whether it takes an open window or starts one, and a
/// status whether it was found or is missing.
pub proof fn resolutions_are_told(w: WindowView, id: u64)
    ensures
        report::resolution_line(w, ExistingResolution::Reuse(id), true) == "REUSE   "@
            + show::padded(w.name, 12) + " window "@ + text::decimal(id as nat),
        report::resolution_line(w, ExistingResolution::Reuse(id), false) == "FOUND   "@
            + show::padded(w.name, 12) + " window "@ + text::decimal(id as nat),
        report::resolution_line(w, ExistingResolution::Spawn, true) == "SPAWN   "@ + show::padded(
            w.name,
            12,
        ) + " "@ + show::shellish_text(w.command),
        report::resolution_line(w, ExistingResolution::Spawn, false) == "MISSING "@ + show::padded(
            w.name,
            12,
        ) + " would spawn "@ + show::shellish_text(w.command),
{
}

/// The layout is converged where nothing is left to do; else there is a line for each
/// action.
pub proof fn drift_is_told_by_action(plan: Seq<ActionView>, percents: Seq<Seq<char>>, i: int)
    ensures
        plan.len() == 0 ==> report::layout_status(plan, percents) == seq![
            "observable layout: converged"@,
        ] && report::drift_text(plan, percents).len() == 0,
        0 <= i < plan.len() ==> report::layout_status(plan, percents).len() == plan.len() + 1
            && report::layout_status(plan, percents)[0] == "observable layout: drift"@
            && report::layout_status(plan, percents)[i + 1] == "  "@ + show::action_shown(
            plan[i],
            percents[i],
        ) && report::drift_text(plan, percents)[i + 1] == "  "@ + show::action_shown(
            plan[i],
            percents[i],
        ),
{
}

/// Actions can be told where the workspace is there and every logical window is open.
pub proof fn plans_need_all_windows(
    r: RecipeView,
    s: StateView,
    ids: Seq<(Seq<char>, u64)>,
    i: int,
)
    requires
        0 <= i < s.workspaces.len(),
        s.workspaces[i].name == Some(r.workspace),
        forall|j: int| 0 <= j < i ==> (#[trigger] s.workspaces[j]).name != Some(r.workspace),
    ensures
        report::plannable(r, s, ids) == if ids.len() == r.windows.len() {
            Some(s.workspaces[i].id)
        } else {
            None
        },
{
    lists::first_is(s.workspaces, model::workspace_named(r.workspace), i);
}

/// A plan says that the workspace is kept, moved or made.
pub proof fn workspaces_are_told(r: RecipeView, w: WorkspaceView, target: Seq<char>)
    ensures
        report::workspace_plan(r, None, target) == "CREATE  named workspace "@
            + outside::debug_text(r.workspace) + " on "@ + target
            + " using an empty Niri workspace"@,
        w.output == Some(target) ==> report::workspace_plan(r, Some(w), target)
            == "KEEP    workspace "@ + outside::debug_text(r.workspace) + " on "@ + target,
        w.output != Some(target) ==> report::workspace_plan(r, Some(w), target)
            == "MOVE    workspace "@ + outside::debug_text(r.workspace) + " "@ + show::opt_debug(
            w.output,
        ) + " -> "@ + target,
        report::workspace_status(r, None, target).len() == 1,
        w.output == Some(target) ==> report::workspace_status(r, Some(w), target).len() == 1,
        w.output != Some(target) ==> report::workspace_status(r, Some(w), target).len() == 2,
{
}

/// A recipe that was applied is reported as converged just where nothing was changed;
/// else each thing that was done has a line.
pub proof fn what_was_done_is_told(
    key: Seq<char>,
    activity: Seq<Seq<char>>,
    reassertions: nat,
    i: int,
)
    ensures
        report::apply_text(key, true, activity, 0) == seq![key + " already converged"@],
        report::apply_text(key, true, activity, reassertions).len() == 1,
        report::apply_text(key, false, activity, reassertions)[0] == "Applied "@ + key + ":"@,
        0 <= i < activity.len() ==> report::apply_text(key, false, activity, reassertions)[i + 1]
            == "  "@ + activity[i],
        report::apply_text(key, false, activity, reassertions).len() == activity.len() + 1 + if
            reassertions > 0 {
            1int
        } else {
            0
        },
{
}

/// A recipe that was repaired is reported as converged just where nothing was done and
/// nothing is left; else each action has a line.
pub proof fn what_was_repaired_is_told(
    key: Seq<char>,
    executed: Seq<ActionView>,
    percents: Seq<Seq<char>>,
    left: bool,
    i: int,
)
    ensures
        ({
            let out = report::repair_text(key, executed, percents, left);
            &&& executed.len() == 0 && !left ==> out == seq![
                key + " observable layout already converged"@,
            ]
            &&& executed.len() > 0 || left ==> out.len() == executed.len() + 1 && out[0]
                == "Repaired "@ + key + ":"@
            &&& 0 <= i < executed.len() ==> out[i + 1] == "  "@ + show::action_shown(
                executed[i],
                percents[i],
            )
        }),
{
}

/// The display that is declared for a column is that of its last window with one.
pub proof fn the_last_display_counts(windows: Seq<WindowView>, i: int)
    requires
        0 <= i < windows.len(),
        windows[i].layout.display is Some,
        forall|j: int|
            i < j < windows.len() && (#[trigger] windows[j]).layout.display is Some
                ==> windows[j].layout.column != windows[i].layout.column,
    ensures
        report::declared_display(windows, windows[i].layout.column)
            == windows[i].layout.display->0,
        lists::is_key(report::display_keys(windows), windows[i].layout.column),
        report::display_line(windows, windows[i].layout.column) == "DISPLAY column "@
            + text::decimal(windows[i].layout.column as nat) + " -> "@ + (match windows[i].layout.display->0 {
            ColumnDisplay::Normal => "normal"@,
            ColumnDisplay::Tabbed => "tabbed"@,
        }) + " (reasserted; current mode is not observable)"@,
{
    let keys = report::display_keys(windows);
    let c = windows[i].layout.column;
    lists::members_are(keys, c);
    assert(keys[i] == Some(c));
    let m = lists::members(keys, c);
    assert(m.contains(i));
    let x = choose|x: int| 0 <= x < m.len() && m[x] == i;
    let last = m.last();
    assert(m.contains(m[m.len() - 1]));
    assert(keys[last] == Some(c));
    if x < m.len() - 1 {
        assert(m[x] < m[m.len() - 1]);
        assert(windows[last].layout.display is Some);
    }
}

/// Where a logical window is to go is told by its column and its sizes, or by that it
/// floats.
pub proof fn places_are_told(w: WindowView, shares: SharesView)
    ensures
        w.layout.floating ==> report::place_line(w, shares) == "PLACE   "@ + show::padded(
            w.name,
            12,
        ) + " floating"@,
        !w.layout.floating && w.layout.column_width is None && w.layout.window_height is None
            ==> report::place_line(w, shares) == "PLACE   "@ + show::padded(w.name, 12) + (
        " column "@ + text::decimal(w.layout.column as nat)),
        !w.layout.floating && w.layout.column_width is Some && w.layout.window_height is None
            ==> report::place_line(w, shares) == "PLACE   "@ + show::padded(w.name, 12) + (
        " column "@ + text::decimal(w.layout.column as nat) + (", width "@ + show::size_shown(
            w.layout.column_width->0,
            shares.width,
        ))),
        !w.layout.floating && w.layout.column_width is None && w.layout.window_height is Some
            ==> report::place_line(w, shares) == "PLACE   "@ + show::padded(w.name, 12) + (
        " column "@ + text::decimal(w.layout.column as nat) + (", height "@ + show::size_shown(
            w.layout.window_height->0,
            shares.height,
        ))),
{
    let a = " column "@ + text::decimal(w.layout.column as nat);
    assert(a + Seq::empty() + Seq::empty() =~= a);
    assert(forall|b: Seq<char>| #[trigger] (a + b) + Seq::empty() =~= a + b);
    assert(forall|b: Seq<char>| #[trigger] (a + Seq::empty() + b) =~= a + b);
}

// Actions for people

/// Text that is padded is what it was with spaces behind it, and at least so long.
pub proof fn padding_is_behind(s: Seq<char>, width: int, i: int)
    ensures
        s.is_prefix_of(show::padded(s, width)),
        show::padded(s, width).len() == if s.len() >= width {
            s.len() as int
        } else {
            width
        },
        s.len() <= i < show::padded(s, width).len() ==> show::padded(s, width)[i] == ' ',
{
}

/// The verb of an action for people.
pub open spec fn verb_of(a: ActionView) -> Seq<char> {
    match a {
        ActionView::MoveToWorkspace { .. } => "MOVE    "@,
        ActionView::SetFloating { .. } => "FLOAT   "@,
        ActionView::ExpelRight { .. } => "EXPEL   "@,
        ActionView::MoveColumnToIndex { .. } => "COLUMN  "@,
        ActionView::ConsumeLeft { .. } => "GROUP   "@,
        ActionView::MoveWindowUp { .. } => "ORDER   "@,
        ActionView::MoveWindowDown { .. } => "ORDER   "@,
        ActionView::SetColumnWidth { .. } => "RESIZE  "@,
        ActionView::SetWindowHeight { .. } => "RESIZE  "@,
        ActionView::SetColumnDisplay { .. } => "DISPLAY "@,
        ActionView::Focus { .. } => "FOCUS   "@,
    }
}

/// What an action comes to, for people.
pub open spec fn result_of(a: ActionView, percent: Seq<char>) -> Seq<char> {
    match a {
        ActionView::MoveToWorkspace { to, .. } => " -> "@ + text::decimal(to as nat),
        ActionView::SetFloating { floating, .. } => if floating {
            "floating"@
        } else {
            "tiling"@
        },
        ActionView::ExpelRight { .. } => " from current column"@,
        ActionView::MoveColumnToIndex { to, .. } => " -> "@ + text::decimal(to as nat),
        ActionView::ConsumeLeft { target_column, .. } => " into column "@ + text::decimal(
            target_column as nat,
        ),
        ActionView::MoveWindowUp { to, .. } => " -> "@ + text::decimal(to as nat) + " (up)"@,
        ActionView::MoveWindowDown { to, .. } => " -> "@ + text::decimal(to as nat) + " (down)"@,
        ActionView::SetColumnWidth { size, .. } => " column width -> "@ + show::size_shown(
            size,
            percent,
        ),
        ActionView::SetWindowHeight { size, .. } => " window height -> "@ + show::size_shown(
            size,
            percent,
        ),
        ActionView::SetColumnDisplay { display, .. } => " -> "@ + (match display {
            ColumnDisplay::Normal => "Normal"@,
            ColumnDisplay::Tabbed => "Tabbed"@,
        }),
        ActionView::Focus { name, .. } => name,
    }
}

/// A line is made of a verb, a name with something behind it, and an end.
proof fn line_is_made_of(
    out: Seq<char>,
    verb: Seq<char>,
    name: Seq<char>,
    middle: Seq<char>,
    end: Seq<char>,
)
    requires
        out == verb + show::padded(name, 12) + middle + end,
    ensures
        verb.is_prefix_of(out),
        text::occurs_at(out, name, verb.len() as int),
        end.is_suffix_of(out),
{
    assert(out.take(verb.len() as int) =~= verb);
    assert(out.subrange(verb.len() as int, (verb.len() + name.len()) as int) =~= name);
    assert(out.skip(out.len() - end.len()) =~= end);
}

/// An action is shown by its verb, the name of its window and what it comes to.
pub proof fn actions_are_shown_by_verb_name_and_result(a: ActionView, percent: Seq<char>)
    ensures
        ({
            let out = show::action_shown(a, percent);
            let name = execute::action_name(a);
            &&& verb_of(a).is_prefix_of(out)
            &&& text::occurs_at(out, name, verb_of(a).len() as int)
            &&& result_of(a, percent).is_suffix_of(out)
        }),
{
    let out = show::action_shown(a, percent);
    let verb = verb_of(a);
    let end = result_of(a, percent);
    match a {
        ActionView::MoveToWorkspace { name, from, .. } => {
            let middle = " workspace "@ + show::opt_number(show::id_int(from));
            assert(out =~= verb + show::padded(name, 12) + middle + end);
            line_is_made_of(out, verb, name, middle, end);
        },
        ActionView::SetFloating { name, .. } => {
            line_is_made_of(out, verb, name, " "@, end);
        },
        ActionView::ExpelRight { name, .. } => {
            assert(out =~= verb + show::padded(name, 12) + Seq::empty() + end);
            line_is_made_of(out, verb, name, Seq::empty(), end);
        },
        ActionView::MoveColumnToIndex { name, from, .. } => {
            let middle = " "@ + show::opt_number(show::place_int(from));
            assert(out =~= verb + show::padded(name, 12) + middle + end);
            line_is_made_of(out, verb, name, middle, end);
        },
        ActionView::ConsumeLeft { name, .. } => {
            assert(out =~= verb + show::padded(name, 12) + Seq::empty() + end);
            line_is_made_of(out, verb, name, Seq::empty(), end);
        },
        ActionView::MoveWindowUp { name, from, .. } => {
            let middle = " tile "@ + text::decimal(from as nat);
            assert(out =~= verb + show::padded(name, 12) + middle + end);
            line_is_made_of(out, verb, name, middle, end);
        },
        ActionView::MoveWindowDown { name, from, .. } => {
            let middle = " tile "@ + text::decimal(from as nat);
            assert(out =~= verb + show::padded(name, 12) + middle + end);
            line_is_made_of(out, verb, name, middle, end);
        },
        ActionView::SetColumnWidth { name, .. } => {
            assert(out =~= verb + show::padded(name, 12) + Seq::empty() + end);
            line_is_made_of(out, verb, name, Seq::empty(), end);
        },
        ActionView::SetWindowHeight { name, .. } => {
            assert(out =~= verb + show::padded(name, 12) + Seq::empty() + end);
            line_is_made_of(out, verb, name, Seq::empty(), end);
        },
        ActionView::SetColumnDisplay { name, column, .. } => {
            let middle = " column "@ + text::decimal(column as nat);
            assert(out =~= verb + show::padded(name, 12) + middle + end);
            line_is_made_of(out, verb, name, middle, end);
        },
        ActionView::Focus { name, .. } => {
            assert(out.take(verb.len() as int) =~= verb);
            assert(out.subrange(verb.len() as int, (verb.len() + name.len()) as int) =~= name);
            assert(out.skip(out.len() - end.len()) =~= end);
        },
    }
}

proof fn joined_holds(parts: Seq<Seq<char>>, sep: Seq<char>, i: int)
    requires
        0 <= i < parts.len(),
    ensures
        text::has_part(text::joined(parts, sep), parts[i]),
    decreases parts.len(),
{
    let out = text::joined(parts, sep);
    let n = parts.len();
    if n == 1 {
        assert(out.subrange(0, out.len() as int) =~= parts[0]);
        assert(text::occurs_at(out, parts[0], 0));
    } else if i == n - 1 {
        let at = out.len() - parts[i].len();
        assert(out.subrange(at, out.len() as int) =~= parts[i]);
        assert(text::occurs_at(out, parts[i], at));
    } else {
        let front = parts.drop_last();
        joined_holds(front, sep, i);
        let before = text::joined(front, sep);
        let k = choose|k: int| text::occurs_at(before, front[i], k);
        assert(out.subrange(k, k + parts[i].len()) =~= before.subrange(k, k + front[i].len()));
        assert(text::occurs_at(out, parts[i], k));
    }
}

/// A matcher is shown with each signal that it gives.
pub proof fn matchers_are_shown_by_signal(m: MatchView)
    ensures
        m.window_id is Some ==> text::has_part(
            show::matcher_shown(m),
            "window_id="@ + text::signed_decimal(m.window_id->0 as int),
        ),
        m.app_id is Some ==> text::has_part(
            show::matcher_shown(m),
            "app_id="@ + outside::debug_text(m.app_id->0),
        ),
        m.title is Some ==> text::has_part(
            show::matcher_shown(m),
            "title="@ + outside::debug_text(m.title->0),
        ),
        m.process is Some ==> text::has_part(
            show::matcher_shown(m),
            "process="@ + outside::debug_text(m.process->0),
        ),
        m.pid is Some ==> text::has_part(
            show::matcher_shown(m),
            "pid="@ + text::signed_decimal(m.pid->0 as int),
        ),
{
    let a = show::number_signal("window_id="@, show::id_int(m.window_id));
    let b = show::text_signal("app_id="@, m.app_id);
    let c = show::text_signal("title="@, m.title);
    let d = show::text_signal("process="@, m.process);
    let e = show::number_signal("pid="@, show::pid_int(m.pid));
    let all = a + b + c + d + e;
    if m.window_id is Some {
        assert(all[0] == a[0]);
        joined_holds(all, ", "@, 0);
    }
    if m.app_id is Some {
        let k = a.len() as int;
        assert(all[k] == b[0]);
        joined_holds(all, ", "@, k);
    }
    if m.title is Some {
        let k = (a.len() + b.len()) as int;
        assert(all[k] == c[0]);
        joined_holds(all, ", "@, k);
    }
    if m.process is Some {
        let k = (a.len() + b.len() + c.len()) as int;
        assert(all[k] == d[0]);
        joined_holds(all, ", "@, k);
    }
    if m.pid is Some {
        let k = (a.len() + b.len() + c.len() + d.len()) as int;
        assert(all[k] == e[0]);
        joined_holds(all, ", "@, k);
    }
}

// Sizes

/// A size is a share where it ends in a percent sign, and else a number of pixels. A
/// share is more than nothing and no more than all; a number of pixels is positive.
pub proof fn sizes_are_shares_or_pixels(raw: Seq<char>, number: Option<Percentage>)
    ensures
        ({
            let out = sizes::size_of(raw, number);
            let is_share = "%"@.is_suffix_of(text::trimmed(raw));
            &&& out is Ok && is_share ==> number is Some && 0 < number->0.value
                <= 0x4059_0000_0000_0000 && out->Ok_0 == Size::Percent(number->0.ratio)
            &&& is_share && number is Some && 0 < number->0.value <= 0x4059_0000_0000_0000
                ==> out is Ok
            &&& out is Ok && !is_share ==> out->Ok_0 is Pixels && out->Ok_0->Pixels_0 > 0
            &&& is_share && number is None ==> out->Err_0 == "invalid percentage"@
            &&& is_share && number is Some && out is Err ==> out->Err_0
                == "percentage must be > 0 and <= 100"@
        }),
{
}

/// A number of pixels is read with or without its unit, whatever white space is around
/// it.
pub proof fn pixels_are_read(raw: Seq<char>, digits: Seq<char>, n: int)
    requires
        text::trimmed(raw) == digits || text::trimmed(raw) == digits + "px"@,
        text::trimmed(digits) == digits,
        text::all_digits(digits),
        text::digits_value(digits) == n,
        0 < n <= i32::MAX,
    ensures
        sizes::size_of(raw, None) == Ok::<Size, Seq<char>>(Size::Pixels(n as i32)),
{
    reveal_strlit("px");
    reveal_strlit("%");
    let t = text::trimmed(raw);
    let d = digits[digits.len() - 1];
    assert(text::is_digit(d));
    assert(text::is_digit(digits[0]));
    assert(!"%"@.is_suffix_of(t)) by {
        if "%"@.is_suffix_of(t) {
            assert(t.subrange(t.len() - 1, t.len() as int)[0] == '%');
            assert(t[t.len() - 1] == '%');
        }
    }
    if t == digits + "px"@ {
        assert(t.skip(t.len() - 2) =~= "px"@);
        assert(t.take(t.len() - 2) =~= digits);
    } else {
        assert(!"px"@.is_suffix_of(t)) by {
            if "px"@.is_suffix_of(t) {
                assert(t.subrange(t.len() - 2, t.len() as int)[1] == 'x');
                assert(t[t.len() - 1] == 'x');
            }
        }
    }
}

/// A recipe is shown with its key, its workspace and every logical window, and with its
/// name, its output and its focus where it has them.
pub proof fn recipes_are_shown_whole(key: Seq<char>, r: RecipeView, shares: Seq<SharesView>)
    ensures
        ({
            let out = report::recipe_text(key, r, shares);
            &&& out[0] == "Workbench: "@ + key
            &&& out.contains("Workspace: "@ + r.workspace)
            &&& r.name is Some ==> out.contains("Name:      "@ + r.name->0)
            &&& r.output is Some ==> out.contains("Output:    "@ + r.output->0)
            &&& r.focus is Some ==> out.contains("Focus:     "@ + r.focus->0)
        }),
{
    let out = report::recipe_text(key, r, shares);
    let a = seq!["Workbench: "@ + key];
    let b = report::opt_line("Name:      "@, r.name);
    let c = seq!["Workspace: "@ + r.workspace];
    let d = report::opt_line("Output:    "@, r.output);
    let e = report::opt_line("Focus:     "@, r.focus);
    assert(out[0] == a[0]);
    if r.name is Some {
        assert(out[1] == b[0]);
    }
    let at = (1 + b.len()) as int;
    assert(out[at] == c[0]);
    if r.output is Some {
        assert(out[at + 1] == d[0]);
    }
    if r.focus is Some {
        assert(out[at + 1 + d.len()] == e[0]);
    }
}

/// A logical window is shown with its name, command, matcher and column, and with its
/// sizes, its display and that it floats where that is declared.
pub proof fn windows_are_shown_whole(w: WindowView, shares: SharesView)
    ensures
        ({
            let out = report::window_lines(w, shares);
            &&& out[0] == w.name + ":"@
            &&& out[1] == "  command: "@ + show::shellish_text(w.command)
            &&& out[2] == "  match:   "@ + show::matcher_shown(w.match_spec)
            &&& out[3] == "  column:  "@ + text::decimal(w.layout.column as nat)
            &&& w.layout.column_width is Some ==> out.contains(
                "  width:   "@ + show::size_shown(w.layout.column_width->0, shares.width),
            )
            &&& w.layout.window_height is Some ==> out.contains(
                "  height:  "@ + show::size_shown(w.layout.window_height->0, shares.height),
            )
            &&& w.layout.display is Some ==> out.contains(
                "  display: "@ + show::display_debug(w.layout.display->0),
            )
            &&& w.layout.floating ==> out.last() == "  mode:    floating"@
        }),
{
    let out = report::window_lines(w, shares);
    let b = report::opt_line("  width:   "@, report::opt_size(w.layout.column_width, shares.width));
    let c = report::opt_line(
        "  height:  "@,
        report::opt_size(w.layout.window_height, shares.height),
    );
    let d = report::opt_line("  display: "@, report::opt_display(w.layout.display));
    if w.layout.column_width is Some {
        assert(out[4] == b[0]);
    }
    if w.layout.window_height is Some {
        assert(out[(4 + b.len()) as int] == c[0]);
    }
    if w.layout.display is Some {
        assert(out[(4 + b.len() + c.len()) as int] == d[0]);
    }
}

/// Sizes are shown in percent or in pixels.
pub proof fn sizes_are_shown_with_their_unit(size: Size, percent: Seq<char>)
    ensures
        size is Percent ==> show::size_shown(size, percent) == percent + "%"@,
        size is Pixels ==> show::size_shown(size, percent) == text::signed_decimal(
            size->Pixels_0 as int,
        ) + "px"@,
{
}

} // verus!
