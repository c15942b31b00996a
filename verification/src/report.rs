//! What the command line prints.
use crate::execute::ApplyReport;
use crate::lists;
use crate::lists::{group_keys, group_members};
use crate::model::{
    ColumnDisplay, Config, ObservedState, Recipe, RecipeView, Size, StateView, WindowSpec,
    WindowView, WorkspaceView,
};
use crate::names;
use crate::names::NameMap;
use crate::outside;
use crate::outside::debug_string;
use crate::planner;
use crate::planner::{Action, ActionView, ReconcilePlan};
use crate::resolve::{ExistingResolution, ResolvedExisting};
use crate::saving;
use crate::saving::recipe_display_name;
use crate::show;
use crate::show::{
    display_name, format_action, matcher_text, push_opt_text, push_padded, shellish, size_text,
};
use crate::text;
use crate::text::{join, opt_is, push_number};
use vstd::prelude::*;

verus! {

/// The texts, in whole percent, of the shares that a logical window declares.
#[derive(Debug, PartialEq, Eq)]
pub struct Shares {
    pub width: String,
    pub height: String,
}

#[verifier::ext_equal]
pub struct SharesView {
    pub width: Seq<char>,
    pub height: Seq<char>,
}

impl View for Shares {
    type V = SharesView;

    open spec fn view(&self) -> SharesView {
        SharesView { width: self.width@, height: self.height@ }
    }
}

pub open spec fn share_views(v: Seq<Shares>) -> Seq<SharesView> {
    v.map_values(|s: Shares| s@)
}

fn push_line(lines: &mut Vec<String>, line: String)
    ensures
        text::texts(final(lines)@) == text::texts(old(lines)@).push(line@),
{
    lines.push(line);
    assert(text::texts(lines@) =~= text::texts(old(lines)@).push(line@));
}

/// A line that is there only where there is something to say.
pub open spec fn opt_line(label: Seq<char>, value: Option<Seq<char>>) -> Seq<Seq<char>> {
    match value {
        Some(v) => seq![label + v],
        None => Seq::empty(),
    }
}

fn push_opt_line(lines: &mut Vec<String>, label: &str, value: &Option<String>)
    ensures
        text::texts(final(lines)@) == text::texts(old(lines)@) + opt_line(
            label@,
            text::opt_text(*value),
        ),
{
    if let Some(v) = value {
        let mut line: String = label.to_owned();
        line.append(v.as_str());
        push_line(lines, line);
    }
    assert(text::texts(lines@) =~= text::texts(old(lines)@) + opt_line(
        label@,
        text::opt_text(*value),
    ));
}

// Finding and listing recipes

/// The message about a recipe that is not there.
pub open spec fn unknown_text(m: Seq<(Seq<char>, Recipe)>, name: Seq<char>) -> Seq<char> {
    "unknown workbench "@ + outside::debug_text(name) + "; configured: "@ + text::joined(
        saving::keys_of(m),
        ", "@,
    )
}

/// The recipe of this key, or what to say where there is none.
pub fn recipe<'a>(workbenches: &'a NameMap<Recipe>, name: &str) -> (out: Result<&'a Recipe, String>)
    ensures
        match out {
            Ok(r) => names::lookup(workbenches@, name@) == Some(*r),
            Err(message) => names::lookup(workbenches@, name@) is None && message@ == unknown_text(
                workbenches@,
                name@,
            ),
        },
{
    match workbenches.get(name) {
        Some(r) => Ok(r),
        None => {
            let mut keys: Vec<String> = Vec::new();
            let n: usize = workbenches.len();
            for i in 0..n
                invariant
                    n == workbenches@.len(),
                    keys@.len() == i,
                    forall|k: int| 0 <= k < i ==> (#[trigger] keys@[k])@ == workbenches@[k].0,
            {
                keys.push(workbenches.name_at(i).clone());
            }
            assert(text::texts(keys@) =~= saving::keys_of(workbenches@));
            let mut message: String = "unknown workbench ".to_owned();
            message.append(debug_string(name).as_str());
            message.append("; configured: ");
            message.append(join(&keys, ", ").as_str());
            Err(message)
        },
    }
}

/// The line of a recipe in the list.
pub open spec fn list_line(key: Seq<char>, r: RecipeView) -> Seq<char> {
    show::padded(key, 20) + " "@ + saving::display_name(r) + "  [workspace: "@ + r.workspace + "]"@
}

/// The list of all recipes, a line each.
pub fn list_lines(config: &Config) -> (out: Vec<String>)
    ensures
        text::texts(out@) == config@.map_values(
            |e: (Seq<char>, RecipeView)| list_line(e.0, e.1),
        ),
{
    let mut out: Vec<String> = Vec::new();
    let n: usize = config.workbench.len();
    for i in 0..n
        invariant
            n == config.workbench@.len(),
            out@.len() == i,
            forall|k: int|
                0 <= k < i ==> (#[trigger] out@[k])@ == list_line(
                    config.workbench@[k].0,
                    config.workbench@[k].1@,
                ),
    {
        let key: &String = config.workbench.name_at(i);
        let r: &Recipe = config.workbench.value_at(i);
        let mut line: String = String::new();
        push_padded(&mut line, key.as_str(), 20);
        line.append(" ");
        line.append(recipe_display_name(r));
        line.append("  [workspace: ");
        line.append(r.workspace.as_str());
        line.append("]");
        assert(line@ =~= list_line(key@, r@));
        out.push(line);
    }
    assert(text::texts(out@) =~= config@.map_values(
        |e: (Seq<char>, RecipeView)| list_line(e.0, e.1),
    ));
    out
}

// Showing a recipe

pub open spec fn opt_size(size: Option<Size>, percent: Seq<char>) -> Option<Seq<char>> {
    match size {
        Some(s) => Some(show::size_shown(s, percent)),
        None => None,
    }
}

pub open spec fn opt_display(d: Option<ColumnDisplay>) -> Option<Seq<char>> {
    match d {
        Some(x) => Some(show::display_debug(x)),
        None => None,
    }
}

/// The lines of a logical window.
pub open spec fn window_lines(w: WindowView, shares: SharesView) -> Seq<Seq<char>> {
    seq![
        w.name + ":"@,
        "  command: "@ + show::shellish_text(w.command),
        "  match:   "@ + show::matcher_shown(w.match_spec),
        "  column:  "@ + text::decimal(w.layout.column as nat),
    ] + opt_line("  width:   "@, opt_size(w.layout.column_width, shares.width)) + opt_line(
        "  height:  "@,
        opt_size(w.layout.window_height, shares.height),
    ) + opt_line("  display: "@, opt_display(w.layout.display)) + (if w.layout.floating {
        seq!["  mode:    floating"@]
    } else {
        Seq::empty()
    })
}

/// The lines of the first `n` logical windows.
pub open spec fn all_window_lines(
    windows: Seq<WindowView>,
    shares: Seq<SharesView>,
    n: nat,
) -> Seq<Seq<char>>
    decreases n,
{
    if n == 0 {
        Seq::empty()
    } else {
        all_window_lines(windows, shares, (n - 1) as nat) + window_lines(
            windows[n - 1],
            shares[n - 1],
        )
    }
}

/// The lines of a recipe.
pub open spec fn recipe_text(key: Seq<char>, r: RecipeView, shares: Seq<SharesView>) -> Seq<
    Seq<char>,
> {
    seq!["Workbench: "@ + key] + opt_line("Name:      "@, r.name) + seq![
        "Workspace: "@ + r.workspace,
    ] + opt_line("Output:    "@, r.output) + opt_line("Focus:     "@, r.focus) + seq![
        Seq::empty(),
    ] + all_window_lines(r.windows, shares, r.windows.len())
}

fn opt_size_text(size: &Option<Size>, percent: &str) -> (out: Option<String>)
    ensures
        text::opt_text(out) == opt_size(*size, percent@),
{
    match size {
        Some(s) => Some(size_text(*s, percent)),
        None => None,
    }
}

fn push_window(lines: &mut Vec<String>, w: &WindowSpec, shares: &Shares)
    ensures
        text::texts(final(lines)@) == text::texts(old(lines)@) + window_lines(w@, shares@),
{
    let mut head: String = w.name.clone();
    head.append(":");
    push_line(lines, head);
    let mut command: String = "  command: ".to_owned();
    command.append(shellish(w.command.as_slice()).as_str());
    push_line(lines, command);
    let mut signals: String = "  match:   ".to_owned();
    signals.append(matcher_text(&w.match_spec).as_str());
    push_line(lines, signals);
    let mut column: String = "  column:  ".to_owned();
    push_number(&mut column, w.layout.column as u64);
    push_line(lines, column);
    push_opt_line(
        lines,
        "  width:   ",
        &opt_size_text(&w.layout.column_width, shares.width.as_str()),
    );
    push_opt_line(
        lines,
        "  height:  ",
        &opt_size_text(&w.layout.window_height, shares.height.as_str()),
    );
    let display: Option<String> = match w.layout.display {
        Some(d) => Some(display_name(d).to_owned()),
        None => None,
    };
    push_opt_line(lines, "  display: ", &display);
    if w.layout.floating {
        push_line(lines, "  mode:    floating".to_owned());
    }
    assert(text::texts(lines@) =~= text::texts(old(lines)@) + window_lines(w@, shares@));
}

/// The lines that show a recipe.
pub fn recipe_lines(key: &str, recipe: &Recipe, shares: &Vec<Shares>) -> (out: Vec<String>)
    requires
        shares@.len() == recipe.windows@.len(),
    ensures
        text::texts(out@) == recipe_text(key@, recipe@, share_views(shares@)),
{
    let mut out: Vec<String> = Vec::new();
    let mut head: String = "Workbench: ".to_owned();
    head.append(key);
    push_line(&mut out, head);
    push_opt_line(&mut out, "Name:      ", &recipe.name);
    let mut workspace: String = "Workspace: ".to_owned();
    workspace.append(recipe.workspace.as_str());
    push_line(&mut out, workspace);
    push_opt_line(&mut out, "Output:    ", &recipe.output);
    push_opt_line(&mut out, "Focus:     ", &recipe.focus);
    push_line(&mut out, String::new());
    let ghost top = text::texts(out@);
    let ghost views = share_views(shares@);
    assert(top =~= top + all_window_lines(recipe@.windows, views, 0));
    for i in 0..recipe.windows.len()
        invariant
            shares@.len() == recipe.windows@.len(),
            views == share_views(shares@),
            text::texts(out@) == top + all_window_lines(recipe@.windows, views, i as nat),
    {
        assert(recipe@.windows[i as int] == recipe.windows@[i as int]@);
        assert(views[i as int] == shares@[i as int]@);
        push_window(&mut out, &recipe.windows[i], &shares[i]);
        assert(text::texts(out@) =~= top + all_window_lines(
            recipe@.windows,
            views,
            (i + 1) as nat,
        ));
    }
    assert(text::texts(out@) =~= recipe_text(key@, recipe@, views));
    out
}

// Status

/// What the status says of the workspace.
pub open spec fn workspace_status(
    r: RecipeView,
    w: Option<WorkspaceView>,
    target: Seq<char>,
) -> Seq<Seq<char>> {
    match w {
        Some(w) => seq![
            "workspace "@ + r.workspace + ": present (id "@ + text::decimal(w.id as nat)
                + ", output "@ + (match w.output {
                Some(o) => o,
                None => "?"@,
            }) + ")"@,
        ] + (if w.output == Some(target) {
            Seq::empty()
        } else {
            seq![
                "DRIFT   workspace output "@ + show::opt_debug(w.output) + " -> "@
                    + outside::debug_text(target),
            ]
        }),
        None => seq!["MISSING workspace "@ + outside::debug_text(r.workspace)],
    }
}

/// The first lines of the status.
pub fn status_head(key: &str, recipe: &Recipe, state: &ObservedState, target: &str) -> (out: Vec<
    String,
>)
    ensures
        text::texts(out@) == seq!["Status: "@ + key@] + workspace_status(
            recipe@,
            state@.named_workspace(recipe@.workspace),
            target@,
        ),
{
    let mut out: Vec<String> = Vec::new();
    let mut head: String = "Status: ".to_owned();
    head.append(key);
    push_line(&mut out, head);
    match state.named_workspace(recipe.workspace.as_str()) {
        Some(w) => {
            let mut line: String = "workspace ".to_owned();
            line.append(recipe.workspace.as_str());
            line.append(": present (id ");
            push_number(&mut line, w.id);
            line.append(", output ");
            match &w.output {
                Some(o) => {
                    line.append(o.as_str());
                },
                None => {
                    line.append("?");
                },
            }
            line.append(")");
            push_line(&mut out, line);
            if !opt_is(&w.output, target) {
                let mut drift: String = "DRIFT   workspace output ".to_owned();
                push_opt_text(&mut drift, &w.output);
                drift.append(" -> ");
                drift.append(debug_string(target).as_str());
                push_line(&mut out, drift);
            }
        },
        None => {
            let mut line: String = "MISSING workspace ".to_owned();
            line.append(debug_string(recipe.workspace.as_str()).as_str());
            push_line(&mut out, line);
        },
    }
    assert(text::texts(out@) =~= seq!["Status: "@ + key@] + workspace_status(
        recipe@,
        state@.named_workspace(recipe@.workspace),
        target@,
    ));
    out
}

/// What is said of a logical window and its open window. In a plan the words
/// are about what will be done, in a status about what there is.
pub open spec fn resolution_line(
    w: WindowView,
    found: ExistingResolution,
    planned: bool,
) -> Seq<char> {
    match found {
        ExistingResolution::Reuse(id) => (if planned {
            "REUSE   "@
        } else {
            "FOUND   "@
        }) + show::padded(w.name, 12) + " window "@ + text::decimal(id as nat),
        ExistingResolution::Spawn => (if planned {
            "SPAWN   "@
        } else {
            "MISSING "@
        }) + show::padded(w.name, 12) + (if planned {
            " "@
        } else {
            " would spawn "@
        }) + show::shellish_text(w.command),
    }
}

pub open spec fn resolution_at(
    windows: Seq<WindowView>,
    by_name: Seq<(Seq<char>, ExistingResolution)>,
    planned: bool,
) -> spec_fn(int) -> Option<Seq<char>> {
    |i: int|
        match names::lookup(by_name, windows[i].name) {
            Some(found) => Some(resolution_line(windows[i], found, planned)),
            None => None,
        }
}

/// The workspace for which actions can be told: that of the recipe, where it is
/// there and every logical window is open. Else only the declared layout can.
pub open spec fn plannable(r: RecipeView, s: StateView, ids: Seq<(Seq<char>, u64)>) -> Option<u64> {
    match s.named_workspace(r.workspace) {
        Some(w) => if ids.len() == r.windows.len() {
            Some(w.id)
        } else {
            None
        },
        None => None,
    }
}

/// The workspace for which actions can be told, if they can.
pub fn planned_workspace(
    recipe: &Recipe,
    state: &ObservedState,
    resolved: &ResolvedExisting,
) -> (out: Option<u64>)
    ensures
        out == plannable(recipe@, state@, resolved.ids@),
{
    match state.named_workspace(recipe.workspace.as_str()) {
        Some(w) => if resolved.ids.len() == recipe.windows.len() {
            Some(w.id)
        } else {
            None
        },
        None => None,
    }
}

/// What is said of every logical window and its open window.
pub fn resolution_lines(recipe: &Recipe, resolved: &ResolvedExisting, planned: bool) -> (out: Vec<
    String,
>)
    ensures
        text::texts(out@) == lists::gather(
            recipe@.windows.len(),
            resolution_at(recipe@.windows, resolved.by_name@, planned),
        ),
{
    let ghost f = resolution_at(recipe@.windows, resolved.by_name@, planned);
    let mut out: Vec<String> = Vec::new();
    assert(text::texts(out@) =~= lists::gather(0, f));
    for i in 0..recipe.windows.len()
        invariant
            f == resolution_at(recipe@.windows, resolved.by_name@, planned),
            text::texts(out@) == lists::gather(i as nat, f),
    {
        let w: &WindowSpec = &recipe.windows[i];
        assert(recipe@.windows[i as int] == w@);
        let ghost given = f(i as int);
        match resolved.by_name.get(w.name.as_str()) {
            Some(ExistingResolution::Reuse(id)) => {
                let mut line: String = if planned {
                    "REUSE   ".to_owned()
                } else {
                    "FOUND   ".to_owned()
                };
                push_padded(&mut line, w.name.as_str(), 12);
                line.append(" window ");
                push_number(&mut line, *id);
                assert(line@ =~= given->0);
                push_line(&mut out, line);
            },
            Some(ExistingResolution::Spawn) => {
                let mut line: String = if planned {
                    "SPAWN   ".to_owned()
                } else {
                    "MISSING ".to_owned()
                };
                push_padded(&mut line, w.name.as_str(), 12);
                if planned {
                    line.append(" ");
                } else {
                    line.append(" would spawn ");
                }
                line.append(shellish(w.command.as_slice()).as_str());
                assert(line@ =~= given->0);
                push_line(&mut out, line);
            },
            None => {},
        }
    }
    out
}

/// Actions, a line each, each behind `indent`.
pub open spec fn action_lines(
    actions: Seq<ActionView>,
    percents: Seq<Seq<char>>,
    indent: Seq<char>,
) -> Seq<Seq<char>> {
    Seq::new(
        actions.len(),
        |i: int| indent + show::action_shown(actions[i], percents[i]),
    )
}

/// Writes actions, a line each. `percents` holds, for each, the text of the share
/// that it asks for.
pub fn show_actions(actions: &Vec<Action>, percents: &Vec<String>, indent: &str) -> (out: Vec<String>)
    requires
        percents@.len() == actions@.len(),
    ensures
        text::texts(out@) == action_lines(
            planner::action_views(actions@),
            text::texts(percents@),
            indent@,
        ),
{
    let mut out: Vec<String> = Vec::new();
    let ghost views = planner::action_views(actions@);
    let ghost shares = text::texts(percents@);
    for i in 0..actions.len()
        invariant
            percents@.len() == actions@.len(),
            views == planner::action_views(actions@),
            shares == text::texts(percents@),
            out@.len() == i,
            forall|k: int|
                0 <= k < i ==> (#[trigger] out@[k])@ == indent@ + show::action_shown(
                    views[k],
                    shares[k],
                ),
    {
        assert(views[i as int] == actions@[i as int]@);
        let mut line: String = indent.to_owned();
        line.append(format_action(&actions[i], percents[i].as_str()).as_str());
        out.push(line);
    }
    assert(text::texts(out@) =~= action_lines(views, shares, indent@));
    out
}

/// What the status says of the layout.
pub open spec fn layout_status(plan: Seq<ActionView>, percents: Seq<Seq<char>>) -> Seq<Seq<char>> {
    if plan.len() == 0 {
        seq!["observable layout: converged"@]
    } else {
        seq!["observable layout: drift"@] + action_lines(plan, percents, "  "@)
    }
}

/// What the status says of the layout.
pub fn layout_lines(plan: &ReconcilePlan, percents: &Vec<String>) -> (out: Vec<String>)
    requires
        percents@.len() == plan@.len(),
    ensures
        text::texts(out@) == layout_status(plan@, text::texts(percents@)),
{
    let mut out: Vec<String> = Vec::new();
    if plan.actions.len() == 0 {
        push_line(&mut out, "observable layout: converged".to_owned());
        assert(text::texts(out@) =~= layout_status(plan@, text::texts(percents@)));
        return out;
    }
    push_line(&mut out, "observable layout: drift".to_owned());
    let mut more: Vec<String> = show_actions(&plan.actions, percents, "  ");
    let ghost first = out@;
    let ghost rest = more@;
    out.append(&mut more);
    assert(text::texts(out@) =~= text::texts(first) + text::texts(rest));
    assert(text::texts(out@) =~= layout_status(plan@, text::texts(percents@)));
    out
}

/// Some logical window declares a display.
pub open spec fn declares_display(r: RecipeView) -> bool {
    exists|i: int| 0 <= i < r.windows.len() && (#[trigger] r.windows[i]).layout.display is Some
}

/// The note about displays, where the recipe declares any.
pub fn display_note(recipe: &Recipe) -> (out: Option<&'static str>)
    ensures
        match out {
            Some(s) => declares_display(recipe@) && s@
                == "note: Niri 26.04 does not expose column display mode; tabbed/normal cannot be verified"@,
            None => !declares_display(recipe@),
        },
{
    for i in 0..recipe.windows.len()
        invariant
            forall|k: int|
                0 <= k < i ==> (#[trigger] recipe@.windows[k]).layout.display is None,
    {
        assert(recipe@.windows[i as int] == recipe.windows@[i as int]@);
        if recipe.windows[i].layout.display.is_some() {
            assert(recipe@.windows[i as int].layout.display is Some);
            return Some(
                "note: Niri 26.04 does not expose column display mode; tabbed/normal cannot be verified",
            );
        }
    }
    None
}

// Plans

/// What a plan says of the workspace.
pub open spec fn workspace_plan(
    r: RecipeView,
    w: Option<WorkspaceView>,
    target: Seq<char>,
) -> Seq<char> {
    match w {
        Some(w) => if w.output == Some(target) {
            "KEEP    workspace "@ + outside::debug_text(r.workspace) + " on "@ + target
        } else {
            "MOVE    workspace "@ + outside::debug_text(r.workspace) + " "@ + show::opt_debug(
                w.output,
            ) + " -> "@ + target
        },
        None => "CREATE  named workspace "@ + outside::debug_text(r.workspace) + " on "@ + target
            + " using an empty Niri workspace"@,
    }
}

/// The first lines of a plan.
pub fn plan_head(
    key: &str,
    recipe: &Recipe,
    state: &ObservedState,
    target: &str,
    warning: &Option<String>,
) -> (out: Vec<String>)
    ensures
        text::texts(out@) == seq!["Plan: "@ + key@] + opt_line(
            "WARN    "@,
            text::opt_text(*warning),
        ) + seq![
            workspace_plan(recipe@, state@.named_workspace(recipe@.workspace), target@),
        ],
{
    let mut out: Vec<String> = Vec::new();
    let mut head: String = "Plan: ".to_owned();
    head.append(key);
    push_line(&mut out, head);
    push_opt_line(&mut out, "WARN    ", warning);
    let name: String = debug_string(recipe.workspace.as_str());
    let mut line: String = String::new();
    match state.named_workspace(recipe.workspace.as_str()) {
        Some(w) => {
            if opt_is(&w.output, target) {
                line.append("KEEP    workspace ");
                line.append(name.as_str());
                line.append(" on ");
                line.append(target);
            } else {
                line.append("MOVE    workspace ");
                line.append(name.as_str());
                line.append(" ");
                push_opt_text(&mut line, &w.output);
                line.append(" -> ");
                line.append(target);
            }
        },
        None => {
            line.append("CREATE  named workspace ");
            line.append(name.as_str());
            line.append(" on ");
            line.append(target);
            line.append(" using an empty Niri workspace");
        },
    }
    assert(line@ =~= workspace_plan(
        recipe@,
        state@.named_workspace(recipe@.workspace),
        target@,
    ));
    push_line(&mut out, line);
    assert(text::texts(out@) =~= seq!["Plan: "@ + key@] + opt_line(
        "WARN    "@,
        text::opt_text(*warning),
    ) + seq![workspace_plan(recipe@, state@.named_workspace(recipe@.workspace), target@)]);
    out
}

/// A piece of a line that is there only where there is something to say.
pub open spec fn opt_part(label: Seq<char>, value: Option<Seq<char>>) -> Seq<char> {
    match value {
        Some(v) => label + v,
        None => Seq::empty(),
    }
}

/// Where a logical window is to go.
pub open spec fn place_line(w: WindowView, shares: SharesView) -> Seq<char> {
    "PLACE   "@ + show::padded(w.name, 12) + if w.layout.floating {
        " floating"@
    } else {
        " column "@ + text::decimal(w.layout.column as nat) + opt_part(
            ", width "@,
            opt_size(w.layout.column_width, shares.width),
        ) + opt_part(", height "@, opt_size(w.layout.window_height, shares.height))
    }
}

fn push_opt_part(line: &mut String, label: &str, value: &Option<String>)
    ensures
        final(line)@ == old(line)@ + opt_part(label@, text::opt_text(*value)),
{
    if let Some(v) = value {
        line.append(label);
        line.append(v.as_str());
    }
    assert(line@ =~= old(line)@ + opt_part(label@, text::opt_text(*value)));
}

/// Where every logical window is to go, a line each.
pub fn desired_layout_lines(recipe: &Recipe, shares: &Vec<Shares>) -> (out: Vec<String>)
    requires
        shares@.len() == recipe.windows@.len(),
    ensures
        text::texts(out@) == Seq::new(
            recipe@.windows.len(),
            |i: int| place_line(recipe@.windows[i], shares@[i]@),
        ),
{
    let mut out: Vec<String> = Vec::new();
    for i in 0..recipe.windows.len()
        invariant
            shares@.len() == recipe.windows@.len(),
            out@.len() == i,
            forall|k: int|
                0 <= k < i ==> (#[trigger] out@[k])@ == place_line(
                    recipe@.windows[k],
                    shares@[k]@,
                ),
    {
        let w: &WindowSpec = &recipe.windows[i];
        assert(recipe@.windows[i as int] == w@);
        let mut line: String = "PLACE   ".to_owned();
        push_padded(&mut line, w.name.as_str(), 12);
        if w.layout.floating {
            line.append(" floating");
        } else {
            line.append(" column ");
            push_number(&mut line, w.layout.column as u64);
            push_opt_part(
                &mut line,
                ", width ",
                &opt_size_text(&w.layout.column_width, shares[i].width.as_str()),
            );
            push_opt_part(
                &mut line,
                ", height ",
                &opt_size_text(&w.layout.window_height, shares[i].height.as_str()),
            );
        }
        assert(line@ =~= place_line(recipe@.windows[i as int], shares@[i as int]@));
        out.push(line);
    }
    assert(text::texts(out@) =~= Seq::new(
        recipe@.windows.len(),
        |i: int| place_line(recipe@.windows[i], shares@[i]@),
    ));
    out
}

/// The columns for which the logical windows declare a display.
pub open spec fn display_keys(windows: Seq<WindowView>) -> Seq<Option<usize>> {
    windows.map_values(
        |w: WindowView|
            if w.layout.display is Some {
                Some(w.layout.column)
            } else {
                None
            },
    )
}

pub open spec fn display_word(d: ColumnDisplay) -> Seq<char> {
    match d {
        ColumnDisplay::Normal => "normal"@,
        ColumnDisplay::Tabbed => "tabbed"@,
    }
}

/// The display that is declared for a column: the last one counts.
pub open spec fn declared_display(windows: Seq<WindowView>, c: usize) -> ColumnDisplay {
    windows[lists::members(display_keys(windows), c).last()].layout.display->0
}

/// What a plan says of the display of a column.
pub open spec fn display_line(windows: Seq<WindowView>, c: usize) -> Seq<char> {
    "DISPLAY column "@ + text::decimal(c as nat) + " -> "@ + display_word(
        declared_display(windows, c),
    ) + " (reasserted; current mode is not observable)"@
}

/// What a plan says of the displays, by column.
pub fn declared_displays(recipe: &Recipe) -> (out: Vec<String>)
    ensures
        text::texts(out@) == lists::sorted_keys(display_keys(recipe@.windows)).map_values(
            |c: usize| display_line(recipe@.windows, c),
        ),
{
    let ghost views = recipe@.windows;
    let mut keys: Vec<Option<usize>> = Vec::new();
    for i in 0..recipe.windows.len()
        invariant
            views == recipe@.windows,
            keys@.len() == i,
            forall|k: int| 0 <= k < i ==> #[trigger] keys@[k] == display_keys(views)[k],
    {
        assert(views[i as int] == recipe.windows@[i as int]@);
        keys.push(
            if recipe.windows[i].layout.display.is_some() {
                Some(recipe.windows[i].layout.column)
            } else {
                None
            },
        );
    }
    assert(keys@ =~= display_keys(views));
    let columns: Vec<usize> = group_keys(&keys);
    let mut out: Vec<String> = Vec::new();
    for n in 0..columns.len()
        invariant
            views == recipe@.windows,
            keys@ == display_keys(views),
            lists::lists_keys(columns@, keys@),
            columns@ == lists::sorted_keys(keys@),
            out@.len() == n,
            forall|k: int| 0 <= k < n ==> (#[trigger] out@[k])@ == display_line(views, columns@[k]),
    {
        let c: usize = columns[n];
        let places: Vec<usize> = group_members(&keys, c);
        proof {
            assert(columns@.contains(c));
            assert(lists::is_key(keys@, c));
            lists::members_are(keys@, c);
            let i = choose|i: int| 0 <= i < keys@.len() && keys@[i] == Some(c);
            assert(lists::members(keys@, c).contains(i));
        }
        let ghost m = lists::members(keys@, c);
        let last: usize = places[places.len() - 1];
        assert(lists::as_places(places@)[places@.len() - 1] == m.last());
        assert(views[last as int] == recipe.windows@[last as int]@);
        let mut line: String = "DISPLAY column ".to_owned();
        push_number(&mut line, c as u64);
        line.append(" -> ");
        match recipe.windows[last].layout.display {
            Some(ColumnDisplay::Normal) => {
                line.append("normal");
            },
            Some(ColumnDisplay::Tabbed) => {
                line.append("tabbed");
            },
            None => {},
        }
        line.append(" (reasserted; current mode is not observable)");
        assert(line@ =~= display_line(views, c));
        out.push(line);
    }
    assert(text::texts(out@) =~= lists::sorted_keys(display_keys(views)).map_values(
        |c: usize| display_line(views, c),
    ));
    out
}

// Applying

/// A part of the report on what was done.
pub fn reuse_line(name: &str, id: u64) -> (out: String)
    ensures
        out@ == "reuse "@ + name@ + " window "@ + text::decimal(id as nat),
{
    let mut out: String = "reuse ".to_owned();
    out.append(name);
    out.append(" window ");
    push_number(&mut out, id);
    out
}

/// A part of the report on what was done.
pub fn spawn_line(name: &str, id: u64) -> (out: String)
    ensures
        out@ == "spawn "@ + name@ + " -> window "@ + text::decimal(id as nat),
{
    let mut out: String = "spawn ".to_owned();
    out.append(name);
    out.append(" -> window ");
    push_number(&mut out, id);
    out
}

pub open spec fn drift_text(remaining: Seq<ActionView>, percents: Seq<Seq<char>>) -> Seq<Seq<char>> {
    if remaining.len() == 0 {
        Seq::empty()
    } else {
        seq!["warning: observable state still has drift:"@] + action_lines(
            remaining,
            percents,
            "  "@,
        )
    }
}

/// The warning about what is still to be done, if anything is.
pub fn drift_lines(remaining: &Vec<Action>, percents: &Vec<String>) -> (out: Vec<String>)
    requires
        percents@.len() == remaining@.len(),
    ensures
        text::texts(out@) == drift_text(
            planner::action_views(remaining@),
            text::texts(percents@),
        ),
{
    let mut out: Vec<String> = Vec::new();
    if remaining.len() > 0 {
        push_line(&mut out, "warning: observable state still has drift:".to_owned());
        let mut more: Vec<String> = show_actions(remaining, percents, "  ");
        let ghost first = out@;
        let ghost rest = more@;
        out.append(&mut more);
        assert(text::texts(out@) =~= text::texts(first) + text::texts(rest));
    }
    assert(text::texts(out@) =~= drift_text(
        planner::action_views(remaining@),
        text::texts(percents@),
    ));
    out
}

pub open spec fn shows(actions: Seq<ActionView>) -> bool {
    exists|i: int| 0 <= i < actions.len() && planner::is_observable(#[trigger] actions[i])
}

fn any_shows(actions: &Vec<Action>) -> (out: bool)
    ensures
        out == shows(planner::action_views(actions@)),
{
    let ghost views = planner::action_views(actions@);
    for i in 0..actions.len()
        invariant
            views == planner::action_views(actions@),
            forall|k: int| 0 <= k < i ==> !planner::is_observable(#[trigger] views[k]),
    {
        assert(views[i as int] == actions@[i as int]@);
        if !actions[i].display_is_unverifiable() {
            assert(planner::is_observable(views[i as int]));
            return true;
        }
    }
    false
}

/// Some logical window had to be started.
pub open spec fn spawns(by_name: Seq<(Seq<char>, ExistingResolution)>) -> bool {
    exists|i: int|
        0 <= i < by_name.len() && (#[trigger] by_name[i]).1 == ExistingResolution::Spawn
}

fn any_spawns(by_name: &NameMap<ExistingResolution>) -> (out: bool)
    ensures
        out == spawns(by_name@),
{
    let n: usize = by_name.len();
    for i in 0..n
        invariant
            n == by_name@.len(),
            forall|k: int|
                0 <= k < i ==> (#[trigger] by_name@[k]).1 != ExistingResolution::Spawn,
    {
        if *by_name.value_at(i) == ExistingResolution::Spawn {
            assert(by_name@[i as int].1 == ExistingResolution::Spawn);
            return true;
        }
    }
    false
}

pub open spec fn indented(lines: Seq<Seq<char>>) -> Seq<Seq<char>> {
    lines.map_values(|l: Seq<char>| "  "@ + l)
}

/// The report on a recipe that was applied.
pub open spec fn apply_text(
    key: Seq<char>,
    unchanged: bool,
    activity: Seq<Seq<char>>,
    reassertions: nat,
) -> Seq<Seq<char>> {
    if unchanged {
        if reassertions == 0 {
            seq![key + " already converged"@]
        } else {
            seq![
                key + " observable state already converged; reasserted "@ + text::decimal(
                    reassertions,
                ) + " unobservable column display mode(s)"@,
            ]
        }
    } else {
        seq!["Applied "@ + key + ":"@] + indented(activity) + (if reassertions > 0 {
            seq![
                "  note: "@ + text::decimal(reassertions)
                    + " column display mode(s) were reasserted because Niri does not expose them"@,
            ]
        } else {
            Seq::empty()
        })
    }
}

fn push_indented(out: &mut Vec<String>, lines: &Vec<String>)
    ensures
        text::texts(final(out)@) == text::texts(old(out)@) + indented(text::texts(lines@)),
{
    let ghost top = text::texts(out@);
    let ghost all = indented(text::texts(lines@));
    assert(top =~= top + all.take(0));
    for i in 0..lines.len()
        invariant
            all == indented(text::texts(lines@)),
            text::texts(out@) == top + all.take(i as int),
    {
        let mut line: String = "  ".to_owned();
        line.append(lines[i].as_str());
        assert(line@ == all[i as int]);
        push_line(out, line);
        assert(text::texts(out@) =~= top + all.take(i + 1));
    }
    assert(all.take(lines@.len() as int) =~= all);
}

/// The report on a recipe that was applied: nothing had to be done where nothing
/// was started, nothing that shows was changed, nothing is left, and the output
/// is the one that was asked for.
pub fn apply_lines(
    key: &str,
    existing: &NameMap<ExistingResolution>,
    activity: &Vec<String>,
    report: &ApplyReport,
    fell_back: bool,
) -> (out: Vec<String>)
    ensures
        text::texts(out@) == apply_text(
            key@,
            !spawns(existing@) && !shows(planner::action_views(report.executed@))
                && report.remaining@.len() == 0 && !fell_back,
            text::texts(activity@),
            report.display_reassertions as nat,
        ),
{
    let unchanged: bool = !any_spawns(existing) && !any_shows(&report.executed)
        && report.remaining.len() == 0 && !fell_back;
    let mut out: Vec<String> = Vec::new();
    if unchanged {
        let mut line: String = key.to_owned();
        if report.display_reassertions == 0 {
            line.append(" already converged");
        } else {
            line.append(" observable state already converged; reasserted ");
            push_number(&mut line, report.display_reassertions as u64);
            line.append(" unobservable column display mode(s)");
        }
        push_line(&mut out, line);
    } else {
        let mut head: String = "Applied ".to_owned();
        head.append(key);
        head.append(":");
        push_line(&mut out, head);
        push_indented(&mut out, activity);
        if report.display_reassertions > 0 {
            let mut note: String = "  note: ".to_owned();
            push_number(&mut note, report.display_reassertions as u64);
            note.append(
                " column display mode(s) were reasserted because Niri does not expose them",
            );
            push_line(&mut out, note);
        }
    }
    assert(text::texts(out@) =~= apply_text(
        key@,
        unchanged,
        text::texts(activity@),
        report.display_reassertions as nat,
    ));
    out
}

/// The report on a recipe that was repaired.
pub open spec fn repair_text(
    key: Seq<char>,
    executed: Seq<ActionView>,
    percents: Seq<Seq<char>>,
    left: bool,
) -> Seq<Seq<char>> {
    if executed.len() == 0 && !left {
        seq![key + " observable layout already converged"@]
    } else {
        seq!["Repaired "@ + key + ":"@] + action_lines(executed, percents, "  "@)
    }
}

/// The report on a recipe that was repaired.
pub fn repair_lines(key: &str, report: &ApplyReport, percents: &Vec<String>) -> (out: Vec<String>)
    requires
        percents@.len() == report.executed@.len(),
    ensures
        text::texts(out@) == repair_text(
            key@,
            planner::action_views(report.executed@),
            text::texts(percents@),
            report.remaining@.len() > 0,
        ),
{
    let mut out: Vec<String> = Vec::new();
    if report.executed.len() == 0 && report.remaining.len() == 0 {
        let mut line: String = key.to_owned();
        line.append(" observable layout already converged");
        push_line(&mut out, line);
    } else {
        let mut head: String = "Repaired ".to_owned();
        head.append(key);
        head.append(":");
        push_line(&mut out, head);
        let mut more: Vec<String> = show_actions(&report.executed, percents, "  ");
        let ghost first = out@;
        let ghost rest = more@;
        out.append(&mut more);
        assert(text::texts(out@) =~= text::texts(first) + text::texts(rest));
    }
    assert(text::texts(out@) =~= repair_text(
        key@,
        planner::action_views(report.executed@),
        text::texts(percents@),
        report.remaining@.len() > 0,
    ));
    out
}

// Logging

/// What is logged where nothing else was asked for, by how often `-v` was given.
pub fn log_filter(verbose: u8) -> (out: &'static str)
    ensures
        out@ == if verbose == 0 {
            "niri_workbench=warn,workbench_niri=warn"@
        } else if verbose == 1 {
            "niri_workbench=info,workbench_niri=info"@
        } else {
            "niri_workbench=debug,workbench_niri=debug"@
        },
{
    match verbose {
        0 => "niri_workbench=warn,workbench_niri=warn",
        1 => "niri_workbench=info,workbench_niri=info",
        _ => "niri_workbench=debug,workbench_niri=debug",
    }
}

} // verus!
