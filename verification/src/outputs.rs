//! Outputs: which one a recipe goes to, and what its workspace needs for that.
use crate::lists;
use crate::lists::sort_places;
use crate::model;
use crate::model::{
    ObservedState, OutputFallback, OutputInfo, OutputView, Recipe, RecipeView, RuntimeWorkspace,
    StateView, WindowView,
};
use crate::outside;
use crate::outside::debug_string;
use crate::session::{NiriError, NiriErrorView};
use crate::text;
use crate::text::{copy_opt, opt_is, push_number, str_eq, str_lt};
use vstd::prelude::*;

verus! {

/// The output that a recipe goes to, with a warning where it is not the one that
/// was asked for.
#[derive(Debug, Clone, PartialEq, Eq)]
pub struct TargetOutput {
    pub name: String,
    pub fallback_warning: Option<String>,
}

/// What the choice of an output comes to.
pub enum TargetView {
    Found { name: Seq<char>, fallback_warning: Option<Seq<char>> },
    MissingOutput(Seq<char>),
    NoOutput,
}

pub open spec fn wants_output() -> spec_fn(WindowView) -> bool {
    |w: WindowView| w.layout.output is Some
}

/// The output that a recipe asks for: its own, or that of the first window that
/// asks for one.
pub open spec fn requested_output(r: RecipeView) -> Option<Seq<char>> {
    if r.output is Some {
        r.output
    } else {
        match lists::find(r.windows, wants_output()) {
            Some(w) => w.layout.output,
            None => None,
        }
    }
}

/// The output is there and shows something.
pub open spec fn is_connected(s: StateView, name: Seq<char>) -> bool {
    exists|i: int|
        0 <= i < s.outputs.len() && (#[trigger] s.outputs[i]).name == name
            && s.outputs[i].width is Some
}

pub open spec fn shows_something() -> spec_fn(OutputView) -> bool {
    |o: OutputView| o.width is Some
}

/// The output of the workspace that has the focus.
pub open spec fn focused_output(s: StateView) -> Option<Seq<char>> {
    match s.focused_workspace() {
        Some(w) => w.output,
        None => None,
    }
}

/// The output that a recipe goes to. One that is asked for but not connected is
/// replaced by the focused one, unless the recipe insists.
pub open spec fn target_of(r: RecipeView, s: StateView) -> TargetView {
    match requested_output(r) {
        Some(name) => if is_connected(s, name) {
            TargetView::Found { name, fallback_warning: None }
        } else if r.output_fallback == OutputFallback::Error {
            TargetView::MissingOutput(name)
        } else {
            match focused_output(s) {
                Some(fallback) => TargetView::Found {
                    name: fallback,
                    fallback_warning: Some(
                        "requested output "@ + outside::debug_text(name)
                            + " is not connected; using focused output "@ + outside::debug_text(
                            fallback,
                        ),
                    ),
                },
                None => TargetView::NoOutput,
            }
        },
        None => match focused_output(s) {
            Some(name) => TargetView::Found { name, fallback_warning: None },
            None => match lists::find(s.outputs, shows_something()) {
                Some(o) => TargetView::Found { name: o.name, fallback_warning: None },
                None => TargetView::NoOutput,
            },
        },
    }
}

/// `out` is the choice `t`.
pub open spec fn is_target(out: Result<TargetOutput, NiriError>, t: TargetView) -> bool {
    match t {
        TargetView::Found { name, fallback_warning } => out is Ok && out->Ok_0.name@ == name
            && text::opt_text(out->Ok_0.fallback_warning) == fallback_warning,
        TargetView::MissingOutput(name) => out is Err && out->Err_0@
            == NiriErrorView::MissingOutput(name),
        TargetView::NoOutput => out is Err && out->Err_0@ == NiriErrorView::NoOutput,
    }
}

/// The output of the workspace that has the focus.
pub fn focused_output_name(state: &ObservedState) -> (out: Option<String>)
    ensures
        text::opt_text(out) == focused_output(state@),
{
    match state.focused_workspace() {
        Some(w) => copy_opt(&w.output),
        None => None,
    }
}

fn request_of(recipe: &Recipe) -> (out: Option<String>)
    ensures
        text::opt_text(out) == requested_output(recipe@),
{
    if recipe.output.is_some() {
        return copy_opt(&recipe.output);
    }
    let ghost views = recipe@.windows;
    for i in 0..recipe.windows.len()
        invariant
            views == recipe@.windows,
            recipe@.output is None,
            forall|k: int| 0 <= k < i ==> !wants_output()(#[trigger] views[k]),
    {
        assert(views[i as int] == recipe.windows@[i as int]@);
        if recipe.windows[i].layout.output.is_some() {
            proof {
                lists::first_is(views, wants_output(), i as int);
            }
            return copy_opt(&recipe.windows[i].layout.output);
        }
    }
    proof {
        lists::first_is_none(views, wants_output());
    }
    None
}

/// Whether the output is there and shows something.
pub fn connected(state: &ObservedState, name: &str) -> (out: bool)
    ensures
        out == is_connected(state@, name@),
{
    let ghost views = state@.outputs;
    for i in 0..state.outputs.len()
        invariant
            views == state@.outputs,
            forall|k: int|
                0 <= k < i ==> !((#[trigger] views[k]).name == name@ && views[k].width is Some),
    {
        assert(views[i as int] == state.outputs@[i as int]@);
        if str_eq(state.outputs[i].name.as_str(), name) && state.outputs[i].width.is_some() {
            assert(views[i as int].name == name@);
            return true;
        }
    }
    false
}

fn first_shown(state: &ObservedState) -> (out: Option<String>)
    ensures
        match out {
            Some(name) => lists::find(state@.outputs, shows_something()) is Some && lists::find(
                state@.outputs,
                shows_something(),
            )->0.name == name@,
            None => lists::find(state@.outputs, shows_something()) is None,
        },
{
    let ghost views = state@.outputs;
    for i in 0..state.outputs.len()
        invariant
            views == state@.outputs,
            forall|k: int| 0 <= k < i ==> !shows_something()(#[trigger] views[k]),
    {
        assert(views[i as int] == state.outputs@[i as int]@);
        if state.outputs[i].width.is_some() {
            proof {
                lists::first_is(views, shows_something(), i as int);
            }
            return Some(state.outputs[i].name.clone());
        }
    }
    proof {
        lists::first_is_none(views, shows_something());
    }
    None
}

/// The output that a recipe goes to.
pub fn resolve_target_output_from_state(recipe: &Recipe, snapshot: &ObservedState) -> (out: Result<
    TargetOutput,
    NiriError,
>)
    ensures
        is_target(out, target_of(recipe@, snapshot@)),
        forall|o: Seq<char>, j: int|
            #![trigger asks_for(recipe@, o), is_shown(snapshot@, j, o)]
            asks_for(recipe@, o) && is_shown(snapshot@, j, o) ==> out is Ok && out->Ok_0.name@ == o
                && out->Ok_0.fallback_warning is None,
        forall|o: Seq<char>| #[trigger]
            asks_for(recipe@, o) && (forall|j: int| !#[trigger] is_shown(snapshot@, j, o))
                && recipe.output_fallback == OutputFallback::Error ==> out is Err && out->Err_0@
                == NiriErrorView::MissingOutput(o),
{
    proof {
        assert forall|o: Seq<char>| #[trigger] asks_for(recipe@, o) implies requested_output(recipe@)
            == Some(o) by {
            declared_outputs_are_obeyed(recipe@, snapshot@, o);
            what_is_asked_for(recipe@, o);
        }
        assert forall|o: Seq<char>, j: int| #[trigger] is_shown(snapshot@, j, o) implies is_connected(
            snapshot@,
            o,
        ) by {
            assert(snapshot@.outputs[j].name == o);
        }
        assert forall|o: Seq<char>| (forall|j: int| !#[trigger] is_shown(snapshot@, j, o)) implies !(
        #[trigger] is_connected(snapshot@, o)) by {
            if is_connected(snapshot@, o) {
                let j = choose|j: int|
                    0 <= j < snapshot@.outputs.len() && (#[trigger] snapshot@.outputs[j]).name == o
                        && snapshot@.outputs[j].width is Some;
                assert(is_shown(snapshot@, j, o));
            }
        }
    }

    match request_of(recipe) {
        Some(requested) => {
            if connected(snapshot, requested.as_str()) {
                return Ok(TargetOutput { name: requested, fallback_warning: None });
            }
            if recipe.output_fallback == OutputFallback::Error {
                return Err(NiriError::MissingOutput(requested));
            }
            match focused_output_name(snapshot) {
                Some(fallback) => {
                    let mut warning: String = "requested output ".to_owned();
                    warning.append(debug_string(requested.as_str()).as_str());
                    warning.append(" is not connected; using focused output ");
                    warning.append(debug_string(fallback.as_str()).as_str());
                    Ok(TargetOutput { name: fallback, fallback_warning: Some(warning) })
                },
                None => Err(NiriError::NoOutput),
            }
        },
        None => match focused_output_name(snapshot) {
            Some(name) => Ok(TargetOutput { name, fallback_warning: None }),
            None => match first_shown(snapshot) {
                Some(name) => Ok(TargetOutput { name, fallback_warning: None }),
                None => Err(NiriError::NoOutput),
            },
        },
    }
}

// Extents

/// The extent of the output that a workspace is on, where it is known: what a
/// share is taken of.
pub open spec fn full_extent(s: StateView, workspace_id: u64, width: bool) -> Option<u32> {
    match s.workspace(workspace_id) {
        Some(w) => match w.output {
            Some(name) => match s.output(name) {
                Some(o) => if width {
                    o.width
                } else {
                    o.height
                },
                None => None,
            },
            None => None,
        },
        None => None,
    }
}

/// The extent of the output that a workspace is on, where it is known.
pub fn reference_extent(state: &ObservedState, workspace_id: u64, width: bool) -> (out: Option<u32>)
    ensures
        out == full_extent(state@, workspace_id, width),
{
    match state.workspace(workspace_id) {
        Some(w) => match &w.output {
            Some(name) => match state.output(name.as_str()) {
                Some(o) => if width {
                    o.width
                } else {
                    o.height
                },
                None => None,
            },
            None => None,
        },
        None => None,
    }
}

// Listing the outputs

pub open spec fn by_name(outputs: Seq<OutputView>) -> spec_fn(int, int) -> bool {
    |i: int, j: int| !text::text_lt(outputs[j].name, outputs[i].name)
}

fn name_le(outputs: &Vec<OutputInfo>, i: usize, j: usize) -> (out: bool)
    requires
        i < outputs@.len(),
        j < outputs@.len(),
    ensures
        out == by_name(model::output_views(outputs@))(i as int, j as int),
{
    let ghost views = model::output_views(outputs@);
    assert(views[i as int] == outputs@[i as int]@ && views[j as int] == outputs@[j as int]@);
    !str_lt(outputs[j].name.as_str(), outputs[i].name.as_str())
}

/// The outputs by name.
pub fn sorted_outputs(outputs: &Vec<OutputInfo>) -> (out: Vec<OutputInfo>)
    ensures
        ({
            let views = model::output_views(outputs@);
            model::output_views(out@) == lists::order(views.len(), by_name(views)).map_values(
                |i: int| views[i],
            )
        }),
{
    let ghost views = model::output_views(outputs@);
    let ghost rank = by_name(views);
    let n: usize = outputs.len();
    let le = |i: usize, j: usize| -> (b: bool)
        requires
            i < outputs@.len(),
            j < outputs@.len(),
        ensures
            b == by_name(model::output_views(outputs@))(i as int, j as int),
        { name_le(outputs, i, j) };
    let places: Vec<usize> = sort_places(n, le, Ghost(rank));
    let mut out: Vec<OutputInfo> = Vec::new();
    for k in 0..places.len()
        invariant
            views == model::output_views(outputs@),
            n == outputs@.len(),
            forall|x: int| 0 <= x < places@.len() ==> (#[trigger] places@[x]) < n,
            out@.len() == k,
            forall|x: int| 0 <= x < k ==> (#[trigger] out@[x])@ == views[places@[x] as int],
    {
        assert(views[places@[k as int] as int] == outputs@[places@[k as int] as int]@);
        out.push(outputs[places[k]].clone());
    }
    let ghost o = lists::order(views.len(), rank);
    assert forall|x: int| 0 <= x < out@.len() implies #[trigger] model::output_views(out@)[x]
        == views[o[x]] by {
        assert(lists::as_places(places@)[x] == o[x]);
        assert(out@[x]@ == views[places@[x] as int]);
    }
    assert(model::output_views(out@) =~= o.map_values(|i: int| views[i]));
    out
}

// Preparing the workspace

/// What has to be done so that the workspace of a recipe is on its output.
#[derive(Debug, Clone, Copy, PartialEq, Eq, Structural)]
pub enum WorkspaceStep {
    /// It is there already.
    Keep(u64),
    /// It is on another output and has to be moved.
    Move(u64),
    /// There is none of its name: this empty one gets it.
    Name(u64),
    /// There is no empty one to give the name to.
    NoEmpty,
}

/// No window is on the workspace.
pub open spec fn is_empty_workspace(s: StateView, id: u64) -> bool {
    forall|i: int| 0 <= i < s.windows.len() ==> (#[trigger] s.windows[i]).workspace_id != Some(id)
}

/// Workspace `i` is empty and on the output.
pub open spec fn is_spare(s: StateView, output: Seq<char>, i: int) -> bool {
    s.workspaces[i].output == Some(output) && is_empty_workspace(s, s.workspaces[i].id)
}

/// Workspace `i` is the last of the spare ones: none has a higher index, and none
/// behind it as high a one.
pub open spec fn is_last_spare(s: StateView, output: Seq<char>, i: int) -> bool {
    &&& 0 <= i < s.workspaces.len()
    &&& is_spare(s, output, i)
    &&& forall|j: int|
        0 <= j < s.workspaces.len() && #[trigger] is_spare(s, output, j) ==> s.workspaces[j].index
            <= s.workspaces[i].index && (j > i ==> s.workspaces[j].index < s.workspaces[i].index)
}

/// What has to be done so that the workspace `name` is on `output`.
pub open spec fn workspace_step(s: StateView, name: Seq<char>, output: Seq<char>) -> WorkspaceStep {
    match s.named_workspace(name) {
        Some(w) => if w.output == Some(output) {
            WorkspaceStep::Keep(w.id)
        } else {
            WorkspaceStep::Move(w.id)
        },
        None => if exists|i: int| is_last_spare(s, output, i) {
            WorkspaceStep::Name(s.workspaces[choose|i: int| is_last_spare(s, output, i)].id)
        } else {
            WorkspaceStep::NoEmpty
        },
    }
}

fn unoccupied(state: &ObservedState, id: u64) -> (out: bool)
    ensures
        out == is_empty_workspace(state@, id),
{
    let ghost views = state@.windows;
    for i in 0..state.windows.len()
        invariant
            views == state@.windows,
            forall|k: int| 0 <= k < i ==> (#[trigger] views[k]).workspace_id != Some(id),
    {
        assert(views[i as int] == state.windows@[i as int]@);
        let here: bool = match state.windows[i].workspace_id {
            Some(w) => w == id,
            None => false,
        };
        if here {
            assert(views[i as int].workspace_id == Some(id));
            return false;
        }
    }
    true
}

/// What has to be done so that the workspace `name` is on `output`.
pub fn plan_workspace(state: &ObservedState, name: &str, output: &str) -> (out: WorkspaceStep)
    ensures
        out == workspace_step(state@, name@, output@),
{
    if let Some(w) = state.named_workspace(name) {
        return if opt_is(&w.output, output) {
            WorkspaceStep::Keep(w.id)
        } else {
            WorkspaceStep::Move(w.id)
        };
    }
    let ghost s = state@;
    let mut best: Option<usize> = None;
    for i in 0..state.workspaces.len()
        invariant
            s == state@,
            match best {
                Some(b) => b < i && is_spare(s, output@, b as int) && forall|j: int|
                    0 <= j < i && #[trigger] is_spare(s, output@, j) ==> s.workspaces[j].index
                        <= s.workspaces[b as int].index && (j > b ==> s.workspaces[j].index
                        < s.workspaces[b as int].index),
                None => forall|j: int| 0 <= j < i ==> !#[trigger] is_spare(s, output@, j),
            },
    {
        let w: &RuntimeWorkspace = &state.workspaces[i];
        assert(s.workspaces[i as int] == w@);
        let spare: bool = opt_is(&w.output, output) && unoccupied(state, w.id);
        assert(spare == is_spare(s, output@, i as int));
        if spare {
            let better: bool = match best {
                Some(b) => {
                    assert(s.workspaces[b as int] == state.workspaces@[b as int]@);
                    w.index >= state.workspaces[b].index
                },
                None => true,
            };
            if better {
                best = Some(i);
            }
        }
    }
    match best {
        Some(b) => {
            proof {
                assert(is_last_spare(s, output@, b as int));
                let c = choose|i: int| is_last_spare(s, output@, i);
                assert(is_last_spare(s, output@, c));
                if c < b {
                    assert(is_spare(s, output@, b as int));
                } else if b < c {
                    assert(is_spare(s, output@, c));
                }
                assert(s.workspaces[b as int] == state.workspaces@[b as int]@);
            }
            WorkspaceStep::Name(state.workspaces[b].id)
        },
        None => {
            assert forall|i: int| !is_last_spare(s, output@, i) by {
                if 0 <= i < s.workspaces.len() {
                    assert(!is_spare(s, output@, i));
                }
            }
            WorkspaceStep::NoEmpty
        },
    }
}

/// The error of a workspace that did not move.
pub fn not_moved(name: &str, output: &str) -> (out: NiriError)
    ensures
        out@ == NiriErrorView::WorkspaceDidNotConverge(
            "workspace "@ + outside::debug_text(name@) + " did not move to output "@
                + outside::debug_text(output@),
        ),
{
    let mut what: String = "workspace ".to_owned();
    what.append(debug_string(name).as_str());
    what.append(" did not move to output ");
    what.append(debug_string(output).as_str());
    NiriError::WorkspaceDidNotConverge(what)
}

/// The error of a workspace that did not get its name.
pub fn not_named(id: u64, name: &str) -> (out: NiriError)
    ensures
        out@ == NiriErrorView::WorkspaceDidNotConverge(
            "empty workspace "@ + text::decimal(id as nat) + " was not named "@
                + outside::debug_text(name@),
        ),
{
    let mut what: String = "empty workspace ".to_owned();
    push_number(&mut what, id);
    what.append(" was not named ");
    what.append(debug_string(name).as_str());
    NiriError::WorkspaceDidNotConverge(what)
}

/// Whether the workspace has arrived on the output.
pub fn workspace_is_on(state: &ObservedState, id: u64, output: &str) -> (out: bool)
    ensures
        out == exists|i: int|
            0 <= i < state@.workspaces.len() && (#[trigger] state@.workspaces[i]).id == id
                && state@.workspaces[i].output == Some(output@),
{
    let ghost views = state@.workspaces;
    for i in 0..state.workspaces.len()
        invariant
            views == state@.workspaces,
            forall|k: int|
                0 <= k < i ==> !((#[trigger] views[k]).id == id && views[k].output == Some(output@)),
    {
        assert(views[i as int] == state.workspaces@[i as int]@);
        if state.workspaces[i].id == id && opt_is(&state.workspaces[i].output, output) {
            assert(views[i as int].id == id);
            return true;
        }
    }
    false
}

/// Whether the workspace has got its name.
pub fn workspace_is_named(state: &ObservedState, id: u64, name: &str) -> (out: bool)
    ensures
        out == exists|i: int|
            0 <= i < state@.workspaces.len() && (#[trigger] state@.workspaces[i]).id == id
                && state@.workspaces[i].name == Some(name@),
{
    let ghost views = state@.workspaces;
    for i in 0..state.workspaces.len()
        invariant
            views == state@.workspaces,
            forall|k: int|
                0 <= k < i ==> !((#[trigger] views[k]).id == id && views[k].name == Some(name@)),
    {
        assert(views[i as int] == state.workspaces@[i as int]@);
        if state.workspaces[i].id == id && opt_is(&state.workspaces[i].name, name) {
            assert(views[i as int].id == id);
            return true;
        }
    }
    false
}

// Laws

/// A workspace that gets the name of a recipe is on the output and has no window.
pub proof fn named_workspaces_were_empty(s: StateView, name: Seq<char>, output: Seq<char>)
    ensures
        match workspace_step(s, name, output) {
            WorkspaceStep::Name(id) => s.named_workspace(name) is None && is_empty_workspace(s, id),
            _ => true,
        },
{
}

/// A recipe that insists on its output goes there or nowhere, and no recipe goes
/// elsewhere without a warning.
pub proof fn outputs_are_not_changed_silently(r: RecipeView, s: StateView)
    requires
        requested_output(r) is Some,
    ensures
        match target_of(r, s) {
            TargetView::Found { name, fallback_warning } => (fallback_warning is None <==> is_connected(
                s,
                requested_output(r)->0,
            )) && (fallback_warning is None ==> name == requested_output(r)->0) && (
            r.output_fallback == OutputFallback::Error ==> fallback_warning is None),
            TargetView::MissingOutput(name) => name == requested_output(r)->0 && !is_connected(
                s,
                name,
            ),
            TargetView::NoOutput => !is_connected(s, requested_output(r)->0),
        },
{
}

/// The recipe asks for output `o`: itself, or else by the first of its windows that
/// asks for any.
pub open spec fn asks_for(r: RecipeView, o: Seq<char>) -> bool {
    r.output == Some(o) || (r.output is None && exists|i: int|
        0 <= i < r.windows.len() && (#[trigger] r.windows[i]).layout.output == Some(o) && forall|
            j: int,
        |
            0 <= j < i ==> (#[trigger] r.windows[j]).layout.output is None)
}

/// Neither the recipe nor one of its windows asks for an output.
pub open spec fn asks_for_none(r: RecipeView) -> bool {
    r.output is None && forall|i: int|
        0 <= i < r.windows.len() ==> (#[trigger] r.windows[i]).layout.output is None
}

/// Output `j` has this name and shows something.
pub open spec fn is_shown(s: StateView, j: int, o: Seq<char>) -> bool {
    0 <= j < s.outputs.len() && s.outputs[j].name == o && s.outputs[j].width is Some
}

/// Workspace `j` is the first that has the focus.
pub open spec fn is_first_focused(s: StateView, j: int) -> bool {
    0 <= j < s.workspaces.len() && s.workspaces[j].is_focused && forall|i: int|
        0 <= i < j ==> !(#[trigger] s.workspaces[i]).is_focused
}

proof fn what_is_asked_for(r: RecipeView, o: Seq<char>)
    ensures
        asks_for(r, o) ==> requested_output(r) == Some(o),
        asks_for_none(r) ==> requested_output(r) is None,
{
    if asks_for(r, o) && r.output is None {
        let i = choose|i: int|
            0 <= i < r.windows.len() && (#[trigger] r.windows[i]).layout.output == Some(o) && forall|
                j: int,
            |
                0 <= j < i ==> (#[trigger] r.windows[j]).layout.output is None;
        lists::first_is(r.windows, wants_output(), i);
    }
    if asks_for_none(r) {
        lists::first_is_none(r.windows, wants_output());
    }
}

/// A recipe goes to the output that it asks for where that is connected. Where it is
/// not, a recipe that insists is refused with the name of the output; any other goes to
/// the output of the workspace that has the focus, with a warning that names both.
pub proof fn declared_outputs_are_obeyed(r: RecipeView, s: StateView, o: Seq<char>)
    requires
        asks_for(r, o),
    ensures
        (exists|j: int| #[trigger] is_shown(s, j, o)) ==> target_of(r, s) == (TargetView::Found {
            name: o,
            fallback_warning: None,
        }),
        !(exists|j: int| #[trigger] is_shown(s, j, o)) && r.output_fallback == OutputFallback::Error
            ==> target_of(r, s) == TargetView::MissingOutput(o),
        forall|f: int|
            !(exists|j: int| #[trigger] is_shown(s, j, o)) && r.output_fallback
                != OutputFallback::Error && #[trigger] is_first_focused(s, f) ==> match s.workspaces[f].output {
                Some(here) => target_of(r, s) == (TargetView::Found {
                    name: here,
                    fallback_warning: Some(
                        "requested output "@ + outside::debug_text(o)
                            + " is not connected; using focused output "@ + outside::debug_text(
                            here,
                        ),
                    ),
                }),
                None => target_of(r, s) == TargetView::NoOutput,
            },
{
    what_is_asked_for(r, o);
    assert(is_connected(s, o) <==> exists|j: int| #[trigger] is_shown(s, j, o)) by {
        if is_connected(s, o) {
            let j = choose|j: int|
                0 <= j < s.outputs.len() && (#[trigger] s.outputs[j]).name == o
                    && s.outputs[j].width is Some;
            assert(is_shown(s, j, o));
        }
        if exists|j: int| #[trigger] is_shown(s, j, o) {
            let j = choose|j: int| #[trigger] is_shown(s, j, o);
            assert(s.outputs[j].name == o);
        }
    }
    assert forall|f: int| #[trigger] is_first_focused(s, f) implies focused_output(s)
        == s.workspaces[f].output by {
        lists::first_is(s.workspaces, model::workspace_focused(), f);
    }
}

/// A recipe that asks for no output goes to that of the workspace that has the focus,
/// and where no workspace has it to the first output that shows something; there is
/// nothing to warn of.
pub proof fn other_recipes_stay_where_the_focus_is(r: RecipeView, s: StateView)
    requires
        asks_for_none(r),
    ensures
        forall|f: int| #[trigger]
            is_first_focused(s, f) && s.workspaces[f].output is Some ==> target_of(r, s) == (
            TargetView::Found { name: s.workspaces[f].output->0, fallback_warning: None }),
        forall|j: int|
            has_no_focus(s) && #[trigger] is_first_shown(s, j) ==> target_of(r, s) == (
            TargetView::Found { name: s.outputs[j].name, fallback_warning: None }),
        has_no_focus(s) && (forall|j: int| !#[trigger] is_first_shown(s, j)) ==> target_of(r, s)
            == TargetView::NoOutput,
{
    what_is_asked_for(r, Seq::empty());
    assert forall|f: int| #[trigger] is_first_focused(s, f) implies focused_output(s)
        == s.workspaces[f].output by {
        lists::first_is(s.workspaces, model::workspace_focused(), f);
    }
    if has_no_focus(s) {
        let q = model::workspace_focused();
        assert forall|f: int| 0 <= f < s.workspaces.len() implies !q(#[trigger] s.workspaces[f]) by {}
        lists::first_is_none(s.workspaces, q);
        let p = shows_something();
        assert forall|j: int| #[trigger] is_first_shown(s, j) implies lists::first_where(
            s.outputs,
            p,
        ) == Some(j) by {
            lists::first_is(s.outputs, p, j);
        }
        if lists::first_where(s.outputs, p) is Some {
            lists::first_holds(s.outputs, p);
            let j = lists::first_where(s.outputs, p)->0;
            assert forall|i: int| 0 <= i < j implies (#[trigger] s.outputs[i]).width is None by {
                assert(!p(s.outputs[i]));
            }
            assert(p(s.outputs[j]));
            assert(is_first_shown(s, j));
        }
    }
}

/// No workspace has the focus.
pub open spec fn has_no_focus(s: StateView) -> bool {
    forall|f: int| 0 <= f < s.workspaces.len() ==> !(#[trigger] s.workspaces[f]).is_focused
}

/// Output `j` is the first that shows something.
pub open spec fn is_first_shown(s: StateView, j: int) -> bool {
    0 <= j < s.outputs.len() && s.outputs[j].width is Some && forall|i: int|
        0 <= i < j ==> (#[trigger] s.outputs[i]).width is None
}

/// A named workspace is kept where it is on the output and moved there where it is
/// not; only where there is none of the name, one is named.
pub proof fn workspaces_keep_their_name(s: StateView, name: Seq<char>, output: Seq<char>, i: int)
    requires
        0 <= i < s.workspaces.len(),
        s.workspaces[i].name == Some(name),
        forall|j: int| 0 <= j < i ==> (#[trigger] s.workspaces[j]).name != Some(name),
    ensures
        workspace_step(s, name, output) == if s.workspaces[i].output == Some(output) {
            WorkspaceStep::Keep(s.workspaces[i].id)
        } else {
            WorkspaceStep::Move(s.workspaces[i].id)
        },
{
    lists::first_is(s.workspaces, model::workspace_named(name), i);
}

/// Where no workspace has the name, the last empty one on the output gets it: no other
/// empty workspace of the output has a higher index. Where there is none, nothing can
/// be done.
pub proof fn the_last_empty_workspace_gets_the_name(
    s: StateView,
    name: Seq<char>,
    output: Seq<char>,
    i: int,
)
    requires
        forall|j: int| 0 <= j < s.workspaces.len() ==> (#[trigger] s.workspaces[j]).name != Some(name),
    ensures
        match workspace_step(s, name, output) {
            WorkspaceStep::Name(id) => {
                &&& exists|k: int|
                    0 <= k < s.workspaces.len() && (#[trigger] s.workspaces[k]).id == id
                        && s.workspaces[k].output == Some(output) && (0 <= i < s.workspaces.len()
                        && s.workspaces[i].output == Some(output) && (forall|w: int|
                        0 <= w < s.windows.len() ==> (#[trigger] s.windows[w]).workspace_id != Some(
                            s.workspaces[i].id,
                        )) ==> s.workspaces[i].index <= s.workspaces[k].index)
                &&& forall|w: int|
                    0 <= w < s.windows.len() ==> (#[trigger] s.windows[w]).workspace_id != Some(id)
            },
            WorkspaceStep::NoEmpty => 0 <= i < s.workspaces.len() && s.workspaces[i].output == Some(
                output,
            ) ==> exists|w: int|
                0 <= w < s.windows.len() && (#[trigger] s.windows[w]).workspace_id == Some(
                    s.workspaces[i].id,
                ),
            _ => false,
        },
{
    lists::first_is_none(s.workspaces, model::workspace_named(name));
    if 0 <= i < s.workspaces.len() && is_spare(s, output, i) {
        last_spare_exists(s, output, i);
    }
    if exists|k: int| is_last_spare(s, output, k) {
        let k = choose|k: int| is_last_spare(s, output, k);
        assert(s.workspaces[k].id == s.workspaces[k].id);
        if 0 <= i < s.workspaces.len() {
            let b = is_spare(s, output, i);
        }
    }
}

proof fn last_spare_exists(s: StateView, output: Seq<char>, i: int)
    requires
        0 <= i < s.workspaces.len(),
        is_spare(s, output, i),
    ensures
        exists|k: int| is_last_spare(s, output, k),
    decreases 256 - s.workspaces[i].index, s.workspaces.len() - i,
{
    if !is_last_spare(s, output, i) {
        let j = choose|j: int|
            0 <= j < s.workspaces.len() && #[trigger] is_spare(s, output, j)
                && !(s.workspaces[j].index <= s.workspaces[i].index && (j > i
                ==> s.workspaces[j].index < s.workspaces[i].index));
        last_spare_exists(s, output, j);
    }
}

/// The full extent of a workspace is that of the output that it is on, where both are
/// known.
pub proof fn extents_are_those_of_the_output(
    s: StateView,
    id: u64,
    i: int,
    j: int,
)
    requires
        0 <= i < s.workspaces.len(),
        s.workspaces[i].id == id,
        forall|k: int| 0 <= k < i ==> (#[trigger] s.workspaces[k]).id != id,
        0 <= j < s.outputs.len(),
        s.workspaces[i].output == Some(s.outputs[j].name),
        forall|k: int| 0 <= k < j ==> (#[trigger] s.outputs[k]).name != s.outputs[j].name,
    ensures
        full_extent(s, id, true) == s.outputs[j].width,
        full_extent(s, id, false) == s.outputs[j].height,
{
    lists::first_is(s.workspaces, model::workspace_has_id(id), i);
    lists::first_is(s.outputs, model::output_named(s.outputs[j].name), j);
}

} // verus!
