//! Binding the logical windows of a recipe to windows that are open, and what
//! that says of the recipe.
use crate::lists;
use crate::matcher;
use crate::matcher::{
    choose_candidate, Candidate, CandidateDecision, CandidateView, DecisionView, MatchError,
    MatchErrorView,
};
use crate::model::{
    ObservedState, Recipe, RecipeView, ReusePolicy, RuntimeView, StateView, WindowSpec, WindowView,
};
use crate::names;
use crate::names::NameMap;
use crate::outside;
use crate::outside::debug_string;
use crate::planner;
use crate::planner::{build_reconcile_plan, Action, ActionView, Scene, TileFit};
use crate::show;
use crate::show::{matcher_text, push_opt_pid, push_opt_text};
use crate::text;
use crate::text::{push_number, starts_with};
use std::collections::HashSet;
use vstd::prelude::*;

verus! {

broadcast use vstd::std_specs::hash::group_hash_axioms;

/// What is to become of a logical window.
#[derive(Debug, Clone, Copy, PartialEq, Eq, Structural)]
pub enum ExistingResolution {
    /// Take the open window with this identifier.
    Reuse(u64),
    /// Start its command.
    Spawn,
}

/// Every logical window of a recipe and what is to become of it; `ids` holds
/// those that are open.
#[derive(Debug, PartialEq)]
pub struct ResolvedExisting {
    pub by_name: NameMap<ExistingResolution>,
    pub ids: NameMap<u64>,
}

/// The window that a logical window takes while those in `used` are taken. With
/// `honour`, a window that is never to be reused takes none.
pub open spec fn taken(
    w: WindowView,
    windows: Seq<RuntimeView>,
    used: Set<u64>,
    honour: bool,
) -> Option<u64> {
    if (honour && w.reuse == ReusePolicy::Never) || matcher::matcher_fault(w.match_spec) is Some {
        None
    } else {
        match matcher::decision_of(w.match_spec, windows, used, None) {
            DecisionView::One(c) => Some(c.id),
            _ => None,
        }
    }
}

/// The windows that the first `n` logical windows take.
pub open spec fn used_by(
    specs: Seq<WindowView>,
    windows: Seq<RuntimeView>,
    honour: bool,
    n: nat,
) -> Set<u64>
    decreases n,
{
    if n == 0 {
        Set::empty()
    } else {
        let before = used_by(specs, windows, honour, (n - 1) as nat);
        match taken(specs[n - 1], windows, before, honour) {
            Some(id) => before.insert(id),
            None => before,
        }
    }
}

/// The window that logical window `i` takes when those before it have taken
/// theirs.
pub open spec fn pick(
    specs: Seq<WindowView>,
    windows: Seq<RuntimeView>,
    honour: bool,
    i: int,
) -> Option<u64> {
    taken(specs[i], windows, used_by(specs, windows, honour, i as nat), honour)
}

/// What is decided on logical window `i` when those before it have taken theirs.
pub open spec fn decision_at(
    specs: Seq<WindowView>,
    windows: Seq<RuntimeView>,
    honour: bool,
    i: int,
) -> DecisionView {
    matcher::decision_of(
        specs[i].match_spec,
        windows,
        used_by(specs, windows, honour, i as nat),
        None,
    )
}

/// The first `n` logical windows bound to the windows that they take.
pub open spec fn bindings(
    specs: Seq<WindowView>,
    windows: Seq<RuntimeView>,
    honour: bool,
    n: nat,
) -> Seq<(Seq<char>, u64)>
    decreases n,
{
    if n == 0 {
        Seq::empty()
    } else {
        let before = bindings(specs, windows, honour, (n - 1) as nat);
        match pick(specs, windows, honour, n - 1) {
            Some(id) => names::inserted(before, specs[n - 1].name, id),
            None => before,
        }
    }
}

/// What is to become of the first `n` logical windows.
pub open spec fn resolutions(specs: Seq<WindowView>, windows: Seq<RuntimeView>, n: nat) -> Seq<
    (Seq<char>, ExistingResolution),
>
    decreases n,
{
    if n == 0 {
        Seq::empty()
    } else {
        let before = resolutions(specs, windows, (n - 1) as nat);
        names::inserted(
            before,
            specs[n - 1].name,
            match pick(specs, windows, true, n - 1) {
                Some(id) => ExistingResolution::Reuse(id),
                None => ExistingResolution::Spawn,
            },
        )
    }
}

/// Why the windows of a recipe cannot be told.
#[derive(Debug, PartialEq, Eq)]
pub enum ResolveError {
    /// The matcher of a logical window cannot be used.
    Matcher { name: String, source: MatchError },
    /// No open window fits, and there is no command to start one.
    Unmatched { name: String },
    /// Several open windows fit.
    Ambiguous { name: String, matcher: String, candidates: Vec<Candidate> },
}

/// The model of such an error.
#[allow(inconsistent_fields)]
pub enum ResolveErrorView {
    Matcher { name: Seq<char>, source: MatchErrorView },
    Unmatched { name: Seq<char> },
    Ambiguous { name: Seq<char>, matcher: Seq<char>, candidates: Seq<CandidateView> },
}

impl View for ResolveError {
    type V = ResolveErrorView;

    open spec fn view(&self) -> ResolveErrorView {
        match *self {
            ResolveError::Matcher { name, source } => ResolveErrorView::Matcher {
                name: name@,
                source: source@,
            },
            ResolveError::Unmatched { name } => ResolveErrorView::Unmatched { name: name@ },
            ResolveError::Ambiguous { name, matcher, candidates } => ResolveErrorView::Ambiguous {
                name: name@,
                matcher: matcher@,
                candidates: matcher::candidate_views(candidates@),
            },
        }
    }
}

/// A candidate for people.
pub open spec fn candidate_text(c: CandidateView) -> Seq<char> {
    "  id="@ + text::decimal(c.id as nat) + " app_id="@ + show::opt_debug(c.app_id) + " title="@
        + show::opt_debug(c.title) + " pid="@ + show::opt_number(show::pid_int(c.pid))
        + " process="@ + show::opt_debug(c.process_exe)
}

/// One candidate on a line of its own.
pub open spec fn candidate_line(c: CandidateView) -> Seq<char> {
    candidate_text(c) + "\n"@
}

/// All candidates, a line each.
pub open spec fn candidate_lines(cs: Seq<CandidateView>) -> Seq<char>
    decreases cs.len(),
{
    if cs.len() == 0 {
        Seq::empty()
    } else {
        candidate_lines(cs.drop_last()) + candidate_line(cs.last())
    }
}

/// The message of an error.
pub open spec fn resolve_error_text(e: ResolveErrorView) -> Seq<char> {
    match e {
        ResolveErrorView::Matcher { name, source } => "invalid matcher for logical window "@
            + outside::debug_text(name) + ": "@ + matcher::match_error_text(source),
        ResolveErrorView::Unmatched { name } => "could not resolve window "@ + outside::debug_text(
            name,
        ) + ": no matching window exists and command is empty"@,
        ResolveErrorView::Ambiguous { name, matcher, candidates } =>
        "could not safely resolve window "@ + outside::debug_text(name) + ": "@ + text::decimal(
            candidates.len(),
        ) + " pre-existing windows match\nmatcher: "@ + matcher + "\ncandidates:\n"@
            + candidate_lines(candidates)
            + "refine the matcher (usually title/process), or set reuse = \"never\" if a new window is intentional"@,
    }
}

/// Appends a candidate.
pub fn push_candidate(out: &mut String, c: &Candidate)
    ensures
        final(out)@ == old(out)@ + candidate_text(c@),
{
    out.append("  id=");
    push_number(out, c.id);
    out.append(" app_id=");
    push_opt_text(out, &c.app_id);
    out.append(" title=");
    push_opt_text(out, &c.title);
    out.append(" pid=");
    push_opt_pid(out, c.pid);
    out.append(" process=");
    push_opt_text(out, &c.process_exe);
    assert(out@ =~= old(out)@ + candidate_text(c@));
}

impl ResolveError {
    /// The message for people.
    pub fn text(&self) -> (out: String)
        ensures
            out@ == resolve_error_text(self@),
    {
        match self {
            ResolveError::Matcher { name, source } => {
                let mut out: String = "invalid matcher for logical window ".to_owned();
                out.append(debug_string(name.as_str()).as_str());
                out.append(": ");
                out.append(source.text().as_str());
                out
            },
            ResolveError::Unmatched { name } => {
                let mut out: String = "could not resolve window ".to_owned();
                out.append(debug_string(name.as_str()).as_str());
                out.append(": no matching window exists and command is empty");
                out
            },
            ResolveError::Ambiguous { name, matcher, candidates } => {
                let mut out: String = "could not safely resolve window ".to_owned();
                out.append(debug_string(name.as_str()).as_str());
                out.append(": ");
                push_number(&mut out, candidates.len() as u64);
                out.append(" pre-existing windows match\nmatcher: ");
                out.append(matcher.as_str());
                out.append("\ncandidates:\n");
                let ghost head = out@;
                let ghost views = matcher::candidate_views(candidates@);
                assert(out@ =~= head + candidate_lines(views.take(0)));
                for i in 0..candidates.len()
                    invariant
                        views == matcher::candidate_views(candidates@),
                        out@ == head + candidate_lines(views.take(i as int)),
                {
                    assert(views[i as int] == candidates@[i as int]@);
                    assert(views.take(i + 1).drop_last() =~= views.take(i as int));
                    push_candidate(&mut out, &candidates[i]);
                    out.append("\n");
                    assert(out@ =~= head + candidate_lines(views.take(i + 1)));
                }
                assert(views.take(views.len() as int) =~= views);
                out.append(
                    "refine the matcher (usually title/process), or set reuse = \"never\" if a new window is intentional",
                );
                out
            },
        }
    }
}

/// Why logical window `i` cannot be told, if it cannot.
pub open spec fn resolve_fault(specs: Seq<WindowView>, windows: Seq<RuntimeView>) -> spec_fn(
    int,
) -> Option<ResolveErrorView> {
    |i: int|
        {
            let w = specs[i];
            if w.reuse == ReusePolicy::Never {
                None
            } else if matcher::matcher_fault(w.match_spec) is Some {
                Some(
                    ResolveErrorView::Matcher {
                        name: w.name,
                        source: matcher::matcher_fault(w.match_spec)->0,
                    },
                )
            } else {
                match decision_at(specs, windows, true, i) {
                    DecisionView::Missing => if w.command.len() == 0 {
                        Some(ResolveErrorView::Unmatched { name: w.name })
                    } else {
                        None
                    },
                    DecisionView::One(_) => None,
                    DecisionView::Ambiguous(cs) => Some(
                        ResolveErrorView::Ambiguous {
                            name: w.name,
                            matcher: show::matcher_shown(w.match_spec),
                            candidates: cs,
                        },
                    ),
                }
            }
        }
}

/// Finds the open window of every logical window of `recipe`.
pub fn resolve_existing(recipe: &Recipe, state: &ObservedState) -> (out: Result<
    ResolvedExisting,
    ResolveError,
>)
    ensures
        ({
            let specs = recipe@.windows;
            let fault = lists::first_given(
                specs.len(),
                resolve_fault(specs, state@.windows),
            );
            match out {
                Ok(r) => fault is None && r.ids@ == bindings(
                    specs,
                    state@.windows,
                    true,
                    specs.len(),
                ) && r.by_name@ == resolutions(specs, state@.windows, specs.len()),
                Err(e) => fault == Some(e@),
            }
        }),
{
    let mut used: HashSet<u64> = HashSet::new();
    let mut by_name: NameMap<ExistingResolution> = NameMap::new();
    let mut ids: NameMap<u64> = NameMap::new();
    let ghost specs = recipe@.windows;
    let ghost windows = state@.windows;
    let ghost f = resolve_fault(specs, windows);
    assert(used@ =~= used_by(specs, windows, true, 0));
    for i in 0..recipe.windows.len()
        invariant
            specs == recipe@.windows,
            windows == state@.windows,
            f == resolve_fault(specs, windows),
            used@ == used_by(specs, windows, true, i as nat),
            ids@ == bindings(specs, windows, true, i as nat),
            by_name@ == resolutions(specs, windows, i as nat),
            forall|k: int| 0 <= k < i ==> (#[trigger] f(k)) is None,
    {
        let spec: &WindowSpec = &recipe.windows[i];
        assert(specs[i as int] == spec@);
        let ghost given = f(i as int);
        proof {
            if given is Some {
                lists::first_given_is(specs.len(), f, i as int);
            }
        }
        if spec.reuse == ReusePolicy::Never {
            by_name.insert(spec.name.clone(), ExistingResolution::Spawn);
        } else {
            match choose_candidate(spec, state.windows.as_slice(), &used, None) {
                Err(source) => {
                    return Err(ResolveError::Matcher { name: spec.name.clone(), source });
                },
                Ok(CandidateDecision::Missing) => {
                    if spec.command.len() == 0 {
                        return Err(ResolveError::Unmatched { name: spec.name.clone() });
                    }
                    by_name.insert(spec.name.clone(), ExistingResolution::Spawn);
                },
                Ok(CandidateDecision::One(candidate)) => {
                    used.insert(candidate.id);
                    ids.insert(spec.name.clone(), candidate.id);
                    by_name.insert(spec.name.clone(), ExistingResolution::Reuse(candidate.id));
                },
                Ok(CandidateDecision::Ambiguous(candidates)) => {
                    return Err(
                        ResolveError::Ambiguous {
                            name: spec.name.clone(),
                            matcher: matcher_text(&spec.match_spec),
                            candidates,
                        },
                    );
                },
            }
        }
    }
    proof {
        lists::first_given_none(specs.len(), f);
    }
    Ok(ResolvedExisting { by_name, ids })
}

// Repairing

/// Why the windows of a recipe cannot be put back in place.
#[derive(Debug, PartialEq, Eq)]
pub enum RepairError {
    /// The matcher of a logical window cannot be used.
    Matcher { name: String, source: MatchError },
    /// Several open windows fit.
    Ambiguous { name: String, count: usize },
    /// Some windows are not open.
    Missing { names: Vec<String> },
}

#[allow(inconsistent_fields)]
pub enum RepairErrorView {
    Matcher { name: Seq<char>, source: MatchErrorView },
    Ambiguous { name: Seq<char>, count: nat },
    Missing { names: Seq<Seq<char>> },
}

impl View for RepairError {
    type V = RepairErrorView;

    open spec fn view(&self) -> RepairErrorView {
        match *self {
            RepairError::Matcher { name, source } => RepairErrorView::Matcher {
                name: name@,
                source: source@,
            },
            RepairError::Ambiguous { name, count } => RepairErrorView::Ambiguous {
                name: name@,
                count: count as nat,
            },
            RepairError::Missing { names } => RepairErrorView::Missing {
                names: text::texts(names@),
            },
        }
    }
}

/// The message of an error for the recipe `key`.
pub open spec fn repair_error_text(e: RepairErrorView, key: Seq<char>) -> Seq<char> {
    match e {
        RepairErrorView::Matcher { name, source } => "invalid matcher for logical window "@
            + outside::debug_text(name) + ": "@ + matcher::match_error_text(source),
        RepairErrorView::Ambiguous { name, count } => "cannot repair "@ + outside::debug_text(name)
            + ": "@ + text::decimal(count)
            + " existing windows match; refine its matcher first"@,
        RepairErrorView::Missing { names } =>
        "repair never launches applications; missing window(s): "@ + text::joined(names, ", "@)
            + ". Use niri-workbench open "@ + key + " instead."@,
    }
}

impl RepairError {
    /// The message for people. `key` is the key of the recipe.
    pub fn text(&self, key: &str) -> (out: String)
        ensures
            out@ == repair_error_text(self@, key@),
    {
        match self {
            RepairError::Matcher { name, source } => {
                let mut out: String = "invalid matcher for logical window ".to_owned();
                out.append(debug_string(name.as_str()).as_str());
                out.append(": ");
                out.append(source.text().as_str());
                out
            },
            RepairError::Ambiguous { name, count } => {
                let mut out: String = "cannot repair ".to_owned();
                out.append(debug_string(name.as_str()).as_str());
                out.append(": ");
                push_number(&mut out, *count as u64);
                out.append(" existing windows match; refine its matcher first");
                out
            },
            RepairError::Missing { names } => {
                let mut out: String =
                    "repair never launches applications; missing window(s): ".to_owned();
                out.append(text::join(names, ", ").as_str());
                out.append(". Use niri-workbench open ");
                out.append(key);
                out.append(" instead.");
                out
            },
        }
    }
}

/// Why logical window `i` cannot be told among the open windows, if several fit
/// or its matcher cannot be used.
pub open spec fn repair_fault(specs: Seq<WindowView>, windows: Seq<RuntimeView>) -> spec_fn(
    int,
) -> Option<RepairErrorView> {
    |i: int|
        {
            let w = specs[i];
            if matcher::matcher_fault(w.match_spec) is Some {
                Some(
                    RepairErrorView::Matcher {
                        name: w.name,
                        source: matcher::matcher_fault(w.match_spec)->0,
                    },
                )
            } else {
                match decision_at(specs, windows, false, i) {
                    DecisionView::Ambiguous(cs) => Some(
                        RepairErrorView::Ambiguous { name: w.name, count: cs.len() },
                    ),
                    _ => None,
                }
            }
        }
}

/// The name of logical window `i`, if it is not open.
pub open spec fn missing_name(specs: Seq<WindowView>, windows: Seq<RuntimeView>) -> spec_fn(
    int,
) -> Option<Seq<char>> {
    |i: int|
        match pick(specs, windows, false, i) {
            Some(_) => None,
            None => Some(specs[i].name),
        }
}

/// The names of the logical windows that are not open.
pub open spec fn missing_names(specs: Seq<WindowView>, windows: Seq<RuntimeView>) -> Seq<Seq<char>> {
    lists::gather(specs.len(), missing_name(specs, windows))
}

/// Finds the open window of every logical window of `recipe`, whatever it says
/// of reuse; nothing is ever started.
pub fn resolve_for_repair(recipe: &Recipe, state: &ObservedState) -> (out: Result<
    NameMap<u64>,
    RepairError,
>)
    ensures
        ({
            let specs = recipe@.windows;
            let fault = lists::first_given(specs.len(), repair_fault(specs, state@.windows));
            let missing = missing_names(specs, state@.windows);
            match out {
                Ok(ids) => fault is None && missing.len() == 0 && ids@ == bindings(
                    specs,
                    state@.windows,
                    false,
                    specs.len(),
                ),
                Err(e) => if fault is Some {
                    fault == Some(e@)
                } else {
                    missing.len() > 0 && e@ == (RepairErrorView::Missing { names: missing })
                },
            }
        }),
{
    let mut used: HashSet<u64> = HashSet::new();
    let mut ids: NameMap<u64> = NameMap::new();
    let mut missing: Vec<String> = Vec::new();
    let ghost specs = recipe@.windows;
    let ghost windows = state@.windows;
    let ghost f = repair_fault(specs, windows);
    let ghost g = missing_name(specs, windows);
    assert(used@ =~= used_by(specs, windows, false, 0));
    assert(text::texts(missing@) =~= lists::gather(0, g));
    for i in 0..recipe.windows.len()
        invariant
            specs == recipe@.windows,
            windows == state@.windows,
            f == repair_fault(specs, windows),
            g == missing_name(specs, windows),
            used@ == used_by(specs, windows, false, i as nat),
            ids@ == bindings(specs, windows, false, i as nat),
            text::texts(missing@) == lists::gather(i as nat, g),
            forall|k: int| 0 <= k < i ==> (#[trigger] f(k)) is None,
    {
        let spec: &WindowSpec = &recipe.windows[i];
        assert(specs[i as int] == spec@);
        let ghost given = f(i as int);
        let ghost gone = g(i as int);
        let ghost before = missing@;
        proof {
            if given is Some {
                lists::first_given_is(specs.len(), f, i as int);
            }
        }
        match choose_candidate(spec, state.windows.as_slice(), &used, None) {
            Err(source) => {
                return Err(RepairError::Matcher { name: spec.name.clone(), source });
            },
            Ok(CandidateDecision::Missing) => {
                missing.push(spec.name.clone());
                assert(text::texts(missing@) =~= text::texts(before).push(gone->0));
            },
            Ok(CandidateDecision::One(candidate)) => {
                used.insert(candidate.id);
                ids.insert(spec.name.clone(), candidate.id);
            },
            Ok(CandidateDecision::Ambiguous(candidates)) => {
                return Err(
                    RepairError::Ambiguous { name: spec.name.clone(), count: candidates.len() },
                );
            },
        }
    }
    proof {
        lists::first_given_none(specs.len(), f);
    }
    if missing.len() > 0 {
        return Err(RepairError::Missing { names: missing });
    }
    Ok(ids)
}

// Status

/// How the open windows stand to a recipe.
#[derive(Debug, Clone, Copy, PartialEq, Eq, Structural)]
pub enum RecipeStatus {
    Ready,
    Missing(usize),
    LayoutChanged,
    Ambiguous,
    Offline,
}

/// Logical window `i` cannot be told among the open windows.
pub open spec fn is_unclear(specs: Seq<WindowView>, windows: Seq<RuntimeView>, i: int) -> bool {
    specs[i].reuse != ReusePolicy::Never && (matcher::matcher_fault(specs[i].match_spec) is Some
        || decision_at(specs, windows, true, i) is Ambiguous)
}

pub open spec fn missing_place(specs: Seq<WindowView>, windows: Seq<RuntimeView>) -> spec_fn(
    int,
) -> Option<int> {
    |i: int|
        match pick(specs, windows, true, i) {
            Some(_) => None,
            None => Some(i),
        }
}

/// How many logical windows take no open window.
pub open spec fn missing_count(specs: Seq<WindowView>, windows: Seq<RuntimeView>) -> nat {
    lists::gather(specs.len(), missing_place(specs, windows)).len()
}

/// The manager's own window has the focus.
pub open spec fn is_own_window(w: RuntimeView) -> bool {
    w.app_id is Some && "dev.t1ktak.NiriWorkbench"@.is_prefix_of(w.app_id->0)
}

pub open spec fn ui_has_focus(s: StateView) -> bool {
    exists|i: int|
        0 <= i < s.windows.len() && (#[trigger] s.windows[i]).is_focused && is_own_window(
            s.windows[i],
        )
}

pub open spec fn only_focus(plan: Seq<ActionView>) -> bool {
    forall|i: int| 0 <= i < plan.len() ==> (#[trigger] plan[i]) is Focus
}

/// The status of a recipe in the state `s`. A plan that only wants the focus back
/// from the manager's own window counts as ready.
pub open spec fn status_of(r: RecipeView, s: StateView, fits: Seq<Seq<TileFit>>) -> RecipeStatus {
    let ids = bindings(r.windows, s.windows, true, r.windows.len());
    let workspace = s.named_workspace(r.workspace);
    if exists|i: int| 0 <= i < r.windows.len() && #[trigger] is_unclear(r.windows, s.windows, i) {
        RecipeStatus::Ambiguous
    } else if missing_count(r.windows, s.windows) > 0 {
        RecipeStatus::Missing(missing_count(r.windows, s.windows) as usize)
    } else if workspace is None || ids.len() != r.windows.len() {
        RecipeStatus::LayoutChanged
    } else {
        let plan = (Scene {
            recipe: r,
            observed: s,
            resolved: ids,
            workspace_id: workspace->0.id,
            fits,
        }).plan(false);
        if plan.len() == 0 || (ui_has_focus(s) && only_focus(plan)) {
            RecipeStatus::Ready
        } else {
            RecipeStatus::LayoutChanged
        }
    }
}

/// Whether a window belongs to the manager itself.
pub fn own_window(app_id: &Option<String>) -> (out: bool)
    ensures
        out == (app_id is Some && "dev.t1ktak.NiriWorkbench"@.is_prefix_of(app_id->0@)),
{
    match app_id {
        Some(id) => starts_with(id.as_str(), "dev.t1ktak.NiriWorkbench"),
        None => false,
    }
}

/// Whether the manager's own window has the focus.
pub fn workbench_ui_has_focus(state: &ObservedState) -> (out: bool)
    ensures
        out == ui_has_focus(state@),
{
    let ghost views = state@.windows;
    for i in 0..state.windows.len()
        invariant
            views == state@.windows,
            forall|k: int|
                0 <= k < i ==> !((#[trigger] views[k]).is_focused && is_own_window(views[k])),
    {
        assert(views[i as int] == state.windows@[i as int]@);
        if state.windows[i].is_focused && own_window(&state.windows[i].app_id) {
            assert(views[i as int].is_focused && is_own_window(views[i as int]));
            return true;
        }
    }
    false
}

fn wants_only_focus(actions: &Vec<Action>) -> (out: bool)
    ensures
        out == only_focus(planner::action_views(actions@)),
{
    let ghost views = planner::action_views(actions@);
    for i in 0..actions.len()
        invariant
            views == planner::action_views(actions@),
            forall|k: int| 0 <= k < i ==> (#[trigger] views[k]) is Focus,
    {
        assert(views[i as int] == actions@[i as int]@);
        match &actions[i] {
            Action::Focus { .. } => {},
            _ => {
                assert(!(views[i as int] is Focus));
                return false;
            },
        }
    }
    true
}

/// How the open windows stand to `recipe`. `fits` is as for the planner, on the
/// workspace of the recipe's name.
pub fn recipe_status(
    recipe: &Recipe,
    state: Option<&ObservedState>,
    fits: &Vec<Vec<TileFit>>,
) -> (out: RecipeStatus)
    requires
        state is Some ==> planner::fits_cover(
            planner::fit_views(fits@),
            recipe.windows@.len(),
            state->0.windows@.len(),
        ),
        lists::members(planner::column_keys(recipe@.windows), usize::MAX).len() <= 1,
    ensures
        out == match state {
            Some(s) => status_of(recipe@, s@, planner::fit_views(fits@)),
            None => RecipeStatus::Offline,
        },
{
    let now: &ObservedState = match state {
        Some(s) => s,
        None => {
            return RecipeStatus::Offline;
        },
    };
    let mut used: HashSet<u64> = HashSet::new();
    let mut ids: NameMap<u64> = NameMap::new();
    let mut missing: usize = 0;
    let ghost specs = recipe@.windows;
    let ghost windows = now@.windows;
    let ghost g = missing_place(specs, windows);
    assert(used@ =~= used_by(specs, windows, true, 0));
    for i in 0..recipe.windows.len()
        invariant
            specs == recipe@.windows,
            windows == now@.windows,
            state == Some(now),
            g == missing_place(specs, windows),
            used@ == used_by(specs, windows, true, i as nat),
            ids@ == bindings(specs, windows, true, i as nat),
            missing == lists::gather(i as nat, g).len(),
            missing <= i,
            forall|k: int| 0 <= k < i ==> !#[trigger] is_unclear(specs, windows, k),
    {
        let spec: &WindowSpec = &recipe.windows[i];
        assert(specs[i as int] == spec@);
        let ghost gone = g(i as int);
        if spec.reuse == ReusePolicy::Never {
            missing = missing + 1;
        } else {
            match choose_candidate(spec, now.windows.as_slice(), &used, None) {
                Ok(CandidateDecision::Missing) => {
                    missing = missing + 1;
                },
                Ok(CandidateDecision::One(candidate)) => {
                    used.insert(candidate.id);
                    ids.insert(spec.name.clone(), candidate.id);
                },
                Ok(CandidateDecision::Ambiguous(_)) => {
                    assert(is_unclear(specs, windows, i as int));
                    return RecipeStatus::Ambiguous;
                },
                Err(_) => {
                    assert(is_unclear(specs, windows, i as int));
                    return RecipeStatus::Ambiguous;
                },
            }
        }
    }
    if missing > 0 {
        return RecipeStatus::Missing(missing);
    }
    let workspace_id: u64 = match now.named_workspace(recipe.workspace.as_str()) {
        Some(w) => w.id,
        None => {
            return RecipeStatus::LayoutChanged;
        },
    };
    if ids.len() != recipe.windows.len() {
        return RecipeStatus::LayoutChanged;
    }
    let plan = build_reconcile_plan(recipe, now, &ids, workspace_id, fits, false);
    if plan.is_noop() || (workbench_ui_has_focus(now) && wants_only_focus(&plan.actions)) {
        RecipeStatus::Ready
    } else {
        RecipeStatus::LayoutChanged
    }
}

// Laws

/// A window that is taken goes to no later logical window as well.
pub proof fn no_window_is_taken_twice(
    specs: Seq<WindowView>,
    windows: Seq<RuntimeView>,
    honour: bool,
    i: int,
    j: int,
)
    requires
        0 <= i < j < specs.len(),
        pick(specs, windows, honour, i) is Some,
    ensures
        pick(specs, windows, honour, j) != pick(specs, windows, honour, i),
{
    let id = pick(specs, windows, honour, i)->0;
    used_keeps(specs, windows, honour, (i + 1) as nat, j as nat, id);
    if pick(specs, windows, honour, j) is Some {
        let used = used_by(specs, windows, honour, j as nat);
        match matcher::decision_of(specs[j].match_spec, windows, used, None) {
            DecisionView::One(c) => {
                crate::match_laws::a_taken_window_is_free_and_fits(
                    specs[j].match_spec,
                    windows,
                    used,
                    None,
                    c,
                );
            },
            _ => {},
        }
    }
}

proof fn used_keeps(
    specs: Seq<WindowView>,
    windows: Seq<RuntimeView>,
    honour: bool,
    m: nat,
    n: nat,
    id: u64,
)
    requires
        m <= n,
        used_by(specs, windows, honour, m).contains(id),
    ensures
        used_by(specs, windows, honour, n).contains(id),
    decreases n,
{
    if m < n {
        used_keeps(specs, windows, honour, m, (n - 1) as nat, id);
    }
}

/// A recipe is ready just where every logical window has an open window under a
/// name of its own, the workspace is there, and nothing is left to do but to take
/// the focus back from the manager itself.
pub proof fn ready_means_settled(r: RecipeView, s: StateView, fits: Seq<Seq<TileFit>>)
    ensures
        status_of(r, s, fits) == RecipeStatus::Ready <==> {
            let ids = bindings(r.windows, s.windows, true, r.windows.len());
            let plan = (Scene {
                recipe: r,
                observed: s,
                resolved: ids,
                workspace_id: s.named_workspace(r.workspace)->0.id,
                fits,
            }).plan(false);
            &&& forall|i: int|
                0 <= i < r.windows.len() ==> (#[trigger] pick(r.windows, s.windows, true, i)) is Some
            &&& ids.len() == r.windows.len()
            &&& s.named_workspace(r.workspace) is Some
            &&& plan.len() == 0 || (ui_has_focus(s) && only_focus(plan))
        },
{
    let g = missing_place(r.windows, s.windows);
    lists::gather_is_empty(r.windows.len(), g);
    if missing_count(r.windows, s.windows) == 0 {
        assert forall|i: int| 0 <= i < r.windows.len() implies (#[trigger] pick(
            r.windows,
            s.windows,
            true,
            i,
        )) is Some by {
            assert(g(i) is None);
        }
    }
    if forall|i: int|
        0 <= i < r.windows.len() ==> (#[trigger] pick(r.windows, s.windows, true, i)) is Some {
        assert forall|i: int| 0 <= i < r.windows.len() implies (#[trigger] g(i)) is None by {
            assert(pick(r.windows, s.windows, true, i) is Some);
        }
        assert forall|i: int| 0 <= i < r.windows.len() implies !#[trigger] is_unclear(
            r.windows,
            s.windows,
            i,
        ) by {
            assert(pick(r.windows, s.windows, true, i) is Some);
        }
    }
}

/// To open a recipe that is ready starts nothing: there is nothing to complain of,
/// and every logical window takes a window that is open.
pub proof fn ready_recipes_start_nothing(r: RecipeView, s: StateView, fits: Seq<Seq<TileFit>>)
    requires
        status_of(r, s, fits) == RecipeStatus::Ready,
    ensures
        lists::first_given(r.windows.len(), resolve_fault(r.windows, s.windows)) is None,
        ({
            let done = resolutions(r.windows, s.windows, r.windows.len());
            forall|k: int| 0 <= k < done.len() ==> (#[trigger] done[k]).1 is Reuse
        }),
{
    let f = resolve_fault(r.windows, s.windows);
    ready_means_settled(r, s, fits);
    assert forall|i: int| 0 <= i < r.windows.len() implies (#[trigger] f(i)) is None by {
        assert(pick(r.windows, s.windows, true, i) is Some);
    }
    lists::first_given_none(r.windows.len(), f);
    found_windows_are_reused(r.windows, s.windows, r.windows.len());
}

proof fn found_windows_are_reused(specs: Seq<WindowView>, windows: Seq<RuntimeView>, n: nat)
    requires
        n <= specs.len(),
        forall|i: int| 0 <= i < n ==> (#[trigger] pick(specs, windows, true, i)) is Some,
    ensures
        ({
            let done = resolutions(specs, windows, n);
            forall|k: int| 0 <= k < done.len() ==> (#[trigger] done[k]).1 is Reuse
        }),
    decreases n,
{
    if n > 0 {
        found_windows_are_reused(specs, windows, (n - 1) as nat);
        let before = resolutions(specs, windows, (n - 1) as nat);
        let done = resolutions(specs, windows, n);
        let at = names::place_of(before, specs[n - 1].name);
        let not_before = names::not_before::<ExistingResolution>(specs[n - 1].name);
        if lists::first_where(before, not_before) is Some {
            lists::first_holds(before, not_before);
        }
        assert(pick(specs, windows, true, n - 1) is Some);
        assert forall|k: int| 0 <= k < done.len() implies (#[trigger] done[k]).1 is Reuse by {
            if k < at {
                assert(done[k] == before[k]);
            } else if k > at {
                assert(done[k] == before[k] || done[k] == before[k - 1]);
            }
        }
    }
}

} // verus!
