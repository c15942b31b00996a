//! What is promised of a plan while it is carried out.
use crate::apply::{ApplicationView, ApplyStepView, Phase, Sight};
use crate::execute;
use crate::execute::{ApplyErrorView, FocusView, NextView, ProgressView};
use crate::lists;
use crate::model;
use crate::model::{RecipeView, Size, StateView};
use crate::names;
use crate::planner::ActionView;
use vstd::prelude::*;

verus! {

/// The action sets an extent to a share of the output.
pub open spec fn is_about_a_share(a: ActionView) -> bool {
    match a {
        ActionView::SetColumnWidth { size: Size::Percent(_), .. } => true,
        ActionView::SetWindowHeight { size: Size::Percent(_), .. } => true,
        _ => false,
    }
}

/// Actions are carried out one after the other, until nothing but the focus is left or
/// there were too many. One that comes up again at once is tried once more, unless it
/// asks for a share: that is left with a warning. One that comes up a third time is
/// reported.
pub proof fn actions_are_tried_again(p: ProgressView, a: ActionView, f: Seq<char>)
    requires
        p.wf(),
    ensures
        p.next(None, f) is Stop,
        a is Focus ==> p.next(Some(a), f) is Stop,
        p.steps >= 64 ==> p.next(Some(a), f) is Stop,
        p.steps < 64 && !(a is Focus) ==> {
            let out = p.next(Some(a), f);
            &&& p.previous != Some(f) ==> out is Execute
            &&& p.previous == Some(f) && is_about_a_share(a) ==> out is Unverified
            &&& p.previous == Some(f) && !is_about_a_share(a) && p.repeats == 0 ==> out is Execute
            &&& p.previous == Some(f) && !is_about_a_share(a) && p.repeats == 1 ==> out
                == NextView::Fail(
                ApplyErrorView::DidNotConverge { steps: (p.steps + 1) as usize, last_action: f },
            )
        },
        p.next(Some(a), f) is Execute ==> p.after(Some(a), f).steps == p.steps + 1 && p.after(
            Some(a),
            f,
        ).previous == Some(f) && p.after(Some(a), f).repeats == if p.previous == Some(f) {
            1int
        } else {
            0
        },
        !(p.next(Some(a), f) is Execute) ==> p.after(Some(a), f) == p,
{
}

/// At the end the window that the recipe names gets the focus, unless it has it. Where
/// no window was found for the name, that is said.
pub proof fn the_named_window_gets_the_focus(
    r: RecipeView,
    resolved: Seq<(Seq<char>, u64)>,
    s: StateView,
)
    ensures
        match execute::focus_step(r, resolved, s) {
            FocusView::Keep => r.focus is None || (names::lookup(resolved, r.focus->0) is Some
                && exists|i: int|
                0 <= i < s.windows.len() && (#[trigger] s.windows[i]).is_focused && Some(
                    s.windows[i].id,
                ) == names::lookup(resolved, r.focus->0)),
            FocusView::Execute(a) => a is Focus && r.focus == Some(a->Focus_name) && names::lookup(
                resolved,
                r.focus->0,
            ) == Some(a->Focus_window_id),
            FocusView::Warn(_) => r.focus is Some && names::lookup(resolved, r.focus->0) is None,
        },
        r.focus is Some && names::lookup(resolved, r.focus->0) is Some && (forall|i: int|
            0 <= i < s.windows.len() ==> !(#[trigger] s.windows[i]).is_focused)
            ==> execute::focus_step(r, resolved, s) is Execute,
{
    let p = model::focused();
    lists::first_is_none(s.windows, p);
    if lists::first_where(s.windows, p) is Some {
        lists::first_holds(s.windows, p);
        let i = lists::first_where(s.windows, p)->0;
        assert(s.windows[i].is_focused);
    }
}

/// What is left of a plan is all of it but the focus.
pub proof fn the_focus_is_not_left(plan: Seq<ActionView>, a: ActionView)
    ensures
        lists::gather(plan.len(), execute::left_at(plan)).contains(a) <==> plan.contains(a) && !(
        a is Focus),
{
    let f = execute::left_at(plan);
    lists::gather_contains(plan.len(), f, a);
    if plan.contains(a) && !(a is Focus) {
        let i = choose|i: int| 0 <= i < plan.len() && plan[i] == a;
        assert(f(i) == Some(a));
    }
}

/// An action goes by the name of its logical window.
pub proof fn actions_go_by_their_window(a: ActionView)
    ensures
        match a {
            ActionView::MoveToWorkspace { name: n, .. } => execute::action_name(a) == n,
            ActionView::SetFloating { name: n, .. } => execute::action_name(a) == n,
            ActionView::ExpelRight { name: n, .. } => execute::action_name(a) == n,
            ActionView::MoveColumnToIndex { name: n, .. } => execute::action_name(a) == n,
            ActionView::ConsumeLeft { name: n, .. } => execute::action_name(a) == n,
            ActionView::MoveWindowUp { name: n, .. } => execute::action_name(a) == n,
            ActionView::MoveWindowDown { name: n, .. } => execute::action_name(a) == n,
            ActionView::SetColumnWidth { name: n, .. } => execute::action_name(a) == n,
            ActionView::SetWindowHeight { name: n, .. } => execute::action_name(a) == n,
            ActionView::SetColumnDisplay { name: n, .. } => execute::action_name(a) == n,
            ActionView::Focus { name: n, .. } => execute::action_name(a) == n,
        },
{
}

/// What is done is recorded, and nothing else is: each action that is carried out stands
/// behind those before it. Where the windows are arranged, it is the first of the plan.
pub proof fn what_is_done_is_recorded(
    v: ApplicationView,
    r: RecipeView,
    resolved: Seq<(Seq<char>, u64)>,
    sight: Sight,
)
    ensures
        ({
            let after = v.after(r, resolved, sight);
            match v.step(r, resolved, sight) {
                ApplyStepView::Execute(a) => {
                    &&& after.executed == v.executed.push(a)
                    &&& v.phase == Phase::Arrange ==> sight.plan.len() > 0 && a == sight.plan[0]
                        && !(a is Focus) && after.phase == v.phase
                    &&& v.phase == Phase::Show ==> v.shown < v.displays.len() && a
                        == v.displays[v.shown as int] && after.shown == v.shown + 1
                    &&& v.phase == Phase::Focus ==> a is Focus && after.phase == Phase::Done
                },
                ApplyStepView::Again => after.executed == v.executed && after.phase != v.phase,
                ApplyStepView::Finish => v.phase == Phase::Done && after == v,
                ApplyStepView::Fail(_) => v.phase == Phase::Arrange && after == v,
            }
        }),
        v.phase == Phase::Verify ==> v.after(r, resolved, sight).phase == Phase::Show,
        v.phase == Phase::Show && v.shown == v.displays.len() ==> v.after(r, resolved, sight).phase
            == Phase::Focus,
        v.phase != Phase::Verify ==> v.after(r, resolved, sight).remaining == v.remaining,
        v.warnings.is_prefix_of(v.after(r, resolved, sight).warnings),
{
}

/// The windows are arranged until nothing but the focus is left of the plan, or until
/// there were too many actions.
pub proof fn windows_are_arranged_to_the_end(
    v: ApplicationView,
    r: RecipeView,
    resolved: Seq<(Seq<char>, u64)>,
    sight: Sight,
)
    requires
        v.phase == Phase::Arrange,
        v.wf(),
        v.shown == 0,
    ensures
        sight.plan.len() == 0 || sight.plan[0] is Focus ==> v.after(r, resolved, sight).phase
            == Phase::Verify,
        sight.plan.len() > 0 && !(sight.plan[0] is Focus) && v.progress.steps < 64
            && v.progress.previous is None ==> v.step(r, resolved, sight) == ApplyStepView::Execute(
            sight.plan[0],
        ),
{
}

} // verus!
