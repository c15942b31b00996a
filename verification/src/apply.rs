//! Applying a recipe from the first action to the last: what is done next, however
//! the compositor answers.
use crate::execute;
use crate::execute::{
    final_focus, remaining_actions, ApplyError, ApplyErrorView, ApplyReport, FocusStep, FocusView,
    NextStep, NextView, Progress, ProgressView,
};
use crate::lists;
use crate::model::{ObservedState, Recipe, RecipeView, StateView};
use crate::names::NameMap;
use crate::planner;
use crate::planner::{declared_display_actions, Action, ActionView, ReconcilePlan, Scene};
use crate::text;
use vstd::prelude::*;

verus! {

/// How far the application of a recipe has come.
#[derive(Debug, Clone, Copy, PartialEq, Eq, Structural)]
pub enum Phase {
    /// The windows are brought to their places and extents.
    Arrange,
    /// What could not be brought about is noted.
    Verify,
    /// The declared displays are set.
    Show,
    /// The focus is set.
    Focus,
    Done,
}

/// The application of a recipe.
#[derive(Debug)]
pub struct Application {
    pub phase: Phase,
    pub progress: Progress,
    pub displays: Vec<Action>,
    pub report: ApplyReport,
}

#[verifier::ext_equal]
pub struct ApplicationView {
    pub phase: Phase,
    pub progress: ProgressView,
    pub displays: Seq<ActionView>,
    pub executed: Seq<ActionView>,
    pub warnings: Seq<Seq<char>>,
    pub remaining: Seq<ActionView>,
    /// How many displays have been set.
    pub shown: nat,
}

impl View for Application {
    type V = ApplicationView;

    open spec fn view(&self) -> ApplicationView {
        ApplicationView {
            phase: self.phase,
            progress: self.progress@,
            displays: planner::action_views(self.displays@),
            executed: planner::action_views(self.report.executed@),
            warnings: text::texts(self.report.warnings@),
            remaining: planner::action_views(self.report.remaining@),
            shown: self.report.display_reassertions as nat,
        }
    }
}

/// What is done next.
#[derive(Debug, PartialEq)]
pub enum ApplyStep {
    /// The action is to be carried out.
    Execute(Action),
    /// The state is to be looked at again.
    Again,
    /// Everything has been done.
    Finish,
    Fail(ApplyError),
}

#[verifier::ext_equal]
pub enum ApplyStepView {
    Execute(ActionView),
    Again,
    Finish,
    Fail(ApplyErrorView),
}

impl View for ApplyStep {
    type V = ApplyStepView;

    open spec fn view(&self) -> ApplyStepView {
        match *self {
            ApplyStep::Execute(a) => ApplyStepView::Execute(a@),
            ApplyStep::Again => ApplyStepView::Again,
            ApplyStep::Finish => ApplyStepView::Finish,
            ApplyStep::Fail(e) => ApplyStepView::Fail(e@),
        }
    }
}

/// What is seen when the next step is decided on: the state, the plan for it, and
/// the text of the share that its first action asks for.
pub struct Sight {
    pub observed: StateView,
    pub plan: Seq<ActionView>,
    pub ratio: Seq<char>,
}

impl Sight {
    pub open spec fn first(self) -> Option<ActionView> {
        if self.plan.len() > 0 {
            Some(self.plan[0])
        } else {
            None
        }
    }

    pub open spec fn fingerprint(self) -> Seq<char> {
        match self.first() {
            Some(a) => execute::fingerprint_of(a, self.ratio),
            None => Seq::empty(),
        }
    }
}

impl ApplicationView {
    pub open spec fn wf(self) -> bool {
        self.progress.wf() && self.shown <= self.displays.len()
    }

    /// The application of a recipe with these displays, before anything is done.
    pub open spec fn start(displays: Seq<ActionView>) -> ApplicationView {
        ApplicationView {
            phase: Phase::Arrange,
            progress: ProgressView { steps: 0, repeats: 0, previous: None },
            displays,
            executed: Seq::empty(),
            warnings: Seq::empty(),
            remaining: Seq::empty(),
            shown: 0,
        }
    }

    /// What is done next.
    pub open spec fn step(
        self,
        r: RecipeView,
        resolved: Seq<(Seq<char>, u64)>,
        sight: Sight,
    ) -> ApplyStepView {
        match self.phase {
            Phase::Arrange => match self.progress.next(sight.first(), sight.fingerprint()) {
                NextView::Execute => ApplyStepView::Execute(sight.plan[0]),
                NextView::Fail(e) => ApplyStepView::Fail(e),
                _ => ApplyStepView::Again,
            },
            Phase::Verify => ApplyStepView::Again,
            Phase::Show => if self.shown < self.displays.len() {
                ApplyStepView::Execute(self.displays[self.shown as int])
            } else {
                ApplyStepView::Again
            },
            Phase::Focus => match execute::focus_step(r, resolved, sight.observed) {
                FocusView::Execute(a) => ApplyStepView::Execute(a),
                _ => ApplyStepView::Again,
            },
            Phase::Done => ApplyStepView::Finish,
        }
    }

    /// How far it has come then.
    pub open spec fn after(
        self,
        r: RecipeView,
        resolved: Seq<(Seq<char>, u64)>,
        sight: Sight,
    ) -> ApplicationView {
        match self.phase {
            Phase::Arrange => {
                let progress = self.progress.after(sight.first(), sight.fingerprint());
                match self.progress.next(sight.first(), sight.fingerprint()) {
                    NextView::Execute => ApplicationView {
                        progress,
                        executed: self.executed.push(sight.plan[0]),
                        ..self
                    },
                    NextView::Fail(_) => self,
                    NextView::Unverified(warning) => ApplicationView {
                        phase: Phase::Verify,
                        warnings: self.warnings.push(warning),
                        ..self
                    },
                    NextView::Stop => ApplicationView { phase: Phase::Verify, ..self },
                }
            },
            Phase::Verify => ApplicationView {
                phase: Phase::Show,
                remaining: lists::gather(sight.plan.len(), execute::left_at(sight.plan)),
                ..self
            },
            Phase::Show => if self.shown < self.displays.len() {
                ApplicationView {
                    executed: self.executed.push(self.displays[self.shown as int]),
                    shown: self.shown + 1,
                    ..self
                }
            } else {
                ApplicationView { phase: Phase::Focus, ..self }
            },
            Phase::Focus => match execute::focus_step(r, resolved, sight.observed) {
                FocusView::Keep => ApplicationView { phase: Phase::Done, ..self },
                FocusView::Execute(a) => ApplicationView {
                    phase: Phase::Done,
                    executed: self.executed.push(a),
                    ..self
                },
                FocusView::Warn(warning) => ApplicationView {
                    phase: Phase::Done,
                    warnings: self.warnings.push(warning),
                    ..self
                },
            },
            Phase::Done => self,
        }
    }
}

impl Application {
    /// Begins to apply a recipe whose logical windows are bound to `resolved`.
    pub fn new(recipe: &Recipe, resolved: &NameMap<u64>) -> (out: Application)
        ensures
            forall|s: Scene|
                s.recipe == recipe@ && s.resolved == resolved@ ==> out@ == ApplicationView::start(
                    #[trigger] s.displays(),
                ),
            out@.wf(),
    {
        let out = Application {
            phase: Phase::Arrange,
            progress: Progress::new(),
            displays: declared_display_actions(recipe, resolved),
            report: ApplyReport::default(),
        };
        assert(out@ =~= ApplicationView::start(planner::action_views(out.displays@)));
        out
    }

    /// Decides on the next step. `plan` is the plan for `state`, and `ratio` the text
    /// of the share that its first action asks for, if it asks for one. Whatever is to
    /// be executed counts as executed.
    pub fn step(
        &mut self,
        recipe: &Recipe,
        resolved: &NameMap<u64>,
        state: &ObservedState,
        plan: &ReconcilePlan,
        ratio: &str,
    ) -> (out: ApplyStep)
        requires
            old(self)@.wf(),
        ensures
            ({
                let sight = Sight { observed: state@, plan: plan@, ratio: ratio@ };
                &&& out@ == old(self)@.step(recipe@, resolved@, sight)
                &&& final(self)@ == old(self)@.after(recipe@, resolved@, sight)
            }),
            final(self)@.wf(),
    {
        let ghost sight = Sight { observed: state@, plan: plan@, ratio: ratio@ };
        let ghost before = self@;
        match self.phase {
            Phase::Arrange => {
                let first: Option<&Action> = if plan.actions.len() > 0 {
                    Some(&plan.actions[0])
                } else {
                    None
                };
                assert(first is Some ==> first->0@ == plan@[0]);
                match self.progress.next(first, ratio) {
                    NextStep::Stop => {
                        self.phase = Phase::Verify;
                        assert(self@ =~= before.after(recipe@, resolved@, sight));
                        ApplyStep::Again
                    },
                    NextStep::Unverified(warning) => {
                        self.report.warnings.push(warning);
                        self.phase = Phase::Verify;
                        assert(self@.warnings =~= before.warnings.push(warning@));
                        assert(self@ =~= before.after(recipe@, resolved@, sight));
                        ApplyStep::Again
                    },
                    NextStep::Fail(e) => {
                        assert(self@ =~= before.after(recipe@, resolved@, sight));
                        ApplyStep::Fail(e)
                    },
                    NextStep::Execute => {
                        let action: Action = plan.actions[0].clone();
                        self.report.executed.push(action.clone());
                        assert(self@.executed =~= before.executed.push(plan@[0]));
                        assert(self@ =~= before.after(recipe@, resolved@, sight));
                        ApplyStep::Execute(action)
                    },
                }
            },
            Phase::Verify => {
                self.report.remaining = remaining_actions(plan);
                self.phase = Phase::Show;
                assert(self@ =~= before.after(recipe@, resolved@, sight));
                ApplyStep::Again
            },
            Phase::Show => {
                let shown: usize = self.report.display_reassertions;
                if shown < self.displays.len() {
                    let action: Action = self.displays[shown].clone();
                    assert(action@ == before.displays[shown as int]);
                    self.report.executed.push(action.clone());
                    self.report.display_reassertions = shown + 1;
                    assert(self@.executed =~= before.executed.push(action@));
                    assert(self@ =~= before.after(recipe@, resolved@, sight));
                    ApplyStep::Execute(action)
                } else {
                    self.phase = Phase::Focus;
                    assert(self@ =~= before.after(recipe@, resolved@, sight));
                    ApplyStep::Again
                }
            },
            Phase::Focus => {
                self.phase = Phase::Done;
                match final_focus(recipe, resolved, state) {
                    FocusStep::Keep => {
                        assert(self@ =~= before.after(recipe@, resolved@, sight));
                        ApplyStep::Again
                    },
                    FocusStep::Execute(action) => {
                        self.report.executed.push(action.clone());
                        assert(self@.executed =~= before.executed.push(action@));
                        assert(self@ =~= before.after(recipe@, resolved@, sight));
                        ApplyStep::Execute(action)
                    },
                    FocusStep::Warn(warning) => {
                        self.report.warnings.push(warning);
                        assert(self@.warnings =~= before.warnings.push(warning@));
                        assert(self@ =~= before.after(recipe@, resolved@, sight));
                        ApplyStep::Again
                    },
                }
            },
            Phase::Done => ApplyStep::Finish,
        }
    }
}

// Laws

/// How far it has come after `sights` were seen one after the other.
pub open spec fn after_sights(
    v: ApplicationView,
    r: RecipeView,
    resolved: Seq<(Seq<char>, u64)>,
    sights: Seq<Sight>,
) -> ApplicationView
    decreases sights.len(),
{
    if sights.len() == 0 {
        v
    } else {
        after_sights(v, r, resolved, sights.drop_last()).after(r, resolved, sights.last())
    }
}

/// The actions bring windows to their places and extents.
pub open spec fn only_arranges(actions: Seq<ActionView>) -> bool {
    forall|i: int|
        0 <= i < actions.len() ==> !((#[trigger] actions[i]) is SetColumnDisplay)
            && !(actions[i] is Focus)
}

/// The actions are the one that sets the focus of the recipe, or none.
pub open spec fn only_focuses(actions: Seq<ActionView>, r: RecipeView) -> bool {
    actions.len() == 0 || (actions.len() == 1 && actions[0] is Focus && Some(
        actions[0]->Focus_name,
    ) == r.focus)
}

/// How many actions came before the displays.
pub open spec fn arranged(v: ApplicationView) -> int {
    v.progress.steps
}

/// The actions stand in the order of the phases.
pub open spec fn is_in_phases(v: ApplicationView, r: RecipeView) -> bool {
    let n = arranged(v);
    let m = n + v.shown;
    &&& v.wf()
    &&& m <= v.executed.len()
    &&& only_arranges(v.executed.take(n))
    &&& v.executed.subrange(n, m) == v.displays.take(v.shown as int)
    &&& only_focuses(v.executed.skip(m), r)
    &&& v.phase == Phase::Arrange || v.phase == Phase::Verify ==> v.shown == 0
    &&& v.phase != Phase::Done ==> m == v.executed.len()
    &&& v.phase == Phase::Focus || v.phase == Phase::Done ==> v.shown == v.displays.len()
}

/// Whatever the compositor answers: first the windows are arranged, by no more
/// actions than allowed; then each declared display is set, once and in order; and
/// the focus is set at most once, and last.
pub proof fn displays_come_once_and_the_focus_last(
    r: RecipeView,
    resolved: Seq<(Seq<char>, u64)>,
    displays: Seq<ActionView>,
    sights: Seq<Sight>,
)
    requires
        forall|i: int, k: int|
            0 <= i < sights.len() && 0 <= k < sights[i].plan.len() ==> !((
            #[trigger] sights[i].plan[k]) is SetColumnDisplay),
    ensures
        ({
            let end = after_sights(ApplicationView::start(displays), r, resolved, sights);
            &&& is_in_phases(end, r)
            &&& end.displays == displays
            &&& end.phase == Phase::Done ==> exists|before: Seq<ActionView>, focus: Seq<ActionView>|
                only_arranges(before) && before.len() <= execute::MOST_STEPS && only_focuses(
                    focus,
                    r,
                ) && end.executed == #[trigger] (before + displays + focus)
        }),
    decreases sights.len(),
{
    let start = ApplicationView::start(displays);
    let end = after_sights(start, r, resolved, sights);
    if sights.len() > 0 {
        let last = sights.last();
        assert forall|i: int, k: int|
            0 <= i < sights.drop_last().len() && 0 <= k < sights.drop_last()[i].plan.len() implies !((
        #[trigger] sights.drop_last()[i].plan[k]) is SetColumnDisplay) by {
            assert(!(sights[i].plan[k] is SetColumnDisplay));
        }
        displays_come_once_and_the_focus_last(r, resolved, displays, sights.drop_last());
        let v = after_sights(start, r, resolved, sights.drop_last());
        if last.plan.len() > 0 {
            assert(!(sights[sights.len() - 1].plan[0] is SetColumnDisplay));
        }
        phases_are_kept(v, r, resolved, last);
    } else {
        assert(end.executed.subrange(0, 0) =~= displays.take(0));
    }
    if end.phase == Phase::Done {
        let n = arranged(end);
        let m = n + end.shown;
        let before = end.executed.take(n);
        let focus = end.executed.skip(m);
        assert(displays.take(end.shown as int) =~= displays);
        assert(end.executed =~= before + end.executed.subrange(n, m) + focus);
        assert(end.executed == before + displays + focus);
    }
}

proof fn phases_are_kept(
    v: ApplicationView,
    r: RecipeView,
    resolved: Seq<(Seq<char>, u64)>,
    sight: Sight,
)
    requires
        is_in_phases(v, r),
        sight.plan.len() > 0 ==> !(sight.plan[0] is SetColumnDisplay),
    ensures
        is_in_phases(v.after(r, resolved, sight), r),
        v.after(r, resolved, sight).displays == v.displays,
{
    let w = v.after(r, resolved, sight);
    let n = arranged(v);
    let m = n + v.shown;
    match v.phase {
        Phase::Arrange => {
            if v.progress.next(sight.first(), sight.fingerprint()) is Execute {
                let a = sight.plan[0];
                assert(w.executed.take(n + 1) =~= v.executed.take(n).push(a));
                assert(w.executed.subrange(n + 1, n + 1) =~= w.displays.take(0));
                assert(w.executed.skip(n + 1) =~= Seq::empty());
            }
        },
        Phase::Show => {
            if v.shown < v.displays.len() {
                let a = v.displays[v.shown as int];
                assert(w.executed.take(n) =~= v.executed.take(n));
                assert(w.executed.subrange(n, m + 1) =~= v.executed.subrange(n, m).push(a));
                assert(w.displays.take((v.shown + 1) as int) =~= v.displays.take(v.shown as int).push(a));
                assert(w.executed.skip(m + 1) =~= Seq::empty());
            }
        },
        Phase::Focus => {
            if let FocusView::Execute(a) = execute::focus_step(r, resolved, sight.observed) {
                assert(w.executed.take(n) =~= v.executed.take(n));
                assert(w.executed.subrange(n, m) =~= v.executed.subrange(n, m));
                assert(w.executed.skip(m) =~= seq![a]);
            }
        },
        _ => {},
    }
}

} // verus!
