//! Carrying plans out: what is sent for each action, when it is done, and when
//! to stop.
use crate::lists;
use crate::model::{ColumnDisplay, ObservedState, Recipe, RecipeView, Size, StateView};
use crate::names;
use crate::names::NameMap;
use crate::outside;
use crate::outside::debug_string;
use crate::planner;
use crate::planner::{Action, ActionView, ReconcilePlan};
use crate::show;
use crate::show::{display_name, push_opt_id, push_opt_place};
use crate::text;
use crate::text::{push_number, push_signed, str_eq};
use vstd::prelude::*;

verus! {

/// Why a recipe could not be applied.
#[derive(Debug, PartialEq, Eq)]
#[allow(inconsistent_fields)]
pub enum ApplyError {
    Niri(String),
    WindowDisappeared { name: String, id: u64 },
    DidNotConverge { steps: usize, last_action: String },
}

#[verifier::ext_equal]
#[allow(inconsistent_fields)]
pub enum ApplyErrorView {
    Niri(Seq<char>),
    WindowDisappeared { name: Seq<char>, id: u64 },
    DidNotConverge { steps: usize, last_action: Seq<char> },
}

impl View for ApplyError {
    type V = ApplyErrorView;

    open spec fn view(&self) -> ApplyErrorView {
        match *self {
            ApplyError::Niri(message) => ApplyErrorView::Niri(message@),
            ApplyError::WindowDisappeared { name, id } => ApplyErrorView::WindowDisappeared {
                name: name@,
                id,
            },
            ApplyError::DidNotConverge { steps, last_action } => ApplyErrorView::DidNotConverge {
                steps,
                last_action: last_action@,
            },
        }
    }
}

/// The message of an error.
pub open spec fn apply_error_text(e: ApplyErrorView) -> Seq<char> {
    match e {
        ApplyErrorView::Niri(message) => message,
        ApplyErrorView::WindowDisappeared { name, id } => "window "@ + outside::debug_text(name)
            + " (id "@ + text::decimal(id as nat) + ") disappeared while applying the recipe"@,
        ApplyErrorView::DidNotConverge { steps, last_action } =>
        "reconciliation did not converge after "@ + text::decimal(steps as nat)
            + " mutations; last action: "@ + last_action,
    }
}

impl ApplyError {
    /// The message for people.
    pub fn text(&self) -> (out: String)
        ensures
            out@ == apply_error_text(self@),
    {
        match self {
            ApplyError::Niri(message) => message.clone(),
            ApplyError::WindowDisappeared { name, id } => {
                let mut out: String = "window ".to_owned();
                out.append(debug_string(name.as_str()).as_str());
                out.append(" (id ");
                push_number(&mut out, *id);
                out.append(") disappeared while applying the recipe");
                out
            },
            ApplyError::DidNotConverge { steps, last_action } => {
                let mut out: String = "reconciliation did not converge after ".to_owned();
                push_number(&mut out, *steps as u64);
                out.append(" mutations; last action: ");
                out.append(last_action.as_str());
                out
            },
        }
    }
}

/// What was done to apply a recipe, and what is left.
#[derive(Debug)]
pub struct ApplyReport {
    pub executed: Vec<Action>,
    pub warnings: Vec<String>,
    pub remaining: Vec<Action>,
    pub display_reassertions: usize,
}

impl Default for ApplyReport {
    fn default() -> (out: Self)
        ensures
            out.executed@.len() == 0,
            out.warnings@.len() == 0,
            out.remaining@.len() == 0,
            out.display_reassertions == 0,
    {
        ApplyReport {
            executed: Vec::new(),
            warnings: Vec::new(),
            remaining: Vec::new(),
            display_reassertions: 0,
        }
    }
}

// Telling actions apart

/// A size, as `Debug` writes it. `ratio` is the text of a share.
pub open spec fn size_debug(size: Size, ratio: Seq<char>) -> Seq<char> {
    match size {
        Size::Percent(_) => "Percent("@ + ratio + ")"@,
        Size::Pixels(px) => "Pixels("@ + text::signed_decimal(px as int) + ")"@,
    }
}

fn push_size(out: &mut String, size: Size, ratio: &str)
    ensures
        final(out)@ == old(out)@ + size_debug(size, ratio@),
{
    match size {
        Size::Percent(_) => {
            out.append("Percent(");
            out.append(ratio);
            out.append(")");
        },
        Size::Pixels(px) => {
            out.append("Pixels(");
            push_signed(out, px as i64);
            out.append(")");
        },
    }
    assert(out@ =~= old(out)@ + size_debug(size, ratio@));
}

/// The name and the window of an action, as `Debug` writes them.
pub open spec fn subject_debug(name: Seq<char>, window_id: u64) -> Seq<char> {
    " { name: "@ + outside::debug_text(name) + ", window_id: "@ + text::decimal(window_id as nat)
}

fn push_subject(out: &mut String, name: &String, window_id: u64)
    ensures
        final(out)@ == old(out)@ + subject_debug(name@, window_id),
{
    out.append(" { name: ");
    out.append(debug_string(name.as_str()).as_str());
    out.append(", window_id: ");
    push_number(out, window_id);
    assert(out@ =~= old(out)@ + subject_debug(name@, window_id));
}

/// An action, as `Debug` writes it. `ratio` is the text of the share that it asks
/// for, if it asks for one.
pub open spec fn fingerprint_of(a: ActionView, ratio: Seq<char>) -> Seq<char> {
    match a {
        ActionView::MoveToWorkspace { name, window_id, from, to } => "MoveToWorkspace"@
            + subject_debug(name, window_id) + ", from: "@ + show::opt_number(show::id_int(from))
            + ", to: "@ + text::decimal(to as nat) + " }"@,
        ActionView::SetFloating { name, window_id, floating } => "SetFloating"@ + subject_debug(
            name,
            window_id,
        ) + ", floating: "@ + (if floating {
            "true"@
        } else {
            "false"@
        }) + " }"@,
        ActionView::ExpelRight { name, window_id } => "ExpelRight"@ + subject_debug(name, window_id)
            + " }"@,
        ActionView::MoveColumnToIndex { name, window_id, from, to } => "MoveColumnToIndex"@
            + subject_debug(name, window_id) + ", from: "@ + show::opt_number(
            show::place_int(from),
        ) + ", to: "@ + text::decimal(to as nat) + " }"@,
        ActionView::ConsumeLeft { name, window_id, target_column } => "ConsumeLeft"@
            + subject_debug(name, window_id) + ", target_column: "@ + text::decimal(
            target_column as nat,
        ) + " }"@,
        ActionView::MoveWindowUp { name, window_id, from, to } => "MoveWindowUp"@ + subject_debug(
            name,
            window_id,
        ) + ", from: "@ + text::decimal(from as nat) + ", to: "@ + text::decimal(to as nat) + " }"@,
        ActionView::MoveWindowDown { name, window_id, from, to } => "MoveWindowDown"@
            + subject_debug(name, window_id) + ", from: "@ + text::decimal(from as nat) + ", to: "@
            + text::decimal(to as nat) + " }"@,
        ActionView::SetColumnWidth { name, window_id, column, size } => "SetColumnWidth"@
            + subject_debug(name, window_id) + ", column: "@ + text::decimal(column as nat)
            + ", size: "@ + size_debug(size, ratio) + " }"@,
        ActionView::SetWindowHeight { name, window_id, size } => "SetWindowHeight"@
            + subject_debug(name, window_id) + ", size: "@ + size_debug(size, ratio) + " }"@,
        ActionView::SetColumnDisplay { name, window_id, column, display } => "SetColumnDisplay"@
            + subject_debug(name, window_id) + ", column: "@ + text::decimal(column as nat)
            + ", display: "@ + show::display_debug(display) + " }"@,
        ActionView::Focus { name, window_id } => "Focus"@ + subject_debug(name, window_id) + " }"@,
    }
}

/// Writes an action so that it can be told from others. `ratio` is the text of the
/// share that it asks for; where it asks for none it is not looked at.
pub fn fingerprint(action: &Action, ratio: &str) -> (out: String)
    ensures
        out@ == fingerprint_of(action@, ratio@),
{
    let mut out: String = String::new();
    match action {
        Action::MoveToWorkspace { name, window_id, from, to } => {
            out.append("MoveToWorkspace");
            push_subject(&mut out, name, *window_id);
            out.append(", from: ");
            push_opt_id(&mut out, *from);
            out.append(", to: ");
            push_number(&mut out, *to);
        },
        Action::SetFloating { name, window_id, floating } => {
            out.append("SetFloating");
            push_subject(&mut out, name, *window_id);
            out.append(", floating: ");
            out.append(
                if *floating {
                    "true"
                } else {
                    "false"
                },
            );
        },
        Action::ExpelRight { name, window_id } => {
            out.append("ExpelRight");
            push_subject(&mut out, name, *window_id);
        },
        Action::MoveColumnToIndex { name, window_id, from, to } => {
            out.append("MoveColumnToIndex");
            push_subject(&mut out, name, *window_id);
            out.append(", from: ");
            push_opt_place(&mut out, *from);
            out.append(", to: ");
            push_number(&mut out, *to as u64);
        },
        Action::ConsumeLeft { name, window_id, target_column } => {
            out.append("ConsumeLeft");
            push_subject(&mut out, name, *window_id);
            out.append(", target_column: ");
            push_number(&mut out, *target_column as u64);
        },
        Action::MoveWindowUp { name, window_id, from, to } => {
            out.append("MoveWindowUp");
            push_subject(&mut out, name, *window_id);
            out.append(", from: ");
            push_number(&mut out, *from as u64);
            out.append(", to: ");
            push_number(&mut out, *to as u64);
        },
        Action::MoveWindowDown { name, window_id, from, to } => {
            out.append("MoveWindowDown");
            push_subject(&mut out, name, *window_id);
            out.append(", from: ");
            push_number(&mut out, *from as u64);
            out.append(", to: ");
            push_number(&mut out, *to as u64);
        },
        Action::SetColumnWidth { name, window_id, column, size } => {
            out.append("SetColumnWidth");
            push_subject(&mut out, name, *window_id);
            out.append(", column: ");
            push_number(&mut out, *column as u64);
            out.append(", size: ");
            push_size(&mut out, *size, ratio);
        },
        Action::SetWindowHeight { name, window_id, size } => {
            out.append("SetWindowHeight");
            push_subject(&mut out, name, *window_id);
            out.append(", size: ");
            push_size(&mut out, *size, ratio);
        },
        Action::SetColumnDisplay { name, window_id, column, display } => {
            out.append("SetColumnDisplay");
            push_subject(&mut out, name, *window_id);
            out.append(", column: ");
            push_number(&mut out, *column as u64);
            out.append(", display: ");
            out.append(display_name(*display));
        },
        Action::Focus { name, window_id } => {
            out.append("Focus");
            push_subject(&mut out, name, *window_id);
        },
    }
    out.append(" }");
    assert(out@ =~= fingerprint_of(action@, ratio@));
    out
}

/// The action asks for a share: whether it took effect cannot be told for sure.
pub open spec fn asks_for_share(a: ActionView) -> bool {
    match a {
        ActionView::SetColumnWidth { size, .. } => size is Percent,
        ActionView::SetWindowHeight { size, .. } => size is Percent,
        _ => false,
    }
}

/// Whether the action asks for a share, so that it cannot be told for sure whether
/// it took effect.
pub fn is_unverifiable_percentage_size(action: &Action) -> (out: bool)
    ensures
        out == asks_for_share(action@),
{
    match action {
        Action::SetColumnWidth { size: Size::Percent(_), .. } => true,
        Action::SetWindowHeight { size: Size::Percent(_), .. } => true,
        _ => false,
    }
}

// The loop

/// How many actions are carried out at most.
pub const MOST_STEPS: usize = 64;

/// How far a plan has been carried out.
#[derive(Debug)]
pub struct Progress {
    pub steps: usize,
    pub repeats: usize,
    pub previous: Option<String>,
}

#[verifier::ext_equal]
pub struct ProgressView {
    pub steps: int,
    pub repeats: int,
    pub previous: Option<Seq<char>>,
}

impl View for Progress {
    type V = ProgressView;

    open spec fn view(&self) -> ProgressView {
        ProgressView {
            steps: self.steps as int,
            repeats: self.repeats as int,
            previous: text::opt_text(self.previous),
        }
    }
}

/// What is done next.
#[derive(Debug, PartialEq, Eq)]
pub enum NextStep {
    /// There is nothing left that may be done here.
    Stop,
    /// The action is to be carried out.
    Execute,
    /// The action was carried out and does not show: stop, with a warning.
    Unverified(String),
    /// The same action came up too often.
    Fail(ApplyError),
}

#[verifier::ext_equal]
pub enum NextView {
    Stop,
    Execute,
    Unverified(Seq<char>),
    Fail(ApplyErrorView),
}

impl View for NextStep {
    type V = NextView;

    open spec fn view(&self) -> NextView {
        match *self {
            NextStep::Stop => NextView::Stop,
            NextStep::Execute => NextView::Execute,
            NextStep::Unverified(warning) => NextView::Unverified(warning@),
            NextStep::Fail(e) => NextView::Fail(e@),
        }
    }
}

/// The warning about a share that does not show.
pub open spec fn share_warning(fingerprint: Seq<char>) -> Seq<char> {
    "could not verify percentage size after applying "@ + fingerprint
        + "; Niri IPC does not expose the effective working-area dimensions, so the requested size was applied once"@
}

impl ProgressView {
    /// How often in a row the action has come up before.
    pub open spec fn repeated(self, fingerprint: Seq<char>) -> int {
        if self.previous == Some(fingerprint) {
            self.repeats + 1
        } else {
            0
        }
    }

    /// What is done next where `first` is the first action of the plan.
    pub open spec fn next(self, first: Option<ActionView>, fingerprint: Seq<char>) -> NextView {
        if self.steps >= MOST_STEPS || first is None || first->0 is Focus {
            NextView::Stop
        } else if self.repeated(fingerprint) >= 1 && asks_for_share(first->0) {
            NextView::Unverified(share_warning(fingerprint))
        } else if self.repeated(fingerprint) >= 2 {
            NextView::Fail(
                ApplyErrorView::DidNotConverge {
                    steps: (self.steps + 1) as usize,
                    last_action: fingerprint,
                },
            )
        } else {
            NextView::Execute
        }
    }

    /// How far the plan has been carried out then.
    pub open spec fn after(
        self,
        first: Option<ActionView>,
        fingerprint: Seq<char>,
    ) -> ProgressView {
        if self.next(first, fingerprint) is Execute {
            ProgressView {
                steps: self.steps + 1,
                repeats: self.repeated(fingerprint),
                previous: Some(fingerprint),
            }
        } else {
            self
        }
    }

    /// The bounds that are kept: no more actions than allowed, and none more than
    /// twice in a row.
    pub open spec fn wf(self) -> bool {
        0 <= self.steps <= MOST_STEPS && 0 <= self.repeats <= 1
    }
}

impl Progress {
    /// Nothing has been carried out yet.
    pub fn new() -> (out: Progress)
        ensures
            out@ == (ProgressView { steps: 0, repeats: 0, previous: None }),
            out@.wf(),
    {
        Progress { steps: 0, repeats: 0, previous: None }
    }

    /// Decides on the first action of a new plan. `ratio` is the text of the share
    /// that it asks for, if it asks for one.
    pub fn next(&mut self, first: Option<&Action>, ratio: &str) -> (out: NextStep)
        requires
            old(self)@.wf(),
        ensures
            ({
                let a = match first {
                    Some(x) => Some(x@),
                    None => None,
                };
                let f = match first {
                    Some(x) => fingerprint_of(x@, ratio@),
                    None => Seq::empty(),
                };
                &&& out@ == old(self)@.next(a, f)
                &&& final(self)@ == old(self)@.after(a, f)
            }),
            final(self)@.wf(),
    {
        if self.steps >= MOST_STEPS {
            return NextStep::Stop;
        }
        let action: &Action = match first {
            Some(a) => a,
            None => {
                return NextStep::Stop;
            },
        };
        if let Action::Focus { .. } = action {
            return NextStep::Stop;
        }
        let print: String = fingerprint(action, ratio);
        let again: bool = match &self.previous {
            Some(p) => str_eq(p.as_str(), print.as_str()),
            None => false,
        };
        let repeats: usize = if again {
            self.repeats + 1
        } else {
            0
        };
        if repeats >= 1 && is_unverifiable_percentage_size(action) {
            let mut warning: String = "could not verify percentage size after applying ".to_owned();
            warning.append(print.as_str());
            warning.append(
                "; Niri IPC does not expose the effective working-area dimensions, so the requested size was applied once",
            );
            return NextStep::Unverified(warning);
        }
        if repeats >= 2 {
            return NextStep::Fail(
                ApplyError::DidNotConverge { steps: self.steps + 1, last_action: print },
            );
        }
        self.steps = self.steps + 1;
        self.repeats = repeats;
        self.previous = Some(print);
        NextStep::Execute
    }
}

/// What of a plan is still left: everything but the focus, which comes last.
pub open spec fn is_left(a: ActionView) -> bool {
    !(a is Focus)
}

pub open spec fn left_at(plan: Seq<ActionView>) -> spec_fn(int) -> Option<ActionView> {
    |i: int|
        if is_left(plan[i]) {
            Some(plan[i])
        } else {
            None
        }
}

/// The actions of a plan but for the focus.
pub fn remaining_actions(plan: &ReconcilePlan) -> (out: Vec<Action>)
    ensures
        planner::action_views(out@) == lists::gather(plan@.len(), left_at(plan@)),
{
    let ghost f = left_at(plan@);
    let mut out: Vec<Action> = Vec::new();
    assert(planner::action_views(out@) =~= lists::gather(0, f));
    for i in 0..plan.actions.len()
        invariant
            f == left_at(plan@),
            planner::action_views(out@) == lists::gather(i as nat, f),
    {
        let ghost given = f(i as int);
        let ghost before = out@;
        assert(plan@[i as int] == plan.actions@[i as int]@);
        let left: bool = match &plan.actions[i] {
            Action::Focus { .. } => false,
            _ => true,
        };
        if left {
            out.push(plan.actions[i].clone());
            assert(planner::action_views(out@) =~= planner::action_views(before).push(given->0));
        }
    }
    out
}

// The focus

/// What is done about the focus at the end.
#[derive(Debug, PartialEq)]
pub enum FocusStep {
    Keep,
    Execute(Action),
    Warn(String),
}

#[verifier::ext_equal]
pub enum FocusView {
    Keep,
    Execute(ActionView),
    Warn(Seq<char>),
}

impl View for FocusStep {
    type V = FocusView;

    open spec fn view(&self) -> FocusView {
        match *self {
            FocusStep::Keep => FocusView::Keep,
            FocusStep::Execute(a) => FocusView::Execute(a@),
            FocusStep::Warn(warning) => FocusView::Warn(warning@),
        }
    }
}

/// What is done about the focus at the end: the window that the recipe names gets
/// it, unless it has it.
pub open spec fn focus_step(
    r: RecipeView,
    resolved: Seq<(Seq<char>, u64)>,
    s: StateView,
) -> FocusView {
    match r.focus {
        Some(name) => match names::lookup(resolved, name) {
            Some(id) => if s.focused_window_id() == Some(id) {
                FocusView::Keep
            } else {
                FocusView::Execute(ActionView::Focus { name, window_id: id })
            },
            None => FocusView::Warn(
                "final focus target "@ + outside::debug_text(name) + " was not resolved"@,
            ),
        },
        None => FocusView::Keep,
    }
}

/// Says what is done about the focus once everything else is.
pub fn final_focus(recipe: &Recipe, resolved: &NameMap<u64>, state: &ObservedState) -> (out:
    FocusStep)
    ensures
        out@ == focus_step(recipe@, resolved@, state@),
{
    match &recipe.focus {
        Some(name) => match resolved.get(name.as_str()) {
            Some(id) => if has_focus(state, *id) {
                FocusStep::Keep
            } else {
                FocusStep::Execute(Action::Focus { name: name.clone(), window_id: *id })
            },
            None => {
                let mut warning: String = "final focus target ".to_owned();
                warning.append(debug_string(name.as_str()).as_str());
                warning.append(" was not resolved");
                FocusStep::Warn(warning)
            },
        },
        None => FocusStep::Keep,
    }
}

/// Whether the window has the focus.
pub fn has_focus(state: &ObservedState, id: u64) -> (out: bool)
    ensures
        out == (state@.focused_window_id() == Some(id)),
{
    match state.focused_window_id() {
        Some(x) => x == id,
        None => false,
    }
}

// One action

/// What is sent to the compositor.
#[derive(Debug, Clone, Copy, PartialEq, Eq, Structural)]
#[allow(inconsistent_fields)]
pub enum Command {
    MoveWindowToWorkspace { window_id: u64, workspace_id: u64 },
    MoveWindowToFloating { id: u64 },
    MoveWindowToTiling { id: u64 },
    ConsumeOrExpelWindowRight { id: u64 },
    ConsumeOrExpelWindowLeft { id: u64 },
    MoveColumnToIndex { index: usize },
    MoveWindowUp,
    MoveWindowDown,
    SetColumnWidth { size: Size },
    SetWindowHeight { id: u64, size: Size },
    SetColumnDisplay { display: ColumnDisplay },
}

/// What shows that it took effect.
#[derive(Debug, Clone, Copy, PartialEq, Eq, Structural)]
#[allow(inconsistent_fields)]
pub enum Goal {
    OnWorkspace { id: u64 },
    Floating { floating: bool },
    Moved,
    AtColumn { column: usize },
    TileBefore { tile: usize },
    TileBehind { tile: usize },
    Resized { size: Size, width: bool },
    LayoutEvent,
    Focused,
}

/// How an action is carried out: the window that it is about must be there, gets
/// the focus first where the command goes to what has it, then the command is
/// sent, and then the goal is waited for.
#[derive(Debug, Clone, Copy, PartialEq, Eq, Structural)]
pub struct Script {
    pub window_id: u64,
    pub focus_first: bool,
    pub command: Option<Command>,
    pub goal: Goal,
}

/// How an action is carried out.
pub open spec fn script_of(a: ActionView) -> Script {
    match a {
        ActionView::MoveToWorkspace { window_id, to, .. } => Script {
            window_id,
            focus_first: false,
            command: Some(Command::MoveWindowToWorkspace { window_id, workspace_id: to }),
            goal: Goal::OnWorkspace { id: to },
        },
        ActionView::SetFloating { window_id, floating, .. } => Script {
            window_id,
            focus_first: false,
            command: Some(
                if floating {
                    Command::MoveWindowToFloating { id: window_id }
                } else {
                    Command::MoveWindowToTiling { id: window_id }
                },
            ),
            goal: Goal::Floating { floating },
        },
        ActionView::ExpelRight { window_id, .. } => Script {
            window_id,
            focus_first: false,
            command: Some(Command::ConsumeOrExpelWindowRight { id: window_id }),
            goal: Goal::Moved,
        },
        ActionView::ConsumeLeft { window_id, target_column, .. } => Script {
            window_id,
            focus_first: false,
            command: Some(Command::ConsumeOrExpelWindowLeft { id: window_id }),
            goal: Goal::AtColumn { column: target_column },
        },
        ActionView::MoveColumnToIndex { window_id, to, .. } => Script {
            window_id,
            focus_first: true,
            command: Some(Command::MoveColumnToIndex { index: to }),
            goal: Goal::AtColumn { column: to },
        },
        ActionView::MoveWindowUp { window_id, from, .. } => Script {
            window_id,
            focus_first: true,
            command: Some(Command::MoveWindowUp),
            goal: Goal::TileBefore { tile: from },
        },
        ActionView::MoveWindowDown { window_id, from, .. } => Script {
            window_id,
            focus_first: true,
            command: Some(Command::MoveWindowDown),
            goal: Goal::TileBehind { tile: from },
        },
        ActionView::SetColumnWidth { window_id, size, .. } => Script {
            window_id,
            focus_first: true,
            command: Some(Command::SetColumnWidth { size }),
            goal: Goal::Resized { size, width: true },
        },
        ActionView::SetWindowHeight { window_id, size, .. } => Script {
            window_id,
            focus_first: false,
            command: Some(Command::SetWindowHeight { id: window_id, size }),
            goal: Goal::Resized { size, width: false },
        },
        ActionView::SetColumnDisplay { window_id, display, .. } => Script {
            window_id,
            focus_first: true,
            command: Some(Command::SetColumnDisplay { display }),
            goal: Goal::LayoutEvent,
        },
        ActionView::Focus { window_id, .. } => Script {
            window_id,
            focus_first: true,
            command: None,
            goal: Goal::Focused,
        },
    }
}

/// Says how an action is carried out.
pub fn plan_action(action: &Action) -> (out: Script)
    ensures
        out == script_of(action@),
{
    match action {
        Action::MoveToWorkspace { window_id, to, .. } => Script {
            window_id: *window_id,
            focus_first: false,
            command: Some(
                Command::MoveWindowToWorkspace { window_id: *window_id, workspace_id: *to },
            ),
            goal: Goal::OnWorkspace { id: *to },
        },
        Action::SetFloating { window_id, floating, .. } => Script {
            window_id: *window_id,
            focus_first: false,
            command: Some(
                if *floating {
                    Command::MoveWindowToFloating { id: *window_id }
                } else {
                    Command::MoveWindowToTiling { id: *window_id }
                },
            ),
            goal: Goal::Floating { floating: *floating },
        },
        Action::ExpelRight { window_id, .. } => Script {
            window_id: *window_id,
            focus_first: false,
            command: Some(Command::ConsumeOrExpelWindowRight { id: *window_id }),
            goal: Goal::Moved,
        },
        Action::ConsumeLeft { window_id, target_column, .. } => Script {
            window_id: *window_id,
            focus_first: false,
            command: Some(Command::ConsumeOrExpelWindowLeft { id: *window_id }),
            goal: Goal::AtColumn { column: *target_column },
        },
        Action::MoveColumnToIndex { window_id, to, .. } => Script {
            window_id: *window_id,
            focus_first: true,
            command: Some(Command::MoveColumnToIndex { index: *to }),
            goal: Goal::AtColumn { column: *to },
        },
        Action::MoveWindowUp { window_id, from, .. } => Script {
            window_id: *window_id,
            focus_first: true,
            command: Some(Command::MoveWindowUp),
            goal: Goal::TileBefore { tile: *from },
        },
        Action::MoveWindowDown { window_id, from, .. } => Script {
            window_id: *window_id,
            focus_first: true,
            command: Some(Command::MoveWindowDown),
            goal: Goal::TileBehind { tile: *from },
        },
        Action::SetColumnWidth { window_id, size, .. } => Script {
            window_id: *window_id,
            focus_first: true,
            command: Some(Command::SetColumnWidth { size: *size }),
            goal: Goal::Resized { size: *size, width: true },
        },
        Action::SetWindowHeight { window_id, size, .. } => Script {
            window_id: *window_id,
            focus_first: false,
            command: Some(Command::SetWindowHeight { id: *window_id, size: *size }),
            goal: Goal::Resized { size: *size, width: false },
        },
        Action::SetColumnDisplay { window_id, display, .. } => Script {
            window_id: *window_id,
            focus_first: true,
            command: Some(Command::SetColumnDisplay { display: *display }),
            goal: Goal::LayoutEvent,
        },
        Action::Focus { window_id, .. } => Script {
            window_id: *window_id,
            focus_first: true,
            command: None,
            goal: Goal::Focused,
        },
    }
}

/// The name that an action goes by.
pub open spec fn action_name(a: ActionView) -> Seq<char> {
    match a {
        ActionView::MoveToWorkspace { name, .. } => name,
        ActionView::SetFloating { name, .. } => name,
        ActionView::ExpelRight { name, .. } => name,
        ActionView::MoveColumnToIndex { name, .. } => name,
        ActionView::ConsumeLeft { name, .. } => name,
        ActionView::MoveWindowUp { name, .. } => name,
        ActionView::MoveWindowDown { name, .. } => name,
        ActionView::SetColumnWidth { name, .. } => name,
        ActionView::SetWindowHeight { name, .. } => name,
        ActionView::SetColumnDisplay { name, .. } => name,
        ActionView::Focus { name, .. } => name,
    }
}

fn name_in(action: &Action) -> (out: &String)
    ensures
        out@ == action_name(action@),
{
    match action {
        Action::MoveToWorkspace { name, .. } => name,
        Action::SetFloating { name, .. } => name,
        Action::ExpelRight { name, .. } => name,
        Action::MoveColumnToIndex { name, .. } => name,
        Action::ConsumeLeft { name, .. } => name,
        Action::MoveWindowUp { name, .. } => name,
        Action::MoveWindowDown { name, .. } => name,
        Action::SetColumnWidth { name, .. } => name,
        Action::SetWindowHeight { name, .. } => name,
        Action::SetColumnDisplay { name, .. } => name,
        Action::Focus { name, .. } => name,
    }
}

/// Makes sure that the window of an action is still there.
pub fn ensure_window(action: &Action, state: &ObservedState) -> (out: Result<(), ApplyError>)
    ensures
        match out {
            Ok(_) => state@.window(script_of(action@).window_id) is Some,
            Err(e) => state@.window(script_of(action@).window_id) is None && e@ == (
            ApplyErrorView::WindowDisappeared {
                name: action_name(action@),
                id: script_of(action@).window_id,
            }),
        },
{
    let id: u64 = plan_action(action).window_id;
    if state.window(id).is_some() {
        Ok(())
    } else {
        Err(ApplyError::WindowDisappeared { name: name_in(action).clone(), id })
    }
}

/// Where a window stands: its column and its place there.
pub open spec fn position_of(s: StateView, id: u64) -> Option<(Option<usize>, Option<usize>)> {
    match s.window(id) {
        Some(w) => Some((w.column, w.tile_index)),
        None => None,
    }
}

/// Where a window stands.
pub fn window_position(state: &ObservedState, id: u64) -> (out: Option<
    (Option<usize>, Option<usize>),
>)
    ensures
        out == position_of(state@, id),
{
    match state.window(id) {
        Some(w) => Some((w.column, w.tile_index)),
        None => None,
    }
}

/// The window shows that a command took effect. `before` is where it stood before
/// the command, `resized` whether its tile has got the extent that is waited for.
pub open spec fn is_reached(
    goal: Goal,
    s: StateView,
    id: u64,
    before: Option<(Option<usize>, Option<usize>)>,
    resized: bool,
) -> bool {
    match goal {
        Goal::Moved => position_of(s, id) != before,
        _ => match s.window(id) {
            Some(w) => match goal {
                Goal::OnWorkspace { id: to } => w.workspace_id == Some(to),
                Goal::Floating { floating } => w.is_floating == floating,
                Goal::AtColumn { column } => w.column == Some(column),
                Goal::TileBefore { tile } => w.tile_index is Some && w.tile_index->0 < tile,
                Goal::TileBehind { tile } => w.tile_index is Some && w.tile_index->0 > tile,
                Goal::Resized { size: _, width: _ } => resized,
                Goal::LayoutEvent => false,
                Goal::Focused => w.is_focused,
                Goal::Moved => true,
            },
            None => false,
        },
    }
}

fn same_place(a: Option<usize>, b: Option<usize>) -> (out: bool)
    ensures
        out == (a == b),
{
    match (a, b) {
        (Some(x), Some(y)) => x == y,
        (None, None) => true,
        _ => false,
    }
}

fn same_position(
    a: Option<(Option<usize>, Option<usize>)>,
    b: Option<(Option<usize>, Option<usize>)>,
) -> (out: bool)
    ensures
        out == (a == b),
{
    match (a, b) {
        (Some(x), Some(y)) => same_place(x.0, y.0) && same_place(x.1, y.1),
        (None, None) => true,
        _ => false,
    }
}

/// Whether the window shows that a command took effect. Whether its tile has got
/// the extent that is waited for comes in as `resized`.
pub fn goal_reached(
    goal: Goal,
    state: &ObservedState,
    id: u64,
    before: Option<(Option<usize>, Option<usize>)>,
    resized: bool,
) -> (out: bool)
    ensures
        out == is_reached(goal, state@, id, before, resized),
{
    if let Goal::Moved = goal {
        return !same_position(window_position(state, id), before);
    }
    match state.window(id) {
        Some(w) => match goal {
            Goal::OnWorkspace { id: to } => match w.workspace_id {
                Some(x) => x == to,
                None => false,
            },
            Goal::Floating { floating } => w.is_floating == floating,
            Goal::AtColumn { column } => same_place(w.column, Some(column)),
            Goal::TileBefore { tile } => match w.tile_index {
                Some(x) => x < tile,
                None => false,
            },
            Goal::TileBehind { tile } => match w.tile_index {
                Some(x) => x > tile,
                None => false,
            },
            Goal::Resized { size: _, width: _ } => resized,
            Goal::LayoutEvent => false,
            Goal::Focused => w.is_focused,
            Goal::Moved => true,
        },
        None => false,
    }
}

/// Whether it is no error that the goal does not show in time: a share may come
/// out as the extent that the tile has already, and a display never shows.
pub fn may_time_out(goal: Goal) -> (out: bool)
    ensures
        out == match goal {
            Goal::Resized { size, width: _ } => size is Percent,
            Goal::LayoutEvent => true,
            _ => false,
        },
{
    match goal {
        Goal::Resized { size: Size::Percent(_), width: _ } => true,
        Goal::LayoutEvent => true,
        _ => false,
    }
}

// Laws

/// The commands of an action go to its own window: they name it, or it has got the
/// focus first.
pub proof fn commands_go_to_their_window(a: ActionView)
    ensures
        match script_of(a).command {
            Some(Command::MoveWindowToWorkspace { window_id, workspace_id: _ }) => window_id
                == script_of(a).window_id,
            Some(Command::MoveWindowToFloating { id }) => id == script_of(a).window_id,
            Some(Command::MoveWindowToTiling { id }) => id == script_of(a).window_id,
            Some(Command::ConsumeOrExpelWindowRight { id }) => id == script_of(a).window_id,
            Some(Command::ConsumeOrExpelWindowLeft { id }) => id == script_of(a).window_id,
            Some(Command::SetWindowHeight { id, size: _ }) => id == script_of(a).window_id,
            _ => script_of(a).focus_first,
        },
{
}

/// The progress after the plans of `firsts` came up one after the other, each with
/// its fingerprint.
pub open spec fn after_plans(
    p: ProgressView,
    firsts: Seq<(Option<ActionView>, Seq<char>)>,
) -> ProgressView
    decreases firsts.len(),
{
    if firsts.len() == 0 {
        p
    } else {
        after_plans(p, firsts.drop_last()).after(firsts.last().0, firsts.last().1)
    }
}

/// Whatever the compositor answers, no more actions are carried out than allowed,
/// and then the loop stops.
pub proof fn the_loop_is_bounded(firsts: Seq<(Option<ActionView>, Seq<char>)>)
    ensures
        ({
            let start = ProgressView { steps: 0, repeats: 0, previous: None };
            let end = after_plans(start, firsts);
            &&& end.wf()
            &&& end.steps <= MOST_STEPS
            &&& end.steps == MOST_STEPS ==> forall|a: Option<ActionView>, f: Seq<char>|
                (#[trigger] end.next(a, f)) is Stop
        }),
    decreases firsts.len(),
{
    if firsts.len() > 0 {
        the_loop_is_bounded(firsts.drop_last());
    }
}

/// The same action is carried out twice in a row at most, and one that asks for a
/// share only once.
pub proof fn actions_are_not_repeated(p: ProgressView, a: ActionView, f: Seq<char>)
    requires
        p.wf(),
    ensures
        ({
            let q = p.after(Some(a), f);
            let r = q.after(Some(a), f);
            &&& p.next(Some(a), f) is Execute && q.next(Some(a), f) is Execute ==> !asks_for_share(a)
                && !(r.next(Some(a), f) is Execute)
        }),
{
}

} // verus!
