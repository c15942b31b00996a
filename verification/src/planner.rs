//! The reconcile planner: which actions bring the observed windows closer to
//! the layout that a recipe declares.
use crate::lists;
use crate::lists::{group_keys, group_members};
use crate::model;
use crate::model::{
    window_place, ColumnDisplay, ObservedState, Recipe, RecipeView, RuntimeView, RuntimeWindow,
    Size, StateView, WindowSpec, WindowView,
};
use crate::names;
use crate::names::NameMap;
use vstd::prelude::*;

verus! {

/// One step towards the declared layout.
#[allow(inconsistent_fields)]
#[derive(Debug, PartialEq)]
pub enum Action {
    MoveToWorkspace { name: String, window_id: u64, from: Option<u64>, to: u64 },
    SetFloating { name: String, window_id: u64, floating: bool },
    ExpelRight { name: String, window_id: u64 },
    MoveColumnToIndex { name: String, window_id: u64, from: Option<usize>, to: usize },
    ConsumeLeft { name: String, window_id: u64, target_column: usize },
    MoveWindowUp { name: String, window_id: u64, from: usize, to: usize },
    MoveWindowDown { name: String, window_id: u64, from: usize, to: usize },
    SetColumnWidth { name: String, window_id: u64, column: usize, size: Size },
    SetWindowHeight { name: String, window_id: u64, size: Size },
    SetColumnDisplay { name: String, window_id: u64, column: usize, display: ColumnDisplay },
    Focus { name: String, window_id: u64 },
}

/// The model of an action.
#[allow(inconsistent_fields)]
#[verifier::ext_equal]
pub enum ActionView {
    MoveToWorkspace { name: Seq<char>, window_id: u64, from: Option<u64>, to: u64 },
    SetFloating { name: Seq<char>, window_id: u64, floating: bool },
    ExpelRight { name: Seq<char>, window_id: u64 },
    MoveColumnToIndex { name: Seq<char>, window_id: u64, from: Option<usize>, to: usize },
    ConsumeLeft { name: Seq<char>, window_id: u64, target_column: usize },
    MoveWindowUp { name: Seq<char>, window_id: u64, from: usize, to: usize },
    MoveWindowDown { name: Seq<char>, window_id: u64, from: usize, to: usize },
    SetColumnWidth { name: Seq<char>, window_id: u64, column: usize, size: Size },
    SetWindowHeight { name: Seq<char>, window_id: u64, size: Size },
    SetColumnDisplay { name: Seq<char>, window_id: u64, column: usize, display: ColumnDisplay },
    Focus { name: Seq<char>, window_id: u64 },
}

impl View for Action {
    type V = ActionView;

    open spec fn view(&self) -> ActionView {
        match *self {
            Action::MoveToWorkspace { name, window_id, from, to } => ActionView::MoveToWorkspace {
                name: name@,
                window_id,
                from,
                to,
            },
            Action::SetFloating { name, window_id, floating } => ActionView::SetFloating {
                name: name@,
                window_id,
                floating,
            },
            Action::ExpelRight { name, window_id } => ActionView::ExpelRight {
                name: name@,
                window_id,
            },
            Action::MoveColumnToIndex {
                name,
                window_id,
                from,
                to,
            } => ActionView::MoveColumnToIndex { name: name@, window_id, from, to },
            Action::ConsumeLeft { name, window_id, target_column } => ActionView::ConsumeLeft {
                name: name@,
                window_id,
                target_column,
            },
            Action::MoveWindowUp { name, window_id, from, to } => ActionView::MoveWindowUp {
                name: name@,
                window_id,
                from,
                to,
            },
            Action::MoveWindowDown { name, window_id, from, to } => ActionView::MoveWindowDown {
                name: name@,
                window_id,
                from,
                to,
            },
            Action::SetColumnWidth {
                name,
                window_id,
                column,
                size,
            } => ActionView::SetColumnWidth { name: name@, window_id, column, size },
            Action::SetWindowHeight { name, window_id, size } => ActionView::SetWindowHeight {
                name: name@,
                window_id,
                size,
            },
            Action::SetColumnDisplay {
                name,
                window_id,
                column,
                display,
            } => ActionView::SetColumnDisplay { name: name@, window_id, column, display },
            Action::Focus { name, window_id } => ActionView::Focus { name: name@, window_id },
        }
    }
}

/// The models of a list of actions.
pub open spec fn action_views(v: Seq<Action>) -> Seq<ActionView> {
    v.map_values(|a: Action| a@)
}

impl Clone for Action {
    fn clone(&self) -> (out: Self)
        ensures
            out@ == self@,
    {
        match self {
            Action::MoveToWorkspace { name, window_id, from, to } => Action::MoveToWorkspace {
                name: name.clone(),
                window_id: *window_id,
                from: *from,
                to: *to,
            },
            Action::SetFloating { name, window_id, floating } => Action::SetFloating {
                name: name.clone(),
                window_id: *window_id,
                floating: *floating,
            },
            Action::ExpelRight { name, window_id } => Action::ExpelRight {
                name: name.clone(),
                window_id: *window_id,
            },
            Action::MoveColumnToIndex { name, window_id, from, to } => Action::MoveColumnToIndex {
                name: name.clone(),
                window_id: *window_id,
                from: *from,
                to: *to,
            },
            Action::ConsumeLeft { name, window_id, target_column } => Action::ConsumeLeft {
                name: name.clone(),
                window_id: *window_id,
                target_column: *target_column,
            },
            Action::MoveWindowUp { name, window_id, from, to } => Action::MoveWindowUp {
                name: name.clone(),
                window_id: *window_id,
                from: *from,
                to: *to,
            },
            Action::MoveWindowDown { name, window_id, from, to } => Action::MoveWindowDown {
                name: name.clone(),
                window_id: *window_id,
                from: *from,
                to: *to,
            },
            Action::SetColumnWidth { name, window_id, column, size } => Action::SetColumnWidth {
                name: name.clone(),
                window_id: *window_id,
                column: *column,
                size: *size,
            },
            Action::SetWindowHeight { name, window_id, size } => Action::SetWindowHeight {
                name: name.clone(),
                window_id: *window_id,
                size: *size,
            },
            Action::SetColumnDisplay {
                name,
                window_id,
                column,
                display,
            } => Action::SetColumnDisplay {
                name: name.clone(),
                window_id: *window_id,
                column: *column,
                display: *display,
            },
            Action::Focus { name, window_id } => Action::Focus {
                name: name.clone(),
                window_id: *window_id,
            },
        }
    }
}

impl Action {
    /// Whether the compositor's state cannot tell that this action was done.
    pub fn display_is_unverifiable(&self) -> (out: bool)
        ensures
            out == (self@ is SetColumnDisplay),
    {
        match self {
            Action::SetColumnDisplay { .. } => true,
            _ => false,
        }
    }
}

/// The next actions towards the declared layout.
#[derive(Debug, Clone, PartialEq)]
pub struct ReconcilePlan {
    pub actions: Vec<Action>,
}

impl View for ReconcilePlan {
    type V = Seq<ActionView>;

    open spec fn view(&self) -> Seq<ActionView> {
        action_views(self.actions@)
    }
}

/// Whether the compositor's state can tell that `a` was done.
pub open spec fn is_observable(a: ActionView) -> bool {
    !(a is SetColumnDisplay)
}

impl ReconcilePlan {
    /// Whether there is nothing to do.
    pub fn is_noop(&self) -> (out: bool)
        ensures
            out == (self@.len() == 0),
    {
        self.actions.len() == 0
    }

    /// The actions whose outcome the compositor's state shows, in order.
    pub fn observable_actions(&self) -> (out: Vec<&Action>)
        ensures
            out@.map_values(|a: &Action| a@) == self@.filter(|a: ActionView| is_observable(a)),
    {
        let ghost keep = |a: ActionView| is_observable(a);
        let ghost shown = |a: &Action| a@;
        let mut out: Vec<&Action> = Vec::new();
        for i in 0..self.actions.len()
            invariant
                keep == (|a: ActionView| is_observable(a)),
                shown == (|a: &Action| a@),
                out@.map_values(shown) == self@.take(i as int).filter(keep),
        {
            let ghost before = out@;
            let a: &Action = &self.actions[i];
            assert(self@.take(i + 1) =~= self@.take(i as int).push(a@));
            proof {
                reveal(Seq::filter);
                assert(self@.take(i + 1).drop_last() =~= self@.take(i as int));
            }
            if !a.display_is_unverifiable() {
                out.push(a);
                assert(out@.map_values(shown) =~= before.map_values(shown).push(a@));
            }
        }
        assert(self@.take(self@.len() as int) =~= self@);
        out
    }
}

/// Whether the tile of an observed window has the extents that a logical window
/// declares; an extent that is not declared fits.
#[derive(Debug, Clone, Copy, PartialEq, Eq, Structural)]
pub struct TileFit {
    pub width: bool,
    pub height: bool,
}

/// The models of a table of fits.
pub open spec fn fit_views(fits: Seq<Vec<TileFit>>) -> Seq<Seq<TileFit>> {
    fits.map_values(|row: Vec<TileFit>| row@)
}

/// `fits` has a row for each logical window and in it a place for each observed
/// window.
pub open spec fn fits_cover(fits: Seq<Seq<TileFit>>, logical: nat, observed: nat) -> bool {
    fits.len() == logical && forall|i: int| 0 <= i < logical ==> (#[trigger] fits[i]).len() == observed
}

/// All that a plan depends on.
pub struct Scene {
    pub recipe: RecipeView,
    pub observed: StateView,
    pub resolved: Seq<(Seq<char>, u64)>,
    pub workspace_id: u64,
    pub fits: Seq<Seq<TileFit>>,
}

/// The group of each logical window: its column, unless it floats.
pub open spec fn column_keys(windows: Seq<WindowView>) -> Seq<Option<usize>> {
    windows.map_values(
        |w: WindowView|
            if w.layout.floating {
                None
            } else {
                Some(w.layout.column)
            },
    )
}

/// The group of each observed window: its column, if it is tiled on the workspace.
pub open spec fn tile_keys(windows: Seq<RuntimeView>, workspace_id: u64) -> Seq<Option<usize>> {
    windows.map_values(
        |w: RuntimeView|
            if w.workspace_id == Some(workspace_id) && !w.is_floating {
                w.column
            } else {
                None
            },
    )
}

pub open spec fn has_value(id: u64) -> spec_fn((Seq<char>, u64)) -> bool {
    |e: (Seq<char>, u64)| e.1 == id
}

/// Whether some name is bound to window `id`.
pub open spec fn is_managed(resolved: Seq<(Seq<char>, u64)>, id: u64) -> bool {
    exists|i: int| 0 <= i < resolved.len() && (#[trigger] resolved[i]).1 == id
}

/// The first name that is bound to window `id`.
pub open spec fn name_of(resolved: Seq<(Seq<char>, u64)>, id: u64) -> Seq<char> {
    match lists::find(resolved, has_value(id)) {
        Some(e) => e.0,
        None => Seq::empty(),
    }
}

impl Scene {
    /// The place among the observed windows of the window that logical window
    /// `i` is bound to.
    pub open spec fn place(self, i: int) -> Option<int> {
        match names::lookup(self.resolved, self.recipe.windows[i].name) {
            Some(id) => lists::first_where(self.observed.windows, model::has_id(id)),
            None => None,
        }
    }

    /// The observed window that logical window `i` is bound to.
    pub open spec fn bound(self, i: int) -> Option<RuntimeView> {
        match self.place(i) {
            Some(j) => Some(self.observed.windows[j]),
            None => None,
        }
    }

    pub open spec fn keys(self) -> Seq<Option<usize>> {
        column_keys(self.recipe.windows)
    }

    /// The declared columns, ascending.
    pub open spec fn columns(self) -> Seq<usize> {
        lists::sorted_keys(self.keys())
    }

    /// The logical windows of column `c`, top to bottom.
    pub open spec fn stack(self, c: usize) -> Seq<int> {
        lists::members(self.keys(), c)
    }

    /// The move that window `i` needs to reach the workspace.
    pub open spec fn workspace_move(self) -> spec_fn(int) -> Option<ActionView> {
        |i: int|
            match self.bound(i) {
                Some(w) => if w.workspace_id != Some(self.workspace_id) {
                    Some(
                        ActionView::MoveToWorkspace {
                            name: self.recipe.windows[i].name,
                            window_id: w.id,
                            from: w.workspace_id,
                            to: self.workspace_id,
                        },
                    )
                } else {
                    None
                },
                None => None,
            }
    }

    /// The change between tiled and floating that window `i` needs.
    pub open spec fn floating_change(self) -> spec_fn(int) -> Option<ActionView> {
        |i: int|
            match self.bound(i) {
                Some(w) => if w.is_floating != self.recipe.windows[i].layout.floating {
                    Some(
                        ActionView::SetFloating {
                            name: self.recipe.windows[i].name,
                            window_id: w.id,
                            floating: self.recipe.windows[i].layout.floating,
                        },
                    )
                } else {
                    None
                },
                None => None,
            }
    }

    /// The windows that are bound to the logical windows of column `c`.
    pub open spec fn desired_group(self, c: usize) -> Set<u64> {
        Set::new(
            |id: u64|
                exists|i: int|
                    0 <= i < self.keys().len() && #[trigger] self.keys()[i] == Some(c)
                        && names::lookup(self.resolved, self.recipe.windows[i].name) == Some(id),
        )
    }

    pub open spec fn tiles(self) -> Seq<Option<usize>> {
        tile_keys(self.observed.windows, self.workspace_id)
    }

    /// The windows observed in column `c` of the workspace.
    pub open spec fn current_group(self, c: usize) -> Set<u64> {
        Set::new(
            |id: u64|
                exists|j: int|
                    0 <= j < self.tiles().len() && #[trigger] self.tiles()[j] == Some(c)
                        && self.observed.windows[j].id == id,
        )
    }

    /// Column `c` holds several windows, some of them managed, which do not make
    /// up a declared column.
    pub open spec fn is_wrong_group(self, c: usize) -> bool {
        let ids = self.current_group(c);
        &&& lists::members(self.tiles(), c).len() >= 2
        &&& exists|id: u64| #[trigger] ids.contains(id) && is_managed(self.resolved, id)
        &&& !((forall|id: u64| #[trigger] ids.contains(id) ==> is_managed(self.resolved, id))
            && exists|d: usize|
            lists::is_key(self.keys(), d) && #[trigger] self.desired_group(d) == ids)
    }

    /// `id` is the greatest managed window in column `c`.
    pub open spec fn is_last_managed(self, c: usize, id: u64) -> bool {
        &&& self.current_group(c).contains(id)
        &&& is_managed(self.resolved, id)
        &&& forall|other: u64|
            #[trigger] self.current_group(c).contains(other) && is_managed(self.resolved, other)
                ==> other <= id
    }

    /// The greatest managed window in column `c`.
    pub open spec fn last_managed(self, c: usize) -> u64 {
        choose|id: u64| self.is_last_managed(c, id)
    }

    /// The window to take out of the `k`th observed column.
    pub open spec fn expulsion(self) -> spec_fn(int) -> Option<ActionView> {
        |k: int|
            {
                let c = lists::sorted_keys(self.tiles())[k];
                if self.is_wrong_group(c) {
                    let id = self.last_managed(c);
                    Some(
                        ActionView::ExpelRight { name: name_of(self.resolved, id), window_id: id },
                    )
                } else {
                    None
                }
            }
    }

    /// The column in which logical window `i` is observed.
    pub open spec fn column_of(self, i: int) -> Option<usize> {
        match self.bound(i) {
            Some(w) => w.column,
            None => None,
        }
    }

    /// All logical windows of column `c` are observed there.
    pub open spec fn is_stacked(self, c: usize) -> bool {
        forall|i: int| #[trigger] self.stack(c).contains(i) ==> self.column_of(i) == Some(c)
    }

    /// What the `k`th window of a column that is together needs to stand `k`th.
    /// The outer option says whether it settles the plan, the inner one whether
    /// there is anything to do.
    pub open spec fn tile_step(self, c: usize) -> spec_fn(int) -> Option<Option<ActionView>> {
        |k: int|
            {
                let i = self.stack(c)[k];
                match self.bound(i) {
                    None => Some(None),
                    Some(w) => match w.tile_index {
                        None => Some(None),
                        Some(t) => if t > k + 1 {
                            Some(
                                Some(
                                    ActionView::MoveWindowUp {
                                        name: self.recipe.windows[i].name,
                                        window_id: w.id,
                                        from: t,
                                        to: (k + 1) as usize,
                                    },
                                ),
                            )
                        } else if t < k + 1 {
                            Some(
                                Some(
                                    ActionView::MoveWindowDown {
                                        name: self.recipe.windows[i].name,
                                        window_id: w.id,
                                        from: t,
                                        to: (k + 1) as usize,
                                    },
                                ),
                            )
                        } else {
                            None
                        },
                    },
                }
            }
    }

    /// What the `k`th window of a column needs to join its first window there:
    /// to stand alone right of it, and from there to be taken in.
    pub open spec fn join_step(self, c: usize) -> spec_fn(int) -> Option<Option<ActionView>> {
        |k: int|
            {
                let i = self.stack(c)[k];
                if k == 0 {
                    None
                } else {
                    match self.bound(i) {
                        None => Some(None),
                        Some(w) => if w.column == Some(c) {
                            None
                        } else if w.column != Some((c + 1) as usize) {
                            Some(
                                Some(
                                    ActionView::MoveColumnToIndex {
                                        name: self.recipe.windows[i].name,
                                        window_id: w.id,
                                        from: w.column,
                                        to: (c + 1) as usize,
                                    },
                                ),
                            )
                        } else {
                            Some(
                                Some(
                                    ActionView::ConsumeLeft {
                                        name: self.recipe.windows[i].name,
                                        window_id: w.id,
                                        target_column: c,
                                    },
                                ),
                            )
                        },
                    }
                }
            }
    }

    /// What the `n`th declared column needs: its first window in place, then the
    /// others with it, then all of them in order.
    pub open spec fn column_step(self) -> spec_fn(int) -> Option<Option<ActionView>> {
        |n: int|
            {
                let c = self.columns()[n];
                let m = self.stack(c);
                match self.bound(m[0]) {
                    None => Some(None),
                    Some(w) => if w.column != Some(c) {
                        Some(
                            Some(
                                ActionView::MoveColumnToIndex {
                                    name: self.recipe.windows[m[0]].name,
                                    window_id: w.id,
                                    from: w.column,
                                    to: c,
                                },
                            ),
                        )
                    } else if self.is_stacked(c) {
                        lists::first_given(m.len(), self.tile_step(c))
                    } else {
                        lists::first_given(m.len(), self.join_step(c))
                    },
                }
            }
    }

    /// The first thing that a column needs. A column that cannot be judged,
    /// because a window of it is not there, ends the search.
    pub open spec fn column_action(self) -> Option<ActionView> {
        match lists::first_given(self.columns().len(), self.column_step()) {
            Some(a) => a,
            None => None,
        }
    }

    pub open spec fn declares_width(self) -> spec_fn(int) -> bool {
        |i: int| self.recipe.windows[i].layout.column_width is Some
    }

    pub open spec fn declares_display(self) -> spec_fn(int) -> bool {
        |i: int| self.recipe.windows[i].layout.display is Some
    }

    /// The width that the `n`th declared column still has to get.
    pub open spec fn width_change(self) -> spec_fn(int) -> Option<ActionView> {
        |n: int|
            {
                let c = self.columns()[n];
                let m = self.stack(c);
                match (self.place(m[0]), lists::find(m, self.declares_width())) {
                    (Some(j), Some(i)) => if self.fits[i][j].width {
                        None
                    } else {
                        Some(
                            ActionView::SetColumnWidth {
                                name: self.recipe.windows[m[0]].name,
                                window_id: self.observed.windows[j].id,
                                column: c,
                                size: self.recipe.windows[i].layout.column_width->0,
                            },
                        )
                    },
                    _ => None,
                }
            }
    }

    /// The height that logical window `i` still has to get.
    pub open spec fn height_change(self) -> spec_fn(int) -> Option<ActionView> {
        |i: int|
            match (self.place(i), self.recipe.windows[i].layout.window_height) {
                (Some(j), Some(size)) => if self.fits[i][j].height {
                    None
                } else {
                    Some(
                        ActionView::SetWindowHeight {
                            name: self.recipe.windows[i].name,
                            window_id: self.observed.windows[j].id,
                            size,
                        },
                    )
                },
                _ => None,
            }
    }

    /// The display to set on the `n`th declared column.
    pub open spec fn display_change(self) -> spec_fn(int) -> Option<ActionView> {
        |n: int|
            {
                let c = self.columns()[n];
                let m = self.stack(c);
                match (
                    names::lookup(self.resolved, self.recipe.windows[m[0]].name),
                    lists::find(m, self.declares_display()),
                ) {
                    (Some(id), Some(i)) => Some(
                        ActionView::SetColumnDisplay {
                            name: self.recipe.windows[m[0]].name,
                            window_id: id,
                            column: c,
                            display: self.recipe.windows[i].layout.display->0,
                        },
                    ),
                    _ => None,
                }
            }
    }

    pub open spec fn displays(self) -> Seq<ActionView> {
        lists::gather(self.columns().len(), self.display_change())
    }

    /// The change of focus that the recipe asks for.
    pub open spec fn focus_change(self) -> Seq<ActionView> {
        match self.recipe.focus {
            Some(name) => match names::lookup(self.resolved, name) {
                Some(id) => if self.observed.focused_window_id() != Some(id) {
                    seq![ActionView::Focus { name, window_id: id }]
                } else {
                    Seq::empty()
                },
                None => Seq::empty(),
            },
            None => Seq::empty(),
        }
    }

    pub open spec fn moves(self) -> Seq<ActionView> {
        lists::gather(self.recipe.windows.len(), self.workspace_move())
    }

    pub open spec fn floats(self) -> Seq<ActionView> {
        lists::gather(self.recipe.windows.len(), self.floating_change())
    }

    pub open spec fn expel(self) -> Option<ActionView> {
        lists::first_given(lists::sorted_keys(self.tiles()).len(), self.expulsion())
    }

    pub open spec fn width(self) -> Option<ActionView> {
        lists::first_given(self.columns().len(), self.width_change())
    }

    pub open spec fn height(self) -> Option<ActionView> {
        lists::first_given(self.recipe.windows.len(), self.height_change())
    }

    /// The plan: the first stage at which anything is to be done, and what is to
    /// be done there. All moves to the workspace come first, then all changes
    /// between tiled and floating; groups, columns, widths and heights are put
    /// right one action at a time, and the displays and the focus come last.
    pub open spec fn plan(self, with_displays: bool) -> Seq<ActionView> {
        if self.moves().len() > 0 {
            self.moves()
        } else if self.floats().len() > 0 {
            self.floats()
        } else if self.expel() is Some {
            seq![self.expel()->0]
        } else if self.column_action() is Some {
            seq![self.column_action()->0]
        } else if self.width() is Some {
            seq![self.width()->0]
        } else if self.height() is Some {
            seq![self.height()->0]
        } else if with_displays {
            self.displays() + self.focus_change()
        } else {
            self.focus_change()
        }
    }
}

/// The scene that the arguments of the planner make up.
pub open spec fn scene_of(
    recipe: &Recipe,
    observed: &ObservedState,
    resolved: &NameMap<u64>,
    workspace_id: u64,
    fits: &Vec<Vec<TileFit>>,
) -> Scene {
    Scene {
        recipe: recipe@,
        observed: observed@,
        resolved: resolved@,
        workspace_id,
        fits: fit_views(fits@),
    }
}

/// The groups of a list of logical windows.
pub fn keys_of(windows: &Vec<WindowSpec>) -> (out: Vec<Option<usize>>)
    ensures
        out@ == column_keys(model::window_views(windows@)),
{
    let mut out: Vec<Option<usize>> = Vec::new();
    for i in 0..windows.len()
        invariant
            out@ == column_keys(model::window_views(windows@.take(i as int))),
    {
        let ghost before = windows@.take(i as int);
        assert(windows@.take(i + 1) =~= before.push(windows@[i as int]));
        let w: &WindowSpec = &windows[i];
        if w.layout.floating {
            out.push(None);
        } else {
            out.push(Some(w.layout.column));
        }
        assert(out@ =~= column_keys(model::window_views(windows@.take(i + 1))));
    }
    assert(windows@.take(windows@.len() as int) =~= windows@);
    out
}

fn tile_keys_of(windows: &Vec<RuntimeWindow>, workspace_id: u64) -> (out: Vec<Option<usize>>)
    ensures
        out@ == tile_keys(model::runtime_views(windows@), workspace_id),
{
    let mut out: Vec<Option<usize>> = Vec::new();
    for i in 0..windows.len()
        invariant
            out@ == tile_keys(model::runtime_views(windows@.take(i as int)), workspace_id),
    {
        let ghost before = windows@.take(i as int);
        assert(windows@.take(i + 1) =~= before.push(windows@[i as int]));
        let w: &RuntimeWindow = &windows[i];
        if is_on(w.workspace_id, workspace_id) && !w.is_floating {
            out.push(w.column);
        } else {
            out.push(None);
        }
        assert(out@ =~= tile_keys(model::runtime_views(windows@.take(i + 1)), workspace_id));
    }
    assert(windows@.take(windows@.len() as int) =~= windows@);
    out
}

fn is_on(workspace: Option<u64>, id: u64) -> (out: bool)
    ensures
        out == (workspace == Some(id)),
{
    match workspace {
        Some(w) => w == id,
        None => false,
    }
}

fn is_at(column: Option<usize>, c: usize) -> (out: bool)
    ensures
        out == (column == Some(c)),
{
    match column {
        Some(x) => x == c,
        None => false,
    }
}

/// The place of the observed window that each logical window is bound to.
fn places_of(
    recipe: &Recipe,
    observed: &ObservedState,
    resolved: &NameMap<u64>,
    Ghost(s): Ghost<Scene>,
) -> (out: Vec<Option<usize>>)
    requires
        s.recipe == recipe@,
        s.observed == observed@,
        s.resolved == resolved@,
    ensures
        holds_places(out@, s),
{
    let mut out: Vec<Option<usize>> = Vec::new();
    for i in 0..recipe.windows.len()
        invariant
            s.recipe == recipe@,
            s.observed == observed@,
            s.resolved == resolved@,
            out@.len() == i,
            forall|k: int| 0 <= k < i ==> as_place(#[trigger] out@[k]) == s.place(k),
            forall|k: int|
                0 <= k < i && (#[trigger] out@[k]) is Some ==> out@[k]->0 < observed.windows@.len(),
    {
        assert(s.recipe.windows[i as int] == recipe.windows@[i as int]@);
        match resolved.get(recipe.windows[i].name.as_str()) {
            Some(id) => {
                let at: Option<usize> = window_place(&observed.windows, *id);
                out.push(at);
            },
            None => {
                out.push(None);
            },
        }
    }
    out
}

pub open spec fn as_place(at: Option<usize>) -> Option<int> {
    match at {
        Some(i) => Some(i as int),
        None => None,
    }
}

/// `places` holds the place of each logical window's observed window.
pub open spec fn holds_places(places: Seq<Option<usize>>, s: Scene) -> bool {
    &&& places.len() == s.recipe.windows.len()
    &&& forall|i: int| 0 <= i < places.len() ==> as_place(#[trigger] places[i]) == s.place(i)
    &&& forall|i: int|
        0 <= i < places.len() && (#[trigger] places[i]) is Some ==> places[i]->0
            < s.observed.windows.len()
}

fn workspace_moves(
    recipe: &Recipe,
    observed: &ObservedState,
    workspace_id: u64,
    places: &Vec<Option<usize>>,
    Ghost(s): Ghost<Scene>,
) -> (out: Vec<Action>)
    requires
        s.recipe == recipe@,
        s.observed == observed@,
        s.workspace_id == workspace_id,
        holds_places(places@, s),
    ensures
        action_views(out@) == s.moves(),
{
    let mut out: Vec<Action> = Vec::new();
    let ghost f = s.workspace_move();
    for i in 0..recipe.windows.len()
        invariant
            s.recipe == recipe@,
            s.observed == observed@,
            s.workspace_id == workspace_id,
            holds_places(places@, s),
            f == s.workspace_move(),
            action_views(out@) == lists::gather(i as nat, f),
    {
        let ghost before = out@;
        let ghost given = f(i as int);
        assert(as_place(places@[i as int]) == s.place(i as int));
        assert(s.recipe.windows[i as int] == recipe.windows@[i as int]@);
        if let Some(j) = places[i] {
            assert(s.observed.windows[j as int] == observed.windows@[j as int]@);
            let w: &RuntimeWindow = &observed.windows[j];
            if !is_on(w.workspace_id, workspace_id) {
                out.push(
                    Action::MoveToWorkspace {
                        name: recipe.windows[i].name.clone(),
                        window_id: w.id,
                        from: w.workspace_id,
                        to: workspace_id,
                    },
                );
                assert(action_views(out@) =~= action_views(before).push(given->0));
            }
        }
    }
    out
}

fn floating_changes(
    recipe: &Recipe,
    observed: &ObservedState,
    places: &Vec<Option<usize>>,
    Ghost(s): Ghost<Scene>,
) -> (out: Vec<Action>)
    requires
        s.recipe == recipe@,
        s.observed == observed@,
        holds_places(places@, s),
    ensures
        action_views(out@) == s.floats(),
{
    let mut out: Vec<Action> = Vec::new();
    let ghost f = s.floating_change();
    for i in 0..recipe.windows.len()
        invariant
            s.recipe == recipe@,
            s.observed == observed@,
            holds_places(places@, s),
            f == s.floating_change(),
            action_views(out@) == lists::gather(i as nat, f),
    {
        let ghost before = out@;
        let ghost given = f(i as int);
        assert(as_place(places@[i as int]) == s.place(i as int));
        assert(s.recipe.windows[i as int] == recipe.windows@[i as int]@);
        if let Some(j) = places[i] {
            assert(s.observed.windows[j as int] == observed.windows@[j as int]@);
            let w: &RuntimeWindow = &observed.windows[j];
            let floating: bool = recipe.windows[i].layout.floating;
            if w.is_floating != floating {
                out.push(
                    Action::SetFloating {
                        name: recipe.windows[i].name.clone(),
                        window_id: w.id,
                        floating,
                    },
                );
                assert(action_views(out@) =~= action_views(before).push(given->0));
            }
        }
    }
    out
}

/// Whether some name is bound to window `id`.
fn managed(resolved: &NameMap<u64>, id: u64) -> (out: bool)
    ensures
        out == is_managed(resolved@, id),
{
    let n: usize = resolved.len();
    for i in 0..n
        invariant
            n == resolved@.len(),
            forall|k: int| 0 <= k < i ==> (#[trigger] resolved@[k]).1 != id,
    {
        if *resolved.value_at(i) == id {
            return true;
        }
    }
    false
}

/// The first name that is bound to window `id`.
fn first_name(resolved: &NameMap<u64>, id: u64) -> (out: String)
    requires
        is_managed(resolved@, id),
    ensures
        out@ == name_of(resolved@, id),
{
    let n: usize = resolved.len();
    for i in 0..n
        invariant
            n == resolved@.len(),
            forall|k: int| 0 <= k < i ==> !has_value(id)(#[trigger] resolved@[k]),
    {
        if *resolved.value_at(i) == id {
            proof {
                lists::first_is(resolved@, has_value(id), i as int);
            }
            return resolved.name_at(i).clone();
        }
    }
    assert(false) by {
        let k = choose|k: int| 0 <= k < resolved@.len() && (#[trigger] resolved@[k]).1 == id;
        assert(!has_value(id)(resolved@[k]));
    }
    String::new()
}

/// Whether window `id` is observed in one of the places `here`.
fn observed_in(observed: &ObservedState, here: &Vec<usize>, id: u64) -> (out: bool)
    requires
        forall|k: int| 0 <= k < here@.len() ==> (#[trigger] here@[k]) < observed.windows@.len(),
    ensures
        out == exists|k: int|
            0 <= k < here@.len() && observed.windows@[(#[trigger] here@[k]) as int].id == id,
{
    for k in 0..here.len()
        invariant
            forall|x: int| 0 <= x < here@.len() ==> (#[trigger] here@[x]) < observed.windows@.len(),
            forall|x: int| 0 <= x < k ==> observed.windows@[(#[trigger] here@[x]) as int].id != id,
    {
        if observed.windows[here[k]].id == id {
            assert(observed.windows@[here@[k as int] as int].id == id);
            return true;
        }
    }
    false
}

/// Whether window `id` is bound to one of the logical windows `stack`.
fn bound_in(recipe: &Recipe, resolved: &NameMap<u64>, stack: &Vec<usize>, id: u64) -> (out: bool)
    requires
        forall|k: int| 0 <= k < stack@.len() ==> (#[trigger] stack@[k]) < recipe.windows@.len(),
    ensures
        out == exists|k: int|
            0 <= k < stack@.len() && names::lookup(
                resolved@,
                recipe.windows@[(#[trigger] stack@[k]) as int].name@,
            ) == Some(id),
{
    for k in 0..stack.len()
        invariant
            forall|x: int| 0 <= x < stack@.len() ==> (#[trigger] stack@[x]) < recipe.windows@.len(),
            forall|x: int|
                0 <= x < k ==> names::lookup(
                    resolved@,
                    recipe.windows@[(#[trigger] stack@[x]) as int].name@,
                ) != Some(id),
    {
        if let Some(found) = resolved.get(recipe.windows[stack[k]].name.as_str()) {
            if *found == id {
                assert(names::lookup(resolved@, recipe.windows@[stack@[k as int] as int].name@)
                    == Some(id));
                return true;
            }
        }
    }
    false
}

/// Whether the windows observed in the places `here`, which are those of column
/// `c`, are just those bound to the declared column `d`.
fn is_desired_group(
    recipe: &Recipe,
    observed: &ObservedState,
    resolved: &NameMap<u64>,
    keys: &Vec<Option<usize>>,
    here: &Vec<usize>,
    d: usize,
    Ghost(s): Ghost<Scene>,
    Ghost(c): Ghost<usize>,
) -> (out: bool)
    requires
        s.recipe == recipe@,
        s.observed == observed@,
        s.resolved == resolved@,
        keys@ == s.keys(),
        holds_members(here@, s.tiles(), c),
    ensures
        out == (s.desired_group(d) == s.current_group(c)),
{
    let stack: Vec<usize> = group_members(keys, d);
    proof {
        lists::members_are(s.keys(), d);
        assert(holds_members(stack@, s.keys(), d));
    }
    let ghost want = s.desired_group(d);
    let ghost have = s.current_group(c);
    assert forall|id: u64| #[trigger] have.contains(id) <==> exists|k: int|
        0 <= k < here@.len() && observed.windows@[(#[trigger] here@[k]) as int].id == id by {
        current_group_is(s, c, here@, id);
    }
    assert forall|id: u64| #[trigger] want.contains(id) <==> exists|k: int|
        0 <= k < stack@.len() && names::lookup(
            resolved@,
            recipe.windows@[(#[trigger] stack@[k]) as int].name@,
        ) == Some(id) by {
        desired_group_is(s, d, stack@, id);
        assert forall|k: int| 0 <= k < stack@.len() implies s.recipe.windows[(
        #[trigger] stack@[k]) as int].name == recipe.windows@[stack@[k] as int].name@ by {}
    }
    for k in 0..here.len()
        invariant
            s.observed == observed@,
            s.recipe == recipe@,
            s.resolved == resolved@,
            have == s.current_group(c),
            want == s.desired_group(d),
            holds_members(here@, s.tiles(), c),
            holds_members(stack@, s.keys(), d),
            forall|id: u64| #[trigger] have.contains(id) <==> exists|x: int|
                0 <= x < here@.len() && observed.windows@[(#[trigger] here@[x]) as int].id == id,
            forall|id: u64| #[trigger] want.contains(id) <==> exists|x: int|
                0 <= x < stack@.len() && names::lookup(
                    resolved@,
                    recipe.windows@[(#[trigger] stack@[x]) as int].name@,
                ) == Some(id),
            forall|x: int|
                0 <= x < k ==> want.contains(observed.windows@[(#[trigger] here@[x]) as int].id),
    {
        let id: u64 = observed.windows[here[k]].id;
        assert(have.contains(id)) by {
            assert(observed.windows@[here@[k as int] as int].id == id);
        }
        if !bound_in(recipe, resolved, &stack, id) {
            assert(!want.contains(id));
            return false;
        }
        assert(want.contains(id));
    }
    assert forall|id: u64| #[trigger] have.contains(id) implies want.contains(id) by {
        let x = choose|x: int|
            0 <= x < here@.len() && observed.windows@[(#[trigger] here@[x]) as int].id == id;
        assert(want.contains(observed.windows@[here@[x] as int].id));
    }
    for k in 0..stack.len()
        invariant
            s.observed == observed@,
            s.recipe == recipe@,
            s.resolved == resolved@,
            have == s.current_group(c),
            want == s.desired_group(d),
            holds_members(here@, s.tiles(), c),
            holds_members(stack@, s.keys(), d),
            forall|id: u64| #[trigger] have.contains(id) <==> exists|x: int|
                0 <= x < here@.len() && observed.windows@[(#[trigger] here@[x]) as int].id == id,
            forall|id: u64| #[trigger] want.contains(id) <==> exists|x: int|
                0 <= x < stack@.len() && names::lookup(
                    resolved@,
                    recipe.windows@[(#[trigger] stack@[x]) as int].name@,
                ) == Some(id),
            forall|x: int|
                0 <= x < k ==> match names::lookup(
                    resolved@,
                    recipe.windows@[(#[trigger] stack@[x]) as int].name@,
                ) {
                    Some(id) => have.contains(id),
                    None => true,
                },
    {
        if let Some(found) = resolved.get(recipe.windows[stack[k]].name.as_str()) {
            let id: u64 = *found;
            assert(want.contains(id)) by {
                assert(names::lookup(resolved@, recipe.windows@[stack@[k as int] as int].name@)
                    == Some(id));
            }
            if !observed_in(observed, here, id) {
                assert(!have.contains(id));
                return false;
            }
            assert(have.contains(id));
        }
    }
    assert forall|id: u64| #[trigger] want.contains(id) implies have.contains(id) by {
        let x = choose|x: int|
            0 <= x < stack@.len() && names::lookup(
                resolved@,
                recipe.windows@[(#[trigger] stack@[x]) as int].name@,
            ) == Some(id);
        assert(names::lookup(resolved@, recipe.windows@[stack@[x] as int].name@) == Some(id));
    }
    assert(want =~= have);
    true
}

/// `out` holds the places of group `k`, ascending.
pub open spec fn holds_members(out: Seq<usize>, keys: Seq<Option<usize>>, k: usize) -> bool {
    &&& out.len() == lists::members(keys, k).len()
    &&& forall|i: int|
        0 <= i < out.len() ==> #[trigger] out[i] as int == lists::members(keys, k)[i]
    &&& forall|i: int|
        0 <= i < out.len() ==> (#[trigger] out[i]) < keys.len() && keys[out[i] as int] == Some(k)
}

proof fn current_group_is(s: Scene, c: usize, here: Seq<usize>, id: u64)
    requires
        holds_members(here, s.tiles(), c),
    ensures
        s.current_group(c).contains(id) <==> exists|k: int|
            0 <= k < here.len() && s.observed.windows[(#[trigger] here[k]) as int].id == id,
{
    lists::members_are(s.tiles(), c);
    if s.current_group(c).contains(id) {
        let j = choose|j: int|
            0 <= j < s.tiles().len() && #[trigger] s.tiles()[j] == Some(c)
                && s.observed.windows[j].id == id;
        assert(lists::members(s.tiles(), c).contains(j));
        let k = choose|k: int|
            0 <= k < lists::members(s.tiles(), c).len() && lists::members(s.tiles(), c)[k] == j;
        assert(here[k] as int == j);
    }
    if exists|k: int| 0 <= k < here.len() && s.observed.windows[(#[trigger] here[k]) as int].id == id {
        let k = choose|k: int|
            0 <= k < here.len() && s.observed.windows[(#[trigger] here[k]) as int].id == id;
        assert(s.tiles()[here[k] as int] == Some(c));
    }
}

proof fn desired_group_is(s: Scene, d: usize, stack: Seq<usize>, id: u64)
    requires
        holds_members(stack, s.keys(), d),
    ensures
        s.desired_group(d).contains(id) <==> exists|k: int|
            0 <= k < stack.len() && names::lookup(
                s.resolved,
                s.recipe.windows[(#[trigger] stack[k]) as int].name,
            ) == Some(id),
{
    lists::members_are(s.keys(), d);
    if s.desired_group(d).contains(id) {
        let i = choose|i: int|
            0 <= i < s.keys().len() && #[trigger] s.keys()[i] == Some(d) && names::lookup(
                s.resolved,
                s.recipe.windows[i].name,
            ) == Some(id);
        assert(lists::members(s.keys(), d).contains(i));
        let k = choose|k: int|
            0 <= k < lists::members(s.keys(), d).len() && lists::members(s.keys(), d)[k] == i;
        assert(stack[k] as int == i);
    }
    if exists|k: int|
        0 <= k < stack.len() && names::lookup(
            s.resolved,
            s.recipe.windows[(#[trigger] stack[k]) as int].name,
        ) == Some(id) {
        let k = choose|k: int|
            0 <= k < stack.len() && names::lookup(
                s.resolved,
                s.recipe.windows[(#[trigger] stack[k]) as int].name,
            ) == Some(id);
        assert(s.keys()[stack[k] as int] == Some(d));
    }
}

/// The window to take out of a column whose windows do not belong together.
fn find_wrong_group(
    recipe: &Recipe,
    observed: &ObservedState,
    resolved: &NameMap<u64>,
    workspace_id: u64,
    keys: &Vec<Option<usize>>,
    columns: &Vec<usize>,
    Ghost(s): Ghost<Scene>,
) -> (out: Option<Action>)
    requires
        s.recipe == recipe@,
        s.observed == observed@,
        s.resolved == resolved@,
        s.workspace_id == workspace_id,
        keys@ == s.keys(),
        lists::lists_keys(columns@, s.keys()),
    ensures
        match out {
            Some(a) => s.expel() == Some(a@),
            None => s.expel() is None,
        },
{
    let tiles: Vec<Option<usize>> = tile_keys_of(&observed.windows, workspace_id);
    let current: Vec<usize> = group_keys(&tiles);
    let ghost f = s.expulsion();
    for n in 0..current.len()
        invariant
            s.recipe == recipe@,
            s.observed == observed@,
            s.resolved == resolved@,
            s.workspace_id == workspace_id,
            keys@ == s.keys(),
            tiles@ == s.tiles(),
            current@ == lists::sorted_keys(s.tiles()),
            lists::lists_keys(columns@, s.keys()),
            f == s.expulsion(),
            forall|k: int| 0 <= k < n ==> (#[trigger] f(k)) is None,
    {
        let c: usize = current[n];
        let here: Vec<usize> = group_members(&tiles, c);
        assert(holds_members(here@, s.tiles(), c));
        let wrong: Option<u64> = wrong_member(
            recipe,
            observed,
            resolved,
            keys,
            columns,
            &here,
            Ghost(s),
            Ghost(c),
        );
        match wrong {
            Some(id) => {
                proof {
                    lists::first_given_is(current@.len(), f, n as int);
                }
                return Some(Action::ExpelRight { name: first_name(resolved, id), window_id: id });
            },
            None => {
                assert(f(n as int) is None);
            },
        }
    }
    proof {
        lists::first_given_none(current@.len(), f);
    }
    None
}

/// The window to take out of column `c`, whose windows stand in the places
/// `here`, if they do not belong together.
fn wrong_member(
    recipe: &Recipe,
    observed: &ObservedState,
    resolved: &NameMap<u64>,
    keys: &Vec<Option<usize>>,
    columns: &Vec<usize>,
    here: &Vec<usize>,
    Ghost(s): Ghost<Scene>,
    Ghost(c): Ghost<usize>,
) -> (out: Option<u64>)
    requires
        s.recipe == recipe@,
        s.observed == observed@,
        s.resolved == resolved@,
        keys@ == s.keys(),
        lists::lists_keys(columns@, s.keys()),
        holds_members(here@, s.tiles(), c),
    ensures
        match out {
            Some(id) => s.is_wrong_group(c) && id == s.last_managed(c) && is_managed(s.resolved, id),
            None => !s.is_wrong_group(c),
        },
{
    if here.len() < 2 {
        return None;
    }
    let ghost ids = s.current_group(c);
    assert forall|id: u64| #[trigger] ids.contains(id) <==> exists|k: int|
        0 <= k < here@.len() && observed.windows@[(#[trigger] here@[k]) as int].id == id by {
        current_group_is(s, c, here@, id);
    }
    let mut last: Option<u64> = None;
    let mut stranger: bool = false;
    for k in 0..here.len()
        invariant
            s.observed == observed@,
            s.resolved == resolved@,
            holds_members(here@, s.tiles(), c),
            match last {
                Some(id) => is_managed(s.resolved, id) && exists|x: int|
                    0 <= x < k && observed.windows@[(#[trigger] here@[x]) as int].id == id,
                None => true,
            },
            forall|x: int|
                0 <= x < k ==> {
                    let id = observed.windows@[(#[trigger] here@[x]) as int].id;
                    is_managed(s.resolved, id) ==> last is Some && id <= last->0
                },
            stranger == exists|x: int|
                0 <= x < k && !is_managed(
                    s.resolved,
                    observed.windows@[(#[trigger] here@[x]) as int].id,
                ),
    {
        let id: u64 = observed.windows[here[k]].id;
        assert(observed.windows@[here@[k as int] as int].id == id);
        if managed(resolved, id) {
            let newer: bool = match last {
                Some(best) => id > best,
                None => true,
            };
            if newer {
                last = Some(id);
            }
        } else {
            stranger = true;
        }
    }
    let id: u64 = match last {
        Some(id) => id,
        None => {
            assert(!s.is_wrong_group(c)) by {
                if exists|id: u64| #[trigger] ids.contains(id) && is_managed(s.resolved, id) {
                    let id = choose|id: u64| #[trigger]
                        ids.contains(id) && is_managed(s.resolved, id);
                    let x = choose|x: int|
                        0 <= x < here@.len() && observed.windows@[(#[trigger] here@[x]) as int].id
                            == id;
                    assert(is_managed(s.resolved, observed.windows@[here@[x] as int].id));
                }
            }
            return None;
        },
    };
    assert(s.is_last_managed(c, id)) by {
        assert(ids.contains(id));
        assert forall|other: u64| #[trigger]
            ids.contains(other) && is_managed(s.resolved, other) implies other <= id by {
            let x = choose|x: int|
                0 <= x < here@.len() && observed.windows@[(#[trigger] here@[x]) as int].id == other;
            assert(is_managed(s.resolved, observed.windows@[here@[x] as int].id));
        }
    }
    assert(id == s.last_managed(c)) by {
        let l = s.last_managed(c);
        assert(s.is_last_managed(c, l));
    }
    if stranger {
        assert(exists|id: u64| #[trigger] ids.contains(id) && !is_managed(s.resolved, id)) by {
            let x = choose|x: int|
                0 <= x < here@.len() && !is_managed(
                    s.resolved,
                    observed.windows@[(#[trigger] here@[x]) as int].id,
                );
            assert(ids.contains(observed.windows@[here@[x] as int].id));
        }
        return Some(id);
    }
    assert forall|id: u64| #[trigger] ids.contains(id) implies is_managed(s.resolved, id) by {
        let x = choose|x: int|
            0 <= x < here@.len() && observed.windows@[(#[trigger] here@[x]) as int].id == id;
        assert(is_managed(s.resolved, observed.windows@[here@[x] as int].id));
    }
    for n in 0..columns.len()
        invariant
            s.recipe == recipe@,
            s.observed == observed@,
            s.resolved == resolved@,
            keys@ == s.keys(),
            lists::lists_keys(columns@, s.keys()),
            holds_members(here@, s.tiles(), c),
            ids == s.current_group(c),
            forall|k: int| 0 <= k < n ==> s.desired_group(#[trigger] columns@[k]) != ids,
            forall|id: u64| #[trigger] ids.contains(id) ==> is_managed(s.resolved, id),
    {
        let d: usize = columns[n];
        if is_desired_group(recipe, observed, resolved, keys, here, d, Ghost(s), Ghost(c)) {
            assert(columns@.contains(d));
            assert(lists::is_key(s.keys(), d) && s.desired_group(d) == ids);
            return None;
        }
    }
    assert forall|d: usize| lists::is_key(s.keys(), d) implies #[trigger] s.desired_group(d)
        != ids by {
        assert(columns@.contains(d));
        let k = choose|k: int| 0 <= k < columns@.len() && columns@[k] == d;
        assert(s.desired_group(columns@[k]) != ids);
    }
    Some(id)
}

/// Every declared column has a first window.
proof fn stack_is_not_empty(s: Scene, c: usize)
    requires
        lists::is_key(s.keys(), c),
    ensures
        s.stack(c).len() > 0,
{
    lists::members_are(s.keys(), c);
    let i = choose|i: int| 0 <= i < s.keys().len() && s.keys()[i] == Some(c);
    assert(s.stack(c).contains(i));
}

/// What a column needs, as [`Scene::column_step`] says.
fn column_need(
    recipe: &Recipe,
    observed: &ObservedState,
    places: &Vec<Option<usize>>,
    stack: &Vec<usize>,
    c: usize,
    Ghost(s): Ghost<Scene>,
    Ghost(n): Ghost<int>,
) -> (out: Option<Option<Action>>)
    requires
        s.recipe == recipe@,
        s.observed == observed@,
        holds_places(places@, s),
        holds_members(stack@, s.keys(), c),
        stack@.len() > 0,
        c == s.columns()[n],
        s.stack(usize::MAX).len() <= 1,
    ensures
        match out {
            Some(Some(a)) => s.column_step()(n) == Some(Some(a@)),
            Some(None) => s.column_step()(n) == Some(None::<ActionView>),
            None => s.column_step()(n) is None,
        },
{
    let ghost m = s.stack(c);
    let first: usize = stack[0];
    assert(m[0] == first);
    assert(as_place(places@[first as int]) == s.place(first as int));
    assert(s.recipe.windows[first as int] == recipe.windows@[first as int]@);
    let anchor: &RuntimeWindow = match places[first] {
        Some(j) => {
            assert(s.observed.windows[j as int] == observed.windows@[j as int]@);
            &observed.windows[j]
        },
        None => {
            return Some(None);
        },
    };
    if !is_at(anchor.column, c) {
        return Some(
            Some(
                Action::MoveColumnToIndex {
                    name: recipe.windows[first].name.clone(),
                    window_id: anchor.id,
                    from: anchor.column,
                    to: c,
                },
            ),
        );
    }
    let mut together: bool = true;
    for k in 0..stack.len()
        invariant
            s.recipe == recipe@,
            s.observed == observed@,
            holds_places(places@, s),
            holds_members(stack@, s.keys(), c),
            together == forall|x: int|
                0 <= x < k ==> s.column_of(#[trigger] stack@[x] as int) == Some(c),
    {
        let i: usize = stack[k];
        assert(as_place(places@[i as int]) == s.place(i as int));
        let there: bool = match places[i] {
            Some(j) => {
                assert(s.observed.windows[j as int] == observed.windows@[j as int]@);
                is_at(observed.windows[j].column, c)
            },
            None => false,
        };
        assert(there == (s.column_of(stack@[k as int] as int) == Some(c)));
        if !there {
            together = false;
        }
    }
    assert(together == s.is_stacked(c)) by {
        if together {
            assert forall|i: int| #[trigger] m.contains(i) implies s.column_of(i) == Some(c) by {
                let x = choose|x: int| 0 <= x < m.len() && m[x] == i;
                assert(stack@[x] as int == i);
                assert(s.column_of(stack@[x] as int) == Some(c));
            }
        } else {
            let x = choose|x: int|
                0 <= x < stack@.len() && s.column_of(#[trigger] stack@[x] as int) != Some(c);
            assert(m[x] == stack@[x] as int);
            assert(m.contains(stack@[x] as int));
        }
    }
    if together {
        order_need(recipe, observed, places, stack, c, Ghost(s))
    } else {
        assert(c < usize::MAX) by {
            let x = choose|x: int|
                0 <= x < stack@.len() && s.column_of(#[trigger] stack@[x] as int) != Some(c);
            assert(s.column_of(stack@[0] as int) == Some(c));
            assert(x > 0);
        }
        join_need(recipe, observed, places, stack, c, Ghost(s))
    }
}

/// The first window of a column that does not stand at its height.
fn order_need(
    recipe: &Recipe,
    observed: &ObservedState,
    places: &Vec<Option<usize>>,
    stack: &Vec<usize>,
    c: usize,
    Ghost(s): Ghost<Scene>,
) -> (out: Option<Option<Action>>)
    requires
        s.recipe == recipe@,
        s.observed == observed@,
        holds_places(places@, s),
        holds_members(stack@, s.keys(), c),
    ensures
        match out {
            Some(Some(a)) => lists::first_given(s.stack(c).len(), s.tile_step(c)) == Some(Some(a@)),
            Some(None) => lists::first_given(s.stack(c).len(), s.tile_step(c)) == Some(
                None::<ActionView>,
            ),
            None => lists::first_given(s.stack(c).len(), s.tile_step(c)) is None,
        },
{
    let ghost f = s.tile_step(c);
    for k in 0..stack.len()
        invariant
            s.recipe == recipe@,
            s.observed == observed@,
            holds_places(places@, s),
            holds_members(stack@, s.keys(), c),
            f == s.tile_step(c),
            forall|x: int| 0 <= x < k ==> (#[trigger] f(x)) is None,
    {
        let i: usize = stack[k];
        assert(s.stack(c)[k as int] == i);
        assert(as_place(places@[i as int]) == s.place(i as int));
        assert(s.recipe.windows[i as int] == recipe.windows@[i as int]@);
        let ghost given = f(k as int);
        proof {
            if given is Some {
                lists::first_given_is(s.stack(c).len(), f, k as int);
            }
        }
        match places[i] {
            None => {
                return Some(None);
            },
            Some(j) => {
                assert(s.observed.windows[j as int] == observed.windows@[j as int]@);
                let w: &RuntimeWindow = &observed.windows[j];
                match w.tile_index {
                    None => {
                        return Some(None);
                    },
                    Some(t) => {
                        let to: usize = k + 1;
                        if t > to {
                            return Some(
                                Some(
                                    Action::MoveWindowUp {
                                        name: recipe.windows[i].name.clone(),
                                        window_id: w.id,
                                        from: t,
                                        to,
                                    },
                                ),
                            );
                        }
                        if t < to {
                            return Some(
                                Some(
                                    Action::MoveWindowDown {
                                        name: recipe.windows[i].name.clone(),
                                        window_id: w.id,
                                        from: t,
                                        to,
                                    },
                                ),
                            );
                        }
                    },
                }
            },
        }
    }
    proof {
        lists::first_given_none(s.stack(c).len(), f);
    }
    None
}

/// The first window of a column that is not with the column's first window.
fn join_need(
    recipe: &Recipe,
    observed: &ObservedState,
    places: &Vec<Option<usize>>,
    stack: &Vec<usize>,
    c: usize,
    Ghost(s): Ghost<Scene>,
) -> (out: Option<Option<Action>>)
    requires
        s.recipe == recipe@,
        s.observed == observed@,
        holds_places(places@, s),
        holds_members(stack@, s.keys(), c),
        c < usize::MAX,
    ensures
        match out {
            Some(Some(a)) => lists::first_given(s.stack(c).len(), s.join_step(c)) == Some(Some(a@)),
            Some(None) => lists::first_given(s.stack(c).len(), s.join_step(c)) == Some(
                None::<ActionView>,
            ),
            None => lists::first_given(s.stack(c).len(), s.join_step(c)) is None,
        },
{
    let ghost f = s.join_step(c);
    for k in 0..stack.len()
        invariant
            s.recipe == recipe@,
            s.observed == observed@,
            holds_places(places@, s),
            holds_members(stack@, s.keys(), c),
            c < usize::MAX,
            f == s.join_step(c),
            forall|x: int| 0 <= x < k ==> (#[trigger] f(x)) is None,
    {
        let i: usize = stack[k];
        assert(s.stack(c)[k as int] == i);
        assert(as_place(places@[i as int]) == s.place(i as int));
        assert(s.recipe.windows[i as int] == recipe.windows@[i as int]@);
        let ghost given = f(k as int);
        proof {
            if given is Some {
                lists::first_given_is(s.stack(c).len(), f, k as int);
            }
        }
        if k > 0 {
            match places[i] {
                None => {
                    return Some(None);
                },
                Some(j) => {
                    assert(s.observed.windows[j as int] == observed.windows@[j as int]@);
                    let w: &RuntimeWindow = &observed.windows[j];
                    if !is_at(w.column, c) {
                        if !is_at(w.column, c + 1) {
                            return Some(
                                Some(
                                    Action::MoveColumnToIndex {
                                        name: recipe.windows[i].name.clone(),
                                        window_id: w.id,
                                        from: w.column,
                                        to: c + 1,
                                    },
                                ),
                            );
                        }
                        return Some(
                            Some(
                                Action::ConsumeLeft {
                                    name: recipe.windows[i].name.clone(),
                                    window_id: w.id,
                                    target_column: c,
                                },
                            ),
                        );
                    }
                },
            }
        }
    }
    proof {
        lists::first_given_none(s.stack(c).len(), f);
    }
    None
}

/// The first thing that a declared column needs.
fn find_column_action(
    recipe: &Recipe,
    observed: &ObservedState,
    places: &Vec<Option<usize>>,
    keys: &Vec<Option<usize>>,
    columns: &Vec<usize>,
    Ghost(s): Ghost<Scene>,
) -> (out: Option<Action>)
    requires
        s.recipe == recipe@,
        s.observed == observed@,
        holds_places(places@, s),
        keys@ == s.keys(),
        lists::lists_keys(columns@, s.keys()),
        columns@ == s.columns(),
        s.stack(usize::MAX).len() <= 1,
    ensures
        match out {
            Some(a) => s.column_action() == Some(a@),
            None => s.column_action() is None,
        },
{
    let ghost f = s.column_step();
    for n in 0..columns.len()
        invariant
            s.recipe == recipe@,
            s.observed == observed@,
            holds_places(places@, s),
            keys@ == s.keys(),
            lists::lists_keys(columns@, s.keys()),
            columns@ == s.columns(),
            s.stack(usize::MAX).len() <= 1,
            f == s.column_step(),
            forall|x: int| 0 <= x < n ==> (#[trigger] f(x)) is None,
    {
        let c: usize = columns[n];
        let stack: Vec<usize> = group_members(keys, c);
        proof {
            assert(columns@.contains(c));
            stack_is_not_empty(s, c);
            assert(holds_members(stack@, s.keys(), c));
        }
        let need: Option<Option<Action>> = column_need(
            recipe,
            observed,
            places,
            &stack,
            c,
            Ghost(s),
            Ghost(n as int),
        );
        if let Some(action) = need {
            proof {
                lists::first_given_is(columns@.len(), f, n as int);
            }
            return action;
        }
    }
    proof {
        lists::first_given_none(columns@.len(), f);
    }
    None
}

/// The first logical window of a column that declares the column's width.
fn width_owner(recipe: &Recipe, stack: &Vec<usize>, c: usize, Ghost(s): Ghost<Scene>) -> (out:
    Option<usize>)
    requires
        s.recipe == recipe@,
        holds_members(stack@, s.keys(), c),
    ensures
        as_place(out) == lists::find(s.stack(c), s.declares_width()),
        out is Some ==> out->0 < recipe.windows@.len()
            && recipe.windows@[out->0 as int].layout.column_width is Some,
{
    let ghost p = s.declares_width();
    for k in 0..stack.len()
        invariant
            s.recipe == recipe@,
            holds_members(stack@, s.keys(), c),
            p == s.declares_width(),
            forall|x: int| 0 <= x < k ==> !p(#[trigger] s.stack(c)[x]),
    {
        let i: usize = stack[k];
        assert(s.stack(c)[k as int] == i);
        assert(s.recipe.windows[i as int] == recipe.windows@[i as int]@);
        if recipe.windows[i].layout.column_width.is_some() {
            proof {
                lists::first_is(s.stack(c), p, k as int);
            }
            return Some(i);
        }
    }
    proof {
        lists::first_is_none(s.stack(c), p);
    }
    None
}

/// The first logical window of a column that declares the column's display.
fn display_owner(recipe: &Recipe, stack: &Vec<usize>, c: usize, Ghost(s): Ghost<Scene>) -> (out:
    Option<usize>)
    requires
        s.recipe == recipe@,
        holds_members(stack@, s.keys(), c),
    ensures
        as_place(out) == lists::find(s.stack(c), s.declares_display()),
        out is Some ==> out->0 < recipe.windows@.len()
            && recipe.windows@[out->0 as int].layout.display is Some,
{
    let ghost p = s.declares_display();
    for k in 0..stack.len()
        invariant
            s.recipe == recipe@,
            holds_members(stack@, s.keys(), c),
            p == s.declares_display(),
            forall|x: int| 0 <= x < k ==> !p(#[trigger] s.stack(c)[x]),
    {
        let i: usize = stack[k];
        assert(s.stack(c)[k as int] == i);
        assert(s.recipe.windows[i as int] == recipe.windows@[i as int]@);
        if recipe.windows[i].layout.display.is_some() {
            proof {
                lists::first_is(s.stack(c), p, k as int);
            }
            return Some(i);
        }
    }
    proof {
        lists::first_is_none(s.stack(c), p);
    }
    None
}

fn find_width_change(
    recipe: &Recipe,
    observed: &ObservedState,
    fits: &Vec<Vec<TileFit>>,
    places: &Vec<Option<usize>>,
    keys: &Vec<Option<usize>>,
    columns: &Vec<usize>,
    Ghost(s): Ghost<Scene>,
) -> (out: Option<Action>)
    requires
        s.recipe == recipe@,
        s.observed == observed@,
        s.fits == fit_views(fits@),
        fits_cover(s.fits, s.recipe.windows.len(), s.observed.windows.len()),
        holds_places(places@, s),
        keys@ == s.keys(),
        lists::lists_keys(columns@, s.keys()),
        columns@ == s.columns(),
    ensures
        match out {
            Some(a) => s.width() == Some(a@),
            None => s.width() is None,
        },
{
    let ghost f = s.width_change();
    for n in 0..columns.len()
        invariant
            s.recipe == recipe@,
            s.observed == observed@,
            s.fits == fit_views(fits@),
            fits_cover(s.fits, s.recipe.windows.len(), s.observed.windows.len()),
            holds_places(places@, s),
            keys@ == s.keys(),
            lists::lists_keys(columns@, s.keys()),
            columns@ == s.columns(),
            f == s.width_change(),
            forall|x: int| 0 <= x < n ==> (#[trigger] f(x)) is None,
    {
        let c: usize = columns[n];
        let stack: Vec<usize> = group_members(keys, c);
        proof {
            assert(columns@.contains(c));
            stack_is_not_empty(s, c);
            assert(holds_members(stack@, s.keys(), c));
        }
        let first: usize = stack[0];
        assert(s.stack(c)[0] == first);
        assert(as_place(places@[first as int]) == s.place(first as int));
        assert(s.recipe.windows[first as int] == recipe.windows@[first as int]@);
        let owner: Option<usize> = width_owner(recipe, &stack, c, Ghost(s));
        let ghost given = f(n as int);
        if let Some(j) = places[first] {
            if let Some(i) = owner {
                assert(s.fits[i as int] == fits@[i as int]@);
                assert(s.fits[i as int].len() == observed.windows@.len());
                assert(s.observed.windows[j as int] == observed.windows@[j as int]@);
                assert(s.recipe.windows[i as int] == recipe.windows@[i as int]@);
                if !fits[i][j].width {
                    if let Some(size) = recipe.windows[i].layout.column_width {
                        proof {
                            lists::first_given_is(columns@.len(), f, n as int);
                        }
                        return Some(
                            Action::SetColumnWidth {
                                name: recipe.windows[first].name.clone(),
                                window_id: observed.windows[j].id,
                                column: c,
                                size,
                            },
                        );
                    }
                }
            }
        }
        assert(given is None);
    }
    proof {
        lists::first_given_none(columns@.len(), f);
    }
    None
}

fn find_height_change(
    recipe: &Recipe,
    observed: &ObservedState,
    fits: &Vec<Vec<TileFit>>,
    places: &Vec<Option<usize>>,
    Ghost(s): Ghost<Scene>,
) -> (out: Option<Action>)
    requires
        s.recipe == recipe@,
        s.observed == observed@,
        s.fits == fit_views(fits@),
        fits_cover(s.fits, s.recipe.windows.len(), s.observed.windows.len()),
        holds_places(places@, s),
    ensures
        match out {
            Some(a) => s.height() == Some(a@),
            None => s.height() is None,
        },
{
    let ghost f = s.height_change();
    for i in 0..recipe.windows.len()
        invariant
            s.recipe == recipe@,
            s.observed == observed@,
            s.fits == fit_views(fits@),
            fits_cover(s.fits, s.recipe.windows.len(), s.observed.windows.len()),
            holds_places(places@, s),
            f == s.height_change(),
            forall|x: int| 0 <= x < i ==> (#[trigger] f(x)) is None,
    {
        assert(as_place(places@[i as int]) == s.place(i as int));
        assert(s.recipe.windows[i as int] == recipe.windows@[i as int]@);
        let ghost given = f(i as int);
        if let Some(j) = places[i] {
            if let Some(size) = recipe.windows[i].layout.window_height {
                assert(s.fits[i as int] == fits@[i as int]@);
                assert(s.fits[i as int].len() == observed.windows@.len());
                assert(s.observed.windows[j as int] == observed.windows@[j as int]@);
                if !fits[i][j].height {
                    proof {
                        lists::first_given_is(recipe.windows@.len(), f, i as int);
                    }
                    return Some(
                        Action::SetWindowHeight {
                            name: recipe.windows[i].name.clone(),
                            window_id: observed.windows[j].id,
                            size,
                        },
                    );
                }
            }
        }
        assert(given is None);
    }
    proof {
        lists::first_given_none(recipe.windows@.len(), f);
    }
    None
}

/// The display of every declared column that gives one.
fn display_changes(
    recipe: &Recipe,
    resolved: &NameMap<u64>,
    keys: &Vec<Option<usize>>,
    columns: &Vec<usize>,
    Ghost(s): Ghost<Scene>,
) -> (out: Vec<Action>)
    requires
        s.recipe == recipe@,
        s.resolved == resolved@,
        keys@ == s.keys(),
        lists::lists_keys(columns@, s.keys()),
        columns@ == s.columns(),
    ensures
        action_views(out@) == s.displays(),
{
    let mut out: Vec<Action> = Vec::new();
    let ghost f = s.display_change();
    for n in 0..columns.len()
        invariant
            s.recipe == recipe@,
            s.resolved == resolved@,
            keys@ == s.keys(),
            lists::lists_keys(columns@, s.keys()),
            columns@ == s.columns(),
            f == s.display_change(),
            action_views(out@) == lists::gather(n as nat, f),
    {
        let ghost before = out@;
        let c: usize = columns[n];
        let stack: Vec<usize> = group_members(keys, c);
        proof {
            assert(columns@.contains(c));
            stack_is_not_empty(s, c);
            assert(holds_members(stack@, s.keys(), c));
        }
        let first: usize = stack[0];
        assert(s.stack(c)[0] == first);
        assert(s.recipe.windows[first as int] == recipe.windows@[first as int]@);
        let ghost given = f(n as int);
        let owner: Option<usize> = display_owner(recipe, &stack, c, Ghost(s));
        if let Some(i) = owner {
            assert(s.recipe.windows[i as int] == recipe.windows@[i as int]@);
            if let Some(id) = resolved.get(recipe.windows[first].name.as_str()) {
                if let Some(display) = recipe.windows[i].layout.display {
                    out.push(
                        Action::SetColumnDisplay {
                            name: recipe.windows[first].name.clone(),
                            window_id: *id,
                            column: c,
                            display,
                        },
                    );
                    assert(action_views(out@) =~= action_views(before).push(given->0));
                }
            }
        }
    }
    out
}

/// The displays do not depend on what is observed.
pub proof fn displays_ignore_the_state(s: Scene, t: Scene)
    requires
        s.recipe == t.recipe,
        s.resolved == t.resolved,
    ensures
        s.displays() == t.displays(),
{
    let f = s.display_change();
    let g = t.display_change();
    assert forall|n: int| 0 <= n < s.columns().len() implies #[trigger] f(n) == g(n) by {
        assert(s.declares_display() =~= t.declares_display());
    }
    lists::gather_agrees(s.columns().len(), f, g);
}

/// The display of every declared column that gives one, whatever is observed.
pub fn declared_display_actions(recipe: &Recipe, resolved: &NameMap<u64>) -> (out: Vec<Action>)
    ensures
        forall|s: Scene|
            s.recipe == recipe@ && s.resolved == resolved@ ==> action_views(out@)
                == #[trigger] s.displays(),
{
    let ghost s = Scene {
        recipe: recipe@,
        observed: StateView {
            windows: Seq::empty(),
            workspaces: Seq::empty(),
            outputs: Seq::empty(),
        },
        resolved: resolved@,
        workspace_id: 0,
        fits: Seq::empty(),
    };
    let keys: Vec<Option<usize>> = keys_of(&recipe.windows);
    let columns: Vec<usize> = group_keys(&keys);
    let out: Vec<Action> = display_changes(recipe, resolved, &keys, &columns, Ghost(s));
    proof {
        assert forall|t: Scene| t.recipe == recipe@ && t.resolved == resolved@ implies action_views(
            out@,
        ) == #[trigger] t.displays() by {
            displays_ignore_the_state(s, t);
        }
    }
    out
}

/// Plans the next actions towards the layout that `recipe` declares.
///
/// `resolved` binds logical windows to observed ones, and `fits` says of each
/// logical window and each observed one whether the tile has the declared
/// extents.
pub fn build_reconcile_plan(
    recipe: &Recipe,
    observed: &ObservedState,
    resolved: &NameMap<u64>,
    workspace_id: u64,
    fits: &Vec<Vec<TileFit>>,
    include_display_reassertions: bool,
) -> (out: ReconcilePlan)
    requires
        fits_cover(fit_views(fits@), recipe.windows@.len(), observed.windows@.len()),
        lists::members(column_keys(recipe@.windows), usize::MAX).len() <= 1,
    ensures
        out@ == scene_of(recipe, observed, resolved, workspace_id, fits).plan(
            include_display_reassertions,
        ),
{
    let ghost s = scene_of(recipe, observed, resolved, workspace_id, fits);
    let places: Vec<Option<usize>> = places_of(recipe, observed, resolved, Ghost(s));
    let moves: Vec<Action> = workspace_moves(recipe, observed, workspace_id, &places, Ghost(s));
    if moves.len() > 0 {
        return ReconcilePlan { actions: moves };
    }
    let floats: Vec<Action> = floating_changes(recipe, observed, &places, Ghost(s));
    if floats.len() > 0 {
        return ReconcilePlan { actions: floats };
    }
    let keys: Vec<Option<usize>> = keys_of(&recipe.windows);
    let columns: Vec<usize> = group_keys(&keys);
    let expel: Option<Action> = find_wrong_group(
        recipe,
        observed,
        resolved,
        workspace_id,
        &keys,
        &columns,
        Ghost(s),
    );
    if let Some(action) = expel {
        return single(action);
    }
    let column: Option<Action> = find_column_action(
        recipe,
        observed,
        &places,
        &keys,
        &columns,
        Ghost(s),
    );
    if let Some(action) = column {
        return single(action);
    }
    let width: Option<Action> = find_width_change(
        recipe,
        observed,
        fits,
        &places,
        &keys,
        &columns,
        Ghost(s),
    );
    if let Some(action) = width {
        return single(action);
    }
    let height: Option<Action> = find_height_change(recipe, observed, fits, &places, Ghost(s));
    if let Some(action) = height {
        return single(action);
    }
    let mut actions: Vec<Action> = if include_display_reassertions {
        display_changes(recipe, resolved, &keys, &columns, Ghost(s))
    } else {
        Vec::new()
    };
    let ghost shown = actions@;
    if let Some(focus) = &recipe.focus {
        if let Some(id) = resolved.get(focus.as_str()) {
            if !is_on(observed.focused_window_id(), *id) {
                actions.push(Action::Focus { name: focus.clone(), window_id: *id });
            }
        }
    }
    assert(action_views(actions@) =~= action_views(shown) + s.focus_change());
    assert(!include_display_reassertions ==> action_views(actions@) =~= s.focus_change());
    ReconcilePlan { actions }
}

fn single(action: Action) -> (out: ReconcilePlan)
    ensures
        out@ == seq![action@],
{
    let mut actions: Vec<Action> = Vec::new();
    actions.push(action);
    assert(action_views(actions@) =~= seq![action@]);
    ReconcilePlan { actions }
}

} // verus!
