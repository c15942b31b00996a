//! Recipes, as a configuration declares them, and the compositor's state, as it
//! was last observed.
use crate::lists;
use crate::names::NameMap;
use crate::text;
use crate::text::{copy_list, copy_opt, str_eq};
use vstd::prelude::*;

verus! {

/// The whole configuration: recipes by their key.
#[derive(Debug, Clone, PartialEq)]
pub struct Config {
    pub workbench: NameMap<Recipe>,
}

/// One workbench: a named workspace and the windows that belong on it.
#[derive(Debug, PartialEq)]
pub struct Recipe {
    pub name: Option<String>,
    pub workspace: String,
    pub output: Option<String>,
    pub output_fallback: OutputFallback,
    pub focus: Option<String>,
    pub spawn_timeout_ms: u64,
    pub windows: Vec<WindowSpec>,
}

/// One logical window of a recipe.
#[derive(Debug, PartialEq)]
pub struct WindowSpec {
    pub name: String,
    pub command: Vec<String>,
    pub match_spec: MatchSpec,
    pub reuse: ReusePolicy,
    pub layout: PlacementSpec,
}

/// The signals by which a window is recognised. Those that are given must all
/// agree.
#[derive(Debug, PartialEq)]
pub struct MatchSpec {
    pub window_id: Option<u64>,
    pub app_id: Option<String>,
    pub title: Option<String>,
    pub process: Option<String>,
    pub cwd: Option<String>,
    pub pid: Option<i32>,
}

/// Whether a window that is already open may be taken.
#[derive(Debug, Clone, Copy, PartialEq, Eq, Structural)]
pub enum ReusePolicy {
    Unique,
    Never,
}

/// Where a window belongs.
#[derive(Debug, PartialEq)]
pub struct PlacementSpec {
    pub column: usize,
    pub column_width: Option<Size>,
    pub window_height: Option<Size>,
    pub display: Option<ColumnDisplay>,
    pub floating: bool,
    pub output: Option<String>,
}

/// How a column shows its windows.
#[derive(Debug, Clone, Copy, PartialEq, Eq, Structural)]
pub enum ColumnDisplay {
    Normal,
    Tabbed,
}

/// What to do where the declared output is not connected.
#[derive(Debug, Clone, Copy, PartialEq, Eq, Structural)]
pub enum OutputFallback {
    Focused,
    Error,
}

/// A declared extent: a share of the output, or logical pixels.
///
/// A share is held as the IEEE 754 bits of its ratio, a double in `(0, 1]`.
#[derive(Debug, Clone, Copy, PartialEq, Eq, Structural)]
pub enum Size {
    Percent(u64),
    Pixels(i32),
}

/// A window that the compositor shows. The extents of its tile, in logical
/// pixels, are held as the IEEE 754 bits of a double.
#[derive(Debug, PartialEq)]
pub struct RuntimeWindow {
    pub id: u64,
    pub title: Option<String>,
    pub app_id: Option<String>,
    pub pid: Option<i32>,
    pub process_exe: Option<String>,
    pub cwd: Option<String>,
    pub workspace_id: Option<u64>,
    pub is_focused: bool,
    pub is_floating: bool,
    pub column: Option<usize>,
    pub tile_index: Option<usize>,
    pub tile_width: u64,
    pub tile_height: u64,
}

/// A workspace that the compositor shows.
#[derive(Debug, PartialEq)]
pub struct RuntimeWorkspace {
    pub id: u64,
    pub index: u8,
    pub name: Option<String>,
    pub output: Option<String>,
    pub is_active: bool,
    pub is_focused: bool,
}

/// A connected output and its extents in logical pixels, where they are known.
#[derive(Debug, PartialEq)]
pub struct OutputInfo {
    pub name: String,
    pub width: Option<u32>,
    pub height: Option<u32>,
}

/// All that was observed at one moment.
#[derive(Debug, Clone, PartialEq)]
pub struct ObservedState {
    pub windows: Vec<RuntimeWindow>,
    pub workspaces: Vec<RuntimeWorkspace>,
    pub outputs: Vec<OutputInfo>,
}

// Models

#[verifier::ext_equal]
pub struct MatchView {
    pub window_id: Option<u64>,
    pub app_id: Option<Seq<char>>,
    pub title: Option<Seq<char>>,
    pub process: Option<Seq<char>>,
    pub cwd: Option<Seq<char>>,
    pub pid: Option<i32>,
}

#[verifier::ext_equal]
pub struct PlacementView {
    pub column: usize,
    pub column_width: Option<Size>,
    pub window_height: Option<Size>,
    pub display: Option<ColumnDisplay>,
    pub floating: bool,
    pub output: Option<Seq<char>>,
}

#[verifier::ext_equal]
pub struct WindowView {
    pub name: Seq<char>,
    pub command: Seq<Seq<char>>,
    pub match_spec: MatchView,
    pub reuse: ReusePolicy,
    pub layout: PlacementView,
}

#[verifier::ext_equal]
pub struct RecipeView {
    pub name: Option<Seq<char>>,
    pub workspace: Seq<char>,
    pub output: Option<Seq<char>>,
    pub output_fallback: OutputFallback,
    pub focus: Option<Seq<char>>,
    pub spawn_timeout_ms: u64,
    pub windows: Seq<WindowView>,
}

#[verifier::ext_equal]
pub struct RuntimeView {
    pub id: u64,
    pub title: Option<Seq<char>>,
    pub app_id: Option<Seq<char>>,
    pub pid: Option<i32>,
    pub process_exe: Option<Seq<char>>,
    pub cwd: Option<Seq<char>>,
    pub workspace_id: Option<u64>,
    pub is_focused: bool,
    pub is_floating: bool,
    pub column: Option<usize>,
    pub tile_index: Option<usize>,
    pub tile_width: u64,
    pub tile_height: u64,
}

#[verifier::ext_equal]
pub struct WorkspaceView {
    pub id: u64,
    pub index: u8,
    pub name: Option<Seq<char>>,
    pub output: Option<Seq<char>>,
    pub is_active: bool,
    pub is_focused: bool,
}

#[verifier::ext_equal]
pub struct OutputView {
    pub name: Seq<char>,
    pub width: Option<u32>,
    pub height: Option<u32>,
}

#[verifier::ext_equal]
pub struct StateView {
    pub windows: Seq<RuntimeView>,
    pub workspaces: Seq<WorkspaceView>,
    pub outputs: Seq<OutputView>,
}

impl View for MatchSpec {
    type V = MatchView;

    open spec fn view(&self) -> MatchView {
        MatchView {
            window_id: self.window_id,
            app_id: text::opt_text(self.app_id),
            title: text::opt_text(self.title),
            process: text::opt_text(self.process),
            cwd: text::opt_text(self.cwd),
            pid: self.pid,
        }
    }
}

impl View for PlacementSpec {
    type V = PlacementView;

    open spec fn view(&self) -> PlacementView {
        PlacementView {
            column: self.column,
            column_width: self.column_width,
            window_height: self.window_height,
            display: self.display,
            floating: self.floating,
            output: text::opt_text(self.output),
        }
    }
}

impl View for WindowSpec {
    type V = WindowView;

    open spec fn view(&self) -> WindowView {
        WindowView {
            name: self.name@,
            command: text::texts(self.command@),
            match_spec: self.match_spec@,
            reuse: self.reuse,
            layout: self.layout@,
        }
    }
}

/// The models of a list of logical windows.
pub open spec fn window_views(v: Seq<WindowSpec>) -> Seq<WindowView> {
    v.map_values(|w: WindowSpec| w@)
}

impl View for Recipe {
    type V = RecipeView;

    open spec fn view(&self) -> RecipeView {
        RecipeView {
            name: text::opt_text(self.name),
            workspace: self.workspace@,
            output: text::opt_text(self.output),
            output_fallback: self.output_fallback,
            focus: text::opt_text(self.focus),
            spawn_timeout_ms: self.spawn_timeout_ms,
            windows: window_views(self.windows@),
        }
    }
}

impl View for Config {
    type V = Seq<(Seq<char>, RecipeView)>;

    open spec fn view(&self) -> Seq<(Seq<char>, RecipeView)> {
        self.workbench@.map_values(|e: (Seq<char>, Recipe)| (e.0, e.1@))
    }
}

impl View for RuntimeWindow {
    type V = RuntimeView;

    open spec fn view(&self) -> RuntimeView {
        RuntimeView {
            id: self.id,
            title: text::opt_text(self.title),
            app_id: text::opt_text(self.app_id),
            pid: self.pid,
            process_exe: text::opt_text(self.process_exe),
            cwd: text::opt_text(self.cwd),
            workspace_id: self.workspace_id,
            is_focused: self.is_focused,
            is_floating: self.is_floating,
            column: self.column,
            tile_index: self.tile_index,
            tile_width: self.tile_width,
            tile_height: self.tile_height,
        }
    }
}

impl View for RuntimeWorkspace {
    type V = WorkspaceView;

    open spec fn view(&self) -> WorkspaceView {
        WorkspaceView {
            id: self.id,
            index: self.index,
            name: text::opt_text(self.name),
            output: text::opt_text(self.output),
            is_active: self.is_active,
            is_focused: self.is_focused,
        }
    }
}

impl View for OutputInfo {
    type V = OutputView;

    open spec fn view(&self) -> OutputView {
        OutputView { name: self.name@, width: self.width, height: self.height }
    }
}

/// The models of a list of observed windows.
pub open spec fn runtime_views(v: Seq<RuntimeWindow>) -> Seq<RuntimeView> {
    v.map_values(|w: RuntimeWindow| w@)
}

pub open spec fn workspace_views(v: Seq<RuntimeWorkspace>) -> Seq<WorkspaceView> {
    v.map_values(|w: RuntimeWorkspace| w@)
}

pub open spec fn output_views(v: Seq<OutputInfo>) -> Seq<OutputView> {
    v.map_values(|o: OutputInfo| o@)
}

impl View for ObservedState {
    type V = StateView;

    open spec fn view(&self) -> StateView {
        StateView {
            windows: runtime_views(self.windows@),
            workspaces: workspace_views(self.workspaces@),
            outputs: output_views(self.outputs@),
        }
    }
}

// Defaults

/// How long a started window is waited for, in milliseconds, where a recipe
/// does not say.
pub fn default_spawn_timeout_ms() -> (out: u64)
    ensures
        out == 10_000,
{
    10_000
}

/// The column of a window whose recipe does not give one.
pub fn default_column() -> (out: usize)
    ensures
        out == 1,
{
    1
}

pub open spec fn default_match() -> MatchView {
    MatchView { window_id: None, app_id: None, title: None, process: None, cwd: None, pid: None }
}

pub open spec fn default_placement() -> PlacementView {
    PlacementView {
        column: 1,
        column_width: None,
        window_height: None,
        display: None,
        floating: false,
        output: None,
    }
}

impl Default for MatchSpec {
    fn default() -> (out: Self)
        ensures
            out@ == default_match(),
    {
        MatchSpec { window_id: None, app_id: None, title: None, process: None, cwd: None, pid: None }
    }
}

impl Default for PlacementSpec {
    fn default() -> (out: Self)
        ensures
            out@ == default_placement(),
    {
        PlacementSpec {
            column: default_column(),
            column_width: None,
            window_height: None,
            display: None,
            floating: false,
            output: None,
        }
    }
}

impl Default for ReusePolicy {
    fn default() -> (out: Self)
        ensures
            out == ReusePolicy::Unique,
    {
        ReusePolicy::Unique
    }
}

impl Default for OutputFallback {
    fn default() -> (out: Self)
        ensures
            out == OutputFallback::Focused,
    {
        OutputFallback::Focused
    }
}

impl Default for ObservedState {
    fn default() -> (out: Self)
        ensures
            out@.windows.len() == 0,
            out@.workspaces.len() == 0,
            out@.outputs.len() == 0,
    {
        ObservedState { windows: Vec::new(), workspaces: Vec::new(), outputs: Vec::new() }
    }
}

// Copies

impl Clone for MatchSpec {
    fn clone(&self) -> (out: Self)
        ensures
            out@ == self@,
    {
        MatchSpec {
            window_id: self.window_id,
            app_id: copy_opt(&self.app_id),
            title: copy_opt(&self.title),
            process: copy_opt(&self.process),
            cwd: copy_opt(&self.cwd),
            pid: self.pid,
        }
    }
}

impl Clone for PlacementSpec {
    fn clone(&self) -> (out: Self)
        ensures
            out@ == self@,
    {
        PlacementSpec {
            column: self.column,
            column_width: self.column_width,
            window_height: self.window_height,
            display: self.display,
            floating: self.floating,
            output: copy_opt(&self.output),
        }
    }
}

impl Clone for WindowSpec {
    fn clone(&self) -> (out: Self)
        ensures
            out@ == self@,
    {
        WindowSpec {
            name: self.name.clone(),
            command: copy_list(&self.command),
            match_spec: self.match_spec.clone(),
            reuse: self.reuse,
            layout: self.layout.clone(),
        }
    }
}

/// A copy of a list of logical windows.
pub fn copy_windows(v: &Vec<WindowSpec>) -> (out: Vec<WindowSpec>)
    ensures
        window_views(out@) == window_views(v@),
{
    let mut out: Vec<WindowSpec> = Vec::new();
    for i in 0..v.len()
        invariant
            out@.len() == i,
            forall|k: int| 0 <= k < i ==> (#[trigger] out@[k])@ == v@[k]@,
    {
        out.push(v[i].clone());
    }
    assert(window_views(out@) =~= window_views(v@));
    out
}

impl Clone for Recipe {
    fn clone(&self) -> (out: Self)
        ensures
            out@ == self@,
    {
        Recipe {
            name: copy_opt(&self.name),
            workspace: self.workspace.clone(),
            output: copy_opt(&self.output),
            output_fallback: self.output_fallback,
            focus: copy_opt(&self.focus),
            spawn_timeout_ms: self.spawn_timeout_ms,
            windows: copy_windows(&self.windows),
        }
    }
}

impl Clone for RuntimeWindow {
    fn clone(&self) -> (out: Self)
        ensures
            out@ == self@,
    {
        RuntimeWindow {
            id: self.id,
            title: copy_opt(&self.title),
            app_id: copy_opt(&self.app_id),
            pid: self.pid,
            process_exe: copy_opt(&self.process_exe),
            cwd: copy_opt(&self.cwd),
            workspace_id: self.workspace_id,
            is_focused: self.is_focused,
            is_floating: self.is_floating,
            column: self.column,
            tile_index: self.tile_index,
            tile_width: self.tile_width,
            tile_height: self.tile_height,
        }
    }
}

impl Clone for RuntimeWorkspace {
    fn clone(&self) -> (out: Self)
        ensures
            out@ == self@,
    {
        RuntimeWorkspace {
            id: self.id,
            index: self.index,
            name: copy_opt(&self.name),
            output: copy_opt(&self.output),
            is_active: self.is_active,
            is_focused: self.is_focused,
        }
    }
}

impl Clone for OutputInfo {
    fn clone(&self) -> (out: Self)
        ensures
            out@ == self@,
    {
        OutputInfo { name: self.name.clone(), width: self.width, height: self.height }
    }
}

// Looking things up in a state

pub open spec fn has_id(id: u64) -> spec_fn(RuntimeView) -> bool {
    |w: RuntimeView| w.id == id
}

pub open spec fn focused() -> spec_fn(RuntimeView) -> bool {
    |w: RuntimeView| w.is_focused
}

pub open spec fn workspace_has_id(id: u64) -> spec_fn(WorkspaceView) -> bool {
    |w: WorkspaceView| w.id == id
}

pub open spec fn workspace_focused() -> spec_fn(WorkspaceView) -> bool {
    |w: WorkspaceView| w.is_focused
}

pub open spec fn workspace_named(name: Seq<char>) -> spec_fn(WorkspaceView) -> bool {
    |w: WorkspaceView| w.name == Some(name)
}

pub open spec fn output_named(name: Seq<char>) -> spec_fn(OutputView) -> bool {
    |o: OutputView| o.name == name
}

impl StateView {
    /// The first observed window with this identifier.
    pub open spec fn window(self, id: u64) -> Option<RuntimeView> {
        lists::find(self.windows, has_id(id))
    }

    /// The identifier of the first window that has the focus.
    pub open spec fn focused_window_id(self) -> Option<u64> {
        match lists::find(self.windows, focused()) {
            Some(w) => Some(w.id),
            None => None,
        }
    }

    /// The first workspace that has the focus.
    pub open spec fn focused_workspace(self) -> Option<WorkspaceView> {
        lists::find(self.workspaces, workspace_focused())
    }

    /// The first workspace with this identifier.
    pub open spec fn workspace(self, id: u64) -> Option<WorkspaceView> {
        lists::find(self.workspaces, workspace_has_id(id))
    }

    /// The first workspace of this name.
    pub open spec fn named_workspace(self, name: Seq<char>) -> Option<WorkspaceView> {
        lists::find(self.workspaces, workspace_named(name))
    }

    /// The first output of this name.
    pub open spec fn output(self, name: Seq<char>) -> Option<OutputView> {
        lists::find(self.outputs, output_named(name))
    }
}

/// The place of the first window of `windows` with this identifier.
pub fn window_place(windows: &Vec<RuntimeWindow>, id: u64) -> (out: Option<usize>)
    ensures
        match out {
            Some(i) => lists::first_where(runtime_views(windows@), has_id(id)) == Some(i as int)
                && i < windows@.len() && windows@[i as int].id == id,
            None => lists::first_where(runtime_views(windows@), has_id(id)) is None,
        },
{
    let ghost views = runtime_views(windows@);
    for i in 0..windows.len()
        invariant
            views == runtime_views(windows@),
            forall|k: int| 0 <= k < i ==> !has_id(id)(#[trigger] views[k]),
    {
        assert(views[i as int] == windows@[i as int]@);
        if windows[i].id == id {
            proof {
                lists::first_is(views, has_id(id), i as int);
            }
            return Some(i);
        }
    }
    proof {
        lists::first_is_none(views, has_id(id));
    }
    None
}

impl ObservedState {
    /// The first observed window with this identifier.
    pub fn window(&self, id: u64) -> (out: Option<&RuntimeWindow>)
        ensures
            match out {
                Some(w) => self@.window(id) == Some(w@),
                None => self@.window(id) is None,
            },
    {
        match window_place(&self.windows, id) {
            Some(i) => {
                assert(self@.windows[i as int] == self.windows@[i as int]@);
                Some(&self.windows[i])
            },
            None => None,
        }
    }

    /// The identifier of the first window that has the focus.
    pub fn focused_window_id(&self) -> (out: Option<u64>)
        ensures
            out == self@.focused_window_id(),
    {
        let ghost views = self@.windows;
        for i in 0..self.windows.len()
            invariant
                views == runtime_views(self.windows@),
                forall|k: int| 0 <= k < i ==> !focused()(#[trigger] views[k]),
        {
            assert(views[i as int] == self.windows@[i as int]@);
            if self.windows[i].is_focused {
                proof {
                    lists::first_is(views, focused(), i as int);
                }
                return Some(self.windows[i].id);
            }
        }
        proof {
            lists::first_is_none(views, focused());
        }
        None
    }

    /// The first workspace that has the focus.
    pub fn focused_workspace(&self) -> (out: Option<&RuntimeWorkspace>)
        ensures
            match out {
                Some(w) => self@.focused_workspace() == Some(w@),
                None => self@.focused_workspace() is None,
            },
    {
        let ghost views = self@.workspaces;
        for i in 0..self.workspaces.len()
            invariant
                views == workspace_views(self.workspaces@),
                forall|k: int| 0 <= k < i ==> !workspace_focused()(#[trigger] views[k]),
        {
            assert(views[i as int] == self.workspaces@[i as int]@);
            if self.workspaces[i].is_focused {
                proof {
                    lists::first_is(views, workspace_focused(), i as int);
                }
                return Some(&self.workspaces[i]);
            }
        }
        proof {
            lists::first_is_none(views, workspace_focused());
        }
        None
    }

    /// The first workspace with this identifier.
    pub fn workspace(&self, id: u64) -> (out: Option<&RuntimeWorkspace>)
        ensures
            match out {
                Some(w) => self@.workspace(id) == Some(w@),
                None => self@.workspace(id) is None,
            },
    {
        let ghost views = self@.workspaces;
        for i in 0..self.workspaces.len()
            invariant
                views == workspace_views(self.workspaces@),
                forall|k: int| 0 <= k < i ==> !workspace_has_id(id)(#[trigger] views[k]),
        {
            assert(views[i as int] == self.workspaces@[i as int]@);
            if self.workspaces[i].id == id {
                proof {
                    lists::first_is(views, workspace_has_id(id), i as int);
                }
                return Some(&self.workspaces[i]);
            }
        }
        proof {
            lists::first_is_none(views, workspace_has_id(id));
        }
        None
    }

    /// The first workspace of this name.
    pub fn named_workspace(&self, name: &str) -> (out: Option<&RuntimeWorkspace>)
        ensures
            match out {
                Some(w) => self@.named_workspace(name@) == Some(w@),
                None => self@.named_workspace(name@) is None,
            },
    {
        let ghost views = self@.workspaces;
        for i in 0..self.workspaces.len()
            invariant
                views == workspace_views(self.workspaces@),
                forall|k: int| 0 <= k < i ==> !workspace_named(name@)(#[trigger] views[k]),
        {
            assert(views[i as int] == self.workspaces@[i as int]@);
            if text::opt_is(&self.workspaces[i].name, name) {
                proof {
                    lists::first_is(views, workspace_named(name@), i as int);
                }
                return Some(&self.workspaces[i]);
            }
        }
        proof {
            lists::first_is_none(views, workspace_named(name@));
        }
        None
    }

    /// The first output of this name.
    pub fn output(&self, name: &str) -> (out: Option<&OutputInfo>)
        ensures
            match out {
                Some(o) => self@.output(name@) == Some(o@),
                None => self@.output(name@) is None,
            },
    {
        let ghost views = self@.outputs;
        for i in 0..self.outputs.len()
            invariant
                views == output_views(self.outputs@),
                forall|k: int| 0 <= k < i ==> !output_named(name@)(#[trigger] views[k]),
        {
            assert(views[i as int] == self.outputs@[i as int]@);
            if str_eq(self.outputs[i].name.as_str(), name) {
                proof {
                    lists::first_is(views, output_named(name@), i as int);
                }
                return Some(&self.outputs[i]);
            }
        }
        proof {
            lists::first_is_none(views, output_named(name@));
        }
        None
    }
}

} // verus!
