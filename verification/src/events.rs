//! Keeping an observed state up to date from the compositor's events.
use crate::lists;
use crate::model;
use crate::model::{
    window_place, ObservedState, RuntimeView, RuntimeWindow, RuntimeWorkspace, StateView,
    WorkspaceView,
};
use crate::text;
use crate::text::{copy_opt, opt_eq};
use vstd::prelude::*;

verus! {

/// The new place and extents of a tile. The extents are held as the IEEE 754 bits
/// of a double.
#[derive(Debug, Clone, Copy, PartialEq, Eq)]
pub struct LayoutChange {
    pub id: u64,
    pub position: Option<(usize, usize)>,
    pub tile_width: u64,
    pub tile_height: u64,
}

/// What the compositor reports.
#[derive(Debug, PartialEq)]
pub enum Event {
    WorkspacesChanged(Vec<RuntimeWorkspace>),
    WindowsChanged(Vec<RuntimeWindow>),
    WindowOpenedOrChanged(RuntimeWindow),
    WindowClosed(u64),
    WindowFocusChanged(Option<u64>),
    WindowLayoutsChanged(Vec<LayoutChange>),
    WorkspaceActivated { id: u64, focused: bool },
}

#[verifier::ext_equal]
pub enum EventView {
    WorkspacesChanged(Seq<WorkspaceView>),
    WindowsChanged(Seq<RuntimeView>),
    WindowOpenedOrChanged(RuntimeView),
    WindowClosed(u64),
    WindowFocusChanged(Option<u64>),
    WindowLayoutsChanged(Seq<LayoutChange>),
    WorkspaceActivated { id: u64, focused: bool },
}

impl View for Event {
    type V = EventView;

    open spec fn view(&self) -> EventView {
        match *self {
            Event::WorkspacesChanged(v) => EventView::WorkspacesChanged(model::workspace_views(v@)),
            Event::WindowsChanged(v) => EventView::WindowsChanged(model::runtime_views(v@)),
            Event::WindowOpenedOrChanged(w) => EventView::WindowOpenedOrChanged(w@),
            Event::WindowClosed(id) => EventView::WindowClosed(id),
            Event::WindowFocusChanged(id) => EventView::WindowFocusChanged(id),
            Event::WindowLayoutsChanged(v) => EventView::WindowLayoutsChanged(v@),
            Event::WorkspaceActivated { id, focused } => EventView::WorkspaceActivated {
                id,
                focused,
            },
        }
    }
}

// What each event does

/// The windows without the focus.
pub open spec fn all_unfocused(ws: Seq<RuntimeView>) -> Seq<RuntimeView> {
    ws.map_values(|w: RuntimeView| RuntimeView { is_focused: false, ..w })
}

/// The windows with `w` in place of the first of its identifier, or behind all
/// others. Where `w` has the focus no other keeps it.
pub open spec fn with_window(ws: Seq<RuntimeView>, w: RuntimeView) -> Seq<RuntimeView> {
    let rest = if w.is_focused {
        all_unfocused(ws)
    } else {
        ws
    };
    match lists::first_where(rest, model::has_id(w.id)) {
        Some(i) => rest.update(i, w),
        None => rest.push(w),
    }
}

pub open spec fn kept_open(ws: Seq<RuntimeView>, id: u64) -> spec_fn(int) -> Option<RuntimeView> {
    |i: int|
        if ws[i].id != id {
            Some(ws[i])
        } else {
            None
        }
}

/// The windows but for those of this identifier.
pub open spec fn without_window(ws: Seq<RuntimeView>, id: u64) -> Seq<RuntimeView> {
    lists::gather(ws.len(), kept_open(ws, id))
}

/// The windows with the focus where `id` says.
pub open spec fn with_focus(ws: Seq<RuntimeView>, id: Option<u64>) -> Seq<RuntimeView> {
    ws.map_values(|w: RuntimeView| RuntimeView { is_focused: id == Some(w.id), ..w })
}

/// A window at its new place and with its new extents.
pub open spec fn with_layout(w: RuntimeView, c: LayoutChange) -> RuntimeView {
    RuntimeView {
        column: match c.position {
            Some(p) => Some(p.0),
            None => None,
        },
        tile_index: match c.position {
            Some(p) => Some(p.1),
            None => None,
        },
        tile_width: c.tile_width,
        tile_height: c.tile_height,
        ..w
    }
}

/// The windows after one change of a tile.
pub open spec fn with_change(ws: Seq<RuntimeView>, c: LayoutChange) -> Seq<RuntimeView> {
    match lists::first_where(ws, model::has_id(c.id)) {
        Some(i) => ws.update(i, with_layout(ws[i], c)),
        None => ws,
    }
}

/// The windows after changes of tiles, one after the other.
pub open spec fn with_changes(ws: Seq<RuntimeView>, cs: Seq<LayoutChange>) -> Seq<RuntimeView>
    decreases cs.len(),
{
    if cs.len() == 0 {
        ws
    } else {
        with_change(with_changes(ws, cs.drop_last()), cs.last())
    }
}

/// A workspace after the one of identifier `id` on `output` became active.
pub open spec fn after_activation(
    w: WorkspaceView,
    id: u64,
    focused: bool,
    output: Option<Seq<char>>,
) -> WorkspaceView {
    WorkspaceView {
        is_active: if output is Some && w.output == output {
            w.id == id
        } else {
            w.is_active
        },
        is_focused: if focused {
            w.id == id
        } else {
            w.is_focused
        },
        ..w
    }
}

/// The output of the first workspace of this identifier.
pub open spec fn output_of(ws: Seq<WorkspaceView>, id: u64) -> Option<Seq<char>> {
    match lists::find(ws, model::workspace_has_id(id)) {
        Some(w) => w.output,
        None => None,
    }
}

/// The workspaces after one became active, and with it the focused one where
/// `focused` says so. It is the only active one of its output.
pub open spec fn with_active(ws: Seq<WorkspaceView>, id: u64, focused: bool) -> Seq<WorkspaceView> {
    let output = output_of(ws, id);
    ws.map_values(|w: WorkspaceView| after_activation(w, id, focused, output))
}

/// What an event makes of a state.
pub open spec fn after_event(s: StateView, e: EventView) -> StateView {
    match e {
        EventView::WorkspacesChanged(workspaces) => StateView { workspaces, ..s },
        EventView::WindowsChanged(windows) => StateView { windows, ..s },
        EventView::WindowOpenedOrChanged(w) => StateView { windows: with_window(s.windows, w), ..s },
        EventView::WindowClosed(id) => StateView { windows: without_window(s.windows, id), ..s },
        EventView::WindowFocusChanged(id) => StateView { windows: with_focus(s.windows, id), ..s },
        EventView::WindowLayoutsChanged(cs) => StateView {
            windows: with_changes(s.windows, cs),
            ..s
        },
        EventView::WorkspaceActivated { id, focused } => StateView {
            workspaces: with_active(s.workspaces, id, focused),
            ..s
        },
    }
}

fn take_focus(windows: &mut Vec<RuntimeWindow>)
    ensures
        model::runtime_views(final(windows)@) == all_unfocused(model::runtime_views(old(windows)@)),
{
    let ghost before = model::runtime_views(windows@);
    let n: usize = windows.len();
    for i in 0..n
        invariant
            n == windows@.len(),
            n == before.len(),
            forall|k: int| 0 <= k < i ==> (#[trigger] windows@[k])@ == all_unfocused(before)[k],
            forall|k: int| i <= k < n ==> (#[trigger] windows@[k])@ == before[k],
    {
        let ghost w0 = windows@;
        windows[i].is_focused = false;
        assert forall|k: int| 0 <= k < n && k != i implies (#[trigger] windows@[k])@ == w0[k]@ by {}
        assert(windows@[i as int]@ =~= all_unfocused(before)[i as int]);
    }
    assert(model::runtime_views(windows@) =~= all_unfocused(before));
}

fn put_window(windows: &mut Vec<RuntimeWindow>, window: RuntimeWindow)
    ensures
        model::runtime_views(final(windows)@) == with_window(
            model::runtime_views(old(windows)@),
            window@,
        ),
{
    if window.is_focused {
        take_focus(windows);
    }
    let ghost rest = model::runtime_views(windows@);
    let ghost w = window@;
    match window_place(windows, window.id) {
        Some(i) => {
            windows.set(i, window);
            assert(model::runtime_views(windows@) =~= rest.update(i as int, w));
        },
        None => {
            windows.push(window);
            assert(model::runtime_views(windows@) =~= rest.push(w));
        },
    }
}

fn drop_window(windows: &Vec<RuntimeWindow>, id: u64) -> (out: Vec<RuntimeWindow>)
    ensures
        model::runtime_views(out@) == without_window(model::runtime_views(windows@), id),
{
    let ghost views = model::runtime_views(windows@);
    let ghost f = kept_open(views, id);
    let mut out: Vec<RuntimeWindow> = Vec::new();
    assert(model::runtime_views(out@) =~= lists::gather(0, f));
    for i in 0..windows.len()
        invariant
            views == model::runtime_views(windows@),
            f == kept_open(views, id),
            model::runtime_views(out@) == lists::gather(i as nat, f),
    {
        assert(views[i as int] == windows@[i as int]@);
        let ghost given = f(i as int);
        let ghost before = out@;
        if windows[i].id != id {
            out.push(windows[i].clone());
            assert(model::runtime_views(out@) =~= model::runtime_views(before).push(given->0));
        }
    }
    out
}

fn set_focus(windows: &mut Vec<RuntimeWindow>, id: Option<u64>)
    ensures
        model::runtime_views(final(windows)@) == with_focus(
            model::runtime_views(old(windows)@),
            id,
        ),
{
    let ghost before = model::runtime_views(windows@);
    let n: usize = windows.len();
    for i in 0..n
        invariant
            n == windows@.len(),
            n == before.len(),
            forall|k: int| 0 <= k < i ==> (#[trigger] windows@[k])@ == with_focus(before, id)[k],
            forall|k: int| i <= k < n ==> (#[trigger] windows@[k])@ == before[k],
    {
        let ghost w0 = windows@;
        let here: bool = match id {
            Some(x) => x == windows[i].id,
            None => false,
        };
        windows[i].is_focused = here;
        assert forall|k: int| 0 <= k < n && k != i implies (#[trigger] windows@[k])@ == w0[k]@ by {}
        assert(windows@[i as int]@ =~= with_focus(before, id)[i as int]);
    }
    assert(model::runtime_views(windows@) =~= with_focus(before, id));
}

/// Puts a window at its new place.
pub fn apply_layout(window: &mut RuntimeWindow, layout: LayoutChange)
    ensures
        final(window)@ == with_layout(old(window)@, layout),
{
    match layout.position {
        Some(p) => {
            window.column = Some(p.0);
            window.tile_index = Some(p.1);
        },
        None => {
            window.column = None;
            window.tile_index = None;
        },
    }
    window.tile_width = layout.tile_width;
    window.tile_height = layout.tile_height;
}

fn move_tiles(windows: &mut Vec<RuntimeWindow>, changes: &Vec<LayoutChange>)
    ensures
        model::runtime_views(final(windows)@) == with_changes(
            model::runtime_views(old(windows)@),
            changes@,
        ),
{
    let ghost before = model::runtime_views(windows@);
    let n: usize = changes.len();
    assert(changes@.take(0) =~= Seq::empty());
    for i in 0..n
        invariant
            n == changes@.len(),
            model::runtime_views(windows@) == with_changes(before, changes@.take(i as int)),
    {
        let ghost so_far = model::runtime_views(windows@);
        let c: LayoutChange = changes[i];
        assert(changes@.take(i + 1).drop_last() =~= changes@.take(i as int));
        assert(changes@.take(i + 1).last() == c);
        if let Some(at) = window_place(windows, c.id) {
            let mut moved: RuntimeWindow = windows[at].clone();
            apply_layout(&mut moved, c);
            assert(so_far[at as int] == windows@[at as int]@);
            windows.set(at, moved);
            assert(model::runtime_views(windows@) =~= so_far.update(
                at as int,
                with_layout(so_far[at as int], c),
            ));
        }
    }
    assert(changes@.take(n as int) =~= changes@);
}

fn activate(workspaces: &mut Vec<RuntimeWorkspace>, id: u64, focused: bool)
    ensures
        model::workspace_views(final(workspaces)@) == with_active(
            model::workspace_views(old(workspaces)@),
            id,
            focused,
        ),
{
    let ghost before = model::workspace_views(workspaces@);
    let ghost p = model::workspace_has_id(id);
    let n: usize = workspaces.len();
    let mut output: Option<String> = None;
    let mut at: usize = 0;
    let mut found: bool = false;
    while at < n && !found
        invariant
            n == workspaces@.len(),
            before == model::workspace_views(workspaces@),
            p == model::workspace_has_id(id),
            at <= n,
            found ==> at < n && lists::is_first(before, p, at as int) && text::opt_text(output)
                == before[at as int].output,
            !found ==> output is None && forall|k: int| 0 <= k < at ==> !p(#[trigger] before[k]),
        decreases n - at + if found { 0int } else { 1int },
    {
        assert(before[at as int] == workspaces@[at as int]@);
        if workspaces[at].id == id {
            output = copy_opt(&workspaces[at].output);
            found = true;
        } else {
            at = at + 1;
        }
    }
    proof {
        if found {
            lists::first_is(before, p, at as int);
        } else {
            lists::first_is_none(before, p);
        }
    }
    let ghost on = output_of(before, id);
    assert(text::opt_text(output) == on);
    let ghost after = with_active(before, id, focused);
    for i in 0..n
        invariant
            n == workspaces@.len(),
            n == before.len(),
            text::opt_text(output) == on,
            on == output_of(before, id),
            after == with_active(before, id, focused),
            forall|k: int| 0 <= k < i ==> (#[trigger] workspaces@[k])@ == after[k],
            forall|k: int| i <= k < n ==> (#[trigger] workspaces@[k])@ == before[k],
    {
        let ghost w0 = workspaces@;
        assert(workspaces@[i as int]@ == before[i as int]);
        let here: bool = workspaces[i].id == id;
        if output.is_some() && opt_eq(&workspaces[i].output, &output) {
            workspaces[i].is_active = here;
        }
        if focused {
            workspaces[i].is_focused = here;
        }
        assert forall|k: int| 0 <= k < n && k != i implies (#[trigger] workspaces@[k])@
            == w0[k]@ by {}
        assert(workspaces@[i as int]@ =~= after[i as int]);
    }
    assert(model::workspace_views(workspaces@) =~= after);
}

/// Brings a state up to date.
pub fn apply_event(state: &mut ObservedState, event: Event)
    ensures
        final(state)@ == after_event(old(state)@, event@),
{
    let ghost before = state@;
    match event {
        Event::WorkspacesChanged(workspaces) => {
            state.workspaces = workspaces;
        },
        Event::WindowsChanged(windows) => {
            state.windows = windows;
        },
        Event::WindowOpenedOrChanged(window) => {
            put_window(&mut state.windows, window);
        },
        Event::WindowClosed(id) => {
            state.windows = drop_window(&state.windows, id);
        },
        Event::WindowFocusChanged(id) => {
            set_focus(&mut state.windows, id);
        },
        Event::WindowLayoutsChanged(changes) => {
            move_tiles(&mut state.windows, &changes);
        },
        Event::WorkspaceActivated { id, focused } => {
            activate(&mut state.workspaces, id, focused);
        },
    }
}

// What is read of processes

/// A window with what its process shows now; what it does not show any more stays.
pub open spec fn with_process(
    w: RuntimeView,
    exe: Option<Seq<char>>,
    cwd: Option<Seq<char>>,
) -> RuntimeView {
    if w.pid is None {
        w
    } else {
        RuntimeView {
            process_exe: if exe is Some {
                exe
            } else {
                w.process_exe
            },
            cwd: if cwd is Some {
                cwd
            } else {
                w.cwd
            },
            ..w
        }
    }
}

/// Brings a window up to date with what its process shows now.
pub fn refresh_process_metadata(
    window: &mut RuntimeWindow,
    exe: Option<String>,
    cwd: Option<String>,
)
    ensures
        final(window)@ == with_process(old(window)@, text::opt_text(exe), text::opt_text(cwd)),
{
    if window.pid.is_none() {
        return;
    }
    if exe.is_some() {
        window.process_exe = exe;
    }
    if cwd.is_some() {
        window.cwd = cwd;
    }
}

} // verus!
