//! What holds of every state that is kept up to date from events.
use crate::events;
use crate::events::{EventView, LayoutChange};
use crate::lists;
use crate::model;
use crate::model::{RuntimeView, StateView};
use vstd::prelude::*;

verus! {

/// No two windows have the same identifier.
pub open spec fn ids_differ(ws: Seq<RuntimeView>) -> bool {
    forall|i: int, j: int| 0 <= i < j < ws.len() ==> (#[trigger] ws[i]).id != (#[trigger] ws[j]).id
}

/// At most one window has the focus.
pub open spec fn focus_is_single(ws: Seq<RuntimeView>) -> bool {
    forall|i: int, j: int|
        0 <= i < j < ws.len() ==> !((#[trigger] ws[i]).is_focused && (#[trigger] ws[j]).is_focused)
}

/// The windows that an event lists, where it lists all of them.
pub open spec fn listed(e: EventView) -> Option<Seq<RuntimeView>> {
    match e {
        EventView::WindowsChanged(ws) => Some(ws),
        _ => None,
    }
}

proof fn same_ids(ws: Seq<RuntimeView>, cs: Seq<LayoutChange>)
    ensures
        events::with_changes(ws, cs).len() == ws.len(),
        forall|i: int|
            0 <= i < ws.len() ==> differs_in_layout(
                #[trigger] events::with_changes(ws, cs)[i],
                ws[i],
            ),
    decreases cs.len(),
{
    if cs.len() > 0 {
        same_ids(ws, cs.drop_last());
        let before = events::with_changes(ws, cs.drop_last());
        let c = cs.last();
        let p = model::has_id(c.id);
        if lists::first_where(before, p) is Some {
            lists::first_holds(before, p);
        }
        assert forall|i: int| 0 <= i < ws.len() implies differs_in_layout(
            #[trigger] events::with_changes(ws, cs)[i],
            ws[i],
        ) by {
            assert(differs_in_layout(before[i], ws[i]));
        }
    }
}

/// `a` and `b` are one window, at different places or with different extents at most.
pub open spec fn differs_in_layout(a: RuntimeView, b: RuntimeView) -> bool {
    a == (RuntimeView {
        column: a.column,
        tile_index: a.tile_index,
        tile_width: a.tile_width,
        tile_height: a.tile_height,
        ..b
    })
}

proof fn kept_come_from(ws: Seq<RuntimeView>, id: u64, n: nat)
    requires
        n <= ws.len(),
        ids_differ(ws),
    ensures
        ids_differ(lists::gather(n, events::kept_open(ws, id))),
        focus_is_single(ws) ==> focus_is_single(lists::gather(n, events::kept_open(ws, id))),
        forall|k: int|
            0 <= k < lists::gather(n, events::kept_open(ws, id)).len() ==> exists|i: int|
                0 <= i < n && ws[i] == #[trigger] lists::gather(n, events::kept_open(ws, id))[k]
                    && #[trigger] ws[i].id != id,
    decreases n,
{
    if n > 0 {
        let f = events::kept_open(ws, id);
        kept_come_from(ws, id, (n - 1) as nat);
        let before = lists::gather((n - 1) as nat, f);
        let after = lists::gather(n, f);
        assert forall|k: int| 0 <= k < after.len() implies exists|i: int|
            0 <= i < n && ws[i] == #[trigger] after[k] && #[trigger] ws[i].id != id by {
            if k < before.len() {
                assert(after[k] == before[k]);
                let i = choose|i: int|
                    0 <= i < n - 1 && ws[i] == before[k] && #[trigger] ws[i].id != id;
                assert(ws[i] == after[k]);
            } else {
                assert(f(n - 1) is Some);
                assert(ws[n - 1].id != id);
                assert(after[k] == ws[n - 1]);
            }
        }
        assert forall|k: int, l: int| 0 <= k < l < after.len() implies (#[trigger] after[k]).id != (
        #[trigger] after[l]).id && (focus_is_single(ws) ==> !(after[k].is_focused
            && after[l].is_focused)) by {
            assert(after[k] == before[k]);
            let i = choose|i: int|
                0 <= i < n - 1 && ws[i] == before[k] && #[trigger] ws[i].id != id;
            if l < before.len() {
                assert(after[l] == before[l]);
            } else {
                assert(after[l] == ws[n - 1]);
                assert(ws[i].id != ws[n - 1].id);
            }
        }
    }
}

proof fn opened_is_distinct(ws: Seq<RuntimeView>, w: RuntimeView)
    requires
        ids_differ(ws),
    ensures
        ids_differ(events::with_window(ws, w)),
        focus_is_single(ws) ==> focus_is_single(events::with_window(ws, w)),
{
    let rest = if w.is_focused {
        events::all_unfocused(ws)
    } else {
        ws
    };
    let p = model::has_id(w.id);
    assert forall|i: int| 0 <= i < ws.len() implies (#[trigger] rest[i]).id == ws[i].id && (
    w.is_focused ==> !rest[i].is_focused) && (!w.is_focused ==> rest[i] == ws[i]) by {}
    let after = events::with_window(ws, w);
    if lists::first_where(rest, p) is Some {
        lists::first_holds(rest, p);
    } else {
        lists::first_is_none(rest, p);
        assert forall|i: int| 0 <= i < ws.len() implies (#[trigger] ws[i]).id != w.id by {
            assert(!p(rest[i]));
        }
    }
    let at = lists::first_where(rest, p);
    assert forall|i: int, j: int| 0 <= i < j < after.len() implies (#[trigger] after[i]).id != (
    #[trigger] after[j]).id && (focus_is_single(ws) ==> !(after[i].is_focused
        && after[j].is_focused)) by {
        if i < rest.len() {
            assert(rest[i].id == ws[i].id);
        }
        if j < rest.len() {
            assert(rest[j].id == ws[j].id);
        }
    }
}

/// Events keep the identifiers of the windows apart.
pub proof fn identifiers_stay_distinct(s: StateView, e: EventView)
    requires
        ids_differ(s.windows),
        match listed(e) {
            Some(ws) => ids_differ(ws),
            None => true,
        },
    ensures
        ids_differ(events::after_event(s, e).windows),
{
    match e {
        EventView::WindowOpenedOrChanged(w) => {
            opened_is_distinct(s.windows, w);
        },
        EventView::WindowClosed(id) => {
            kept_come_from(s.windows, id, s.windows.len());
        },
        EventView::WindowLayoutsChanged(cs) => {
            same_ids(s.windows, cs);
            let after = events::with_changes(s.windows, cs);
            assert forall|i: int, j: int| 0 <= i < j < after.len() implies (#[trigger] after[i]).id
                != (#[trigger] after[j]).id by {
                assert(differs_in_layout(after[i], s.windows[i]));
                assert(differs_in_layout(after[j], s.windows[j]));
            }
        },
        _ => {},
    }
}

/// Events never leave two windows with the focus.
pub proof fn focus_stays_single(s: StateView, e: EventView)
    requires
        ids_differ(s.windows),
        focus_is_single(s.windows),
        match listed(e) {
            Some(ws) => focus_is_single(ws),
            None => true,
        },
    ensures
        focus_is_single(events::after_event(s, e).windows),
{
    match e {
        EventView::WindowOpenedOrChanged(w) => {
            opened_is_distinct(s.windows, w);
        },
        EventView::WindowClosed(id) => {
            kept_come_from(s.windows, id, s.windows.len());
        },
        EventView::WindowFocusChanged(id) => {
            let after = events::with_focus(s.windows, id);
            assert forall|i: int, j: int| 0 <= i < j < after.len() implies !((
            #[trigger] after[i]).is_focused && (#[trigger] after[j]).is_focused) by {
                assert(s.windows[i].id != s.windows[j].id);
            }
        },
        EventView::WindowLayoutsChanged(cs) => {
            same_ids(s.windows, cs);
            let after = events::with_changes(s.windows, cs);
            assert forall|i: int, j: int| 0 <= i < j < after.len() implies !((
            #[trigger] after[i]).is_focused && (#[trigger] after[j]).is_focused) by {
                assert(differs_in_layout(after[i], s.windows[i]));
                assert(differs_in_layout(after[j], s.windows[j]));
            }
        },
        _ => {},
    }
}

/// An event about windows leaves the workspaces as they are, one about workspaces
/// the windows, and none touches the outputs.
pub proof fn events_keep_to_their_part(s: StateView, e: EventView)
    ensures
        events::after_event(s, e).outputs == s.outputs,
        match e {
            EventView::WorkspacesChanged(_)
            | EventView::WorkspaceActivated { id: _, focused: _ } => events::after_event(s, e).windows
                == s.windows,
            _ => events::after_event(s, e).workspaces == s.workspaces,
        },
{
}

/// A window that was opened or changed is found as it was reported, and every
/// other one is found as it was, up to the focus.
pub proof fn an_opened_window_is_found(s: StateView, w: RuntimeView, id: u64)
    ensures
        events::after_event(s, EventView::WindowOpenedOrChanged(w)).window(w.id) == Some(w),
        id != w.id ==> match (
            s.window(id),
            events::after_event(s, EventView::WindowOpenedOrChanged(w)).window(id),
        ) {
            (Some(old_w), Some(new_w)) => new_w == (RuntimeView {
                is_focused: old_w.is_focused && !w.is_focused,
                ..old_w
            }),
            (None, None) => true,
            _ => false,
        },
{
    let ws = s.windows;
    let rest = if w.is_focused {
        events::all_unfocused(ws)
    } else {
        ws
    };
    let after = events::with_window(ws, w);
    let p = model::has_id(w.id);
    let q = model::has_id(id);
    if lists::first_where(rest, p) is Some {
        lists::first_holds(rest, p);
        let at = lists::first_where(rest, p)->0;
        assert forall|k: int| 0 <= k < at implies !p(#[trigger] after[k]) by {
            assert(!p(rest[k]));
        }
        lists::first_is(after, p, at);
    } else {
        lists::first_is_none(rest, p);
        assert forall|k: int| 0 <= k < rest.len() implies !p(#[trigger] after[k]) by {
            assert(!p(rest[k]));
        }
        lists::first_is(after, p, rest.len() as int);
    }
    if id != w.id {
        if lists::first_where(ws, q) is Some {
            lists::first_holds(ws, q);
            let at = lists::first_where(ws, q)->0;
            assert forall|k: int| 0 <= k < at implies !q(#[trigger] after[k]) by {
                assert(!q(ws[k]));
                assert(rest[k].id == ws[k].id);
            }
            assert(rest[at].id == id);
            assert(q(after[at]));
            lists::first_is(after, q, at);
        } else {
            lists::first_is_none(ws, q);
            assert forall|k: int| 0 <= k < after.len() implies !q(#[trigger] after[k]) by {
                if k < ws.len() {
                    assert(!q(ws[k]));
                    assert(rest[k].id == ws[k].id);
                }
            }
            lists::first_is_none(after, q);
        }
    }
}

/// A window that was closed is gone, and no other one is.
pub proof fn a_closed_window_is_gone(s: StateView, id: u64, w: RuntimeView)
    ensures
        events::after_event(s, EventView::WindowClosed(id)).window(id) is None,
        events::after_event(s, EventView::WindowClosed(id)).windows.contains(w) <==> w.id != id
            && s.windows.contains(w),
{
    let f = events::kept_open(s.windows, id);
    let after = lists::gather(s.windows.len(), f);
    let p = model::has_id(id);
    assert forall|k: int| 0 <= k < after.len() implies !p(#[trigger] after[k]) by {
        lists::gather_contains(s.windows.len(), f, after[k]);
        assert(after.contains(after[k]));
    }
    lists::first_is_none(after, p);
    lists::gather_contains(s.windows.len(), f, w);
    if w.id != id && s.windows.contains(w) {
        let i = choose|i: int| 0 <= i < s.windows.len() && s.windows[i] == w;
        assert(f(i) == Some(w));
    }
}

/// Changes of layout change places and extents only.
pub proof fn layout_changes_keep_the_windows(s: StateView, cs: Seq<LayoutChange>, i: int)
    requires
        0 <= i < s.windows.len(),
    ensures
        events::after_event(s, EventView::WindowLayoutsChanged(cs)).windows.len()
            == s.windows.len(),
        differs_in_layout(
            events::after_event(s, EventView::WindowLayoutsChanged(cs)).windows[i],
            s.windows[i],
        ),
{
    same_ids(s.windows, cs);
}

/// A workspace that became active is the only active one of its output, and
/// where it got the focus the only focused one at all.
pub proof fn activation_is_exclusive(s: StateView, id: u64, focused: bool, i: int)
    requires
        0 <= i < s.workspaces.len(),
        s.workspace(id) is Some,
    ensures
        ({
            let after = events::after_event(s, EventView::WorkspaceActivated { id, focused });
            let w = after.workspaces[i];
            &&& s.workspace(id)->0.output is Some && w.output == s.workspace(id)->0.output ==> (
            w.is_active <==> w.id == id)
            &&& focused ==> (w.is_focused <==> w.id == id)
            &&& !focused ==> w.is_focused == s.workspaces[i].is_focused
        }),
{
}

/// A whole list takes the place of what was there.
pub proof fn listed_parts_are_replaced(
    s: StateView,
    ws: Seq<RuntimeView>,
    spaces: Seq<crate::model::WorkspaceView>,
)
    ensures
        events::after_event(s, EventView::WindowsChanged(ws)).windows == ws,
        events::after_event(s, EventView::WorkspacesChanged(spaces)).workspaces == spaces,
{
}

/// The focus is where an event says, and nothing else of the windows changes.
pub proof fn the_focus_goes_where_it_is_said(s: StateView, id: Option<u64>, i: int)
    requires
        0 <= i < s.windows.len(),
    ensures
        ({
            let after = events::after_event(s, EventView::WindowFocusChanged(id));
            &&& after.windows.len() == s.windows.len()
            &&& after.windows[i].is_focused <==> id is Some && s.windows[i].id == id->0
            &&& after.windows[i] == (RuntimeView {
                is_focused: after.windows[i].is_focused,
                ..s.windows[i]
            })
        }),
{
}

/// A tile is where the last change that is about it says, with the extents that it
/// says; a window that no change is about stays as it is.
pub proof fn tiles_are_where_the_last_change_says(
    s: StateView,
    cs: Seq<LayoutChange>,
    k: int,
    i: int,
)
    requires
        ids_differ(s.windows),
        0 <= i < s.windows.len(),
    ensures
        ({
            let w = events::after_event(s, EventView::WindowLayoutsChanged(cs)).windows[i];
            &&& (forall|j: int| 0 <= j < cs.len() ==> (#[trigger] cs[j]).id != s.windows[i].id)
                ==> w == s.windows[i]
            &&& 0 <= k < cs.len() && cs[k].id == s.windows[i].id && (forall|j: int|
                k < j < cs.len() ==> (#[trigger] cs[j]).id != s.windows[i].id) ==> w.tile_width
                == cs[k].tile_width && w.tile_height == cs[k].tile_height && (match cs[k].position {
                Some(p) => w.column == Some(p.0) && w.tile_index == Some(p.1),
                None => w.column is None && w.tile_index is None,
            })
        }),
    decreases cs.len(),
{
    if cs.len() > 0 {
        let front = cs.drop_last();
        let before = events::with_changes(s.windows, front);
        let c = cs.last();
        tiles_are_where_the_last_change_says(s, front, k, i);
        same_ids(s.windows, front);
        assert(forall|j: int| 0 <= j < front.len() ==> #[trigger] front[j] == cs[j]);
        assert(cs[cs.len() - 1] == c);
        assert(forall|j: int| 0 <= j < before.len() ==> (#[trigger] before[j]).id == s.windows[j].id);
        let p = crate::model::has_id(c.id);
        if c.id == s.windows[i].id {
            assert forall|j: int| 0 <= j < i implies !p(#[trigger] before[j]) by {
                assert(s.windows[j].id != s.windows[i].id);
            }
            lists::first_is(before, p, i);
        } else if lists::first_where(before, p) is Some {
            lists::first_holds(before, p);
        }
        if (forall|j: int| 0 <= j < cs.len() ==> (#[trigger] cs[j]).id != s.windows[i].id) {
            assert forall|j: int| 0 <= j < front.len() implies (#[trigger] front[j]).id
                != s.windows[i].id by {
                assert(cs[j].id != s.windows[i].id);
            }
        }
        if 0 <= k < front.len() && (forall|j: int|
            k < j < cs.len() ==> (#[trigger] cs[j]).id != s.windows[i].id) {
            assert forall|j: int| k < j < front.len() implies (#[trigger] front[j]).id
                != s.windows[i].id by {
                assert(cs[j].id != s.windows[i].id);
            }
        }
    }
}

/// A workspace on another output than the one that became active is as active as it
/// was.
pub proof fn other_outputs_keep_their_active_workspace(s: StateView, id: u64, focused: bool, i: int)
    requires
        0 <= i < s.workspaces.len(),
        s.workspace(id) is Some ==> s.workspace(id)->0.output is None || s.workspaces[i].output
            != s.workspace(id)->0.output,
    ensures
        ({
            let w = events::after_event(
                s,
                EventView::WorkspaceActivated { id, focused },
            ).workspaces[i];
            &&& w.is_active == s.workspaces[i].is_active
            &&& w.id == s.workspaces[i].id && w.index == s.workspaces[i].index && w.name
                == s.workspaces[i].name && w.output == s.workspaces[i].output
        }),
{
}

} // verus!
