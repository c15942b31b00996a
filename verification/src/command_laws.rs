//! What the commands for an action do to its window.
use crate::execute;
use crate::execute::{Command, Goal};
use crate::model::{ColumnDisplay, RuntimeView, Size, StateView};
use crate::planner::ActionView;
use vstd::prelude::*;

verus! {

/// Where a window stands: its workspace, whether it floats, its column and its place
/// there, whether it has the column for itself, and what its extents and the display
/// of its column are set to.
pub struct Standing {
    pub workspace: u64,
    pub floating: bool,
    pub column: int,
    pub tile: int,
    pub alone: bool,
    pub width: Option<Size>,
    pub height: Option<Size>,
    pub display: Option<ColumnDisplay>,
}

/// What the compositor makes of a command for a window.
///
/// A window that has its column for itself is taken into the neighbouring column: to
/// the left that is the one before; to the right its own column goes, and the next one
/// takes its number. A window that shares its column is put into a column of its own:
/// to the left this takes the number of the old column, to the right the next one.
pub open spec fn obeyed(c: Command, t: Standing) -> Standing {
    match c {
        Command::MoveWindowToWorkspace { window_id: _, workspace_id } => Standing {
            workspace: workspace_id,
            ..t
        },
        Command::MoveWindowToFloating { id: _ } => Standing { floating: true, ..t },
        Command::MoveWindowToTiling { id: _ } => Standing { floating: false, ..t },
        Command::ConsumeOrExpelWindowLeft { id: _ } => if t.alone {
            Standing { column: t.column - 1, alone: false, ..t }
        } else {
            Standing { alone: true, ..t }
        },
        Command::ConsumeOrExpelWindowRight { id: _ } => if t.alone {
            Standing { alone: false, ..t }
        } else {
            Standing { column: t.column + 1, alone: true, ..t }
        },
        Command::MoveColumnToIndex { index } => Standing { column: index as int, ..t },
        Command::MoveWindowUp => Standing { tile: t.tile - 1, ..t },
        Command::MoveWindowDown => Standing { tile: t.tile + 1, ..t },
        Command::SetColumnWidth { size } => Standing { width: Some(size), ..t },
        Command::SetWindowHeight { id: _, size } => Standing { height: Some(size), ..t },
        Command::SetColumnDisplay { display } => Standing { display: Some(display), ..t },
    }
}

/// The window that a command goes to, unless it goes to the one with the focus.
pub open spec fn addressee(c: Command) -> Option<u64> {
    match c {
        Command::MoveWindowToWorkspace { window_id, workspace_id: _ } => Some(window_id),
        Command::MoveWindowToFloating { id } => Some(id),
        Command::MoveWindowToTiling { id } => Some(id),
        Command::ConsumeOrExpelWindowLeft { id } => Some(id),
        Command::ConsumeOrExpelWindowRight { id } => Some(id),
        Command::SetWindowHeight { id, size: _ } => Some(id),
        _ => None,
    }
}

/// The window that an action names.
pub open spec fn named_window(a: ActionView) -> u64 {
    match a {
        ActionView::MoveToWorkspace { window_id, .. } => window_id,
        ActionView::SetFloating { window_id, .. } => window_id,
        ActionView::ExpelRight { window_id, .. } => window_id,
        ActionView::MoveColumnToIndex { window_id, .. } => window_id,
        ActionView::ConsumeLeft { window_id, .. } => window_id,
        ActionView::MoveWindowUp { window_id, .. } => window_id,
        ActionView::MoveWindowDown { window_id, .. } => window_id,
        ActionView::SetColumnWidth { window_id, .. } => window_id,
        ActionView::SetWindowHeight { window_id, .. } => window_id,
        ActionView::SetColumnDisplay { window_id, .. } => window_id,
        ActionView::Focus { window_id, .. } => window_id,
    }
}

/// The action has come about: from `before`, the window has got to `after`.
pub open spec fn has_come_about(a: ActionView, before: Standing, after: Standing) -> bool {
    match a {
        ActionView::MoveToWorkspace { to, .. } => after == (Standing { workspace: to, ..before }),
        ActionView::SetFloating { floating, .. } => after == (Standing { floating, ..before }),
        ActionView::ExpelRight { .. } => !before.alone ==> after == (Standing {
            column: before.column + 1,
            alone: true,
            ..before
        }),
        ActionView::ConsumeLeft { target_column, .. } => before.alone && before.column
            == target_column + 1 ==> after == (Standing {
            column: target_column as int,
            alone: false,
            ..before
        }),
        ActionView::MoveColumnToIndex { to, .. } => after == (Standing {
            column: to as int,
            ..before
        }),
        ActionView::MoveWindowUp { .. } => after == (Standing { tile: before.tile - 1, ..before }),
        ActionView::MoveWindowDown { .. } => after == (Standing { tile: before.tile + 1, ..before }),
        ActionView::SetColumnWidth { size, .. } => after == (Standing {
            width: Some(size),
            ..before
        }),
        ActionView::SetWindowHeight { size, .. } => after == (Standing {
            height: Some(size),
            ..before
        }),
        ActionView::SetColumnDisplay { display, .. } => after == (Standing {
            display: Some(display),
            ..before
        }),
        ActionView::Focus { .. } => after == before,
    }
}

/// The command for an action brings it about, and changes nothing else of its window;
/// it goes to the window that the action names, by its identifier or by the focus that
/// it has got before. Only the focus needs no command.
pub proof fn commands_bring_their_action_about(a: ActionView, before: Standing)
    ensures
        execute::script_of(a).window_id == named_window(a),
        match execute::script_of(a).command {
            Some(c) => {
                &&& !(a is Focus)
                &&& has_come_about(a, before, obeyed(c, before))
                &&& match addressee(c) {
                    Some(id) => id == named_window(a),
                    None => execute::script_of(a).focus_first,
                }
            },
            None => a is Focus && execute::script_of(a).focus_first,
        },
{
}

/// The window shows that an action has come about.
pub open spec fn shows(a: ActionView, w: RuntimeView) -> bool {
    match a {
        ActionView::MoveToWorkspace { to, .. } => w.workspace_id == Some(to),
        ActionView::SetFloating { floating, .. } => w.is_floating == floating,
        ActionView::ConsumeLeft { target_column, .. } => w.column == Some(target_column),
        ActionView::MoveColumnToIndex { to, .. } => w.column == Some(to),
        ActionView::MoveWindowUp { from, .. } => w.tile_index is Some && w.tile_index->0 < from,
        ActionView::MoveWindowDown { from, .. } => w.tile_index is Some && w.tile_index->0 > from,
        ActionView::Focus { .. } => w.is_focused,
        _ => false,
    }
}

/// What is waited for is what shows that the action has come about: the window is on
/// the workspace, floats, stands in the column, further up or down, or has the focus;
/// one that is taken out of its column stands elsewhere than before; of a size it is
/// whether the tile has got it, and of a display there is nothing to see.
pub proof fn goals_show_the_action(
    a: ActionView,
    s: StateView,
    before: Option<(Option<usize>, Option<usize>)>,
    resized: bool,
)
    ensures
        ({
            let goal = execute::script_of(a).goal;
            let found = s.window(named_window(a));
            let reached = execute::is_reached(goal, s, named_window(a), before, resized);
            match a {
                ActionView::ExpelRight { .. } => reached == match found {
                    Some(w) => before != Some((w.column, w.tile_index)),
                    None => before is Some,
                },
                ActionView::SetColumnWidth { size, .. } => goal == (Goal::Resized {
                    size,
                    width: true,
                }) && reached == (found is Some && resized),
                ActionView::SetWindowHeight { size, .. } => goal == (Goal::Resized {
                    size,
                    width: false,
                }) && reached == (found is Some && resized),
                ActionView::SetColumnDisplay { .. } => goal == Goal::LayoutEvent && !reached,
                _ => reached == (found is Some && shows(a, found->0)),
            }
        }),
{
}

/// An action that is called for does not show yet, and shows once it has come about.
pub proof fn goals_are_not_reached_too_early(a: ActionView, s: StateView, resized: bool)
    requires
        s.window(named_window(a)) is Some,
        ({
            let w = s.window(named_window(a))->0;
            match a {
                ActionView::MoveToWorkspace { from, to, .. } => w.workspace_id == from && from
                    != Some(to),
                ActionView::SetFloating { floating, .. } => w.is_floating != floating,
                ActionView::ExpelRight { .. } => true,
                ActionView::ConsumeLeft { target_column, .. } => w.column != Some(target_column),
                ActionView::MoveColumnToIndex { from, to, .. } => w.column == from && from
                    != Some(to),
                ActionView::MoveWindowUp { from, .. } => w.tile_index == Some(from),
                ActionView::MoveWindowDown { from, .. } => w.tile_index == Some(from),
                ActionView::Focus { .. } => !w.is_focused,
                _ => !resized,
            }
        }),
    ensures
        ({
            let w = s.window(named_window(a))->0;
            !execute::is_reached(
                execute::script_of(a).goal,
                s,
                named_window(a),
                Some((w.column, w.tile_index)),
                resized,
            )
        }),
{
}

} // verus!
