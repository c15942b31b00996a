//! Comparing recipes.
use crate::model::{ColumnDisplay, MatchSpec, PlacementSpec, Recipe, Size, WindowSpec};
use crate::text::{list_eq, opt_eq, str_eq};
use vstd::prelude::*;

verus! {

fn same_size(a: Option<Size>, b: Option<Size>) -> (out: bool)
    ensures
        out == (a == b),
{
    match (a, b) {
        (Some(Size::Percent(x)), Some(Size::Percent(y))) => x == y,
        (Some(Size::Pixels(x)), Some(Size::Pixels(y))) => x == y,
        (None, None) => true,
        _ => false,
    }
}

fn same_display(a: Option<ColumnDisplay>, b: Option<ColumnDisplay>) -> (out: bool)
    ensures
        out == (a == b),
{
    match (a, b) {
        (Some(x), Some(y)) => x == y,
        (None, None) => true,
        _ => false,
    }
}

fn same_id(a: Option<u64>, b: Option<u64>) -> (out: bool)
    ensures
        out == (a == b),
{
    match (a, b) {
        (Some(x), Some(y)) => x == y,
        (None, None) => true,
        _ => false,
    }
}

fn same_pid(a: Option<i32>, b: Option<i32>) -> (out: bool)
    ensures
        out == (a == b),
{
    match (a, b) {
        (Some(x), Some(y)) => x == y,
        (None, None) => true,
        _ => false,
    }
}

fn same_signals(a: &MatchSpec, b: &MatchSpec) -> (out: bool)
    ensures
        out == (a@ == b@),
{
    same_id(a.window_id, b.window_id) && opt_eq(&a.app_id, &b.app_id) && opt_eq(&a.title, &b.title)
        && opt_eq(&a.process, &b.process) && opt_eq(&a.cwd, &b.cwd) && same_pid(a.pid, b.pid)
}

fn same_layout(a: &PlacementSpec, b: &PlacementSpec) -> (out: bool)
    ensures
        out == (a@ == b@),
{
    a.column == b.column && same_size(a.column_width, b.column_width) && same_size(
        a.window_height,
        b.window_height,
    ) && same_display(a.display, b.display) && a.floating == b.floating && opt_eq(
        &a.output,
        &b.output,
    )
}

/// Whether two logical windows are declared alike.
pub fn same_window(a: &WindowSpec, b: &WindowSpec) -> (out: bool)
    ensures
        out == (a@ == b@),
{
    str_eq(a.name.as_str(), b.name.as_str()) && list_eq(&a.command, &b.command) && same_signals(
        &a.match_spec,
        &b.match_spec,
    ) && a.reuse == b.reuse && same_layout(&a.layout, &b.layout)
}

/// Whether two recipes are declared alike.
pub fn same_recipe(a: &Recipe, b: &Recipe) -> (out: bool)
    ensures
        out == (a@ == b@),
{
    let alike: bool = opt_eq(&a.name, &b.name) && str_eq(a.workspace.as_str(), b.workspace.as_str())
        && opt_eq(&a.output, &b.output) && a.output_fallback == b.output_fallback && opt_eq(
        &a.focus,
        &b.focus,
    ) && a.spawn_timeout_ms == b.spawn_timeout_ms;
    if !alike || a.windows.len() != b.windows.len() {
        assert(a@.windows.len() == a.windows@.len() && b@.windows.len() == b.windows@.len());
        return false;
    }
    for i in 0..a.windows.len()
        invariant
            a.windows@.len() == b.windows@.len(),
            forall|k: int| 0 <= k < i ==> (#[trigger] a.windows@[k])@ == b.windows@[k]@,
    {
        if !same_window(&a.windows[i], &b.windows[i]) {
            assert(a@.windows[i as int] != b@.windows[i as int]);
            return false;
        }
    }
    assert(a@.windows =~= b@.windows);
    true
}

} // verus!
