//! The picture of a layout: which windows stand in which column, and how much
//! room each gets.
use crate::lists;
use crate::lists::{group_keys, group_members};
use crate::model::{Recipe, Size, WindowSpec, WindowView};
use crate::planner;
use crate::planner::keys_of;
use vstd::prelude::*;

verus! {

// Columns

/// The tiled windows of a recipe, by column.
pub open spec fn columns_of(windows: Seq<WindowView>) -> Seq<Seq<int>> {
    let keys = planner::column_keys(windows);
    lists::sorted_keys(keys).map_values(|c: usize| lists::members(keys, c))
}

pub open spec fn place_rows(v: Seq<Vec<usize>>) -> Seq<Seq<int>> {
    v.map_values(|r: Vec<usize>| lists::as_places(r@))
}

/// The places of the tiled windows of a recipe, column by column.
pub fn tiled_columns(recipe: &Recipe) -> (out: Vec<Vec<usize>>)
    ensures
        place_rows(out@) == columns_of(recipe@.windows),
{
    let keys: Vec<Option<usize>> = keys_of(&recipe.windows);
    let columns: Vec<usize> = group_keys(&keys);
    let mut out: Vec<Vec<usize>> = Vec::new();
    for n in 0..columns.len()
        invariant
            keys@ == planner::column_keys(recipe@.windows),
            out@.len() == n,
            forall|k: int|
                0 <= k < n ==> lists::as_places((#[trigger] out@[k])@) == lists::members(
                    keys@,
                    columns@[k],
                ),
    {
        let row: Vec<usize> = group_members(&keys, columns[n]);
        assert(lists::as_places(row@) =~= lists::members(keys@, columns@[n as int]));
        out.push(row);
    }
    assert(place_rows(out@) =~= columns_of(recipe@.windows));
    out
}

pub open spec fn floating_place(windows: Seq<WindowView>) -> spec_fn(int) -> Option<int> {
    |i: int|
        if windows[i].layout.floating {
            Some(i)
        } else {
            None
        }
}

/// The places of the floating windows of a recipe.
pub fn floating_windows(recipe: &Recipe) -> (out: Vec<usize>)
    ensures
        lists::as_places(out@) == lists::gather(
            recipe@.windows.len(),
            floating_place(recipe@.windows),
        ),
{
    let ghost f = floating_place(recipe@.windows);
    let mut out: Vec<usize> = Vec::new();
    assert(lists::as_places(out@) =~= lists::gather(0, f));
    for i in 0..recipe.windows.len()
        invariant
            f == floating_place(recipe@.windows),
            lists::as_places(out@) == lists::gather(i as nat, f),
    {
        assert(recipe@.windows[i as int] == recipe.windows@[i as int]@);
        let ghost given = f(i as int);
        let ghost before = out@;
        if recipe.windows[i].layout.floating {
            out.push(i);
            assert(lists::as_places(out@) =~= lists::as_places(before).push(i as int));
        }
    }
    out
}

// Shares

/// The bits of the infinite double.
pub const INFINITE: u64 = 0x7ff0_0000_0000_0000;

/// The bits of the share that a size asks for, where it is a finite positive one.
pub open spec fn share_of(size: Option<Size>) -> Option<u64> {
    match size {
        Some(Size::Percent(bits)) => if 0 < bits < INFINITE {
            Some(bits)
        } else {
            None
        },
        _ => None,
    }
}

fn share(size: Option<Size>) -> (out: Option<u64>)
    ensures
        out == share_of(size),
{
    match size {
        Some(Size::Percent(bits)) => if 0 < bits && bits < INFINITE {
            Some(bits)
        } else {
            None
        },
        _ => None,
    }
}

pub open spec fn width_share(windows: Seq<WindowView>, column: Seq<int>) -> spec_fn(int) -> Option<
    u64,
> {
    |k: int| share_of(windows[column[k]].layout.column_width)
}

/// The share that a column asks for: that of its first window that asks for one.
/// `column` holds the places of its windows.
pub fn column_share(recipe: &Recipe, column: &Vec<usize>) -> (out: Option<u64>)
    requires
        forall|k: int| 0 <= k < column@.len() ==> (#[trigger] column@[k]) < recipe.windows@.len(),
    ensures
        out == lists::first_given(
            column@.len(),
            width_share(recipe@.windows, lists::as_places(column@)),
        ),
{
    let ghost f = width_share(recipe@.windows, lists::as_places(column@));
    for k in 0..column.len()
        invariant
            f == width_share(recipe@.windows, lists::as_places(column@)),
            forall|j: int| 0 <= j < column@.len() ==> (#[trigger] column@[j]) < recipe.windows@.len(),
            forall|j: int| 0 <= j < k ==> (#[trigger] f(j)) is None,
    {
        let at: usize = column[k];
        assert(lists::as_places(column@)[k as int] == at as int);
        assert(recipe@.windows[at as int] == recipe.windows@[at as int]@);
        let ghost given = f(k as int);
        let found: Option<u64> = share(recipe.windows[at].layout.column_width);
        if found.is_some() {
            proof {
                lists::first_given_is(column@.len(), f, k as int);
            }
            return found;
        }
    }
    proof {
        lists::first_given_none(column@.len(), f);
    }
    None
}

/// The share that a window asks for within its column.
pub fn row_share(spec: &WindowSpec) -> (out: Option<u64>)
    ensures
        out == share_of(spec@.layout.window_height),
{
    share(spec.layout.window_height)
}

// Room

/// How a row of tiles is divided: each gets `unit` steps, all together at least
/// `base`, and none less than `least`.
#[derive(Debug, Clone, Copy, PartialEq, Eq, Structural)]
pub struct Division {
    pub unit: i32,
    pub base: i32,
    pub least: i32,
}

/// How the preview of a capture is divided.
pub fn preview_division() -> (out: Division)
    ensures
        out == (Division { unit: 4, base: 20, least: 2 }),
{
    Division { unit: 4, base: 20, least: 2 }
}

/// How the canvas of the editor is divided.
pub fn canvas_division() -> (out: Division)
    ensures
        out == (Division { unit: 6, base: 24, least: 3 }),
{
    Division { unit: 6, base: 24, least: 3 }
}

impl Division {
    /// A division that leaves every tile its least.
    pub open spec fn wf(self) -> bool {
        0 < self.least <= self.unit && 0 < self.base
    }

    /// The steps of `n` tiles.
    pub open spec fn total(self, n: int) -> int {
        if n * self.unit > self.base {
            n * self.unit
        } else {
            self.base as int
        }
    }

    /// The steps that tile `i` gets: those that it wants, but no less than the
    /// least, and not so many that another would get less; the last tile gets what
    /// is left.
    pub open spec fn span(self, wanted: Seq<i32>, i: int) -> int
        decreases i, 1int,
        when i >= 0
    {
        let n = wanted.len() as int;
        let left = self.total(n) - self.start(wanted, i);
        let most = left - (n - 1 - i) * self.least;
        if i == n - 1 {
            left
        } else if wanted[i] < self.least {
            self.least as int
        } else if wanted[i] > most {
            most
        } else {
            wanted[i] as int
        }
    }

    /// The step at which tile `i` begins.
    pub open spec fn start(self, wanted: Seq<i32>, i: int) -> int
        decreases i, 0int,
        when i >= 0
    {
        if i == 0 {
            0
        } else {
            self.start(wanted, i - 1) + self.span(wanted, i - 1)
        }
    }
}

proof fn room_is_left(d: Division, wanted: Seq<i32>, i: int)
    requires
        d.wf(),
        0 <= i < wanted.len(),
    ensures
        d.start(wanted, i) >= 0,
        d.total(wanted.len() as int) - d.start(wanted, i) >= (wanted.len() - i) * d.least,
        d.span(wanted, i) >= d.least,
    decreases i,
{
    let n = wanted.len() as int;
    let least = d.least as int;
    let unit = d.unit as int;
    if i == 0 {
        assert(n * unit >= n * least) by (nonlinear_arith)
            requires
                n >= 0,
                unit >= least,
        ;
        assert(d.total(n) >= n * unit);
    } else {
        room_is_left(d, wanted, i - 1);
        let left = d.total(n) - d.start(wanted, i - 1);
        let most = left - (n - i) * least;
        assert((n - (i - 1)) * least == (n - i) * least + least) by (nonlinear_arith);
        assert(most >= least);
        assert(d.span(wanted, i - 1) <= most);
    }
    assert((n - i) * least == (n - 1 - i) * least + least) by (nonlinear_arith);
    if i == n - 1 {
        assert((n - i) * least == least) by (nonlinear_arith)
            requires
                i == n - 1,
        ;
    }
}

/// Divides a row among tiles that want these steps.
pub fn divide(d: Division, wanted: &Vec<i32>) -> (out: Vec<i32>)
    requires
        d.wf(),
        wanted@.len() * d.unit <= i32::MAX,
    ensures
        out@.len() == wanted@.len(),
        forall|i: int| 0 <= i < out@.len() ==> (#[trigger] out@[i]) == d.span(wanted@, i),
{
    let n: usize = wanted.len();
    let ghost m = n as int;
    let ghost total = d.total(m);
    assert(m <= m * (d.unit as int)) by (nonlinear_arith)
        requires
            m >= 0,
            d.unit >= 1,
    ;
    let tiles: i32 = n as i32;
    let all: i32 = {
        let units: i32 = tiles * d.unit;
        if units > d.base {
            units
        } else {
            d.base
        }
    };
    assert(all == total);
    let mut out: Vec<i32> = Vec::new();
    let mut start: i32 = 0;
    for i in 0..n
        invariant
            d.wf(),
            n == wanted@.len(),
            m == n as int,
            m <= i32::MAX,
            tiles == n,
            all == total,
            total == d.total(m),
            out@.len() == i,
            forall|k: int| 0 <= k < i ==> (#[trigger] out@[k]) == d.span(wanted@, k),
            start == d.start(wanted@, i as int),
            0 <= start <= all,
    {
        proof {
            room_is_left(d, wanted@, i as int);
        }
        let left: i32 = all - start;
        let rest: i32 = tiles - 1 - (i as i32);
        let ghost r = m - 1 - i;
        assert((m - i) * (d.least as int) == r * (d.least as int) + d.least) by (nonlinear_arith)
            requires
                r == m - 1 - i,
        ;
        assert(0 <= r * (d.least as int)) by (nonlinear_arith)
            requires
                r >= 0,
                d.least > 0,
        ;
        let span: i32 = if rest == 0 {
            left
        } else {
            let most: i32 = left - rest * d.least;
            if wanted[i] < d.least {
                d.least
            } else if wanted[i] > most {
                most
            } else {
                wanted[i]
            }
        };
        assert(span == d.span(wanted@, i as int));
        assert(span <= left);
        out.push(span);
        start = start + span;
    }
    out
}

// Laws

/// The tiles of a row fill it: every tile gets its least at least, and all together
/// get all steps.
pub proof fn rows_are_filled(d: Division, wanted: Seq<i32>, i: int)
    requires
        d.wf(),
        0 <= i < wanted.len(),
    ensures
        d.span(wanted, i) >= d.least,
        d.start(wanted, i) + d.span(wanted, i) <= d.total(wanted.len() as int),
        d.start(wanted, wanted.len() as int) == d.total(wanted.len() as int),
{
    let n = wanted.len() as int;
    room_is_left(d, wanted, i);
    room_is_left(d, wanted, n - 1);
    let least = d.least as int;
    assert((n - i) * least == (n - 1 - i) * least + least) by (nonlinear_arith);
    assert((n - 1 - i) * least >= 0) by (nonlinear_arith)
        requires
            n - 1 - i >= 0,
            least > 0,
    ;
}

} // verus!
