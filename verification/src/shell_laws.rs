//! The walk below a process for its shell, from the first step to the last.
use crate::lists;
use crate::process;
use crate::process::SearchView;
use vstd::prelude::*;

verus! {

/// All processes: their children, executables and working directories.
pub struct Processes {
    pub children: spec_fn(i32) -> Seq<i32>,
    pub exe: spec_fn(i32) -> Option<Seq<char>>,
    pub cwd: spec_fn(i32) -> Option<Seq<char>>,
}

/// The children of each process of a list, in its order.
pub open spec fn below(t: Processes, s: Seq<i32>) -> Seq<i32>
    decreases s.len(),
{
    if s.len() == 0 {
        Seq::empty()
    } else {
        (t.children)(s[0]) + below(t, s.skip(1))
    }
}

/// The processes `n` generations below the root, from the first child of the first
/// parent on.
pub open spec fn generation(t: Processes, root: i32, n: nat) -> Seq<i32>
    decreases n,
{
    if n == 0 {
        seq![root]
    } else {
        below(t, generation(t, root, (n - 1) as nat))
    }
}

/// The first `n` generations below the root, and the root itself.
pub open spec fn generations(t: Processes, root: i32, n: nat) -> Seq<i32>
    decreases n,
{
    if n == 0 {
        generation(t, root, 0)
    } else {
        generations(t, root, (n - 1) as nat) + generation(t, root, n)
    }
}

/// What a list holds beside what is known, each item where it first occurs.
pub open spec fn fresh(known: Seq<i32>, s: Seq<i32>) -> Seq<i32>
    decreases s.len(),
{
    if s.len() == 0 {
        Seq::empty()
    } else if known.contains(s[0]) {
        fresh(known, s.skip(1))
    } else {
        seq![s[0]] + fresh(known.push(s[0]), s.skip(1))
    }
}

/// The processes down to the deepest generation that is looked at, breadth first and
/// each once.
pub open spec fn breadth_first(t: Processes, root: i32) -> Seq<i32> {
    fresh(Seq::empty(), generations(t, root, process::DEEPEST as nat))
}

/// What the `k`th process of a list settles.
pub open spec fn settled_at(t: Processes, v: SearchView, order: Seq<i32>) -> spec_fn(int) -> Option<
    Seq<char>,
> {
    |k: int| v.settles(order[k], (t.exe)(order[k]), (t.cwd)(order[k]))
}

/// A search that begins at `root`.
pub open spec fn start(root: i32) -> SearchView {
    SearchView { root, queue: seq![(root, 0usize)], visited: Seq::empty() }
}

/// The directory that a walk gives: processes are visited until one settles it, and
/// where none does it is that of the root.
pub open spec fn walked(t: Processes, v: SearchView, rounds: nat) -> Option<Seq<char>>
    decreases rounds,
{
    match v.upcoming() {
        Some((pid, depth)) => {
            let found = v.settles(pid, (t.exe)(pid), (t.cwd)(pid));
            if found is Some || rounds == 0 {
                found
            } else {
                walked(
                    t,
                    v.advanced().with_children(depth, (t.children)(pid)),
                    (rounds - 1) as nat,
                )
            }
        },
        None => (t.cwd)(v.root),
    }
}

// Lists

proof fn fresh_splits(known: Seq<i32>, a: Seq<i32>, b: Seq<i32>)
    ensures
        fresh(known, a + b) == fresh(known, a) + fresh(known + fresh(known, a), b),
    decreases a.len(),
{
    if a.len() == 0 {
        assert(a + b =~= b);
        assert(known + fresh(known, a) =~= known);
        assert(fresh(known, a + b) =~= fresh(known, a) + fresh(known + fresh(known, a), b));
    } else {
        let x = a[0];
        assert((a + b).skip(1) =~= a.skip(1) + b);
        assert((a + b)[0] == x);
        if known.contains(x) {
            fresh_splits(known, a.skip(1), b);
        } else {
            let k = known.push(x);
            fresh_splits(k, a.skip(1), b);
            assert(known + fresh(known, a) =~= k + fresh(k, a.skip(1)));
            assert(fresh(known, a + b) =~= fresh(known, a) + fresh(known + fresh(known, a), b));
        }
    }
}

proof fn fresh_covers(known: Seq<i32>, s: Seq<i32>, y: i32)
    requires
        s.contains(y),
    ensures
        (known + fresh(known, s)).contains(y),
    decreases s.len(),
{
    let x = s[0];
    let i = choose|i: int| 0 <= i < s.len() && s[i] == y;
    let all = known + fresh(known, s);
    if known.contains(x) {
        if i == 0 {
            let j = choose|j: int| 0 <= j < known.len() && known[j] == x;
            assert(all[j] == y);
        } else {
            assert(s.skip(1)[i - 1] == y);
            fresh_covers(known, s.skip(1), y);
        }
    } else {
        let k = known.push(x);
        assert(all =~= k + fresh(k, s.skip(1)));
        if i == 0 {
            assert(all[known.len() as int] == y);
        } else {
            assert(s.skip(1)[i - 1] == y);
            fresh_covers(k, s.skip(1), y);
        }
    }
}

proof fn nothing_is_fresh(known: Seq<i32>, s: Seq<i32>)
    requires
        forall|i: int| 0 <= i < s.len() ==> known.contains(#[trigger] s[i]),
    ensures
        fresh(known, s) == Seq::<i32>::empty(),
    decreases s.len(),
{
    if s.len() > 0 {
        assert(known.contains(s[0]));
        assert forall|i: int| 0 <= i < s.skip(1).len() implies known.contains(
            #[trigger] s.skip(1)[i],
        ) by {
            assert(known.contains(s[i + 1]));
        }
        nothing_is_fresh(known, s.skip(1));
    }
}

proof fn below_holds(t: Processes, s: Seq<i32>, x: i32, y: i32)
    requires
        s.contains(x),
        (t.children)(x).contains(y),
    ensures
        below(t, s).contains(y),
    decreases s.len(),
{
    let i = choose|i: int| 0 <= i < s.len() && s[i] == x;
    let c = (t.children)(s[0]);
    let rest = below(t, s.skip(1));
    if i == 0 {
        let j = choose|j: int| 0 <= j < c.len() && c[j] == y;
        assert((c + rest)[j] == y);
    } else {
        assert(s.skip(1)[i - 1] == x);
        below_holds(t, s.skip(1), x, y);
        let j = choose|j: int| 0 <= j < rest.len() && rest[j] == y;
        assert((c + rest)[c.len() + j] == y);
    }
}

/// The children of all of `a` are in `b`.
spec fn leads_into(t: Processes, a: Seq<i32>, b: Seq<i32>) -> bool {
    forall|x: int, y: i32|
        #![trigger a[x], b.contains(y)]
        0 <= x < a.len() && (t.children)(a[x]).contains(y) ==> b.contains(y)
}

/// To leave out what is known already leaves out no fresh child.
proof fn known_parents_add_nothing(t: Processes, known: Seq<i32>, next: Seq<i32>, s: Seq<i32>)
    requires
        leads_into(t, known, next),
    ensures
        fresh(next, below(t, fresh(known, s))) == fresh(next, below(t, s)),
    decreases s.len(),
{
    if s.len() > 0 {
        let x = s[0];
        let c = (t.children)(x);
        let rest = below(t, s.skip(1));
        let after = next + fresh(next, c);
        fresh_splits(next, c, rest);
        if known.contains(x) {
            let k = choose|k: int| 0 <= k < known.len() && known[k] == x;
            assert forall|i: int| 0 <= i < c.len() implies next.contains(#[trigger] c[i]) by {
                assert((t.children)(known[k]).contains(c[i]));
            }
            nothing_is_fresh(next, c);
            assert(after =~= next);
            known_parents_add_nothing(t, known, next, s.skip(1));
            assert(fresh(next, c) + fresh(after, rest) =~= fresh(next, rest));
        } else {
            let k = known.push(x);
            let kept = fresh(k, s.skip(1));
            assert forall|i: int, y: i32|
                #![trigger k[i], after.contains(y)]
                0 <= i < k.len() && (t.children)(k[i]).contains(y) implies after.contains(y) by {
                if i < known.len() {
                    assert((t.children)(known[i]).contains(y));
                    assert(next.contains(y));
                    let j = choose|j: int| 0 <= j < next.len() && next[j] == y;
                    assert(after[j] == y);
                } else {
                    fresh_covers(next, c, y);
                }
            }
            known_parents_add_nothing(t, k, after, s.skip(1));
            assert(fresh(known, s) == seq![x] + kept);
            assert((seq![x] + kept).skip(1) =~= kept);
            assert((seq![x] + kept)[0] == x);
            assert(below(t, fresh(known, s)) == c + below(t, kept));
            fresh_splits(next, c, below(t, kept));
        }
    } else {
        assert(fresh(known, s) =~= s);
    }
}

// The walk

/// What will have been visited at the end, where `q` is left of a generation and `c`
/// has come up of the next.
spec fn at_end(t: Processes, visited: Seq<i32>, q: Seq<i32>, n: nat, c: Seq<i32>) -> Seq<i32>
    decreases process::DEEPEST - n,
{
    let new = fresh(visited, q);
    if n >= process::DEEPEST {
        visited + new
    } else {
        at_end(t, visited + new, c + below(t, new), n + 1, Seq::empty())
    }
}

proof fn visited_stays(t: Processes, visited: Seq<i32>, q: Seq<i32>, n: nat, c: Seq<i32>)
    ensures
        visited.is_prefix_of(at_end(t, visited, q, n, c)),
    decreases process::DEEPEST - n,
{
    let new = fresh(visited, q);
    let end = at_end(t, visited, q, n, c);
    if n < process::DEEPEST {
        visited_stays(t, visited + new, c + below(t, new), n + 1, Seq::empty());
    }
    assert((visited + new).is_prefix_of(end));
    assert(visited =~= end.subrange(0, visited.len() as int)) by {
        assert(visited + new =~= end.subrange(0, (visited + new).len() as int));
    }
}

proof fn nothing_left_is_the_end(t: Processes, visited: Seq<i32>, n: nat)
    ensures
        at_end(t, visited, Seq::empty(), n, Seq::empty()) == visited,
    decreases process::DEEPEST - n,
{
    let none = Seq::<i32>::empty();
    assert(fresh(visited, none) == none);
    assert(visited + none =~= visited);
    assert(none + below(t, none) =~= none);
    if n < process::DEEPEST {
        nothing_left_is_the_end(t, visited, n + 1);
    }
}

/// What is visited generation by generation is what breadth first gives.
proof fn the_end_is_breadth_first(
    t: Processes,
    root: i32,
    visited: Seq<i32>,
    q: Seq<i32>,
    n: nat,
)
    requires
        n <= process::DEEPEST,
        fresh(visited, q) == fresh(visited, generation(t, root, n)),
        visited + fresh(visited, q) == fresh(Seq::empty(), generations(t, root, n)),
        leads_into(t, visited, visited + fresh(visited, q)),
    ensures
        at_end(t, visited, q, n, Seq::empty()) == breadth_first(t, root),
    decreases process::DEEPEST - n,
{
    let new = fresh(visited, q);
    let all = visited + new;
    let none = Seq::<i32>::empty();
    if n < process::DEEPEST {
        let next = below(t, new);
        assert(none + next =~= next);
        known_parents_add_nothing(t, visited, all, generation(t, root, n));
        assert(fresh(all, next) == fresh(all, generation(t, root, n + 1)));
        fresh_splits(none, generations(t, root, n), generation(t, root, n + 1));
        assert(none + fresh(none, generations(t, root, n)) =~= all);
        let after = all + fresh(all, next);
        assert forall|i: int, y: i32|
            #![trigger all[i], after.contains(y)]
            0 <= i < all.len() && (t.children)(all[i]).contains(y) implies after.contains(y) by {
            if i < visited.len() {
                assert((t.children)(visited[i]).contains(y));
                assert(all.contains(y));
                let j = choose|j: int| 0 <= j < all.len() && all[j] == y;
                assert(after[j] == y);
            } else {
                assert(new[i - visited.len()] == all[i]);
                assert(new.contains(all[i]));
                below_holds(t, new, all[i], y);
                fresh_covers(all, next, y);
            }
        }
        the_end_is_breadth_first(t, root, all, next, n + 1);
    }
}

/// The processes of a list, `n` below the root.
spec fn at_depth(s: Seq<i32>, n: nat) -> Seq<(i32, usize)> {
    s.map_values(|p: i32| (p, n as usize))
}

/// The search will have visited `goal` at the end.
spec fn leads_to(
    t: Processes,
    v: SearchView,
    goal: Seq<i32>,
    q: Seq<i32>,
    n: nat,
    c: Seq<i32>,
) -> bool {
    &&& n <= process::DEEPEST
    &&& n == process::DEEPEST ==> c.len() == 0
    &&& v.queue == at_depth(q, n) + at_depth(c, n + 1)
    &&& at_end(t, v.visited, q, n, c) == goal
}

/// An entry that was visited already makes no difference.
proof fn visited_entries_are_skipped(v: SearchView)
    requires
        v.queue.len() > 0,
        v.visited.contains(v.queue[0].0),
    ensures
        ({
            let w = SearchView { queue: v.queue.skip(1), ..v };
            w.upcoming() == v.upcoming() && w.advanced() == v.advanced()
        }),
{
    let w = SearchView { queue: v.queue.skip(1), ..v };
    let p = process::first_new(v.visited);
    if lists::first_where(w.queue, p) is Some {
        lists::first_holds(w.queue, p);
        let i = lists::first_where(w.queue, p)->0;
        assert forall|k: int| 0 <= k < i + 1 implies !p(#[trigger] v.queue[k]) by {
            if k > 0 {
                assert(!p(w.queue[k - 1]));
            }
        }
        assert(p(w.queue[i]));
        assert(v.queue[i + 1] == w.queue[i]);
        lists::first_is(v.queue, p, i + 1);
        assert(v.queue.skip(i + 2) =~= w.queue.skip(i + 1));
    } else {
        lists::first_is_none(w.queue, p);
        assert forall|k: int| 0 <= k < v.queue.len() implies !p(#[trigger] v.queue[k]) by {
            if k > 0 {
                assert(!p(w.queue[k - 1]));
            }
        }
        lists::first_is_none(v.queue, p);
    }
}

/// A round of the search visits the next process of the goal, or there is none left.
proof fn rounds_lead_on(
    t: Processes,
    v: SearchView,
    goal: Seq<i32>,
    q: Seq<i32>,
    n: nat,
    c: Seq<i32>,
) -> (out: (Seq<i32>, nat, Seq<i32>))
    requires
        leads_to(t, v, goal, q, n, c),
    ensures
        match v.upcoming() {
            None => v.visited == goal,
            Some((pid, depth)) => {
                let w = v.advanced().with_children(depth, (t.children)(pid));
                &&& v.visited.len() < goal.len()
                &&& goal[v.visited.len() as int] == pid
                &&& w.visited == v.visited.push(pid)
                &&& w.root == v.root
                &&& leads_to(t, w, goal, out.0, out.1, out.2)
            },
        },
    decreases v.queue.len(), process::DEEPEST - n,
{
    let p = process::first_new(v.visited);
    let none = Seq::<i32>::empty();
    if q.len() == 0 {
        assert(q =~= none);
        if c.len() == 0 {
            assert(c =~= none);
            assert(v.queue.len() == 0);
            lists::first_is_none(v.queue, p);
            nothing_left_is_the_end(t, v.visited, n);
            (q, n, c)
        } else {
            assert(v.queue =~= at_depth(c, n + 1) + at_depth(none, n + 2));
            assert(fresh(v.visited, q) == none);
            assert(v.visited + none =~= v.visited);
            assert(c + below(t, none) =~= c);
            rounds_lead_on(t, v, goal, c, n + 1, none)
        }
    } else {
        let x = q[0];
        let rest = q.skip(1);
        assert(v.queue[0] == (x, n as usize));
        assert(v.queue.skip(1) =~= at_depth(rest, n) + at_depth(c, n + 1));
        if v.visited.contains(x) {
            let w = SearchView { queue: v.queue.skip(1), ..v };
            visited_entries_are_skipped(v);
            rounds_lead_on(t, w, goal, rest, n, c)
        } else {
            lists::first_is(v.queue, p, 0);
            let children = (t.children)(x);
            let w = v.advanced().with_children(n as usize, children);
            let k = v.visited.push(x);
            let more = if n < process::DEEPEST {
                c + children
            } else {
                c
            };
            let new = fresh(k, rest);
            assert(fresh(v.visited, q) == seq![x] + new);
            assert(v.visited + (seq![x] + new) =~= k + new);
            if n < process::DEEPEST {
                assert((seq![x] + new).skip(1) =~= new);
                assert((seq![x] + new)[0] == x);
                assert(c + below(t, seq![x] + new) =~= more + below(t, new));
            }
            assert(at_end(t, k, rest, n, more) == goal);
            assert(w.queue =~= at_depth(rest, n) + at_depth(more, n + 1));
            visited_stays(t, k, rest, n, more);
            assert(k =~= goal.subrange(0, k.len() as int));
            assert(goal[v.visited.len() as int] == k[v.visited.len() as int]);
            (rest, n, more)
        }
    }
}

/// The walk from a search on gives what the first process of the goal settles that
/// settles anything.
proof fn walks_find_the_first(
    t: Processes,
    v: SearchView,
    goal: Seq<i32>,
    q: Seq<i32>,
    n: nat,
    c: Seq<i32>,
    rounds: nat,
)
    requires
        leads_to(t, v, goal, q, n, c),
        rounds + v.visited.len() >= goal.len(),
        v.visited.len() <= goal.len(),
        forall|k: int|
            0 <= k < v.visited.len() ==> (#[trigger] settled_at(t, v, goal)(k)) is None,
    ensures
        walked(t, v, rounds) == match lists::first_given(goal.len(), settled_at(t, v, goal)) {
            Some(cwd) => Some(cwd),
            None => (t.cwd)(v.root),
        },
    decreases rounds,
{
    let f = settled_at(t, v, goal);
    let (q2, n2, c2) = rounds_lead_on(t, v, goal, q, n, c);
    match v.upcoming() {
        None => {
            lists::first_given_none(goal.len(), f);
        },
        Some((pid, depth)) => {
            let at = v.visited.len() as int;
            let w = v.advanced().with_children(depth, (t.children)(pid));
            assert(f(at) == v.settles(pid, (t.exe)(pid), (t.cwd)(pid)));
            if f(at) is Some {
                lists::first_given_is(goal.len(), f, at);
            } else {
                assert(settled_at(t, w, goal) =~= f);
                assert forall|k: int| 0 <= k < w.visited.len() implies (#[trigger] settled_at(
                    t,
                    w,
                    goal,
                )(k)) is None by {
                    if k < at {
                        assert(f(k) is None);
                    }
                }
                walks_find_the_first(t, w, goal, q2, n2, c2, (rounds - 1) as nat);
            }
        },
    }
}

/// A whole walk gives the working directory of the first shell below the root that
/// has one, breadth first and no deeper than is looked at, and else that of the root.
pub proof fn the_first_shell_gives_the_directory(t: Processes, root: i32, rounds: nat)
    requires
        rounds >= breadth_first(t, root).len(),
    ensures
        ({
            let order = breadth_first(t, root);
            walked(t, start(root), rounds) == match lists::first_given(
                order.len(),
                settled_at(t, start(root), order),
            ) {
                Some(cwd) => Some(cwd),
                None => (t.cwd)(root),
            }
        }),
{
    let v = start(root);
    let none = Seq::<i32>::empty();
    let q = seq![root];
    let goal = breadth_first(t, root);
    assert(generation(t, root, 0) == q);
    assert(none + fresh(none, q) =~= fresh(none, q));
    the_end_is_breadth_first(t, root, none, q, 0);
    assert(v.queue =~= at_depth(q, 0) + at_depth(none, 1));
    walks_find_the_first(t, v, goal, q, 0, none, rounds);
}

} // verus!
