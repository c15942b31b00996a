//! What is promised of windows that are started.
use crate::lists;
use crate::match_laws;
use crate::matcher;
use crate::matcher::{CandidateView, DecisionView};
use crate::model::{MatchView, RuntimeView};
use crate::spawn;
use crate::spawn::{SpawnErrorView, SpawnStep};
use vstd::prelude::*;

verus! {

/// A command is run as its words expand, each in its place. Where one cannot be
/// expanded, nothing is run, and the first such word is named with its error; and
/// nothing is run where there is no command.
pub proof fn commands_run_as_they_expand(
    name: Seq<char>,
    command: Seq<Seq<char>>,
    results: Seq<Result<Seq<char>, Seq<char>>>,
)
    requires
        results.len() == command.len(),
    ensures
        match spawn::launched(name, command, results) {
            Ok(words) => command.len() > 0 && words.len() == command.len() && forall|i: int|
                0 <= i < words.len() ==> results[i] == Ok::<Seq<char>, Seq<char>>(
                    #[trigger] words[i],
                ),
            Err(SpawnErrorView::MissingCommand { name: n }) => n == name && command.len() == 0,
            Err(SpawnErrorView::Expand { name: n, arg, message }) => n == name && exists|i: int|
                0 <= i < command.len() && #[trigger] command[i] == arg && results[i] == Err::<
                    Seq<char>,
                    Seq<char>,
                >(message) && forall|j: int| 0 <= j < i ==> (#[trigger] results[j]) is Ok,
            Err(_) => false,
        },
{
    let p = |r: Result<Seq<char>, Seq<char>>| r is Err;
    lists::first_is_none(results, p);
    match lists::first_where(results, p) {
        Some(i) => {
            lists::first_holds(results, p);
            if command.len() > 0 {
                assert(command[i] == command[i]);
                assert forall|j: int| 0 <= j < i implies (#[trigger] results[j]) is Ok by {
                    assert(!p(results[j]));
                }
            }
        },
        None => {
            assert forall|i: int| 0 <= i < results.len() implies (#[trigger] results[i]) is Ok by {
                assert(!p(results[i]));
            }
        },
    }
}

/// A window that came up is taken only once it is still the only one after a short
/// time; one that is gone by then is looked for again.
pub proof fn windows_have_to_stay(d: DecisionView, settling: bool, id: u64)
    ensures
        spawn::step_of(d, settling) == SpawnStep::Resolved(id) <==> settling && d is One && d->One_0.id
            == id,
        spawn::step_of(d, settling) is Settle <==> !settling && d is One,
        spawn::step_of(d, settling) is Again <==> settling && d is Missing,
        spawn::step_of(d, settling) is Wait <==> d is Ambiguous || (!settling && d is Missing),
{
}

/// How many of the candidates are of a process.
pub open spec fn of_pid(cs: Seq<CandidateView>, pid: i32) -> int
    decreases cs.len(),
{
    if cs.len() == 0 {
        0
    } else {
        of_pid(cs.drop_last(), pid) + if cs.last().pid == Some(pid) {
            1int
        } else {
            0
        }
    }
}

proof fn of_pid_pushed(cs: Seq<CandidateView>, c: CandidateView, pid: i32)
    ensures
        of_pid(cs.push(c), pid) == of_pid(cs, pid) + if c.pid == Some(pid) {
            1int
        } else {
            0
        },
{
    assert(cs.push(c).drop_last() =~= cs);
}

proof fn ranking_keeps_pids(cs: Seq<CandidateView>, pid: i32)
    ensures
        of_pid(matcher::ranked(cs), pid) == of_pid(cs, pid),
    decreases cs.len(),
{
    if cs.len() > 0 {
        ranking_keeps_pids(cs.drop_last(), pid);
        placing_keeps_pids(matcher::ranked(cs.drop_last()), cs.last(), pid);
    }
}

proof fn placing_keeps_pids(cs: Seq<CandidateView>, c: CandidateView, pid: i32)
    ensures
        of_pid(matcher::with_ranked(cs, c), pid) == of_pid(cs, pid) + if c.pid == Some(pid) {
            1int
        } else {
            0
        },
    decreases cs.len(),
{
    if cs.len() == 0 || matcher::ranks_before(cs.last(), c) {
        of_pid_pushed(cs, c, pid);
    } else {
        placing_keeps_pids(cs.drop_last(), c, pid);
        of_pid_pushed(matcher::with_ranked(cs.drop_last(), c), cs.last(), pid);
    }
}

proof fn none_of_pid(cs: Seq<CandidateView>, pid: i32)
    ensures
        of_pid(cs, pid) >= 0,
        of_pid(cs, pid) == 0 <==> forall|i: int|
            0 <= i < cs.len() ==> (#[trigger] cs[i]).pid != Some(pid),
    decreases cs.len(),
{
    if cs.len() > 0 {
        let front = cs.drop_last();
        none_of_pid(front, pid);
        assert(forall|i: int| 0 <= i < front.len() ==> front[i] == #[trigger] cs[i]);
        assert(forall|i: int| 0 <= i < front.len() ==> #[trigger] front[i] == cs[i]);
        assert(cs[cs.len() - 1] == cs.last());
    }
}

/// A single candidate of a process is the only one.
proof fn one_of_pid(cs: Seq<CandidateView>, pid: i32)
    ensures
        of_pid(cs, pid) == 1 <==> exists|i: int| #[trigger] spawn::only_of_pid(cs, pid, i),
    decreases cs.len(),
{
    none_of_pid(cs, pid);
    if cs.len() > 0 {
        let front = cs.drop_last();
        let last = cs.len() - 1;
        one_of_pid(front, pid);
        none_of_pid(front, pid);
        assert(forall|i: int| 0 <= i < front.len() ==> #[trigger] front[i] == cs[i]);
        assert(cs[last] == cs.last());
        if of_pid(cs, pid) == 1 {
            if cs.last().pid == Some(pid) {
                assert forall|j: int| 0 <= j < cs.len() && j != last implies (#[trigger] cs[j]).pid
                    != Some(pid) by {
                    assert(front[j].pid != Some(pid));
                }
                assert(spawn::only_of_pid(cs, pid, last));
            } else {
                let i = choose|i: int| #[trigger] spawn::only_of_pid(front, pid, i);
                assert forall|j: int| 0 <= j < cs.len() && j != i implies (#[trigger] cs[j]).pid
                    != Some(pid) by {
                    if j < last {
                        assert(front[j].pid != Some(pid));
                    }
                }
                assert(spawn::only_of_pid(cs, pid, i));
            }
        }
        if exists|i: int| #[trigger] spawn::only_of_pid(cs, pid, i) {
            let i = choose|i: int| #[trigger] spawn::only_of_pid(cs, pid, i);
            if i == last {
                assert forall|j: int| 0 <= j < front.len() implies (#[trigger] front[j]).pid != Some(
                    pid,
                ) by {
                    assert(cs[j].pid != Some(pid));
                }
            } else {
                assert forall|j: int| 0 <= j < front.len() && j != i implies (
                #[trigger] front[j]).pid != Some(pid) by {
                    assert(cs[j].pid != Some(pid));
                }
                assert(spawn::only_of_pid(front, pid, i));
                assert(cs[last].pid != Some(pid));
            }
        }
    }
}

/// Window `i` came up for the command and is of the process.
pub open spec fn came_up_of(
    m: MatchView,
    windows: Seq<RuntimeView>,
    used: Set<u64>,
    baseline: Set<u64>,
    pid: i32,
    i: int,
) -> bool {
    match_laws::can_be_taken(m, windows, used, Some(baseline), i) && windows[i].pid == Some(pid)
}

/// Of the first `n` windows just window `i` came up and is of the process.
proof fn eligible_of_pid(
    m: MatchView,
    windows: Seq<RuntimeView>,
    used: Set<u64>,
    baseline: Set<u64>,
    pid: i32,
    n: nat,
    i: int,
)
    requires
        n <= windows.len(),
        came_up_of(m, windows, used, baseline, pid, i),
        forall|j: int| #[trigger] came_up_of(m, windows, used, baseline, pid, j) ==> j == i,
    ensures
        of_pid(
            lists::gather(n, matcher::candidate_at(m, windows, used, Some(baseline))),
            pid,
        ) == if i < n {
            1int
        } else {
            0
        },
    decreases n,
{
    if n > 0 {
        let f = matcher::candidate_at(m, windows, used, Some(baseline));
        let last = n - 1;
        eligible_of_pid(m, windows, used, baseline, pid, last as nat, i);
        match_laws::signals_are_anded(m, windows[last]);
        let b = came_up_of(m, windows, used, baseline, pid, last);
        if f(last) is Some {
            of_pid_pushed(lists::gather(last as nat, f), f(last)->0, pid);
        }
    }
}

/// The window that came up for a command is the only one that is free, new and fits.
/// Where there are several, it is the only one of the process that was started.
pub proof fn the_window_of_the_process_is_taken(
    m: MatchView,
    windows: Seq<RuntimeView>,
    used: Set<u64>,
    baseline: Set<u64>,
    pid: Option<u32>,
    i: int,
)
    requires
        match_laws::can_be_taken(m, windows, used, Some(baseline), i),
        (forall|j: int| #[trigger]
            match_laws::can_be_taken(m, windows, used, Some(baseline), j) ==> j == i) || (pid is Some
            && pid->0 <= i32::MAX && windows[i].pid == Some(pid->0 as i32) && forall|j: int|
            #[trigger]
            came_up_of(m, windows, used, baseline, pid->0 as i32, j) ==> j == i),
    ensures
        spawn::step_of(spawn::spawn_decision(m, windows, used, baseline, pid), true)
            == SpawnStep::Resolved(windows[i].id),
{
    let base = Some(baseline);
    match_laws::decisions_are_about_the_windows(m, windows, used, base);
    let found = matcher::eligible(m, windows, used, base);
    match_laws::only_a_single_match_is_taken(m, windows, used, base);
    match matcher::decision_of(m, windows, used, base) {
        DecisionView::Missing => {},
        DecisionView::One(c) => {
            let k = choose|k: int|
                #![trigger match_laws::can_be_taken(m, windows, used, base, k)]
                {
                    &&& match_laws::can_be_taken(m, windows, used, base, k)
                    &&& c.id == windows[k].id && c.app_id == windows[k].app_id && c.title
                        == windows[k].title && c.pid == windows[k].pid && c.process_exe
                        == windows[k].process_exe
                    &&& forall|j: int| #[trigger]
                        match_laws::can_be_taken(m, windows, used, base, j) ==> j == k
                };
            assert(k == i);
        },
        DecisionView::Ambiguous(cs) => {
            let n = pid->0 as i32;
            assert(came_up_of(m, windows, used, baseline, n, i));
            eligible_of_pid(m, windows, used, baseline, n, windows.len(), i);
            ranking_keeps_pids(found, n);
            one_of_pid(cs, n);
            let k = choose|k: int| spawn::only_of_pid(cs, n, k);
            let c = cs[k];
            assert(matcher::ranked(found).contains(c));
            match_laws::candidates_score_alike(m, windows, used, base, c);
            let f = matcher::candidate_at(m, windows, used, base);
            lists::gather_contains(windows.len(), f, c);
            let j = choose|j: int| 0 <= j < windows.len() && #[trigger] f(j) == Some(c);
            match_laws::signals_are_anded(m, windows[j]);
            assert(came_up_of(m, windows, used, baseline, n, j));
        },
    }
}

/// A window that did not come up, or that cannot be told from another, is not taken,
/// however long it is waited for.
pub proof fn nothing_is_guessed(
    m: MatchView,
    windows: Seq<RuntimeView>,
    used: Set<u64>,
    baseline: Set<u64>,
    settling: bool,
    i: int,
    j: int,
)
    ensures
        (forall|k: int| !#[trigger] match_laws::can_be_taken(m, windows, used, Some(baseline), k))
            ==> !(spawn::step_of(
            spawn::spawn_decision(m, windows, used, baseline, None),
            settling,
        ) is Resolved),
        i != j && match_laws::can_be_taken(m, windows, used, Some(baseline), i)
            && match_laws::can_be_taken(m, windows, used, Some(baseline), j) ==> spawn::step_of(
            spawn::spawn_decision(m, windows, used, baseline, None),
            settling,
        ) is Wait,
{
    match_laws::decisions_are_about_the_windows(m, windows, used, Some(baseline));
}

} // verus!
