//! What holds of every decision on candidates.
use crate::lists;
use crate::matcher;
use crate::matcher::{CandidateView, DecisionView};
use crate::model::{MatchView, RuntimeView};
use crate::outside;
use vstd::prelude::*;

verus! {

proof fn with_ranked_keeps(s: Seq<CandidateView>, c: CandidateView)
    ensures
        matcher::with_ranked(s, c).to_multiset() == s.to_multiset().insert(c),
        matcher::with_ranked(s, c).len() == s.len() + 1,
    decreases s.len(),
{
    broadcast use vstd::seq_lib::group_to_multiset_ensures;

    if !(s.len() == 0 || matcher::ranks_before(s.last(), c)) {
        with_ranked_keeps(s.drop_last(), c);
        assert(s =~= s.drop_last().push(s.last()));
        assert(matcher::with_ranked(s, c).to_multiset() =~= s.to_multiset().insert(c));
    }
}

/// `s` is in the order of ranks.
pub open spec fn is_ranked(s: Seq<CandidateView>) -> bool {
    forall|i: int, j: int| 0 <= i < j < s.len() ==> matcher::ranks_before(s[i], s[j])
}

proof fn with_ranked_orders(s: Seq<CandidateView>, c: CandidateView)
    requires
        is_ranked(s),
    ensures
        is_ranked(matcher::with_ranked(s, c)),
        forall|i: int|
            0 <= i < matcher::with_ranked(s, c).len() ==> #[trigger] matcher::with_ranked(s, c)[i] == c
                || s.contains(matcher::with_ranked(s, c)[i]),
    decreases s.len(),
{
    let t = matcher::with_ranked(s, c);
    if s.len() == 0 || matcher::ranks_before(s.last(), c) {
        assert forall|i: int| 0 <= i < t.len() implies #[trigger] t[i] == c || s.contains(t[i]) by {
            if i < s.len() {
                assert(s[i] == t[i]);
            }
        }
        assert forall|i: int, j: int| 0 <= i < j < t.len() implies matcher::ranks_before(
            t[i],
            t[j],
        ) by {
            assert(t[i] == s[i]);
            if j < s.len() {
                assert(t[j] == s[j]);
            } else if i < s.len() - 1 {
                assert(matcher::ranks_before(s[i], s[s.len() - 1]));
            }
        }
    } else {
        let u = s.drop_last();
        with_ranked_orders(u, c);
        let v = matcher::with_ranked(u, c);
        assert forall|i: int| 0 <= i < t.len() implies #[trigger] t[i] == c || s.contains(t[i]) by {
            if i < v.len() {
                assert(t[i] == v[i]);
                if u.contains(v[i]) {
                    let k = choose|k: int| 0 <= k < u.len() && u[k] == v[i];
                    assert(s[k] == t[i]);
                }
            } else {
                assert(t[i] == s[s.len() - 1]);
            }
        }
        assert forall|i: int, j: int| 0 <= i < j < t.len() implies matcher::ranks_before(
            t[i],
            t[j],
        ) by {
            if j == t.len() - 1 {
                assert(t[i] == v[i]);
                if v[i] != c {
                    let k = choose|k: int| 0 <= k < u.len() && u[k] == v[i];
                    assert(s[k] == t[i]);
                }
            } else {
                assert(t[i] == v[i] && t[j] == v[j]);
            }
        }
    }
}

/// Ranking neither drops nor adds a candidate, and puts the higher score first
/// and, among equal scores, the lower identifier.
pub proof fn ranking_keeps_and_orders(s: Seq<CandidateView>)
    ensures
        matcher::ranked(s).to_multiset() == s.to_multiset(),
        matcher::ranked(s).len() == s.len(),
        is_ranked(matcher::ranked(s)),
    decreases s.len(),
{
    broadcast use vstd::seq_lib::group_to_multiset_ensures;

    if s.len() > 0 {
        let before = s.drop_last();
        ranking_keeps_and_orders(before);
        with_ranked_keeps(matcher::ranked(before), s.last());
        with_ranked_orders(matcher::ranked(before), s.last());
        assert(s =~= before.push(s.last()));
    }
}

/// All candidates of one logical window score alike, and each is a free window
/// that fits.
pub proof fn candidates_score_alike(
    m: MatchView,
    windows: Seq<RuntimeView>,
    used: Set<u64>,
    baseline: Option<Set<u64>>,
    c: CandidateView,
)
    requires
        matcher::ranked(matcher::eligible(m, windows, used, baseline)).contains(c),
    ensures
        matcher::eligible(m, windows, used, baseline).contains(c),
        c.score == (matcher::weight(m) + if baseline is Some {
            100int
        } else {
            0
        }) as i32,
        exists|i: int|
            0 <= i < windows.len() && (#[trigger] windows[i]).id == c.id && matcher::is_free(
                c.id,
                used,
                baseline,
            ) && matcher::accepts(m, windows[i]),
{
    broadcast use vstd::seq_lib::group_to_multiset_ensures;

    let s = matcher::eligible(m, windows, used, baseline);
    ranking_keeps_and_orders(s);
    assert(matcher::ranked(s).to_multiset().count(c) > 0);
    assert(s.contains(c));
    let f = matcher::candidate_at(m, windows, used, baseline);
    lists::gather_contains(windows.len(), f, c);
    let i = choose|i: int| 0 <= i < windows.len() && #[trigger] f(i) == Some(c);
    assert(windows[i].id == c.id);
}

/// A window is taken exactly where it is the only one that may be: several that
/// fit are never guessed between.
pub proof fn only_a_single_match_is_taken(
    m: MatchView,
    windows: Seq<RuntimeView>,
    used: Set<u64>,
    baseline: Option<Set<u64>>,
)
    ensures
        ({
            let found = matcher::eligible(m, windows, used, baseline);
            match matcher::decision_of(m, windows, used, baseline) {
                DecisionView::Missing => found.len() == 0,
                DecisionView::One(c) => found.len() == 1 && found[0] == c,
                DecisionView::Ambiguous(cs) => found.len() >= 2 && cs.to_multiset()
                    == found.to_multiset(),
            }
        }),
{
    broadcast use vstd::seq_lib::group_to_multiset_ensures;

    let found = matcher::eligible(m, windows, used, baseline);
    let c = matcher::ranked(found);
    ranking_keeps_and_orders(found);
    if c.len() >= 2 {
        assert(c.contains(c[0]) && c.contains(c[1]));
        candidates_score_alike(m, windows, used, baseline, c[0]);
        candidates_score_alike(m, windows, used, baseline, c[1]);
    } else if c.len() == 1 {
        assert(c.contains(c[0]));
        candidates_score_alike(m, windows, used, baseline, c[0]);
        let k = choose|k: int| 0 <= k < found.len() && found[k] == c[0];
        assert(k == 0);
    }
}

/// A window that is taken is there, agrees with every signal, is not in use, and
/// was not there before the command was started.
pub proof fn a_taken_window_is_free_and_fits(
    m: MatchView,
    windows: Seq<RuntimeView>,
    used: Set<u64>,
    baseline: Option<Set<u64>>,
    c: CandidateView,
)
    requires
        matcher::decision_of(m, windows, used, baseline) == DecisionView::One(c),
    ensures
        matcher::is_free(c.id, used, baseline),
        exists|i: int|
            0 <= i < windows.len() && (#[trigger] windows[i]).id == c.id && matcher::accepts(
                m,
                windows[i],
            ),
{
    let r = matcher::ranked(matcher::eligible(m, windows, used, baseline));
    assert(r.contains(r[0]));
    candidates_score_alike(m, windows, used, baseline, c);
}

/// A window has every signal that a matcher gives: its number is the one that is asked
/// for, it has a text for every pattern, and the pattern finds itself in it.
pub open spec fn has_every_signal(m: MatchView, w: RuntimeView) -> bool {
    &&& m.window_id is Some ==> w.id == m.window_id->0
    &&& m.pid is Some ==> w.pid is Some && w.pid->0 == m.pid->0
    &&& m.app_id is Some ==> w.app_id is Some && outside::regex_matches(m.app_id->0, w.app_id->0)
    &&& m.title is Some ==> w.title is Some && outside::regex_matches(m.title->0, w.title->0)
    &&& m.process is Some ==> w.process_exe is Some && outside::regex_matches(
        m.process->0,
        w.process_exe->0,
    )
    &&& m.cwd is Some ==> w.cwd is Some && outside::regex_matches(m.cwd->0, w.cwd->0)
}

/// All signals count, and each for itself: a window is accepted just where it has
/// every one.
pub proof fn signals_are_anded(m: MatchView, w: RuntimeView)
    ensures
        matcher::accepts(m, w) <==> has_every_signal(m, w),
{
}

/// Window `i` can be taken: it is not in use, was not there before the command was
/// started, and has every signal.
pub open spec fn can_be_taken(
    m: MatchView,
    windows: Seq<RuntimeView>,
    used: Set<u64>,
    baseline: Option<Set<u64>>,
    i: int,
) -> bool {
    &&& 0 <= i < windows.len()
    &&& !used.contains(windows[i].id)
    &&& baseline is Some ==> !baseline->0.contains(windows[i].id)
    &&& has_every_signal(m, windows[i])
}

/// A window is taken where it is the only one that can be, and is the one that is
/// handed out; where none can be, none is; and where several can be, all of them are
/// named and none is taken.
pub proof fn decisions_are_about_the_windows(
    m: MatchView,
    windows: Seq<RuntimeView>,
    used: Set<u64>,
    baseline: Option<Set<u64>>,
)
    ensures
        match matcher::decision_of(m, windows, used, baseline) {
            DecisionView::Missing => forall|i: int| !#[trigger]
                can_be_taken(m, windows, used, baseline, i),
            DecisionView::One(c) => exists|i: int|
                #![trigger can_be_taken(m, windows, used, baseline, i)]
                {
                    &&& can_be_taken(m, windows, used, baseline, i)
                    &&& c.id == windows[i].id && c.app_id == windows[i].app_id && c.title
                        == windows[i].title && c.pid == windows[i].pid && c.process_exe
                        == windows[i].process_exe
                    &&& forall|j: int| #[trigger]
                        can_be_taken(m, windows, used, baseline, j) ==> j == i
                },
            DecisionView::Ambiguous(cs) => {
                &&& exists|i: int, j: int|
                    #![trigger can_be_taken(m, windows, used, baseline, i), can_be_taken(m, windows, used, baseline, j)]
                    i != j && can_be_taken(m, windows, used, baseline, i) && can_be_taken(
                        m,
                        windows,
                        used,
                        baseline,
                        j,
                    )
                &&& forall|i: int| #[trigger]
                    can_be_taken(m, windows, used, baseline, i) ==> exists|c: CandidateView|
                        #[trigger] cs.contains(c) && c.id == windows[i].id
            },
        },
{
    broadcast use vstd::seq_lib::group_to_multiset_ensures;

    let n = windows.len();
    let f = matcher::candidate_at(m, windows, used, baseline);
    let found = matcher::eligible(m, windows, used, baseline);
    let from = lists::gather(n, lists::given_at(f));
    lists::gathered_from(n, f);
    ranking_keeps_and_orders(found);
    only_a_single_match_is_taken(m, windows, used, baseline);
    assert forall|i: int| 0 <= i < n implies ((#[trigger] f(i)) is Some <==> can_be_taken(
        m,
        windows,
        used,
        baseline,
        i,
    )) by {
        signals_are_anded(m, windows[i]);
    }
    assert forall|i: int| #[trigger] can_be_taken(m, windows, used, baseline, i) implies exists|k:
        int| 0 <= k < from.len() && from[k] == i && found[k] == matcher::candidate_of(
        m,
        baseline is Some,
        windows[i],
    ) by {
        let g = lists::given_at(f);
        assert(f(i) is Some);
        assert(g(i) == Some(i));
        lists::gather_contains(n, g, i);
        assert(from.contains(i));
        let k = choose|k: int| 0 <= k < from.len() && from[k] == i;
        assert(f(from[k]) == Some(found[k]));
    }
    match matcher::decision_of(m, windows, used, baseline) {
        DecisionView::Missing => {},
        DecisionView::One(c) => {
            let i = from[0];
            assert(f(from[0]) == Some(found[0]));
            assert(can_be_taken(m, windows, used, baseline, i));
        },
        DecisionView::Ambiguous(cs) => {
            let i = from[0];
            let j = from[1];
            assert(f(from[0]) == Some(found[0]) && f(from[1]) == Some(found[1]));
            assert(can_be_taken(m, windows, used, baseline, i) && can_be_taken(
                m,
                windows,
                used,
                baseline,
                j,
            ));
            assert forall|x: int| #[trigger] can_be_taken(m, windows, used, baseline, x) implies exists|
                c: CandidateView,
            | #[trigger] cs.contains(c) && c.id == windows[x].id by {
                let k = choose|k: int|
                    0 <= k < from.len() && from[k] == x && found[k] == matcher::candidate_of(
                        m,
                        baseline is Some,
                        windows[x],
                    );
                let c = found[k];
                assert(found.contains(c));
                assert(found.to_multiset().count(c) > 0);
                assert(cs.contains(c));
            }
        },
    }
}

} // verus!
