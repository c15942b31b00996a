//! Names made from titles, and names that are still free.
use crate::apps;
use crate::lists;
use crate::text;
use crate::text::{char_is_alnum, char_lower, chars_of, list_contains, push_wide};
use vstd::prelude::*;

verus! {

/// The letters and digits of a text in lower case, with one dash for whatever
/// stands between them.
pub open spec fn slug(s: Seq<char>) -> Seq<char>
    decreases s.len(),
{
    if s.len() == 0 {
        Seq::empty()
    } else {
        let before = slug(s.drop_last());
        if !text::is_alnum(s.last()) {
            before
        } else if before.len() > 0 && !text::is_alnum(s[s.len() - 2]) {
            before.push('-').push(text::lower(s.last()))
        } else {
            before.push(text::lower(s.last()))
        }
    }
}

/// The letters and digits of a text in lower case, with one dash for whatever
/// stands between them.
pub fn unique_slug(value: &str) -> (out: String)
    ensures
        out@ == slug(value@),
{
    let cs: Vec<char> = chars_of(value);
    let mut out = String::new();
    let mut empty: bool = true;
    let mut dash: bool = false;
    assert(out@ =~= slug(value@.take(0)));
    for i in 0..cs.len()
        invariant
            cs@ == value@,
            out@ == slug(value@.take(i as int)),
            empty == (out@.len() == 0),
            !empty ==> i > 0 && dash == !text::is_alnum(value@[i - 1]),
    {
        let ghost before = value@.take(i as int);
        let ghost after = value@.take(i + 1);
        assert(after.drop_last() =~= before);
        assert(after.last() == cs@[i as int]);
        if char_is_alnum(cs[i]) {
            if dash && !empty {
                out.push('-');
            }
            dash = false;
            out.push(char_lower(cs[i]));
            empty = false;
        } else {
            dash = true;
        }
    }
    assert(value@.take(value@.len() as int) =~= value@);
    out
}

/// A letter or digit in lower case.
pub open spec fn is_slug_char(c: char) -> bool {
    'a' <= c <= 'z' || text::is_digit(c)
}

/// A slug holds only letters and digits in lower case and dashes; it neither
/// begins nor ends with a dash, nor do two dashes follow each other.
pub proof fn slugs_are_clean(s: Seq<char>)
    ensures
        forall|i: int|
            0 <= i < slug(s).len() ==> is_slug_char(#[trigger] slug(s)[i]) || (slug(s)[i] == '-' && 0
                < i < slug(s).len() - 1 && is_slug_char(slug(s)[i - 1]) && is_slug_char(
                slug(s)[i + 1],
            )),
    decreases s.len(),
{
    if s.len() > 0 {
        slugs_are_clean(s.drop_last());
        let before = slug(s.drop_last());
        let out = slug(s);
        if before.len() > 0 {
            assert(is_slug_char(before[before.len() - 1]));
        }
        assert forall|i: int| 0 <= i < out.len() implies is_slug_char(#[trigger] out[i]) || (out[i]
            == '-' && 0 < i < out.len() - 1 && is_slug_char(out[i - 1]) && is_slug_char(
            out[i + 1],
        )) by {
            if i < before.len() {
                assert(out[i] == before[i]);
                if !is_slug_char(before[i]) {
                    assert(out[i - 1] == before[i - 1]);
                    assert(out[i + 1] == before[i + 1]);
                }
            }
        }
    }
}

proof fn slug_of_clean(s: Seq<char>)
    requires
        forall|i: int|
            0 <= i < s.len() ==> is_slug_char(#[trigger] s[i]) || (s[i] == '-' && 0 < i
                && is_slug_char(s[i - 1])),
    ensures
        s.len() > 0 && s.last() == '-' ==> slug(s) == s.drop_last(),
        s.len() > 0 && s.last() != '-' ==> slug(s) == s,
        s.len() == 0 ==> slug(s) == s,
    decreases s.len(),
{
    if s.len() > 0 {
        let before = s.drop_last();
        assert forall|i: int| 0 <= i < before.len() implies is_slug_char(#[trigger] before[i]) || (
        before[i] == '-' && 0 < i && is_slug_char(before[i - 1])) by {
            assert(before[i] == s[i]);
            if i > 0 {
                assert(before[i - 1] == s[i - 1]);
            }
        }
        slug_of_clean(before);
        let last = s[s.len() - 1];
        if last == '-' {
            assert(is_slug_char(s[s.len() - 2]));
            assert(before.last() != '-');
        } else {
            assert(is_slug_char(last));
            assert(text::lower(last) == last);
            if before.len() > 0 && before.last() == '-' {
                assert(s[s.len() - 2] == '-');
                assert(is_slug_char(s[s.len() - 3]));
                assert(slug(s) =~= s);
            } else {
                if before.len() > 0 {
                    assert(is_slug_char(s[s.len() - 2]));
                }
                assert(slug(s) =~= s);
            }
        }
    }
}

/// The slug of a slug is itself.
pub proof fn slugs_are_stable(s: Seq<char>)
    ensures
        slug(slug(s)) == slug(s),
{
    slugs_are_clean(s);
    let t = slug(s);
    assert forall|i: int| 0 <= i < t.len() implies is_slug_char(#[trigger] t[i]) || (t[i] == '-' && 0
        < i && is_slug_char(t[i - 1])) by {}
    slug_of_clean(t);
    if t.len() > 0 {
        assert(is_slug_char(t[t.len() - 1]));
    }
}

/// Without its dashes, a slug is the identity of the text: its letters and digits in
/// lower case.
pub proof fn slugs_hold_the_identity(s: Seq<char>)
    ensures
        slug(s).filter(|c: char| c != '-') == apps::identity(s),
    decreases s.len(),
{
    let solid = |c: char| c != '-';
    let keep = |c: char| text::is_alnum(c);
    let low = |c: char| text::lower(c);
    reveal(Seq::filter);
    if s.len() == 0 {
        assert(slug(s).filter(solid) =~= s.filter(keep).map_values(low));
    } else {
        slugs_hold_the_identity(s.drop_last());
        let before = slug(s.drop_last());
        let c = s.last();
        if text::is_alnum(c) {
            let l = text::lower(c);
            assert(l != '-');
            assert(s.filter(keep) == s.drop_last().filter(keep).push(c));
            assert(before.push(l).drop_last() =~= before);
            assert(before.push('-').drop_last() =~= before);
            assert(before.push('-').push(l).drop_last() =~= before.push('-'));
            assert(before.push('-').filter(solid) == before.filter(solid));
            assert(slug(s).filter(solid) == before.filter(solid).push(l));
            assert(s.filter(keep).map_values(low) =~= s.drop_last().filter(keep).map_values(low).push(
                l,
            ));
        }
    }
}

pub open spec fn kept_at(s: Seq<char>) -> spec_fn(int) -> Option<int> {
    |i: int|
        if text::is_alnum(s[i]) {
            Some(i)
        } else {
            None
        }
}

/// The places of the letters and digits of a text.
pub open spec fn kept(s: Seq<char>) -> Seq<int> {
    lists::gather(s.len(), kept_at(s))
}

/// Where the `k`th letter or digit stands in the slug: right behind the one before
/// it, or with a dash between them where something else lay between them.
pub open spec fn slug_place(kept: Seq<int>, k: int) -> int
    decreases k,
{
    if k <= 0 {
        0
    } else if kept[k] == kept[k - 1] + 1 {
        slug_place(kept, k - 1) + 1
    } else {
        slug_place(kept, k - 1) + 2
    }
}

proof fn slug_place_is_local(kept: Seq<int>, x: int, k: int)
    requires
        k < kept.len(),
    ensures
        slug_place(kept.push(x), k) == slug_place(kept, k),
    decreases k,
{
    if k > 0 {
        slug_place_is_local(kept, x, k - 1);
    }
}

/// `out` holds the letters and digits of the text in lower case and in their order.
/// A dash stands between two of them just where something else lay between them, and
/// nothing stands before the first or behind the last.
pub open spec fn follows(out: Seq<char>, s: Seq<char>) -> bool {
    let p = kept(s);
    &&& out.len() == 0 <==> p.len() == 0
    &&& p.len() > 0 ==> out.len() == slug_place(p, p.len() - 1) + 1
    &&& forall|k: int| 0 <= k < p.len() ==> #[trigger] stands(out, s, p, k)
    &&& forall|k: int| 0 < k < p.len() ==> #[trigger] is_joined(out, p, k)
}

/// The `k`th letter or digit stands at its place.
pub open spec fn stands(out: Seq<char>, s: Seq<char>, p: Seq<int>, k: int) -> bool {
    0 <= p[k] < s.len() && 0 <= slug_place(p, k) < out.len() && out[slug_place(p, k)]
        == text::lower(s[p[k]])
}

/// The `k`th letter or digit lies behind the one before it; where something else lies
/// between them, a dash stands for it.
pub open spec fn is_joined(out: Seq<char>, p: Seq<int>, k: int) -> bool {
    p[k - 1] < p[k] && (p[k] != p[k - 1] + 1 ==> out[slug_place(p, k) - 1] == '-')
}

/// A slug follows its text.
pub proof fn slugs_follow_the_text(s: Seq<char>)
    ensures
        follows(slug(s), s),
    decreases s.len(),
{
    if s.len() > 0 {
        let t = s.drop_last();
        slugs_follow_the_text(t);
        let q = kept(t);
        let n = s.len() - 1;
        let f = kept_at(s);
        lists::gather_agrees(n as nat, f, kept_at(t));
        assert(lists::gather(n as nat, f) == q);
        if text::is_alnum(s.last()) {
            assert(f(n) == Some(n));
            assert(kept(s) == q.push(n));
            if q.len() > 0 {
                last_kept_is_known(t);
            }
            slug_grows(s);
        } else {
            assert(f(n) is None);
            assert forall|k: int| 0 <= k < q.len() implies #[trigger] stands(slug(s), s, q, k) by {
                assert(stands(slug(t), t, q, k));
            }
            assert forall|k: int| 0 < k < q.len() implies #[trigger] is_joined(slug(s), q, k) by {
                assert(is_joined(slug(t), q, k));
            }
        }
    }
}

proof fn slug_grows(s: Seq<char>)
    requires
        s.len() > 0,
        text::is_alnum(s.last()),
        follows(slug(s.drop_last()), s.drop_last()),
        kept(s) == kept(s.drop_last()).push(s.len() - 1),
        kept(s.drop_last()).len() > 0 ==> (text::is_alnum(s[s.len() - 2]) <==> kept(
            s.drop_last(),
        ).last() == s.len() - 2),
    ensures
        follows(slug(s), s),
{
    let t = s.drop_last();
    let p = kept(s);
    let q = kept(t);
    let out = slug(s);
    let before = slug(t);
    let n = s.len() - 1;
    let m = q.len() as int;
    assert forall|k: int| 0 <= k < m implies slug_place(p, k) == #[trigger] slug_place(q, k) by {
        slug_place_is_local(q, n, k);
    }
    if m > 0 {
        assert(stands(before, t, q, m - 1));
        assert(slug_place(p, m - 1) == slug_place(q, m - 1));
        assert(p[m] == n && p[m - 1] == q[m - 1]);
    }
    assert forall|k: int| 0 <= k < p.len() implies #[trigger] stands(out, s, p, k) by {
        if k < m {
            assert(stands(before, t, q, k));
            assert(slug_place(p, k) == slug_place(q, k));
            assert(p[k] == q[k]);
        }
    }
    assert forall|k: int| 0 < k < p.len() implies #[trigger] is_joined(out, p, k) by {
        if k < m {
            assert(is_joined(before, q, k));
            assert(stands(before, t, q, k));
            assert(stands(before, t, q, k - 1));
            assert(slug_place(p, k) == slug_place(q, k));
            assert(p[k] == q[k] && p[k - 1] == q[k - 1]);
        }
    }
}

/// The last letter or digit of a text is the last that is kept.
proof fn last_kept_is_known(s: Seq<char>)
    requires
        kept(s).len() > 0,
    ensures
        text::is_alnum(s[s.len() - 1]) <==> kept(s)[kept(s).len() - 1] == s.len() - 1,
{
    let f = kept_at(s);
    let n = s.len();
    if n > 0 {
        let before = lists::gather((n - 1) as nat, f);
        if text::is_alnum(s[n - 1]) {
            assert(f(n - 1) == Some(n - 1));
            assert(kept(s) == before.push(n - 1));
        } else {
            assert(f(n - 1) is None);
            assert(kept(s) == before);
            let x = before[before.len() - 1];
            assert(before.contains(x));
            lists::gather_contains((n - 1) as nat, f, x);
        }
    }
}

// Free names

/// The `k`th name to try: the name itself, then the name with a dash and 2, 3
/// and so on.
pub open spec fn attempt(base: Seq<char>, k: int) -> Seq<char> {
    if k == 0 {
        base
    } else {
        base + "-"@ + text::decimal((k + 1) as nat)
    }
}

/// `name` is the first of the names to try that is not taken.
pub open spec fn is_first_free(base: Seq<char>, taken: Seq<Seq<char>>, name: Seq<char>) -> bool {
    exists|k: int|
        k >= 0 && name == #[trigger] attempt(base, k) && !taken.contains(name) && forall|j: int|
            0 <= j < k ==> taken.contains(#[trigger] attempt(base, j))
}

proof fn attempts_differ(base: Seq<char>, i: int, j: int)
    requires
        0 <= i < j,
    ensures
        attempt(base, i) != attempt(base, j),
{
    reveal_strlit("-");
    let n = base.len() as int;
    let b = attempt(base, j);
    if i == 0 {
        assert(b.len() > n);
    } else if attempt(base, i) == b {
        let a = attempt(base, i);
        let x = text::decimal((i + 1) as nat);
        let y = text::decimal((j + 1) as nat);
        assert(a.skip(n + 1) =~= x);
        assert(b.skip(n + 1) =~= y);
        text::decimal_is_injective((i + 1) as nat, (j + 1) as nat);
    }
}

/// Among more names to try than are taken, one is free.
proof fn some_attempt_is_free(base: Seq<char>, taken: Seq<Seq<char>>)
    ensures
        exists|k: int| 0 <= k <= taken.len() && !taken.contains(#[trigger] attempt(base, k)),
{
    if forall|k: int| 0 <= k <= taken.len() ==> taken.contains(#[trigger] attempt(base, k)) {
        let tries = Seq::new(taken.len() + 1, |k: int| attempt(base, k));
        assert(tries.no_duplicates()) by {
            assert forall|i: int, j: int|
                0 <= i < tries.len() && 0 <= j < tries.len() && i != j implies tries[i]
                != tries[j] by {
                if i < j {
                    attempts_differ(base, i, j);
                } else {
                    attempts_differ(base, j, i);
                }
            }
        }
        tries.unique_seq_to_set();
        assert(tries.to_set().subset_of(taken.to_set())) by {
            assert forall|x: Seq<char>| tries.to_set().contains(x) implies taken.to_set().contains(x) by {
                let k = choose|k: int| 0 <= k < tries.len() && tries[k] == x;
                assert(taken.contains(attempt(base, k)));
            }
        }
        vstd::set_lib::lemma_len_subset(tries.to_set(), taken.to_set());
        taken.lemma_cardinality_of_set();
    }
}

/// There is always a first free name.
pub proof fn first_free_exists(base: Seq<char>, taken: Seq<Seq<char>>)
    ensures
        exists|name: Seq<char>| is_first_free(base, taken, name),
{
    some_attempt_is_free(base, taken);
    let k = choose|k: int| 0 <= k <= taken.len() && !taken.contains(#[trigger] attempt(base, k));
    least_free(base, taken, k);
}

proof fn least_free(base: Seq<char>, taken: Seq<Seq<char>>, k: int)
    requires
        k >= 0,
        !taken.contains(attempt(base, k)),
    ensures
        exists|name: Seq<char>| is_first_free(base, taken, name),
    decreases k,
{
    if forall|j: int| 0 <= j < k ==> taken.contains(#[trigger] attempt(base, j)) {
        assert(is_first_free(base, taken, attempt(base, k)));
    } else {
        let j = choose|j: int| 0 <= j < k && !taken.contains(#[trigger] attempt(base, j));
        least_free(base, taken, j);
    }
}

/// Only one name is the first free one.
pub proof fn first_free_is_unique(
    base: Seq<char>,
    taken: Seq<Seq<char>>,
    a: Seq<char>,
    b: Seq<char>,
)
    requires
        is_first_free(base, taken, a),
        is_first_free(base, taken, b),
    ensures
        a == b,
{
    let i = choose|k: int|
        k >= 0 && a == #[trigger] attempt(base, k) && !taken.contains(a) && forall|j: int|
            0 <= j < k ==> taken.contains(#[trigger] attempt(base, j));
    let k = choose|k: int|
        k >= 0 && b == #[trigger] attempt(base, k) && !taken.contains(b) && forall|j: int|
            0 <= j < k ==> taken.contains(#[trigger] attempt(base, j));
    if i < k {
        assert(taken.contains(attempt(base, i)));
    } else if k < i {
        assert(taken.contains(attempt(base, k)));
    }
}

/// The first of the names to try that is not taken.
pub fn free_name(base: &str, taken: &Vec<String>) -> (out: String)
    ensures
        is_first_free(base@, text::texts(taken@), out@),
{
    let ghost all = text::texts(taken@);
    let mut name: String = base.to_owned();
    let mut k: u64 = 0;
    let n: usize = taken.len();
    while list_contains(taken, name.as_str())
        invariant
            n == taken@.len(),
            all == text::texts(taken@),
            k <= n,
            name@ == attempt(base@, k as int),
            forall|j: int| 0 <= j < k ==> all.contains(#[trigger] attempt(base@, j)),
        ensures
            name@ == attempt(base@, k as int),
            !all.contains(name@),
            forall|j: int| 0 <= j < k ==> all.contains(#[trigger] attempt(base@, j)),
        decreases n - k,
    {
        proof {
            some_attempt_is_free(base@, all);
            let free = choose|x: int| 0 <= x <= all.len() && !all.contains(#[trigger] attempt(base@, x));
            assert(free > k) by {
                if free < k {
                    assert(all.contains(attempt(base@, free)));
                }
            }
        }
        k = k + 1;
        name = base.to_owned();
        name.append("-");
        push_wide(&mut name, k as u128 + 1);
    }
    name
}

} // verus!
