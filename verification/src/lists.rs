//! Searching, selecting and grouping in sequences.
use vstd::prelude::*;

verus! {

/// `i` is the first place of `s` whose item satisfies `p`.
pub open spec fn is_first<A>(s: Seq<A>, p: spec_fn(A) -> bool, i: int) -> bool {
    0 <= i < s.len() && p(s[i]) && forall|k: int| 0 <= k < i ==> !p(#[trigger] s[k])
}

/// The first place of `s` whose item satisfies `p`.
pub open spec fn first_where<A>(s: Seq<A>, p: spec_fn(A) -> bool) -> Option<int> {
    if exists|i: int| is_first(s, p, i) {
        Some(choose|i: int| is_first(s, p, i))
    } else {
        None
    }
}

/// The first item of `s` that satisfies `p`.
pub open spec fn find<A>(s: Seq<A>, p: spec_fn(A) -> bool) -> Option<A> {
    match first_where(s, p) {
        Some(i) => Some(s[i]),
        None => None,
    }
}

/// A first place is the only one.
pub proof fn first_is<A>(s: Seq<A>, p: spec_fn(A) -> bool, i: int)
    requires
        is_first(s, p, i),
    ensures
        first_where(s, p) == Some(i),
{
    let j = choose|j: int| is_first(s, p, j);
    if j < i {
        assert(!p(s[j]));
    } else if i < j {
        assert(!p(s[i]));
    }
}

/// Where no item satisfies `p` there is no first one, and where one does there is.
pub proof fn first_is_none<A>(s: Seq<A>, p: spec_fn(A) -> bool)
    ensures
        first_where(s, p) is None <==> forall|i: int| 0 <= i < s.len() ==> !p(#[trigger] s[i]),
    decreases s.len(),
{
    if !(forall|i: int| 0 <= i < s.len() ==> !p(#[trigger] s[i])) {
        let i = choose|i: int| 0 <= i < s.len() && p(#[trigger] s[i]);
        least_exists(s, p, i);
    }
}

proof fn least_exists<A>(s: Seq<A>, p: spec_fn(A) -> bool, i: int)
    requires
        0 <= i < s.len(),
        p(s[i]),
    ensures
        exists|j: int| is_first(s, p, j),
    decreases i,
{
    if forall|k: int| 0 <= k < i ==> !p(#[trigger] s[k]) {
        assert(is_first(s, p, i));
    } else {
        let k = choose|k: int| 0 <= k < i && p(#[trigger] s[k]);
        least_exists(s, p, k);
    }
}

/// What is known of a first place.
pub proof fn first_holds<A>(s: Seq<A>, p: spec_fn(A) -> bool)
    requires
        first_where(s, p) is Some,
    ensures
        is_first(s, p, first_where(s, p)->0),
{
}

/// The items that `f` gives for `0`, `1`, .. below `n`, in that order.
pub open spec fn gather<A>(n: nat, f: spec_fn(int) -> Option<A>) -> Seq<A>
    decreases n,
{
    if n == 0 {
        Seq::empty()
    } else {
        match f(n - 1) {
            Some(a) => gather((n - 1) as nat, f).push(a),
            None => gather((n - 1) as nat, f),
        }
    }
}

/// An item is gathered exactly where `f` gives it somewhere below `n`.
pub proof fn gather_contains<A>(n: nat, f: spec_fn(int) -> Option<A>, a: A)
    ensures
        gather(n, f).contains(a) <==> exists|i: int| 0 <= i < n && #[trigger] f(i) == Some(a),
    decreases n,
{
    if n > 0 {
        let before = gather((n - 1) as nat, f);
        gather_contains((n - 1) as nat, f, a);
        match f(n - 1) {
            Some(b) => {
                if before.push(b).contains(a) {
                    let k = choose|k: int| 0 <= k < before.push(b).len() && before.push(b)[k] == a;
                    if k < before.len() {
                        assert(before[k] == a);
                    } else {
                        assert(f(n - 1) == Some(a));
                    }
                }
                if exists|i: int| 0 <= i < n && #[trigger] f(i) == Some(a) {
                    let i = choose|i: int| 0 <= i < n && #[trigger] f(i) == Some(a);
                    if i < n - 1 {
                        let k = choose|k: int| 0 <= k < before.len() && before[k] == a;
                        assert(before.push(b)[k] == a);
                    } else {
                        assert(before.push(b)[before.len() as int] == a);
                    }
                }
            },
            None => {
                if exists|i: int| 0 <= i < n && #[trigger] f(i) == Some(a) {
                    let i = choose|i: int| 0 <= i < n && #[trigger] f(i) == Some(a);
                    assert(i < n - 1);
                }
            },
        }
    }
}

/// Nothing is gathered exactly where `f` gives nothing below `n`.
pub proof fn gather_is_empty<A>(n: nat, f: spec_fn(int) -> Option<A>)
    ensures
        gather(n, f).len() == 0 <==> forall|i: int| 0 <= i < n ==> (#[trigger] f(i)) is None,
    decreases n,
{
    if n > 0 {
        gather_is_empty((n - 1) as nat, f);
    }
}

/// No more is gathered than there are places.
pub proof fn gather_is_bounded<A>(n: nat, f: spec_fn(int) -> Option<A>)
    ensures
        gather(n, f).len() <= n,
    decreases n,
{
    if n > 0 {
        gather_is_bounded((n - 1) as nat, f);
    }
}

/// Functions that agree below `n` gather the same.
pub proof fn gather_agrees<A>(n: nat, f: spec_fn(int) -> Option<A>, g: spec_fn(int) -> Option<A>)
    requires
        forall|i: int| 0 <= i < n ==> #[trigger] f(i) == g(i),
    ensures
        gather(n, f) == gather(n, g),
    decreases n,
{
    if n > 0 {
        assert(f(n - 1) == g(n - 1));
        gather_agrees((n - 1) as nat, f, g);
    }
}

/// The places from which `f` gives something.
pub open spec fn given_at<A>(f: spec_fn(int) -> Option<A>) -> spec_fn(int) -> Option<int> {
    |i: int|
        if f(i) is Some {
            Some(i)
        } else {
            None
        }
}

/// What is gathered comes from ascending places.
pub proof fn gathered_from<A>(n: nat, f: spec_fn(int) -> Option<A>)
    ensures
        ({
            let out = gather(n, f);
            let from = gather(n, given_at(f));
            &&& from.len() == out.len()
            &&& forall|k: int|
                0 <= k < out.len() ==> 0 <= #[trigger] from[k] < n && f(from[k]) == Some(out[k])
            &&& forall|a: int, b: int| 0 <= a < b < out.len() ==> from[a] < from[b]
        }),
    decreases n,
{
    if n > 0 {
        gathered_from((n - 1) as nat, f);
        let g = given_at(f);
        let from = gather((n - 1) as nat, g);
        let out = gather((n - 1) as nat, f);
        assert(g(n - 1) is Some <==> f(n - 1) is Some);
        if f(n - 1) is Some {
            assert(gather(n, g) == from.push(n - 1));
            assert(gather(n, f) == out.push(f(n - 1)->0));
        } else {
            assert(gather(n, g) == from);
            assert(gather(n, f) == out);
        }
    }
}

/// The first item that `f` gives for `0`, `1`, .. below `n`.
pub open spec fn first_given<A>(n: nat, f: spec_fn(int) -> Option<A>) -> Option<A> {
    let all = gather(n, f);
    if all.len() > 0 {
        Some(all[0])
    } else {
        None
    }
}

pub proof fn gather_extends<A>(m: nat, n: nat, f: spec_fn(int) -> Option<A>)
    requires
        m <= n,
    ensures
        gather(m, f).is_prefix_of(gather(n, f)),
    decreases n - m,
{
    if m < n {
        gather_extends(m, (n - 1) as nat, f);
        let a = gather(m, f);
        let b = gather((n - 1) as nat, f);
        let c = gather(n, f);
        assert(a =~= c.subrange(0, a.len() as int)) by {
            assert(a =~= b.subrange(0, a.len() as int));
        }
    }
}

/// The first place for which `f` gives something decides what is first given.
pub proof fn first_given_is<A>(n: nat, f: spec_fn(int) -> Option<A>, i: int)
    requires
        0 <= i < n,
        f(i) is Some,
        forall|k: int| 0 <= k < i ==> (#[trigger] f(k)) is None,
    ensures
        first_given(n, f) == f(i),
{
    gather_is_empty(i as nat, f);
    let g = gather((i + 1) as nat, f);
    assert(g.len() == 1 && g[0] == f(i)->0);
    gather_extends((i + 1) as nat, n, f);
    assert(gather(n, f).subrange(0, 1)[0] == g[0]);
}

/// Nothing is first given exactly where nothing is given at all.
pub proof fn first_given_none<A>(n: nat, f: spec_fn(int) -> Option<A>)
    ensures
        first_given(n, f) is None <==> forall|i: int| 0 <= i < n ==> (#[trigger] f(i)) is None,
{
    gather_is_empty(n, f);
}

/// What is first given is given for some place.
pub proof fn first_given_from<A>(n: nat, f: spec_fn(int) -> Option<A>)
    requires
        first_given(n, f) is Some,
    ensures
        exists|i: int| 0 <= i < n && #[trigger] f(i) == first_given(n, f),
{
    gather_contains(n, f, gather(n, f)[0]);
}

// Keys: a sequence gives each place the group that it belongs to, if any.

/// The places of group `k`, ascending.
pub open spec fn members(keys: Seq<Option<usize>>, k: usize) -> Seq<int> {
    gather(keys.len(), in_group(keys, k))
}

pub open spec fn in_group(keys: Seq<Option<usize>>, k: usize) -> spec_fn(int) -> Option<int> {
    |i: int|
        if keys[i] == Some(k) {
            Some(i)
        } else {
            None
        }
}

/// Whether some place belongs to group `k`.
pub open spec fn is_key(keys: Seq<Option<usize>>, k: usize) -> bool {
    keys.contains(Some(k))
}

/// Strictly ascending.
pub open spec fn ascending(s: Seq<usize>) -> bool {
    forall|i: int, j: int| 0 <= i < j < s.len() ==> s[i] < s[j]
}

/// `s` lists the groups of `keys`, each once, ascending.
pub open spec fn lists_keys(s: Seq<usize>, keys: Seq<Option<usize>>) -> bool {
    ascending(s) && forall|k: usize|
        #![trigger s.contains(k)]
        #![trigger is_key(keys, k)]
        s.contains(k) <==> is_key(keys, k)
}

/// The groups of `keys`, ascending.
pub open spec fn sorted_keys(keys: Seq<Option<usize>>) -> Seq<usize> {
    choose|s: Seq<usize>| lists_keys(s, keys)
}

/// There is only one ascending list of the groups.
pub proof fn sorted_keys_is(s: Seq<usize>, keys: Seq<Option<usize>>)
    requires
        lists_keys(s, keys),
    ensures
        sorted_keys(keys) == s,
{
    let t = sorted_keys(keys);
    assert(lists_keys(t, keys));
    assert forall|k: usize| s.contains(k) <==> t.contains(k) by {}
    ascending_is_unique(s, t);
}

proof fn ascending_is_unique(s: Seq<usize>, t: Seq<usize>)
    requires
        ascending(s),
        ascending(t),
        forall|k: usize| s.contains(k) <==> t.contains(k),
    ensures
        s == t,
    decreases s.len(),
{
    if s.len() == 0 {
        if t.len() > 0 {
            assert(t.contains(t[0]));
        }
        assert(s =~= t);
    } else {
        assert(s.contains(s.last()));
        let j = choose|j: int| 0 <= j < t.len() && t[j] == s.last();
        assert(t.contains(t.last()));
        let i = choose|i: int| 0 <= i < s.len() && s[i] == t.last();
        assert(s.last() == t.last());
        let s1 = s.drop_last();
        let t1 = t.drop_last();
        assert forall|k: usize| s1.contains(k) <==> t1.contains(k) by {
            if s1.contains(k) {
                let a = choose|a: int| 0 <= a < s1.len() && s1[a] == k;
                assert(s[a] == k && k < s.last());
                assert(s.contains(k));
                let b = choose|b: int| 0 <= b < t.len() && t[b] == k;
                assert(b < t.len() - 1);
                assert(t1[b] == k);
            }
            if t1.contains(k) {
                let a = choose|a: int| 0 <= a < t1.len() && t1[a] == k;
                assert(t[a] == k && k < t.last());
                assert(t.contains(k));
                let b = choose|b: int| 0 <= b < s.len() && s[b] == k;
                assert(b < s.len() - 1);
                assert(s1[b] == k);
            }
        }
        ascending_is_unique(s1, t1);
        assert(s =~= s1.push(s.last()));
        assert(t =~= t1.push(t.last()));
    }
}

/// The groups of `keys` can always be listed.
pub proof fn keys_can_be_listed(keys: Seq<Option<usize>>)
    ensures
        lists_keys(sorted_keys(keys), keys),
    decreases keys.len(),
{
    let s = listed(keys);
    listed_is(keys);
    assert(lists_keys(s, keys));
}

spec fn listed(keys: Seq<Option<usize>>) -> Seq<usize>
    decreases keys.len(),
{
    if keys.len() == 0 {
        Seq::empty()
    } else {
        match keys.last() {
            Some(k) => with_key(listed(keys.drop_last()), k),
            None => listed(keys.drop_last()),
        }
    }
}

spec fn with_key(s: Seq<usize>, k: usize) -> Seq<usize>
    decreases s.len(),
{
    if s.len() == 0 || s.last() < k {
        s.push(k)
    } else if s.last() == k {
        s
    } else {
        with_key(s.drop_last(), k).push(s.last())
    }
}

proof fn with_key_is(s: Seq<usize>, k: usize)
    requires
        ascending(s),
    ensures
        ascending(with_key(s, k)),
        forall|x: usize|
            #![trigger with_key(s, k).contains(x)]
            #![trigger s.contains(x)]
            with_key(s, k).contains(x) <==> s.contains(x) || x == k,
    decreases s.len(),
{
    let t = with_key(s, k);
    if s.len() == 0 || s.last() < k {
        assert(t[s.len() as int] == k);
        assert forall|x: usize| t.contains(x) <==> s.contains(x) || x == k by {
            if s.contains(x) {
                let a = choose|a: int| 0 <= a < s.len() && s[a] == x;
                assert(t[a] == x);
            }
            if t.contains(x) {
                let a = choose|a: int| 0 <= a < t.len() && t[a] == x;
                if a < s.len() {
                    assert(s[a] == x);
                }
            }
        }
    } else if s.last() == k {
        assert(s.contains(k));
    } else {
        let u = s.drop_last();
        with_key_is(u, k);
        let v = with_key(u, k);
        assert forall|x: usize| t.contains(x) <==> s.contains(x) || x == k by {
            assert(s =~= u.push(s.last()));
            assert(t[v.len() as int] == s.last());
            assert(s.contains(s.last()));
            if t.contains(x) {
                let a = choose|a: int| 0 <= a < t.len() && t[a] == x;
                if a < v.len() {
                    assert(v[a] == x);
                    assert(v.contains(x));
                    if u.contains(x) {
                        let b = choose|b: int| 0 <= b < u.len() && u[b] == x;
                        assert(s[b] == x);
                    }
                }
            }
            if s.contains(x) {
                let a = choose|a: int| 0 <= a < s.len() && s[a] == x;
                if a < u.len() {
                    assert(u[a] == x);
                    assert(v.contains(x));
                }
            }
            if v.contains(x) {
                let b = choose|b: int| 0 <= b < v.len() && v[b] == x;
                assert(t[b] == x);
            }
        }
        assert forall|i: int, j: int| 0 <= i < j < t.len() implies t[i] < t[j] by {
            if j == t.len() - 1 {
                assert(v.contains(t[i]));
                if u.contains(t[i]) {
                    let b = choose|b: int| 0 <= b < u.len() && u[b] == t[i];
                    assert(s[b] < s[s.len() - 1]);
                }
            } else {
                assert(v[i] < v[j]);
            }
        }
    }
}

proof fn listed_is(keys: Seq<Option<usize>>)
    ensures
        lists_keys(listed(keys), keys),
    decreases keys.len(),
{
    if keys.len() > 0 {
        let before = keys.drop_last();
        listed_is(before);
        assert(keys =~= before.push(keys.last()));
        if let Some(k) = keys.last() {
            with_key_is(listed(before), k);
        }
        assert forall|k: usize| is_key(keys, k) <==> is_key(before, k) || keys.last() == Some(k) by {
            if is_key(keys, k) {
                let a = choose|a: int| 0 <= a < keys.len() && keys[a] == Some(k);
                if a < before.len() {
                    assert(before[a] == Some(k));
                }
            }
            if is_key(before, k) {
                let a = choose|a: int| 0 <= a < before.len() && before[a] == Some(k);
                assert(keys[a] == Some(k));
            }
            if keys.last() == Some(k) {
                assert(keys[keys.len() - 1] == Some(k));
            }
        }
    }
}

/// The groups of `keys`, ascending.
pub fn group_keys(keys: &Vec<Option<usize>>) -> (out: Vec<usize>)
    ensures
        lists_keys(out@, keys@),
        out@ == sorted_keys(keys@),
{
    let mut out: Vec<usize> = Vec::new();
    for i in 0..keys.len()
        invariant
            lists_keys(out@, keys@.take(i as int)),
    {
        let ghost before = keys@.take(i as int);
        let ghost after = keys@.take(i + 1);
        assert(after =~= before.push(keys@[i as int]));
        assert forall|k: usize| is_key(after, k) <==> is_key(before, k) || keys@[i as int] == Some(k) by {
            if is_key(after, k) {
                let a = choose|a: int| 0 <= a < after.len() && after[a] == Some(k);
                if a < before.len() {
                    assert(before[a] == Some(k));
                }
            }
            if is_key(before, k) {
                let a = choose|a: int| 0 <= a < before.len() && before[a] == Some(k);
                assert(after[a] == Some(k));
            }
            if keys@[i as int] == Some(k) {
                assert(after[before.len() as int] == Some(k));
            }
        }
        if let Some(key) = keys[i] {
            insert_key(&mut out, key);
        }
    }
    assert(keys@.take(keys@.len() as int) =~= keys@);
    proof {
        sorted_keys_is(out@, keys@);
    }
    out
}

/// Adds `key` to an ascending list, unless it is there.
fn insert_key(out: &mut Vec<usize>, key: usize)
    requires
        ascending(old(out)@),
    ensures
        ascending(final(out)@),
        forall|k: usize| final(out)@.contains(k) <==> old(out)@.contains(k) || k == key,
{
    let mut at: usize = 0;
    while at < out.len() && out[at] < key
        invariant
            at <= out@.len(),
            forall|k: int| 0 <= k < at ==> out@[k] < key,
        decreases out@.len() - at,
    {
        at = at + 1;
    }
    if at < out.len() && out[at] == key {
        assert(out@[at as int] == key);
        return;
    }
    let ghost before = out@;
    out.insert(at, key);
    let ghost after = out@;
    assert(after == before.insert(at as int, key));
    assert forall|k: usize| after.contains(k) <==> before.contains(k) || k == key by {
        if after.contains(k) {
            let a = choose|a: int| 0 <= a < after.len() && after[a] == k;
            if a < at {
                assert(before[a] == k);
            } else if a > at {
                assert(before[a - 1] == k);
            }
        }
        if before.contains(k) {
            let a = choose|a: int| 0 <= a < before.len() && before[a] == k;
            if a < at {
                assert(after[a] == k);
            } else {
                assert(after[a + 1] == k);
            }
        }
        assert(after[at as int] == key);
    }
}

/// The places of group `k`, ascending.
pub fn group_members(keys: &Vec<Option<usize>>, k: usize) -> (out: Vec<usize>)
    ensures
        out@.len() == members(keys@, k).len(),
        forall|i: int| 0 <= i < out@.len() ==> #[trigger] out@[i] as int == members(keys@, k)[i],
        forall|i: int|
            0 <= i < out@.len() ==> (#[trigger] out@[i]) < keys@.len() && keys@[out@[i] as int]
                == Some(k),
{
    let mut out: Vec<usize> = Vec::new();
    let ghost f = in_group(keys@, k);
    for i in 0..keys.len()
        invariant
            f == in_group(keys@, k),
            out@.len() == gather(i as nat, f).len(),
            forall|j: int| 0 <= j < out@.len() ==> #[trigger] out@[j] as int == gather(i as nat, f)[j],
            forall|j: int|
                0 <= j < out@.len() ==> (#[trigger] out@[j]) < keys@.len() && keys@[out@[j] as int]
                    == Some(k),
    {
        assert(f(i as int) == if keys@[i as int] == Some(k) { Some(i as int) } else { None });
        let here = match keys[i] {
            Some(key) => key == k,
            None => false,
        };
        if here {
            out.push(i);
        }
    }
    out
}

/// The places of a group are just those of `keys` that carry it, in order.
pub proof fn members_are(keys: Seq<Option<usize>>, k: usize)
    ensures
        forall|i: int| #[trigger]
            members(keys, k).contains(i) <==> 0 <= i < keys.len() && keys[i] == Some(k),
        forall|a: int, b: int|
            0 <= a < b < members(keys, k).len() ==> members(keys, k)[a] < members(keys, k)[b],
{
    let f = in_group(keys, k);
    assert forall|i: int| #[trigger]
        members(keys, k).contains(i) <==> 0 <= i < keys.len() && keys[i] == Some(k) by {
        gather_contains(keys.len(), f, i);
        if 0 <= i < keys.len() && keys[i] == Some(k) {
            assert(f(i) == Some(i));
        }
    }
    members_ascend(keys, k, keys.len());
}

proof fn members_ascend(keys: Seq<Option<usize>>, k: usize, n: nat)
    requires
        n <= keys.len(),
    ensures
        ({
            let g = gather(n, in_group(keys, k));
            &&& forall|a: int| 0 <= a < g.len() ==> (#[trigger] g[a]) < n
            &&& forall|a: int, b: int| 0 <= a < b < g.len() ==> g[a] < g[b]
        }),
    decreases n,
{
    if n > 0 {
        members_ascend(keys, k, (n - 1) as nat);
        let f = in_group(keys, k);
        let before = gather((n - 1) as nat, f);
        assert(f(n - 1) == if keys[n - 1] == Some(k) { Some(n - 1) } else { None::<int> });
        assert(gather(n, f) == if keys[n - 1] == Some(k) { before.push(n - 1) } else { before });
    }
}

// Sorting

/// `i` put into a sorted list of places, behind all that may stand before it.
pub open spec fn placed(s: Seq<int>, i: int, le: spec_fn(int, int) -> bool) -> Seq<int>
    decreases s.len(),
{
    if s.len() == 0 || le(s.last(), i) {
        s.push(i)
    } else {
        placed(s.drop_last(), i, le).push(s.last())
    }
}

/// The places `0`, `1`, .. below `n`, sorted by `le`; places that are alike keep
/// their order.
pub open spec fn order(n: nat, le: spec_fn(int, int) -> bool) -> Seq<int>
    decreases n,
{
    if n == 0 {
        Seq::empty()
    } else {
        placed(order((n - 1) as nat, le), n - 1, le)
    }
}

pub open spec fn as_places(s: Seq<usize>) -> Seq<int> {
    s.map_values(|i: usize| i as int)
}

/// Sorts the places below `n` by `le`.
pub fn sort_places<F: Fn(usize, usize) -> bool>(
    n: usize,
    le: F,
    Ghost(rank): Ghost<spec_fn(int, int) -> bool>,
) -> (out: Vec<usize>)
    requires
        forall|i: usize, j: usize| i < n && j < n ==> le.requires((i, j)),
        forall|i: usize, j: usize, b: bool|
            i < n && j < n && le.ensures((i, j), b) ==> b == rank(i as int, j as int),
    ensures
        as_places(out@) == order(n as nat, rank),
        forall|k: int| 0 <= k < out@.len() ==> (#[trigger] out@[k]) < n,
        out@.len() == n,
{
    let mut out: Vec<usize> = Vec::new();
    assert(as_places(out@) =~= order(0, rank));
    for i in 0..n
        invariant
            forall|i: usize, j: usize| i < n && j < n ==> le.requires((i, j)),
            forall|i: usize, j: usize, b: bool|
                i < n && j < n && le.ensures((i, j), b) ==> b == rank(i as int, j as int),
            as_places(out@) == order(i as nat, rank),
            forall|k: int| 0 <= k < out@.len() ==> (#[trigger] out@[k]) < n,
            out@.len() == i,
    {
        let ghost all = as_places(out@);
        let ghost want = placed(all, i as int, rank);
        let mut at: usize = out.len();
        assert(all.take(at as int) =~= all);
        assert(want =~= placed(all.take(at as int), i as int, rank) + all.skip(at as int));
        while at > 0 && !le(out[at - 1], i)
            invariant
                i < n,
                at <= out@.len(),
                out@.len() == i,
                all == as_places(out@),
                want == placed(all.take(at as int), i as int, rank) + all.skip(at as int),
                forall|i: usize, j: usize| i < n && j < n ==> le.requires((i, j)),
                forall|i: usize, j: usize, b: bool|
                    i < n && j < n && le.ensures((i, j), b) ==> b == rank(i as int, j as int),
                forall|k: int| 0 <= k < out@.len() ==> (#[trigger] out@[k]) < n,
            ensures
                at <= out@.len(),
                want == placed(all.take(at as int), i as int, rank) + all.skip(at as int),
                at > 0 ==> rank(out@[at - 1] as int, i as int),
            decreases at,
        {
            let ghost t = all.take(at as int);
            assert(t.last() == out@[at - 1] as int);
            assert(t.drop_last() =~= all.take(at - 1));
            assert(want =~= placed(all.take(at - 1), i as int, rank) + all.skip(at - 1));
            at = at - 1;
        }
        assert(at > 0 ==> all.take(at as int).last() == out@[at - 1] as int);
        assert(want =~= all.take(at as int).push(i as int) + all.skip(at as int));
        let ghost before = out@;
        out.insert(at, i);
        assert(as_places(out@) =~= want);
        assert forall|k: int| 0 <= k < out@.len() implies (#[trigger] out@[k]) < n by {
            if k < at {
                assert(out@[k] == before[k]);
            } else if k > at {
                assert(out@[k] == before[k - 1]);
            }
        }
    }
    out
}

proof fn placed_keeps(s: Seq<int>, i: int, le: spec_fn(int, int) -> bool)
    ensures
        placed(s, i, le).len() == s.len() + 1,
        forall|x: int|
            #![trigger placed(s, i, le).contains(x)]
            #![trigger s.contains(x)]
            placed(s, i, le).contains(x) <==> s.contains(x) || x == i,
    decreases s.len(),
{
    let t = placed(s, i, le);
    if s.len() == 0 || le(s.last(), i) {
        assert(t[s.len() as int] == i);
        assert forall|x: int| t.contains(x) <==> s.contains(x) || x == i by {
            if s.contains(x) {
                let a = choose|a: int| 0 <= a < s.len() && s[a] == x;
                assert(t[a] == x);
            }
            if t.contains(x) {
                let a = choose|a: int| 0 <= a < t.len() && t[a] == x;
                if a < s.len() {
                    assert(s[a] == x);
                }
            }
        }
    } else {
        let u = s.drop_last();
        placed_keeps(u, i, le);
        let v = placed(u, i, le);
        assert(t[v.len() as int] == s.last());
        assert(s[s.len() - 1] == s.last());
        assert forall|x: int| t.contains(x) <==> s.contains(x) || x == i by {
            if t.contains(x) {
                let a = choose|a: int| 0 <= a < t.len() && t[a] == x;
                if a < v.len() {
                    assert(v[a] == x);
                    assert(v.contains(x));
                    if u.contains(x) {
                        let b = choose|b: int| 0 <= b < u.len() && u[b] == x;
                        assert(s[b] == x);
                    }
                }
            }
            if s.contains(x) {
                let a = choose|a: int| 0 <= a < s.len() && s[a] == x;
                if a < u.len() {
                    assert(u[a] == x);
                    assert(u.contains(x));
                }
            }
            if v.contains(x) {
                let b = choose|b: int| 0 <= b < v.len() && v[b] == x;
                assert(t[b] == x);
            }
            assert(v.contains(i));
        }
    }
}

/// Sorting loses no place and invents none.
pub proof fn order_keeps(n: nat, le: spec_fn(int, int) -> bool)
    ensures
        order(n, le).len() == n,
        forall|x: int| #[trigger] order(n, le).contains(x) <==> 0 <= x < n,
    decreases n,
{
    if n > 0 {
        order_keeps((n - 1) as nat, le);
        placed_keeps(order((n - 1) as nat, le), n - 1, le);
    }
}

/// Each place occurs once in a sorted list.
pub proof fn order_is_a_permutation(n: nat, le: spec_fn(int, int) -> bool)
    ensures
        order(n, le).no_duplicates(),
{
    order_keeps(n, le);
    let s = order(n, le);
    assert(s.to_set() =~= vstd::set_lib::set_int_range(0, n as int)) by {
        assert forall|x: int| s.to_set().contains(x) <==> vstd::set_lib::set_int_range(0, n as int).contains(x) by {
            assert(s.contains(x) <==> 0 <= x < n);
        }
    }
    vstd::set_lib::lemma_int_range(0, n as int);
    s.lemma_no_dup_set_cardinality();
}

proof fn placed_sorts(s: Seq<int>, i: int, le: spec_fn(int, int) -> bool)
    requires
        forall|a: int, b: int| #[trigger] le(a, b) || le(b, a),
        forall|a: int, b: int, c: int| #[trigger] le(a, b) && #[trigger] le(b, c) ==> le(a, c),
        forall|a: int, b: int| 0 <= a < b < s.len() ==> le(s[a], s[b]),
    ensures
        forall|a: int, b: int|
            0 <= a < b < placed(s, i, le).len() ==> le(placed(s, i, le)[a], placed(s, i, le)[b]),
    decreases s.len(),
{
    let t = placed(s, i, le);
    if s.len() == 0 || le(s.last(), i) {
        assert forall|a: int, b: int| 0 <= a < b < t.len() implies le(t[a], t[b]) by {
            assert(t[a] == s[a]);
            if b == s.len() && a < s.len() - 1 {
                assert(le(s[a], s[s.len() - 1]));
            }
        }
    } else {
        let u = s.drop_last();
        placed_sorts(u, i, le);
        placed_keeps(u, i, le);
        let v = placed(u, i, le);
        assert forall|a: int, b: int| 0 <= a < b < t.len() implies le(t[a], t[b]) by {
            assert(t[a] == v[a]);
            if b == v.len() {
                assert(v.contains(v[a]));
                if v[a] != i {
                    let k = choose|k: int| 0 <= k < u.len() && u[k] == v[a];
                    assert(le(s[k], s[s.len() - 1]));
                } else {
                    assert(le(i, s.last()));
                }
            } else {
                assert(t[b] == v[b]);
            }
        }
    }
}

/// Where `le` is a total order up to likeness, a sorted list is in its order.
pub proof fn order_sorts(n: nat, le: spec_fn(int, int) -> bool)
    requires
        forall|a: int, b: int| #[trigger] le(a, b) || le(b, a),
        forall|a: int, b: int, c: int| #[trigger] le(a, b) && #[trigger] le(b, c) ==> le(a, c),
    ensures
        forall|a: int, b: int| 0 <= a < b < order(n, le).len() ==> le(order(n, le)[a], order(n, le)[b]),
    decreases n,
{
    if n > 0 {
        order_sorts((n - 1) as nat, le);
        placed_sorts(order((n - 1) as nat, le), n - 1, le);
    }
}

} // verus!
