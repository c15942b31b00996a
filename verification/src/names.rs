//! A map from names to values that is walked in the order of the names.
use crate::lists;
use crate::text;
use crate::text::{str_eq, str_lt};
use vstd::prelude::*;

verus! {

/// Values by name. Every name occurs once, and the entries stand in the order
/// of their names.
#[derive(Debug, PartialEq)]
pub struct NameMap<T> {
    entries: Vec<(String, T)>,
}

/// Every name occurs once, in ascending order.
pub open spec fn names_ascend<T>(m: Seq<(Seq<char>, T)>) -> bool {
    forall|i: int, j: int| 0 <= i < j < m.len() ==> text::text_lt((#[trigger] m[i]).0, (#[trigger] m[j]).0)
}

pub open spec fn named<T>(name: Seq<char>) -> spec_fn((Seq<char>, T)) -> bool {
    |e: (Seq<char>, T)| e.0 == name
}

/// The value that `m` holds for `name`.
pub open spec fn lookup<T>(m: Seq<(Seq<char>, T)>, name: Seq<char>) -> Option<T> {
    match lists::first_where(m, named(name)) {
        Some(i) => Some(m[i].1),
        None => None,
    }
}

pub open spec fn not_before<T>(name: Seq<char>) -> spec_fn((Seq<char>, T)) -> bool {
    |e: (Seq<char>, T)| !text::text_lt(e.0, name)
}

/// How many names of `m` come before `name`.
pub open spec fn place_of<T>(m: Seq<(Seq<char>, T)>, name: Seq<char>) -> int {
    match lists::first_where(m, not_before(name)) {
        Some(i) => i,
        None => m.len() as int,
    }
}

/// `m` with `value` for `name`: in place of the value it held for that name, or
/// as a new entry where the order of names puts it.
pub open spec fn inserted<T>(m: Seq<(Seq<char>, T)>, name: Seq<char>, value: T) -> Seq<
    (Seq<char>, T),
> {
    let at = place_of(m, name);
    if at < m.len() && m[at].0 == name {
        m.update(at, (name, value))
    } else {
        m.insert(at, (name, value))
    }
}

/// `m` without its entry for `name`.
pub open spec fn removed<T>(m: Seq<(Seq<char>, T)>, name: Seq<char>) -> Seq<(Seq<char>, T)> {
    match lists::first_where(m, named(name)) {
        Some(i) => m.remove(i),
        None => m,
    }
}

pub open spec fn entry_views<T>(entries: Seq<(String, T)>) -> Seq<(Seq<char>, T)> {
    entries.map_values(|e: (String, T)| (e.0@, e.1))
}

impl<T> View for NameMap<T> {
    type V = Seq<(Seq<char>, T)>;

    closed spec fn view(&self) -> Seq<(Seq<char>, T)> {
        entry_views(self.entries@)
    }
}

impl<T: Clone> Clone for NameMap<T> {
    /// The same names, each with a clone of its value.
    fn clone(&self) -> (out: Self)
        ensures
            out@.len() == self@.len(),
            forall|i: int|
                0 <= i < out@.len() ==> (#[trigger] out@[i]).0 == self@[i].0 && cloned(
                    self@[i].1,
                    out@[i].1,
                ),
    {
        proof {
            use_type_invariant(self);
        }
        let mut entries: Vec<(String, T)> = Vec::new();
        for i in 0..self.entries.len()
            invariant
                entries@.len() == i,
                forall|k: int|
                    0 <= k < i ==> (#[trigger] entries@[k]).0@ == self.entries@[k].0@ && cloned(
                        self.entries@[k].1,
                        entries@[k].1,
                    ),
        {
            let value: T = self.entries[i].1.clone();
            entries.push((self.entries[i].0.clone(), value));
        }
        assert forall|i: int, j: int| 0 <= i < j < entries@.len() implies text::text_lt(
            (#[trigger] entry_views(entries@)[i]).0,
            (#[trigger] entry_views(entries@)[j]).0,
        ) by {
            assert(entry_views(self.entries@)[i].0 == entries@[i].0@);
            assert(entry_views(self.entries@)[j].0 == entries@[j].0@);
        }
        NameMap { entries }
    }
}

impl<T> NameMap<T> {
    #[verifier::type_invariant]
    spec fn well_formed(&self) -> bool {
        names_ascend(entry_views(self.entries@))
    }

    /// The map without entries.
    pub fn new() -> (out: Self)
        ensures
            out@ == Seq::<(Seq<char>, T)>::empty(),
    {
        let out = NameMap { entries: Vec::new() };
        assert(out@ =~= Seq::<(Seq<char>, T)>::empty());
        out
    }

    /// How many names there are.
    pub fn len(&self) -> (out: usize)
        ensures
            out == self@.len(),
    {
        self.entries.len()
    }

    /// Whether there is no name.
    pub fn is_empty(&self) -> (out: bool)
        ensures
            out == (self@.len() == 0),
    {
        self.entries.len() == 0
    }

    /// The `i`th name.
    pub fn name_at(&self, i: usize) -> (out: &String)
        requires
            i < self@.len(),
        ensures
            out@ == self@[i as int].0,
    {
        &self.entries[i].0
    }

    /// The value of the `i`th name.
    pub fn value_at(&self, i: usize) -> (out: &T)
        requires
            i < self@.len(),
        ensures
            *out == self@[i as int].1,
    {
        &self.entries[i].1
    }

    /// The names are in ascending order, each once.
    pub fn ordered(&self)
        ensures
            names_ascend(self@),
    {
        proof {
            use_type_invariant(self);
        }
    }

    fn place(&self, name: &str) -> (out: usize)
        ensures
            out == place_of(self@, name@),
            out <= self@.len(),
    {
        let ghost p = not_before::<T>(name@);
        let mut i: usize = 0;
        while i < self.entries.len() && str_lt(self.entries[i].0.as_str(), name)
            invariant
                i <= self.entries@.len(),
                p == not_before::<T>(name@),
                forall|k: int| 0 <= k < i ==> !p(#[trigger] self@[k]),
            decreases self.entries@.len() - i,
        {
            assert(self@[i as int].0 == self.entries@[i as int].0@);
            i = i + 1;
        }
        proof {
            if i < self.entries@.len() {
                assert(self@[i as int].0 == self.entries@[i as int].0@);
                lists::first_is(self@, p, i as int);
            } else {
                lists::first_is_none(self@, p);
            }
        }
        i
    }

    /// The value for `name`, if there is one.
    pub fn get(&self, name: &str) -> (out: Option<&T>)
        ensures
            match out {
                Some(value) => lookup(self@, name@) == Some(*value),
                None => lookup(self@, name@) is None,
            },
    {
        let ghost p = named::<T>(name@);
        for i in 0..self.entries.len()
            invariant
                p == named::<T>(name@),
                forall|k: int| 0 <= k < i ==> !p(#[trigger] self@[k]),
        {
            assert(self@[i as int].0 == self.entries@[i as int].0@);
            if str_eq(self.entries[i].0.as_str(), name) {
                proof {
                    lists::first_is(self@, p, i as int);
                }
                return Some(&self.entries[i].1);
            }
        }
        proof {
            lists::first_is_none(self@, p);
        }
        None
    }

    /// Whether there is a value for `name`.
    pub fn contains(&self, name: &str) -> (out: bool)
        ensures
            out == (lookup(self@, name@) is Some),
    {
        self.get(name).is_some()
    }

    /// Sets the value for `name`.
    pub fn insert(&mut self, name: String, value: T)
        ensures
            final(self)@ == inserted(old(self)@, name@, value),
    {
        proof {
            use_type_invariant(&*self);
        }
        let ghost m = self@;
        let ghost key = name@;
        let at: usize = self.place(name.as_str());
        let replace: bool = at < self.entries.len() && self.entries[at].0 == name;
        let mut entries: Vec<(String, T)> = Vec::new();
        std::mem::swap(&mut entries, &mut self.entries);
        assert(entry_views(entries@) == m);
        proof {
            insert_keeps_order(m, key, value);
            assert(at < m.len() ==> m[at as int].0 == entries@[at as int].0@);
        }
        let ghost before = entries@;
        if replace {
            entries.set(at, (name, value));
            assert(entry_views(entries@) =~= m.update(at as int, (key, value)));
        } else {
            entries.insert(at, (name, value));
            assert(entry_views(entries@) =~= m.insert(at as int, (key, value)));
        }
        self.entries = entries;
    }

    /// Drops the entry for `name`, if there is one.
    pub fn remove(&mut self, name: &str)
        ensures
            final(self)@ == removed(old(self)@, name@),
    {
        proof {
            use_type_invariant(&*self);
        }
        let ghost m = self@;
        let ghost p = named::<T>(name@);
        let n: usize = self.entries.len();
        let mut i: usize = 0;
        while i < n && !str_eq(self.entries[i].0.as_str(), name)
            invariant
                i <= n,
                n == self.entries@.len(),
                m == self@,
                self == old(self),
                p == named::<T>(name@),
                forall|k: int| 0 <= k < i ==> !p(#[trigger] m[k]),
            decreases n - i,
        {
            assert(m[i as int].0 == self.entries@[i as int].0@);
            i = i + 1;
        }
        if i < n {
            assert(m[i as int].0 == self.entries@[i as int].0@);
            proof {
                lists::first_is(m, p, i as int);
            }
            let mut entries: Vec<(String, T)> = Vec::new();
            std::mem::swap(&mut entries, &mut self.entries);
            let _gone = entries.remove(i);
            assert(entry_views(entries@) =~= m.remove(i as int));
            self.entries = entries;
        } else {
            proof {
                lists::first_is_none(m, p);
            }
        }
    }
}

/// What stands before the place of a name comes before it, and nothing from
/// there on does.
pub proof fn place_splits<T>(m: Seq<(Seq<char>, T)>, name: Seq<char>)
    requires
        names_ascend(m),
    ensures
        0 <= place_of(m, name) <= m.len(),
        forall|i: int| 0 <= i < place_of(m, name) ==> text::text_lt((#[trigger] m[i]).0, name),
        forall|i: int| place_of(m, name) <= i < m.len() ==> !text::text_lt((#[trigger] m[i]).0, name),
{
    let p = not_before::<T>(name);
    lists::first_is_none(m, p);
    let at = place_of(m, name);
    assert forall|i: int| at <= i < m.len() implies !text::text_lt((#[trigger] m[i]).0, name) by {
        if i > at && text::text_lt(m[i].0, name) {
            text::text_lt_is_transitive(m[at].0, m[i].0, name);
        }
    }
    assert forall|i: int| 0 <= i < at implies text::text_lt((#[trigger] m[i]).0, name) by {
        assert(!p(m[i]));
    }
}

proof fn insert_keeps_order<T>(m: Seq<(Seq<char>, T)>, name: Seq<char>, value: T)
    requires
        names_ascend(m),
    ensures
        names_ascend(inserted(m, name, value)),
{
    place_splits(m, name);
    let at = place_of(m, name);
    let out = inserted(m, name, value);
    if !(at < m.len() && m[at].0 == name) {
        assert forall|i: int| at <= i < m.len() implies text::text_lt(name, (#[trigger] m[i]).0) by {
            text::text_lt_is_total(name, m[i].0);
            if m[i].0 == name && i > at {
                assert(text::text_lt(m[at].0, m[i].0));
            }
        }
        assert forall|i: int, j: int| 0 <= i < j < out.len() implies text::text_lt(
            (#[trigger] out[i]).0,
            (#[trigger] out[j]).0,
        ) by {
            if j < at {
                assert(out[i] == m[i] && out[j] == m[j]);
            } else if j == at {
                assert(out[i] == m[i]);
            } else if i < at {
                assert(out[i] == m[i] && out[j] == m[j - 1]);
            } else if i == at {
                assert(out[j] == m[j - 1]);
            } else {
                assert(out[i] == m[i - 1] && out[j] == m[j - 1]);
            }
        }
    }
}

/// After an insertion the name has the new value, and every other name what it
/// had before.
pub proof fn insertion_is_local<T>(m: Seq<(Seq<char>, T)>, name: Seq<char>, value: T, other: Seq<char>)
    requires
        names_ascend(m),
    ensures
        lookup(inserted(m, name, value), name) == Some(value),
        other != name ==> lookup(inserted(m, name, value), other) == lookup(m, other),
{
    place_splits(m, name);
    insert_keeps_order(m, name, value);
    let at = place_of(m, name);
    let out = inserted(m, name, value);
    assert(out[at] == (name, value));
    lookup_is(out, at);
    if other != name {
        let p = named::<T>(other);
        if lists::first_where(m, p) is Some {
            let i = lists::first_where(m, p)->0;
            if at < m.len() && m[at].0 == name {
                lookup_is(out, i);
            } else if i < at {
                lookup_is(out, i);
            } else {
                assert(out[i + 1] == m[i]);
                lookup_is(out, i + 1);
            }
        } else {
            lists::first_is_none(m, p);
            assert forall|i: int| 0 <= i < out.len() implies !p(#[trigger] out[i]) by {
                if at < m.len() && m[at].0 == name {
                    if i != at {
                        assert(out[i] == m[i]);
                    }
                } else if i < at {
                    assert(out[i] == m[i]);
                } else if i > at {
                    assert(out[i] == m[i - 1]);
                }
            }
            lists::first_is_none(out, p);
        }
    }
}

/// After a removal the name has no value, and every other name what it had before.
pub proof fn removal_is_local<T>(m: Seq<(Seq<char>, T)>, name: Seq<char>, other: Seq<char>)
    requires
        names_ascend(m),
    ensures
        names_ascend(removed(m, name)),
        lookup(removed(m, name), name) is None,
        other != name ==> lookup(removed(m, name), other) == lookup(m, other),
{
    let out = removed(m, name);
    let p = named::<T>(name);
    lists::first_is_none(m, p);
    if lists::first_where(m, p) is Some {
        let at = lists::first_where(m, p)->0;
        assert(p(m[at]));
        assert forall|i: int, j: int| 0 <= i < j < out.len() implies text::text_lt(
            (#[trigger] out[i]).0,
            (#[trigger] out[j]).0,
        ) by {
            let a = if i < at { i } else { i + 1 };
            let b = if j < at { j } else { j + 1 };
            assert(out[i] == m[a] && out[j] == m[b]);
        }
        assert forall|i: int| 0 <= i < out.len() implies !p(#[trigger] out[i]) by {
            let a = if i < at { i } else { i + 1 };
            assert(out[i] == m[a]);
            if a < at {
                text::text_lt_is_asymmetric(m[a].0, m[at].0);
            } else {
                text::text_lt_is_asymmetric(m[at].0, m[a].0);
            }
        }
        lists::first_is_none(out, p);
        if other != name {
            let q = named::<T>(other);
            if lists::first_where(m, q) is Some {
                let i = lists::first_where(m, q)->0;
                assert(q(m[i]));
                let k = if i < at { i } else { i - 1 };
                assert(out[k] == m[i]);
                lookup_is(out, k);
            } else {
                lists::first_is_none(m, q);
                assert forall|i: int| 0 <= i < out.len() implies !q(#[trigger] out[i]) by {
                    let a = if i < at { i } else { i + 1 };
                    assert(out[i] == m[a]);
                }
                lists::first_is_none(out, q);
            }
        }
    }
}

/// An insertion keeps the names in order.
pub proof fn insertion_keeps_order<T>(m: Seq<(Seq<char>, T)>, name: Seq<char>, value: T)
    requires
        names_ascend(m),
    ensures
        names_ascend(inserted(m, name, value)),
{
    insert_keeps_order(m, name, value);
}

/// In an ordered map each entry is the one that its name finds.
pub proof fn lookup_is<T>(m: Seq<(Seq<char>, T)>, i: int)
    requires
        names_ascend(m),
        0 <= i < m.len(),
    ensures
        lookup(m, m[i].0) == Some(m[i].1),
        lists::first_where(m, named(m[i].0)) == Some(i),
{
    let p = named::<T>(m[i].0);
    assert forall|k: int| 0 <= k < i implies !p(#[trigger] m[k]) by {
        text::text_lt_is_asymmetric(m[k].0, m[i].0);
    }
    lists::first_is(m, p, i);
}

/// Where a name finds something, it stands in the map under that name.
pub proof fn lookup_finds<T>(m: Seq<(Seq<char>, T)>, name: Seq<char>)
    ensures
        lookup(m, name) is Some ==> exists|i: int|
            0 <= i < m.len() && (#[trigger] m[i]).0 == name && lookup(m, name) == Some(m[i].1),
        lookup(m, name) is None ==> forall|i: int| 0 <= i < m.len() ==> (#[trigger] m[i]).0 != name,
{
    let p = named::<T>(name);
    lists::first_is_none(m, p);
    if lookup(m, name) is Some {
        let i = lists::first_where(m, p)->0;
        assert(p(m[i]));
    } else {
        assert forall|i: int| 0 <= i < m.len() implies (#[trigger] m[i]).0 != name by {
            assert(!p(m[i]));
        }
    }
}

/// The map with each value seen through `f`.
pub open spec fn mapped<T, U>(m: Seq<(Seq<char>, T)>, f: spec_fn(T) -> U) -> Seq<(Seq<char>, U)> {
    m.map_values(|e: (Seq<char>, T)| (e.0, f(e.1)))
}

proof fn same_first<T, U>(
    m: Seq<(Seq<char>, T)>,
    n: Seq<(Seq<char>, U)>,
    p: spec_fn((Seq<char>, T)) -> bool,
    q: spec_fn((Seq<char>, U)) -> bool,
)
    requires
        m.len() == n.len(),
        forall|i: int| 0 <= i < m.len() ==> p(#[trigger] m[i]) == q(n[i]),
    ensures
        lists::first_where(m, p) == lists::first_where(n, q),
{
    if lists::first_where(m, p) is Some {
        lists::first_holds(m, p);
        let i = lists::first_where(m, p)->0;
        assert(p(m[i]) == q(n[i]));
        assert forall|k: int| 0 <= k < i implies !q(#[trigger] n[k]) by {
            assert(!p(m[k]));
        }
        lists::first_is(n, q, i);
    } else {
        lists::first_is_none(m, p);
        assert forall|k: int| 0 <= k < n.len() implies !q(#[trigger] n[k]) by {
            assert(!p(m[k]));
        }
        lists::first_is_none(n, q);
    }
}

/// Looking up, inserting and removing do not depend on how the values are seen.
pub proof fn mapping_keeps_places<T, U>(
    m: Seq<(Seq<char>, T)>,
    name: Seq<char>,
    value: T,
    f: spec_fn(T) -> U,
)
    ensures
        mapped(inserted(m, name, value), f) == inserted(mapped(m, f), name, f(value)),
        mapped(removed(m, name), f) == removed(mapped(m, f), name),
        lookup(mapped(m, f), name) == (match lookup(m, name) {
            Some(v) => Some(f(v)),
            None => None,
        }),
{
    let n = mapped(m, f);
    same_first(m, n, not_before::<T>(name), not_before::<U>(name));
    same_first(m, n, named::<T>(name), named::<U>(name));
    assert(place_of(m, name) == place_of(n, name));
    let at = place_of(m, name);
    if lists::first_where(m, not_before::<T>(name)) is Some {
        lists::first_holds(m, not_before::<T>(name));
    }
    if at < m.len() && m[at].0 == name {
        assert(mapped(m.update(at, (name, value)), f) =~= n.update(at, (name, f(value))));
    } else {
        assert(mapped(m.insert(at, (name, value)), f) =~= n.insert(at, (name, f(value))));
    }
    if lists::first_where(m, named::<T>(name)) is Some {
        lists::first_holds(m, named::<T>(name));
        let i = lists::first_where(m, named::<T>(name))->0;
        assert(mapped(m.remove(i), f) =~= n.remove(i));
    }
}

} // verus!
