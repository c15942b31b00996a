//! File paths as texts with `/` between their components.
use crate::lists;
use crate::text;
use crate::text::{ends_with, split_char, starts_with, str_eq};
use vstd::prelude::*;

verus! {

pub open spec fn is_absolute(path: Seq<char>) -> bool {
    path.len() > 0 && path[0] == '/'
}

/// What stands between the slashes of a path and names something: everything
/// but the empty pieces and, except at the very start, the dots that stand for
/// the same directory.
pub open spec fn component_at(pieces: Seq<Seq<char>>) -> spec_fn(int) -> Option<Seq<char>> {
    |i: int|
        if pieces[i].len() == 0 || (pieces[i] == "."@ && i > 0) {
            None
        } else {
            Some(pieces[i])
        }
}

/// The components of a path, without its root.
pub open spec fn components(path: Seq<char>) -> Seq<Seq<char>> {
    let pieces = text::split(path, '/');
    lists::gather(pieces.len(), component_at(pieces))
}

/// The components of a path, the root of an absolute one first.
pub open spec fn rooted(path: Seq<char>) -> Seq<Seq<char>> {
    if is_absolute(path) {
        seq!["/"@] + components(path)
    } else {
        components(path)
    }
}

/// The last component of a path, where it names a file or a directory.
pub open spec fn file_name(path: Seq<char>) -> Option<Seq<char>> {
    let c = components(path);
    if c.len() == 0 || c.last() == ".."@ || c.last() == "."@ {
        None
    } else {
        Some(c.last())
    }
}

/// `path` is `root` or lies below it.
pub open spec fn is_within(path: Seq<char>, root: Seq<char>) -> bool {
    rooted(root).is_prefix_of(rooted(path))
}

/// `name` below `dir`.
pub open spec fn join_path(dir: Seq<char>, name: Seq<char>) -> Seq<char> {
    if is_absolute(name) {
        name
    } else if dir.len() == 0 || dir.last() == '/' {
        dir + name
    } else {
        dir + "/"@ + name
    }
}

/// Whether a path begins at the root.
pub fn absolute(path: &str) -> (out: bool)
    ensures
        out == is_absolute(path@),
{
    proof {
        reveal_strlit("/");
        assert("/"@.len() == 1 && "/"@[0] == '/');
        if is_absolute(path@) {
            assert("/"@ =~= path@.subrange(0, 1));
        }
        if "/"@.is_prefix_of(path@) {
            assert(path@[0] == path@.subrange(0, 1)[0]);
        }
    }
    starts_with(path, "/")
}

/// The components of a path, without its root.
pub fn path_components(path: &str) -> (out: Vec<String>)
    ensures
        text::texts(out@) == components(path@),
{
    let pieces: Vec<String> = split_char(path, '/');
    let ghost all = text::split(path@, '/');
    let ghost f = component_at(all);
    let mut out: Vec<String> = Vec::new();
    assert(text::texts(out@) =~= lists::gather(0, f));
    for i in 0..pieces.len()
        invariant
            text::texts(pieces@) == all,
            f == component_at(all),
            text::texts(out@) == lists::gather(i as nat, f),
    {
        let ghost before = out@;
        let ghost given = f(i as int);
        assert(all[i as int] == pieces@[i as int]@);
        if !(pieces[i].as_str().is_empty() || (str_eq(pieces[i].as_str(), ".") && i > 0)) {
            out.push(pieces[i].clone());
            assert(text::texts(out@) =~= text::texts(before).push(given->0));
        }
    }
    out
}

/// The last component of a path, where it names a file or a directory.
pub fn name_of_file(path: &str) -> (out: Option<String>)
    ensures
        text::opt_text(out) == file_name(path@),
{
    let mut parts: Vec<String> = path_components(path);
    let ghost all = text::texts(parts@);
    match parts.pop() {
        Some(last) => {
            assert(all.last() == last@);
            if str_eq(last.as_str(), "..") || str_eq(last.as_str(), ".") {
                None
            } else {
                Some(last)
            }
        },
        None => None,
    }
}

/// Whether `path` is `root` or lies below it.
pub fn within(path: &str, root: &str) -> (out: bool)
    ensures
        out == is_within(path@, root@),
{
    let inner: Vec<String> = path_components(path);
    let outer: Vec<String> = path_components(root);
    let ghost p = components(path@);
    let ghost r = components(root@);
    let abs: bool = absolute(path);
    if absolute(root) {
        if !abs {
            proof {
                if rooted(root@).is_prefix_of(rooted(path@)) {
                    root_is_no_component(path@, 0);
                    assert(rooted(path@)[0] == rooted(root@)[0]) by {
                        assert(rooted(root@) =~= rooted(path@).subrange(0, rooted(root@).len() as int));
                        assert(rooted(path@).subrange(0, rooted(root@).len() as int)[0]
                            == rooted(path@)[0]);
                    }
                }
            }
            return false;
        }
        assert(is_within(path@, root@) == r.is_prefix_of(p)) by {
            let a = seq!["/"@] + r;
            let b = seq!["/"@] + p;
            if r.is_prefix_of(p) {
                assert(a =~= b.subrange(0, a.len() as int));
            }
            if a.is_prefix_of(b) {
                assert(r =~= p.subrange(0, r.len() as int)) by {
                    assert forall|k: int| 0 <= k < r.len() implies r[k] == p[k] by {
                        assert(a[k + 1] == b.subrange(0, a.len() as int)[k + 1]);
                    }
                }
            }
        }
    } else if abs {
        if outer.len() > 0 {
            proof {
                if is_within(path@, root@) {
                    root_is_no_component(root@, 0);
                    assert(rooted(root@) =~= rooted(path@).subrange(0, rooted(root@).len() as int));
                    assert(rooted(path@).subrange(0, rooted(root@).len() as int)[0]
                        == rooted(path@)[0]);
                }
            }
            return false;
        }
        assert(r =~= rooted(path@).subrange(0, 0));
        return true;
    }
    starts_with_all(&inner, &outer)
}

proof fn root_is_no_component(path: Seq<char>, k: int)
    requires
        0 <= k < components(path).len(),
    ensures
        components(path)[k] != "/"@,
{
    let pieces = text::split(path, '/');
    let c = components(path)[k];
    assert(components(path).contains(c));
    lists::gather_contains(pieces.len(), component_at(pieces), c);
    let i = choose|i: int| 0 <= i < pieces.len() && #[trigger] component_at(pieces)(i) == Some(c);
    pieces_hold_no_separator(path, '/', i);
    reveal_strlit("/");
    if c == "/"@ {
        assert(pieces[i][0] == '/');
        assert(pieces[i].contains('/'));
    }
}

proof fn pieces_hold_no_separator(s: Seq<char>, c: char, i: int)
    requires
        0 <= i < text::split(s, c).len(),
    ensures
        !text::split(s, c)[i].contains(c),
    decreases s.len(),
{
    if s.len() > 0 {
        let before = text::split(s.drop_last(), c);
        text::split_is_never_empty(s.drop_last(), c);
        let all = text::split(s, c);
        if s.last() == c {
            if i < before.len() {
                pieces_hold_no_separator(s.drop_last(), c, i);
            }
        } else if i < before.len() - 1 {
            pieces_hold_no_separator(s.drop_last(), c, i);
        } else {
            pieces_hold_no_separator(s.drop_last(), c, before.len() - 1);
            let last = before.last();
            assert(all[i] == last.push(s.last()));
            if all[i].contains(c) {
                let k = choose|k: int| 0 <= k < all[i].len() && all[i][k] == c;
                assert(last[k] == c);
            }
        }
    }
}

fn starts_with_all(inner: &Vec<String>, outer: &Vec<String>) -> (out: bool)
    ensures
        out == text::texts(outer@).is_prefix_of(text::texts(inner@)),
{
    let ghost p = text::texts(inner@);
    let ghost r = text::texts(outer@);
    if inner.len() < outer.len() {
        return false;
    }
    for k in 0..outer.len()
        invariant
            outer@.len() <= inner@.len(),
            p == text::texts(inner@),
            r == text::texts(outer@),
            forall|x: int| 0 <= x < k ==> r[x] == p[x],
    {
        assert(r[k as int] == outer@[k as int]@ && p[k as int] == inner@[k as int]@);
        if !(inner[k] == outer[k]) {
            assert(p.subrange(0, r.len() as int)[k as int] != r[k as int]);
            return false;
        }
    }
    assert(r =~= p.subrange(0, r.len() as int));
    true
}

/// `name` below `dir`.
pub fn join(dir: &str, name: &str) -> (out: String)
    ensures
        out@ == join_path(dir@, name@),
{
    if absolute(name) {
        return name.to_owned();
    }
    let mut out: String = dir.to_owned();
    proof {
        reveal_strlit("/");
        assert("/"@.len() == 1 && "/"@[0] == '/');
        if dir@.len() > 0 && dir@.last() == '/' {
            assert("/"@ =~= dir@.subrange(dir@.len() - 1, dir@.len() as int));
        }
        if "/"@.is_suffix_of(dir@) {
            assert(dir@.subrange(dir@.len() - 1, dir@.len() as int)[0] == dir@.last());
        }
    }
    if !(dir.is_empty() || ends_with(dir, "/")) {
        out.append("/");
    }
    out.append(name);
    out
}

} // verus!
