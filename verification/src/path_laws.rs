//! What is promised of paths and of the pieces of texts.
use crate::lists;
use crate::paths;
use crate::text;
use vstd::prelude::*;

verus! {

proof fn split_grows<A>(s: Seq<A>, c: A, t: Seq<A>)
    requires
        !t.contains(c),
    ensures
        text::split(s + t, c) == text::split(s, c).drop_last().push(text::split(s, c).last() + t),
    decreases t.len(),
{
    text::split_is_never_empty(s, c);
    let p = text::split(s, c);
    if t.len() == 0 {
        assert(s + t =~= s);
        assert(p.last() + t =~= p.last());
        assert(p.drop_last().push(p.last()) =~= p);
    } else {
        let u = t.drop_last();
        assert(!u.contains(c)) by {
            if u.contains(c) {
                let i = choose|i: int| 0 <= i < u.len() && u[i] == c;
                assert(t[i] == c);
            }
        }
        split_grows(s, c, u);
        assert((s + t).drop_last() =~= s + u);
        assert(t[t.len() - 1] == t.last());
        let before = text::split(s + u, c);
        assert(before.drop_last() =~= p.drop_last());
        assert(before.last().push(t.last()) =~= p.last() + t);
    }
}

/// What stands behind a separator is a piece of its own.
pub proof fn separators_part_pieces<A>(s: Seq<A>, c: A, t: Seq<A>)
    requires
        !t.contains(c),
    ensures
        text::split(s.push(c) + t, c) == text::split(s, c).push(t),
        text::split(t, c) == seq![t],
{
    text::split_is_never_empty(s, c);
    split_grows(s.push(c), c, t);
    assert(s.push(c).drop_last() =~= s);
    let p = text::split(s, c);
    assert(p.push(Seq::empty()).drop_last() =~= p);
    assert(Seq::<A>::empty() + t =~= t);
    split_grows(Seq::empty(), c, t);
    assert(Seq::<A>::empty() + t =~= t);
    let e = text::split(Seq::<A>::empty(), c);
    assert(e =~= seq![Seq::<A>::empty()]);
    assert(e.drop_last().push(e.last() + t) =~= seq![t]);
}

/// The name of a file or directory within another one.
pub open spec fn is_plain_name(name: Seq<char>) -> bool {
    name.len() > 0 && !name.contains('/') && name != "."@ && name != ".."@
}

proof fn pieces_grow(pieces: Seq<Seq<char>>, name: Seq<char>)
    requires
        pieces.len() > 0,
    ensures
        ({
            let all = pieces.push(name);
            let before = lists::gather(pieces.len(), paths::component_at(pieces));
            lists::gather(all.len(), paths::component_at(all)) == if name.len() == 0 || name
                == "."@ {
                before
            } else {
                before.push(name)
            }
        }),
{
    let all = pieces.push(name);
    let f = paths::component_at(pieces);
    let g = paths::component_at(all);
    assert forall|i: int| 0 <= i < pieces.len() implies #[trigger] f(i) == g(i) by {
        assert(all[i] == pieces[i]);
    }
    lists::gather_agrees(pieces.len(), f, g);
    assert(all[pieces.len() as int] == name);
}

/// A name below a directory is its last component, and the ones before it are those of
/// the directory.
pub proof fn names_below_a_directory_come_last(dir: Seq<char>, name: Seq<char>)
    requires
        is_plain_name(name),
    ensures
        paths::components(paths::join_path(dir, name)) == paths::components(dir).push(name),
        paths::is_absolute(paths::join_path(dir, name)) == paths::is_absolute(dir),
        paths::file_name(paths::join_path(dir, name)) == Some(name),
        paths::rooted(paths::join_path(dir, name)) == paths::rooted(dir).push(name),
{
    let out = paths::join_path(dir, name);
    reveal_strlit("/");
    assert(name[0] != '/') by {
        assert(name.contains(name[0]));
    }
    text::split_is_never_empty(dir, '/');
    if dir.len() == 0 {
        assert(out =~= name);
        assert(dir =~= Seq::empty());
        separators_part_pieces(Seq::empty(), '/', name);
        let p = text::split(name, '/');
        let f = paths::component_at(p);
        assert(p[0] == name);
        reveal_with_fuel(lists::gather, 2);
        assert(paths::components(out) =~= seq![name]);
        let q = text::split(dir, '/');
        assert(q =~= seq![Seq::<char>::empty()]);
        let g = paths::component_at(q);
        assert(g(0) is None);
        assert(paths::components(dir) =~= Seq::empty());
    } else if dir.last() == '/' {
        let d = dir.drop_last();
        assert(dir =~= d.push('/'));
        separators_part_pieces(d, '/', name);
        separators_part_pieces(d, '/', Seq::empty());
        assert(d.push('/') + Seq::empty() =~= dir);
        text::split_is_never_empty(d, '/');
        pieces_grow(text::split(d, '/'), name);
        pieces_grow(text::split(d, '/'), Seq::empty());
        assert(out[0] == dir[0]);
    } else {
        assert(out =~= dir.push('/') + name);
        separators_part_pieces(dir, '/', name);
        pieces_grow(text::split(dir, '/'), name);
        assert(out[0] == dir[0]);
    }
    assert(paths::components(out).last() == name);
    assert(paths::rooted(out) =~= paths::rooted(dir).push(name));
}

/// What is below a directory lies in it and in all that it lies in. A directory lies in
/// itself, and in none of those below it.
pub proof fn paths_lie_in_their_directories(
    dir: Seq<char>,
    name: Seq<char>,
    path: Seq<char>,
    root: Seq<char>,
)
    requires
        is_plain_name(name),
    ensures
        paths::is_within(dir, dir),
        paths::is_within(paths::join_path(dir, name), dir),
        !paths::is_within(dir, paths::join_path(dir, name)),
        paths::is_within(path, dir) && paths::is_within(dir, root) ==> paths::is_within(path, root),
{
    names_below_a_directory_come_last(dir, name);
    let a = paths::rooted(dir);
    let b = paths::rooted(paths::join_path(dir, name));
    assert(a.is_prefix_of(b)) by {
        assert(b.take(a.len() as int) =~= a);
    }
    if paths::is_within(path, dir) && paths::is_within(dir, root) {
        let p = paths::rooted(path);
        let r = paths::rooted(root);
        assert(p.take(r.len() as int) =~= a.take(r.len() as int));
    }
}

/// Directories that only begin alike are not taken for one another.
pub proof fn like_beginnings_are_no_directories(dir: Seq<char>, a: Seq<char>, b: Seq<char>)
    requires
        is_plain_name(a),
        is_plain_name(b),
        a != b,
    ensures
        !paths::is_within(paths::join_path(dir, a), paths::join_path(dir, b)),
{
    names_below_a_directory_come_last(dir, a);
    names_below_a_directory_come_last(dir, b);
    let p = paths::rooted(paths::join_path(dir, a));
    let q = paths::rooted(paths::join_path(dir, b));
    if q.is_prefix_of(p) {
        assert(p =~= q);
        assert(p.last() == a && q.last() == b);
    }
}

/// An absolute name stands for itself, wherever it is looked for.
pub proof fn absolute_names_stand_for_themselves(dir: Seq<char>, rest: Seq<char>)
    ensures
        paths::is_absolute(seq!['/'] + rest),
        paths::join_path(dir, seq!['/'] + rest) == seq!['/'] + rest,
{
}

/// White space around a text is taken off, and none from within.
pub proof fn only_white_space_around_is_taken_off(before: Seq<char>, s: Seq<char>, behind: Seq<char>)
    requires
        text::is_blank(before),
        text::is_blank(behind),
        s.len() > 0,
        !text::is_white(s[0]),
        !text::is_white(s.last()),
    ensures
        text::trimmed(before + s + behind) == s,
{
    start_is_taken_off(before, s + behind);
    assert(before + s + behind =~= before + (s + behind));
    end_is_taken_off(s, behind);
}

proof fn start_is_taken_off(before: Seq<char>, t: Seq<char>)
    requires
        text::is_blank(before),
        t.len() > 0,
        !text::is_white(t[0]),
    ensures
        text::trim_start(before + t) == t,
    decreases before.len(),
{
    if before.len() == 0 {
        assert(before + t =~= t);
    } else {
        let rest = before.drop_first();
        assert((before + t)[0] == before[0]);
        assert((before + t).drop_first() =~= rest + t);
        assert forall|i: int| 0 <= i < rest.len() implies text::is_white(rest[i]) by {
            assert(rest[i] == before[i + 1]);
        }
        start_is_taken_off(rest, t);
    }
}

proof fn end_is_taken_off(t: Seq<char>, behind: Seq<char>)
    requires
        text::is_blank(behind),
        t.len() > 0,
        !text::is_white(t.last()),
    ensures
        text::trim_end(t + behind) == t,
    decreases behind.len(),
{
    if behind.len() == 0 {
        assert(t + behind =~= t);
    } else {
        let rest = behind.drop_last();
        assert((t + behind).last() == behind.last());
        assert(behind[behind.len() - 1] == behind.last());
        assert((t + behind).drop_last() =~= t + rest);
        assert forall|i: int| 0 <= i < rest.len() implies text::is_white(rest[i]) by {
            assert(rest[i] == behind[i]);
        }
        end_is_taken_off(t, rest);
    }
}

/// In lower case a text has the same length, and every other character than a capital
/// of ASCII is as it was; to lower it again changes nothing.
pub proof fn only_capitals_are_lowered(s: Seq<char>, i: int)
    requires
        0 <= i < s.len(),
    ensures
        text::lower_text(s).len() == s.len(),
        'A' <= s[i] <= 'Z' ==> text::lower_text(s)[i] as int == s[i] as int + 32,
        !('A' <= s[i] <= 'Z') ==> text::lower_text(s)[i] == s[i],
        text::lower_text(text::lower_text(s)) == text::lower_text(s),
{
    assert(text::lower_text(text::lower_text(s)) =~= text::lower_text(s));
}

/// A line ends at a line feed, or at a carriage return before it.
pub proof fn lines_end_at_line_feeds(s: Seq<char>, line: Seq<char>)
    requires
        !line.contains('\n'),
        line.len() > 0 ==> line.last() != '\r',
    ensures
        text::lines(s.push('\n') + line.push('\n')) == text::lines(s.push('\n')).push(line),
        text::lines(s.push('\n') + line.push('\r').push('\n')) == text::lines(s.push('\n')).push(
            line,
        ),
        line.len() > 0 ==> text::lines(s.push('\n') + line) == text::lines(s.push('\n')).push(line),
        text::lines(Seq::empty()) == Seq::<Seq<char>>::empty(),
{
    let f = |l: Seq<char>| text::without_cr(l);
    let p = text::split(s, '\n');
    let none = Seq::<char>::empty();
    let cr = line.push('\r');
    assert(!none.contains('\n'));
    assert(!cr.contains('\n')) by {
        if cr.contains('\n') {
            let i = choose|i: int| 0 <= i < cr.len() && cr[i] == '\n';
            assert(line[i] == '\n');
        }
    }
    separators_part_pieces(s, '\n', none);
    separators_part_pieces(s, '\n', line);
    separators_part_pieces(s, '\n', cr);
    assert(s.push('\n') + none =~= s.push('\n'));
    let before = p.push(none);
    assert(before.drop_last() =~= p);
    assert(text::lines(s.push('\n')) =~= p.map_values(f));
    let t = s.push('\n') + line;
    let u = s.push('\n') + cr;
    separators_part_pieces(t, '\n', none);
    separators_part_pieces(u, '\n', none);
    assert(t.push('\n') + none =~= s.push('\n') + line.push('\n'));
    assert(u.push('\n') + none =~= s.push('\n') + line.push('\r').push('\n'));
    assert(p.push(line).push(none).drop_last() =~= p.push(line));
    assert(p.push(cr).push(none).drop_last() =~= p.push(cr));
    assert(text::without_cr(line) == line);
    assert(cr.drop_last() =~= line);
    assert(p.push(line).map_values(f) =~= p.map_values(f).push(line));
    assert(p.push(cr).map_values(f) =~= p.map_values(f).push(line));
    assert(p.push(line).drop_last() =~= p);
    let e = text::split(none, '\n');
    assert(e =~= seq![none]);
    assert(text::lines(none) =~= Seq::empty());
}

} // verus!
