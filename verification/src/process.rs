//! What the system says of processes, and the environment they are started in.
use crate::lists;
use crate::paths;
use crate::paths::{join, name_of_file};
use crate::text;
use crate::text::{
    char_is_white, chars_of, list_contains, parse_i32, parse_u32, rfind_char, split_char, str_eq,
    strip_prefix, strip_suffix,
};
use vstd::prelude::*;

verus! {

// The session that commands are started in

/// `file` is the name of the socket of the session on `display`: it names the
/// display and the process of the compositor.
pub open spec fn names_display(file: Seq<char>, display: Seq<char>, pid: Seq<char>) -> bool {
    &&& display.len() > 0
    &&& !pid.contains('.')
    &&& text::unsigned_number(pid, 0xffff_ffff) is Some
    &&& file == "niri."@ + display + "."@ + pid + ".sock"@
}

/// The socket at `path` belongs to the session on `display`.
pub open spec fn is_socket_of(path: Seq<char>, display: Seq<char>) -> bool {
    paths::file_name(path) is Some && exists|pid: Seq<char>|
        names_display(paths::file_name(path)->0, display, pid)
}

/// The display of the session that a socket belongs to, if its name gives one.
pub fn niri_wayland_display(socket: &str) -> (out: Option<String>)
    ensures
        match out {
            Some(display) => is_socket_of(socket@, display@),
            None => forall|display: Seq<char>| !is_socket_of(socket@, display),
        },
{
    let file: String = match name_of_file(socket) {
        Some(f) => f,
        None => {
            return None;
        },
    };
    let ghost f = file@;
    proof {
        reveal_strlit("niri.");
        reveal_strlit(".");
        reveal_strlit(".sock");
        assert forall|display: Seq<char>, pid: Seq<char>| #[trigger]
            names_display(f, display, pid) implies "niri."@.is_prefix_of(f) && f.skip(5)
            == display + "."@ + pid + ".sock"@ && ".sock"@.is_suffix_of(f.skip(5)) && f.skip(5).take(
            f.len() - 10,
        ) == display + "."@ + pid && text::last_at(
            display + "."@ + pid,
            '.',
            display.len() as int,
        ) by {
            assert(f.subrange(0, 5) =~= "niri."@);
            assert(f.skip(5) =~= display + "."@ + pid + ".sock"@);
            let rest = f.skip(5);
            assert(rest.subrange(rest.len() - 5, rest.len() as int) =~= ".sock"@);
            assert(rest.take(f.len() - 10) =~= display + "."@ + pid);
            let body = display + "."@ + pid;
            assert forall|k: int| display.len() < k < body.len() implies body[k] != '.' by {
                assert(body[k] == pid[k - display.len() - 1]);
            }
        }
    }
    let rest: &str = match strip_prefix(file.as_str(), "niri.") {
        Some(r) => r,
        None => {
            return None;
        },
    };
    let body: &str = match strip_suffix(rest, ".sock") {
        Some(b) => b,
        None => {
            return None;
        },
    };
    let ghost b = body@;
    assert(b == f.skip(5).take(f.len() - 10));
    let at: usize = match rfind_char(body, '.') {
        Some(i) => i,
        None => {
            proof {
                assert forall|display: Seq<char>, pid: Seq<char>| !names_display(
                    f,
                    display,
                    pid,
                ) by {
                    if names_display(f, display, pid) {
                        assert(b[display.len() as int] == '.');
                    }
                }
            }
            return None;
        },
    };
    let n: usize = body.unicode_len();
    let display: &str = body.substring_char(0, at);
    let pid: &str = body.substring_char(at + 1, n);
    proof {
        assert forall|d: Seq<char>, p: Seq<char>| #[trigger] names_display(f, d, p) implies d
            == display@ && p == pid@ by {
            let i = d.len() as int;
            assert(text::last_at(b, '.', i));
            if i < at {
                assert(b[at as int] == '.');
            } else if at < i {
                assert(b[i] == '.');
            }
            assert(d =~= b.subrange(0, at as int));
            assert(p =~= b.subrange(at + 1, n as int));
        }
    }
    if parse_u32(pid).is_none() || at == 0 {
        return None;
    }
    proof {
        assert(!pid@.contains('.')) by {
            if pid@.contains('.') {
                let k = choose|k: int| 0 <= k < pid@.len() && pid@[k] == '.';
                assert(b[at + 1 + k] == '.');
            }
        }
        assert("niri."@ =~= f.subrange(0, 5));
        assert(f.skip(5).subrange(f.len() - 10, f.len() - 5) =~= ".sock"@);
        assert(f =~= "niri."@ + f.skip(5));
        assert(f.skip(5) =~= b + ".sock"@);
        assert(b =~= display@ + "."@ + pid@);
        assert(f =~= "niri."@ + display@ + "."@ + pid@ + ".sock"@);
        assert(names_display(f, display@, pid@));
    }
    let found: String = display.to_owned();
    assert(names_display(paths::file_name(socket@)->0, found@, pid@));
    assert(is_socket_of(socket@, found@));
    Some(found)
}

/// The address of the message bus of the session.
pub open spec fn bus_address(runtime: Seq<char>) -> Seq<char> {
    "unix:path="@ + paths::join_path(runtime, "bus"@)
}

/// The path of the message bus of the session.
pub fn bus_path(runtime: &str) -> (out: String)
    ensures
        out@ == paths::join_path(runtime@, "bus"@),
{
    join(runtime, "bus")
}

/// The variables of a session: its kind, its display, its runtime directory, and
/// its message bus where there is one.
pub open spec fn session_variables(
    display: Option<Seq<char>>,
    runtime: Option<Seq<char>>,
    has_bus: bool,
) -> Seq<(Seq<char>, Seq<char>)> {
    seq![
        ("XDG_CURRENT_DESKTOP"@, "niri"@),
        ("XDG_SESSION_DESKTOP"@, "niri"@),
        ("XDG_SESSION_TYPE"@, "wayland"@),
    ] + (match display {
        Some(d) => seq![("WAYLAND_DISPLAY"@, d)],
        None => Seq::empty(),
    }) + (match runtime {
        Some(r) => seq![("XDG_RUNTIME_DIR"@, r)],
        None => Seq::empty(),
    }) + (if runtime is Some && has_bus {
        seq![("DBUS_SESSION_BUS_ADDRESS"@, bus_address(runtime->0))]
    } else {
        Seq::empty()
    })
}

pub open spec fn missing_variable(
    wanted: Seq<(Seq<char>, Seq<char>)>,
    present: Seq<Seq<char>>,
) -> spec_fn(int) -> Option<(Seq<char>, Seq<char>)> {
    |i: int|
        if !present.contains(wanted[i].0) && wanted[i].1.len() > 0 {
            Some(wanted[i])
        } else {
            None
        }
}

/// The variables of `wanted` that are not set and have a value.
pub open spec fn missing_variables(
    wanted: Seq<(Seq<char>, Seq<char>)>,
    present: Seq<Seq<char>>,
) -> Seq<(Seq<char>, Seq<char>)> {
    lists::gather(wanted.len(), missing_variable(wanted, present))
}

pub open spec fn pair_views(v: Seq<(String, String)>) -> Seq<(Seq<char>, Seq<char>)> {
    v.map_values(|p: (String, String)| (p.0@, p.1@))
}

/// The variables that a command needs so that it finds the session, but for those
/// that are set already. `present` holds the names of those.
pub fn session_environment(
    display: &Option<String>,
    runtime: &Option<String>,
    has_bus: bool,
    present: &Vec<String>,
) -> (out: Vec<(String, String)>)
    ensures
        pair_views(out@) == missing_variables(
            session_variables(text::opt_text(*display), text::opt_text(*runtime), has_bus),
            text::texts(present@),
        ),
{
    let mut wanted: Vec<(String, String)> = Vec::new();
    wanted.push(("XDG_CURRENT_DESKTOP".to_owned(), "niri".to_owned()));
    wanted.push(("XDG_SESSION_DESKTOP".to_owned(), "niri".to_owned()));
    wanted.push(("XDG_SESSION_TYPE".to_owned(), "wayland".to_owned()));
    if let Some(d) = display {
        wanted.push(("WAYLAND_DISPLAY".to_owned(), d.clone()));
    }
    if let Some(r) = runtime {
        wanted.push(("XDG_RUNTIME_DIR".to_owned(), r.clone()));
        if has_bus {
            let mut address: String = "unix:path=".to_owned();
            address.append(bus_path(r.as_str()).as_str());
            wanted.push(("DBUS_SESSION_BUS_ADDRESS".to_owned(), address));
        }
    }
    let ghost all = session_variables(
        text::opt_text(*display),
        text::opt_text(*runtime),
        has_bus,
    );
    assert(pair_views(wanted@) =~= all);
    let ghost f = missing_variable(all, text::texts(present@));
    let mut out: Vec<(String, String)> = Vec::new();
    assert(pair_views(out@) =~= lists::gather(0, f));
    for i in 0..wanted.len()
        invariant
            pair_views(wanted@) == all,
            f == missing_variable(all, text::texts(present@)),
            pair_views(out@) == lists::gather(i as nat, f),
    {
        let ghost given = f(i as int);
        let ghost before = out@;
        assert(all[i as int] == (wanted@[i as int].0@, wanted@[i as int].1@));
        if !list_contains(present, wanted[i].0.as_str()) && wanted[i].1.as_str().unicode_len() > 0 {
            out.push((wanted[i].0.clone(), wanted[i].1.clone()));
            assert(pair_views(out@) =~= pair_views(before).push(given->0));
        }
    }
    out
}

// Processes

/// `s` with a space for all white space.
pub open spec fn spaced(s: Seq<char>) -> Seq<char> {
    s.map_values(
        |c: char|
            if text::is_white(c) {
                ' '
            } else {
                c
            },
    )
}

pub open spec fn listed_pid(pieces: Seq<Seq<char>>) -> spec_fn(int) -> Option<i32> {
    |i: int|
        match text::i32_number(pieces[i]) {
            Some(n) => Some(n as i32),
            None => None,
        }
}

/// The processes that a text lists: the numbers between its white space.
pub open spec fn listed_pids(s: Seq<char>) -> Seq<i32> {
    let pieces = text::split(spaced(s), ' ');
    lists::gather(pieces.len(), listed_pid(pieces))
}

/// Reads the list of a process's children.
pub fn process_children(list: &str) -> (out: Vec<i32>)
    ensures
        out@ == listed_pids(list@),
{
    let cs: Vec<char> = chars_of(list);
    let mut line: String = String::new();
    assert(line@ =~= spaced(list@).take(0));
    for i in 0..cs.len()
        invariant
            cs@ == list@,
            line@ == spaced(list@).take(i as int),
    {
        let ghost before = line@;
        line.push(
            if char_is_white(cs[i]) {
                ' '
            } else {
                cs[i]
            },
        );
        assert(line@ =~= spaced(list@).take(i + 1));
    }
    assert(spaced(list@).take(list@.len() as int) =~= spaced(list@));
    let pieces: Vec<String> = split_char(line.as_str(), ' ');
    let ghost all = text::split(spaced(list@), ' ');
    let ghost f = listed_pid(all);
    let mut out: Vec<i32> = Vec::new();
    assert(out@ =~= lists::gather(0, f));
    for i in 0..pieces.len()
        invariant
            text::texts(pieces@) == all,
            f == listed_pid(all),
            out@ == lists::gather(i as nat, f),
    {
        assert(all[i as int] == pieces@[i as int]@);
        let ghost given = f(i as int);
        if let Some(pid) = parse_i32(pieces[i].as_str()) {
            out.push(pid);
        }
    }
    out
}

/// The name of a shell that people type into.
pub open spec fn is_shell_name(name: Seq<char>) -> bool {
    name == "bash"@ || name == "fish"@ || name == "zsh"@ || name == "sh"@ || name == "dash"@ || name
        == "nu"@
}

/// The executable is a shell that people type into.
pub open spec fn is_shell(exe: Option<Seq<char>>) -> bool {
    exe is Some && paths::file_name(exe->0) is Some && is_shell_name(paths::file_name(exe->0)->0)
}

/// Whether an executable is a shell that people type into.
pub fn is_interactive_shell(exe: &Option<String>) -> (out: bool)
    ensures
        out == is_shell(text::opt_text(*exe)),
{
    match exe {
        Some(path) => match name_of_file(path.as_str()) {
            Some(name) => {
                let n: &str = name.as_str();
                str_eq(n, "bash") || str_eq(n, "fish") || str_eq(n, "zsh") || str_eq(n, "sh")
                    || str_eq(n, "dash") || str_eq(n, "nu")
            },
            None => false,
        },
        None => false,
    }
}

/// How many generations below a process are looked at.
pub const DEEPEST: usize = 3;

/// The search below a process for the shell that runs in it, breadth first.
#[derive(Debug)]
pub struct ShellSearch {
    pub root: i32,
    pub queue: Vec<(i32, usize)>,
    pub visited: Vec<i32>,
}

/// The state of a search.
#[verifier::ext_equal]
pub struct SearchView {
    pub root: i32,
    pub queue: Seq<(i32, usize)>,
    pub visited: Seq<i32>,
}

impl View for ShellSearch {
    type V = SearchView;

    open spec fn view(&self) -> SearchView {
        SearchView { root: self.root, queue: self.queue@, visited: self.visited@ }
    }
}

/// The first process of a queue that was not visited.
pub open spec fn first_new(visited: Seq<i32>) -> spec_fn((i32, usize)) -> bool {
    |e: (i32, usize)| !visited.contains(e.0)
}

impl SearchView {
    /// The process that is visited next, and how far below the root it is.
    pub open spec fn upcoming(self) -> Option<(i32, usize)> {
        lists::find(self.queue, first_new(self.visited))
    }

    /// The search once that process is visited.
    pub open spec fn advanced(self) -> SearchView {
        match lists::first_where(self.queue, first_new(self.visited)) {
            Some(i) => SearchView {
                queue: self.queue.skip(i + 1),
                visited: self.visited.push(self.queue[i].0),
                ..self
            },
            None => SearchView { queue: Seq::empty(), ..self },
        }
    }

    /// The search with the children of a process `depth` below the root.
    pub open spec fn with_children(self, depth: usize, children: Seq<i32>) -> SearchView {
        if depth < DEEPEST {
            SearchView {
                queue: self.queue + children.map_values(|c: i32| (c, (depth + 1) as usize)),
                ..self
            }
        } else {
            self
        }
    }

    /// No process was visited twice, and none is further down than it may be.
    pub open spec fn wf(self) -> bool {
        &&& self.visited.no_duplicates()
        &&& forall|i: int| 0 <= i < self.queue.len() ==> (#[trigger] self.queue[i]).1 <= DEEPEST
    }

    /// What a process that was visited settles: the directory of a shell below the
    /// root is the one that is looked for.
    pub open spec fn settles(
        self,
        pid: i32,
        exe: Option<Seq<char>>,
        cwd: Option<Seq<char>>,
    ) -> Option<Seq<char>> {
        if pid != self.root && is_shell(exe) {
            cwd
        } else {
            None
        }
    }
}

impl ShellSearch {
    /// A search that begins at `root`.
    pub fn new(root: i32) -> (out: ShellSearch)
        ensures
            out@ == (SearchView { root, queue: seq![(root, 0usize)], visited: Seq::empty() }),
            out@.wf(),
    {
        let mut queue: Vec<(i32, usize)> = Vec::new();
        queue.push((root, 0));
        ShellSearch { root, queue, visited: Vec::new() }
    }

    /// The process to visit next, and how far below the root it is.
    pub fn advance(&mut self) -> (out: Option<(i32, usize)>)
        requires
            old(self)@.wf(),
        ensures
            out == old(self)@.upcoming(),
            final(self)@ == old(self)@.advanced(),
            final(self)@.wf(),
            match out {
                Some((pid, depth)) => !old(self)@.visited.contains(pid) && depth <= DEEPEST,
                None => true,
            },
    {
        let ghost before = self@;
        let ghost p = first_new(before.visited);
        let ghost mut skipped: nat = 0;
        while self.queue.len() > 0
            invariant
                before == old(self)@,
                before.wf(),
                p == first_new(before.visited),
                self.root == before.root,
                self.visited@ == before.visited,
                skipped + self.queue@.len() == before.queue.len(),
                self.queue@ == before.queue.skip(skipped as int),
                forall|k: int| 0 <= k < skipped ==> !p(#[trigger] before.queue[k]),
            decreases self.queue@.len(),
        {
            let ghost at = skipped as int;
            assert(self.queue@[0] == before.queue[at]);
            let entry: (i32, usize) = self.queue.remove(0);
            assert(self.queue@ =~= before.queue.skip(at + 1));
            if !seen(&self.visited, entry.0) {
                proof {
                    lists::first_is(before.queue, p, at);
                }
                self.visited.push(entry.0);
                assert(self@ =~= before.advanced());
                return Some(entry);
            }
            proof {
                skipped = skipped + 1;
            }
        }
        proof {
            lists::first_is_none(before.queue, p);
            assert(self@ =~= before.advanced());
        }
        None
    }

    /// What a process that was visited settles.
    pub fn settle(&self, pid: i32, exe: &Option<String>, cwd: Option<String>) -> (out: Option<
        String,
    >)
        ensures
            text::opt_text(out) == self@.settles(pid, text::opt_text(*exe), text::opt_text(cwd)),
    {
        if pid != self.root && is_interactive_shell(exe) {
            cwd
        } else {
            None
        }
    }

    /// Takes in the children of a process `depth` below the root.
    pub fn add_children(&mut self, depth: usize, children: &Vec<i32>)
        requires
            old(self)@.wf(),
        ensures
            final(self)@ == old(self)@.with_children(depth, children@),
            final(self)@.wf(),
    {
        let ghost before = self@;
        if depth >= DEEPEST {
            return;
        }
        let ghost more = children@.map_values(|c: i32| (c, (depth + 1) as usize));
        let mut i: usize = 0;
        assert(self.queue@ =~= before.queue + more.take(0));
        while i < children.len()
            invariant
                i <= children@.len(),
                depth < DEEPEST,
                before == old(self)@,
                self.root == before.root,
                self.visited@ == before.visited,
                more == children@.map_values(|c: i32| (c, (depth + 1) as usize)),
                self.queue@ == before.queue + more.take(i as int),
            decreases children@.len() - i,
        {
            self.queue.push((children[i], depth + 1));
            assert(self.queue@ =~= before.queue + more.take(i + 1));
            i = i + 1;
        }
        assert(more.take(children@.len() as int) =~= more);
        assert(self@ =~= before.with_children(depth, children@));
    }
}

fn seen(visited: &Vec<i32>, pid: i32) -> (out: bool)
    ensures
        out == visited@.contains(pid),
{
    for i in 0..visited.len()
        invariant
            forall|k: int| 0 <= k < i ==> visited@[k] != pid,
    {
        if visited[i] == pid {
            return true;
        }
    }
    false
}

} // verus!
