//! What is promised of what the program asks of the system and says of it.
use crate::desktop;
use crate::desktop::{OwnCommand, OwnStep, RuntimeFileView};
use crate::environment::EnvironmentView;
use crate::i18n;
use crate::lists;
use crate::model;
use crate::model::StateView;
use crate::path_laws;
use crate::paths;
use crate::planner::TileFit;
use crate::process;
use crate::process::SearchView;
use crate::settings;
use crate::text;
use vstd::prelude::*;

verus! {

/// Desktop entries are looked for in the user's own data first, then in that of the
/// system. In each place those of Flatpak come behind the others, and at the end
/// come those that Flatpak installs for all users.
pub proof fn entries_are_looked_for_in_order(
    data_home: Option<Seq<char>>,
    home: Option<Seq<char>>,
    data_dirs: Option<Seq<Seq<char>>>,
    k: int,
)
    ensures
        ({
            let roots = desktop::data_roots(data_home, home, data_dirs);
            let dirs = desktop::application_dirs(roots);
            &&& data_home is Some ==> roots[0] == data_home->0
            &&& data_home is None && home is Some ==> roots[0] == paths::join_path(
                home->0,
                ".local/share"@,
            )
            &&& data_dirs is Some ==> roots.len() >= data_dirs->0.len() && roots.skip(
                roots.len() - data_dirs->0.len(),
            ) == data_dirs->0
            &&& data_dirs is None ==> roots.len() >= 2 && roots[roots.len() - 2]
                == "/usr/local/share"@ && roots[roots.len() - 1] == "/usr/share"@
            &&& dirs.len() == 2 * roots.len() + 1
            &&& dirs.last() == "/var/lib/flatpak/exports/share/applications"@
            &&& 0 <= k < roots.len() ==> dirs[2 * k] == paths::join_path(roots[k], "applications"@)
                && dirs[2 * k + 1] == paths::join_path(
                roots[k],
                "flatpak/exports/share/applications"@,
            )
        }),
{
    let roots = desktop::data_roots(data_home, home, data_dirs);
    entry_dirs_are(roots, roots.len(), k);
    if data_dirs is Some {
        assert(roots.skip(roots.len() - data_dirs->0.len()) =~= data_dirs->0);
    }
}

proof fn entry_dirs_are(roots: Seq<Seq<char>>, n: nat, k: int)
    requires
        n <= roots.len(),
    ensures
        desktop::entry_dirs(roots, n).len() == 2 * n,
        0 <= k < n ==> desktop::entry_dirs(roots, n)[2 * k] == paths::join_path(
            roots[k],
            "applications"@,
        ) && desktop::entry_dirs(roots, n)[2 * k + 1] == paths::join_path(
            roots[k],
            "flatpak/exports/share/applications"@,
        ),
    decreases n,
{
    if n > 0 {
        entry_dirs_are(roots, (n - 1) as nat, k);
    }
}

/// A file of the compositor's name is its socket. Of two sockets that can be used
/// neither is newer than the other.
pub proof fn the_newest_socket_is_used(files: Seq<RuntimeFileView>, i: int, j: int, middle: Seq<char>)
    requires
        desktop::is_newest_socket(files, i),
    ensures
        desktop::is_socket_name("niri."@ + middle + ".sock"@),
        0 <= j < files.len() && desktop::is_socket_name(files[j].name) && files[j].modified is Some
            ==> files[i].modified is Some && files[j].modified->0 <= files[i].modified->0,
        desktop::is_newest_socket(files, j) ==> i == j,
        "niri."@.is_prefix_of(files[i].name) && ".sock"@.is_suffix_of(files[i].name),
{
    let s = "niri."@ + middle + ".sock"@;
    assert(s.take("niri."@.len() as int) =~= "niri."@);
    assert(s.skip(s.len() - ".sock"@.len()) =~= ".sock"@);
}

/// Only the window of the process is touched, and only to make it float or, where it
/// floats, to size it.
pub proof fn only_the_own_window_is_touched(s: StateView, pid: i32, must_float: bool, i: int)
    requires
        0 <= i < s.windows.len(),
        s.windows[i].pid == Some(pid),
        forall|j: int| 0 <= j < i ==> (#[trigger] s.windows[j]).pid != Some(pid),
    ensures
        desktop::own_step(s, pid, must_float) == if s.windows[i].is_floating {
            OwnStep::Fit(s.windows[i].id)
        } else if must_float {
            OwnStep::Float(s.windows[i].id)
        } else {
            OwnStep::Leave
        },
{
    lists::first_is(s.windows, desktop::of_process(pid), i);
}

/// Where the process has no window, nothing is touched.
pub proof fn other_windows_are_left(s: StateView, pid: i32, must_float: bool)
    requires
        forall|j: int| 0 <= j < s.windows.len() ==> (#[trigger] s.windows[j]).pid != Some(pid),
    ensures
        desktop::own_step(s, pid, must_float) is Leave,
{
    lists::first_is_none(s.windows, desktop::of_process(pid));
}

/// The own window gets just the extents that it does not have.
pub proof fn missing_extents_are_set(id: u64, width: i32, height: i32, fit: TileFit)
    ensures
        ({
            let out = desktop::own_changes(id, width, height, fit);
            &&& out.contains(OwnCommand::SetWidth { id, width }) <==> !fit.width
            &&& out.contains(OwnCommand::SetHeight { id, height }) <==> !fit.height
            &&& forall|k: int|
                0 <= k < out.len() ==> #[trigger] out[k] == (OwnCommand::SetWidth { id, width })
                    || out[k] == (OwnCommand::SetHeight { id, height })
            &&& out.len() <= 2
        }),
{
    let out = desktop::own_changes(id, width, height, fit);
    if !fit.width {
        assert(out[0] == (OwnCommand::SetWidth { id, width }));
    }
    if !fit.height {
        assert(out[out.len() - 1] == (OwnCommand::SetHeight { id, height }));
    }
}

/// A window can be sized where it is the one of the identifier and floats.
pub proof fn floating_windows_can_be_sized(s: StateView, id: u64, i: int)
    requires
        0 <= i < s.windows.len(),
        s.windows[i].id == id,
        forall|j: int| 0 <= j < i ==> (#[trigger] s.windows[j]).id != id,
    ensures
        desktop::floats(s, id) <==> s.windows[i].is_floating,
{
    lists::first_is(s.windows, model::has_id(id), i);
}

/// A run is summed up by what it printed. Where it printed nothing, the action is
/// named, with its status where it did not succeed.
pub proof fn runs_are_summed_up(
    action: Seq<char>,
    stdout: Seq<char>,
    stderr: Seq<char>,
    success: bool,
    status: Seq<char>,
)
    ensures
        ({
            let out = desktop::run_text(action, stdout, stderr, success, status);
            &&& text::is_blank(stderr) && !text::is_blank(stdout) ==> out == text::trimmed(stdout)
            &&& text::is_blank(stdout) && !text::is_blank(stderr) ==> out == text::trimmed(stderr)
            &&& !text::is_blank(stdout) && !text::is_blank(stderr) ==> out == text::trimmed(stdout)
                + "\n"@ + text::trimmed(stderr)
            &&& text::is_blank(stdout) && text::is_blank(stderr) ==> out == action + if success {
                " completed"@
            } else {
                " exited with "@ + status
            }
        }),
{
    text::blank_iff_trims_away(stdout);
    text::blank_iff_trims_away(stderr);
    assert(action + " exited with "@ + status =~= action + (" exited with "@ + status));
}

/// The variable `name` is set to `value` for a command that is started.
pub open spec fn is_set(
    wanted: Seq<(Seq<char>, Seq<char>)>,
    present: Seq<Seq<char>>,
    name: Seq<char>,
    value: Seq<char>,
) -> bool {
    process::missing_variables(wanted, present).contains((name, value))
}

/// Only variables that are not there yet are set, and only to something.
pub proof fn variables_are_not_overwritten(
    wanted: Seq<(Seq<char>, Seq<char>)>,
    present: Seq<Seq<char>>,
    name: Seq<char>,
    value: Seq<char>,
)
    ensures
        is_set(wanted, present, name, value) <==> wanted.contains((name, value))
            && !present.contains(name) && value.len() > 0,
{
    let f = process::missing_variable(wanted, present);
    lists::gather_contains(wanted.len(), f, (name, value));
    if wanted.contains((name, value)) && !present.contains(name) && value.len() > 0 {
        let i = choose|i: int| 0 <= i < wanted.len() && wanted[i] == (name, value);
        assert(f(i) == Some((name, value)));
    }
}

/// A command finds the session: it is told what kind it is, and where its display,
/// its runtime directory and its message bus are, as far as they are known.
pub proof fn commands_find_the_session(
    display: Option<Seq<char>>,
    runtime: Option<Seq<char>>,
    has_bus: bool,
    name: Seq<char>,
    value: Seq<char>,
)
    ensures
        process::session_variables(display, runtime, has_bus).contains((name, value)) <==> (name
            == "XDG_CURRENT_DESKTOP"@ && value == "niri"@) || (name == "XDG_SESSION_DESKTOP"@
            && value == "niri"@) || (name == "XDG_SESSION_TYPE"@ && value == "wayland"@) || (name
            == "WAYLAND_DISPLAY"@ && display == Some(value)) || (name == "XDG_RUNTIME_DIR"@
            && runtime == Some(value)) || (name == "DBUS_SESSION_BUS_ADDRESS"@ && has_bus
            && runtime is Some && value == "unix:path="@ + paths::join_path(runtime->0, "bus"@)),
{
    let out = process::session_variables(display, runtime, has_bus);
    assert(out[0] == ("XDG_CURRENT_DESKTOP"@, "niri"@));
    assert(out[1] == ("XDG_SESSION_DESKTOP"@, "niri"@));
    assert(out[2] == ("XDG_SESSION_TYPE"@, "wayland"@));
    let n = if display is Some {
        4int
    } else {
        3
    };
    let m = if runtime is Some {
        n + 1
    } else {
        n
    };
    if display is Some {
        assert(out[3] == ("WAYLAND_DISPLAY"@, display->0));
    }
    if runtime is Some {
        assert(out[n] == ("XDG_RUNTIME_DIR"@, runtime->0));
        if has_bus {
            assert(out[m] == (
                "DBUS_SESSION_BUS_ADDRESS"@,
                "unix:path="@ + paths::join_path(runtime->0, "bus"@),
            ));
        }
    }
    if out.contains((name, value)) {
        let i = choose|i: int| 0 <= i < out.len() && out[i] == (name, value);
        assert(i == 0 || i == 1 || i == 2 || (display is Some && i == 3) || (runtime is Some && i
            == n) || (runtime is Some && has_bus && i == m));
    }
}

/// A process is a shell that people type into by the name of its file alone.
pub proof fn shells_go_by_their_file(exe: Option<Seq<char>>)
    ensures
        process::is_shell(exe) <==> exe is Some && paths::file_name(exe->0) is Some && {
            let name = paths::file_name(exe->0)->0;
            name == "bash"@ || name == "fish"@ || name == "zsh"@ || name == "sh"@ || name == "dash"@
                || name == "nu"@
        },
{
}

/// Only a shell below the root settles the directory; children are taken in down to
/// three generations.
pub proof fn shells_below_the_root_settle(
    v: SearchView,
    pid: i32,
    exe: Option<Seq<char>>,
    cwd: Option<Seq<char>>,
    depth: usize,
    children: Seq<i32>,
    k: int,
)
    ensures
        pid == v.root || !process::is_shell(exe) ==> v.settles(pid, exe, cwd) is None,
        pid != v.root && process::is_shell(exe) ==> v.settles(pid, exe, cwd) == cwd,
        depth >= 3 ==> v.with_children(depth, children) == v,
        depth < 3 && 0 <= k < children.len() ==> v.with_children(depth, children).queue.len()
            == v.queue.len() + children.len() && v.with_children(depth, children).queue[v.queue.len()
            + k] == (children[k], (depth + 1) as usize),
        depth < 3 && 0 <= k < v.queue.len() ==> v.with_children(depth, children).queue[k]
            == v.queue[k],
{
}

/// The settings lie in the configuration directory, and where none is given in the
/// usual one below the home directory.
pub proof fn settings_lie_in_the_configuration(
    config_home: Option<Seq<char>>,
    home: Option<Seq<char>>,
)
    ensures
        config_home is Some ==> settings::config_dir_of(config_home, home) == paths::join_path(
            config_home->0,
            "niri-workbench"@,
        ),
        config_home is None && home is Some ==> settings::config_dir_of(config_home, home)
            == paths::join_path(home->0, ".config/niri-workbench"@),
        config_home is None && home is None ==> settings::config_dir_of(config_home, home)
            == paths::join_path("."@, ".config/niri-workbench"@),
{
}

/// The language is the one that was chosen, or else that of the environment, and English
/// where neither says.
pub proof fn the_chosen_language_is_spoken(
    stored: Option<Seq<char>>,
    environment: Option<Seq<char>>,
)
    ensures
        stored is Some ==> settings::language_of(stored, environment) == i18n::language_named(
            stored->0,
        ),
        stored is None && environment is Some ==> settings::language_of(stored, environment)
            == i18n::language_named(environment->0),
        stored is None && environment is None ==> settings::language_of(stored, environment)
            == i18n::Language::En,
{
    english_is_named();
}

proof fn english_is_named()
    ensures
        i18n::language_named("en"@) == i18n::Language::En,
{
    reveal_strlit("en");
    reveal_strlit("ru");
    reveal_strlit("ru_");
    let low = text::lower_text("en"@);
    assert(low.len() == 2 && low[0] == 'e');
    assert("ru"@[0] == 'r' && "ru_"@.len() == 3);
}

/// A variable has the value that is given first for its name.
pub proof fn variables_have_their_first_value(e: EnvironmentView, name: Seq<char>, i: int)
    requires
        e.names.len() == e.values.len(),
    ensures
        0 <= i < e.names.len() && e.names[i] == name && (forall|j: int|
            0 <= j < i ==> #[trigger] e.names[j] != name) ==> e.value_of(name) == e.values[i],
        (forall|j: int| 0 <= j < e.names.len() ==> #[trigger] e.names[j] != name) ==> e.value_of(
            name,
        ) is Err,
{
    let p = crate::environment::is_name(name);
    if 0 <= i < e.names.len() && e.names[i] == name && (forall|j: int|
        0 <= j < i ==> #[trigger] e.names[j] != name) {
        lists::first_is(e.names, p, i);
    }
    if forall|j: int| 0 <= j < e.names.len() ==> #[trigger] e.names[j] != name {
        lists::first_is_none(e.names, p);
    }
}

/// The socket of a session is named after its display and the process of the compositor.
pub proof fn sockets_are_named_after_their_display(dir: Seq<char>, display: Seq<char>, pid: nat)
    requires
        display.len() > 0,
        !display.contains('/'),
        pid <= 0xffff_ffff,
    ensures
        process::is_socket_of(
            paths::join_path(dir, "niri."@ + display + "."@ + text::decimal(pid) + ".sock"@),
            display,
        ),
{
    let d = text::decimal(pid);
    let name = "niri."@ + display + "."@ + d + ".sock"@;
    text::decimal_is_digits(pid);
    text::decimal_reads_back(pid, 0xffff_ffff);
    assert(!d.contains('.')) by {
        if d.contains('.') {
            let i = choose|i: int| 0 <= i < d.len() && d[i] == '.';
            assert(text::is_digit(d[i]));
        }
    }
    reveal_strlit("niri.");
    reveal_strlit(".");
    reveal_strlit("..");
    reveal_strlit(".sock");
    assert(!name.contains('/')) by {
        if name.contains('/') {
            let i = choose|i: int| 0 <= i < name.len() && name[i] == '/';
            let a = 5 + display.len();
            if i < 5 {
                assert(name[i] == "niri."@[i]);
            } else if i < a {
                assert(name[i] == display[i - 5]);
                assert(display.contains('/'));
            } else if i == a {
                assert(name[i] == "."@[0]);
            } else if i < a + 1 + d.len() {
                assert(name[i] == d[i - a - 1]);
                assert(text::is_digit(d[i - a - 1]));
            } else {
                assert(name[i] == ".sock"@[i - a - 1 - d.len()]);
            }
        }
    }
    assert(name.len() > 5);
    path_laws::names_below_a_directory_come_last(dir, name);
    assert(text::unsigned_number(d, 0xffff_ffff) is Some);
    assert(process::names_display(name, display, d));
    assert(paths::file_name(paths::join_path(dir, name)) == Some(name));
    let path = paths::join_path(dir, name);
    assert(process::names_display(paths::file_name(path)->0, display, d));
}

/// The children of a process are the numbers that its list holds, whatever white space is
/// between them.
pub proof fn listed_children_are_read(s: Seq<char>, n: nat, white: char)
    requires
        n <= i32::MAX,
        text::is_white(white),
    ensures
        process::listed_pids(s.push(white) + text::decimal(n)) == process::listed_pids(s).push(
            n as i32,
        ),
        process::listed_pids(Seq::empty()) == Seq::<i32>::empty(),
{
    let d = text::decimal(n);
    let t = process::spaced(s);
    let all = process::spaced(s.push(white) + d);
    text::decimal_is_digits(n);
    text::decimal_reads_back(n, 0);
    assert(!d.contains(' ')) by {
        if d.contains(' ') {
            let i = choose|i: int| 0 <= i < d.len() && d[i] == ' ';
            assert(text::is_digit(d[i]));
        }
    }
    assert forall|i: int| 0 <= i < d.len() implies !text::is_white(#[trigger] d[i]) by {
        assert(text::is_digit(d[i]));
    }
    assert(all =~= t.push(' ') + d);
    path_laws::separators_part_pieces(t, ' ', d);
    let p = text::split(t, ' ');
    let q = p.push(d);
    let f = process::listed_pid(p);
    let g = process::listed_pid(q);
    assert forall|i: int| 0 <= i < p.len() implies #[trigger] f(i) == g(i) by {
        assert(q[i] == p[i]);
    }
    lists::gather_agrees(p.len(), f, g);
    assert(g(p.len() as int) == Some(n as i32));
    assert(lists::gather(q.len(), g) == lists::gather(p.len(), g).push(n as i32));
    let e = process::spaced(Seq::empty());
    assert(e =~= Seq::empty());
    path_laws::separators_part_pieces(Seq::<char>::empty(), ' ', Seq::empty());
    let r = text::split(e, ' ');
    let h = process::listed_pid(r);
    assert(r =~= seq![Seq::<char>::empty()]);
    assert(h(0) is None);
    reveal_with_fuel(lists::gather, 2);
    assert(process::listed_pids(Seq::empty()) =~= Seq::empty());
}

} // verus!
