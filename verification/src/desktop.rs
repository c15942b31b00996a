//! The desktop around the program: where applications are listed, which socket
//! the compositor listens on, and the program's own window.
use crate::lists;
use crate::model::{ObservedState, RuntimeView, RuntimeWindow, StateView};
use crate::outside;
use crate::outside::text_of_bytes;
use crate::paths;
use crate::paths::join as join_paths;
use crate::planner::TileFit;
use crate::text;
use crate::text::{ends_with, starts_with, trim};
use vstd::prelude::*;

verus! {

// Where applications are listed

/// The directories below which applications keep their data: the user's first.
pub open spec fn data_roots(
    data_home: Option<Seq<char>>,
    home: Option<Seq<char>>,
    data_dirs: Option<Seq<Seq<char>>>,
) -> Seq<Seq<char>> {
    (match data_home {
        Some(d) => seq![d],
        None => match home {
            Some(h) => seq![paths::join_path(h, ".local/share"@)],
            None => Seq::empty(),
        },
    }) + (match data_dirs {
        Some(dirs) => dirs,
        None => seq!["/usr/local/share"@, "/usr/share"@],
    })
}

/// The directories of desktop entries below the first `n` of these.
pub open spec fn entry_dirs(roots: Seq<Seq<char>>, n: nat) -> Seq<Seq<char>>
    decreases n,
{
    if n == 0 {
        Seq::empty()
    } else {
        entry_dirs(roots, (n - 1) as nat).push(
            paths::join_path(roots[n - 1], "applications"@),
        ).push(paths::join_path(roots[n - 1], "flatpak/exports/share/applications"@))
    }
}

/// All directories of desktop entries, in the order in which they are read.
pub open spec fn application_dirs(roots: Seq<Seq<char>>) -> Seq<Seq<char>> {
    entry_dirs(roots, roots.len()).push("/var/lib/flatpak/exports/share/applications"@)
}

/// The directories of desktop entries, in the order in which they are read.
/// `data_home`, `home` and `data_dirs` are what the environment says.
pub fn desktop_application_dirs(
    data_home: &Option<String>,
    home: &Option<String>,
    data_dirs: Option<Vec<String>>,
) -> (out: Vec<String>)
    ensures
        text::texts(out@) == application_dirs(
            data_roots(
                text::opt_text(*data_home),
                text::opt_text(*home),
                outside::opt_texts(data_dirs),
            ),
        ),
{
    let ghost want = data_roots(
        text::opt_text(*data_home),
        text::opt_text(*home),
        outside::opt_texts(data_dirs),
    );
    let mut roots: Vec<String> = Vec::new();
    match data_home {
        Some(d) => {
            roots.push(d.clone());
        },
        None => {
            if let Some(h) = home {
                roots.push(join_paths(h.as_str(), ".local/share"));
            }
        },
    }
    let ghost first = roots@;
    match data_dirs {
        Some(dirs) => {
            let mut more: Vec<String> = dirs;
            roots.append(&mut more);
            assert(text::texts(roots@) =~= text::texts(first) + text::texts(dirs@));
        },
        None => {
            roots.push("/usr/local/share".to_owned());
            roots.push("/usr/share".to_owned());
        },
    }
    assert(text::texts(roots@) =~= want);
    let mut out: Vec<String> = Vec::new();
    assert(text::texts(out@) =~= entry_dirs(want, 0));
    for i in 0..roots.len()
        invariant
            text::texts(roots@) == want,
            text::texts(out@) == entry_dirs(want, i as nat),
    {
        assert(want[i as int] == roots@[i as int]@);
        let ghost before = text::texts(out@);
        let root: &str = roots[i].as_str();
        out.push(join_paths(root, "applications"));
        out.push(join_paths(root, "flatpak/exports/share/applications"));
        assert(text::texts(out@) =~= entry_dirs(want, (i + 1) as nat));
    }
    out.push("/var/lib/flatpak/exports/share/applications".to_owned());
    assert(text::texts(out@) =~= application_dirs(want));
    out
}

// The compositor's socket

/// A file in the runtime directory, and when it was last changed, in nanoseconds,
/// where that is known.
#[derive(Debug, PartialEq, Eq)]
pub struct RuntimeFile {
    pub name: String,
    pub modified: Option<i128>,
}

pub struct RuntimeFileView {
    pub name: Seq<char>,
    pub modified: Option<i128>,
}

impl View for RuntimeFile {
    type V = RuntimeFileView;

    open spec fn view(&self) -> RuntimeFileView {
        RuntimeFileView { name: self.name@, modified: self.modified }
    }
}

pub open spec fn runtime_file_views(v: Seq<RuntimeFile>) -> Seq<RuntimeFileView> {
    v.map_values(|f: RuntimeFile| f@)
}

/// A file is named like a socket of the compositor.
pub open spec fn is_socket_name(name: Seq<char>) -> bool {
    "niri."@.is_prefix_of(name) && ".sock"@.is_suffix_of(name)
}

/// `a` is older than `b`; a file of unknown age is older than any other.
pub open spec fn is_older(a: Option<i128>, b: Option<i128>) -> bool {
    match (a, b) {
        (Some(x), Some(y)) => x < y,
        (None, Some(_)) => true,
        _ => false,
    }
}

/// File `i` is the socket to use: none is newer, and none before it as new.
pub open spec fn is_newest_socket(files: Seq<RuntimeFileView>, i: int) -> bool {
    &&& 0 <= i < files.len()
    &&& is_socket_name(files[i].name)
    &&& forall|j: int|
        0 <= j < files.len() && is_socket_name((#[trigger] files[j]).name) ==> !is_older(
            files[i].modified,
            files[j].modified,
        ) && (j < i ==> is_older(files[j].modified, files[i].modified))
}

fn older(a: Option<i128>, b: Option<i128>) -> (out: bool)
    ensures
        out == is_older(a, b),
{
    match (a, b) {
        (Some(x), Some(y)) => x < y,
        (None, Some(_)) => true,
        _ => false,
    }
}

/// The place of the compositor's socket among the files of the runtime directory:
/// the newest, and the first of those.
pub fn choose_socket(files: &Vec<RuntimeFile>) -> (out: Option<usize>)
    ensures
        match out {
            Some(i) => is_newest_socket(runtime_file_views(files@), i as int),
            None => forall|i: int|
                0 <= i < files@.len() ==> !is_socket_name((#[trigger] files@[i])@.name),
        },
{
    let ghost views = runtime_file_views(files@);
    let mut best: Option<usize> = None;
    for i in 0..files.len()
        invariant
            views == runtime_file_views(files@),
            match best {
                Some(b) => b < i && is_socket_name(views[b as int].name) && forall|j: int|
                    0 <= j < i && is_socket_name((#[trigger] views[j]).name) ==> !is_older(
                        views[b as int].modified,
                        views[j].modified,
                    ) && (j < b ==> is_older(views[j].modified, views[b as int].modified)),
                None => forall|j: int|
                    0 <= j < i ==> !is_socket_name((#[trigger] views[j]).name),
            },
    {
        assert(views[i as int] == files@[i as int]@);
        let name: &str = files[i].name.as_str();
        if starts_with(name, "niri.") && ends_with(name, ".sock") {
            let newer: bool = match best {
                Some(b) => {
                    assert(views[b as int] == files@[b as int]@);
                    older(files[b].modified, files[i].modified)
                },
                None => true,
            };
            if newer {
                best = Some(i);
            }
        }
    }
    proof {
        if best is None {
            assert forall|i: int| 0 <= i < files@.len() implies !is_socket_name(
                (#[trigger] files@[i])@.name,
            ) by {
                assert(views[i] == files@[i]@);
            }
        }
    }
    best
}

/// What to say where there is no socket in the runtime directory.
pub fn no_socket_text(runtime: &str) -> (out: String)
    ensures
        out@ == "could not find a Niri IPC socket in "@ + runtime@,
{
    let mut out: String = "could not find a Niri IPC socket in ".to_owned();
    out.append(runtime);
    out
}

// The program's own window

/// What is done first about the program's own window.
#[derive(Debug, Clone, Copy, PartialEq, Eq, Structural)]
pub enum OwnStep {
    /// It is not there, or tiled and to be left so.
    Leave,
    /// It is made floating first.
    Float(u64),
    /// It floats and can be sized.
    Fit(u64),
}

pub open spec fn of_process(pid: i32) -> spec_fn(RuntimeView) -> bool {
    |w: RuntimeView| w.pid == Some(pid)
}

/// What is done first about the window of the process `pid`. Where it must float,
/// it is made to.
pub open spec fn own_step(s: StateView, pid: i32, must_float: bool) -> OwnStep {
    match lists::find(s.windows, of_process(pid)) {
        Some(w) => if w.is_floating {
            OwnStep::Fit(w.id)
        } else if must_float {
            OwnStep::Float(w.id)
        } else {
            OwnStep::Leave
        },
        None => OwnStep::Leave,
    }
}

/// Says what is done first about the window of the process `pid`.
pub fn adjust_own_window(state: &ObservedState, pid: i32, must_float: bool) -> (out: OwnStep)
    ensures
        out == own_step(state@, pid, must_float),
{
    let ghost views = state@.windows;
    let ghost p = of_process(pid);
    for i in 0..state.windows.len()
        invariant
            views == state@.windows,
            p == of_process(pid),
            forall|k: int| 0 <= k < i ==> !p(#[trigger] views[k]),
    {
        let w: &RuntimeWindow = &state.windows[i];
        assert(views[i as int] == w@);
        let own: bool = match w.pid {
            Some(n) => n == pid,
            None => false,
        };
        if own {
            proof {
                lists::first_is(views, p, i as int);
            }
            return if w.is_floating {
                OwnStep::Fit(w.id)
            } else if must_float {
                OwnStep::Float(w.id)
            } else {
                OwnStep::Leave
            };
        }
    }
    proof {
        lists::first_is_none(views, p);
    }
    OwnStep::Leave
}

/// What is sent to the compositor about the program's own window.
#[derive(Debug, Clone, Copy, PartialEq, Eq, Structural)]
#[allow(inconsistent_fields)]
pub enum OwnCommand {
    SetWidth { id: u64, width: i32 },
    SetHeight { id: u64, height: i32 },
    Center { id: u64 },
}

/// The window floats, so that it can be sized.
pub open spec fn floats(s: StateView, id: u64) -> bool {
    s.window(id) is Some && s.window(id)->0.is_floating
}

fn is_floating(state: &ObservedState, id: u64) -> (out: bool)
    ensures
        out == floats(state@, id),
{
    match state.window(id) {
        Some(w) => w.is_floating,
        None => false,
    }
}

/// Gives the program's own window its shape: both extents, and the middle of the
/// output. Only a floating window has a shape.
pub fn shape_own_window(state: &ObservedState, id: u64, width: i32, height: i32) -> (out: Vec<
    OwnCommand,
>)
    ensures
        out@ == if floats(state@, id) {
            seq![
                OwnCommand::SetWidth { id, width },
                OwnCommand::SetHeight { id, height },
                OwnCommand::Center { id },
            ]
        } else {
            Seq::empty()
        },
{
    let mut out: Vec<OwnCommand> = Vec::new();
    if is_floating(state, id) {
        out.push(OwnCommand::SetWidth { id, width });
        out.push(OwnCommand::SetHeight { id, height });
        out.push(OwnCommand::Center { id });
    }
    out
}

/// The extents that the program's own window still has to get.
pub open spec fn own_changes(id: u64, width: i32, height: i32, fit: TileFit) -> Seq<OwnCommand> {
    (if fit.width {
        Seq::empty()
    } else {
        seq![OwnCommand::SetWidth { id, width }]
    }) + (if fit.height {
        Seq::empty()
    } else {
        seq![OwnCommand::SetHeight { id, height }]
    })
}

/// Gives the program's own window the extents that it does not have. `fit` says
/// which it has. Only a floating window is touched.
pub fn ensure_own_window_size(
    state: &ObservedState,
    id: u64,
    width: i32,
    height: i32,
    fit: TileFit,
) -> (out: Vec<OwnCommand>)
    ensures
        out@ == if floats(state@, id) {
            own_changes(id, width, height, fit)
        } else {
            Seq::empty()
        },
{
    let mut out: Vec<OwnCommand> = Vec::new();
    if is_floating(state, id) {
        if !fit.width {
            out.push(OwnCommand::SetWidth { id, width });
        }
        if !fit.height {
            out.push(OwnCommand::SetHeight { id, height });
        }
        assert(out@ =~= own_changes(id, width, height, fit));
    }
    out
}

// Running the command line program

/// What came of running the command line program.
#[derive(Debug, Clone, PartialEq, Eq)]
pub struct CliRunResult {
    pub success: bool,
    pub output: String,
}

/// What is shown of a run: what it printed, or that it is done.
pub open spec fn run_text(
    action: Seq<char>,
    stdout: Seq<char>,
    stderr: Seq<char>,
    success: bool,
    status: Seq<char>,
) -> Seq<char> {
    let o = text::trimmed(stdout);
    let e = text::trimmed(stderr);
    if o.len() > 0 && e.len() > 0 {
        o + "\n"@ + e
    } else if o.len() > 0 {
        o
    } else if e.len() > 0 {
        e
    } else if success {
        action + " completed"@
    } else {
        action + " exited with "@ + status
    }
}

/// Sums up a run from the text that it printed. `status` is how its exit status
/// reads.
pub fn sum_up_run(
    action: &str,
    stdout: &str,
    stderr: &str,
    success: bool,
    status: &str,
) -> (out: CliRunResult)
    ensures
        out.success == success,
        out.output@ == run_text(action@, stdout@, stderr@, success, status@),
{
    let o: &str = trim(stdout);
    let e: &str = trim(stderr);
    let mut detail: String = String::new();
    let has_o: bool = o.unicode_len() > 0;
    let has_e: bool = e.unicode_len() > 0;
    if has_o {
        detail.append(o);
        if has_e {
            detail.append("\n");
        }
    }
    if has_e {
        detail.append(e);
    }
    if !has_o && !has_e {
        detail.append(action);
        if success {
            detail.append(" completed");
        } else {
            detail.append(" exited with ");
            detail.append(status);
        }
    }
    assert(detail@ =~= run_text(action@, stdout@, stderr@, success, status@));
    CliRunResult { success, output: detail }
}

/// Sums up a run from the bytes that it printed.
pub fn run_cli(action: &str, stdout: &[u8], stderr: &[u8], success: bool, status: &str) -> (out:
    CliRunResult)
    ensures
        out.success == success,
        out.output@ == run_text(
            action@,
            outside::lossy_text(stdout@),
            outside::lossy_text(stderr@),
            success,
            status@,
        ),
{
    sum_up_run(
        action,
        text_of_bytes(stdout).as_str(),
        text_of_bytes(stderr).as_str(),
        success,
        status,
    )
}

} // verus!
