//! Checking the installation and the library of recipes.
use crate::environment;
use crate::environment::Environment;
use crate::lists;
use crate::model::{Config, ObservedState, OutputView, Recipe, WindowView};
use crate::outside;
use crate::outside::{debug_string, expand_text};
use crate::paths;
use crate::paths::{absolute, join as join_paths, path_components};
use crate::text;
use crate::text::{join, list_contains, push_number, starts_with};
use vstd::prelude::*;

verus! {

/// The findings so far: the lines about them, and how many of them are errors and
/// warnings.
#[derive(Debug)]
pub struct Findings {
    pub lines: Vec<String>,
    pub errors: usize,
    pub warnings: usize,
}

#[verifier::ext_equal]
pub struct FindingsView {
    pub lines: Seq<Seq<char>>,
    pub errors: nat,
    pub warnings: nat,
}

impl View for Findings {
    type V = FindingsView;

    open spec fn view(&self) -> FindingsView {
        FindingsView {
            lines: text::texts(self.lines@),
            errors: self.errors as nat,
            warnings: self.warnings as nat,
        }
    }
}

impl FindingsView {
    /// Every error and every warning has a line of its own.
    pub open spec fn wf(self) -> bool {
        self.errors + self.warnings <= self.lines.len()
    }

    pub open spec fn good(self, line: Seq<char>) -> FindingsView {
        FindingsView { lines: self.lines.push(line), ..self }
    }

    pub open spec fn warned(self, line: Seq<char>) -> FindingsView {
        FindingsView { lines: self.lines.push(line), warnings: self.warnings + 1, ..self }
    }

    pub open spec fn failed(self, line: Seq<char>) -> FindingsView {
        FindingsView { lines: self.lines.push(line), errors: self.errors + 1, ..self }
    }
}

impl Findings {
    /// Nothing was found yet.
    pub fn new() -> (out: Findings)
        ensures
            out@ == (FindingsView { lines: Seq::empty(), errors: 0, warnings: 0 }),
            out@.wf(),
    {
        let out = Findings { lines: Vec::new(), errors: 0, warnings: 0 };
        assert(out@.lines =~= Seq::empty());
        out
    }

    fn good(&mut self, line: String)
        requires
            old(self)@.wf(),
        ensures
            final(self)@ == old(self)@.good(line@),
            final(self)@.wf(),
    {
        self.lines.push(line);
        assert(self@.lines =~= old(self)@.lines.push(line@));
    }

    fn warn(&mut self, line: String)
        requires
            old(self)@.wf(),
        ensures
            final(self)@ == old(self)@.warned(line@),
            final(self)@.wf(),
    {
        self.lines.push(line);
        assert(self@.lines =~= old(self)@.lines.push(line@));
        let n: usize = self.lines.len();
        assert(self.warnings < n);
        self.warnings = self.warnings + 1;
    }

    fn fail(&mut self, line: String)
        requires
            old(self)@.wf(),
        ensures
            final(self)@ == old(self)@.failed(line@),
            final(self)@.wf(),
    {
        self.lines.push(line);
        assert(self@.lines =~= old(self)@.lines.push(line@));
        let n: usize = self.lines.len();
        assert(self.errors < n);
        self.errors = self.errors + 1;
    }
}

// The compositor and the library

/// What is found of the compositor's program.
pub open spec fn niri_found(f: FindingsView, path: Option<Seq<char>>) -> FindingsView {
    match path {
        Some(p) => f.good("✓ niri executable "@ + p),
        None => f.failed("✗ niri executable not found in PATH"@),
    }
}

/// Takes in where the compositor's program was found.
pub fn check_niri(found: &mut Findings, path: &Option<String>)
    requires
        old(found)@.wf(),
    ensures
        final(found)@ == niri_found(old(found)@, text::opt_text(*path)),
        final(found)@.wf(),
{
    match path {
        Some(p) => {
            let mut line: String = "✓ niri executable ".to_owned();
            line.append(p.as_str());
            found.good(line);
        },
        None => {
            found.fail("✗ niri executable not found in PATH".to_owned());
        },
    }
}

/// What became of reading the library.
#[derive(Debug, PartialEq, Eq)]
pub enum LibraryFinding {
    /// It was read and holds so many recipes.
    Read(usize),
    /// There is none yet, which is no fault.
    Absent,
    /// It could not be read.
    Failed(String),
}

pub open spec fn count_line(n: nat) -> Seq<char> {
    "✓ "@ + text::decimal(n) + " workbench(es)"@
}

/// What is found of the library.
pub open spec fn library_found(
    f: FindingsView,
    path: Seq<char>,
    library: LibraryFinding,
) -> FindingsView {
    match library {
        LibraryFinding::Read(n) => f.good("✓ config parsed "@ + path).good(count_line(n as nat)),
        LibraryFinding::Absent => f.good(
            "✓ no config at "@ + path + "; the library is empty"@,
        ).good(count_line(0)),
        LibraryFinding::Failed(message) => f.failed("✗ config: "@ + message@),
    }
}

/// Takes in what became of reading the library at `path`.
pub fn check_library(found: &mut Findings, path: &str, library: &LibraryFinding)
    requires
        old(found)@.wf(),
    ensures
        final(found)@ == library_found(old(found)@, path@, *library),
        final(found)@.wf(),
{
    match library {
        LibraryFinding::Read(n) => {
            let mut line: String = "✓ config parsed ".to_owned();
            line.append(path);
            found.good(line);
            let mut count: String = "✓ ".to_owned();
            push_number(&mut count, *n as u64);
            count.append(" workbench(es)");
            found.good(count);
        },
        LibraryFinding::Absent => {
            let mut line: String = "✓ no config at ".to_owned();
            line.append(path);
            line.append("; the library is empty");
            found.good(line);
            let mut count: String = "✓ ".to_owned();
            push_number(&mut count, 0);
            count.append(" workbench(es)");
            found.good(count);
        },
        LibraryFinding::Failed(message) => {
            let mut line: String = "✗ config: ".to_owned();
            line.append(message.as_str());
            found.fail(line);
        },
    }
}

/// What became of talking to the compositor.
#[derive(Debug, PartialEq, Eq)]
pub enum IpcFinding {
    /// No socket is known.
    NoSocket,
    /// It could not be connected to.
    Failed(String),
    /// It was connected to, and did not tell its version.
    NoVersion(String),
    /// It was connected to, and has this version.
    Connected(String),
}

/// What is found of the compositor.
pub open spec fn ipc_found(f: FindingsView, ipc: IpcFinding) -> FindingsView {
    match ipc {
        IpcFinding::NoSocket => f.failed("✗ NIRI_SOCKET is not set"@),
        IpcFinding::Failed(message) => f.failed("✗ Niri IPC: "@ + message@),
        IpcFinding::NoVersion(message) => f.warned(
            "! IPC connected but version request failed: "@ + message@,
        ),
        IpcFinding::Connected(version) => {
            let g = f.good("✓ Niri IPC connected ("@ + version@ + ")"@);
            if "26.04"@.is_prefix_of(version@) {
                g
            } else {
                g.warned("! this release was validated against Niri 26.04 / niri-ipc 26.4.0"@)
            }
        },
    }
}

/// Takes in what became of talking to the compositor.
pub fn check_ipc(found: &mut Findings, ipc: &IpcFinding)
    requires
        old(found)@.wf(),
    ensures
        final(found)@ == ipc_found(old(found)@, *ipc),
        final(found)@.wf(),
{
    match ipc {
        IpcFinding::NoSocket => {
            found.fail("✗ NIRI_SOCKET is not set".to_owned());
        },
        IpcFinding::Failed(message) => {
            let mut line: String = "✗ Niri IPC: ".to_owned();
            line.append(message.as_str());
            found.fail(line);
        },
        IpcFinding::NoVersion(message) => {
            let mut line: String = "! IPC connected but version request failed: ".to_owned();
            line.append(message.as_str());
            found.warn(line);
        },
        IpcFinding::Connected(version) => {
            let mut line: String = "✓ Niri IPC connected (".to_owned();
            line.append(version.as_str());
            line.append(")");
            found.good(line);
            if !starts_with(version.as_str(), "26.04") {
                found.warn(
                    "! this release was validated against Niri 26.04 / niri-ipc 26.4.0".to_owned(),
                );
            }
        },
    }
}

// Commands

/// What became of looking for the program of a logical window.
#[derive(Debug, PartialEq, Eq)]
#[allow(inconsistent_fields)]
pub enum CommandFinding {
    /// It has no command.
    Nothing,
    /// Its program has this name, and was found or not.
    Program { binary: String, found: bool },
    /// The name of its program could not be expanded.
    Failed { message: String },
}

/// `✗`, `!` or `✓`, then the recipe and the logical window.
pub open spec fn about_window(mark: Seq<char>, key: Seq<char>, w: Seq<char>) -> Seq<char> {
    mark + key + "."@ + w
}

/// What is found of the command of a logical window, and how many programs were
/// found so far.
pub open spec fn command_found(
    f: (FindingsView, nat),
    key: Seq<char>,
    w: Seq<char>,
    c: CommandFinding,
) -> (FindingsView, nat) {
    match c {
        CommandFinding::Nothing => (
            f.0.warned(
                about_window("! "@, key, w)
                    + " has no command; it can only reuse an existing window"@,
            ),
            f.1,
        ),
        CommandFinding::Program { binary, found } => if found {
            (f.0, f.1 + 1)
        } else {
            (
                f.0.failed(about_window("✗ "@, key, w) + " command not found: "@ + binary@),
                f.1,
            )
        },
        CommandFinding::Failed { message } => (
            f.0.failed(
                about_window("✗ "@, key, w) + " command expansion failed: "@ + message@,
            ),
            f.1,
        ),
    }
}

/// What is found of the commands of the first `n` logical windows of a recipe.
pub open spec fn recipe_found(
    f: (FindingsView, nat),
    key: Seq<char>,
    windows: Seq<WindowView>,
    cs: Seq<CommandFinding>,
    n: nat,
) -> (FindingsView, nat)
    decreases n,
{
    if n == 0 {
        f
    } else {
        command_found(
            recipe_found(f, key, windows, cs, (n - 1) as nat),
            key,
            windows[n - 1].name,
            cs[n - 1],
        )
    }
}

/// What is found of the commands of the first `n` recipes.
pub open spec fn commands_found(
    f: (FindingsView, nat),
    recipes: Seq<(Seq<char>, Recipe)>,
    cs: Seq<Seq<CommandFinding>>,
    n: nat,
) -> (FindingsView, nat)
    decreases n,
{
    if n == 0 {
        f
    } else {
        recipe_found(
            commands_found(f, recipes, cs, (n - 1) as nat),
            recipes[n - 1].0,
            recipes[n - 1].1@.windows,
            cs[n - 1],
            recipes[n - 1].1@.windows.len(),
        )
    }
}

pub open spec fn finding_rows(v: Seq<Vec<CommandFinding>>) -> Seq<Seq<CommandFinding>> {
    v.map_values(|r: Vec<CommandFinding>| r@)
}

/// There is a finding for every logical window of every recipe.
pub open spec fn covers(recipes: Seq<(Seq<char>, Recipe)>, cs: Seq<Seq<CommandFinding>>) -> bool {
    cs.len() == recipes.len() && forall|i: int|
        0 <= i < recipes.len() ==> (#[trigger] cs[i]).len() == recipes[i].1@.windows.len()
}

fn push_window_name(line: &mut String, key: &str, w: &str)
    ensures
        final(line)@ == old(line)@ + key@ + "."@ + w@,
{
    line.append(key);
    line.append(".");
    line.append(w);
}

fn check_recipe(
    found: &mut Findings,
    programs: &mut Vec<String>,
    key: &str,
    recipe: &Recipe,
    cs: &Vec<CommandFinding>,
)
    requires
        old(found)@.wf(),
        cs@.len() == recipe.windows@.len(),
    ensures
        final(found)@.wf(),
        (final(found)@, final(programs)@.len()) == recipe_found(
            (old(found)@, old(programs)@.len()),
            key@,
            recipe@.windows,
            cs@,
            cs@.len(),
        ),
{
    let ghost start = (found@, programs@.len());
    for i in 0..cs.len()
        invariant
            cs@.len() == recipe.windows@.len(),
            found@.wf(),
            (found@, programs@.len()) == recipe_found(start, key@, recipe@.windows, cs@, i as nat),
    {
        assert(recipe@.windows[i as int] == recipe.windows@[i as int]@);
        let name: &str = recipe.windows[i].name.as_str();
        let ghost before = recipe_found(start, key@, recipe@.windows, cs@, i as nat);
        let ghost after = recipe_found(start, key@, recipe@.windows, cs@, (i + 1) as nat);
        assert(after == command_found(before, key@, name@, cs@[i as int]));
        match &cs[i] {
            CommandFinding::Nothing => {
                let mut line: String = "! ".to_owned();
                push_window_name(&mut line, key, name);
                line.append(" has no command; it can only reuse an existing window");
                found.warn(line);
            },
            CommandFinding::Program { binary, found: there } => {
                if *there {
                    programs.push(binary.clone());
                } else {
                    let mut line: String = "✗ ".to_owned();
                    push_window_name(&mut line, key, name);
                    line.append(" command not found: ");
                    line.append(binary.as_str());
                    found.fail(line);
                }
            },
            CommandFinding::Failed { message } => {
                let mut line: String = "✗ ".to_owned();
                push_window_name(&mut line, key, name);
                line.append(" command expansion failed: ");
                line.append(message.as_str());
                found.fail(line);
            },
        }
    }
}

/// What is found of all commands.
pub open spec fn all_commands_found(
    f: FindingsView,
    recipes: Seq<(Seq<char>, Recipe)>,
    cs: Seq<Seq<CommandFinding>>,
) -> FindingsView {
    let all = commands_found((f, 0), recipes, cs, recipes.len());
    all.0.good("✓ "@ + text::decimal(all.1) + " command(s) resolved"@)
}

/// Takes in what became of looking for the programs of all logical windows; `cs`
/// holds a row for each recipe, with a place for each of its windows.
pub fn check_commands(found: &mut Findings, config: &Config, cs: &Vec<Vec<CommandFinding>>)
    requires
        old(found)@.wf(),
        covers(config.workbench@, finding_rows(cs@)),
    ensures
        final(found)@ == all_commands_found(
            old(found)@,
            config.workbench@,
            finding_rows(cs@),
        ),
        final(found)@.wf(),
{
    let ghost start = found@;
    let ghost recipes = config.workbench@;
    let ghost rows = finding_rows(cs@);
    let mut programs: Vec<String> = Vec::new();
    let n: usize = config.workbench.len();
    for i in 0..n
        invariant
            n == recipes.len(),
            recipes == config.workbench@,
            rows == finding_rows(cs@),
            covers(recipes, rows),
            found@.wf(),
            (found@, programs@.len()) == commands_found((start, 0), recipes, rows, i as nat),
    {
        assert(rows[i as int] == cs@[i as int]@);
        check_recipe(
            found,
            &mut programs,
            config.workbench.name_at(i).as_str(),
            config.workbench.value_at(i),
            &cs[i],
        );
    }
    let mut line: String = "✓ ".to_owned();
    push_number(&mut line, programs.len() as u64);
    line.append(" command(s) resolved");
    found.good(line);
}

/// Expands the program of a command.
pub fn expand_first_arg(raw: &str, environment: &Environment) -> (out: Result<String, String>)
    ensures
        environment::result_text(out) == outside::expanded(raw@, environment@),
        outside::plain_expansion(raw@, environment@) is Some ==> Some(environment::result_text(out))
            == outside::plain_expansion(raw@, environment@),
{
    expand_text(raw, environment)
}

/// The files that a command may stand for: itself where it is a path, else the
/// file of that name in each directory of the search path, in its order.
pub open spec fn executable_paths(command: Seq<char>, dirs: Seq<Seq<char>>) -> Seq<Seq<char>> {
    if paths::rooted(command).len() > 1 {
        seq![command]
    } else {
        dirs.map_values(|d: Seq<char>| paths::join_path(d, command))
    }
}

/// The files that a command may stand for, the first that can be run being the
/// one that it does.
pub fn executable_candidates(command: &str, dirs: &Vec<String>) -> (out: Vec<String>)
    ensures
        text::texts(out@) == executable_paths(command@, text::texts(dirs@)),
{
    let parts: Vec<String> = path_components(command);
    assert(text::texts(parts@).len() == parts@.len());
    let mut out: Vec<String> = Vec::new();
    if parts.len() > 1 || (parts.len() == 1 && absolute(command)) {
        out.push(command.to_owned());
        assert(text::texts(out@) =~= executable_paths(command@, text::texts(dirs@)));
        return out;
    }
    for i in 0..dirs.len()
        invariant
            out@.len() == i,
            forall|k: int|
                0 <= k < i ==> (#[trigger] out@[k])@ == paths::join_path(dirs@[k]@, command@),
    {
        out.push(join_paths(dirs[i].as_str(), command));
    }
    assert(text::texts(out@) =~= executable_paths(command@, text::texts(dirs@)));
    out
}

// Outputs

pub open spec fn shown_before(outputs: Seq<OutputView>, i: int) -> bool {
    exists|k: int|
        0 <= k < i && (#[trigger] outputs[k]).width is Some && outputs[k].name == outputs[i].name
}

pub open spec fn shown_output(outputs: Seq<OutputView>) -> spec_fn(int) -> Option<Seq<char>> {
    |i: int|
        if outputs[i].width is Some && !shown_before(outputs, i) {
            Some(outputs[i].name)
        } else {
            None
        }
}

/// The outputs that show something, each once.
pub open spec fn shown_outputs(outputs: Seq<OutputView>) -> Seq<Seq<char>> {
    lists::gather(outputs.len(), shown_output(outputs))
}

/// What is found of the outputs that the first `n` recipes ask for.
pub open spec fn requests_found(
    f: FindingsView,
    recipes: Seq<(Seq<char>, Recipe)>,
    shown: Seq<Seq<char>>,
    n: nat,
) -> FindingsView
    decreases n,
{
    if n == 0 {
        f
    } else {
        let before = requests_found(f, recipes, shown, (n - 1) as nat);
        match recipes[n - 1].1@.output {
            Some(name) => if shown.contains(name) {
                before
            } else {
                before.warned(
                    "! recipe "@ + outside::debug_text(recipes[n - 1].0) + ": output "@
                        + outside::debug_text(name) + " is currently disconnected"@,
                )
            },
            None => before,
        }
    }
}

/// What is found of the outputs.
pub open spec fn outputs_found(
    f: FindingsView,
    recipes: Seq<(Seq<char>, Recipe)>,
    outputs: Seq<OutputView>,
) -> FindingsView {
    let shown = shown_outputs(outputs);
    let g = if shown.len() == 0 {
        f.warned("! Niri reports no enabled outputs"@)
    } else {
        f.good("✓ output(s): "@ + text::joined(shown, ", "@))
    };
    requests_found(g, recipes, shown, recipes.len())
}

fn list_shown(state: &ObservedState) -> (out: Vec<String>)
    ensures
        text::texts(out@) == shown_outputs(state@.outputs),
{
    let ghost views = state@.outputs;
    let ghost f = shown_output(views);
    let mut out: Vec<String> = Vec::new();
    assert(text::texts(out@) =~= lists::gather(0, f));
    for i in 0..state.outputs.len()
        invariant
            views == state@.outputs,
            f == shown_output(views),
            text::texts(out@) == lists::gather(i as nat, f),
    {
        assert(views[i as int] == state.outputs@[i as int]@);
        let ghost given = f(i as int);
        let ghost before = out@;
        let name: &String = &state.outputs[i].name;
        let known: bool = list_contains(&out, name.as_str());
        proof {
            shown_so_far(views, i as int, name@);
        }
        if state.outputs[i].width.is_some() && !known {
            assert(!shown_before(views, i as int)) by {
                if shown_before(views, i as int) {
                    let k = choose|k: int|
                        0 <= k < i && (#[trigger] views[k]).width is Some && views[k].name
                            == views[i as int].name;
                    assert(text::texts(before).contains(name@));
                }
            }
            out.push(name.clone());
            assert(text::texts(out@) =~= text::texts(before).push(given->0));
        }
    }
    out
}

pub proof fn shown_so_far(views: Seq<OutputView>, i: int, name: Seq<char>)
    requires
        0 <= i <= views.len(),
    ensures
        lists::gather(i as nat, shown_output(views)).contains(name) <==> exists|k: int|
            0 <= k < i && (#[trigger] views[k]).width is Some && views[k].name == name,
    decreases i,
{
    let f = shown_output(views);
    lists::gather_contains(i as nat, f, name);
    if exists|k: int| 0 <= k < i && (#[trigger] views[k]).width is Some && views[k].name == name {
        let k = choose|k: int|
            0 <= k < i && (#[trigger] views[k]).width is Some && views[k].name == name;
        if shown_before(views, k) {
            shown_so_far(views, k, name);
            let j = choose|j: int|
                0 <= j < k && (#[trigger] views[j]).width is Some && views[j].name == views[k].name;
            lists::gather_contains(k as nat, f, name);
            let l = choose|l: int| 0 <= l < k && #[trigger] f(l) == Some(name);
            assert(f(l) == Some(name));
        } else {
            assert(f(k) == Some(name));
        }
    }
    if exists|k: int| 0 <= k < i && #[trigger] f(k) == Some(name) {
        let k = choose|k: int| 0 <= k < i && #[trigger] f(k) == Some(name);
        assert(views[k].name == name);
    }
}

/// Takes in which outputs there are.
pub fn check_outputs(found: &mut Findings, config: &Config, state: &ObservedState)
    requires
        old(found)@.wf(),
    ensures
        final(found)@ == outputs_found(old(found)@, config.workbench@, state@.outputs),
        final(found)@.wf(),
{
    let shown: Vec<String> = list_shown(state);
    assert(text::texts(shown@).len() == shown@.len());
    if shown.len() == 0 {
        found.warn("! Niri reports no enabled outputs".to_owned());
    } else {
        let mut line: String = "✓ output(s): ".to_owned();
        line.append(join(&shown, ", ").as_str());
        found.good(line);
    }
    let ghost g = found@;
    let ghost recipes = config.workbench@;
    let n: usize = config.workbench.len();
    for i in 0..n
        invariant
            n == recipes.len(),
            recipes == config.workbench@,
            found@.wf(),
            found@ == requests_found(g, recipes, text::texts(shown@), i as nat),
    {
        let r: &Recipe = config.workbench.value_at(i);
        if let Some(name) = &r.output {
            if !list_contains(&shown, name.as_str()) {
                let mut line: String = "! recipe ".to_owned();
                line.append(debug_string(config.workbench.name_at(i).as_str()).as_str());
                line.append(": output ");
                line.append(debug_string(name.as_str()).as_str());
                line.append(" is currently disconnected");
                found.warn(line);
            }
        }
    }
}

// The end

/// The last line of the findings.
pub open spec fn summary_text(f: FindingsView) -> Seq<char> {
    text::decimal(f.errors) + " error(s), "@ + text::decimal(f.warnings) + " warning(s)"@
}

/// The last line, and what to say where there were errors.
pub fn summary(found: &Findings) -> (out: (String, Option<String>))
    ensures
        out.0@ == summary_text(found@),
        match out.1 {
            Some(message) => found@.errors > 0 && message@ == "doctor found "@ + text::decimal(
                found@.errors,
            ) + " error(s)"@,
            None => found@.errors == 0,
        },
{
    let mut line: String = String::new();
    push_number(&mut line, found.errors as u64);
    line.append(" error(s), ");
    push_number(&mut line, found.warnings as u64);
    line.append(" warning(s)");
    assert(line@ =~= summary_text(found@));
    if found.errors == 0 {
        return (line, None);
    }
    let mut message: String = "doctor found ".to_owned();
    push_number(&mut message, found.errors as u64);
    message.append(" error(s)");
    (line, Some(message))
}

/// A library that is not there yet counts neither as an error nor as a warning.
pub proof fn absent_libraries_are_no_fault(f: FindingsView, path: Seq<char>)
    ensures
        library_found(f, path, LibraryFinding::Absent).errors == f.errors,
        library_found(f, path, LibraryFinding::Absent).warnings == f.warnings,
{
}

} // verus!
