use niri_workbench::doctor::{
    check_commands, check_ipc, check_library, check_niri, check_outputs, executable_candidates,
    expand_first_arg, summary, CommandFinding, Findings, IpcFinding, LibraryFinding,
};
use niri_workbench::execute::ApplyReport;
use niri_workbench::environment::Environment;
use niri_workbench::model::{
    ColumnDisplay, Config, MatchSpec, ObservedState, OutputFallback, OutputInfo, PlacementSpec,
    Recipe, ReusePolicy, RuntimeWindow, RuntimeWorkspace, Size, WindowSpec,
};
use niri_workbench::names::NameMap;
use niri_workbench::planner::{Action, ReconcilePlan};
use niri_workbench::report::{
    apply_lines, declared_displays, desired_layout_lines, display_note, drift_lines, layout_lines,
    list_lines, log_filter, plan_head, planned_workspace, recipe, recipe_lines,
    repair_lines, resolution_lines,
    reuse_line, show_actions, spawn_line, status_head, Shares,
};
use niri_workbench::resolve::{resolve_existing, ExistingResolution};
use niri_workbench::show::{display_command, format_action, format_plan, matcher_text, shellish, size_text};

fn spec(name: &str) -> WindowSpec {
    WindowSpec {
        name: name.to_owned(),
        command: vec!["foot".to_owned(), "-D".to_owned(), "my dir".to_owned()],
        match_spec: MatchSpec { app_id: Some("^foot$".to_owned()), ..MatchSpec::default() },
        reuse: ReusePolicy::Unique,
        layout: PlacementSpec::default(),
    }
}

fn workbench() -> Recipe {
    let mut term = spec("term");
    term.layout.column_width = Some(Size::Percent(0.5f64.to_bits()));
    term.layout.window_height = Some(Size::Pixels(300));
    term.layout.display = Some(ColumnDisplay::Tabbed);
    let mut notes = spec("notes");
    notes.layout.floating = true;
    notes.command.clear();
    Recipe {
        name: Some("Rust".to_owned()),
        workspace: "Dev".to_owned(),
        output: Some("eDP-1".to_owned()),
        output_fallback: OutputFallback::Focused,
        focus: Some("term".to_owned()),
        spawn_timeout_ms: 10_000,
        windows: vec![term, notes],
    }
}

fn shares() -> Vec<Shares> {
    vec![
        Shares { width: "50".to_owned(), height: "?".to_owned() },
        Shares { width: "?".to_owned(), height: "?".to_owned() },
    ]
}

fn state(name: Option<&str>) -> ObservedState {
    ObservedState {
        windows: vec![RuntimeWindow {
            id: 4,
            title: None,
            app_id: Some("foot".to_owned()),
            pid: None,
            process_exe: None,
            cwd: None,
            workspace_id: Some(3),
            is_focused: true,
            is_floating: false,
            column: Some(1),
            tile_index: Some(1),
            tile_width: 0,
            tile_height: 0,
        }],
        workspaces: vec![RuntimeWorkspace {
            id: 3,
            index: 1,
            name: name.map(str::to_owned),
            output: Some("eDP-1".to_owned()),
            is_active: true,
            is_focused: true,
        }],
        outputs: vec![OutputInfo { name: "eDP-1".to_owned(), width: Some(9), height: Some(9) }],
    }
}

fn config() -> Config {
    let mut workbench_map = NameMap::new();
    workbench_map.insert("rust".to_owned(), workbench());
    Config { workbench: workbench_map }
}

#[test]
fn recipes_are_listed_and_shown() {
    let config = config();
    assert_eq!(list_lines(&config), vec!["rust                 Rust  [workspace: Dev]"]);
    assert!(recipe(&config.workbench, "rust").is_ok());
    assert_eq!(
        recipe(&config.workbench, "go"),
        Err("unknown workbench \"go\"; configured: rust".to_owned())
    );
    assert_eq!(
        recipe_lines("rust", &workbench(), &shares()),
        vec![
            "Workbench: rust",
            "Name:      Rust",
            "Workspace: Dev",
            "Output:    eDP-1",
            "Focus:     term",
            "",
            "term:",
            "  command: foot -D \"my dir\"",
            "  match:   app_id=\"^foot$\"",
            "  column:  1",
            "  width:   50%",
            "  height:  300px",
            "  display: Tabbed",
            "notes:",
            "  command: (no command)",
            "  match:   app_id=\"^foot$\"",
            "  column:  1",
            "  mode:    floating",
        ]
    );
}

#[test]
fn a_status_tells_the_workspace_and_the_windows() {
    let r = workbench();
    assert_eq!(
        status_head("rust", &r, &state(Some("Dev")), "DP-2"),
        vec![
            "Status: rust",
            "workspace Dev: present (id 3, output eDP-1)",
            "DRIFT   workspace output Some(\"eDP-1\") -> \"DP-2\"",
        ]
    );
    assert_eq!(
        status_head("rust", &r, &state(None), "eDP-1"),
        vec!["Status: rust", "MISSING workspace \"Dev\""]
    );
    let mut r = workbench();
    r.windows[1].command = vec!["notes".to_owned()];
    r.windows[1].match_spec.app_id = Some("^notes$".to_owned());
    let found = resolve_existing(&r, &state(None)).unwrap();
    assert_eq!(planned_workspace(&r, &state(None), &found), None);
    assert_eq!(planned_workspace(&r, &state(Some("Dev")), &found), None);
    r.windows.truncate(1);
    assert_eq!(planned_workspace(&r, &state(Some("Dev")), &found), Some(3));
    let mut r = workbench();
    r.windows[1].command = vec!["notes".to_owned()];
    r.windows[1].match_spec.app_id = Some("^notes$".to_owned());
    assert_eq!(
        resolution_lines(&r, &found, false),
        vec!["FOUND   term         window 4", "MISSING notes        would spawn notes"]
    );
    assert_eq!(
        resolution_lines(&r, &found, true),
        vec!["REUSE   term         window 4", "SPAWN   notes        notes"]
    );
    assert_eq!(
        layout_lines(&ReconcilePlan { actions: vec![] }, &vec![]),
        vec!["observable layout: converged"]
    );
    assert_eq!(
        layout_lines(&ReconcilePlan { actions: vec![focus()] }, &vec!["".to_owned()]),
        vec!["observable layout: drift", "  FOCUS   term"]
    );
    assert_eq!(
        display_note(&r),
        Some("note: Niri 26.04 does not expose column display mode; tabbed/normal cannot be verified")
    );
    r.windows[0].layout.display = None;
    assert_eq!(display_note(&r), None);
}

#[test]
fn a_plan_tells_what_will_be_done() {
    let r = workbench();
    assert_eq!(
        plan_head("rust", &r, &state(Some("Dev")), "eDP-1", &None),
        vec!["Plan: rust", "KEEP    workspace \"Dev\" on eDP-1"]
    );
    assert_eq!(
        plan_head("rust", &r, &state(Some("Dev")), "DP-2", &Some("gone".to_owned())),
        vec!["Plan: rust", "WARN    gone", "MOVE    workspace \"Dev\" Some(\"eDP-1\") -> DP-2"]
    );
    assert_eq!(
        plan_head("rust", &r, &state(None), "eDP-1", &None),
        vec![
            "Plan: rust",
            "CREATE  named workspace \"Dev\" on eDP-1 using an empty Niri workspace"
        ]
    );
    assert_eq!(
        desired_layout_lines(&r, &shares()),
        vec![
            "PLACE   term         column 1, width 50%, height 300px",
            "PLACE   notes        floating",
        ]
    );
    assert_eq!(
        declared_displays(&r),
        vec!["DISPLAY column 1 -> tabbed (reasserted; current mode is not observable)"]
    );
}

fn focus() -> Action {
    Action::Focus { name: "term".to_owned(), window_id: 4 }
}

fn shown() -> Action {
    Action::SetColumnDisplay {
        name: "term".to_owned(),
        window_id: 4,
        column: 1,
        display: ColumnDisplay::Tabbed,
    }
}

#[test]
fn every_action_has_its_line() {
    let name = "term".to_owned();
    let lines = |a: Action| format_action(&a, "50");
    assert_eq!(
        lines(Action::MoveToWorkspace { name: name.clone(), window_id: 1, from: None, to: 7 }),
        "MOVE    term         workspace None -> 7"
    );
    assert_eq!(
        lines(Action::SetFloating { name: name.clone(), window_id: 1, floating: false }),
        "FLOAT   term         tiling"
    );
    assert_eq!(
        lines(Action::ExpelRight { name: name.clone(), window_id: 1 }),
        "EXPEL   term         from current column"
    );
    assert_eq!(
        lines(Action::MoveColumnToIndex { name: name.clone(), window_id: 1, from: Some(3), to: 2 }),
        "COLUMN  term         Some(3) -> 2"
    );
    assert_eq!(
        lines(Action::ConsumeLeft { name: name.clone(), window_id: 1, target_column: 2 }),
        "GROUP   term         into column 2"
    );
    assert_eq!(
        lines(Action::MoveWindowUp { name: name.clone(), window_id: 1, from: 2, to: 1 }),
        "ORDER   term         tile 2 -> 1 (up)"
    );
    assert_eq!(
        lines(Action::MoveWindowDown { name: name.clone(), window_id: 1, from: 1, to: 2 }),
        "ORDER   term         tile 1 -> 2 (down)"
    );
    assert_eq!(
        lines(Action::SetColumnWidth {
            name: name.clone(),
            window_id: 1,
            column: 1,
            size: Size::Percent(0.5f64.to_bits())
        }),
        "RESIZE  term         column width -> 50%"
    );
    assert_eq!(
        lines(Action::SetWindowHeight {
            name: "a very long name".to_owned(),
            window_id: 1,
            size: Size::Pixels(70)
        }),
        "RESIZE  a very long name window height -> 70px"
    );
    assert_eq!(lines(shown()), "DISPLAY term         column 1 -> Tabbed");
    assert_eq!(lines(focus()), "FOCUS   term");
    assert_eq!(size_text(Size::Pixels(3), "x"), "3px");
    assert_eq!(
        format_plan(
            &ReconcilePlan { actions: vec![focus(), shown()] },
            &vec!["".to_owned(), "".to_owned()]
        ),
        vec!["FOCUS   term", "DISPLAY term         column 1 -> Tabbed"]
    );
    assert_eq!(
        show_actions(&vec![focus()], &vec!["".to_owned()], "> "),
        vec!["> FOCUS   term"]
    );
}

#[test]
fn commands_and_matchers_are_shown() {
    let words = |list: &[&str]| -> Vec<String> { list.iter().map(|w| (*w).to_owned()).collect() };
    assert_eq!(shellish(&words(&[])), "(no command)");
    assert_eq!(shellish(&words(&["a/b._-:=+%@1", "c d", ""])), "a/b._-:=+%@1 \"c d\" ");
    assert_eq!(display_command(&words(&["code", "my dir"])), "code \"my dir\"");
    let m = MatchSpec {
        window_id: Some(1),
        app_id: Some("a\"".to_owned()),
        title: Some("t".to_owned()),
        process: Some("p".to_owned()),
        cwd: Some("c".to_owned()),
        pid: Some(-2),
    };
    assert_eq!(
        matcher_text(&m),
        "window_id=1, app_id=\"a\\\"\", title=\"t\", process=\"p\", pid=-2"
    );
}

#[test]
fn a_report_tells_what_was_done() {
    let mut existing = NameMap::new();
    existing.insert("term".to_owned(), ExistingResolution::Reuse(4));
    let mut report = ApplyReport::default();
    assert_eq!(
        apply_lines("rust", &existing, &vec![], &report, false),
        vec!["rust already converged"]
    );
    report.executed.push(shown());
    report.display_reassertions = 1;
    assert_eq!(
        apply_lines("rust", &existing, &vec![], &report, false),
        vec!["rust observable state already converged; reasserted 1 unobservable column display mode(s)"]
    );
    let activity = vec![reuse_line("term", 4), spawn_line("notes", 5)];
    assert_eq!(
        apply_lines("rust", &existing, &activity, &report, true),
        vec![
            "Applied rust:",
            "  reuse term window 4",
            "  spawn notes -> window 5",
            "  note: 1 column display mode(s) were reasserted because Niri does not expose them",
        ]
    );
    assert_eq!(
        repair_lines("rust", &report, &vec!["".to_owned()]),
        vec!["Repaired rust:", "  DISPLAY term         column 1 -> Tabbed"]
    );
    assert_eq!(
        repair_lines("rust", &ApplyReport::default(), &vec![]),
        vec!["rust observable layout already converged"]
    );
    assert_eq!(
        drift_lines(&vec![focus()], &vec!["".to_owned()]),
        vec!["warning: observable state still has drift:", "  FOCUS   term"]
    );
    assert!(drift_lines(&vec![], &vec![]).is_empty());
    assert_eq!(log_filter(0), "niri_workbench=warn,workbench_niri=warn");
    assert_eq!(log_filter(1), "niri_workbench=info,workbench_niri=info");
    assert_eq!(log_filter(9), "niri_workbench=debug,workbench_niri=debug");
}

#[test]
fn the_doctor_counts_what_it_finds() {
    let mut found = Findings::new();
    check_niri(&mut found, &Some("/usr/bin/niri".to_owned()));
    assert_eq!(found.lines, vec!["✓ niri executable /usr/bin/niri"]);
    check_niri(&mut found, &None);
    assert_eq!(found.lines[1], "✗ niri executable not found in PATH");
    assert_eq!((found.errors, found.warnings), (1, 0));

    let mut found = Findings::new();
    check_library(&mut found, "/c", &LibraryFinding::Read(2));
    assert_eq!(found.lines, vec!["✓ config parsed /c", "✓ 2 workbench(es)"]);
    check_library(&mut found, "/c", &LibraryFinding::Absent);
    assert_eq!((found.errors, found.warnings), (0, 0));
    check_library(&mut found, "/c", &LibraryFinding::Failed("bad".to_owned()));
    assert_eq!(found.lines.last().unwrap(), "✗ config: bad");
    assert_eq!(found.errors, 1);

    let mut found = Findings::new();
    check_ipc(&mut found, &IpcFinding::Connected("26.04 (x)".to_owned()));
    assert_eq!(found.lines, vec!["✓ Niri IPC connected (26.04 (x))"]);
    check_ipc(&mut found, &IpcFinding::Connected("27.01".to_owned()));
    assert_eq!(found.lines[1], "✓ Niri IPC connected (27.01)");
    assert_eq!(
        found.lines[2],
        "! this release was validated against Niri 26.04 / niri-ipc 26.4.0"
    );
    check_ipc(&mut found, &IpcFinding::NoVersion("x".to_owned()));
    assert_eq!(found.lines[3], "! IPC connected but version request failed: x");
    check_ipc(&mut found, &IpcFinding::Failed("x".to_owned()));
    assert_eq!(found.lines[4], "✗ Niri IPC: x");
    check_ipc(&mut found, &IpcFinding::NoSocket);
    assert_eq!(found.lines[5], "✗ NIRI_SOCKET is not set");
    assert_eq!((found.errors, found.warnings), (2, 2));
    let (line, failure) = summary(&found);
    assert_eq!(line, "2 error(s), 2 warning(s)");
    assert_eq!(failure.as_deref(), Some("doctor found 2 error(s)"));
    assert_eq!(summary(&Findings::new()).1, None);
}

#[test]
fn the_doctor_looks_for_programs_and_outputs() {
    let config = config();
    let mut found = Findings::new();
    check_commands(
        &mut found,
        &config,
        &vec![vec![
            CommandFinding::Program { binary: "foot".to_owned(), found: false },
            CommandFinding::Nothing,
        ]],
    );
    assert_eq!((found.errors, found.warnings), (1, 1));
    assert_eq!(
        found.lines,
        vec![
            "✗ rust.term command not found: foot",
            "! rust.notes has no command; it can only reuse an existing window",
            "✓ 0 command(s) resolved",
        ]
    );
    let mut found = Findings::new();
    check_commands(
        &mut found,
        &config,
        &vec![vec![
            CommandFinding::Program { binary: "foot".to_owned(), found: true },
            CommandFinding::Failed { message: "no home".to_owned() },
        ]],
    );
    assert_eq!(
        found.lines,
        vec!["✗ rust.notes command expansion failed: no home", "✓ 1 command(s) resolved"]
    );

    let mut found = Findings::new();
    check_outputs(&mut found, &config, &state(None));
    assert_eq!((found.errors, found.warnings), (0, 0));
    assert_eq!(found.lines, vec!["✓ output(s): eDP-1"]);
    let mut elsewhere = state(None);
    elsewhere.outputs[0].name = "DP-2".to_owned();
    let mut found = Findings::new();
    check_outputs(&mut found, &config, &elsewhere);
    assert_eq!(
        found.lines,
        vec![
            "✓ output(s): DP-2",
            "! recipe \"rust\": output \"eDP-1\" is currently disconnected",
        ]
    );
    assert_eq!(found.warnings, 1);
    elsewhere.outputs[0].width = None;
    let mut found = Findings::new();
    check_outputs(&mut found, &config, &elsewhere);
    assert_eq!(found.lines[0], "! Niri reports no enabled outputs");

    let about = Environment { home: Some("/root".to_owned()), variables: Vec::new() };
    assert_eq!(expand_first_arg("foot", &about), Ok("foot".to_owned()));
    assert_eq!(expand_first_arg("~/foot", &about), Ok("/root/foot".to_owned()));
    assert_eq!(
        expand_first_arg("$X", &about),
        Err("error looking key 'X' up: environment variable not found".to_owned())
    );
    let dirs = vec!["/usr/bin".to_owned(), "/opt".to_owned()];
    assert_eq!(executable_candidates("/x/foot", &dirs), vec!["/x/foot"]);
    assert_eq!(executable_candidates("foot", &dirs), vec!["/usr/bin/foot", "/opt/foot"]);
}
