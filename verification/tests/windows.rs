use std::collections::HashSet;

use niri_workbench::environment::{Environment, Variable};
use niri_workbench::matcher::{choose_candidate, CandidateDecision, CompiledMatcher};
use niri_workbench::model::{
    MatchSpec, ObservedState, OutputFallback, OutputInfo, PlacementSpec, Recipe, ReusePolicy,
    RuntimeWindow, RuntimeWorkspace, WindowSpec,
};
use niri_workbench::outputs::{
    focused_output_name, not_moved, not_named, plan_workspace, resolve_target_output_from_state,
    sorted_outputs, workspace_is_named, workspace_is_on, WorkspaceStep,
};
use niri_workbench::process::{
    bus_path, is_interactive_shell, niri_wayland_display, process_children, session_environment,
    ShellSearch,
};
use niri_workbench::resolve::{
    recipe_status, resolve_existing, resolve_for_repair, ExistingResolution, RecipeStatus,
};
use niri_workbench::session::{change_step, until_step, NiriError, WaitStep};
use niri_workbench::spawn::{
    choose_spawn_candidate, describe_matcher, describe_new_candidates, expand_command,
    expanded_command, launch_command, spawn_step, spawn_timeout, wait_ms, SpawnError, SpawnStep,
};

fn window(id: u64, app_id: &str, title: &str) -> RuntimeWindow {
    RuntimeWindow {
        id,
        title: Some(title.into()),
        app_id: Some(app_id.into()),
        pid: Some(id as i32),
        process_exe: None,
        cwd: None,
        workspace_id: Some(1),
        is_focused: false,
        is_floating: false,
        column: Some(id as usize),
        tile_index: Some(1),
        tile_width: 800.0f64.to_bits(),
        tile_height: 900.0f64.to_bits(),
    }
}

fn spec(title: Option<&str>) -> WindowSpec {
    WindowSpec {
        name: "browser".into(),
        command: vec!["google-chrome-stable".into()],
        match_spec: MatchSpec {
            window_id: None,
            app_id: Some("^google-chrome$".into()),
            title: title.map(str::to_owned),
            process: None,
            cwd: None,
            pid: None,
        },
        reuse: ReusePolicy::Unique,
        layout: PlacementSpec::default(),
    }
}

#[test]
fn ambiguous_generic_matcher_is_not_guessed() {
    let windows =
        vec![window(1, "google-chrome", "YouTube"), window(2, "google-chrome", "docs.rs")];
    let decision = choose_candidate(&spec(None), &windows, &HashSet::new(), None).unwrap();
    assert!(matches!(decision, CandidateDecision::Ambiguous(_)));
}

#[test]
fn title_disambiguates() {
    let windows =
        vec![window(1, "google-chrome", "YouTube"), window(2, "google-chrome", "docs.rs")];
    let decision =
        choose_candidate(&spec(Some("docs\\.rs")), &windows, &HashSet::new(), None).unwrap();
    assert!(matches!(decision, CandidateDecision::One(candidate) if candidate.id == 2));
}

#[test]
fn spawn_baseline_ignores_existing_windows() {
    let windows =
        vec![window(1, "google-chrome", "YouTube"), window(2, "google-chrome", "docs.rs")];
    let baseline = HashSet::from([1]);
    let decision =
        choose_candidate(&spec(None), &windows, &HashSet::new(), Some(&baseline)).unwrap();
    assert!(matches!(decision, CandidateDecision::One(candidate) if candidate.id == 2));
}

#[test]
fn multiple_new_windows_after_spawn_remain_ambiguous() {
    let windows = vec![
        window(1, "google-chrome", "existing"),
        window(2, "google-chrome", "first new window"),
        window(3, "google-chrome", "second new window"),
    ];
    let baseline = HashSet::from([1]);

    let decision =
        choose_candidate(&spec(None), &windows, &HashSet::new(), Some(&baseline)).unwrap();

    assert!(matches!(decision, CandidateDecision::Ambiguous(c) if c.len() == 2));
}

#[test]
fn missing_app_id_does_not_match_an_app_id_regex() {
    let mut candidate = window(7, "google-chrome", "docs.rs");
    candidate.app_id = None;

    let decision = choose_candidate(&spec(None), &[candidate], &HashSet::new(), None).unwrap();

    assert_eq!(decision, CandidateDecision::Missing);
}

#[test]
fn scores_add_up() {
    let mut one = window(4, "google-chrome", "docs.rs");
    one.process_exe = Some("/opt/chrome".into());
    let mut all = spec(Some("docs"));
    all.match_spec.window_id = Some(4);
    all.match_spec.process = Some("chrome$".into());
    all.match_spec.pid = Some(4);
    let score = |m: &MatchSpec| CompiledMatcher::new(m).unwrap().score(&one);
    assert_eq!(score(&spec(None).match_spec), Some(50));
    assert_eq!(score(&spec(Some("docs")).match_spec), Some(95));
    assert_eq!(score(&all.match_spec), Some(320));
    all.match_spec.pid = Some(5);
    assert_eq!(score(&all.match_spec), None);
    assert_eq!(score(&MatchSpec::default()), Some(0));
}

#[test]
fn broken_patterns_are_reported() {
    let err = choose_candidate(&spec(Some("(")), &[], &HashSet::new(), None).unwrap_err();
    assert_eq!(
        err.text(),
        format!("invalid title regex \"(\": {}", regex::Regex::new("(").unwrap_err())
    );
}

fn state() -> ObservedState {
    ObservedState {
        workspaces: vec![RuntimeWorkspace {
            id: 1,
            index: 1,
            name: None,
            output: Some("eDP-1".into()),
            is_active: true,
            is_focused: true,
        }],
        outputs: vec![OutputInfo { name: "eDP-1".into(), width: Some(1920), height: Some(1200) }],
        ..ObservedState::default()
    }
}

fn recipe(output: Option<&str>, fallback: OutputFallback) -> Recipe {
    Recipe {
        name: None,
        workspace: "Dev".into(),
        output: output.map(str::to_owned),
        output_fallback: fallback,
        focus: None,
        spawn_timeout_ms: 10_000,
        windows: Vec::new(),
    }
}

#[test]
fn focused_output_comes_from_focused_workspace() {
    assert_eq!(focused_output_name(&state()).as_deref(), Some("eDP-1"));
}

#[test]
fn missing_output_falls_back_to_focused_output() {
    let target = resolve_target_output_from_state(
        &recipe(Some("DP-2"), OutputFallback::Focused),
        &state(),
    )
    .unwrap();
    assert_eq!(target.name, "eDP-1");
    assert!(target.fallback_warning.is_some());
    assert_eq!(
        target.fallback_warning.as_deref(),
        Some("requested output \"DP-2\" is not connected; using focused output \"eDP-1\"")
    );
}

#[test]
fn missing_output_can_be_strict() {
    let err =
        resolve_target_output_from_state(&recipe(Some("DP-2"), OutputFallback::Error), &state())
            .unwrap_err();
    assert!(err.text().contains("DP-2"));
    assert_eq!(err, NiriError::MissingOutput("DP-2".into()));
}

#[test]
fn connected_outputs_are_taken_as_declared() {
    let mut seen = state();
    seen.outputs.push(OutputInfo { name: "DP-2".into(), width: Some(800), height: None });
    let target =
        resolve_target_output_from_state(&recipe(Some("DP-2"), OutputFallback::Error), &seen)
            .unwrap();
    assert_eq!(target.name, "DP-2");
    assert_eq!(target.fallback_warning, None);
    assert_eq!(
        resolve_target_output_from_state(
            &recipe(None, OutputFallback::Error),
            &ObservedState::default()
        ),
        Err(NiriError::NoOutput)
    );
    let sorted: Vec<String> = sorted_outputs(&seen.outputs).into_iter().map(|o| o.name).collect();
    assert_eq!(sorted, vec!["DP-2", "eDP-1"]);
}

#[test]
fn workspaces_are_kept_moved_or_named() {
    let mut seen = state();
    assert_eq!(plan_workspace(&seen, "Dev", "eDP-1"), WorkspaceStep::Name(1));
    assert_eq!(plan_workspace(&seen, "Dev", "DP-9"), WorkspaceStep::NoEmpty);
    seen.windows.push(window(5, "foot", "foot"));
    assert_eq!(plan_workspace(&seen, "Dev", "eDP-1"), WorkspaceStep::NoEmpty);
    seen.workspaces[0].name = Some("Dev".into());
    assert_eq!(plan_workspace(&seen, "Dev", "eDP-1"), WorkspaceStep::Keep(1));
    assert_eq!(plan_workspace(&seen, "Dev", "DP-2"), WorkspaceStep::Move(1));
    assert!(workspace_is_on(&seen, 1, "eDP-1"));
    assert!(!workspace_is_on(&seen, 1, "DP-2"));
    assert!(workspace_is_named(&seen, 1, "Dev"));
    assert!(!workspace_is_named(&seen, 2, "Dev"));
    assert_eq!(
        not_moved("Dev", "DP-2").text(),
        "workspace operation did not converge: workspace \"Dev\" did not move to output \"DP-2\""
    );
    assert_eq!(
        not_named(3, "Dev").text(),
        "workspace operation did not converge: empty workspace 3 was not named \"Dev\""
    );
}

#[test]
fn session_errors_read_as_sentences() {
    let text = |e: NiriError| e.text();
    assert_eq!(
        text(NiriError::MissingSocket),
        "NIRI_SOCKET is not set; run inside a Niri session or pass --socket"
    );
    assert_eq!(
        text(NiriError::Connect { path: "/s".into(), message: "refused".into() }),
        "could not connect to Niri socket /s: refused"
    );
    assert_eq!(text(NiriError::Io("x".into())), "Niri IPC I/O failed: x");
    assert_eq!(text(NiriError::Json("x".into())), "invalid JSON from Niri: x");
    assert_eq!(text(NiriError::Rejected("x".into())), "Niri rejected request: x");
    assert_eq!(text(NiriError::Unexpected("x".into())), "unexpected Niri response: x");
    assert_eq!(
        text(NiriError::IncompleteInitialState),
        "event stream ended before initial window/workspace state arrived"
    );
    assert_eq!(
        text(NiriError::EventStreamClosed),
        "Niri EventStream disconnected while waiting for state convergence"
    );
    assert_eq!(text(NiriError::StateTimeout), "timed out waiting for Niri state to change");
    assert_eq!(
        text(NiriError::MissingOutput("DP\n".into())),
        "requested output \"DP\\n\" is not connected"
    );
    assert_eq!(text(NiriError::NoOutput), "could not determine a focused/connected output");
    assert!(text(NiriError::NoEmptyWorkspace("DP-1".into()))
        .starts_with("could not find an empty workspace on output "));
}

#[test]
fn waiting_ends_with_a_change_or_a_lost_stream() {
    assert_eq!(change_step(4, 3, false), WaitStep::Done);
    assert_eq!(change_step(3, 3, true), WaitStep::Closed);
    assert_eq!(change_step(3, 3, false), WaitStep::Wait);
    assert_eq!(until_step(true, false, true), WaitStep::Closed);
    assert_eq!(until_step(true, true, false), WaitStep::Done);
    assert_eq!(until_step(false, false, false), WaitStep::Wait);
    assert_eq!(until_step(false, true, false), WaitStep::Again);
    assert_eq!(until_step(false, false, true), WaitStep::Closed);
}

#[test]
fn parses_wayland_display_from_niri_socket_name() {
    assert_eq!(
        niri_wayland_display("/run/user/1000/niri.wayland-1.1386.sock").as_deref(),
        Some("wayland-1")
    );
    assert_eq!(niri_wayland_display("/tmp/not-niri.sock"), None);
}

#[test]
fn sessions_hand_their_display_on() {
    assert_eq!(bus_path("/run/user/7"), "/run/user/7/bus");
    let set = session_environment(
        &Some("wayland-1".into()),
        &Some("/run/user/7".into()),
        true,
        &Vec::new(),
    );
    assert!(set.contains(&("WAYLAND_DISPLAY".to_owned(), "wayland-1".to_owned())), "{set:?}");
}

#[test]
fn shells_are_searched_below_a_terminal() {
    assert_eq!(process_children("12 x 7\n"), vec![12, 7]);
    assert!(is_interactive_shell(&Some("/usr/bin/fish".into())));
    assert!(!is_interactive_shell(&Some("/usr/bin/vim".into())));
    assert!(!is_interactive_shell(&None));

    let mut search = ShellSearch::new(10);
    let (root, depth) = search.advance().unwrap();
    assert_eq!((root, depth), (10, 0));
    assert_eq!(search.settle(10, &Some("/bin/bash".into()), Some("/home".into())), None);
    search.add_children(depth, &vec![11, 12, 11]);
    assert_eq!(search.advance(), Some((11, 1)));
    search.add_children(1, &vec![10, 13]);
    assert_eq!(search.advance(), Some((12, 1)));
    assert_eq!(
        search.settle(12, &Some("/bin/bash".into()), Some("/home".into())),
        Some("/home".to_owned())
    );
    assert_eq!(search.advance(), Some((13, 2)));
    assert_eq!(search.advance(), None);
}

fn browser() -> WindowSpec {
    WindowSpec {
        name: "browser".into(),
        command: vec!["browser".into()],
        match_spec: MatchSpec { app_id: Some("^browser$".into()), ..MatchSpec::default() },
        reuse: ReusePolicy::Unique,
        layout: PlacementSpec::default(),
    }
}

#[test]
fn spawned_process_pid_breaks_an_otherwise_ambiguous_tie() {
    let make_window = |id: u64, pid| RuntimeWindow {
        id,
        title: Some("same".into()),
        app_id: Some("browser".into()),
        pid: Some(pid),
        process_exe: None,
        cwd: None,
        workspace_id: Some(1),
        is_focused: false,
        is_floating: false,
        column: Some(id as usize),
        tile_index: Some(1),
        tile_width: 800.0f64.to_bits(),
        tile_height: 600.0f64.to_bits(),
    };
    let windows = vec![make_window(2, 222), make_window(3, 333)];

    let decision = choose_spawn_candidate(
        &browser(),
        &windows,
        &HashSet::new(),
        &HashSet::new(),
        Some(333),
    )
    .unwrap();

    assert!(matches!(decision, CandidateDecision::One(candidate) if candidate.id == 3));
}

#[test]
fn spawning_settles_before_a_window_is_taken() {
    let none = HashSet::new();
    let windows = vec![window(2, "browser", "x")];
    let step = |windows: &[RuntimeWindow], settling, closed| {
        spawn_step(&browser(), windows, &none, &none, None, settling, closed)
    };
    assert_eq!(step(&windows, false, false), Ok(SpawnStep::Settle));
    assert_eq!(step(&windows, true, false), Ok(SpawnStep::Resolved(2)));
    assert_eq!(step(&[], false, false), Ok(SpawnStep::Wait));
    assert_eq!(
        step(&[], false, true),
        Err(SpawnError::EventStreamClosed { name: "browser".into() })
    );
    assert_eq!(wait_ms(0), 10);
    assert_eq!(wait_ms(10_000), 10_000);
}

fn surroundings() -> Environment {
    let variable = |name: &str, value: Result<&str, &str>| Variable {
        name: name.to_owned(),
        value: value.map(str::to_owned).map_err(str::to_owned),
    };
    Environment {
        home: Some("/home/user".to_owned()),
        variables: vec![
            variable("EDITOR", Ok("vim")),
            variable("TILDE", Ok("~")),
            variable("BROKEN", Err("environment variable was not valid unicode")),
            variable("EDITOR", Ok("other")),
        ],
    }
}

#[test]
fn commands_are_expanded_word_by_word() {
    let about = surroundings();
    let mut s = browser();
    s.command = vec!["$EDITOR".into(), "a b".into(), "~/bin/x".into(), "${EDITOR}s".into()];
    assert_eq!(
        expand_command(&s, &about),
        Ok(vec!["vim".to_owned(), "a b".to_owned(), "/home/user/bin/x".to_owned(), "vims".to_owned()])
    );
    assert_eq!(launch_command(&s, &about), expand_command(&s, &about));
    s.command = vec!["ok".into(), "$MISSING".into(), "$BROKEN".into()];
    assert_eq!(
        expand_command(&s, &about),
        Err(SpawnError::Expand {
            name: "browser".to_owned(),
            arg: "$MISSING".to_owned(),
            message: "error looking key 'MISSING' up: environment variable not found".to_owned(),
        })
    );
    assert_eq!(
        expanded_command(&s, &vec![Ok("/a".to_owned()), Ok("/b".to_owned()), Ok("/c".to_owned())]),
        Ok(vec!["/a".to_owned(), "/b".to_owned(), "/c".to_owned()])
    );
    s.command.clear();
    assert_eq!(
        launch_command(&s, &about),
        Err(SpawnError::MissingCommand { name: "browser".into() })
    );
}

#[test]
fn a_home_directory_is_expanded() {
    let mut about = surroundings();
    let mut s = browser();
    s.command = vec!["~".into(), "~/x".into(), "~user/x".into(), "a/~".into(), "$TILDE".into()];
    assert_eq!(
        expand_command(&s, &about).unwrap(),
        ["/home/user", "/home/user/x", "~user/x", "a/~", "~"]
    );
    about.home = None;
    assert_eq!(expand_command(&s, &about).unwrap(), ["~", "~/x", "~user/x", "a/~", "~"]);
    assert_eq!(about.lookup("EDITOR"), Ok(Some("vim".to_owned())));
    assert_eq!(about.lookup("BROKEN").unwrap_err(), "environment variable was not valid unicode");
}

#[test]
fn spawn_timeouts_list_what_appeared() {
    let mut seen = state();
    let used = HashSet::new();
    let baseline = HashSet::from([1]);
    seen.windows = vec![window(1, "browser", "old"), window(2, "foot", "new")];
    assert_eq!(
        describe_new_candidates(&browser(), &seen, &baseline, &used),
        "  (none matched)"
    );
    seen.windows.push(window(3, "browser", "new"));
    assert_eq!(
        describe_new_candidates(&browser(), &seen, &baseline, &used),
        "  id=3 app_id=Some(\"browser\") title=Some(\"new\") pid=Some(3) process=None"
    );
    assert_eq!(
        describe_new_candidates(&browser(), &seen, &used, &used),
        "  id=1 app_id=Some(\"browser\") title=Some(\"old\") pid=Some(1) process=None\n  id=3 app_id=Some(\"browser\") title=Some(\"new\") pid=Some(3) process=None"
    );
    assert_eq!(describe_matcher(&browser()), "app_id=\"^browser$\"");
    let error = spawn_timeout(&browser(), &vec!["browser".into()], 5, &seen, &baseline, &used);
    let text = error.text();
    assert!(text.contains("browser"), "{text}");
    assert!(text.contains(&describe_matcher(&browser())), "{text}");
}

fn one_window(focused: u64) -> (Recipe, ObservedState) {
    let mut r = recipe(None, OutputFallback::Focused);
    r.windows.push(browser());
    let mut seen = state();
    seen.workspaces[0].name = Some("Dev".into());
    let mut w = window(2, "browser", "x");
    w.column = Some(1);
    w.is_focused = focused == 2;
    seen.windows.push(w);
    (r, seen)
}

#[test]
fn existing_windows_are_reused_or_spawned() {
    let (mut r, mut seen) = one_window(2);
    let found = resolve_existing(&r, &seen).unwrap();
    assert_eq!(found.ids.get("browser"), Some(&2));
    assert_eq!(found.by_name.get("browser"), Some(&ExistingResolution::Reuse(2)));

    r.windows[0].reuse = ReusePolicy::Never;
    let found = resolve_existing(&r, &seen).unwrap();
    assert_eq!(found.ids.get("browser"), None);
    assert_eq!(found.by_name.get("browser"), Some(&ExistingResolution::Spawn));

    r.windows[0].reuse = ReusePolicy::Unique;
    seen.windows.push(window(3, "browser", "y"));
    assert_eq!(
        resolve_existing(&r, &seen).unwrap_err().text(),
        "could not safely resolve window \"browser\": 2 pre-existing windows match\nmatcher: app_id=\"^browser$\"\ncandidates:\n  id=2 app_id=Some(\"browser\") title=Some(\"x\") pid=Some(2) process=None\n  id=3 app_id=Some(\"browser\") title=Some(\"y\") pid=Some(3) process=None\nrefine the matcher (usually title/process), or set reuse = \"never\" if a new window is intentional"
    );
    assert_eq!(
        resolve_for_repair(&r, &seen).unwrap_err().text("dev"),
        "cannot repair \"browser\": 2 existing windows match; refine its matcher first"
    );

    seen.windows.clear();
    assert_eq!(
        resolve_for_repair(&r, &seen).unwrap_err().text("dev"),
        "repair never launches applications; missing window(s): browser. Use niri-workbench open dev instead."
    );
    r.windows[0].command.clear();
    assert_eq!(
        resolve_existing(&r, &seen).unwrap_err().text(),
        "could not resolve window \"browser\": no matching window exists and command is empty"
    );
    r.windows[0].match_spec.app_id = Some("[".into());
    assert!(resolve_existing(&r, &seen)
        .unwrap_err()
        .text()
        .starts_with("invalid matcher for logical window \"browser\": invalid app_id regex \"[\": "));
}

#[test]
fn statuses_follow_the_windows() {
    let (r, mut seen) = one_window(2);
    assert_eq!(recipe_status(&r, None, &Vec::new()), RecipeStatus::Offline);
    let fit = niri_workbench::planner::TileFit { width: true, height: true };
    assert_eq!(recipe_status(&r, Some(&seen), &vec![vec![fit]]), RecipeStatus::Ready);
    let ready = resolve_existing(&r, &seen).unwrap();
    assert_eq!(ready.by_name.get("browser"), Some(&ExistingResolution::Reuse(2)));
    assert_eq!(ready.by_name.len(), 1);
    seen.windows.push(window(3, "browser", "y"));
    assert_eq!(recipe_status(&r, Some(&seen), &vec![vec![fit, fit]]), RecipeStatus::Ambiguous);
    seen.windows.clear();
    assert_eq!(recipe_status(&r, Some(&seen), &vec![vec![]]), RecipeStatus::Missing(1));
}

#[test]
fn a_directory_takes_part_in_matching() {
    let spec = MatchSpec {
        app_id: Some("^kitty$".to_owned()),
        cwd: Some("^/a$".to_owned()),
        ..MatchSpec::default()
    };
    let matcher = CompiledMatcher::new(&spec).unwrap();
    let mut w = window(2, "kitty", "x");
    w.cwd = Some("/b".to_owned());
    assert_eq!(matcher.score(&w), None);
    w.cwd = None;
    assert_eq!(matcher.score(&w), None);
    w.cwd = Some("/a".to_owned());
    assert_eq!(matcher.score(&w), Some(50));

    let broken = MatchSpec { cwd: Some("[".to_owned()), ..MatchSpec::default() };
    assert!(CompiledMatcher::new(&broken)
        .unwrap_err()
        .text()
        .starts_with("invalid cwd regex \"[\": "));
}
