use niri_workbench::apply::{Application, ApplyStep, Phase};
use niri_workbench::events::{apply_event, refresh_process_metadata, Event, LayoutChange};
use niri_workbench::execute::{
    ensure_window, final_focus, fingerprint, goal_reached, has_focus,
    is_unverifiable_percentage_size, may_time_out, plan_action, remaining_actions,
    window_position, ApplyError, Command, FocusStep, Goal, NextStep, Progress, MOST_STEPS,
};
use niri_workbench::model::{
    ColumnDisplay, MatchSpec, ObservedState, OutputFallback, PlacementSpec, Recipe, ReusePolicy,
    RuntimeWindow, RuntimeWorkspace, Size, WindowSpec,
};
use niri_workbench::names::NameMap;
use niri_workbench::planner::{Action, ReconcilePlan};

fn window(id: u64, focused: bool) -> RuntimeWindow {
    RuntimeWindow {
        id,
        title: None,
        app_id: None,
        pid: None,
        process_exe: None,
        cwd: None,
        workspace_id: Some(1),
        is_focused: focused,
        is_floating: false,
        column: Some(1),
        tile_index: Some(1),
        tile_width: 0,
        tile_height: 0,
    }
}

fn workspace(id: u64, output: &str, active: bool, focused: bool) -> RuntimeWorkspace {
    RuntimeWorkspace {
        id,
        index: 1,
        name: None,
        output: Some(output.to_owned()),
        is_active: active,
        is_focused: focused,
    }
}

fn state() -> ObservedState {
    ObservedState {
        windows: vec![window(1, true), window(2, false)],
        workspaces: vec![
            workspace(1, "A", true, true),
            workspace(2, "A", false, false),
            workspace(3, "B", true, false),
        ],
        outputs: Vec::new(),
    }
}

#[test]
fn events_keep_the_state_up_to_date() {
    let mut s = state();
    apply_event(&mut s, Event::WindowOpenedOrChanged(window(7, true)));
    assert_eq!(s.windows.len(), 3);
    assert_eq!(s.focused_window_id(), Some(7));
    apply_event(&mut s, Event::WindowOpenedOrChanged(window(7, false)));
    assert_eq!(s.windows.len(), 3);
    assert_eq!(s.focused_window_id(), None);
    apply_event(&mut s, Event::WindowFocusChanged(Some(2)));
    assert_eq!(s.focused_window_id(), Some(2));
    apply_event(&mut s, Event::WindowClosed(2));
    assert!(s.window(2).is_none());
    apply_event(
        &mut s,
        Event::WindowLayoutsChanged(vec![LayoutChange {
            id: 7,
            position: Some((3, 2)),
            tile_width: 1.5f64.to_bits(),
            tile_height: 2.5f64.to_bits(),
        }]),
    );
    assert_eq!(window_position(&s, 7), Some((Some(3), Some(2))));
    assert_eq!(s.window(7).unwrap().tile_width, 1.5f64.to_bits());
    apply_event(
        &mut s,
        Event::WindowLayoutsChanged(vec![LayoutChange {
            id: 7,
            position: None,
            tile_width: 0,
            tile_height: 0,
        }]),
    );
    assert_eq!(window_position(&s, 7), Some((None, None)));
    apply_event(&mut s, Event::WindowsChanged(vec![window(9, true)]));
    assert_eq!(s.windows.len(), 1);
    apply_event(&mut s, Event::WorkspacesChanged(vec![workspace(5, "A", true, true)]));
    assert_eq!(s.focused_workspace().unwrap().id, 5);
}

#[test]
fn activating_a_workspace_leaves_other_outputs_alone() {
    let mut s = state();
    apply_event(&mut s, Event::WorkspaceActivated { id: 2, focused: true });
    let active: Vec<u64> = s.workspaces.iter().filter(|w| w.is_active).map(|w| w.id).collect();
    assert_eq!(active, vec![2, 3]);
    let focused: Vec<u64> = s.workspaces.iter().filter(|w| w.is_focused).map(|w| w.id).collect();
    assert_eq!(focused, vec![2]);
}

#[test]
fn processes_are_looked_up_again() {
    let mut w = window(1, false);
    w.pid = Some(3);
    refresh_process_metadata(&mut w, Some("/bin/foot".to_owned()), Some("/home".to_owned()));
    assert_eq!(w.process_exe.as_deref(), Some("/bin/foot"));
    assert_eq!(w.cwd.as_deref(), Some("/home"));
}

fn width(size: Size) -> Action {
    Action::SetColumnWidth { name: "a".to_owned(), window_id: 1, column: 2, size }
}

#[test]
fn fingerprints_tell_actions_apart() {
    assert_eq!(
        fingerprint(&width(Size::Percent(0.5f64.to_bits())), "0.5"),
        "SetColumnWidth { name: \"a\", window_id: 1, column: 2, size: Percent(0.5) }"
    );
    assert_eq!(
        fingerprint(&width(Size::Pixels(7)), ""),
        "SetColumnWidth { name: \"a\", window_id: 1, column: 2, size: Pixels(7) }"
    );
    assert_eq!(
        fingerprint(
            &Action::MoveToWorkspace { name: "a".to_owned(), window_id: 1, from: Some(2), to: 3 },
            ""
        ),
        "MoveToWorkspace { name: \"a\", window_id: 1, from: Some(2), to: 3 }"
    );
    assert_eq!(
        fingerprint(
            &Action::SetColumnDisplay {
                name: "a".to_owned(),
                window_id: 1,
                column: 1,
                display: ColumnDisplay::Normal
            },
            ""
        ),
        "SetColumnDisplay { name: \"a\", window_id: 1, column: 1, display: Normal }"
    );
    assert!(is_unverifiable_percentage_size(&width(Size::Percent(1))));
    assert!(!is_unverifiable_percentage_size(&width(Size::Pixels(1))));
}

#[test]
fn an_action_is_tried_twice_at_most() {
    let mut p = Progress::new();
    let a = width(Size::Pixels(7));
    assert!(matches!(p.next(Some(&a), ""), NextStep::Execute));
    assert!(matches!(p.next(Some(&a), ""), NextStep::Execute));
    match p.next(Some(&a), "") {
        NextStep::Fail(error) => assert_eq!(
            error.text(),
            "reconciliation did not converge after 3 mutations; last action: SetColumnWidth { name: \"a\", window_id: 1, column: 2, size: Pixels(7) }"
        ),
        other => panic!("unexpected step: {other:?}"),
    }

    let mut p = Progress::new();
    let share = width(Size::Percent(0.5f64.to_bits()));
    assert!(matches!(p.next(Some(&share), "0.5"), NextStep::Execute));
    match p.next(Some(&share), "0.5") {
        NextStep::Unverified(warning) => assert_eq!(
            warning,
            "could not verify percentage size after applying SetColumnWidth { name: \"a\", window_id: 1, column: 2, size: Percent(0.5) }; Niri IPC does not expose the effective working-area dimensions, so the requested size was applied once"
        ),
        other => panic!("unexpected step: {other:?}"),
    }
    assert!(matches!(Progress::new().next(None, ""), NextStep::Stop));
    let focus = Action::Focus { name: "a".to_owned(), window_id: 1 };
    assert!(matches!(Progress::new().next(Some(&focus), ""), NextStep::Stop));
}

#[test]
fn the_loop_comes_to_an_end() {
    let mut p = Progress::new();
    let mut steps = 0;
    loop {
        let a = Action::MoveWindowUp { name: "a".to_owned(), window_id: 1, from: steps, to: 0 };
        if matches!(p.next(Some(&a), ""), NextStep::Stop) {
            break;
        }
        steps += 1;
    }
    assert_eq!(steps, MOST_STEPS);
    assert_eq!(MOST_STEPS, 64);
}

#[test]
fn the_focus_comes_last() {
    let focus = Action::Focus { name: "a".to_owned(), window_id: 2 };
    let plan = ReconcilePlan { actions: vec![focus.clone(), width(Size::Pixels(7))] };
    assert_eq!(remaining_actions(&plan), vec![width(Size::Pixels(7))]);
    let mut r = Recipe {
        name: None,
        workspace: "Dev".to_owned(),
        output: None,
        output_fallback: OutputFallback::Focused,
        focus: Some("a".to_owned()),
        spawn_timeout_ms: 1,
        windows: Vec::new(),
    };
    let mut ids = NameMap::new();
    assert!(matches!(
        final_focus(&r, &ids, &state()),
        FocusStep::Warn(text) if text == "final focus target \"a\" was not resolved"
    ));
    ids.insert("a".to_owned(), 2);
    match final_focus(&r, &ids, &state()) {
        FocusStep::Execute(action) => assert_eq!(action, focus),
        other => panic!("unexpected step: {other:?}"),
    }
    ids.insert("a".to_owned(), 1);
    assert!(matches!(final_focus(&r, &ids, &state()), FocusStep::Keep));
    r.focus = None;
    assert!(matches!(final_focus(&r, &ids, &state()), FocusStep::Keep));
    assert!(has_focus(&state(), 1));
    assert!(!has_focus(&state(), 2));
}

#[test]
fn actions_become_commands_and_goals() {
    let up = Action::MoveWindowUp { name: "a".to_owned(), window_id: 1, from: 2, to: 1 };
    let script = plan_action(&up);
    assert!(script.focus_first);
    assert_eq!(script.window_id, 1);
    assert_eq!(script.command, Some(Command::MoveWindowUp));
    assert_eq!(script.goal, Goal::TileBefore { tile: 2 });

    let height =
        Action::SetWindowHeight { name: "a".to_owned(), window_id: 1, size: Size::Pixels(3) };
    let script = plan_action(&height);
    assert!(!script.focus_first);
    assert_eq!(script.command, Some(Command::SetWindowHeight { id: 1, size: Size::Pixels(3) }));
    assert_eq!(script.goal, Goal::Resized { size: Size::Pixels(3), width: false });

    let focus = Action::Focus { name: "a".to_owned(), window_id: 2 };
    let script = plan_action(&focus);
    assert!(script.focus_first);
    assert_eq!(script.command, None);

    assert!(ensure_window(&focus, &state()).is_ok());
    let gone = Action::Focus { name: "a".to_owned(), window_id: 5 };
    assert_eq!(
        ensure_window(&gone, &state()).unwrap_err().text(),
        "window \"a\" (id 5) disappeared while applying the recipe"
    );
    assert_eq!(ApplyError::Niri("x".to_owned()).text(), "x");
}

#[test]
fn goals_show_in_the_window() {
    let s = state();
    let at = window_position(&s, 1);
    assert_eq!(at, Some((Some(1), Some(1))));
    assert!(goal_reached(Goal::OnWorkspace { id: 1 }, &s, 1, at, false));
    assert!(!goal_reached(Goal::OnWorkspace { id: 2 }, &s, 1, at, false));
    assert!(!goal_reached(Goal::Moved, &s, 1, at, false));
    assert!(goal_reached(Goal::Moved, &s, 1, None, false));
    assert!(goal_reached(Goal::AtColumn { column: 1 }, &s, 1, at, false));
    assert!(goal_reached(Goal::TileBefore { tile: 2 }, &s, 1, at, false));
    assert!(!goal_reached(Goal::TileBehind { tile: 2 }, &s, 1, at, false));
    assert!(goal_reached(Goal::Focused, &s, 1, at, false));
    assert!(!goal_reached(Goal::Focused, &s, 2, at, false));
    let size = Size::Percent(1);
    assert!(goal_reached(Goal::Resized { size, width: true }, &s, 1, at, true));
    assert!(!goal_reached(Goal::Resized { size, width: true }, &s, 9, at, true));
    assert!(may_time_out(Goal::Resized { size, width: true }));
    assert!(!may_time_out(Goal::Resized { size: Size::Pixels(1), width: true }));
    assert!(may_time_out(Goal::LayoutEvent));
    assert!(!may_time_out(Goal::Moved));
}

#[test]
fn a_recipe_is_applied_phase_by_phase() {
    let tile = |name: &str, column: usize, display: ColumnDisplay| WindowSpec {
        name: name.to_owned(),
        command: Vec::new(),
        match_spec: MatchSpec::default(),
        reuse: ReusePolicy::Unique,
        layout: PlacementSpec { column, display: Some(display), ..PlacementSpec::default() },
    };
    let recipe = Recipe {
        name: None,
        workspace: "Dev".to_owned(),
        output: None,
        output_fallback: OutputFallback::Focused,
        focus: Some("a".to_owned()),
        spawn_timeout_ms: 1,
        windows: vec![tile("a", 1, ColumnDisplay::Tabbed), tile("b", 2, ColumnDisplay::Normal)],
    };
    let mut ids = NameMap::new();
    ids.insert("a".to_owned(), 2);
    ids.insert("b".to_owned(), 9);
    let seen = state();
    let left = width(Size::Pixels(7));
    let plan = ReconcilePlan { actions: vec![left.clone()] };
    let nothing = ReconcilePlan { actions: Vec::new() };
    let show = |name: &str, window_id: u64, column: usize, display: ColumnDisplay| {
        Action::SetColumnDisplay { name: name.to_owned(), window_id, column, display }
    };
    let first = show("a", 2, 1, ColumnDisplay::Tabbed);
    let second = show("b", 9, 2, ColumnDisplay::Normal);
    let focus = Action::Focus { name: "a".to_owned(), window_id: 2 };

    let mut work = Application::new(&recipe, &ids);
    assert_eq!(work.step(&recipe, &ids, &seen, &plan, ""), ApplyStep::Execute(left.clone()));
    assert_eq!(work.step(&recipe, &ids, &seen, &nothing, ""), ApplyStep::Again);
    assert_eq!(work.phase, Phase::Verify);
    assert_eq!(work.step(&recipe, &ids, &seen, &plan, ""), ApplyStep::Again);
    assert_eq!(work.step(&recipe, &ids, &seen, &plan, ""), ApplyStep::Execute(first.clone()));
    assert_eq!(work.step(&recipe, &ids, &seen, &plan, ""), ApplyStep::Execute(second.clone()));
    assert_eq!(work.step(&recipe, &ids, &seen, &plan, ""), ApplyStep::Again);
    let mut blurred = state();
    for w in &mut blurred.windows {
        w.is_focused = false;
    }
    assert_eq!(work.step(&recipe, &ids, &blurred, &plan, ""), ApplyStep::Execute(focus.clone()));
    assert_eq!(work.step(&recipe, &ids, &blurred, &plan, ""), ApplyStep::Finish);
    assert_eq!(work.step(&recipe, &ids, &blurred, &plan, ""), ApplyStep::Finish);
    assert_eq!(work.report.executed, vec![left.clone(), first, second, focus]);
    assert_eq!(work.report.remaining, vec![left.clone()]);
    assert_eq!(work.report.display_reassertions, 2);
    assert!(work.report.warnings.is_empty());

    let mut stuck = Application::new(&recipe, &ids);
    stuck.step(&recipe, &ids, &seen, &plan, "");
    stuck.step(&recipe, &ids, &seen, &plan, "");
    assert!(matches!(
        stuck.step(&recipe, &ids, &seen, &plan, ""),
        ApplyStep::Fail(ApplyError::DidNotConverge { steps: 3, .. })
    ));
    let lost = NameMap::new();
    let mut blind = Application::new(&recipe, &lost);
    for _ in 0..5 {
        blind.step(&recipe, &lost, &seen, &nothing, "");
    }
    assert_eq!(blind.report.warnings, vec!["final focus target \"a\" was not resolved"]);
}
