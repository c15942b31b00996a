use niri_workbench::model::{
    ColumnDisplay, MatchSpec, ObservedState, OutputFallback, OutputInfo, PlacementSpec, Recipe,
    ReusePolicy, RuntimeWindow, RuntimeWorkspace, Size, WindowSpec,
};
use niri_workbench::names::NameMap;
use niri_workbench::outputs::reference_extent;
use niri_workbench::planner::{
    build_reconcile_plan, declared_display_actions, Action, ReconcilePlan, TileFit,
};

fn fits_extent(size: Option<Size>, actual: u64, observed: &ObservedState, id: u64, width: bool) -> bool {
    let actual = f64::from_bits(actual);
    let (expected, tolerance) = match size {
        None => return true,
        Some(Size::Pixels(px)) => (f64::from(px), 2.0),
        Some(Size::Percent(ratio)) => match reference_extent(observed, id, width) {
            None => return false,
            Some(full) => {
                let expected = f64::from(full) * f64::from_bits(ratio);
                (expected, expected.mul_add(0.05, 2.0).max(8.0))
            }
        },
    };
    (actual - expected).abs() <= tolerance
}

fn fits(recipe: &Recipe, observed: &ObservedState, id: u64) -> Vec<Vec<TileFit>> {
    recipe
        .windows
        .iter()
        .map(|spec| {
            observed
                .windows
                .iter()
                .map(|window| TileFit {
                    width: fits_extent(spec.layout.column_width, window.tile_width, observed, id, true),
                    height: fits_extent(spec.layout.window_height, window.tile_height, observed, id, false),
                })
                .collect()
        })
        .collect()
}

fn plan_of(
    recipe: &Recipe,
    observed: &ObservedState,
    ids: &NameMap<u64>,
    workspace: u64,
    displays: bool,
) -> ReconcilePlan {
    let fits = fits(recipe, observed, workspace);
    build_reconcile_plan(recipe, observed, ids, workspace, &fits, displays)
}

fn ids_of(list: &[(&str, u64)]) -> NameMap<u64> {
    let mut out = NameMap::new();
    for (name, id) in list {
        out.insert((*name).to_owned(), *id);
    }
    out
}

fn percent(ratio: f64) -> Option<Size> {
    Some(Size::Percent(ratio.to_bits()))
}

fn spec(name: &str, column: usize) -> WindowSpec {
    WindowSpec {
        name: name.into(),
        command: vec!["foot".into()],
        match_spec: MatchSpec { app_id: Some(format!("^{name}$")), ..MatchSpec::default() },
        reuse: ReusePolicy::Unique,
        layout: PlacementSpec { column, ..PlacementSpec::default() },
    }
}

fn state(windows: Vec<RuntimeWindow>) -> ObservedState {
    ObservedState {
        windows,
        workspaces: vec![RuntimeWorkspace {
            id: 7,
            index: 1,
            name: Some("Dev".into()),
            output: Some("eDP-1".into()),
            is_active: true,
            is_focused: true,
        }],
        outputs: vec![OutputInfo { name: "eDP-1".into(), width: Some(1920), height: Some(1080) }],
    }
}

fn window(id: u64, column: usize, tile: usize) -> RuntimeWindow {
    RuntimeWindow {
        id,
        title: None,
        app_id: Some(format!("w{id}")),
        pid: None,
        process_exe: None,
        cwd: None,
        workspace_id: Some(7),
        is_focused: id == 1,
        is_floating: false,
        column: Some(column),
        tile_index: Some(tile),
        tile_width: 960.0f64.to_bits(),
        tile_height: 1080.0f64.to_bits(),
    }
}

fn recipe(windows: Vec<WindowSpec>) -> Recipe {
    Recipe {
        name: None,
        workspace: "Dev".into(),
        output: None,
        output_fallback: OutputFallback::Focused,
        focus: Some("a".into()),
        spawn_timeout_ms: 10_000,
        windows,
    }
}

#[test]
fn converged_layout_is_noop() {
    let mut a = spec("a", 1);
    a.layout.column_width = percent(0.5);
    let r = recipe(vec![a, spec("b", 2)]);
    let observed = state(vec![window(1, 1, 1), window(2, 2, 1)]);
    let ids = ids_of(&[("a", 1), ("b", 2)]);
    let plan = plan_of(&r, &observed, &ids, 7, false);
    assert!(plan.is_noop());
}

#[test]
fn percentage_size_tolerates_unobservable_work_area_reduction() {
    let mut a = spec("a", 1);
    a.layout.column_width = percent(0.5);
    let mut r = recipe(vec![a]);
    r.focus = None;
    let mut actual = window(1, 1, 1);
    actual.tile_width = 930.0f64.to_bits();
    let observed = state(vec![actual]);
    let ids = ids_of(&[("a", 1)]);

    let plan = plan_of(&r, &observed, &ids, 7, false);

    assert!(plan.is_noop());
}

#[test]
fn separated_windows_are_grouped() {
    let a = spec("a", 1);
    let mut b = spec("b", 1);
    b.layout.display = Some(ColumnDisplay::Tabbed);
    let mut r = recipe(vec![a, b]);
    r.focus = None;
    let observed = state(vec![window(1, 1, 1), window(2, 2, 1)]);
    let ids = ids_of(&[("a", 1), ("b", 2)]);
    let plan = plan_of(&r, &observed, &ids, 7, false);
    assert!(matches!(plan.actions.as_slice(), [Action::ConsumeLeft { window_id: 2, .. }]));
}

#[test]
fn tabbed_display_is_reasserted_because_niri_does_not_expose_it() {
    let mut a = spec("a", 1);
    a.layout.display = Some(ColumnDisplay::Tabbed);
    let mut r = recipe(vec![a]);
    r.focus = None;
    let observed = state(vec![window(1, 1, 1)]);
    let ids = ids_of(&[("a", 1)]);
    let plan = plan_of(&r, &observed, &ids, 7, true);
    assert!(matches!(plan.actions.as_slice(), [Action::SetColumnDisplay { .. }]));
    assert!(!plan.is_noop());
    assert!(plan.observable_actions().is_empty());
    assert_eq!(declared_display_actions(&r, &ids), plan.actions);
    assert!(plan_of(&r, &observed, &ids, 7, false).actions.is_empty());
}

#[test]
fn tile_order_is_repaired_one_step_at_a_time() {
    let a = spec("a", 1);
    let b = spec("b", 1);
    let mut r = recipe(vec![a, b]);
    r.focus = None;
    let observed = state(vec![window(1, 1, 2), window(2, 1, 1)]);
    let ids = ids_of(&[("a", 1), ("b", 2)]);

    let plan = plan_of(&r, &observed, &ids, 7, false);

    assert!(matches!(
        plan.actions.as_slice(),
        [Action::MoveWindowUp { window_id: 1, from: 2, to: 1, .. }]
    ));
}

fn shown(id: u64, app_id: &str, column: usize, tile: usize) -> RuntimeWindow {
    RuntimeWindow {
        id,
        title: Some(app_id.to_owned()),
        app_id: Some(app_id.to_owned()),
        pid: Some(id as i32),
        process_exe: Some(format!("/usr/bin/{app_id}")),
        cwd: None,
        workspace_id: Some(10),
        is_focused: id == 12,
        is_floating: false,
        column: Some(column),
        tile_index: Some(tile),
        tile_width: if column == 1 { 1056.0f64.to_bits() } else { 576.0f64.to_bits() },
        tile_height: 1080.0f64.to_bits(),
    }
}

fn logical(name: &str, app_id: &str, column: usize) -> WindowSpec {
    WindowSpec {
        name: name.to_owned(),
        command: vec![app_id.to_owned()],
        match_spec: MatchSpec { app_id: Some(format!("^{app_id}$")), ..MatchSpec::default() },
        reuse: ReusePolicy::Unique,
        layout: PlacementSpec { column, ..PlacementSpec::default() },
    }
}

fn observed() -> ObservedState {
    ObservedState {
        windows: vec![
            shown(12, "code", 1, 1),
            shown(15, "google-chrome", 2, 1),
            shown(18, "kitty", 3, 1),
        ],
        workspaces: vec![RuntimeWorkspace {
            id: 10,
            index: 1,
            name: Some("Dev".into()),
            output: Some("eDP-1".into()),
            is_active: true,
            is_focused: true,
        }],
        outputs: vec![OutputInfo { name: "eDP-1".into(), width: Some(1920), height: Some(1080) }],
    }
}

#[test]
fn desired_equals_actual_has_zero_mutating_actions() {
    let mut editor = logical("editor", "code", 1);
    editor.layout.column_width = percent(0.55);
    let mut browser = logical("browser", "google-chrome", 2);
    browser.layout.column_width = percent(0.30);
    let terminal = logical("terminal", "kitty", 3);

    let recipe = Recipe {
        name: None,
        workspace: "Dev".into(),
        output: None,
        output_fallback: OutputFallback::Focused,
        focus: Some("editor".into()),
        spawn_timeout_ms: 10_000,
        windows: vec![editor, browser, terminal],
    };
    let ids = ids_of(&[("editor", 12), ("browser", 15), ("terminal", 18)]);

    let plan = plan_of(&recipe, &observed(), &ids, 10, false);
    assert!(plan.actions.is_empty(), "{:?}", plan.actions);
}

#[test]
fn planner_repairs_wrong_column_before_sizes() {
    let editor = logical("editor", "code", 1);
    let mut browser = logical("browser", "google-chrome", 2);
    browser.layout.column_width = percent(0.30);
    let mut terminal = logical("terminal", "kitty", 2);
    terminal.layout.display = Some(ColumnDisplay::Tabbed);

    let recipe = Recipe {
        name: None,
        workspace: "Dev".into(),
        output: None,
        output_fallback: OutputFallback::Focused,
        focus: Some("editor".into()),
        spawn_timeout_ms: 10_000,
        windows: vec![editor, browser, terminal],
    };
    let ids = ids_of(&[("editor", 12), ("browser", 15), ("terminal", 18)]);

    let plan = plan_of(&recipe, &observed(), &ids, 10, false);
    assert!(matches!(
        plan.actions.as_slice(),
        [Action::ConsumeLeft { window_id: 18, target_column: 2, .. }]
    ));
}

#[test]
fn windows_are_brought_to_the_workspace_first() {
    let mut r = recipe(vec![spec("a", 1), spec("b", 2)]);
    r.windows[1].layout.floating = true;
    let mut away = window(1, 1, 1);
    away.workspace_id = Some(3);
    let observed = state(vec![away, window(2, 2, 1)]);
    let plan = plan_of(&r, &observed, &ids_of(&[("a", 1), ("b", 2)]), 7, true);
    assert_eq!(
        plan.actions,
        vec![Action::MoveToWorkspace { name: "a".into(), window_id: 1, from: Some(3), to: 7 }]
    );
}

#[test]
fn floating_is_set_before_columns() {
    let mut r = recipe(vec![spec("a", 1), spec("b", 2)]);
    r.windows[1].layout.floating = true;
    let observed = state(vec![window(1, 4, 1), window(2, 2, 1)]);
    let plan = plan_of(&r, &observed, &ids_of(&[("a", 1), ("b", 2)]), 7, false);
    assert_eq!(
        plan.actions,
        vec![Action::SetFloating { name: "b".into(), window_id: 2, floating: true }]
    );
}

#[test]
fn columns_follow_the_recipe_and_sizes_and_focus_come_last() {
    let mut r = recipe(vec![spec("a", 1), spec("b", 2)]);
    let plan = plan_of(
        &r,
        &state(vec![window(1, 2, 1), window(2, 1, 1)]),
        &ids_of(&[("a", 1), ("b", 2)]),
        7,
        false,
    );
    assert_eq!(
        plan.actions,
        vec![Action::MoveColumnToIndex { name: "a".into(), window_id: 1, from: Some(2), to: 1 }]
    );

    r.windows[0].layout.column_width = Some(Size::Pixels(500));
    r.windows[1].layout.window_height = Some(Size::Pixels(500));
    let placed = state(vec![window(1, 1, 1), window(2, 2, 1)]);
    assert_eq!(
        plan_of(&r, &placed, &ids_of(&[("a", 1), ("b", 2)]), 7, false).actions,
        vec![Action::SetColumnWidth {
            name: "a".into(),
            window_id: 1,
            column: 1,
            size: Size::Pixels(500)
        }]
    );

    r.windows[0].layout.column_width = Some(Size::Pixels(958));
    assert_eq!(
        plan_of(&r, &placed, &ids_of(&[("a", 1), ("b", 2)]), 7, false).actions,
        vec![Action::SetWindowHeight { name: "b".into(), window_id: 2, size: Size::Pixels(500) }]
    );

    r.windows[1].layout.window_height = None;
    r.focus = Some("b".into());
    assert_eq!(
        plan_of(&r, &placed, &ids_of(&[("a", 1), ("b", 2)]), 7, false).actions,
        vec![Action::Focus { name: "b".into(), window_id: 2 }]
    );
}

#[test]
fn a_window_in_the_wrong_column_is_expelled() {
    let mut r = recipe(vec![spec("a", 1), spec("b", 2)]);
    r.focus = None;
    let observed = state(vec![window(1, 1, 1), window(2, 1, 2)]);
    let plan = plan_of(&r, &observed, &ids_of(&[("a", 1), ("b", 2)]), 7, false);
    assert!(matches!(plan.actions.as_slice(), [Action::ExpelRight { .. }]), "{:?}", plan.actions);
}

#[test]
fn names_are_walked_in_order() {
    let ids = ids_of(&[("zeta", 1), ("Alpha", 2), ("beta", 3), ("zeta", 4)]);
    assert_eq!(ids.len(), 3);
    assert_eq!(ids.name_at(0), "Alpha");
    assert_eq!(ids.name_at(1), "beta");
    assert_eq!(ids.name_at(2), "zeta");
    assert_eq!(ids.get("zeta"), Some(&4));
    assert_eq!(ids.get("eta"), None);
    let mut ids = ids;
    ids.remove("beta");
    assert!(!ids.contains("beta"));
    assert_eq!(*ids.value_at(1), 4);
}
