use std::collections::HashSet;

use niri_workbench::apps::{
    desktop_exec_command, parse_desktop_entry, resolve_installed_app_from, InstalledApp,
};
use niri_workbench::capture::{capture_inclusion, capture_title_match, capture_workspace, CaptureDraft};
use niri_workbench::capture_form::review_capture;
use niri_workbench::config::validate_config;
use niri_workbench::editing::{
    move_window_to_new_column, move_window_to_window, remove_window, set_column_display,
    set_window_floating,
};
use niri_workbench::i18n::Language;
use niri_workbench::icons::exact_match_app_id;
use niri_workbench::launch::{
    decode_process_command_line, infer_command, is_kitty_window, is_terminal_window, ProcessFacts,
    Programs,
};
use niri_workbench::model::{
    ColumnDisplay, Config, MatchSpec, ObservedState, OutputFallback, PlacementSpec, Recipe,
    ReusePolicy, RuntimeWindow, RuntimeWorkspace, Size, WindowSpec,
};
use niri_workbench::names::NameMap;
use niri_workbench::planner::{build_reconcile_plan, TileFit};
use niri_workbench::resolve::{
    recipe_status, resolve_existing, ExistingResolution, RecipeStatus,
};
use niri_workbench::saving::{apply_capture_selection, upsert_captured_recipe};

fn facts(window: &RuntimeWindow) -> ProcessFacts {
    ProcessFacts {
        args: Vec::new(),
        exe_canonical: window.process_exe.clone(),
        exe_exists: false,
        cwd_canonical: window.cwd.clone(),
        cwd_root: None,
        profile: None,
        url: None,
    }
}

fn programs() -> Programs {
    Programs {
        home: None,
        flatpak: false,
        google_chrome_stable: false,
        google_chrome: false,
        chromium: false,
        firefox: false,
    }
}

fn capture(state: &ObservedState, workspace: Option<u64>) -> CaptureDraft {
    let known: Vec<ProcessFacts> = state.windows.iter().map(facts).collect();
    capture_workspace(state, &known, &Vec::new(), &programs(), workspace, None).unwrap()
}

fn included(window: &RuntimeWindow, root: Option<&str>) -> bool {
    capture_inclusion(window, &facts(window), &root.map(str::to_owned)).0
}

fn status(recipe: &Recipe, state: &ObservedState) -> RecipeStatus {
    let fit = TileFit { width: true, height: true };
    let fits = vec![vec![fit; state.windows.len()]; recipe.windows.len()];
    recipe_status(recipe, Some(state), &fits)
}

fn one_window_focus_recipe() -> Recipe {
    Recipe {
        name: Some("focus-test".to_owned()),
        workspace: "Dev".to_owned(),
        output: None,
        output_fallback: OutputFallback::Focused,
        focus: Some("editor".to_owned()),
        spawn_timeout_ms: 10_000,
        windows: vec![window("editor", 1)],
    }
}

fn one_window_focus_state(focused_app_id: &str, focused_id: u64) -> ObservedState {
    ObservedState {
        windows: vec![
            RuntimeWindow {
                id: 1,
                title: Some("editor".into()),
                app_id: Some("editor".into()),
                pid: None,
                process_exe: None,
                cwd: None,
                workspace_id: Some(1),
                is_focused: focused_id == 1,
                is_floating: false,
                column: Some(1),
                tile_index: Some(1),
                tile_width: 800.0f64.to_bits(),
                tile_height: 600.0f64.to_bits(),
            },
            RuntimeWindow {
                id: focused_id,
                title: Some("other".into()),
                app_id: Some(focused_app_id.into()),
                pid: None,
                process_exe: None,
                cwd: None,
                workspace_id: Some(1),
                is_focused: true,
                is_floating: true,
                column: None,
                tile_index: None,
                tile_width: 500.0f64.to_bits(),
                tile_height: 400.0f64.to_bits(),
            },
        ],
        workspaces: vec![RuntimeWorkspace {
            id: 1,
            index: 1,
            name: Some("Dev".into()),
            output: None,
            is_active: true,
            is_focused: true,
        }],
        outputs: Vec::new(),
    }
}

#[test]
fn ui_focus_does_not_make_an_otherwise_converged_recipe_look_broken() {
    let recipe = one_window_focus_recipe();
    let state = one_window_focus_state("dev.t1ktak.NiriWorkbench", 99);
    assert_eq!(status(&recipe, &state), RecipeStatus::Ready);
}

#[test]
fn non_ui_focus_drift_is_still_reported() {
    let recipe = one_window_focus_recipe();
    let state = one_window_focus_state("unrelated-app", 99);
    assert_eq!(status(&recipe, &state), RecipeStatus::LayoutChanged);
}

#[test]
fn parses_flatpak_desktop_entry_for_real_window_identity() {
    let desktop = r#"
[Desktop Entry]
Type=Application
Name=Google Chrome
Exec=/usr/bin/flatpak run --branch=stable --arch=x86_64 --command=/app/bin/chrome --file-forwarding com.google.Chrome @@u %U @@
Icon=com.google.Chrome
StartupWMClass=google-chrome
X-Flatpak=com.google.Chrome
"#;

    let app = parse_desktop_entry("com.google.Chrome", desktop).unwrap();
    assert_eq!(app.name, "Google Chrome");
    assert_eq!(app.icon.as_deref(), Some("com.google.Chrome"));
    assert_eq!(app.startup_wm_class.as_deref(), Some("google-chrome"));
    assert_eq!(app.flatpak_id.as_deref(), Some("com.google.Chrome"));
    assert_eq!(app.command, vec!["flatpak", "run", "com.google.Chrome"]);
}

#[test]
fn installed_app_resolver_matches_startup_wm_class() {
    let apps = vec![InstalledApp {
        desktop_id: "com.google.Chrome".to_owned(),
        name: "Google Chrome".to_owned(),
        icon: Some("com.google.Chrome".to_owned()),
        startup_wm_class: Some("google-chrome".to_owned()),
        flatpak_id: Some("com.google.Chrome".to_owned()),
        command: vec!["flatpak".to_owned(), "run".to_owned(), "com.google.Chrome".to_owned()],
    }];

    let resolved = resolve_installed_app_from(&apps, "google-chrome").unwrap();
    assert_eq!(resolved.desktop_id, "com.google.Chrome");
}

#[test]
fn desktop_exec_drops_field_codes() {
    assert_eq!(
        desktop_exec_command("code --new-window %F").unwrap(),
        vec!["code", "--new-window"]
    );
    assert_eq!(
        desktop_exec_command("kitty --directory /tmp").unwrap(),
        vec!["kitty", "--directory", "/tmp"]
    );
}

fn runtime_window(app_id: Option<&str>, title: &str) -> RuntimeWindow {
    RuntimeWindow {
        id: 7,
        title: Some(title.to_owned()),
        app_id: app_id.map(str::to_owned),
        pid: None,
        process_exe: None,
        cwd: None,
        workspace_id: Some(1),
        is_focused: false,
        is_floating: false,
        column: Some(1),
        tile_index: Some(1),
        tile_width: 800.0f64.to_bits(),
        tile_height: 600.0f64.to_bits(),
    }
}

#[test]
fn singleton_capture_match_does_not_depend_on_window_title() {
    let window = runtime_window(Some("code"), "project-a — Visual Studio Code");
    assert_eq!(capture_title_match(&window, false), None);
}

#[test]
fn duplicate_app_capture_uses_title_to_disambiguate_windows() {
    let window = runtime_window(Some("google-chrome"), "docs.rs - Google Chrome");
    assert_eq!(
        capture_title_match(&window, true).as_deref(),
        Some("^docs\\.rs \\- Google Chrome$")
    );
}

#[test]
fn title_is_used_when_window_has_no_app_id() {
    let window = runtime_window(None, "Untyped window");
    assert_eq!(capture_title_match(&window, false).as_deref(), Some("^Untyped window$"));
}

fn workspace(id: u64, name: &str, output: Option<&str>, focused: bool) -> RuntimeWorkspace {
    RuntimeWorkspace {
        id,
        index: id as u8,
        name: Some(name.into()),
        output: output.map(str::to_owned),
        is_active: focused,
        is_focused: focused,
    }
}

#[test]
fn capture_records_observed_sizes_in_logical_pixels() {
    let mut state = ObservedState::default();
    state.workspaces.push(workspace(1, "Dev", Some("eDP-1"), true));
    let mut window = runtime_window(Some("code"), "project");
    window.tile_width = 827.4f64.to_bits();
    window.tile_height = 1030.0f64.to_bits();
    state.windows.push(window);

    let captured = capture(&state, None);
    assert_eq!(captured.recipe.windows[0].layout.column_width, Some(Size::Pixels(827)));
    assert_eq!(captured.recipe.windows[0].layout.window_height, None);
}

#[test]
fn app_on_another_workspace_still_forces_disambiguating_title() {
    let mut state = ObservedState::default();
    state.workspaces.push(workspace(1, "Dev", None, true));
    state.workspaces.push(workspace(2, "Other", None, false));
    let mut docs = runtime_window(Some("google-chrome"), "Docs - Google Chrome");
    docs.id = 1;
    docs.workspace_id = Some(1);
    let mut chat = runtime_window(Some("google-chrome"), "Chat - Google Chrome");
    chat.id = 2;
    chat.workspace_id = Some(2);
    state.windows = vec![docs, chat];

    let captured = capture(&state, Some(1));
    assert_eq!(captured.recipe.windows.len(), 1);
    assert_eq!(
        captured.recipe.windows[0].match_spec.title.as_deref(),
        Some(r"^Docs \- Google Chrome$")
    );
}

#[test]
fn duplicate_app_capture_prefers_unique_cwd_over_title() {
    let mut state = ObservedState::default();
    state.workspaces.push(workspace(1, "Dev", None, true));
    let mut left = runtime_window(Some("kitty"), "changing title a");
    left.id = 1;
    left.cwd = Some("/home/user/project-a".into());
    left.column = Some(1);
    let mut right = runtime_window(Some("kitty"), "changing title b");
    right.id = 2;
    right.cwd = Some("/home/user/project-b".into());
    right.column = Some(2);
    state.windows = vec![left, right];

    let captured = capture(&state, None);
    assert_eq!(captured.recipe.windows[0].match_spec.title, None);
    assert_eq!(
        captured.recipe.windows[0].match_spec.cwd.as_deref(),
        Some(r"^/home/user/project\-a$")
    );
    assert_eq!(captured.recipe.windows[1].match_spec.title, None);
    assert_eq!(
        captured.recipe.windows[1].match_spec.cwd.as_deref(),
        Some(r"^/home/user/project\-b$")
    );
}

#[test]
fn capture_upsert_replaces_duplicate_cards() {
    let mut config = Config { workbench: NameMap::new() };
    let original = recipe();
    config.workbench.insert("test".into(), original.clone());
    config.workbench.insert("test-2".into(), original.clone());
    let mut replacement = original.clone();
    replacement.windows.pop();

    let (key, replaced) = upsert_captured_recipe(&mut config, replacement.clone());
    assert_eq!(key, "test");
    assert_eq!(replaced, 2);
    assert_eq!(config.workbench.len(), 1);
    assert_eq!(config.workbench.get("test"), Some(&replacement));
}

#[test]
fn custom_kitty_class_recreates_class_title_and_cwd() {
    let mut window = runtime_window(Some("nwb-project-terminal"), "project terminal");
    window.process_exe = Some("/usr/bin/kitty".into());
    window.cwd = Some("/home/user/project".into());
    let command = infer_command(&window, &facts(&window), &[], &programs());
    assert_eq!(
        command,
        vec![
            "kitty".to_owned(),
            "--class".to_owned(),
            "nwb-project-terminal".to_owned(),
            "--title".to_owned(),
            "project terminal".to_owned(),
            "--directory".to_owned(),
            "/home/user/project".to_owned(),
        ]
    );
}

#[test]
fn terminal_detection_uses_process_executable_for_custom_classes() {
    let mut window = runtime_window(Some("project-shell"), "shell");
    window.process_exe = Some("/usr/bin/kitty".into());
    assert!(is_terminal_window(&window));
    assert!(is_kitty_window(&window));
}

#[test]
fn electron_style_single_string_cmdline_is_split() {
    assert_eq!(
        decode_process_command_line(b"/usr/share/code/code --new-window /home/user/project\0"),
        vec![
            "/usr/share/code/code".to_owned(),
            "--new-window".to_owned(),
            "/home/user/project".to_owned(),
        ]
    );
    assert_eq!(
        decode_process_command_line(b"code\0--new-window\0/home/user/project\0"),
        vec!["code".to_owned(), "--new-window".to_owned(), "/home/user/project".to_owned(),]
    );
}

#[test]
fn capture_selection_removes_windows_and_compacts_columns() {
    let mut recipe = recipe();
    recipe.windows[0].layout.column = 1;
    recipe.windows[1].layout.column = 3;
    recipe.windows[2].layout.column = 4;
    recipe.focus = Some("editor".into());

    apply_capture_selection(&mut recipe, &[true, false, true]).unwrap();
    assert_eq!(recipe.windows.len(), 2);
    assert_eq!(recipe.windows[0].layout.column, 1);
    assert_eq!(recipe.windows[1].layout.column, 2);
    assert_eq!(recipe.focus.as_deref(), Some("editor"));
}

#[test]
fn unrelated_non_project_app_is_excluded_when_project_is_known() {
    let root = "/home/user/project";
    let mut system_app = runtime_window(Some("org.pulseaudio.pavucontrol"), "Volume Control");
    system_app.cwd = Some("/home/user/project".into());
    system_app.process_exe = Some("/usr/bin/pavucontrol".into());
    assert!(!included(&system_app, Some(root)));
}

#[test]
fn project_local_executable_is_included() {
    let root = "/home/user/project";
    let mut app = runtime_window(Some("project-preview"), "Project preview");
    app.cwd = Some("/home/user/project".into());
    app.process_exe = Some("/home/user/project/target/debug/project-preview".into());
    assert!(included(&app, Some(root)));
}

#[test]
fn browser_is_kept_as_reviewable_project_companion() {
    let root = "/home/user/project";
    let mut browser = runtime_window(Some("google-chrome"), "Docs - Google Chrome");
    browser.cwd = Some("/home/user".into());
    assert!(included(&browser, Some(root)));
}

#[test]
fn generic_workspace_without_project_root_keeps_windows() {
    let mut steam = runtime_window(Some("steam"), "Steam");
    steam.cwd = Some("/home/user".into());
    assert!(included(&steam, None));
}

#[test]
fn project_terminal_is_included_but_unrelated_terminal_is_not() {
    let root = "/home/user/project";
    let mut project = runtime_window(Some("kitty"), "project shell");
    project.cwd = Some("/home/user/project".into());
    let mut unrelated = runtime_window(Some("Alacritty"), "other shell");
    unrelated.cwd = Some("/tmp/other".into());

    assert!(included(&project, Some(root)));
    assert!(!included(&unrelated, Some(root)));
}

#[test]
fn exact_match_app_id_unescapes_capture_regex() {
    let spec = WindowSpec {
        name: "chrome".to_owned(),
        command: Vec::new(),
        match_spec: MatchSpec {
            app_id: Some("^google\\-chrome$".to_owned()),
            ..MatchSpec::default()
        },
        reuse: ReusePolicy::Unique,
        layout: PlacementSpec::default(),
    };
    assert_eq!(exact_match_app_id(&spec).as_deref(), Some("google-chrome"));
}

fn window(name: &str, column: usize) -> WindowSpec {
    WindowSpec {
        name: name.to_owned(),
        command: vec!["true".to_owned()],
        match_spec: MatchSpec { app_id: Some(format!("^{name}$")), ..MatchSpec::default() },
        reuse: ReusePolicy::Unique,
        layout: PlacementSpec { column, ..PlacementSpec::default() },
    }
}

fn recipe() -> Recipe {
    Recipe {
        name: Some("test".to_owned()),
        workspace: "Dev".to_owned(),
        output: None,
        output_fallback: OutputFallback::Focused,
        focus: Some("editor".to_owned()),
        spawn_timeout_ms: 10_000,
        windows: vec![window("editor", 1), window("terminal", 2), window("browser", 2)],
    }
}

#[test]
fn moving_window_onto_another_window_moves_it_to_that_column() {
    let mut recipe = recipe();
    assert!(move_window_to_window(&mut recipe, "editor", "terminal", true));

    let editor = recipe.windows.iter().find(|window| window.name == "editor").unwrap();
    let terminal = recipe.windows.iter().find(|window| window.name == "terminal").unwrap();

    assert_eq!(editor.layout.column, terminal.layout.column);
    assert!(!editor.layout.floating);
    assert_eq!(
        recipe.windows.iter().map(|window| window.name.as_str()).collect::<Vec<_>>(),
        vec!["terminal", "editor", "browser"]
    );
}

#[test]
fn new_column_places_window_after_existing_tiled_columns() {
    let mut recipe = recipe();
    assert!(move_window_to_new_column(&mut recipe, "terminal"));

    let terminal = recipe.windows.iter().find(|window| window.name == "terminal").unwrap();
    assert_eq!(terminal.layout.column, 3);
    assert!(!terminal.layout.floating);
}

#[test]
fn floating_clears_tiling_only_properties() {
    let mut recipe = recipe();
    let terminal =
        recipe.windows.iter_mut().find(|window| window.name == "terminal").unwrap();
    terminal.layout.column_width = Some(Size::Percent(0.4f64.to_bits()));
    terminal.layout.window_height = Some(Size::Percent(0.5f64.to_bits()));
    terminal.layout.display = Some(ColumnDisplay::Tabbed);

    assert!(set_window_floating(&mut recipe, "terminal", true));
    let terminal = recipe.windows.iter().find(|window| window.name == "terminal").unwrap();

    assert!(terminal.layout.floating);
    assert_eq!(terminal.layout.column_width, None);
    assert_eq!(terminal.layout.window_height, None);
    assert_eq!(terminal.layout.display, None);
}

#[test]
fn removing_focused_window_clears_focus_and_selects_neighbor() {
    let mut recipe = recipe();
    let next = remove_window(&mut recipe, "editor");

    assert_eq!(recipe.focus, None);
    assert_eq!(next.as_deref(), Some("terminal"));
    assert!(recipe.windows.iter().all(|window| window.name != "editor"));
    assert_eq!(
        recipe
            .windows
            .iter()
            .filter(|window| !window.layout.floating)
            .map(|window| window.layout.column)
            .collect::<HashSet<_>>(),
        HashSet::from([1])
    );
}

#[test]
fn tabbed_mode_applies_to_entire_tiled_column_only() {
    let mut recipe = recipe();
    recipe.windows.push(WindowSpec {
        name: "floating".to_owned(),
        command: Vec::new(),
        match_spec: MatchSpec::default(),
        reuse: ReusePolicy::Unique,
        layout: PlacementSpec { column: 2, floating: true, ..PlacementSpec::default() },
    });

    set_column_display(&mut recipe, 2, Some(ColumnDisplay::Tabbed));

    for window in &recipe.windows {
        if window.layout.column == 2 && !window.layout.floating {
            assert_eq!(window.layout.display, Some(ColumnDisplay::Tabbed));
        }
    }
    assert_eq!(
        recipe.windows.iter().find(|window| window.name == "floating").unwrap().layout.display,
        None
    );
}

#[test]
fn a_reviewed_selection_is_accepted() {
    let mut state = ObservedState::default();
    state.workspaces.push(workspace(1, "Dev", Some("eDP-1"), true));
    for (id, app, column) in [(1, "code", 1), (2, "kitty", 3), (3, "kitty", 3), (4, "mail", 5)] {
        let mut w = runtime_window(Some(app), &format!("title {id}"));
        w.id = id;
        w.column = Some(column);
        w.tile_index = Some(id as usize);
        w.is_focused = id == 4;
        state.windows.push(w);
    }
    let captured = capture(&state, None).recipe;
    let lines = vec![String::new(), "kitty -e fish".to_owned(), String::new(), String::new()];
    let mut kept = review_capture(&captured, " Work ", &lines, "", Language::En).unwrap();
    apply_capture_selection(&mut kept, &[false, true, true, false]).unwrap();
    assert_eq!(kept.focus, None);
    assert_eq!(kept.windows[0].layout.column, 1);
    assert_eq!(kept.windows[1].layout.column, 1);
    assert_eq!(kept.windows[0].layout.column_width, Some(Size::Pixels(800)));
    assert_eq!(kept.windows[1].layout.column_width, None);

    let mut config = Config { workbench: NameMap::new() };
    assert_eq!(upsert_captured_recipe(&mut config, kept).0, "work");
    assert!(validate_config(&config).is_ok());
}

#[test]
fn a_window_without_a_trace_cannot_be_kept() {
    let mut state = ObservedState::default();
    state.workspaces.push(workspace(1, "Dev", None, true));
    state.windows.push(runtime_window(None, "  "));
    let mut config = Config { workbench: NameMap::new() };
    upsert_captured_recipe(&mut config, capture(&state, None).recipe);
    assert_eq!(
        validate_config(&config).unwrap_err().text(),
        "workbench.dev.windows[0].match: at least one matcher is required"
    );
}

#[test]
fn captured_windows_are_found_again() {
    let mut state = ObservedState::default();
    state.workspaces.push(workspace(1, "Dev", None, true));
    let shown = [
        (1, Some("google-chrome"), "docs.rs (new)", 2),
        (2, Some("google-chrome"), "Chat", 1),
        (3, Some("code"), "a+b", 3),
        (4, Some("dev.t1ktak.NiriWorkbench"), "Workbench", 4),
        (5, None, "Untyped [1]", 5),
    ];
    for (id, app, title, column) in shown {
        let mut w = runtime_window(app, title);
        w.id = id;
        w.column = Some(column);
        state.windows.push(w);
    }
    let recipe = capture(&state, None).recipe;
    let names: Vec<&str> = recipe.windows.iter().map(|w| w.name.as_str()).collect();
    assert_eq!(names, ["google-chrome", "google-chrome-2", "code", "untyped-1"]);

    let found = resolve_existing(&recipe, &state).unwrap();
    for (name, id) in [("google-chrome", 2), ("google-chrome-2", 1), ("code", 3), ("untyped-1", 5)] {
        assert_eq!(found.by_name.get(name), Some(&ExistingResolution::Reuse(id)));
    }

    state.windows[4].title = Some(" Untyped [1] ".to_owned());
    let recipe = capture(&state, None).recipe;
    assert!(resolve_existing(&recipe, &state).is_err());
}

#[test]
fn terminals_are_found_again_by_their_directory() {
    let mut state = ObservedState::default();
    state.workspaces.push(workspace(1, "Dev", None, true));
    for (id, cwd) in [(1, "/a"), (2, "/b")] {
        let mut w = runtime_window(Some("kitty"), "shell");
        w.id = id;
        w.cwd = Some(cwd.to_owned());
        w.column = Some(id as usize);
        state.windows.push(w);
    }
    let mut recipe = capture(&state, None).recipe;
    let found = resolve_existing(&recipe, &state).unwrap();
    assert_eq!(found.by_name.get("kitty"), Some(&ExistingResolution::Reuse(1)));
    assert_eq!(found.by_name.get("kitty-2"), Some(&ExistingResolution::Reuse(2)));

    apply_capture_selection(&mut recipe, &[true, false]).unwrap();
    recipe.windows[0].command = vec!["kitty".to_owned()];
    state.windows.remove(0);
    let found = resolve_existing(&recipe, &state).unwrap();
    assert_eq!(found.by_name.get("kitty"), Some(&ExistingResolution::Spawn));
}

#[test]
fn a_fresh_capture_changes_nothing() {
    let mut state = ObservedState::default();
    state.workspaces.push(workspace(1, "Dev", None, true));
    let shown = [
        (1, "code", Some(1), Some(1), false),
        (2, "kitty", Some(2), Some(2), true),
        (3, "browser", Some(2), Some(1), false),
        (4, "mail", Some(3), Some(1), false),
        (5, "calculator", None, None, false),
    ];
    for (id, app, column, tile, focused) in shown {
        let mut w = runtime_window(Some(app), app);
        w.id = id;
        w.column = column;
        w.tile_index = tile;
        w.is_floating = column.is_none();
        w.is_focused = focused;
        state.windows.push(w);
    }
    let recipe = capture(&state, None).recipe;
    let found = resolve_existing(&recipe, &state).unwrap();
    assert_eq!(found.ids.len(), 5);
    let fit = TileFit { width: true, height: true };
    let fits = vec![vec![fit; 5]; 5];
    let plan = build_reconcile_plan(&recipe, &state, &found.ids, 1, &fits, false);
    assert!(plan.is_noop(), "{plan:?}");
    assert_eq!(status(&recipe, &state), RecipeStatus::Ready);
}
