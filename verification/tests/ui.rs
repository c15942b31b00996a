use niri_workbench::apps::InstalledApp;
use niri_workbench::canvas::{
    canvas_division, column_share, divide, floating_windows, preview_division, row_share,
    tiled_columns,
};
use niri_workbench::desktop::{
    adjust_own_window, choose_socket, desktop_application_dirs, ensure_own_window_size,
    no_socket_text, run_cli, shape_own_window, OwnCommand, OwnStep, RuntimeFile,
};
use niri_workbench::i18n::{tr, Language};
use niri_workbench::icons::icon_name;
use niri_workbench::interface::{
    capture_behavior_text, cli_error_summary, done_text, failure_text, focused_workspace_text,
    friendly_window_name, launch_failure_text, library_count, library_detail, outputs_text,
    pending_text, quick_launch_action, quick_summary, say, selected_label, status_dot,
    status_label, window_names, HomeFilter,
};
use niri_workbench::model::{
    MatchSpec, ObservedState, OutputFallback, OutputInfo, PlacementSpec, Recipe, ReusePolicy,
    RuntimeWindow, RuntimeWorkspace, Size, WindowSpec,
};
use niri_workbench::picker::{
    app_source, append_editor_window, installed_app_window_spec, installed_candidates,
    new_candidates, same_window_match,
};
use niri_workbench::planner::TileFit;
use niri_workbench::quick::{
    app_haystack, enter_hint, home_haystack, matches_query, move_quick_selection, quick_haystack,
    set_quick_selection, take_row,
};
use niri_workbench::resolve::RecipeStatus;
use niri_workbench::settings::{
    config_dir, config_path, load_language, save_language, settings_path,
};

fn spec(name: &str, app_id: &str) -> WindowSpec {
    WindowSpec {
        name: name.to_owned(),
        command: vec!["true".to_owned()],
        match_spec: MatchSpec { app_id: Some(app_id.to_owned()), ..MatchSpec::default() },
        reuse: ReusePolicy::Unique,
        layout: PlacementSpec::default(),
    }
}

fn recipe() -> Recipe {
    let mut notes = spec("notes", "^obsidian$");
    notes.layout.column = 2;
    Recipe {
        name: None,
        workspace: "Dev".to_owned(),
        output: None,
        output_fallback: OutputFallback::Focused,
        focus: None,
        spawn_timeout_ms: 1,
        windows: vec![spec("editor", "^code$"), notes],
    }
}

fn app() -> InstalledApp {
    InstalledApp {
        desktop_id: "com.google.Chrome".to_owned(),
        name: "Google Chrome".to_owned(),
        icon: Some("chrome-icon".to_owned()),
        startup_wm_class: Some("google-chrome".to_owned()),
        flatpak_id: Some("com.google.Chrome".to_owned()),
        command: vec!["flatpak".to_owned(), "run".to_owned(), "com.google.Chrome".to_owned()],
    }
}

#[test]
fn languages_have_codes() {
    assert_eq!(Language::En.code(), "en");
    assert_eq!(Language::Ru.code(), "ru");
    assert_eq!(Language::from_code("ru_RU.UTF-8"), Language::Ru);
    assert_eq!(Language::from_code("RU"), Language::Ru);
    assert_eq!(Language::from_code("rust"), Language::En);
    assert_eq!(Language::from_code(""), Language::En);
    assert_eq!(tr(Language::En, "no such key"), "no such key");
    assert_eq!(tr(Language::Ru, "no such key"), "no such key");
    for key in ["home", "missing_many", "quick_hint", "refresh"] {
        assert_ne!(tr(Language::En, key), key);
        assert_ne!(tr(Language::Ru, key), key);
    }
    assert_ne!(tr(Language::En, "ready"), tr(Language::Ru, "ready"));
    assert_ne!(tr(Language::En, "ready"), "ready_");
    assert_eq!(say(Language::Ru, "да", "yes"), "да");
}

#[test]
fn settings_are_kept_beside_the_config() {
    let home = Some("/home/u".to_owned());
    assert_eq!(config_dir(&None, &home), "/home/u/.config/niri-workbench");
    assert_eq!(config_path(&Some("/x".to_owned()), &home), "/x/niri-workbench/config.toml");
    assert_eq!(config_path(&None, &None), "./.config/niri-workbench/config.toml");
    assert!(settings_path(&None, &home).starts_with("/home/u/.config/niri-workbench/"));
    let stored = save_language(Language::Ru);
    let table: toml::Table = toml::from_str(&stored).unwrap();
    assert_eq!(table.get("language").and_then(|v| v.as_str()), Some("ru"));
    assert_eq!(load_language(&Some("ru".to_owned()), &None), Language::Ru);
    assert_eq!(load_language(&None, &Some("ru_RU".to_owned())), Language::Ru);
    assert_eq!(load_language(&Some("en".to_owned()), &Some("ru_RU".to_owned())), Language::En);
    assert_eq!(load_language(&None, &None), Language::En);
}

#[test]
fn statuses_are_told_to_people() {
    let all = [
        RecipeStatus::Ready,
        RecipeStatus::Missing(2),
        RecipeStatus::LayoutChanged,
        RecipeStatus::Ambiguous,
        RecipeStatus::Offline,
    ];
    let actions: Vec<Option<&str>> = all.iter().map(quick_launch_action).collect();
    assert_eq!(actions, vec![Some("open"), Some("open"), Some("repair"), None, None]);
    let dots: Vec<&str> = all.iter().map(status_dot).collect();
    assert_eq!(dots, vec!["dot-ready", "dot-warning", "dot-warning", "dot-error", "dot-error"]);
    assert_eq!(status_label(Language::En, &all[0]).1, "status-ready");
    assert_eq!(
        status_label(Language::En, &all[1]).0,
        format!("2 {}", tr(Language::En, "missing_many"))
    );
    let shown = |f: HomeFilter| all.iter().filter(|s| f.matches(s)).count();
    assert_eq!(
        (shown(HomeFilter::All), shown(HomeFilter::Ready), shown(HomeFilter::NeedsAttention)),
        (5, 1, 4)
    );
    assert_eq!(
        quick_summary(Language::En, &recipe(), &RecipeStatus::Missing(1)),
        "Will reuse 1 app, launch 1, workspace: Dev."
    );
    assert_eq!(
        quick_summary(Language::En, &recipe(), &RecipeStatus::Ready),
        "Will reuse 2 apps, launch 0, workspace: Dev."
    );
    assert_eq!(
        quick_summary(Language::En, &recipe(), &RecipeStatus::Missing(5)),
        "Will reuse 0 apps, launch 5, workspace: Dev."
    );
    assert_eq!(enter_hint(Language::En, &RecipeStatus::Offline), "Enter · Unavailable");
    assert_eq!(take_row(Language::En, &RecipeStatus::LayoutChanged, false), Ok("repair"));
    assert_eq!(take_row(Language::En, &RecipeStatus::Ready, true), Ok("repair"));
    assert!(take_row(Language::En, &RecipeStatus::Ambiguous, false).is_err());
}

#[test]
fn windows_have_names_for_people() {
    assert_eq!(friendly_window_name(&spec("x", "^Code$")), "VS Code");
    assert_eq!(friendly_window_name(&spec("x", "^mpv$")), "x");
    assert_eq!(window_names(&recipe(), " + "), "VS Code + notes");
    assert_eq!(capture_behavior_text(&spec("x", "^code$"), Language::En), "Reopen this project");
    let mut chrome = spec("x", "^google-chrome$");
    assert_eq!(capture_behavior_text(&chrome, Language::En), "Open Chrome");
    chrome.command.push("--profile-directory=Work".to_owned());
    assert_eq!(capture_behavior_text(&chrome, Language::En), "Open the same Chrome profile");
    chrome.command.push("https://docs.rs".to_owned());
    assert_eq!(capture_behavior_text(&chrome, Language::En), "Same profile + active page");
    chrome.command.clear();
    assert_eq!(capture_behavior_text(&chrome, Language::En), "Reuse this window only");
    assert_eq!(selected_label(&spec("x", "^code$")), "x · code");
    assert!(library_count(Language::En, 2).contains('2'));
    assert!(library_detail(Language::En, "dev", &recipe()).contains("dev"));
    assert_ne!(pending_text(Language::En, "open"), pending_text(Language::En, "repair"));
    assert_ne!(done_text(Language::En, "open"), done_text(Language::En, "repair"));
}

#[test]
fn failures_are_cut_short() {
    assert_eq!(cli_error_summary("Error: no socket\n\nCaused by:\n  x \n \n"), "x");
    assert_eq!(cli_error_summary("  "), "");
    assert_eq!(cli_error_summary(&"é".repeat(200)), "é".repeat(180));
    assert!(failure_text(Language::En, "Error: no socket").contains("no socket"));
    assert!(launch_failure_text(Language::En, "no cli").contains("no cli"));
}

fn state() -> ObservedState {
    ObservedState {
        windows: vec![RuntimeWindow {
            id: 4,
            title: None,
            app_id: None,
            pid: Some(77),
            process_exe: None,
            cwd: None,
            workspace_id: Some(3),
            is_focused: true,
            is_floating: false,
            column: Some(1),
            tile_index: Some(1),
            tile_width: 0,
            tile_height: 0,
        }],
        workspaces: vec![RuntimeWorkspace {
            id: 3,
            index: 1,
            name: Some("Dev".to_owned()),
            output: Some("eDP-1".to_owned()),
            is_active: true,
            is_focused: true,
        }],
        outputs: vec![
            OutputInfo { name: "eDP-1".to_owned(), width: Some(9), height: Some(9) },
            OutputInfo { name: "DP-2".to_owned(), width: None, height: None },
        ],
    }
}

#[test]
fn the_session_is_told_to_people() {
    let (name, output) = focused_workspace_text(&state()).unwrap();
    assert_eq!(name, "Dev");
    assert!(output.contains("eDP-1"), "{output}");
    assert_eq!(focused_workspace_text(&ObservedState::default()), None);
    assert!(outputs_text(&state()).contains("eDP-1"));
}

#[test]
fn searches_ignore_case_and_blanks() {
    let hay = quick_haystack("rust", &recipe());
    assert_eq!(hay, "rust dev dev");
    assert_eq!(home_haystack("rust", &recipe()), "rust dev dev vs code notes");
    assert_eq!(
        app_haystack(&app()),
        "google chrome com.google.chrome google-chrome com.google.chrome"
    );
    assert!(matches_query(&hay, " DEV "));
    assert!(matches_query(&hay, "  "));
    assert!(!matches_query(&hay, "go"));
}

#[test]
fn rows_are_chosen_among_those_shown() {
    let visible = vec![false, true, false, true];
    assert_eq!(set_quick_selection(&visible, Some(3)), Some(3));
    assert_eq!(set_quick_selection(&visible, Some(0)), Some(1));
    assert_eq!(set_quick_selection(&vec![false], None), None);
    assert_eq!(move_quick_selection(&visible, Some(3), 1), Some(1));
    assert_eq!(move_quick_selection(&visible, Some(1), -1), Some(3));
    assert_eq!(move_quick_selection(&visible, None, 1), Some(3));
    assert_eq!(move_quick_selection(&vec![], None, 1), None);
}

#[test]
fn apps_are_offered_and_added() {
    let from_app = installed_app_window_spec(&app());
    assert_eq!(from_app.name, "google-chrome");
    assert_eq!(
        from_app.match_spec.app_id.as_deref(),
        Some("^(?:google\\-chrome|com\\.google\\.Chrome)$")
    );
    let mut plain = app();
    plain.startup_wm_class = None;
    plain.flatpak_id = None;
    assert_eq!(
        installed_app_window_spec(&plain).match_spec.app_id.as_deref(),
        Some("^com\\.google\\.Chrome$")
    );
    assert_eq!(app_source(&plain), "com.google.Chrome");
    assert_eq!(app_source(&app()), "Flatpak · com.google.Chrome");

    let mut r = recipe();
    let mut own = app();
    own.desktop_id = "DEV.t1ktak.NiriWorkbench".to_owned();
    let installed = vec![own, app()];
    assert_eq!(installed_candidates(&r.windows, &installed), vec![1]);
    let name = append_editor_window(&mut r, installed_app_window_spec(&app()));
    assert_eq!(name, "google-chrome");
    assert_eq!(r.windows[2].layout.column, 3);
    assert!(installed_candidates(&r.windows, &installed).is_empty());
    let again = append_editor_window(&mut r, installed_app_window_spec(&plain));
    assert_eq!(again, "google-chrome-2");
    assert!(same_window_match(&r.windows[0], &spec("other", "^code$")));
    assert_eq!(
        new_candidates(&r.windows, &vec![spec("a", "^code$"), spec("b", "^mpv$")]),
        vec![1]
    );
}

#[test]
fn canvases_are_divided() {
    let mut r = recipe();
    r.windows.push(spec("third", "^x$"));
    r.windows[2].layout.column_width = Some(Size::Percent(0.25f64.to_bits()));
    let mut float = spec("float", "^y$");
    float.layout.floating = true;
    r.windows.push(float);
    assert_eq!(tiled_columns(&r), vec![vec![0, 2], vec![1]]);
    assert_eq!(floating_windows(&r), vec![3]);
    assert_eq!(column_share(&r, &vec![0, 2]), Some(0.25f64.to_bits()));
    assert_eq!(column_share(&r, &vec![1]), None);
    assert_eq!(row_share(&r.windows[0]), None);
    assert_eq!(divide(canvas_division(), &vec![6, 6]), vec![6, 18]);
    assert_eq!(divide(canvas_division(), &vec![100, 1, 1]), vec![18, 3, 3]);
    assert_eq!(divide(canvas_division(), &vec![0]), vec![24]);
    assert_eq!(divide(preview_division(), &vec![1, 30]), vec![2, 18]);
    assert!(divide(preview_division(), &vec![]).is_empty());
}

#[test]
fn icons_come_from_installed_apps() {
    let installed = vec![app()];
    assert_eq!(icon_name(&spec("x", "^google\\-chrome$"), &installed), "chrome-icon");
    let mut by_command = spec("x", "a|b");
    by_command.command = app().command;
    assert_eq!(icon_name(&by_command, &installed), "chrome-icon");
    assert_eq!(icon_name(&spec("x", "^kitty$"), &[]), "kitty");
    assert_eq!(icon_name(&spec("x", "^mpv$"), &[]), "application-x-executable");
}

#[test]
fn desktop_entries_are_looked_for_in_order() {
    assert_eq!(
        desktop_application_dirs(
            &None,
            &Some("/home/u".to_owned()),
            Some(vec!["/usr/share".to_owned()])
        )[0],
        "/home/u/.local/share/applications"
    );
    let dirs = desktop_application_dirs(
        &Some("/d".to_owned()),
        &None,
        Some(vec!["/usr/share".to_owned()]),
    );
    assert_eq!(dirs[0], "/d/applications");
    assert!(dirs.contains(&"/usr/share/applications".to_owned()), "{dirs:?}");
}

#[test]
fn the_newest_socket_is_used() {
    let file = |name: &str, modified| RuntimeFile { name: name.to_owned(), modified };
    let files = vec![
        file("niri.wayland-1.7.sock", Some(5)),
        file("bus", Some(99)),
        file("niri.wayland-2.8.sock", Some(6)),
        file("niri.wayland-3.9.sock", None),
    ];
    assert_eq!(choose_socket(&files), Some(2));
    assert_eq!(choose_socket(&vec![file("bus", Some(1))]), None);
    assert_eq!(no_socket_text("/run"), "could not find a Niri IPC socket in /run");
}

#[test]
fn the_own_window_is_shaped() {
    let mut s = state();
    assert_eq!(adjust_own_window(&s, 77, true), OwnStep::Float(4));
    assert_eq!(adjust_own_window(&s, 77, false), OwnStep::Leave);
    assert_eq!(adjust_own_window(&s, 1, true), OwnStep::Leave);
    assert!(shape_own_window(&s, 4, 800, 600).is_empty());
    s.windows[0].is_floating = true;
    assert_eq!(adjust_own_window(&s, 77, false), OwnStep::Fit(4));
    assert_eq!(
        shape_own_window(&s, 4, 800, 600),
        vec![
            OwnCommand::SetWidth { id: 4, width: 800 },
            OwnCommand::SetHeight { id: 4, height: 600 },
            OwnCommand::Center { id: 4 },
        ]
    );
    assert_eq!(
        ensure_own_window_size(&s, 4, 800, 600, TileFit { width: true, height: false }),
        vec![OwnCommand::SetHeight { id: 4, height: 600 }]
    );
}

#[test]
fn runs_are_summed_up() {
    let run = run_cli("open", b"done\xff\n", b"", true, "exit status: 0");
    assert!(run.success);
    assert!(run.output.contains("done\u{fffd}"), "{}", run.output);
    let run = run_cli("open", b"", b"Error: x\n", false, "exit status: 1");
    assert!(!run.success);
    assert!(run.output.contains("Error: x"), "{}", run.output);
    let run = run_cli("repair", b"", b"", false, "exit status: 3");
    assert!(run.output.contains("exit status: 3"), "{}", run.output);
}
