use niri_workbench::apps::{
    collect_applications, contains_desktop_field_code, desktop_exec_command, desktop_file_id,
    keep_launch_words, parse_desktop_entry, resolve_installed_app, resolve_installed_app_from,
    DesktopFile, InstalledApp,
};
use niri_workbench::capture::{
    capture_inclusion, capture_workspace, pixel_size, CaptureError,
};
use niri_workbench::launch::{
    accepted_url, choose_profile, choose_words, chrome_profile_directory, chrome_user_data_roots,
    code_project_path, cwd_is_within_project, decode_process_command_line, history_query,
    history_title, infer_chrome_command, infer_command, is_browser_window,
    is_project_editor_window, is_terminal_window, process_binary_name, process_references_project,
    project_markers, project_root_from_cwd, Ancestor, ArgFacts, DataRoot, ProcessFacts, Programs,
};
use niri_workbench::model::{
    Config, ObservedState, OutputFallback, Recipe, RuntimeWindow, RuntimeWorkspace, Size,
};
use niri_workbench::names::NameMap;
use niri_workbench::saving::{apply_capture_selection, recipe_display_name, upsert_captured_recipe};

fn window(app_id: &str, exe: Option<&str>, cwd: Option<&str>) -> RuntimeWindow {
    RuntimeWindow {
        id: 7,
        title: Some("title".to_owned()),
        app_id: Some(app_id.to_owned()),
        pid: Some(1),
        process_exe: exe.map(str::to_owned),
        cwd: cwd.map(str::to_owned),
        workspace_id: Some(1),
        is_focused: false,
        is_floating: false,
        column: Some(1),
        tile_index: Some(1),
        tile_width: 800.0f64.to_bits(),
        tile_height: 600.0f64.to_bits(),
    }
}

fn facts() -> ProcessFacts {
    ProcessFacts {
        args: Vec::new(),
        exe_canonical: None,
        exe_exists: false,
        cwd_canonical: None,
        cwd_root: None,
        profile: None,
        url: None,
    }
}

fn arg(text: &str, is_dir: bool, canonical: Option<&str>) -> ArgFacts {
    ArgFacts { text: text.to_owned(), is_dir, canonical: canonical.map(str::to_owned) }
}

fn programs() -> Programs {
    Programs {
        home: Some("/home/u".to_owned()),
        flatpak: false,
        google_chrome_stable: false,
        google_chrome: false,
        chromium: false,
        firefox: false,
    }
}

fn app(id: &str, name: &str, command: &str) -> InstalledApp {
    InstalledApp {
        desktop_id: id.to_owned(),
        name: name.to_owned(),
        icon: None,
        startup_wm_class: None,
        flatpak_id: None,
        command: vec![command.to_owned()],
    }
}

#[test]
fn windows_are_told_apart_by_app_and_program() {
    assert!(is_terminal_window(&window("foot", None, None)));
    assert!(!is_terminal_window(&window("footage", None, None)));
    assert!(is_terminal_window(&window("x", Some("/usr/bin/WezTerm-gui"), None)));
    assert!(is_browser_window(&window("Brave-browser", None, None)));
    assert!(is_project_editor_window(&window("code", None, None)));
    assert!(!is_project_editor_window(&window("codelite", None, None)));
    assert!(is_project_editor_window(&window("x", Some("/opt/zed"), None)));
    assert_eq!(
        process_binary_name(&window("x", Some("/opt/zed"), None)).as_deref(),
        Some("zed")
    );
}

#[test]
fn projects_are_found_in_arguments_and_directories() {
    let mut f = facts();
    f.args = vec![
        arg("/usr/bin/code", false, None),
        arg("--flag", false, None),
        arg("--new-window", false, None),
        arg("/p", true, Some("/real/p")),
    ];
    let code = window("code", None, Some("/home/u"));
    assert_eq!(code_project_path(&code, &f).as_deref(), Some("/real/p"));
    assert!(process_references_project(&code, &f, "/usr/bin"));
    assert!(process_references_project(&code, &f, "/real"));
    assert!(!process_references_project(&code, &f, "/other"));
    let mut quiet = window("code", None, Some("/home/u"));
    quiet.pid = None;
    assert_eq!(code_project_path(&quiet, &f), None);
    assert!(!process_references_project(&quiet, &f, "/usr/bin"));
    assert!(cwd_is_within_project(&code, &f, "/home"));
    f.cwd_canonical = Some("/mnt".to_owned());
    assert!(!cwd_is_within_project(&code, &f, "/home"));

    let up = |path: &str, marked: bool| Ancestor {
        path: path.to_owned(),
        marked,
        canonical: Some(format!("/real{path}")),
    };
    assert_eq!(
        project_root_from_cwd(&vec![up("/a/b", false), up("/a", true), up("/", true)]).as_deref(),
        Some("/real/a")
    );
    assert_eq!(project_root_from_cwd(&vec![up("/", false)]), None);
    assert_eq!(
        project_markers(),
        vec![".git", "Cargo.toml", "package.json", "pyproject.toml", "go.mod"]
    );
}

#[test]
fn commands_are_inferred_from_the_window() {
    let mut f = facts();
    f.args = vec![arg("code", false, None), arg("/p", true, None)];
    let code = window("code", None, Some("/home/u"));
    assert_eq!(infer_command(&code, &f, &[], &programs()), vec!["code", "--new-window", "/p"]);
    assert_eq!(infer_command(&code, &facts(), &[], &programs()), vec!["code", "--new-window"]);
    let elsewhere = window("code", None, Some("/w"));
    assert_eq!(
        infer_command(&elsewhere, &facts(), &[], &programs()),
        vec!["code", "--new-window", "/w"]
    );

    let mpv = window("mpv", Some("/usr/bin/mpv"), None);
    assert!(infer_command(&mpv, &facts(), &[], &programs()).is_empty());
    let mut there = facts();
    there.exe_exists = true;
    assert_eq!(infer_command(&mpv, &there, &[], &programs()), vec!["/usr/bin/mpv"]);
    let installed = vec![app("mpv", "Mpv", "umpv")];
    assert_eq!(infer_command(&mpv, &there, &installed, &programs()), vec!["umpv"]);

    let mut known = programs();
    known.firefox = true;
    let firefox = window("firefox", None, None);
    assert_eq!(infer_command(&firefox, &facts(), &[], &known), vec!["firefox"]);
    assert!(infer_command(&firefox, &facts(), &[], &programs()).is_empty());
}

#[test]
fn browsers_keep_their_profile_and_page() {
    let mut f = facts();
    f.profile = Some("Work".to_owned());
    f.url = Some("https://docs.rs".to_owned());
    let mut known = programs();
    assert!(infer_chrome_command(&f, None, &known).is_empty());
    known.chromium = true;
    assert_eq!(
        infer_chrome_command(&f, None, &known),
        vec!["chromium", "--new-window", "--profile-directory=Work", "https://docs.rs"]
    );
    known.flatpak = true;
    assert_eq!(
        infer_chrome_command(&facts(), None, &known),
        vec!["flatpak", "run", "com.google.Chrome", "--new-window"]
    );

    let args = vec!["chrome".to_owned(), "--user-data-dir=/d".to_owned(), "--user-data-dir=r".to_owned()];
    assert_eq!(
        chrome_user_data_roots(&args, &Some("/h".to_owned()), &Some("id".to_owned())),
        vec![
            DataRoot { path: "/d".to_owned(), usual: false },
            DataRoot { path: "/h/.var/app/id/config/google-chrome".to_owned(), usual: true },
            DataRoot { path: "/h/.config/google-chrome".to_owned(), usual: true },
            DataRoot { path: "/h/.config/chromium".to_owned(), usual: true },
        ]
    );
    let named = vec!["--profile-directory= ".to_owned(), "--profile-directory=P".to_owned()];
    assert_eq!(choose_profile(&named, Some("x".to_owned())).as_deref(), Some("P"));
    assert_eq!(choose_profile(&vec![], Some(" ".to_owned())), None);
    let json = "{\"profile\": {\"last_used\": \"Profile 2\"}}";
    assert_eq!(chrome_profile_directory(&vec![], Some(json)).as_deref(), Some("Profile 2"));
    assert_eq!(chrome_profile_directory(&vec![], Some("{\"profile\": {}}")), None);
    assert_eq!(chrome_profile_directory(&vec![], Some("not json")), None);
    assert_eq!(chrome_profile_directory(&vec![], None), None);

    assert_eq!(history_title("It's docs - Google Chrome").as_deref(), Some("It's docs"));
    assert_eq!(history_title(" - Chromium"), None);
    assert_eq!(
        history_query("It's"),
        "SELECT url FROM urls WHERE title='It''s' ORDER BY last_visit_time DESC LIMIT 1;"
    );
    assert_eq!(accepted_url(" https://x \n").as_deref(), Some("https://x"));
    assert_eq!(accepted_url("file:///x"), None);
}

#[test]
fn command_lines_are_decoded() {
    assert_eq!(decode_process_command_line(b"a\0\0b c\0"), vec!["a", "b c"]);
    assert_eq!(decode_process_command_line(b"a\xff"), vec!["a\u{fffd}"]);
    assert_eq!(decode_process_command_line(b"a 'b"), vec!["a 'b"]);
    assert!(decode_process_command_line(b"").is_empty());
    assert_eq!(
        choose_words(vec!["a b".to_owned()], Some(vec!["a".to_owned(), "b".to_owned()])),
        vec!["a", "b"]
    );
}

#[test]
fn desktop_entries_are_read() {
    assert!(contains_desktop_field_code("%U"));
    assert!(contains_desktop_field_code("100%"));
    assert!(!contains_desktop_field_code("100%%"));
    assert_eq!(keep_launch_words(&vec!["@@u".to_owned(), "%F".to_owned()]), None);
    assert_eq!(desktop_exec_command("sh -c 'a b' %%"), Some(vec![
        "sh".to_owned(), "-c".to_owned(), "a b".to_owned(), "%%".to_owned()
    ]));
    assert_eq!(desktop_exec_command("sh 'x"), None);
    let entry = "[Other]\nName=No\n[Desktop Entry]\n# c\nType=Application\nName= Foo \nName=Bar\nExec=foo %u\nIcon=\n";
    let found = parse_desktop_entry("foo", entry).unwrap();
    assert_eq!(found.name, "Foo");
    assert_eq!(found.icon, None);
    assert_eq!(found.command, vec!["foo"]);
    assert_eq!(parse_desktop_entry("foo", &format!("{entry}NoDisplay=true\n")), None);
    assert_eq!(parse_desktop_entry("foo", &entry.replace("Application", "Link")), None);
    assert_eq!(desktop_file_id("a.b.desktop").as_deref(), Some("a.b"));
    assert_eq!(desktop_file_id(".desktop"), None);
    let file = |id: &str, name: &str| DesktopFile {
        id: id.to_owned(),
        contents: Some(format!("[Desktop Entry]\nType=Application\nName={name}\nExec=x\n")),
    };
    let names: Vec<String> = collect_applications(&vec![
        file("b", "beta"),
        DesktopFile { id: "c".to_owned(), contents: None },
        file("c", "hidden behind an unreadable file"),
        file("a", "Alpha"),
        file("b", "second"),
    ])
    .into_iter()
    .map(|a| a.name)
    .collect();
    assert_eq!(names, vec!["Alpha", "beta"]);
}

#[test]
fn the_best_and_last_app_is_taken() {
    let apps = vec![app("org.x.Foo", "A", "/opt/foo"), app("foo", "B", "x"), app("f-oo", "C", "x")];
    assert_eq!(resolve_installed_app_from(&apps, " FOO ").unwrap().name, "B");
    assert_eq!(resolve_installed_app(&apps, "org.x.foo").unwrap().name, "A");
    assert_eq!(resolve_installed_app(&apps[2..], "foo").unwrap().name, "C");
    assert_eq!(resolve_installed_app(&apps, " "), None);
    let twins = vec![app("foo", "first", "x"), app("foo", "second", "x")];
    assert_eq!(resolve_installed_app(&twins, "foo").unwrap().name, "second");
}

fn state(windows: Vec<RuntimeWindow>) -> ObservedState {
    ObservedState {
        windows,
        workspaces: vec![RuntimeWorkspace {
            id: 1,
            index: 4,
            name: None,
            output: Some("eDP-1".to_owned()),
            is_active: true,
            is_focused: true,
        }],
        outputs: Vec::new(),
    }
}

#[test]
fn captures_describe_the_whole_workspace() {
    let mut first = window("foot", None, None);
    first.id = 1;
    first.tile_index = Some(2);
    let mut second = window("foot", None, None);
    second.id = 2;
    second.is_focused = true;
    let mut own = window("dev.t1ktak.NiriWorkbench", None, None);
    own.id = 3;
    let mut float = window("", None, None);
    float.id = 4;
    float.title = None;
    float.column = None;
    float.tile_index = None;
    float.is_floating = true;
    let s = state(vec![first, second, own, float]);
    let known = vec![facts(), facts(), facts(), facts()];
    let draft =
        capture_workspace(&s, &known, &Vec::new(), &programs(), None, None).unwrap();
    let r = &draft.recipe;
    assert_eq!(r.name.as_deref(), Some("Workspace 4"));
    assert_eq!(r.workspace, "Workspace 4");
    assert_eq!(r.output.as_deref(), Some("eDP-1"));
    assert_eq!(r.focus.as_deref(), Some("foot"));
    let names: Vec<&str> = r.windows.iter().map(|w| w.name.as_str()).collect();
    assert_eq!(names, vec!["foot", "foot-2", "window-3"]);
    assert_eq!(r.windows[0].layout.column_width, Some(Size::Pixels(800)));
    assert_eq!(r.windows[0].layout.window_height, Some(Size::Pixels(600)));
    assert_eq!(r.windows[1].layout.column_width, None);
    assert_eq!(r.windows[1].layout.window_height, Some(Size::Pixels(600)));
    assert_eq!(r.windows[2].layout.column, 3);
    assert!(r.windows[2].layout.floating);
    assert_eq!(r.windows[0].match_spec.title.as_deref(), Some("^title$"));
    assert_eq!(draft.details[2].title, "window-3");
    assert!(draft.details[0].include_by_default);

    let draft =
        capture_workspace(&s, &known, &Vec::new(), &programs(), Some(9), Some(4)).unwrap();
    assert_eq!(draft.recipe.focus.as_deref(), Some("window-3"));
}

#[test]
fn captures_can_fail() {
    let none = ObservedState::default();
    assert_eq!(
        capture_workspace(&none, &vec![], &vec![], &programs(), None, None).unwrap_err(),
        CaptureError::NoWorkspace
    );
    assert_eq!(
        capture_workspace(&state(vec![]), &vec![], &vec![], &programs(), None, None).unwrap_err(),
        CaptureError::NoWindows
    );
    assert_eq!(CaptureError::NoWorkspace.text(), "Niri has no workspace to capture");
    assert_eq!(CaptureError::NoWindows.text(), "focused workspace has no windows");
    assert_eq!(
        CaptureError::SelectionMismatch.text(),
        "capture selection does not match detected windows"
    );
    assert_eq!(CaptureError::NothingSelected.text(), "select at least one window to save");
    let mut r = Recipe {
        name: None,
        workspace: "Dev".to_owned(),
        output: None,
        output_fallback: OutputFallback::Focused,
        focus: None,
        spawn_timeout_ms: 1,
        windows: Vec::new(),
    };
    assert_eq!(apply_capture_selection(&mut r, &[true]), Err(CaptureError::SelectionMismatch));
    assert_eq!(apply_capture_selection(&mut r, &[]), Err(CaptureError::NothingSelected));
    assert_eq!(recipe_display_name(&r), "Dev");

    let mut config = Config { workbench: NameMap::new() };
    let mut other = r.clone();
    other.name = Some("dev!".to_owned());
    assert_eq!(upsert_captured_recipe(&mut config, r.clone()), ("dev".to_owned(), 0));
    assert_eq!(upsert_captured_recipe(&mut config, other), ("dev-2".to_owned(), 0));
    assert_eq!(upsert_captured_recipe(&mut config, r.clone()), ("dev".to_owned(), 1));
    r.name = Some("Привет".to_owned());
    assert_eq!(upsert_captured_recipe(&mut config, r), ("workbench".to_owned(), 0));
    assert_eq!(config.workbench.len(), 3);
}

#[test]
fn inclusion_gives_its_reason() {
    let root = Some("/p".to_owned());
    let why = |w: &RuntimeWindow, f: &ProcessFacts| capture_inclusion(w, f, &root);
    assert_eq!(
        why(&window("kitty", None, Some("/p/x")), &facts()),
        (true, Some("terminal belongs to the detected project".to_owned()))
    );
    assert_eq!(
        why(&window("kitty", None, Some("/px")), &facts()),
        (false, Some("terminal is outside project /p".to_owned()))
    );
    assert_eq!(
        why(&window("code", None, None), &facts()),
        (true, Some("editor identifies the detected project".to_owned()))
    );
    assert_eq!(
        why(&window("x", Some("/p/x"), None), &facts()),
        (
            true,
            Some("process executable or launch arguments reference the detected project".to_owned())
        )
    );
    assert_eq!(
        why(&window("firefox", None, None), &facts()),
        (
            true,
            Some("browser window on the project workspace; review before saving".to_owned())
        )
    );
    assert_eq!(
        why(&window("steam", None, None), &facts()),
        (false, Some("no project context detected for this app (project /p)".to_owned()))
    );
    assert_eq!(capture_inclusion(&window("steam", None, None), &facts(), &None), (true, None));
}

#[test]
fn sizes_are_rounded_as_by_std() {
    let expected = |value: f64| {
        if !value.is_finite() || value < 1.0 || value > f64::from(i32::MAX) {
            None
        } else {
            Some(Size::Pixels(value.round() as i32))
        }
    };
    let mut values = vec![
        f64::NAN,
        f64::INFINITY,
        f64::NEG_INFINITY,
        -1.0,
        -0.0,
        0.0,
        0.9999999999999999,
        1.0,
        1.4999999999999998,
        1.5,
        2.5,
        827.4,
        2147483646.5,
        2147483647.0,
        2147483647.0000002,
        2147483648.0,
        1e300,
        f64::MIN_POSITIVE,
    ];
    let mut step = 1.0_f64;
    for i in 0..20_000_u64 {
        step = step * 1.001 + 0.37;
        values.push(step);
        values.push((i as f64) / 8.0);
        values.push(f64::from_bits(1.0f64.to_bits() + i * 0x10_0001_0001_7));
    }
    for value in values {
        assert_eq!(pixel_size(value.to_bits()), expected(value), "{value}");
    }
}
