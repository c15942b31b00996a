use niri_workbench::capture::CapturedWindow;
use niri_workbench::capture_form::{can_create, captured_meta, check_command, review_capture};
use niri_workbench::editing::{column_behind, normalize_columns};
use niri_workbench::editor::{
    edit_app_pattern, edit_column, edit_column_width, edit_command, edit_focus, edit_reuse,
    edit_title_pattern, edit_window_height, edit_workspace, editor_has_unsaved_changes,
    editor_requires_confirmation, editor_status, first_faults, output_dropdown, read_pattern,
    reuse_place, save_editor_draft, set_entry_validation, workspace_fault, EditorStatus, Faults,
    SaveStep,
};
use niri_workbench::i18n::Language;
use niri_workbench::model::{
    Config, MatchSpec, OutputFallback, PlacementSpec, Recipe, ReusePolicy, Size, WindowSpec,
};
use niri_workbench::names::NameMap;
use niri_workbench::same::{same_recipe, same_window};
use niri_workbench::sizes::Percentage;

fn spec(name: &str, column: usize) -> WindowSpec {
    WindowSpec {
        name: name.to_owned(),
        command: vec!["true".to_owned()],
        match_spec: MatchSpec { app_id: Some(format!("^{name}$")), ..MatchSpec::default() },
        reuse: ReusePolicy::Unique,
        layout: PlacementSpec { column, ..PlacementSpec::default() },
    }
}

fn draft() -> Recipe {
    Recipe {
        name: None,
        workspace: "Dev".to_owned(),
        output: None,
        output_fallback: OutputFallback::Focused,
        focus: None,
        spawn_timeout_ms: 10_000,
        windows: vec![spec("a", 1), spec("b", 2)],
    }
}

fn config() -> Config {
    let mut workbench = NameMap::new();
    workbench.insert("dev".to_owned(), draft());
    Config { workbench }
}

#[test]
fn fields_are_checked_as_they_are_edited() {
    let mut r = draft();
    let mut faults = first_faults(&r, Language::En);
    assert!(faults.is_empty());

    edit_workspace(&mut r, &mut faults, " ", Language::En);
    assert_eq!(
        faults.by_field.get("workspace").map(String::as_str),
        Some("Workspace name cannot be empty")
    );
    edit_workspace(&mut r, &mut faults, "Web", Language::En);
    assert!(faults.is_empty());
    assert_eq!(r.workspace, "Web");

    edit_command(&mut r, &mut faults, 0, "foot 'x");
    assert_eq!(
        faults.by_field.get("command").map(String::as_str),
        Some("unclosed quote in launch command")
    );
    assert_eq!(r.windows[0].command, vec!["true"]);
    edit_command(&mut r, &mut faults, 0, "foot 'x y'");
    assert_eq!(r.windows[0].command, vec!["foot", "x y"]);

    edit_app_pattern(&mut r, &mut faults, 1, "(");
    assert!(!faults.is_empty());
    edit_app_pattern(&mut r, &mut faults, 1, " ^x$ ");
    assert!(faults.is_empty());
    assert_eq!(r.windows[1].match_spec.app_id.as_deref(), Some("^x$"));
    edit_title_pattern(&mut r, &mut faults, 1, "");
    assert_eq!(r.windows[1].match_spec.title, None);
    assert_eq!(read_pattern("x", Some("bad".to_owned())), Err("bad".to_owned()));

    let half = Some(Percentage { value: 50.0f64.to_bits(), ratio: 0.5f64.to_bits() });
    edit_column_width(&mut r, &mut faults, 0, "50%", half);
    assert_eq!(r.windows[0].layout.column_width, Some(Size::Percent(0.5f64.to_bits())));
    edit_column_width(&mut r, &mut faults, 0, "x", None);
    assert_eq!(
        faults.by_field.get("column-width").map(String::as_str),
        Some("invalid pixel value")
    );
    edit_column_width(&mut r, &mut faults, 0, " ", None);
    assert_eq!(r.windows[0].layout.column_width, None);
    edit_window_height(&mut r, &mut faults, 0, "40px", None);
    assert_eq!(r.windows[0].layout.window_height, Some(Size::Pixels(40)));

    edit_column(&mut r, 0, -3);
    assert_eq!(r.windows[0].layout.column, 1);
    edit_column(&mut r, 0, 7);
    assert_eq!(r.windows[0].layout.column, 7);
    edit_reuse(&mut r, 0, 1);
    assert_eq!(r.windows[0].reuse, ReusePolicy::Never);
    assert_eq!(reuse_place(ReusePolicy::Never), 1);
    edit_focus(&mut r, "a", true);
    assert_eq!(r.focus.as_deref(), Some("a"));
    edit_focus(&mut r, "b", false);
    assert_eq!(r.focus.as_deref(), Some("a"));
    edit_focus(&mut r, "a", false);
    assert_eq!(r.focus, None);
    assert_eq!(workspace_fault("x", Language::Ru), None);
}

#[test]
fn outputs_are_offered_by_name() {
    let choice = output_dropdown(
        &Some("HDMI-1".to_owned()),
        &vec!["eDP-1".to_owned(), "DP-2".to_owned(), "eDP-1".to_owned()],
    );
    assert_eq!(choice.names, vec!["DP-2", "HDMI-1", "eDP-1"]);
    assert_eq!(choice.selected, 2);
    assert_eq!(choice.at(0), None);
    assert_eq!(choice.at(3).as_deref(), Some("eDP-1"));
    assert_eq!(output_dropdown(&None, &vec![]).selected, 0);
}

#[test]
fn drafts_are_saved_only_when_sound() {
    let config = config();
    let mut faults = Faults::new();
    let mut r = draft();
    assert!(!editor_has_unsaved_changes(&config, "dev", &r));
    assert!(editor_has_unsaved_changes(&config, "web", &r));
    assert_eq!(editor_status(&config, "dev", &r, &faults), EditorStatus::Saved);
    assert!(!editor_requires_confirmation(&config, "dev", &r, &faults));
    r.windows[0].layout.column = 5;
    assert_eq!(editor_status(&config, "dev", &r, &faults), EditorStatus::Unsaved);
    assert!(editor_requires_confirmation(&config, "dev", &r, &faults));
    match save_editor_draft(&config, "dev", &r, &faults, Language::En) {
        SaveStep::Save(saved) => {
            assert_eq!(saved.windows[0].layout.column, 2);
            assert_eq!(saved.windows[1].layout.column, 1);
        }
        other => panic!("unexpected step: {other:?}"),
    }
    set_entry_validation(&mut faults, "command", Some("bad".to_owned()));
    assert_eq!(editor_status(&config, "dev", &r, &faults), EditorStatus::Faulty);
    assert!(!EditorStatus::Faulty.can_save());
    assert!(EditorStatus::Unsaved.can_save());
    assert!(matches!(
        save_editor_draft(&config, "dev", &r, &faults, Language::En),
        SaveStep::Refuse(_)
    ));
    set_entry_validation(&mut faults, "command", None);
    assert!(matches!(
        save_editor_draft(&config, "dev", &draft(), &faults, Language::En),
        SaveStep::Nothing
    ));
    r.windows.clear();
    let emptied = first_faults(&r, Language::En);
    match save_editor_draft(&config, "dev", &r, &emptied, Language::En) {
        SaveStep::Refuse(text) => assert_eq!(
            text,
            "Fix the invalid field before saving: The workbench must contain at least one window"
        ),
        other => panic!("unexpected step: {other:?}"),
    }
}

#[test]
fn recipes_are_compared_field_by_field() {
    let a = draft();
    let mut b = draft();
    assert!(same_recipe(&a, &b));
    b.windows[1].layout.floating = true;
    assert!(!same_recipe(&a, &b));
    assert!(same_window(&a.windows[0], &b.windows[0]));
    assert!(!same_window(&a.windows[1], &b.windows[1]));
}

#[test]
fn columns_are_renumbered_without_gaps() {
    let mut r = draft();
    r.windows[0].layout.column = 9;
    r.windows[1].layout.column = 4;
    r.windows.push(spec("c", 9));
    normalize_columns(&mut r);
    let columns: Vec<usize> = r.windows.iter().map(|w| w.layout.column).collect();
    assert_eq!(columns, vec![2, 1, 2]);
    assert_eq!(column_behind(&r.windows, "x"), 3);
}

#[test]
fn captures_are_reviewed_before_they_are_saved() {
    let r = draft();
    let reviewed = review_capture(
        &r,
        " Web ",
        &vec!["foot".to_owned(), "foot -D 'a b'".to_owned()],
        " My desk ",
        Language::En,
    )
    .unwrap();
    assert_eq!(reviewed.workspace, "Web");
    assert_eq!(reviewed.name.as_deref(), Some("My desk"));
    assert_eq!(reviewed.windows[1].command, vec!["foot", "-D", "a b"]);
    assert!(review_capture(&r, " ", &vec!["a".to_owned(), "b".to_owned()], "n", Language::En).is_err());
    assert!(review_capture(&r, "w", &vec!["'".to_owned(), "b".to_owned()], "n", Language::En).is_err());

    let mut faults = Faults::new();
    assert!(can_create("Dev", &faults));
    check_command(&mut faults, 0, "a 'b");
    assert!(!can_create("Dev", &faults));
    check_command(&mut faults, 0, "a b");
    assert!(can_create("Dev", &faults));
    assert!(!can_create(" ", &faults));
    let meta = captured_meta(&CapturedWindow {
        title: "t".to_owned(),
        app_id: "kitty".to_owned(),
        cwd: Some("/home".to_owned()),
        include_by_default: true,
        inclusion_note: None,
    });
    assert!(meta.contains("kitty") && meta.contains("/home"), "{meta}");
}
