use niri_workbench::i18n::Language;
use niri_workbench::pages::{
    change_language, close_window, leave_editor, navigate, new_capture, page_after_language,
    parse_start_page, route_start_page, Page, Route, StartPage,
};

fn args(values: &[&str]) -> Vec<String> {
    values.iter().map(|value| (*value).to_owned()).collect()
}

#[test]
fn parses_capture_route() {
    assert!(matches!(
        parse_start_page(&args(&["niri-workbench-ui", "--capture"])),
        Some(StartPage::Capture)
    ));
}

#[test]
fn capture_route_has_priority() {
    assert!(matches!(
        parse_start_page(&args(&["niri-workbench-ui", "--edit=rust-dev", "--capture"])),
        Some(StartPage::Capture)
    ));
}

#[test]
fn parses_edit_route() {
    match parse_start_page(&args(&["niri-workbench-ui", "--edit=rust-dev"])) {
        Some(StartPage::Edit(key)) => assert_eq!(key, "rust-dev"),
        other => panic!("unexpected route: {other:?}"),
    }
}

#[test]
fn plain_launch_has_no_forced_route() {
    assert!(parse_start_page(&args(&["niri-workbench-ui"])).is_none());
}

#[test]
fn other_routes_are_parsed() {
    assert_eq!(parse_start_page(&args(&["x", "--library"])), Some(StartPage::Library));
    assert_eq!(parse_start_page(&args(&["x", "--settings"])), Some(StartPage::Settings));
    assert_eq!(parse_start_page(&args(&["x", "--unknown"])), None);
}

#[test]
fn work_in_progress_is_protected() {
    assert!(matches!(navigate(Some(Page::Home), Page::Library, Language::En), Route::Go));
    assert!(!matches!(navigate(Some(Page::Capture), Page::Library, Language::En), Route::Go));
    assert!(matches!(leave_editor(false, Language::En), Route::Go));
    assert!(matches!(leave_editor(true, Language::Ru), Route::Ask(_, _)));
    assert!(matches!(
        close_window(true, true, Some(Page::Editor), Language::En),
        Route::Go
    ));
    assert!(matches!(
        close_window(false, true, Some(Page::Editor), Language::En),
        Route::Ask(_, _)
    ));
    assert!(!matches!(new_capture(Some(Page::Editor), Language::En), Route::Go));
    assert!(!matches!(
        route_start_page(&StartPage::Library, Some(Page::Editor), &Some("a".into()), Language::En),
        Route::Go
    ));
}

#[test]
fn languages_change_in_place() {
    assert_eq!(change_language(Language::En, Language::En, Some(Page::Home)), Route::Stay);
    assert_eq!(change_language(Language::En, Language::Ru, Some(Page::Settings)), Route::Go);
    assert_eq!(page_after_language(Some(Page::Settings)), Page::Settings);
}
