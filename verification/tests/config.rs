use niri_workbench::config::{
    parse_error, syntax_error, validate_config, validate_recipe, ConfigError,
};
use niri_workbench::model::{
    default_column, default_spawn_timeout_ms, ColumnDisplay, Config, MatchSpec, OutputFallback,
    PlacementSpec, Recipe, ReusePolicy, Size, WindowSpec,
};
use niri_workbench::names::NameMap;
use niri_workbench::show::size_text;
use niri_workbench::sizes::Percentage;

fn size(raw: &str) -> Result<Size, &'static str> {
    let number = Size::percent_number(raw)
        .and_then(|text| text.parse::<f64>().ok())
        .map(|value| Percentage { value: value.to_bits(), ratio: (value / 100.0).to_bits() });
    Size::from_str(raw, number)
}

fn text_at(table: &toml::Table, key: &str) -> Option<String> {
    table.get(key).and_then(|value| value.as_str()).map(str::to_owned)
}

fn size_at(table: &toml::Table, key: &str, path: &str) -> Result<Option<Size>, ConfigError> {
    match table.get(key).and_then(|value| value.as_str()) {
        None => Ok(None),
        Some(raw) => match size(raw) {
            Ok(size) => Ok(Some(size)),
            Err(message) => Err(parse_error("test", &format!("{path}.{key}"), message)),
        },
    }
}

fn layout_of(table: Option<&toml::Table>, path: &str) -> Result<PlacementSpec, ConfigError> {
    let Some(table) = table else {
        return Ok(PlacementSpec::default());
    };
    Ok(PlacementSpec {
        column: table
            .get("column")
            .and_then(|value| value.as_integer())
            .map_or(default_column(), |value| value as usize),
        column_width: size_at(table, "column_width", path)?,
        window_height: size_at(table, "window_height", path)?,
        display: match table.get("display").and_then(|value| value.as_str()) {
            None => None,
            Some("tabbed") => Some(ColumnDisplay::Tabbed),
            Some("normal") => Some(ColumnDisplay::Normal),
            Some(other) => panic!("unknown display {other}"),
        },
        floating: table.get("floating").and_then(|value| value.as_bool()).unwrap_or(false),
        output: text_at(table, "output"),
    })
}

fn window_of(table: &toml::Table, path: &str) -> Result<WindowSpec, ConfigError> {
    let mut match_spec = MatchSpec::default();
    if let Some(found) = table.get("match").and_then(|value| value.as_table()) {
        match_spec.app_id = text_at(found, "app_id");
        match_spec.title = text_at(found, "title");
        match_spec.process = text_at(found, "process");
    }
    Ok(WindowSpec {
        name: text_at(table, "name").unwrap(),
        command: table
            .get("command")
            .and_then(|value| value.as_array())
            .map(|words| words.iter().map(|word| word.as_str().unwrap().to_owned()).collect())
            .unwrap_or_default(),
        match_spec,
        reuse: match table.get("reuse").and_then(|value| value.as_str()) {
            Some("never") => ReusePolicy::Never,
            _ => ReusePolicy::Unique,
        },
        layout: layout_of(
            table.get("layout").and_then(|value| value.as_table()),
            &format!("{path}.layout"),
        )?,
    })
}

fn read(text: &str) -> Result<Config, ConfigError> {
    let table: toml::Table = match toml::from_str(text) {
        Ok(table) => table,
        Err(error) => return Err(syntax_error("test", &error.to_string())),
    };
    let mut workbench = NameMap::new();
    if let Some(recipes) = table.get("workbench").and_then(|value| value.as_table()) {
        for (key, value) in recipes {
            let found = value.as_table().unwrap();
            let mut windows = Vec::new();
            if let Some(list) = found.get("windows").and_then(|value| value.as_array()) {
                for (index, window) in list.iter().enumerate() {
                    windows.push(window_of(
                        window.as_table().unwrap(),
                        &format!("workbench.{key}.windows[{index}]"),
                    )?);
                }
            }
            workbench.insert(
                key.clone(),
                Recipe {
                    name: text_at(found, "name"),
                    workspace: text_at(found, "workspace").unwrap(),
                    output: text_at(found, "output"),
                    output_fallback: match text_at(found, "output_fallback").as_deref() {
                        Some("error") => OutputFallback::Error,
                        _ => OutputFallback::default(),
                    },
                    focus: text_at(found, "focus"),
                    spawn_timeout_ms: default_spawn_timeout_ms(),
                    windows,
                },
            );
        }
    }
    let config = Config { workbench };
    validate_config(&config)?;
    Ok(config)
}

#[test]
fn parses_minimal_recipe() {
    let config = read(
        r#"
            [workbench.dev]
            workspace = "Dev"

            [[workbench.dev.windows]]
            name = "editor"
            command = ["code", "."]

            [workbench.dev.windows.match]
            app_id = "^code$"

            [workbench.dev.windows.layout]
            column = 1
            column_width = "55%"
            "#,
    )
    .unwrap();

    assert_eq!(config.workbench.get("dev").unwrap().windows.len(), 1);
    assert_eq!(
        config.workbench.get("dev").unwrap().windows[0].layout.column_width,
        Some(Size::Percent(0.55f64.to_bits()))
    );
}

#[test]
fn rejects_duplicate_window_names() {
    let err = read(
        r#"
            [workbench.dev]
            workspace = "Dev"

            [[workbench.dev.windows]]
            name = "term"
            command = ["foot"]
            [workbench.dev.windows.match]
            app_id = "^foot$"

            [[workbench.dev.windows]]
            name = "term"
            command = ["foot"]
            [workbench.dev.windows.match]
            app_id = "^foot$"
            "#,
    )
    .unwrap_err();

    assert!(err.text().contains("duplicate logical window name"));
    assert_eq!(err.text(), "workbench.dev.windows[1].name: duplicate logical window name \"term\"");
}

#[test]
fn rejects_invalid_regex() {
    let err = read(
        r#"
            [workbench.dev]
            workspace = "Dev"

            [[workbench.dev.windows]]
            name = "term"
            command = ["foot"]
            [workbench.dev.windows.match]
            app_id = "["
            "#,
    )
    .unwrap_err();

    assert!(err.text().contains("invalid regex"));
    assert_eq!(
        err.text(),
        format!(
            "workbench.dev.windows[0].match.app_id: invalid regex \"[\": {}",
            regex::Regex::new("[").unwrap_err()
        )
    );
}

#[test]
fn size_error_reports_field_path() {
    let err = read(
        r#"
            [workbench.dev]
            workspace = "Dev"

            [[workbench.dev.windows]]
            name = "term"
            command = ["foot"]
            [workbench.dev.windows.match]
            app_id = "^foot$"
            [workbench.dev.windows.layout]
            column = 1
            column_width = "banana"
            "#,
    )
    .unwrap_err();

    let text = err.text();
    assert!(text.contains("workbench.dev.windows[0].layout.column_width"), "{text}");
    assert!(text.contains("invalid pixel value"), "{text}");
}

#[test]
fn conflicting_column_display_is_rejected() {
    let err = read(
        r#"
            [workbench.dev]
            workspace = "Dev"

            [[workbench.dev.windows]]
            name = "a"
            command = ["foot"]
            [workbench.dev.windows.match]
            app_id = "^a$"
            [workbench.dev.windows.layout]
            column = 1
            display = "tabbed"

            [[workbench.dev.windows]]
            name = "b"
            command = ["foot"]
            [workbench.dev.windows.match]
            app_id = "^b$"
            [workbench.dev.windows.layout]
            column = 1
            display = "normal"
            "#,
    )
    .unwrap_err();

    assert!(err.text().contains("conflicts with another display mode"));
}

#[test]
fn parses_sizes() {
    assert_eq!(size("55%").unwrap(), Size::Percent(0.55f64.to_bits()));
    assert_eq!(size("900").unwrap(), Size::Pixels(900));
    assert_eq!(size("900px").unwrap(), Size::Pixels(900));
    for percent in 1..=100 {
        let share = Size::Percent((f64::from(percent) / 100.0).to_bits());
        assert_eq!(size(&size_text(share, &percent.to_string())), Ok(share));
    }
    assert_eq!(size(&size_text(Size::Pixels(7), "")), Ok(Size::Pixels(7)));
}

#[test]
fn rejects_bad_sizes() {
    assert!(size("banana").is_err());
    assert!(size("0%").is_err());
    assert!(size("101%").is_err());
    assert!(size("-2px").is_err());
}

#[test]
fn size_errors_name_their_fault() {
    assert_eq!(size("x%"), Err("invalid percentage"));
    assert_eq!(size("NaN%"), Err("percentage must be > 0 and <= 100"));
    assert_eq!(size("inf%"), Err("percentage must be > 0 and <= 100"));
    assert_eq!(size("-1%"), Err("percentage must be > 0 and <= 100"));
    assert_eq!(size("0%"), Err("percentage must be > 0 and <= 100"));
    assert_eq!(size("-0%"), Err("percentage must be > 0 and <= 100"));
    assert_eq!(size("100.5%"), Err("percentage must be > 0 and <= 100"));
    assert_eq!(size("100%"), Ok(Size::Percent(1.0f64.to_bits())));
    assert_eq!(size(" 12.5 % "), Ok(Size::Percent(0.125f64.to_bits())));
    assert_eq!(size("0px"), Err("pixel value must be positive"));
    assert_eq!(size("-2px"), Err("pixel value must be positive"));
    assert_eq!(size("2147483648px"), Err("invalid pixel value"));
    assert_eq!(size("2147483647 px"), Ok(Size::Pixels(2147483647)));
    assert_eq!(size("+7"), Ok(Size::Pixels(7)));
    assert_eq!(size(""), Err("invalid pixel value"));
}

fn window(name: &str, column: usize) -> WindowSpec {
    WindowSpec {
        name: name.to_owned(),
        command: vec!["foot".to_owned()],
        match_spec: MatchSpec { app_id: Some("^foot$".to_owned()), ..MatchSpec::default() },
        reuse: ReusePolicy::Unique,
        layout: PlacementSpec { column, ..PlacementSpec::default() },
    }
}

fn recipe(windows: Vec<WindowSpec>) -> Recipe {
    Recipe {
        name: None,
        workspace: "Dev".to_owned(),
        output: None,
        output_fallback: OutputFallback::Focused,
        focus: None,
        spawn_timeout_ms: 10_000,
        windows,
    }
}

fn fault(recipe: &Recipe) -> String {
    validate_recipe("dev", recipe).unwrap_err().text()
}

#[test]
fn every_fault_of_a_recipe_is_named() {
    assert_eq!(
        validate_config(&Config { workbench: NameMap::new() }).unwrap_err().text(),
        "workbench: no workbenches are defined"
    );

    let mut r = recipe(vec![window("a", 1)]);
    r.workspace = " \t".to_owned();
    assert_eq!(fault(&r), "workbench.dev.workspace: workspace name cannot be empty");

    assert_eq!(fault(&recipe(vec![])), "workbench.dev.windows: at least one window is required");

    assert_eq!(
        fault(&recipe(vec![window("a", 1), window(" ", 1)])),
        "workbench.dev.windows[1].name: logical name cannot be empty"
    );

    assert_eq!(
        fault(&recipe(vec![window("a", 0)])),
        "workbench.dev.windows[0].layout.column: column indices start at 1"
    );

    let mut w = window("a", 1);
    w.command.clear();
    w.reuse = ReusePolicy::Never;
    assert_eq!(
        fault(&recipe(vec![w])),
        "workbench.dev.windows[0].command: reuse = \"never\" requires a spawn command"
    );

    let mut w = window("a", 1);
    w.match_spec = MatchSpec { cwd: Some("^/home$".to_owned()), ..MatchSpec::default() };
    assert_eq!(
        fault(&recipe(vec![w])),
        "workbench.dev.windows[0].match: at least one matcher is required"
    );

    let mut w = window("a", 1);
    w.match_spec.title = Some("(".to_owned());
    assert!(fault(&recipe(vec![w])).starts_with("workbench.dev.windows[0].match.title: invalid regex \"(\": "));

    let mut w = window("a", 1);
    w.match_spec.process = Some("*".to_owned());
    assert!(fault(&recipe(vec![w])).starts_with("workbench.dev.windows[0].match.process: invalid regex \"*\": "));

    let mut w = window("a", 1);
    w.layout.floating = true;
    w.layout.column_width = Some(Size::Pixels(3));
    assert_eq!(
        fault(&recipe(vec![w])),
        "workbench.dev.windows[0].layout: floating windows cannot declare column display or column_width"
    );

    let mut w = window("a", 1);
    w.layout.output = Some("DP-1".to_owned());
    let mut r = recipe(vec![w]);
    r.output = Some("eDP-1".to_owned());
    assert!(fault(&r).starts_with(
        "workbench.dev.windows[0].layout.output: v0.1 requires per-window output to match the workbench output;"
    ));

    let mut a = window("a", 1);
    a.layout.column_width = Some(Size::Pixels(3));
    let mut b = window("b", 1);
    b.layout.column_width = Some(Size::Pixels(4));
    assert_eq!(
        fault(&recipe(vec![a, b])),
        "workbench.dev.windows[1].layout.column_width: conflicts with another width declared for column 1"
    );

    let mut a = window("a", 1);
    a.layout.output = Some("DP-1".to_owned());
    let mut b = window("b", 1);
    b.layout.output = Some("DP-2".to_owned());
    assert_eq!(
        fault(&recipe(vec![a, b])),
        "workbench.dev.windows: windows in one workbench cannot target multiple outputs in v0.1 because a Niri workspace belongs to one output"
    );

    assert_eq!(
        fault(&recipe(vec![window("a", 4), window("b", 1), window("c", 2)])),
        "workbench.dev.windows: tiling column indices must be contiguous starting at 1; found [1, 2, 4]"
    );

    let mut r = recipe(vec![window("a", 1)]);
    r.focus = Some("b\"".to_owned());
    assert_eq!(fault(&r), "workbench.dev.focus: unknown logical window \"b\\\"\"");
}

#[test]
fn sound_recipes_are_accepted() {
    let mut a = window("a", 2);
    a.layout.display = Some(ColumnDisplay::Tabbed);
    a.layout.output = Some("DP-1".to_owned());
    let mut b = window("b", 1);
    b.layout.floating = true;
    b.layout.column = 9;
    let mut c = window("c", 2);
    c.layout.display = Some(ColumnDisplay::Tabbed);
    let mut r = recipe(vec![a, b, c, window("d", 1)]);
    r.output = Some("DP-1".to_owned());
    r.focus = Some("d".to_owned());
    assert_eq!(validate_recipe("dev", &r), Ok(()));
}

#[test]
fn config_errors_read_as_sentences() {
    assert_eq!(
        ConfigError::Read { path: "/x".to_owned(), message: "gone".to_owned() }.text(),
        "could not read config /x: gone"
    );
    assert_eq!(parse_error("/x", "", "bad").text(), "could not parse config /x at <root>: bad");
    assert_eq!(parse_error("/x", "a.b", "bad").text(), "could not parse config /x at a.b: bad");
    assert_eq!(syntax_error("/x", "bad").text(), "could not parse config /x at <syntax>: bad");
    assert!(read("workbench = [").unwrap_err().text().starts_with("could not parse config test at <syntax>: "));
}

#[test]
fn faults_are_reported_in_the_order_of_the_keys() {
    let mut workbench = NameMap::new();
    workbench.insert("zeta".to_owned(), recipe(vec![]));
    workbench.insert("alpha".to_owned(), recipe(vec![window("a", 0)]));
    assert_eq!(
        validate_config(&Config { workbench }).unwrap_err().text(),
        "workbench.alpha.windows[0].layout.column: column indices start at 1"
    );
}

#[test]
fn a_whole_workbench_is_accepted() {
    let config = read(
        r#"
            [workbench.rust-dev]
            name = "Rust / example"
            workspace = "Rust Dev"
            focus = "editor"
            spawn_timeout_ms = 10000

            [[workbench.rust-dev.windows]]
            name = "editor"
            command = ["code", "~/Projects/example"]

            [workbench.rust-dev.windows.match]
            app_id = "^code$"
            title = "example"

            [workbench.rust-dev.windows.layout]
            column = 1
            column_width = "55%"

            [[workbench.rust-dev.windows]]
            name = "docs"
            command = ["google-chrome-stable", "https://docs.rs"]

            [workbench.rust-dev.windows.match]
            app_id = "^google-chrome$"
            title = "docs.rs"

            [workbench.rust-dev.windows.layout]
            column = 2
            column_width = "30%"
            display = "tabbed"

            [[workbench.rust-dev.windows]]
            name = "terminal"
            command = [
              "kitty",
              "--directory",
              "~/Projects/example",
              "bash",
              "-lc",
              "cargo watch -x check; exec bash"
            ]

            [workbench.rust-dev.windows.match]
            app_id = "^kitty$"
            title = "example|cargo"

            [workbench.rust-dev.windows.layout]
            column = 3
            column_width = "25%"
            "#,
    )
    .unwrap();
    let recipe = config.workbench.get("rust-dev").unwrap();
    let names: Vec<&str> = recipe.windows.iter().map(|w| w.name.as_str()).collect();
    assert_eq!(names, ["editor", "docs", "terminal"]);
    assert_eq!(recipe.focus.as_deref(), Some("editor"));
    assert_eq!(recipe.windows[1].layout.display, Some(ColumnDisplay::Tabbed));
}
