//! Which configurations are accepted, and what is said of those that are not.
use crate::lists;
use crate::lists::group_keys;
use crate::model;
use crate::model::{
    ColumnDisplay, Config, MatchView, Recipe, RecipeView, ReusePolicy, Size, WindowSpec, WindowView,
};
use crate::outside;
use crate::outside::{debug_string, pattern_error};
use crate::planner;
use crate::planner::keys_of;
use crate::text;
use crate::text::{blank, opt_eq, push_number, str_eq};
use vstd::prelude::*;

verus! {

/// Why a configuration was not accepted.
#[derive(Debug, PartialEq, Eq)]
pub enum ConfigError {
    /// The file could not be read.
    Read { path: String, message: String },
    /// The text is not a configuration.
    Parse { path: String, field: String, message: String },
    /// The configuration says something that cannot be.
    Validation { path: String, message: String },
}

/// The model of an error.
#[verifier::ext_equal]
pub enum ConfigErrorView {
    Read { path: Seq<char>, message: Seq<char> },
    Parse { path: Seq<char>, field: Seq<char>, message: Seq<char> },
    Validation { path: Seq<char>, message: Seq<char> },
}

impl View for ConfigError {
    type V = ConfigErrorView;

    open spec fn view(&self) -> ConfigErrorView {
        match *self {
            ConfigError::Read { path, message } => ConfigErrorView::Read {
                path: path@,
                message: message@,
            },
            ConfigError::Parse { path, field, message } => ConfigErrorView::Parse {
                path: path@,
                field: field@,
                message: message@,
            },
            ConfigError::Validation { path, message } => ConfigErrorView::Validation {
                path: path@,
                message: message@,
            },
        }
    }
}

/// The message of an error.
pub open spec fn config_error_text(e: ConfigErrorView) -> Seq<char> {
    match e {
        ConfigErrorView::Read { path, message } => "could not read config "@ + path + ": "@ + message,
        ConfigErrorView::Parse { path, field, message } => "could not parse config "@ + path
            + " at "@ + field + ": "@ + message,
        ConfigErrorView::Validation { path, message } => path + ": "@ + message,
    }
}

impl ConfigError {
    /// The message for people.
    pub fn text(&self) -> (out: String)
        ensures
            out@ == config_error_text(self@),
    {
        match self {
            ConfigError::Read { path, message } => {
                let mut out: String = "could not read config ".to_owned();
                out.append(path.as_str());
                out.append(": ");
                out.append(message.as_str());
                out
            },
            ConfigError::Parse { path, field, message } => {
                let mut out: String = "could not parse config ".to_owned();
                out.append(path.as_str());
                out.append(" at ");
                out.append(field.as_str());
                out.append(": ");
                out.append(message.as_str());
                out
            },
            ConfigError::Validation { path, message } => {
                let mut out: String = path.clone();
                out.append(": ");
                out.append(message.as_str());
                out
            },
        }
    }
}

/// The error of a text that is no configuration. `field` is where in the
/// configuration the fault lies, empty for the configuration as a whole.
pub fn parse_error(source_name: &str, field: &str, message: &str) -> (out: ConfigError)
    ensures
        out@ == (ConfigErrorView::Parse {
            path: source_name@,
            field: if field@.len() == 0 {
                "<root>"@
            } else {
                field@
            },
            message: message@,
        }),
{
    ConfigError::Parse {
        path: source_name.to_owned(),
        field: if field.is_empty() {
            "<root>".to_owned()
        } else {
            field.to_owned()
        },
        message: message.to_owned(),
    }
}

/// The error of a text that is not even TOML.
pub fn syntax_error(source_name: &str, message: &str) -> (out: ConfigError)
    ensures
        out@ == (ConfigErrorView::Parse {
            path: source_name@,
            field: "<syntax>"@,
            message: message@,
        }),
{
    ConfigError::Parse {
        path: source_name.to_owned(),
        field: "<syntax>".to_owned(),
        message: message.to_owned(),
    }
}

// What is wrong with a recipe

/// A place in the configuration and what is wrong there.
#[verifier::ext_equal]
pub struct Fault {
    pub path: Seq<char>,
    pub message: Seq<char>,
}

pub open spec fn fault(path: Seq<char>, message: Seq<char>) -> Option<Fault> {
    Some(Fault { path, message })
}

/// The place of window `i` of the recipe at `base`.
pub open spec fn window_path(base: Seq<char>, i: int) -> Seq<char> {
    base + ".windows["@ + text::decimal(i as nat) + "]"@
}

pub open spec fn has_matcher(m: MatchView) -> bool {
    m.window_id is Some || m.app_id is Some || m.title is Some || m.process is Some || m.pid is Some
}

/// What is wrong with the pattern of one field, if it does not compile.
pub open spec fn pattern_fault(path: Seq<char>, field: Seq<char>, pattern: Option<Seq<char>>) -> Option<
    Fault,
> {
    match pattern {
        Some(p) => match outside::regex_error(p) {
            Some(e) => fault(
                path + ".match."@ + field,
                "invalid regex "@ + outside::debug_text(p) + ": "@ + e,
            ),
            None => None,
        },
        None => None,
    }
}

/// Window `i` has the name of an earlier window.
pub open spec fn repeats_name(windows: Seq<WindowView>, i: int) -> bool {
    exists|j: int| 0 <= j < i && (#[trigger] windows[j]).name == windows[i].name
}

/// What is wrong with window `i` by itself: the first of the conditions that it
/// fails.
pub open spec fn window_fault(base: Seq<char>, r: RecipeView) -> spec_fn(int) -> Option<Fault> {
    |i: int|
        {
            let w = r.windows[i];
            let path = window_path(base, i);
            if text::is_blank(w.name) {
                fault(path + ".name"@, "logical name cannot be empty"@)
            } else if repeats_name(r.windows, i) {
                fault(
                    path + ".name"@,
                    "duplicate logical window name "@ + outside::debug_text(w.name),
                )
            } else if w.layout.column == 0 {
                fault(path + ".layout.column"@, "column indices start at 1"@)
            } else if w.command.len() == 0 && w.reuse == ReusePolicy::Never {
                fault(path + ".command"@, "reuse = \"never\" requires a spawn command"@)
            } else if !has_matcher(w.match_spec) {
                fault(path + ".match"@, "at least one matcher is required"@)
            } else if pattern_fault(path, "app_id"@, w.match_spec.app_id) is Some {
                pattern_fault(path, "app_id"@, w.match_spec.app_id)
            } else if pattern_fault(path, "title"@, w.match_spec.title) is Some {
                pattern_fault(path, "title"@, w.match_spec.title)
            } else if pattern_fault(path, "process"@, w.match_spec.process) is Some {
                pattern_fault(path, "process"@, w.match_spec.process)
            } else if w.layout.floating && (w.layout.display is Some || w.layout.column_width is Some) {
                fault(
                    path + ".layout"@,
                    "floating windows cannot declare column display or column_width"@,
                )
            } else if r.output is Some && w.layout.output is Some && r.output != w.layout.output {
                fault(
                    path + ".layout.output"@,
                    "v0.1 requires per-window output to match the workbench output;                      a Niri workspace belongs to one output"@,
                )
            } else {
                None
            }
        }
}

/// Windows `i` and `j` are tiled in the same column.
pub open spec fn share_column(windows: Seq<WindowView>, i: int, j: int) -> bool {
    !windows[i].layout.floating && !windows[j].layout.floating && windows[i].layout.column
        == windows[j].layout.column
}

/// An earlier window of its column declares another width than window `i`.
pub open spec fn width_conflicts(windows: Seq<WindowView>, i: int) -> bool {
    windows[i].layout.column_width is Some && exists|j: int|
        0 <= j < i && #[trigger] share_column(windows, i, j) && windows[j].layout.column_width is Some
            && windows[j].layout.column_width != windows[i].layout.column_width
}

/// An earlier window of its column declares another display than window `i`.
pub open spec fn display_conflicts(windows: Seq<WindowView>, i: int) -> bool {
    windows[i].layout.display is Some && exists|j: int|
        0 <= j < i && #[trigger] share_column(windows, i, j) && windows[j].layout.display is Some
            && windows[j].layout.display != windows[i].layout.display
}

/// What window `i` says of its column against the windows before it.
pub open spec fn conflict_fault(base: Seq<char>, r: RecipeView) -> spec_fn(int) -> Option<Fault> {
    |i: int|
        {
            let column = text::decimal(r.windows[i].layout.column as nat);
            if width_conflicts(r.windows, i) {
                fault(
                    window_path(base, i) + ".layout.column_width"@,
                    "conflicts with another width declared for column "@ + column,
                )
            } else if display_conflicts(r.windows, i) {
                fault(
                    window_path(base, i) + ".layout.display"@,
                    "conflicts with another display mode declared for column "@ + column,
                )
            } else {
                None
            }
        }
}

/// Two windows want different outputs.
pub open spec fn outputs_differ(windows: Seq<WindowView>) -> bool {
    exists|i: int, j: int|
        0 <= i < windows.len() && 0 <= j < windows.len() && (
        #[trigger] windows[i]).layout.output is Some && (
        #[trigger] windows[j]).layout.output is Some && windows[i].layout.output
            != windows[j].layout.output
}

/// The numbers from 1 to the length of `columns`.
pub open spec fn counts_up(columns: Seq<usize>) -> bool {
    forall|k: int| 0 <= k < columns.len() ==> #[trigger] columns[k] == k + 1
}

/// A list of numbers, as `Debug` writes it.
pub open spec fn numbers_text(columns: Seq<usize>) -> Seq<char> {
    "["@ + text::joined(columns.map_values(|c: usize| text::decimal(c as nat)), ", "@) + "]"@
}

/// Some window has this name.
pub open spec fn names_window(windows: Seq<WindowView>, name: Seq<char>) -> bool {
    exists|i: int| 0 <= i < windows.len() && (#[trigger] windows[i]).name == name
}

/// The first thing that is wrong with the recipe `name`, if anything is.
pub open spec fn recipe_fault(name: Seq<char>, r: RecipeView) -> Option<Fault> {
    let base = "workbench."@ + name;
    let columns = lists::sorted_keys(planner::column_keys(r.windows));
    if text::is_blank(r.workspace) {
        fault(base + ".workspace"@, "workspace name cannot be empty"@)
    } else if r.windows.len() == 0 {
        fault(base + ".windows"@, "at least one window is required"@)
    } else if lists::first_given(r.windows.len(), window_fault(base, r)) is Some {
        lists::first_given(r.windows.len(), window_fault(base, r))
    } else if lists::first_given(r.windows.len(), conflict_fault(base, r)) is Some {
        lists::first_given(r.windows.len(), conflict_fault(base, r))
    } else if outputs_differ(r.windows) {
        fault(
            base + ".windows"@,
            "windows in one workbench cannot target multiple outputs in v0.1 because a Niri workspace belongs to one output"@,
        )
    } else if !counts_up(columns) {
        fault(
            base + ".windows"@,
            "tiling column indices must be contiguous starting at 1; found "@ + numbers_text(columns),
        )
    } else if r.focus is Some && !names_window(r.windows, r.focus->0) {
        fault(base + ".focus"@, "unknown logical window "@ + outside::debug_text(r.focus->0))
    } else {
        None
    }
}

pub open spec fn entry_fault(c: Seq<(Seq<char>, RecipeView)>) -> spec_fn(int) -> Option<Fault> {
    |i: int| recipe_fault(c[i].0, c[i].1)
}

/// The first thing that is wrong with the configuration, by the order of the
/// recipes' keys.
pub open spec fn config_fault(c: Seq<(Seq<char>, RecipeView)>) -> Option<Fault> {
    if c.len() == 0 {
        fault("workbench"@, "no workbenches are defined"@)
    } else {
        lists::first_given(c.len(), entry_fault(c))
    }
}

/// An error says just what the fault is.
pub open spec fn says(e: ConfigError, f: Option<Fault>) -> bool {
    f is Some && e@ == (ConfigErrorView::Validation { path: f->0.path, message: f->0.message })
}

// Checking

fn validation(path: String, message: String) -> (out: ConfigError)
    ensures
        out@ == (ConfigErrorView::Validation { path: path@, message: message@ }),
{
    ConfigError::Validation { path, message }
}

fn joined2(a: &str, b: &str) -> (out: String)
    ensures
        out@ == a@ + b@,
{
    let mut out: String = a.to_owned();
    out.append(b);
    out
}

fn path_of_window(base: &str, i: usize) -> (out: String)
    ensures
        out@ == window_path(base@, i as int),
{
    let mut out: String = joined2(base, ".windows[");
    push_number(&mut out, i as u64);
    out.append("]");
    out
}

fn check_pattern(path: &str, field: &str, pattern: &Option<String>) -> (out: Result<(), ConfigError>)
    ensures
        match out {
            Ok(()) => pattern_fault(path@, field@, text::opt_text(*pattern)) is None,
            Err(e) => says(e, pattern_fault(path@, field@, text::opt_text(*pattern))),
        },
{
    if let Some(p) = pattern {
        if let Some(source) = pattern_error(p.as_str()) {
            let mut at: String = joined2(path, ".match.");
            at.append(field);
            let mut message: String = joined2("invalid regex ", debug_string(p.as_str()).as_str());
            message.append(": ");
            message.append(source.as_str());
            return Err(validation(at, message));
        }
    }
    Ok(())
}

/// Whether an earlier window has the name of window `i`.
fn has_repeated_name(windows: &Vec<WindowSpec>, i: usize) -> (out: bool)
    requires
        i < windows@.len(),
    ensures
        out == repeats_name(model::window_views(windows@), i as int),
{
    let ghost views = model::window_views(windows@);
    for j in 0..i
        invariant
            i < windows@.len(),
            views == model::window_views(windows@),
            forall|k: int| 0 <= k < j ==> (#[trigger] views[k]).name != views[i as int].name,
    {
        assert(views[j as int] == windows@[j as int]@);
        assert(views[i as int] == windows@[i as int]@);
        if windows[j].name == windows[i].name {
            return true;
        }
    }
    false
}

/// Checks window `i` by itself.
fn validate_window(base: &str, recipe: &Recipe, i: usize) -> (out: Result<(), ConfigError>)
    requires
        i < recipe.windows@.len(),
    ensures
        match out {
            Ok(()) => window_fault(base@, recipe@)(i as int) is None,
            Err(e) => says(e, window_fault(base@, recipe@)(i as int)),
        },
{
    let window: &WindowSpec = &recipe.windows[i];
    assert(recipe@.windows[i as int] == window@);
    let path: String = path_of_window(base, i);
    if blank(window.name.as_str()) {
        return Err(
            validation(joined2(path.as_str(), ".name"), "logical name cannot be empty".to_owned()),
        );
    }
    if has_repeated_name(&recipe.windows, i) {
        return Err(
            validation(
                joined2(path.as_str(), ".name"),
                joined2(
                    "duplicate logical window name ",
                    debug_string(window.name.as_str()).as_str(),
                ),
            ),
        );
    }
    if window.layout.column == 0 {
        return Err(
            validation(
                joined2(path.as_str(), ".layout.column"),
                "column indices start at 1".to_owned(),
            ),
        );
    }
    if window.command.len() == 0 && window.reuse == ReusePolicy::Never {
        return Err(
            validation(
                joined2(path.as_str(), ".command"),
                "reuse = \"never\" requires a spawn command".to_owned(),
            ),
        );
    }
    if window.match_spec.window_id.is_none() && window.match_spec.app_id.is_none()
        && window.match_spec.title.is_none() && window.match_spec.process.is_none()
        && window.match_spec.pid.is_none() {
        return Err(
            validation(
                joined2(path.as_str(), ".match"),
                "at least one matcher is required".to_owned(),
            ),
        );
    }
    if let Err(e) = check_pattern(path.as_str(), "app_id", &window.match_spec.app_id) {
        return Err(e);
    }
    if let Err(e) = check_pattern(path.as_str(), "title", &window.match_spec.title) {
        return Err(e);
    }
    if let Err(e) = check_pattern(path.as_str(), "process", &window.match_spec.process) {
        return Err(e);
    }
    if window.layout.floating && (window.layout.display.is_some()
        || window.layout.column_width.is_some()) {
        return Err(
            validation(
                joined2(path.as_str(), ".layout"),
                "floating windows cannot declare column display or column_width".to_owned(),
            ),
        );
    }
    if recipe.output.is_some() && window.layout.output.is_some() && !opt_eq(
        &recipe.output,
        &window.layout.output,
    ) {
        return Err(
            validation(
                joined2(path.as_str(), ".layout.output"),
                "v0.1 requires per-window output to match the workbench output;                      a Niri workspace belongs to one output".to_owned(),
            ),
        );
    }
    Ok(())
}

fn tiled_together(a: &WindowSpec, b: &WindowSpec) -> (out: bool)
    ensures
        out == (!a@.layout.floating && !b@.layout.floating && a@.layout.column == b@.layout.column),
{
    !a.layout.floating && !b.layout.floating && a.layout.column == b.layout.column
}

fn width_differs(a: Option<Size>, b: Option<Size>) -> (out: bool)
    ensures
        out == (a is Some && b is Some && a != b),
{
    match (a, b) {
        (Some(x), Some(y)) => x != y,
        _ => false,
    }
}

fn display_differs(a: Option<ColumnDisplay>, b: Option<ColumnDisplay>) -> (out: bool)
    ensures
        out == (a is Some && b is Some && a != b),
{
    match (a, b) {
        (Some(x), Some(y)) => x != y,
        _ => false,
    }
}

/// Checks what window `i` says of its column against the windows before it.
fn validate_column(base: &str, recipe: &Recipe, i: usize) -> (out: Result<(), ConfigError>)
    requires
        i < recipe.windows@.len(),
    ensures
        match out {
            Ok(()) => conflict_fault(base@, recipe@)(i as int) is None,
            Err(e) => says(e, conflict_fault(base@, recipe@)(i as int)),
        },
{
    let ghost views = recipe@.windows;
    let window: &WindowSpec = &recipe.windows[i];
    assert(views[i as int] == window@);
    let mut width: bool = false;
    let mut display: bool = false;
    for j in 0..i
        invariant
            i < recipe.windows@.len(),
            views == recipe@.windows,
            window@ == views[i as int],
            width == (views[i as int].layout.column_width is Some && exists|k: int|
                0 <= k < j && #[trigger] share_column(views, i as int, k)
                    && views[k].layout.column_width is Some && views[k].layout.column_width
                    != views[i as int].layout.column_width),
            display == (views[i as int].layout.display is Some && exists|k: int|
                0 <= k < j && #[trigger] share_column(views, i as int, k)
                    && views[k].layout.display is Some && views[k].layout.display
                    != views[i as int].layout.display),
    {
        let other: &WindowSpec = &recipe.windows[j];
        assert(views[j as int] == other@);
        let together: bool = tiled_together(window, other);
        assert(together == share_column(views, i as int, j as int));
        if together && width_differs(other.layout.column_width, window.layout.column_width) {
            width = true;
        }
        if together && display_differs(other.layout.display, window.layout.display) {
            display = true;
        }
    }
    if width {
        let mut message: String =
            "conflicts with another width declared for column ".to_owned();
        push_number(&mut message, window.layout.column as u64);
        return Err(
            validation(
                joined2(path_of_window(base, i).as_str(), ".layout.column_width"),
                message,
            ),
        );
    }
    if display {
        let mut message: String =
            "conflicts with another display mode declared for column ".to_owned();
        push_number(&mut message, window.layout.column as u64);
        return Err(
            validation(joined2(path_of_window(base, i).as_str(), ".layout.display"), message),
        );
    }
    Ok(())
}

/// Whether two windows want different outputs.
fn have_different_outputs(windows: &Vec<WindowSpec>) -> (out: bool)
    ensures
        out == outputs_differ(model::window_views(windows@)),
{
    let ghost views = model::window_views(windows@);
    let mut first: Option<usize> = None;
    for i in 0..windows.len()
        invariant
            views == model::window_views(windows@),
            match first {
                Some(f) => f < i && views[f as int].layout.output is Some,
                None => true,
            },
            forall|k: int|
                0 <= k < i && (#[trigger] views[k]).layout.output is Some ==> first is Some
                    && views[k].layout.output == views[first->0 as int].layout.output,
    {
        assert(views[i as int] == windows@[i as int]@);
        if windows[i].layout.output.is_some() {
            match first {
                Some(f) => {
                    assert(views[f as int] == windows@[f as int]@);
                    if !opt_eq(&windows[f].layout.output, &windows[i].layout.output) {
                        assert(views[f as int].layout.output != views[i as int].layout.output);
                        return true;
                    }
                },
                None => {
                    first = Some(i);
                },
            }
        }
    }
    false
}

fn debug_numbers(columns: &Vec<usize>) -> (out: String)
    ensures
        out@ == numbers_text(columns@),
{
    let mut parts: Vec<String> = Vec::new();
    for i in 0..columns.len()
        invariant
            parts@.len() == i,
            forall|k: int| 0 <= k < i ==> (#[trigger] parts@[k])@ == text::decimal(columns@[k] as nat),
    {
        parts.push(text::number_text(columns[i] as u64));
    }
    assert(text::texts(parts@) =~= columns@.map_values(|c: usize| text::decimal(c as nat)));
    let mut out: String = joined2("[", text::join(&parts, ", ").as_str());
    out.append("]");
    out
}

fn is_counting_up(columns: &Vec<usize>) -> (out: bool)
    ensures
        out == counts_up(columns@),
{
    for i in 0..columns.len()
        invariant
            forall|k: int| 0 <= k < i ==> #[trigger] columns@[k] == k + 1,
    {
        if columns[i] != i + 1 {
            assert(columns@[i as int] != i + 1);
            return false;
        }
    }
    true
}

fn has_window_named(windows: &Vec<WindowSpec>, name: &str) -> (out: bool)
    ensures
        out == names_window(model::window_views(windows@), name@),
{
    let ghost views = model::window_views(windows@);
    for i in 0..windows.len()
        invariant
            views == model::window_views(windows@),
            forall|k: int| 0 <= k < i ==> (#[trigger] views[k]).name != name@,
    {
        assert(views[i as int] == windows@[i as int]@);
        if str_eq(windows[i].name.as_str(), name) {
            return true;
        }
    }
    false
}

/// Checks the recipe `name`, and says what is wrong first where something is.
pub fn validate_recipe(name: &str, recipe: &Recipe) -> (out: Result<(), ConfigError>)
    ensures
        match out {
            Ok(()) => recipe_fault(name@, recipe@) is None,
            Err(e) => says(e, recipe_fault(name@, recipe@)),
        },
{
    let base: String = joined2("workbench.", name);
    let ghost r = recipe@;
    if blank(recipe.workspace.as_str()) {
        return Err(
            validation(
                joined2(base.as_str(), ".workspace"),
                "workspace name cannot be empty".to_owned(),
            ),
        );
    }
    let n: usize = recipe.windows.len();
    if n == 0 {
        return Err(
            validation(
                joined2(base.as_str(), ".windows"),
                "at least one window is required".to_owned(),
            ),
        );
    }
    let ghost f = window_fault(base@, r);
    for i in 0..n
        invariant
            n == recipe.windows@.len(),
            r == recipe@,
            f == window_fault(base@, r),
            forall|k: int| 0 <= k < i ==> (#[trigger] f(k)) is None,
            base@ == "workbench."@ + name@,
            !text::is_blank(r.workspace),
    {
        if let Err(e) = validate_window(base.as_str(), recipe, i) {
            proof {
                lists::first_given_is(n as nat, f, i as int);
            }
            return Err(e);
        }
    }
    proof {
        lists::first_given_none(n as nat, f);
    }
    let ghost g = conflict_fault(base@, r);
    for i in 0..n
        invariant
            n == recipe.windows@.len(),
            r == recipe@,
            g == conflict_fault(base@, r),
            forall|k: int| 0 <= k < i ==> (#[trigger] g(k)) is None,
            base@ == "workbench."@ + name@,
            !text::is_blank(r.workspace),
            lists::first_given(n as nat, window_fault(base@, r)) is None,
    {
        if let Err(e) = validate_column(base.as_str(), recipe, i) {
            proof {
                lists::first_given_is(n as nat, g, i as int);
            }
            return Err(e);
        }
    }
    proof {
        lists::first_given_none(n as nat, g);
    }
    if have_different_outputs(&recipe.windows) {
        return Err(
            validation(
                joined2(base.as_str(), ".windows"),
                "windows in one workbench cannot target multiple outputs in v0.1 because a Niri workspace belongs to one output".to_owned(),
            ),
        );
    }
    let columns: Vec<usize> = group_keys(&keys_of(&recipe.windows));
    if !is_counting_up(&columns) {
        return Err(
            validation(
                joined2(base.as_str(), ".windows"),
                joined2(
                    "tiling column indices must be contiguous starting at 1; found ",
                    debug_numbers(&columns).as_str(),
                ),
            ),
        );
    }
    if let Some(focus) = &recipe.focus {
        if !has_window_named(&recipe.windows, focus.as_str()) {
            return Err(
                validation(
                    joined2(base.as_str(), ".focus"),
                    joined2("unknown logical window ", debug_string(focus.as_str()).as_str()),
                ),
            );
        }
    }
    Ok(())
}

/// Checks every recipe, in the order of their keys.
pub fn validate_config(config: &Config) -> (out: Result<(), ConfigError>)
    ensures
        match out {
            Ok(()) => config_fault(config@) is None,
            Err(e) => says(e, config_fault(config@)),
        },
{
    let n: usize = config.workbench.len();
    if n == 0 {
        return Err(
            validation("workbench".to_owned(), "no workbenches are defined".to_owned()),
        );
    }
    let ghost f = entry_fault(config@);
    for i in 0..n
        invariant
            n == config.workbench@.len(),
            f == entry_fault(config@),
            forall|k: int| 0 <= k < i ==> (#[trigger] f(k)) is None,
    {
        assert(config@[i as int] == (config.workbench@[i as int].0, config.workbench@[i as int].1@));
        if let Err(e) = validate_recipe(
            config.workbench.name_at(i).as_str(),
            config.workbench.value_at(i),
        ) {
            proof {
                lists::first_given_is(n as nat, f, i as int);
            }
            return Err(e);
        }
        assert(f(i as int) is None);
    }
    proof {
        lists::first_given_none(n as nat, f);
    }
    Ok(())
}

} // verus!
