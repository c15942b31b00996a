//! What is promised of messages: they name what they are about.
use crate::capture;
use crate::capture::CaptureError;
use crate::config;
use crate::config::ConfigErrorView;
use crate::execute;
use crate::execute::ApplyErrorView;
use crate::matcher;
use crate::matcher::{CandidateView, DecisionView, MatchErrorView};
use crate::model::ColumnDisplay;
use crate::outside;
use crate::planner::ActionView;
use crate::resolve;
use crate::resolve::{RepairErrorView, ResolveErrorView};
use crate::session;
use crate::session::NiriErrorView;
use crate::show;
use crate::spawn;
use crate::spawn::SpawnErrorView;
use crate::text;
use vstd::prelude::*;

verus! {

proof fn stands_between(a: Seq<char>, b: Seq<char>, c: Seq<char>)
    ensures
        text::has_part(a + b + c, b),
        text::has_part(a + b, b),
        text::has_part(b + c, b),
{
    assert((a + b + c).subrange(a.len() as int, (a.len() + b.len()) as int) =~= b);
    assert(text::occurs_at(a + b + c, b, a.len() as int));
    assert((a + b).subrange(a.len() as int, (a.len() + b.len()) as int) =~= b);
    assert(text::occurs_at(a + b, b, a.len() as int));
    assert((b + c).subrange(0, b.len() as int) =~= b);
    assert(text::occurs_at(b + c, b, 0));
}

proof fn stands_on(s: Seq<char>, part: Seq<char>, tail: Seq<char>)
    requires
        text::has_part(s, part),
    ensures
        text::has_part(s + tail, part),
        text::has_part(tail + s, part),
{
    let i = choose|i: int| text::occurs_at(s, part, i);
    assert((s + tail).subrange(i, i + part.len()) =~= s.subrange(i, i + part.len()));
    assert(text::occurs_at(s + tail, part, i));
    let k = tail.len() + i;
    assert((tail + s).subrange(k, k + part.len()) =~= s.subrange(i, i + part.len()));
    assert(text::occurs_at(tail + s, part, k));
}

/// A message about a matcher names the field, the pattern and what is wrong with it.
pub proof fn matcher_messages_name_the_pattern(e: MatchErrorView)
    ensures
        ({
            let out = matcher::match_error_text(e);
            &&& text::has_part(out, e.field)
            &&& text::has_part(out, outside::debug_text(e.pattern))
            &&& text::has_part(out, e.source)
        }),
{
    let p = outside::debug_text(e.pattern);
    let a = "invalid "@ + e.field;
    let b = a + " regex "@;
    let c = b + p;
    let d = c + ": "@;
    stands_between("invalid "@, e.field, Seq::empty());
    stands_on(a, e.field, " regex "@);
    stands_on(b, e.field, p);
    stands_on(c, e.field, ": "@);
    stands_on(d, e.field, e.source);
    stands_between(b, p, Seq::empty());
    stands_on(c, p, ": "@);
    stands_on(d, p, e.source);
    stands_between(d, e.source, Seq::empty());
}

/// A message about a logical window that cannot be told names it.
pub proof fn resolve_messages_name_the_window(e: ResolveErrorView)
    ensures
        ({
            let out = resolve::resolve_error_text(e);
            match e {
                ResolveErrorView::Matcher { name, source } => text::has_part(
                    out,
                    outside::debug_text(name),
                ) && text::has_part(out, matcher::match_error_text(source)),
                ResolveErrorView::Unmatched { name } => text::has_part(
                    out,
                    outside::debug_text(name),
                ),
                ResolveErrorView::Ambiguous { name, matcher, candidates } => text::has_part(
                    out,
                    outside::debug_text(name),
                ) && text::has_part(out, text::decimal(candidates.len())) && text::has_part(
                    out,
                    resolve::candidate_lines(candidates),
                ) && text::has_part(out, matcher),
            }
        }),
{
    match e {
        ResolveErrorView::Matcher { name, source } => {
            let n = outside::debug_text(name);
            let m = matcher::match_error_text(source);
            let a = "invalid matcher for logical window "@;
            stands_between(a, n, Seq::empty());
            stands_on(a + n, n, ": "@);
            stands_on(a + n + ": "@, n, m);
            stands_between(a + n + ": "@, m, Seq::empty());
        },
        ResolveErrorView::Unmatched { name } => {
            stands_between(
                "could not resolve window "@,
                outside::debug_text(name),
                ": no matching window exists and command is empty"@,
            );
        },
        ResolveErrorView::Ambiguous { name, matcher, candidates } => {
            let n = outside::debug_text(name);
            let count = text::decimal(candidates.len());
            let lines = resolve::candidate_lines(candidates);
            let a = "could not safely resolve window "@;
            let b = " pre-existing windows match\nmatcher: "@;
            let c = "\ncandidates:\n"@;
            let z =
                "refine the matcher (usually title/process), or set reuse = \"never\" if a new window is intentional"@;
            let s1 = a + n;
            let s2 = s1 + ": "@;
            let s3 = s2 + count;
            let s4 = s3 + b;
            let s5 = s4 + matcher;
            let s6 = s5 + c;
            let s7 = s6 + lines;
            stands_between(a, n, Seq::empty());
            stands_on(s1, n, ": "@);
            stands_on(s2, n, count);
            stands_on(s3, n, b);
            stands_on(s4, n, matcher);
            stands_on(s5, n, c);
            stands_on(s6, n, lines);
            stands_on(s7, n, z);
            stands_between(s2, count, Seq::empty());
            stands_on(s3, count, b);
            stands_on(s4, count, matcher);
            stands_on(s5, count, c);
            stands_on(s6, count, lines);
            stands_on(s7, count, z);
            stands_between(s4, matcher, Seq::empty());
            stands_on(s5, matcher, c);
            stands_on(s6, matcher, lines);
            stands_on(s7, matcher, z);
            stands_between(s6, lines, Seq::empty());
            stands_on(s7, lines, z);
        },
    }
}

/// The candidates of a message are named one by one, each by its identifier.
pub proof fn candidates_are_named(cs: Seq<CandidateView>, i: int)
    requires
        0 <= i < cs.len(),
    ensures
        text::has_part(resolve::candidate_lines(cs), resolve::candidate_text(cs[i])),
        text::has_part(
            resolve::candidate_text(cs[i]),
            "id="@ + text::decimal(cs[i].id as nat),
        ),
    decreases cs.len(),
{
    let c = cs[i];
    let line = resolve::candidate_text(c);
    let before = resolve::candidate_lines(cs.drop_last());
    if i == cs.len() - 1 {
        stands_between(before, line, "\n"@);
        assert(before + (line + "\n"@) =~= before + line + "\n"@);
    } else {
        candidates_are_named(cs.drop_last(), i);
        stands_on(before, line, resolve::candidate_line(cs.last()));
    }
    candidates_show_their_id(c);
}

proof fn candidates_show_their_id(c: CandidateView)
    ensures
        text::has_part(resolve::candidate_text(c), "id="@ + text::decimal(c.id as nat)),
{
    let id = "id="@ + text::decimal(c.id as nat);
    let s1 = "  id="@ + text::decimal(c.id as nat);
    assert(s1 =~= seq![' ', ' '] + id) by {
        reveal_strlit("  id=");
        reveal_strlit("id=");
        assert("  id="@ =~= seq![' ', ' '] + "id="@);
    }
    stands_between(seq![' ', ' '], id, Seq::empty());
    let s2 = s1 + " app_id="@;
    let s3 = s2 + show::opt_debug(c.app_id);
    let s4 = s3 + " title="@;
    let s5 = s4 + show::opt_debug(c.title);
    let s6 = s5 + " pid="@;
    let s7 = s6 + show::opt_number(show::pid_int(c.pid));
    let s8 = s7 + " process="@;
    stands_on(s1, id, " app_id="@);
    stands_on(s2, id, show::opt_debug(c.app_id));
    stands_on(s3, id, " title="@);
    stands_on(s4, id, show::opt_debug(c.title));
    stands_on(s5, id, " pid="@);
    stands_on(s6, id, show::opt_number(show::pid_int(c.pid)));
    stands_on(s7, id, " process="@);
    stands_on(s8, id, show::opt_debug(c.process_exe));
}

/// A message about a repair names the logical window, or all that are missing, and what
/// can be done instead.
pub proof fn repair_messages_name_the_windows(e: RepairErrorView, key: Seq<char>)
    ensures
        ({
            let out = resolve::repair_error_text(e, key);
            match e {
                RepairErrorView::Matcher { name, source } => text::has_part(
                    out,
                    outside::debug_text(name),
                ),
                RepairErrorView::Ambiguous { name, count } => text::has_part(
                    out,
                    outside::debug_text(name),
                ) && text::has_part(out, text::decimal(count)),
                RepairErrorView::Missing { names } => text::has_part(
                    out,
                    text::joined(names, ", "@),
                ) && text::has_part(out, "niri-workbench open "@ + key),
            }
        }),
{
    match e {
        RepairErrorView::Matcher { name, source } => {
            let n = outside::debug_text(name);
            let a = "invalid matcher for logical window "@;
            stands_between(a, n, Seq::empty());
            stands_on(a + n, n, ": "@);
            stands_on(a + n + ": "@, n, matcher::match_error_text(source));
        },
        RepairErrorView::Ambiguous { name, count } => {
            let n = outside::debug_text(name);
            let d = text::decimal(count);
            let a = "cannot repair "@ + n;
            let z = " existing windows match; refine its matcher first"@;
            stands_between("cannot repair "@, n, Seq::empty());
            stands_on(a, n, ": "@);
            stands_on(a + ": "@, n, d);
            stands_on(a + ": "@ + d, n, z);
            stands_between(a + ": "@, d, z);
        },
        RepairErrorView::Missing { names } => {
            let all = text::joined(names, ", "@);
            let a = "repair never launches applications; missing window(s): "@;
            let b = ". Use niri-workbench open "@;
            let out = resolve::repair_error_text(e, key);
            stands_between(a, all, Seq::empty());
            stands_on(a + all, all, b);
            stands_on(a + all + b, all, key);
            stands_on(a + all + b + key, all, " instead."@);
            reveal_strlit(". Use niri-workbench open ");
            reveal_strlit("niri-workbench open ");
            let part = "niri-workbench open "@ + key;
            assert(b =~= seq!['.', ' ', 'U', 's', 'e', ' '] + "niri-workbench open "@);
            let at = (a + all).len() + 6;
            assert(out.subrange(at as int, (at + part.len()) as int) =~= part);
            assert(text::occurs_at(out, part, at as int));
        },
    }
}

/// A message about a window that was not started names it and says what went wrong.
pub proof fn spawn_messages_name_the_window(e: SpawnErrorView)
    ensures
        ({
            let out = spawn::spawn_error_text(e);
            match e {
                SpawnErrorView::MissingCommand { name } => text::has_part(
                    out,
                    outside::debug_text(name),
                ),
                SpawnErrorView::Expand { name, arg, message } => text::has_part(
                    out,
                    outside::debug_text(name),
                ) && text::has_part(out, outside::debug_text(arg)) && text::has_part(out, message),
                SpawnErrorView::Launch { name, command, message } => text::has_part(
                    out,
                    outside::debug_text(name),
                ) && text::has_part(out, spawn::list_debug(command)) && text::has_part(
                    out,
                    message,
                ),
                SpawnErrorView::Timeout { name, command, timeout_ms, matcher, candidates } =>
                text::has_part(out, outside::debug_text(name)) && text::has_part(
                    out,
                    text::decimal(timeout_ms as nat),
                ) && text::has_part(out, matcher) && text::has_part(out, candidates),
                SpawnErrorView::Matcher { name, message } => text::has_part(
                    out,
                    outside::debug_text(name),
                ) && text::has_part(out, message),
                SpawnErrorView::EventStreamClosed { name } => text::has_part(
                    out,
                    outside::debug_text(name),
                ),
            }
        }),
{
    match e {
        SpawnErrorView::MissingCommand { name } => {
            stands_between(
                "window "@,
                outside::debug_text(name),
                " is missing and has no spawn command"@,
            );
        },
        SpawnErrorView::Expand { name, arg, message } => {
            let n = outside::debug_text(name);
            let g = outside::debug_text(arg);
            let s1 = "could not expand argument "@ + g;
            let s2 = s1 + " for window "@;
            let s3 = s2 + n;
            let s4 = s3 + ": "@;
            stands_between("could not expand argument "@, g, Seq::empty());
            stands_on(s1, g, " for window "@);
            stands_on(s2, g, n);
            stands_on(s3, g, ": "@);
            stands_on(s4, g, message);
            stands_between(s2, n, Seq::empty());
            stands_on(s3, n, ": "@);
            stands_on(s4, n, message);
            stands_between(s4, message, Seq::empty());
        },
        SpawnErrorView::Launch { name, command, message } => {
            let n = outside::debug_text(name);
            let g = spawn::list_debug(command);
            let s1 = "could not launch window "@ + n;
            let s2 = s1 + " with command "@;
            let s3 = s2 + g;
            let s4 = s3 + ": "@;
            stands_between("could not launch window "@, n, Seq::empty());
            stands_on(s1, n, " with command "@);
            stands_on(s2, n, g);
            stands_on(s3, n, ": "@);
            stands_on(s4, n, message);
            stands_between(s2, g, Seq::empty());
            stands_on(s3, g, ": "@);
            stands_on(s4, g, message);
            stands_between(s4, message, Seq::empty());
        },
        SpawnErrorView::Timeout { name, command, timeout_ms, matcher, candidates } => {
            let n = outside::debug_text(name);
            let t = text::decimal(timeout_ms as nat);
            let g = spawn::list_debug(command);
            let s1 = "could not resolve window "@ + n;
            let s2 = s1 + " within "@;
            let s3 = s2 + t;
            let s4 = s3 + "ms after spawning "@;
            let s5 = s4 + g;
            let s6 = s5 + "\nmatcher: "@;
            let s7 = s6 + matcher;
            let s8 = s7 + "\nobserved new candidates:\n"@;
            stands_between("could not resolve window "@, n, Seq::empty());
            stands_on(s1, n, " within "@);
            stands_on(s2, n, t);
            stands_on(s3, n, "ms after spawning "@);
            stands_on(s4, n, g);
            stands_on(s5, n, "\nmatcher: "@);
            stands_on(s6, n, matcher);
            stands_on(s7, n, "\nobserved new candidates:\n"@);
            stands_on(s8, n, candidates);
            stands_between(s2, t, Seq::empty());
            stands_on(s3, t, "ms after spawning "@);
            stands_on(s4, t, g);
            stands_on(s5, t, "\nmatcher: "@);
            stands_on(s6, t, matcher);
            stands_on(s7, t, "\nobserved new candidates:\n"@);
            stands_on(s8, t, candidates);
            stands_between(s6, matcher, Seq::empty());
            stands_on(s7, matcher, "\nobserved new candidates:\n"@);
            stands_on(s8, matcher, candidates);
            stands_between(s8, candidates, Seq::empty());
        },
        SpawnErrorView::Matcher { name, message } => {
            let n = outside::debug_text(name);
            let s1 = "matcher error while waiting for "@ + n;
            stands_between("matcher error while waiting for "@, n, Seq::empty());
            stands_on(s1, n, ": "@);
            stands_on(s1 + ": "@, n, message);
            stands_between(s1 + ": "@, message, Seq::empty());
        },
        SpawnErrorView::EventStreamClosed { name } => {
            stands_between(
                "Niri EventStream disconnected while waiting for window "@,
                outside::debug_text(name),
                Seq::empty(),
            );
        },
    }
}

/// A message about the configuration names where it is and what is wrong there.
pub proof fn config_messages_name_the_place(e: ConfigErrorView)
    ensures
        ({
            let out = config::config_error_text(e);
            match e {
                ConfigErrorView::Read { path, message } => text::has_part(out, path)
                    && text::has_part(out, message),
                ConfigErrorView::Parse { path, field, message } => text::has_part(out, path)
                    && text::has_part(out, field) && text::has_part(out, message),
                ConfigErrorView::Validation { path, message } => out == path + ": "@ + message,
            }
        }),
{
    match e {
        ConfigErrorView::Read { path, message } => {
            let s1 = "could not read config "@ + path;
            stands_between("could not read config "@, path, Seq::empty());
            stands_on(s1, path, ": "@);
            stands_on(s1 + ": "@, path, message);
            stands_between(s1 + ": "@, message, Seq::empty());
        },
        ConfigErrorView::Parse { path, field, message } => {
            let s1 = "could not parse config "@ + path;
            let s2 = s1 + " at "@;
            let s3 = s2 + field;
            let s4 = s3 + ": "@;
            stands_between("could not parse config "@, path, Seq::empty());
            stands_on(s1, path, " at "@);
            stands_on(s2, path, field);
            stands_on(s3, path, ": "@);
            stands_on(s4, path, message);
            stands_between(s2, field, Seq::empty());
            stands_on(s3, field, ": "@);
            stands_on(s4, field, message);
            stands_between(s4, message, Seq::empty());
        },
        ConfigErrorView::Validation { path, message } => {},
    }
}

/// A message of the compositor names what was asked of it.
pub proof fn compositor_messages_name_what_was_asked(e: NiriErrorView)
    ensures
        ({
            let out = session::niri_error_text(e);
            match e {
                NiriErrorView::Connect { path, message } => text::has_part(out, path)
                    && text::has_part(out, message),
                NiriErrorView::Io(s) => text::has_part(out, s),
                NiriErrorView::Json(s) => text::has_part(out, s),
                NiriErrorView::Rejected(s) => text::has_part(out, s),
                NiriErrorView::Unexpected(s) => text::has_part(out, s),
                NiriErrorView::MissingOutput(s) => text::has_part(out, outside::debug_text(s)),
                NiriErrorView::NoEmptyWorkspace(s) => text::has_part(out, outside::debug_text(s)),
                NiriErrorView::WorkspaceDidNotConverge(s) => text::has_part(out, s),
                NiriErrorView::MissingSocket => out
                    == "NIRI_SOCKET is not set; run inside a Niri session or pass --socket"@,
                NiriErrorView::IncompleteInitialState => out
                    == "event stream ended before initial window/workspace state arrived"@,
                NiriErrorView::EventStreamClosed => out
                    == "Niri EventStream disconnected while waiting for state convergence"@,
                NiriErrorView::StateTimeout => out
                    == "timed out waiting for Niri state to change"@,
                NiriErrorView::NoOutput => out
                    == "could not determine a focused/connected output"@,
            }
        }),
{
    match e {
        NiriErrorView::Connect { path, message } => {
            let s1 = "could not connect to Niri socket "@ + path;
            stands_between("could not connect to Niri socket "@, path, Seq::empty());
            stands_on(s1, path, ": "@);
            stands_on(s1 + ": "@, path, message);
            stands_between(s1 + ": "@, message, Seq::empty());
        },
        NiriErrorView::Io(s) => {
            stands_between("Niri IPC I/O failed: "@, s, Seq::empty());
        },
        NiriErrorView::Json(s) => {
            stands_between("invalid JSON from Niri: "@, s, Seq::empty());
        },
        NiriErrorView::Rejected(s) => {
            stands_between("Niri rejected request: "@, s, Seq::empty());
        },
        NiriErrorView::Unexpected(s) => {
            stands_between("unexpected Niri response: "@, s, Seq::empty());
        },
        NiriErrorView::MissingOutput(s) => {
            stands_between(
                "requested output "@,
                outside::debug_text(s),
                " is not connected"@,
            );
        },
        NiriErrorView::NoEmptyWorkspace(s) => {
            stands_between(
                "could not find an empty workspace on output "@,
                outside::debug_text(s),
                Seq::empty(),
            );
        },
        NiriErrorView::WorkspaceDidNotConverge(s) => {
            stands_between("workspace operation did not converge: "@, s, Seq::empty());
        },
        _ => {},
    }
}

/// A message about a plan names the window that is gone, or the action that did not
/// take effect.
pub proof fn apply_messages_name_the_window(e: ApplyErrorView)
    ensures
        ({
            let out = execute::apply_error_text(e);
            match e {
                ApplyErrorView::Niri(message) => out == message,
                ApplyErrorView::WindowDisappeared { name, id } => text::has_part(
                    out,
                    outside::debug_text(name),
                ) && text::has_part(out, text::decimal(id as nat)),
                ApplyErrorView::DidNotConverge { steps, last_action } => text::has_part(
                    out,
                    last_action,
                ) && text::has_part(out, text::decimal(steps as nat)),
            }
        }),
{
    match e {
        ApplyErrorView::Niri(_) => {},
        ApplyErrorView::WindowDisappeared { name, id } => {
            let n = outside::debug_text(name);
            let d = text::decimal(id as nat);
            let s1 = "window "@ + n;
            let s2 = s1 + " (id "@;
            let z = ") disappeared while applying the recipe"@;
            stands_between("window "@, n, Seq::empty());
            stands_on(s1, n, " (id "@);
            stands_on(s2, n, d);
            stands_on(s2 + d, n, z);
            stands_between(s2, d, z);
        },
        ApplyErrorView::DidNotConverge { steps, last_action } => {
            let d = text::decimal(steps as nat);
            let s1 = "reconciliation did not converge after "@ + d;
            let s2 = s1 + " mutations; last action: "@;
            stands_between("reconciliation did not converge after "@, d, Seq::empty());
            stands_on(s1, d, " mutations; last action: "@);
            stands_on(s2, d, last_action);
            stands_between(s2, last_action, Seq::empty());
        },
    }
}

/// What a capture cannot be made of is said.
pub proof fn capture_messages_say_what_is_missing(e: CaptureError)
    ensures
        match e {
            CaptureError::NoWorkspace => capture::capture_error_text(e)
                == "Niri has no workspace to capture"@,
            CaptureError::NoWindows => capture::capture_error_text(e)
                == "focused workspace has no windows"@,
            CaptureError::SelectionMismatch => capture::capture_error_text(e)
                == "capture selection does not match detected windows"@,
            CaptureError::NothingSelected => capture::capture_error_text(e)
                == "select at least one window to save"@,
        },
{
}

/// The windows that came up are named where there are any.
pub proof fn new_candidates_are_named(d: DecisionView)
    ensures
        d is Missing ==> spawn::new_candidates_text(Some(d)) == "  (none matched)"@,
        d is One ==> spawn::new_candidates_text(Some(d)) == resolve::candidate_text(d->One_0),
        spawn::new_candidates_text(None) == "  (none matched)"@,
{
}

/// The kind of an action, as it is logged.
pub open spec fn kind_of(a: ActionView) -> Seq<char> {
    match a {
        ActionView::MoveToWorkspace { .. } => "MoveToWorkspace"@,
        ActionView::SetFloating { .. } => "SetFloating"@,
        ActionView::ExpelRight { .. } => "ExpelRight"@,
        ActionView::MoveColumnToIndex { .. } => "MoveColumnToIndex"@,
        ActionView::ConsumeLeft { .. } => "ConsumeLeft"@,
        ActionView::MoveWindowUp { .. } => "MoveWindowUp"@,
        ActionView::MoveWindowDown { .. } => "MoveWindowDown"@,
        ActionView::SetColumnWidth { .. } => "SetColumnWidth"@,
        ActionView::SetWindowHeight { .. } => "SetWindowHeight"@,
        ActionView::SetColumnDisplay { .. } => "SetColumnDisplay"@,
        ActionView::Focus { .. } => "Focus"@,
    }
}

/// What the action asks for, as it is logged.
pub open spec fn asked_of(a: ActionView, ratio: Seq<char>) -> Seq<char> {
    match a {
        ActionView::MoveToWorkspace { to, .. } => ", to: "@ + text::decimal(to as nat) + " }"@,
        ActionView::SetFloating { floating, .. } => ", floating: "@ + (if floating {
            "true"@
        } else {
            "false"@
        }) + " }"@,
        ActionView::MoveColumnToIndex { to, .. } => ", to: "@ + text::decimal(to as nat) + " }"@,
        ActionView::ConsumeLeft { target_column, .. } => ", target_column: "@ + text::decimal(
            target_column as nat,
        ) + " }"@,
        ActionView::MoveWindowUp { to, .. } => ", to: "@ + text::decimal(to as nat) + " }"@,
        ActionView::MoveWindowDown { to, .. } => ", to: "@ + text::decimal(to as nat) + " }"@,
        ActionView::SetColumnWidth { size, .. } => ", size: "@ + execute::size_debug(size, ratio)
            + " }"@,
        ActionView::SetWindowHeight { size, .. } => ", size: "@ + execute::size_debug(size, ratio)
            + " }"@,
        ActionView::SetColumnDisplay { display, .. } => ", display: "@ + (match display {
            ColumnDisplay::Normal => "Normal"@,
            ColumnDisplay::Tabbed => "Tabbed"@,
        }) + " }"@,
        _ => " }"@,
    }
}

proof fn is_framed(out: Seq<char>, head: Seq<char>, middle: Seq<char>, end: Seq<char>)
    requires
        out == head + middle + end,
    ensures
        head.is_prefix_of(out),
        end.is_suffix_of(out),
{
    assert(out.take(head.len() as int) =~= head);
    assert(out.skip(out.len() - end.len()) =~= end);
}

/// An action is told from another by its kind, its window and what it asks for.
pub proof fn actions_are_told_apart(a: ActionView, ratio: Seq<char>, id: u64)
    requires
        id == crate::plan_laws::target(a),
    ensures
        ({
            let out = execute::fingerprint_of(a, ratio);
            let head = kind_of(a) + (" { name: "@ + outside::debug_text(execute::action_name(a))
                + ", window_id: "@ + text::decimal(id as nat));
            head.is_prefix_of(out) && asked_of(a, ratio).is_suffix_of(out)
        }),
{
    let out = execute::fingerprint_of(a, ratio);
    let head = kind_of(a) + (" { name: "@ + outside::debug_text(execute::action_name(a))
        + ", window_id: "@ + text::decimal(id as nat));
    let end = asked_of(a, ratio);
    match a {
        ActionView::MoveToWorkspace { from, .. } => {
            let m = ", from: "@ + show::opt_number(show::id_int(from));
            assert(out =~= head + m + end);
            is_framed(out, head, m, end);
        },
        ActionView::MoveColumnToIndex { from, .. } => {
            let m = ", from: "@ + show::opt_number(show::place_int(from));
            assert(out =~= head + m + end);
            is_framed(out, head, m, end);
        },
        ActionView::MoveWindowUp { from, .. } => {
            let m = ", from: "@ + text::decimal(from as nat);
            assert(out =~= head + m + end);
            is_framed(out, head, m, end);
        },
        ActionView::MoveWindowDown { from, .. } => {
            let m = ", from: "@ + text::decimal(from as nat);
            assert(out =~= head + m + end);
            is_framed(out, head, m, end);
        },
        ActionView::SetColumnWidth { column, .. } => {
            let m = ", column: "@ + text::decimal(column as nat);
            assert(out =~= head + m + end);
            is_framed(out, head, m, end);
        },
        ActionView::SetColumnDisplay { column, .. } => {
            let m = ", column: "@ + text::decimal(column as nat);
            assert(out =~= head + m + end);
            is_framed(out, head, m, end);
        },
        _ => {
            assert(out =~= head + Seq::empty() + end);
            is_framed(out, head, Seq::empty(), end);
        },
    }
}

} // verus!
