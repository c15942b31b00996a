//! Starting the command of a missing window and waiting for the window.
use crate::environment;
use crate::environment::{Environment, EnvironmentView};
use crate::lists;
use crate::matcher;
use crate::matcher::{
    choose_candidate, Candidate, CandidateDecision, CandidateView, DecisionView, MatchError,
};
use crate::model;
use crate::model::{MatchView, ObservedState, RuntimeView, RuntimeWindow, WindowSpec};
use crate::outside;
use crate::outside::{debug_string, expand_text};
use crate::resolve;
use crate::resolve::push_candidate;
use crate::show;
use crate::show::matcher_text;
use crate::text;
use crate::text::{copy_list, join, push_number};
use std::collections::HashSet;
use vstd::prelude::*;

verus! {

/// Why a window did not come up.
#[derive(Debug, PartialEq, Eq)]
#[allow(inconsistent_fields)]
pub enum SpawnError {
    MissingCommand { name: String },
    Expand { name: String, arg: String, message: String },
    Launch { name: String, command: Vec<String>, message: String },
    Timeout {
        name: String,
        command: Vec<String>,
        timeout_ms: u64,
        matcher: String,
        candidates: String,
    },
    Matcher { name: String, message: String },
    EventStreamClosed { name: String },
}

#[verifier::ext_equal]
#[allow(inconsistent_fields)]
pub enum SpawnErrorView {
    MissingCommand { name: Seq<char> },
    Expand { name: Seq<char>, arg: Seq<char>, message: Seq<char> },
    Launch { name: Seq<char>, command: Seq<Seq<char>>, message: Seq<char> },
    Timeout {
        name: Seq<char>,
        command: Seq<Seq<char>>,
        timeout_ms: u64,
        matcher: Seq<char>,
        candidates: Seq<char>,
    },
    Matcher { name: Seq<char>, message: Seq<char> },
    EventStreamClosed { name: Seq<char> },
}

impl View for SpawnError {
    type V = SpawnErrorView;

    open spec fn view(&self) -> SpawnErrorView {
        match *self {
            SpawnError::MissingCommand { name } => SpawnErrorView::MissingCommand { name: name@ },
            SpawnError::Expand { name, arg, message } => SpawnErrorView::Expand {
                name: name@,
                arg: arg@,
                message: message@,
            },
            SpawnError::Launch { name, command, message } => SpawnErrorView::Launch {
                name: name@,
                command: text::texts(command@),
                message: message@,
            },
            SpawnError::Timeout { name, command, timeout_ms, matcher, candidates } =>
            SpawnErrorView::Timeout {
                name: name@,
                command: text::texts(command@),
                timeout_ms,
                matcher: matcher@,
                candidates: candidates@,
            },
            SpawnError::Matcher { name, message } => SpawnErrorView::Matcher {
                name: name@,
                message: message@,
            },
            SpawnError::EventStreamClosed { name } => SpawnErrorView::EventStreamClosed {
                name: name@,
            },
        }
    }
}

/// A list of texts, as `Debug` writes it.
pub open spec fn list_debug(words: Seq<Seq<char>>) -> Seq<char> {
    "["@ + text::joined(words.map_values(|w: Seq<char>| outside::debug_text(w)), ", "@) + "]"@
}

/// The message of an error.
pub open spec fn spawn_error_text(e: SpawnErrorView) -> Seq<char> {
    match e {
        SpawnErrorView::MissingCommand { name } => "window "@ + outside::debug_text(name)
            + " is missing and has no spawn command"@,
        SpawnErrorView::Expand { name, arg, message } => "could not expand argument "@
            + outside::debug_text(arg) + " for window "@ + outside::debug_text(name) + ": "@
            + message,
        SpawnErrorView::Launch { name, command, message } => "could not launch window "@
            + outside::debug_text(name) + " with command "@ + list_debug(command) + ": "@
            + message,
        SpawnErrorView::Timeout { name, command, timeout_ms, matcher, candidates } =>
        "could not resolve window "@ + outside::debug_text(name) + " within "@ + text::decimal(
            timeout_ms as nat,
        ) + "ms after spawning "@ + list_debug(command) + "\nmatcher: "@ + matcher
            + "\nobserved new candidates:\n"@ + candidates,
        SpawnErrorView::Matcher { name, message } => "matcher error while waiting for "@
            + outside::debug_text(name) + ": "@ + message,
        SpawnErrorView::EventStreamClosed { name } =>
        "Niri EventStream disconnected while waiting for window "@ + outside::debug_text(name),
    }
}

fn push_list(out: &mut String, words: &Vec<String>)
    ensures
        final(out)@ == old(out)@ + list_debug(text::texts(words@)),
{
    let mut parts: Vec<String> = Vec::new();
    for i in 0..words.len()
        invariant
            parts@.len() == i,
            forall|k: int| 0 <= k < i ==> (#[trigger] parts@[k])@ == outside::debug_text(words@[k]@),
    {
        parts.push(debug_string(words[i].as_str()));
    }
    assert(text::texts(parts@) =~= text::texts(words@).map_values(
        |w: Seq<char>| outside::debug_text(w),
    ));
    out.append("[");
    out.append(join(&parts, ", ").as_str());
    out.append("]");
    assert(out@ =~= old(out)@ + list_debug(text::texts(words@)));
}

impl SpawnError {
    /// The message for people.
    pub fn text(&self) -> (out: String)
        ensures
            out@ == spawn_error_text(self@),
    {
        let mut out: String = String::new();
        match self {
            SpawnError::MissingCommand { name } => {
                out.append("window ");
                out.append(debug_string(name.as_str()).as_str());
                out.append(" is missing and has no spawn command");
            },
            SpawnError::Expand { name, arg, message } => {
                out.append("could not expand argument ");
                out.append(debug_string(arg.as_str()).as_str());
                out.append(" for window ");
                out.append(debug_string(name.as_str()).as_str());
                out.append(": ");
                out.append(message.as_str());
            },
            SpawnError::Launch { name, command, message } => {
                out.append("could not launch window ");
                out.append(debug_string(name.as_str()).as_str());
                out.append(" with command ");
                push_list(&mut out, command);
                out.append(": ");
                out.append(message.as_str());
            },
            SpawnError::Timeout { name, command, timeout_ms, matcher, candidates } => {
                out.append("could not resolve window ");
                out.append(debug_string(name.as_str()).as_str());
                out.append(" within ");
                push_number(&mut out, *timeout_ms);
                out.append("ms after spawning ");
                push_list(&mut out, command);
                out.append("\nmatcher: ");
                out.append(matcher.as_str());
                out.append("\nobserved new candidates:\n");
                out.append(candidates.as_str());
            },
            SpawnError::Matcher { name, message } => {
                out.append("matcher error while waiting for ");
                out.append(debug_string(name.as_str()).as_str());
                out.append(": ");
                out.append(message.as_str());
            },
            SpawnError::EventStreamClosed { name } => {
                out.append("Niri EventStream disconnected while waiting for window ");
                out.append(debug_string(name.as_str()).as_str());
            },
        }
        assert(out@ =~= spawn_error_text(self@));
        out
    }
}

// The command

/// The words of a command, or the first that could not be expanded.
pub open spec fn expansion_of(
    name: Seq<char>,
    command: Seq<Seq<char>>,
    results: Seq<Result<Seq<char>, Seq<char>>>,
) -> Result<Seq<Seq<char>>, SpawnErrorView> {
    match lists::first_where(results, |r: Result<Seq<char>, Seq<char>>| r is Err) {
        Some(i) => Err(
            SpawnErrorView::Expand { name, arg: command[i], message: results[i]->Err_0 },
        ),
        None => Ok(results.map_values(|r: Result<Seq<char>, Seq<char>>| r->Ok_0)),
    }
}

pub open spec fn result_texts(v: Seq<Result<String, String>>) -> Seq<Result<Seq<char>, Seq<char>>> {
    v.map_values(|r: Result<String, String>| environment::result_text(r))
}

pub open spec fn words_view(out: Result<Vec<String>, SpawnError>) -> Result<
    Seq<Seq<char>>,
    SpawnErrorView,
> {
    match out {
        Ok(v) => Ok(text::texts(v@)),
        Err(e) => Err(e@),
    }
}

/// Puts together what the expansion of each word of a command gave.
pub fn expanded_command(spec: &WindowSpec, results: &Vec<Result<String, String>>) -> (out: Result<
    Vec<String>,
    SpawnError,
>)
    requires
        results@.len() == spec.command@.len(),
    ensures
        words_view(out) == expansion_of(spec@.name, spec@.command, result_texts(results@)),
{
    let ghost views = result_texts(results@);
    let ghost p = |r: Result<Seq<char>, Seq<char>>| r is Err;
    let mut words: Vec<String> = Vec::new();
    for i in 0..results.len()
        invariant
            results@.len() == spec.command@.len(),
            views == result_texts(results@),
            p == (|r: Result<Seq<char>, Seq<char>>| r is Err),
            words@.len() == i,
            forall|k: int| 0 <= k < i ==> !p(#[trigger] views[k]) && words@[k]@ == views[k]->Ok_0,
    {
        assert(views[i as int] == environment::result_text(results@[i as int]));
        match &results[i] {
            Ok(word) => {
                words.push(word.clone());
            },
            Err(message) => {
                proof {
                    lists::first_is(views, p, i as int);
                    assert(spec@.command[i as int] == spec.command@[i as int]@);
                }
                return Err(
                    SpawnError::Expand {
                        name: spec.name.clone(),
                        arg: spec.command[i].clone(),
                        message: message.clone(),
                    },
                );
            },
        }
    }
    proof {
        lists::first_is_none(views, p);
        assert(text::texts(words@) =~= views.map_values(
            |r: Result<Seq<char>, Seq<char>>| r->Ok_0,
        ));
    }
    Ok(words)
}

/// What the expansion of each word of a command gives.
pub open spec fn expansions(command: Seq<Seq<char>>, e: EnvironmentView) -> Seq<
    Result<Seq<char>, Seq<char>>,
> {
    command.map_values(|word: Seq<char>| outside::expanded(word, e))
}

/// Every word whose expansion is a matter of one thing expands to that.
pub open spec fn expands_plainly(command: Seq<Seq<char>>, e: EnvironmentView) -> bool {
    forall|i: int|
        0 <= i < command.len() && outside::plain_expansion(#[trigger] command[i], e) is Some
            ==> outside::plain_expansion(command[i], e) == Some(outside::expanded(command[i], e))
}

/// Expands the variables and home directories in the command of a window.
pub fn expand_command(spec: &WindowSpec, environment: &Environment) -> (out: Result<
    Vec<String>,
    SpawnError,
>)
    ensures
        words_view(out) == expansion_of(
            spec@.name,
            spec@.command,
            expansions(spec@.command, environment@),
        ),
        expands_plainly(spec@.command, environment@),
{
    let mut results: Vec<Result<String, String>> = Vec::new();
    let ghost command = spec@.command;
    for i in 0..spec.command.len()
        invariant
            command == spec@.command,
            results@.len() == i,
            forall|k: int|
                0 <= k < i ==> environment::result_text(#[trigger] results@[k]) == outside::expanded(
                    command[k],
                    environment@,
                ),
            forall|k: int|
                0 <= k < i && outside::plain_expansion(#[trigger] command[k], environment@) is Some
                    ==> outside::plain_expansion(command[k], environment@) == Some(
                    outside::expanded(command[k], environment@),
                ),
    {
        assert(command[i as int] == spec.command@[i as int]@);
        results.push(expand_text(spec.command[i].as_str(), environment));
    }
    assert(result_texts(results@) =~= expansions(command, environment@));
    expanded_command(spec, &results)
}

/// What the command that starts a missing window comes to.
pub open spec fn launched(
    name: Seq<char>,
    command: Seq<Seq<char>>,
    results: Seq<Result<Seq<char>, Seq<char>>>,
) -> Result<Seq<Seq<char>>, SpawnErrorView> {
    if command.len() == 0 {
        Err(SpawnErrorView::MissingCommand { name })
    } else {
        expansion_of(name, command, results)
    }
}

/// The command that starts a missing window, ready to be run.
pub fn launch_command(spec: &WindowSpec, environment: &Environment) -> (out: Result<
    Vec<String>,
    SpawnError,
>)
    ensures
        words_view(out) == launched(
            spec@.name,
            spec@.command,
            expansions(spec@.command, environment@),
        ),
        out is Ok ==> out->Ok_0@.len() > 0,
        expands_plainly(spec@.command, environment@),
{
    if spec.command.len() == 0 {
        return Err(SpawnError::MissingCommand { name: spec.name.clone() });
    }
    let out: Result<Vec<String>, SpawnError> = expand_command(spec, environment);
    proof {
        if let Ok(words) = &out {
            assert(text::texts(words@).len() == words@.len());
        }
    }
    out
}

// The window

/// The process that was started, as windows name theirs.
pub open spec fn started_pid(pid: Option<u32>) -> Option<i32> {
    match pid {
        Some(n) => if n <= i32::MAX {
            Some(n as i32)
        } else {
            None
        },
        None => None,
    }
}

/// Candidate `i` is the only one of this process.
pub open spec fn only_of_pid(cs: Seq<CandidateView>, pid: i32, i: int) -> bool {
    &&& 0 <= i < cs.len()
    &&& cs[i].pid == Some(pid)
    &&& forall|j: int| 0 <= j < cs.len() && j != i ==> (#[trigger] cs[j]).pid != Some(pid)
}

/// What is decided once the process is known that was started: among several
/// candidates the only one of that process is taken.
pub open spec fn with_pid(d: DecisionView, pid: Option<u32>) -> DecisionView {
    match (d, started_pid(pid)) {
        (DecisionView::Ambiguous(cs), Some(n)) => if exists|i: int| only_of_pid(cs, n, i) {
            DecisionView::One(cs[choose|i: int| only_of_pid(cs, n, i)])
        } else {
            d
        },
        _ => d,
    }
}

/// Decides which window came up for a command that was started.
pub open spec fn spawn_decision(
    m: MatchView,
    windows: Seq<RuntimeView>,
    used: Set<u64>,
    baseline: Set<u64>,
    pid: Option<u32>,
) -> DecisionView {
    with_pid(matcher::decision_of(m, windows, used, Some(baseline)), pid)
}

/// Decides which of `windows` came up for the command of `spec`: one that is not
/// in use, was not there before and fits. Among several the only one of the
/// process that was started is taken.
pub fn choose_spawn_candidate(
    spec: &WindowSpec,
    windows: &[RuntimeWindow],
    used: &HashSet<u64>,
    baseline: &HashSet<u64>,
    spawned_pid: Option<u32>,
) -> (out: Result<CandidateDecision, MatchError>)
    ensures
        match out {
            Ok(d) => matcher::matcher_fault(spec.match_spec@) is None && d@ == spawn_decision(
                spec.match_spec@,
                model::runtime_views(windows@),
                used@,
                baseline@,
                spawned_pid,
            ),
            Err(e) => matcher::matcher_fault(spec.match_spec@) == Some(e@),
        },
{
    let decision: CandidateDecision = match choose_candidate(spec, windows, used, Some(baseline)) {
        Ok(d) => d,
        Err(e) => {
            return Err(e);
        },
    };
    let pid: i32 = match spawned_pid {
        Some(n) if n <= 0x7fff_ffff => n as i32,
        _ => {
            return Ok(decision);
        },
    };
    let mut only: Option<Candidate> = None;
    if let CandidateDecision::Ambiguous(candidates) = &decision {
        let ghost cs = matcher::candidate_views(candidates@);
        let mut at: Option<usize> = None;
        for i in 0..candidates.len()
            invariant
                cs == matcher::candidate_views(candidates@),
                decision@ == DecisionView::Ambiguous(cs),
                spawned_pid is Some,
                started_pid(spawned_pid) == Some(pid),
                matcher::matcher_fault(spec.match_spec@) is None,
                decision@ == matcher::decision_of(
                    spec.match_spec@,
                    model::runtime_views(windows@),
                    used@,
                    Some(baseline@),
                ),
                match at {
                    Some(a) => a < i && cs[a as int].pid == Some(pid) && forall|j: int|
                        0 <= j < i && j != a ==> (#[trigger] cs[j]).pid != Some(pid),
                    None => forall|j: int| 0 <= j < i ==> (#[trigger] cs[j]).pid != Some(pid),
                },
        {
            assert(cs[i as int] == candidates@[i as int]@);
            let here: bool = match candidates[i].pid {
                Some(n) => n == pid,
                None => false,
            };
            if here {
                if at.is_some() {
                    assert forall|k: int| !only_of_pid(cs, pid, k) by {
                        assert(cs[at->0 as int].pid == Some(pid));
                        assert(cs[i as int].pid == Some(pid));
                    }
                    return Ok(decision);
                }
                at = Some(i);
            }
        }
        match at {
            Some(a) => {
                proof {
                    assert(only_of_pid(cs, pid, a as int));
                    let c = choose|i: int| only_of_pid(cs, pid, i);
                    assert(c == a);
                    assert(cs[a as int] == candidates@[a as int]@);
                }
                only = Some(candidates[a].clone());
            },
            None => {
                assert forall|k: int| !only_of_pid(cs, pid, k) by {
                    if 0 <= k < cs.len() {
                        assert(cs[k].pid != Some(pid));
                    }
                }
            },
        }
    }
    match only {
        Some(candidate) => Ok(CandidateDecision::One(candidate)),
        None => Ok(decision),
    }
}

// Waiting

/// How many milliseconds are waited for a window at least.
pub const SHORTEST_WAIT_MS: u64 = 10;

/// How many milliseconds pass before a single candidate is looked at again.
pub const SETTLE_MS: u64 = 120;

/// How many milliseconds are waited for a window.
pub fn wait_ms(timeout_ms: u64) -> (out: u64)
    ensures
        out == if timeout_ms < SHORTEST_WAIT_MS {
            SHORTEST_WAIT_MS
        } else {
            timeout_ms
        },
{
    if timeout_ms < SHORTEST_WAIT_MS {
        SHORTEST_WAIT_MS
    } else {
        timeout_ms
    }
}

/// What is done next while a window is waited for.
#[derive(Debug, Clone, Copy, PartialEq, Eq, Structural)]
pub enum SpawnStep {
    /// This window came up, and stayed the only one.
    Resolved(u64),
    /// A single candidate is there: it is looked at again after a short time.
    Settle,
    /// The candidate went away again: look at once.
    Again,
    /// Wait for something to change, or give up where the time is over.
    Wait,
}

/// What is done next. A single candidate has to be there twice, before and after
/// a short time, to be taken.
pub open spec fn step_of(d: DecisionView, settling: bool) -> SpawnStep {
    match d {
        DecisionView::One(c) => if settling {
            SpawnStep::Resolved(c.id)
        } else {
            SpawnStep::Settle
        },
        DecisionView::Missing => if settling {
            SpawnStep::Again
        } else {
            SpawnStep::Wait
        },
        DecisionView::Ambiguous(_) => SpawnStep::Wait,
    }
}

/// Says what is done next while the window of `spec` is waited for. `settling`
/// says that a single candidate was there a short time ago, `closed` that no more
/// changes will be seen.
pub fn spawn_step(
    spec: &WindowSpec,
    windows: &[RuntimeWindow],
    used: &HashSet<u64>,
    baseline: &HashSet<u64>,
    spawned_pid: Option<u32>,
    settling: bool,
    closed: bool,
) -> (out: Result<SpawnStep, SpawnError>)
    ensures
        match out {
            Ok(step) => !(closed && !settling) && matcher::matcher_fault(spec.match_spec@) is None
                && step == step_of(
                spawn_decision(
                    spec.match_spec@,
                    model::runtime_views(windows@),
                    used@,
                    baseline@,
                    spawned_pid,
                ),
                settling,
            ),
            Err(e) => if closed && !settling {
                e@ == (SpawnErrorView::EventStreamClosed { name: spec@.name })
            } else {
                matcher::matcher_fault(spec.match_spec@) is Some && e@ == (
                SpawnErrorView::Matcher {
                    name: spec@.name,
                    message: matcher::match_error_text(
                        matcher::matcher_fault(spec.match_spec@)->0,
                    ),
                })
            },
        },
{
    if closed && !settling {
        return Err(SpawnError::EventStreamClosed { name: spec.name.clone() });
    }
    match choose_spawn_candidate(spec, windows, used, baseline, spawned_pid) {
        Ok(CandidateDecision::One(c)) => Ok(
            if settling {
                SpawnStep::Resolved(c.id)
            } else {
                SpawnStep::Settle
            },
        ),
        Ok(CandidateDecision::Missing) => Ok(
            if settling {
                SpawnStep::Again
            } else {
                SpawnStep::Wait
            },
        ),
        Ok(CandidateDecision::Ambiguous(_)) => Ok(SpawnStep::Wait),
        Err(e) => Err(SpawnError::Matcher { name: spec.name.clone(), message: e.text() }),
    }
}

/// Writes the signals by which a window is looked for.
pub fn describe_matcher(spec: &WindowSpec) -> (out: String)
    ensures
        out@ == show::matcher_shown(spec.match_spec@),
{
    matcher_text(&spec.match_spec)
}

/// The candidates that came up, for people.
pub open spec fn new_candidates_text(d: Option<DecisionView>) -> Seq<char> {
    match d {
        Some(DecisionView::Ambiguous(cs)) => text::joined(
            cs.map_values(|c: CandidateView| resolve::candidate_text(c)),
            "\n"@,
        ),
        Some(DecisionView::One(c)) => resolve::candidate_text(c),
        _ => "  (none matched)"@,
    }
}

/// The decision on the windows that came up, where the matcher can be used.
pub open spec fn new_decision(
    m: MatchView,
    windows: Seq<RuntimeView>,
    used: Set<u64>,
    baseline: Set<u64>,
) -> Option<DecisionView> {
    if matcher::matcher_fault(m) is None {
        Some(matcher::decision_of(m, windows, used, Some(baseline)))
    } else {
        None
    }
}

/// Writes the candidates that came up since the command was started.
pub fn describe_new_candidates(
    spec: &WindowSpec,
    state: &ObservedState,
    baseline: &HashSet<u64>,
    used: &HashSet<u64>,
) -> (out: String)
    ensures
        out@ == new_candidates_text(
            new_decision(spec.match_spec@, state@.windows, used@, baseline@),
        ),
{
    match choose_candidate(spec, state.windows.as_slice(), used, Some(baseline)) {
        Ok(CandidateDecision::Ambiguous(candidates)) => {
            let ghost cs = matcher::candidate_views(candidates@);
            let mut parts: Vec<String> = Vec::new();
            for i in 0..candidates.len()
                invariant
                    cs == matcher::candidate_views(candidates@),
                    parts@.len() == i,
                    forall|k: int|
                        0 <= k < i ==> (#[trigger] parts@[k])@ == resolve::candidate_text(cs[k]),
            {
                assert(cs[i as int] == candidates@[i as int]@);
                let mut part: String = String::new();
                push_candidate(&mut part, &candidates[i]);
                assert(part@ =~= resolve::candidate_text(cs[i as int]));
                parts.push(part);
            }
            assert(text::texts(parts@) =~= cs.map_values(
                |c: CandidateView| resolve::candidate_text(c),
            ));
            join(&parts, "\n")
        },
        Ok(CandidateDecision::One(c)) => {
            let mut out: String = String::new();
            push_candidate(&mut out, &c);
            assert(out@ =~= resolve::candidate_text(c@));
            out
        },
        _ => "  (none matched)".to_owned(),
    }
}

/// The error of a window that did not come up in time.
pub fn spawn_timeout(
    spec: &WindowSpec,
    command: &Vec<String>,
    timeout_ms: u64,
    state: &ObservedState,
    baseline: &HashSet<u64>,
    used: &HashSet<u64>,
) -> (out: SpawnError)
    ensures
        out@ == (SpawnErrorView::Timeout {
            name: spec@.name,
            command: text::texts(command@),
            timeout_ms,
            matcher: show::matcher_shown(spec.match_spec@),
            candidates: new_candidates_text(
                new_decision(spec.match_spec@, state@.windows, used@, baseline@),
            ),
        }),
{
    SpawnError::Timeout {
        name: spec.name.clone(),
        command: copy_list(command),
        timeout_ms,
        matcher: describe_matcher(spec),
        candidates: describe_new_candidates(spec, state, baseline, used),
    }
}

// Laws

/// The window that is taken for a command that was started is not in use, was not
/// there before, and fits; and it is the only such window, or the only one of the
/// process that was started.
pub proof fn a_spawned_window_is_new(
    m: MatchView,
    windows: Seq<RuntimeView>,
    used: Set<u64>,
    baseline: Set<u64>,
    pid: Option<u32>,
)
    ensures
        match step_of(spawn_decision(m, windows, used, baseline, pid), true) {
            SpawnStep::Resolved(id) => {
                &&& !used.contains(id)
                &&& !baseline.contains(id)
                &&& exists|i: int|
                    0 <= i < windows.len() && (#[trigger] windows[i]).id == id && matcher::accepts(
                        m,
                        windows[i],
                    )
                &&& {
                    let found = matcher::eligible(m, windows, used, Some(baseline));
                    found.len() == 1 || (started_pid(pid) is Some && exists|i: int|
                        only_of_pid(matcher::ranked(found), started_pid(pid)->0, i))
                }
            },
            _ => true,
        },
{
    if let SpawnStep::Resolved(id) = step_of(
        spawn_decision(m, windows, used, baseline, pid),
        true,
    ) {
        let cs = matcher::ranked(matcher::eligible(m, windows, used, Some(baseline)));
        let c = spawn_decision(m, windows, used, baseline, pid)->One_0;
        crate::match_laws::only_a_single_match_is_taken(m, windows, used, Some(baseline));
        assert(cs.contains(c)) by {
            match matcher::decision_of(m, windows, used, Some(baseline)) {
                DecisionView::One(x) => {
                    assert(cs[0] == c);
                },
                DecisionView::Ambiguous(xs) => {
                    let n = started_pid(pid)->0;
                    let i = choose|i: int| only_of_pid(xs, n, i);
                    assert(cs[i] == c);
                },
                DecisionView::Missing => {},
            }
        }
        crate::match_laws::candidates_score_alike(m, windows, used, Some(baseline), c);
    }
}

} // verus!
