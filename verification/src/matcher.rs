//! Recognising windows: which observed windows a logical window may stand for.
use crate::lists;
use crate::model;
use crate::model::{MatchSpec, MatchView, RuntimeView, RuntimeWindow, WindowSpec};
use crate::outside;
use crate::outside::{debug_string, pattern_error, pattern_matches};
use crate::text;
use crate::text::copy_opt;
use std::collections::HashSet;
use vstd::prelude::*;

verus! {

broadcast use vstd::std_specs::hash::group_hash_axioms;

/// A matcher whose patterns are known to compile.
#[derive(Debug)]
pub struct CompiledMatcher {
    window_id: Option<u64>,
    app_id: Option<String>,
    title: Option<String>,
    process: Option<String>,
    cwd: Option<String>,
    pid: Option<i32>,
}

/// An observed window that a matcher accepts.
#[derive(Debug, PartialEq, Eq)]
pub struct Candidate {
    pub id: u64,
    pub score: i32,
    pub app_id: Option<String>,
    pub title: Option<String>,
    pub pid: Option<i32>,
    pub process_exe: Option<String>,
}

#[verifier::ext_equal]
pub struct CandidateView {
    pub id: u64,
    pub score: i32,
    pub app_id: Option<Seq<char>>,
    pub title: Option<Seq<char>>,
    pub pid: Option<i32>,
    pub process_exe: Option<Seq<char>>,
}

impl View for Candidate {
    type V = CandidateView;

    open spec fn view(&self) -> CandidateView {
        CandidateView {
            id: self.id,
            score: self.score,
            app_id: text::opt_text(self.app_id),
            title: text::opt_text(self.title),
            pid: self.pid,
            process_exe: text::opt_text(self.process_exe),
        }
    }
}

pub open spec fn candidate_views(v: Seq<Candidate>) -> Seq<CandidateView> {
    v.map_values(|c: Candidate| c@)
}

impl Clone for Candidate {
    fn clone(&self) -> (out: Self)
        ensures
            out@ == self@,
    {
        Candidate {
            id: self.id,
            score: self.score,
            app_id: copy_opt(&self.app_id),
            title: copy_opt(&self.title),
            pid: self.pid,
            process_exe: copy_opt(&self.process_exe),
        }
    }
}

/// What came of looking for the window of a logical window.
#[derive(Debug, Clone, PartialEq, Eq)]
pub enum CandidateDecision {
    Missing,
    One(Candidate),
    Ambiguous(Vec<Candidate>),
}

/// The model of a decision.
pub enum DecisionView {
    Missing,
    One(CandidateView),
    Ambiguous(Seq<CandidateView>),
}

impl View for CandidateDecision {
    type V = DecisionView;

    open spec fn view(&self) -> DecisionView {
        match *self {
            CandidateDecision::Missing => DecisionView::Missing,
            CandidateDecision::One(c) => DecisionView::One(c@),
            CandidateDecision::Ambiguous(cs) => DecisionView::Ambiguous(candidate_views(cs@)),
        }
    }
}

/// A matcher that cannot be used.
#[derive(Debug, PartialEq, Eq)]
pub enum MatchError {
    Regex { field: &'static str, pattern: String, source: String },
}

/// The model of a matcher's error.
#[verifier::ext_equal]
pub struct MatchErrorView {
    pub field: Seq<char>,
    pub pattern: Seq<char>,
    pub source: Seq<char>,
}

impl View for MatchError {
    type V = MatchErrorView;

    open spec fn view(&self) -> MatchErrorView {
        match *self {
            MatchError::Regex { field, pattern, source } => MatchErrorView {
                field: field@,
                pattern: pattern@,
                source: source@,
            },
        }
    }
}

/// The message of a matcher's error.
pub open spec fn match_error_text(e: MatchErrorView) -> Seq<char> {
    "invalid "@ + e.field + " regex "@ + outside::debug_text(e.pattern) + ": "@ + e.source
}

impl MatchError {
    /// The message for people.
    pub fn text(&self) -> (out: String)
        ensures
            out@ == match_error_text(self@),
    {
        let MatchError::Regex { field, pattern, source } = self;
        let mut out: String = "invalid ".to_owned();
        out.append(field);
        out.append(" regex ");
        out.append(debug_string(pattern.as_str()).as_str());
        out.append(": ");
        out.append(source.as_str());
        out
    }
}

/// The error of a pattern that does not compile.
pub open spec fn pattern_fault(field: Seq<char>, pattern: Option<Seq<char>>) -> Option<
    MatchErrorView,
> {
    match pattern {
        Some(p) => match outside::regex_error(p) {
            Some(source) => Some(MatchErrorView { field, pattern: p, source }),
            None => None,
        },
        None => None,
    }
}

/// The error of the first pattern of `m` that does not compile, if there is one.
pub open spec fn matcher_fault(m: MatchView) -> Option<MatchErrorView> {
    if pattern_fault("app_id"@, m.app_id) is Some {
        pattern_fault("app_id"@, m.app_id)
    } else if pattern_fault("title"@, m.title) is Some {
        pattern_fault("title"@, m.title)
    } else if pattern_fault("process"@, m.process) is Some {
        pattern_fault("process"@, m.process)
    } else {
        pattern_fault("cwd"@, m.cwd)
    }
}

/// A pattern that is given finds itself in a value that is there.
pub open spec fn signal_agrees(pattern: Option<Seq<char>>, value: Option<Seq<char>>) -> bool {
    match pattern {
        Some(p) => value is Some && outside::regex_matches(p, value->0),
        None => true,
    }
}

/// All signals that `m` gives agree with the window.
pub open spec fn accepts(m: MatchView, w: RuntimeView) -> bool {
    &&& m.window_id is Some ==> w.id == m.window_id->0
    &&& signal_agrees(m.app_id, w.app_id)
    &&& signal_agrees(m.title, w.title)
    &&& signal_agrees(m.process, w.process_exe)
    &&& signal_agrees(m.cwd, w.cwd)
    &&& m.pid is Some ==> w.pid == m.pid
}

/// The pattern that stands for a text and nothing else, if there is a text.
pub open spec fn opt_literal(s: Option<Seq<char>>) -> Option<Seq<char>> {
    match s {
        Some(x) => Some(outside::literal_pattern(x)),
        None => None,
    }
}

/// The patterns of `m` stand for the texts `app`, `title` and `cwd` and nothing
/// else.
pub open spec fn is_literal(
    m: MatchView,
    app: Option<Seq<char>>,
    title: Option<Seq<char>>,
    cwd: Option<Seq<char>>,
) -> bool {
    &&& m.app_id == opt_literal(app)
    &&& m.title == opt_literal(title)
    &&& m.cwd == opt_literal(cwd)
    &&& m.process is None
}

/// The window has just the texts `app`, `title` and `cwd`, as far as they are
/// given, and agrees with the numbers that `m` gives.
pub open spec fn accepts_literally(
    m: MatchView,
    app: Option<Seq<char>>,
    title: Option<Seq<char>>,
    cwd: Option<Seq<char>>,
    w: RuntimeView,
) -> bool {
    &&& m.window_id is Some ==> w.id == m.window_id->0
    &&& app is Some ==> w.app_id == app
    &&& title is Some ==> w.title == title
    &&& cwd is Some ==> w.cwd == cwd
    &&& m.pid is Some ==> w.pid == m.pid
}

/// What the signals that `m` gives weigh together. The working directory only
/// rules windows out: it has no weight of its own.
pub open spec fn weight(m: MatchView) -> int {
    (if m.window_id is Some { 120int } else { 0 }) + (if m.app_id is Some { 50int } else { 0 }) + (
    if m.title is Some { 45int } else { 0 }) + (if m.process is Some { 25int } else { 0 }) + (
    if m.pid is Some { 80int } else { 0 })
}

fn compile(field: &'static str, pattern: &Option<String>) -> (out: Result<
    Option<String>,
    MatchError,
>)
    ensures
        match out {
            Ok(p) => pattern_fault(field@, text::opt_text(*pattern)) is None && text::opt_text(p)
                == text::opt_text(*pattern),
            Err(e) => pattern_fault(field@, text::opt_text(*pattern)) == Some(e@),
        },
{
    match pattern {
        Some(p) => match pattern_error(p.as_str()) {
            Some(source) => Err(MatchError::Regex { field, pattern: p.clone(), source }),
            None => Ok(Some(p.clone())),
        },
        None => Ok(None),
    }
}

fn agrees(pattern: &Option<String>, value: &Option<String>) -> (out: bool)
    ensures
        out == signal_agrees(text::opt_text(*pattern), text::opt_text(*value)),
        forall|s: Seq<char>|
            text::opt_text(*pattern) == Some(#[trigger] outside::literal_pattern(s))
                && outside::regex_error(outside::literal_pattern(s)) is None ==> out == (
            text::opt_text(*value) == Some(s)),
{
    match pattern {
        Some(p) => match value {
            Some(v) => pattern_matches(p.as_str(), v.as_str()),
            None => false,
        },
        None => true,
    }
}

impl CompiledMatcher {
    /// The signals that the matcher holds.
    pub closed spec fn signals(&self) -> MatchView {
        MatchView {
            window_id: self.window_id,
            app_id: text::opt_text(self.app_id),
            title: text::opt_text(self.title),
            process: text::opt_text(self.process),
            cwd: text::opt_text(self.cwd),
            pid: self.pid,
        }
    }

    /// Compiles the patterns of `spec`: those of the application, the title, the
    /// process and the working directory, in that order.
    pub fn new(spec: &MatchSpec) -> (out: Result<CompiledMatcher, MatchError>)
        ensures
            match out {
                Ok(m) => matcher_fault(spec@) is None && m.signals() == spec@,
                Err(e) => matcher_fault(spec@) == Some(e@),
            },
    {
        let app_id: Option<String> = match compile("app_id", &spec.app_id) {
            Ok(p) => p,
            Err(e) => {
                return Err(e);
            },
        };
        let title: Option<String> = match compile("title", &spec.title) {
            Ok(p) => p,
            Err(e) => {
                return Err(e);
            },
        };
        let process: Option<String> = match compile("process", &spec.process) {
            Ok(p) => p,
            Err(e) => {
                return Err(e);
            },
        };
        let cwd: Option<String> = match compile("cwd", &spec.cwd) {
            Ok(p) => p,
            Err(e) => {
                return Err(e);
            },
        };
        let m = CompiledMatcher {
            window_id: spec.window_id,
            app_id,
            title,
            process,
            cwd,
            pid: spec.pid,
        };
        assert(m.signals() =~= spec@);
        Ok(m)
    }

    /// What the signals weigh, if all of them agree with the window.
    pub fn score(&self, window: &RuntimeWindow) -> (out: Option<i32>)
        ensures
            match out {
                Some(score) => accepts(self.signals(), window@) && score == weight(self.signals()),
                None => !accepts(self.signals(), window@),
            },
            out is Some <==> crate::match_laws::has_every_signal(self.signals(), window@),
            forall|app: Option<Seq<char>>, title: Option<Seq<char>>, cwd: Option<Seq<char>>|
                #[trigger] is_literal(self.signals(), app, title, cwd) && matcher_fault(
                    self.signals(),
                ) is None ==> out is Some == accepts_literally(
                    self.signals(),
                    app,
                    title,
                    cwd,
                    window@,
                ),
    {
        let mut score: i32 = 0;
        if let Some(window_id) = self.window_id {
            if window.id != window_id {
                return None;
            }
            score = score + 120;
        }
        if !agrees(&self.app_id, &window.app_id) {
            return None;
        }
        if self.app_id.is_some() {
            score = score + 50;
        }
        if !agrees(&self.title, &window.title) {
            return None;
        }
        if self.title.is_some() {
            score = score + 45;
        }
        if !agrees(&self.process, &window.process_exe) {
            return None;
        }
        if self.process.is_some() {
            score = score + 25;
        }
        if !agrees(&self.cwd, &window.cwd) {
            return None;
        }
        if let Some(pid) = self.pid {
            let same: bool = match window.pid {
                Some(p) => p == pid,
                None => false,
            };
            if !same {
                return None;
            }
            score = score + 80;
        }
        Some(score)
    }
}

/// A window that may still be taken: it is not in use, and it was not there when
/// the command was started.
pub open spec fn is_free(id: u64, used: Set<u64>, baseline: Option<Set<u64>>) -> bool {
    !used.contains(id) && (baseline is Some ==> !baseline->0.contains(id))
}

/// The candidate that an observed window makes.
pub open spec fn candidate_of(m: MatchView, fresh: bool, w: RuntimeView) -> CandidateView {
    CandidateView {
        id: w.id,
        score: (weight(m) + if fresh {
            100int
        } else {
            0
        }) as i32,
        app_id: w.app_id,
        title: w.title,
        pid: w.pid,
        process_exe: w.process_exe,
    }
}

pub open spec fn candidate_at(
    m: MatchView,
    windows: Seq<RuntimeView>,
    used: Set<u64>,
    baseline: Option<Set<u64>>,
) -> spec_fn(int) -> Option<CandidateView> {
    |i: int|
        if is_free(windows[i].id, used, baseline) && accepts(m, windows[i]) {
            Some(candidate_of(m, baseline is Some, windows[i]))
        } else {
            None
        }
}

pub open spec fn literal_candidate_at(
    m: MatchView,
    app: Option<Seq<char>>,
    title: Option<Seq<char>>,
    cwd: Option<Seq<char>>,
    windows: Seq<RuntimeView>,
    used: Set<u64>,
    baseline: Option<Set<u64>>,
) -> spec_fn(int) -> Option<CandidateView> {
    |i: int|
        if is_free(windows[i].id, used, baseline) && accepts_literally(
            m,
            app,
            title,
            cwd,
            windows[i],
        ) {
            Some(candidate_of(m, baseline is Some, windows[i]))
        } else {
            None
        }
}

/// The candidates among `windows` where the patterns of `m` stand for the texts
/// `app`, `title` and `cwd`, in their order.
pub open spec fn literally_eligible(
    m: MatchView,
    app: Option<Seq<char>>,
    title: Option<Seq<char>>,
    cwd: Option<Seq<char>>,
    windows: Seq<RuntimeView>,
    used: Set<u64>,
    baseline: Option<Set<u64>>,
) -> Seq<CandidateView> {
    lists::gather(
        windows.len(),
        literal_candidate_at(m, app, title, cwd, windows, used, baseline),
    )
}

/// The candidates among `windows`, in their order.
pub open spec fn eligible(
    m: MatchView,
    windows: Seq<RuntimeView>,
    used: Set<u64>,
    baseline: Option<Set<u64>>,
) -> Seq<CandidateView> {
    lists::gather(windows.len(), candidate_at(m, windows, used, baseline))
}

/// `a` stands before `b`: the higher score first, then the lower identifier.
pub open spec fn ranks_before(a: CandidateView, b: CandidateView) -> bool {
    a.score > b.score || (a.score == b.score && a.id <= b.id)
}

/// `c` put into a ranked list, behind all that rank before it.
pub open spec fn with_ranked(s: Seq<CandidateView>, c: CandidateView) -> Seq<CandidateView>
    decreases s.len(),
{
    if s.len() == 0 || ranks_before(s.last(), c) {
        s.push(c)
    } else {
        with_ranked(s.drop_last(), c).push(s.last())
    }
}

/// The candidates ranked; those that rank alike keep their order.
pub open spec fn ranked(s: Seq<CandidateView>) -> Seq<CandidateView>
    decreases s.len(),
{
    if s.len() == 0 {
        s
    } else {
        with_ranked(ranked(s.drop_last()), s.last())
    }
}

/// What is decided on ranked candidates: a single one is taken, and where a
/// command was started also one that scores higher than all others.
pub open spec fn decide(c: Seq<CandidateView>, fresh: bool) -> DecisionView {
    if c.len() == 0 {
        DecisionView::Missing
    } else if c.len() == 1 || (fresh && c[0].score > c[1].score) {
        DecisionView::One(c[0])
    } else {
        DecisionView::Ambiguous(c)
    }
}

pub open spec fn opt_set(s: Option<&HashSet<u64>>) -> Option<Set<u64>> {
    match s {
        Some(x) => Some(x@),
        None => None,
    }
}

/// The decision for a logical window with the signals `m`.
pub open spec fn decision_of(
    m: MatchView,
    windows: Seq<RuntimeView>,
    used: Set<u64>,
    baseline: Option<Set<u64>>,
) -> DecisionView {
    decide(ranked(eligible(m, windows, used, baseline)), baseline is Some)
}

/// Puts `c` into a ranked list.
fn insert_ranked(list: &mut Vec<Candidate>, c: Candidate)
    ensures
        candidate_views(final(list)@) == with_ranked(candidate_views(old(list)@), c@),
{
    let mut at: usize = list.len();
    let ghost all = candidate_views(list@);
    let ghost want = with_ranked(all, c@);
    assert(all.take(at as int) =~= all);
    assert(all.skip(at as int) =~= Seq::empty());
    assert(want =~= with_ranked(all.take(at as int), c@) + all.skip(at as int));
    while at > 0 && !(list[at - 1].score > c.score || (list[at - 1].score == c.score && list[at
        - 1].id <= c.id))
        invariant
            at <= list@.len(),
            list@ == old(list)@,
            all == candidate_views(list@),
            want == with_ranked(all.take(at as int), c@) + all.skip(at as int),
        decreases at,
    {
        let ghost t = all.take(at as int);
        assert(t.last() == list@[at - 1]@);
        assert(t.drop_last() =~= all.take(at - 1));
        assert(want =~= with_ranked(all.take(at - 1), c@) + all.skip(at - 1));
        at = at - 1;
    }
    assert(at > 0 ==> all.take(at as int).last() == list@[at - 1]@);
    assert(want =~= all.take(at as int).push(c@) + all.skip(at as int));
    list.insert(at, c);
    assert(candidate_views(list@) =~= all.insert(at as int, c@));
    assert(candidate_views(list@) =~= want);
}

/// Decides which of `windows` the logical window `spec` stands for.
///
/// `used` holds the windows that are taken already. With a `baseline`, only
/// windows outside of it are looked at: those that came up since.
pub fn choose_candidate(
    spec: &WindowSpec,
    windows: &[RuntimeWindow],
    used: &HashSet<u64>,
    baseline: Option<&HashSet<u64>>,
) -> (out: Result<CandidateDecision, MatchError>)
    ensures
        match out {
            Ok(d) => matcher_fault(spec.match_spec@) is None && d@ == decision_of(
                spec.match_spec@,
                model::runtime_views(windows@),
                used@,
                opt_set(baseline),
            ),
            Err(e) => matcher_fault(spec.match_spec@) == Some(e@),
        },
        forall|app: Option<Seq<char>>, title: Option<Seq<char>>, cwd: Option<Seq<char>>|
            #[trigger] is_literal(spec.match_spec@, app, title, cwd) && out is Ok ==> eligible(
                spec.match_spec@,
                model::runtime_views(windows@),
                used@,
                opt_set(baseline),
            ) == literally_eligible(
                spec.match_spec@,
                app,
                title,
                cwd,
                model::runtime_views(windows@),
                used@,
                opt_set(baseline),
            ),
{
    let matcher: CompiledMatcher = match CompiledMatcher::new(&spec.match_spec) {
        Ok(m) => m,
        Err(e) => {
            return Err(e);
        },
    };
    let ghost m = spec.match_spec@;
    let ghost views = model::runtime_views(windows@);
    let ghost f = candidate_at(m, views, used@, opt_set(baseline));
    let mut found: Vec<Candidate> = Vec::new();
    assert(candidate_views(found@) =~= ranked(lists::gather(0, f)));
    for i in 0..windows.len()
        invariant
            matcher.signals() == m,
            views == model::runtime_views(windows@),
            f == candidate_at(m, views, used@, opt_set(baseline)),
            candidate_views(found@) == ranked(lists::gather(i as nat, f)),
            matcher_fault(m) is None,
            m == spec.match_spec@,
            forall|app: Option<Seq<char>>, title: Option<Seq<char>>, cwd: Option<Seq<char>>, k: int|
                #![trigger is_literal(m, app, title, cwd), views[k]]
                0 <= k < i && is_literal(m, app, title, cwd) && is_free(
                    views[k].id,
                    used@,
                    opt_set(baseline),
                ) ==> accepts(m, views[k]) == accepts_literally(m, app, title, cwd, views[k]),
    {
        let w: &RuntimeWindow = &windows[i];
        assert(views[i as int] == w@);
        let old_window: bool = match baseline {
            Some(ids) => ids.contains(&w.id),
            None => false,
        };
        let free: bool = !used.contains(&w.id) && !old_window;
        assert(free == is_free(w.id, used@, opt_set(baseline)));
        let ghost given = f(i as int);
        let ghost before = lists::gather(i as nat, f);
        if free {
            if let Some(score) = matcher.score(w) {
                let score: i32 = if baseline.is_some() {
                    score + 100
                } else {
                    score
                };
                let c = Candidate {
                    id: w.id,
                    score,
                    app_id: copy_opt(&w.app_id),
                    title: copy_opt(&w.title),
                    pid: w.pid,
                    process_exe: copy_opt(&w.process_exe),
                };
                assert(given == Some(c@));
                assert(lists::gather((i + 1) as nat, f) == before.push(c@));
                assert(before.push(c@).drop_last() =~= before);
                insert_ranked(&mut found, c);
            }
        }
    }
    let ghost all = candidate_views(found@);
    assert forall|app: Option<Seq<char>>, title: Option<Seq<char>>, cwd: Option<Seq<char>>|
        #[trigger] is_literal(m, app, title, cwd) implies eligible(m, views, used@, opt_set(baseline))
        == literally_eligible(m, app, title, cwd, views, used@, opt_set(baseline)) by {
        let g = literal_candidate_at(m, app, title, cwd, views, used@, opt_set(baseline));
        assert forall|k: int| 0 <= k < views.len() implies #[trigger] f(k) == g(k) by {
            let w = views[k];
            assert(is_free(w.id, used@, opt_set(baseline)) ==> accepts(m, w) == accepts_literally(
                m,
                app,
                title,
                cwd,
                w,
            ));
        }
        lists::gather_agrees(views.len(), f, g);
    }
    if found.len() == 0 {
        return Ok(CandidateDecision::Missing);
    }
    if found.len() == 1 || (baseline.is_some() && found[0].score > found[1].score) {
        assert(all[0] == found@[0]@);
        assert(all.len() > 1 ==> all[1] == found@[1]@);
        return Ok(CandidateDecision::One(found.remove(0)));
    }
    assert(all[0] == found@[0]@ && all[1] == found@[1]@);
    Ok(CandidateDecision::Ambiguous(found))
}

} // verus!
