//! What is promised of the windows that a recipe finds open.
use crate::lists;
use crate::match_laws;
use crate::matcher;
use crate::matcher::DecisionView;
use crate::model::{MatchView, RecipeView, ReusePolicy, RuntimeView, StateView, WindowView};
use crate::names;
use crate::outside;
use crate::planner::TileFit;
use crate::resolve;
use crate::resolve::{ExistingResolution, RepairErrorView, ResolveErrorView};
use vstd::prelude::*;

verus! {

/// Each signal that is given weighs by itself: the window most, then the process
/// identifier, the application, the title and the executable. The working directory
/// has no weight. A window that has come up since counts for more.
pub proof fn signals_weigh_for_themselves(m: MatchView, w: RuntimeView, n: u64, p: i32, s: Seq<char>)
    ensures
        matcher::weight(
            MatchView {
                window_id: None,
                app_id: None,
                title: None,
                process: None,
                cwd: m.cwd,
                pid: None,
            },
        ) == 0,
        m.window_id is None ==> matcher::weight(MatchView { window_id: Some(n), ..m })
            == matcher::weight(m) + 120,
        m.pid is None ==> matcher::weight(MatchView { pid: Some(p), ..m }) == matcher::weight(m)
            + 80,
        m.app_id is None ==> matcher::weight(MatchView { app_id: Some(s), ..m })
            == matcher::weight(m) + 50,
        m.title is None ==> matcher::weight(MatchView { title: Some(s), ..m }) == matcher::weight(m)
            + 45,
        m.process is None ==> matcher::weight(MatchView { process: Some(s), ..m })
            == matcher::weight(m) + 25,
        matcher::candidate_of(m, false, w).score == matcher::weight(m),
        matcher::candidate_of(m, true, w).score == matcher::candidate_of(m, false, w).score + 100,
{
}

/// A pattern that is given compiles.
pub open spec fn can_be_used(pattern: Option<Seq<char>>) -> bool {
    pattern is Some ==> outside::regex_error(pattern->0) is None
}

/// A matcher can be used where each of its patterns compiles. Where one does not, the
/// first that does not is named, with the reason.
pub proof fn faults_name_their_pattern(m: MatchView)
    ensures
        matcher::matcher_fault(m) is None <==> can_be_used(m.app_id) && can_be_used(m.title)
            && can_be_used(m.process) && can_be_used(m.cwd),
        matcher::matcher_fault(m) is Some ==> {
            let fault = matcher::matcher_fault(m)->0;
            let at = if !can_be_used(m.app_id) {
                ("app_id"@, m.app_id)
            } else if !can_be_used(m.title) {
                ("title"@, m.title)
            } else if !can_be_used(m.process) {
                ("process"@, m.process)
            } else {
                ("cwd"@, m.cwd)
            };
            &&& fault.field == at.0
            &&& Some(fault.pattern) == at.1
            &&& outside::regex_error(fault.pattern) == Some(fault.source)
        },
{
}

/// The patterns of a logical window compile.
pub open spec fn is_usable(w: WindowView) -> bool {
    can_be_used(w.match_spec.app_id) && can_be_used(w.match_spec.title) && can_be_used(
        w.match_spec.process,
    ) && can_be_used(w.match_spec.cwd)
}

/// Open window `k` fits logical window `i`: it has every signal, and no logical window
/// before it has taken it.
pub open spec fn fits_at(
    specs: Seq<WindowView>,
    windows: Seq<RuntimeView>,
    honour: bool,
    i: int,
    k: int,
) -> bool {
    &&& 0 <= k < windows.len()
    &&& match_laws::has_every_signal(specs[i].match_spec, windows[k])
    &&& forall|j: int|
        0 <= j < i ==> #[trigger] resolve::pick(specs, windows, honour, j) != Some(windows[k].id)
}

/// Open window `k` is the only one that fits logical window `i`.
pub open spec fn is_only_fit(
    specs: Seq<WindowView>,
    windows: Seq<RuntimeView>,
    honour: bool,
    i: int,
    k: int,
) -> bool {
    fits_at(specs, windows, honour, i, k) && forall|j: int| #[trigger]
        fits_at(specs, windows, honour, i, j) ==> j == k
}

/// No open window fits logical window `i`.
pub open spec fn has_no_fit(
    specs: Seq<WindowView>,
    windows: Seq<RuntimeView>,
    honour: bool,
    i: int,
) -> bool {
    forall|k: int| !#[trigger] fits_at(specs, windows, honour, i, k)
}

/// Several open windows fit logical window `i`.
pub open spec fn has_several_fits(
    specs: Seq<WindowView>,
    windows: Seq<RuntimeView>,
    honour: bool,
    i: int,
) -> bool {
    exists|j: int, k: int|
        #![trigger fits_at(specs, windows, honour, i, j), fits_at(specs, windows, honour, i, k)]
        j != k && fits_at(specs, windows, honour, i, j) && fits_at(specs, windows, honour, i, k)
}

proof fn used_is_picked(
    specs: Seq<WindowView>,
    windows: Seq<RuntimeView>,
    honour: bool,
    n: nat,
    id: u64,
)
    ensures
        resolve::used_by(specs, windows, honour, n).contains(id) <==> exists|j: int|
            0 <= j < n && #[trigger] resolve::pick(specs, windows, honour, j) == Some(id),
    decreases n,
{
    if n > 0 {
        used_is_picked(specs, windows, honour, (n - 1) as nat, id);
        let last = resolve::pick(specs, windows, honour, n - 1);
    }
}

proof fn fits_can_be_taken(
    specs: Seq<WindowView>,
    windows: Seq<RuntimeView>,
    honour: bool,
    i: int,
)
    requires
        0 <= i < specs.len(),
    ensures
        forall|k: int| #[trigger]
            fits_at(specs, windows, honour, i, k) <==> match_laws::can_be_taken(
                specs[i].match_spec,
                windows,
                resolve::used_by(specs, windows, honour, i as nat),
                None,
                k,
            ),
{
    assert forall|k: int| #[trigger]
        fits_at(specs, windows, honour, i, k) <==> match_laws::can_be_taken(
            specs[i].match_spec,
            windows,
            resolve::used_by(specs, windows, honour, i as nat),
            None,
            k,
        ) by {
        if 0 <= k < windows.len() {
            used_is_picked(specs, windows, honour, i as nat, windows[k].id);
        }
    }
}

proof fn decisions_are_about_fits(
    specs: Seq<WindowView>,
    windows: Seq<RuntimeView>,
    honour: bool,
    i: int,
)
    requires
        0 <= i < specs.len(),
    ensures
        match resolve::decision_at(specs, windows, honour, i) {
            DecisionView::Missing => has_no_fit(specs, windows, honour, i),
            DecisionView::One(c) => exists|k: int|
                windows[k].id == c.id && #[trigger] is_only_fit(specs, windows, honour, i, k),
            DecisionView::Ambiguous(cs) => has_several_fits(specs, windows, honour, i),
        },
{
    let m = specs[i].match_spec;
    let used = resolve::used_by(specs, windows, honour, i as nat);
    match_laws::decisions_are_about_the_windows(m, windows, used, None);
    fits_can_be_taken(specs, windows, honour, i);
    match resolve::decision_at(specs, windows, honour, i) {
        DecisionView::Missing => {
            assert forall|k: int| !#[trigger] fits_at(specs, windows, honour, i, k) by {
                assert(!match_laws::can_be_taken(m, windows, used, None, k));
            }
        },
        DecisionView::One(c) => {
            let k = choose|k: int|
                #![trigger match_laws::can_be_taken(m, windows, used, None, k)]
                {
                    &&& match_laws::can_be_taken(m, windows, used, None, k)
                    &&& c.id == windows[k].id && c.app_id == windows[k].app_id && c.title
                        == windows[k].title && c.pid == windows[k].pid && c.process_exe
                        == windows[k].process_exe
                    &&& forall|j: int| #[trigger]
                        match_laws::can_be_taken(m, windows, used, None, j) ==> j == k
                };
            assert(fits_at(specs, windows, honour, i, k));
            assert forall|j: int| #[trigger] fits_at(specs, windows, honour, i, j) implies j == k by {
                assert(match_laws::can_be_taken(m, windows, used, None, j));
            }
            assert(is_only_fit(specs, windows, honour, i, k));
        },
        DecisionView::Ambiguous(cs) => {
            let (j, k) = choose|j: int, k: int|
                #![trigger match_laws::can_be_taken(m, windows, used, None, j), match_laws::can_be_taken(m, windows, used, None, k)]
                j != k && match_laws::can_be_taken(m, windows, used, None, j)
                    && match_laws::can_be_taken(m, windows, used, None, k);
            assert(fits_at(specs, windows, honour, i, j) && fits_at(specs, windows, honour, i, k));
        },
    }
}

/// A logical window takes an open window just where it may, and where that window is
/// the only one that fits it. One that is never to be reused takes none.
pub proof fn logical_windows_take_their_only_fit(
    specs: Seq<WindowView>,
    windows: Seq<RuntimeView>,
    honour: bool,
    i: int,
)
    requires
        0 <= i < specs.len(),
    ensures
        match resolve::pick(specs, windows, honour, i) {
            Some(id) => !(honour && specs[i].reuse == ReusePolicy::Never) && is_usable(specs[i])
                && exists|k: int|
                windows[k].id == id && #[trigger] is_only_fit(specs, windows, honour, i, k),
            None => (honour && specs[i].reuse == ReusePolicy::Never) || !is_usable(specs[i])
                || has_no_fit(specs, windows, honour, i) || has_several_fits(
                specs,
                windows,
                honour,
                i,
            ),
        },
{
    faults_name_their_pattern(specs[i].match_spec);
    decisions_are_about_fits(specs, windows, honour, i);
}

/// No two logical windows have the same name.
pub open spec fn has_distinct_names(specs: Seq<WindowView>) -> bool {
    forall|i: int, j: int|
        0 <= i < j < specs.len() ==> (#[trigger] specs[i]).name != (#[trigger] specs[j]).name
}

proof fn bound_so_far(specs: Seq<WindowView>, windows: Seq<RuntimeView>, honour: bool, n: nat, i: int)
    requires
        has_distinct_names(specs),
        n <= specs.len(),
        0 <= i < specs.len(),
    ensures
        names::names_ascend(resolve::bindings(specs, windows, honour, n)),
        names::lookup(resolve::bindings(specs, windows, honour, n), specs[i].name) == if i < n {
            resolve::pick(specs, windows, honour, i)
        } else {
            None
        },
    decreases n,
{
    if n > 0 {
        let before = resolve::bindings(specs, windows, honour, (n - 1) as nat);
        bound_so_far(specs, windows, honour, (n - 1) as nat, i);
        match resolve::pick(specs, windows, honour, n - 1) {
            Some(id) => {
                names::insertion_keeps_order(before, specs[n - 1].name, id);
                names::insertion_is_local(before, specs[n - 1].name, id, specs[i].name);
            },
            None => {},
        }
    } else {
        names::lookup_finds(resolve::bindings(specs, windows, honour, 0), specs[i].name);
    }
}

proof fn resolved_so_far(specs: Seq<WindowView>, windows: Seq<RuntimeView>, n: nat, i: int)
    requires
        has_distinct_names(specs),
        n <= specs.len(),
        0 <= i < specs.len(),
    ensures
        names::names_ascend(resolve::resolutions(specs, windows, n)),
        i < n ==> names::lookup(resolve::resolutions(specs, windows, n), specs[i].name) == Some(
            match resolve::pick(specs, windows, true, i) {
                Some(id) => ExistingResolution::Reuse(id),
                None => ExistingResolution::Spawn,
            },
        ),
    decreases n,
{
    if n > 0 {
        let before = resolve::resolutions(specs, windows, (n - 1) as nat);
        let what = match resolve::pick(specs, windows, true, n - 1) {
            Some(id) => ExistingResolution::Reuse(id),
            None => ExistingResolution::Spawn,
        };
        resolved_so_far(specs, windows, (n - 1) as nat, i);
        names::insertion_keeps_order(before, specs[n - 1].name, what);
        names::insertion_is_local(before, specs[n - 1].name, what, specs[i].name);
    }
}

/// Under the name of a logical window stands the window that it takes. Where it takes
/// one, that is reused, and where it takes none, one is started.
pub proof fn names_stand_for_what_is_taken(
    specs: Seq<WindowView>,
    windows: Seq<RuntimeView>,
    honour: bool,
    i: int,
)
    requires
        has_distinct_names(specs),
        0 <= i < specs.len(),
    ensures
        names::lookup(resolve::bindings(specs, windows, honour, specs.len()), specs[i].name)
            == resolve::pick(specs, windows, honour, i),
        match names::lookup(resolve::resolutions(specs, windows, specs.len()), specs[i].name) {
            Some(ExistingResolution::Reuse(id)) => resolve::pick(specs, windows, true, i) == Some(
                id,
            ),
            Some(ExistingResolution::Spawn) => resolve::pick(specs, windows, true, i) is None,
            None => false,
        },
        specs[i].reuse == ReusePolicy::Never ==> names::lookup(
            resolve::resolutions(specs, windows, specs.len()),
            specs[i].name,
        ) == Some(ExistingResolution::Spawn),
{
    bound_so_far(specs, windows, honour, specs.len(), i);
    resolved_so_far(specs, windows, specs.len(), i);
}

/// A recipe is not opened where a logical window cannot be told: its matcher cannot be
/// used, several open windows fit it, or none does and there is nothing to start. A
/// logical window that is never reused asks for none of this.
pub proof fn what_cannot_be_told_is_reported(
    specs: Seq<WindowView>,
    windows: Seq<RuntimeView>,
    i: int,
)
    requires
        0 <= i < specs.len(),
    ensures
        ({
            let w = specs[i];
            let reuses = w.reuse != ReusePolicy::Never;
            match resolve::resolve_fault(specs, windows)(i) {
                Some(ResolveErrorView::Matcher { name, source }) => reuses && name == w.name
                    && !is_usable(w) && matcher::matcher_fault(w.match_spec) == Some(source),
                Some(ResolveErrorView::Unmatched { name }) => reuses && name == w.name && is_usable(
                    w,
                ) && has_no_fit(specs, windows, true, i) && w.command.len() == 0,
                Some(ResolveErrorView::Ambiguous { name, matcher, candidates }) => reuses && name
                    == w.name && is_usable(w) && has_several_fits(specs, windows, true, i)
                    && candidates.len() >= 2,
                None => !reuses || (is_usable(w) && !has_several_fits(specs, windows, true, i) && (
                resolve::pick(specs, windows, true, i) is Some || (has_no_fit(
                    specs,
                    windows,
                    true,
                    i,
                ) && w.command.len() > 0))),
            }
        }),
{
    faults_name_their_pattern(specs[i].match_spec);
    decisions_are_about_fits(specs, windows, true, i);
    let used = resolve::used_by(specs, windows, true, i as nat);
    match_laws::only_a_single_match_is_taken(specs[i].match_spec, windows, used, None);
    match resolve::decision_at(specs, windows, true, i) {
        DecisionView::Missing => {
            if has_several_fits(specs, windows, true, i) {
                let (j, k) = choose|j: int, k: int|
                    #![trigger fits_at(specs, windows, true, i, j), fits_at(specs, windows, true, i, k)]
                    j != k && fits_at(specs, windows, true, i, j) && fits_at(
                        specs,
                        windows,
                        true,
                        i,
                        k,
                    );
                assert(!fits_at(specs, windows, true, i, j));
            }
        },
        DecisionView::One(c) => {
            let k = choose|k: int|
                windows[k].id == c.id && #[trigger] is_only_fit(specs, windows, true, i, k);
            assert(is_only_fit(specs, windows, true, i, k));
        },
        DecisionView::Ambiguous(cs) => {
            let found = matcher::eligible(specs[i].match_spec, windows, used, None);
            match_laws::ranking_keeps_and_orders(found);
        },
    }
}

/// A repair looks for the open window of every logical window, whatever it says of
/// reuse. It is refused where several fit one, or a matcher cannot be used, and it
/// names each logical window that has none.
pub proof fn repairs_start_nothing(specs: Seq<WindowView>, windows: Seq<RuntimeView>, i: int)
    requires
        0 <= i < specs.len(),
    ensures
        ({
            let w = specs[i];
            match resolve::repair_fault(specs, windows)(i) {
                Some(RepairErrorView::Matcher { name, source }) => name == w.name && !is_usable(w)
                    && matcher::matcher_fault(w.match_spec) == Some(source),
                Some(RepairErrorView::Ambiguous { name, count }) => name == w.name && is_usable(w)
                    && has_several_fits(specs, windows, false, i) && count >= 2,
                Some(RepairErrorView::Missing { names }) => false,
                None => is_usable(w) && !has_several_fits(specs, windows, false, i),
            }
        }),
        resolve::missing_name(specs, windows)(i) is None <==> resolve::pick(
            specs,
            windows,
            false,
            i,
        ) is Some,
        resolve::missing_name(specs, windows)(i) is Some ==> resolve::missing_name(specs, windows)(
            i,
        )->0 == specs[i].name,
        resolve::missing_names(specs, windows).len() == 0 ==> resolve::pick(
            specs,
            windows,
            false,
            i,
        ) is Some,
{
    faults_name_their_pattern(specs[i].match_spec);
    decisions_are_about_fits(specs, windows, false, i);
    lists::gather_is_empty(specs.len(), resolve::missing_name(specs, windows));
    let used = resolve::used_by(specs, windows, false, i as nat);
    match_laws::only_a_single_match_is_taken(specs[i].match_spec, windows, used, None);
    match resolve::decision_at(specs, windows, false, i) {
        DecisionView::Missing => {
            if has_several_fits(specs, windows, false, i) {
                let (j, k) = choose|j: int, k: int|
                    #![trigger fits_at(specs, windows, false, i, j), fits_at(specs, windows, false, i, k)]
                    j != k && fits_at(specs, windows, false, i, j) && fits_at(
                        specs,
                        windows,
                        false,
                        i,
                        k,
                    );
                assert(!fits_at(specs, windows, false, i, j));
            }
        },
        DecisionView::One(c) => {
            let k = choose|k: int|
                windows[k].id == c.id && #[trigger] is_only_fit(specs, windows, false, i, k);
            assert(is_only_fit(specs, windows, false, i, k));
        },
        DecisionView::Ambiguous(cs) => {
            let found = matcher::eligible(specs[i].match_spec, windows, used, None);
            match_laws::ranking_keeps_and_orders(found);
        },
    }
}

/// Logical window `i` cannot be told among the open windows.
pub open spec fn cannot_be_told(specs: Seq<WindowView>, windows: Seq<RuntimeView>, i: int) -> bool {
    &&& 0 <= i < specs.len()
    &&& specs[i].reuse != ReusePolicy::Never
    &&& !is_usable(specs[i]) || has_several_fits(specs, windows, true, i)
}

proof fn unclear_cannot_be_told(specs: Seq<WindowView>, windows: Seq<RuntimeView>, i: int)
    requires
        0 <= i < specs.len(),
    ensures
        resolve::is_unclear(specs, windows, i) <==> cannot_be_told(specs, windows, i),
{
    what_cannot_be_told_is_reported(specs, windows, i);
    faults_name_their_pattern(specs[i].match_spec);
    decisions_are_about_fits(specs, windows, true, i);
}

/// A recipe is ambiguous just where one of its logical windows cannot be told. Else,
/// where some take no open window, they are counted as missing.
pub proof fn statuses_tell_what_is_missing(r: RecipeView, s: StateView, fits: Seq<Seq<TileFit>>)
    requires
        r.windows.len() <= usize::MAX,
    ensures
        ({
            let status = resolve::status_of(r, s, fits);
            let unclear = exists|i: int| #[trigger] cannot_be_told(r.windows, s.windows, i);
            let missing = exists|i: int|
                0 <= i < r.windows.len() && #[trigger] resolve::pick(
                    r.windows,
                    s.windows,
                    true,
                    i,
                ) is None;
            &&& status is Ambiguous <==> unclear
            &&& status is Missing <==> !unclear && missing
            &&& status is Missing ==> 0 < status->Missing_0 <= r.windows.len()
            &&& status is Missing ==> (status->Missing_0 == r.windows.len() <==> forall|i: int|
                0 <= i < r.windows.len() ==> #[trigger] resolve::pick(
                    r.windows,
                    s.windows,
                    true,
                    i,
                ) is None)
            &&& !(status is Offline)
        }),
{
    let n = r.windows.len();
    let f = resolve::missing_place(r.windows, s.windows);
    lists::gather_is_empty(n, f);
    lists::gather_is_bounded(n, f);
    full_gather(n, f);
    if exists|i: int| 0 <= i < n && #[trigger] resolve::is_unclear(r.windows, s.windows, i) {
        let i = choose|i: int| 0 <= i < n && #[trigger] resolve::is_unclear(r.windows, s.windows, i);
        unclear_cannot_be_told(r.windows, s.windows, i);
        assert(cannot_be_told(r.windows, s.windows, i));
    }
    if exists|i: int| #[trigger] cannot_be_told(r.windows, s.windows, i) {
        let i = choose|i: int| #[trigger] cannot_be_told(r.windows, s.windows, i);
        unclear_cannot_be_told(r.windows, s.windows, i);
        assert(resolve::is_unclear(r.windows, s.windows, i));
    }
    assert forall|i: int| 0 <= i < n implies ((#[trigger] f(i)) is Some <==> resolve::pick(
        r.windows,
        s.windows,
        true,
        i,
    ) is None) by {}
    if exists|i: int|
        0 <= i < n && #[trigger] resolve::pick(r.windows, s.windows, true, i) is None {
        let i = choose|i: int|
            0 <= i < n && #[trigger] resolve::pick(r.windows, s.windows, true, i) is None;
        assert(f(i) is Some);
    }
    if forall|i: int| 0 <= i < n ==> (#[trigger] f(i)) is Some {
        assert forall|i: int| 0 <= i < n implies #[trigger] resolve::pick(
            r.windows,
            s.windows,
            true,
            i,
        ) is None by {
            assert(f(i) is Some);
        }
    }
}

proof fn full_gather(n: nat, f: spec_fn(int) -> Option<int>)
    ensures
        lists::gather(n, f).len() <= n,
        lists::gather(n, f).len() == n <==> forall|i: int| 0 <= i < n ==> (#[trigger] f(i)) is Some,
    decreases n,
{
    if n > 0 {
        full_gather((n - 1) as nat, f);
        lists::gather_is_bounded((n - 1) as nat, f);
    }
}

} // verus!
