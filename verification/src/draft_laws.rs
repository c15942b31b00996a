//! What a captured recipe holds of the windows that it was made from.
use crate::capture;
use crate::capture::Capture;
use crate::capture_laws;
use crate::launch;
use crate::launch_laws;
use crate::launch::ProcessView;
use crate::lists;
use crate::model::{OutputFallback, ReusePolicy, RuntimeView, StateView, WorkspaceView};
use crate::outside;
use crate::resolve;
use crate::text;
use vstd::prelude::*;

verus! {

/// An extent is a number of pixels over a power of two. The double for 1 is 1, the
/// next exponent doubles a number, and each further step of the fraction adds the
/// same to it.
pub proof fn extents_are_doubles(bits: u64)
    requires
        0x3ff0_0000_0000_0000 <= bits < 0x41e0_0000_0000_0000,
    ensures
        capture::numerator(0x3ff0_0000_0000_0000) == capture::denominator(0x3ff0_0000_0000_0000),
        capture::denominator(bits) > 0,
        capture::numerator((bits + 0x10_0000_0000_0000) as u64) == capture::numerator(bits),
        capture::denominator(bits) == 2 * capture::denominator(
            (bits + 0x10_0000_0000_0000) as u64,
        ),
        bits % 0x10_0000_0000_0000 != 0x10_0000_0000_0000 - 1 ==> capture::numerator(
            (bits + 1) as u64,
        ) == capture::numerator(bits) + 1 && capture::denominator((bits + 1) as u64)
            == capture::denominator(bits),
{
    let f = 0x10_0000_0000_0000int;
    let b = bits as int;
    let c = (bits + 0x10_0000_0000_0000) as u64;
    assert(c == b + f);
    assert((b + f) / f == b / f + 1 && (b + f) % f == b % f) by (nonlinear_arith)
        requires
            f == 0x10_0000_0000_0000int,
            b >= 0,
    ;
    assert(1023 <= b / f < 1054) by (nonlinear_arith)
        requires
            f == 0x10_0000_0000_0000int,
            0x3ff0_0000_0000_0000 <= b < 0x41e0_0000_0000_0000,
    ;
    let e = (52 - capture::exponent(c)) as nat;
    assert(capture::exponent(c) == capture::exponent(bits) + 1);
    vstd::arithmetic::power2::lemma_pow2_pos(e);
    vstd::arithmetic::power2::lemma_pow2_pos((e + 1) as nat);
    vstd::arithmetic::power2::lemma_pow2_unfold((e + 1) as nat);
    assert((52 - capture::exponent(bits)) as nat == (e + 1) as nat);
    if b % f != f - 1 {
        let d = (bits + 1) as u64;
        assert((b + 1) / f == b / f && (b + 1) % f == b % f + 1) by (nonlinear_arith)
            requires
                f == 0x10_0000_0000_0000int,
                b >= 0,
                b % f != f - 1,
        ;
        assert(d == b + 1);
    }
    vstd::arithmetic::power2::lemma2_to64();
    vstd::arithmetic::power2::lemma2_to64_rest();
    assert(vstd::arithmetic::power2::pow2(52) == 0x10_0000_0000_0000);
}

/// A size is saved in whole pixels: the number nearest to the extent, and of two as
/// near the greater. An extent of less than a pixel, or of more than can be written,
/// is not saved.
pub proof fn extents_are_saved_to_the_nearest_pixel(bits: u64)
    ensures
        capture::pixels(bits) is Some <==> 0x3ff0_0000_0000_0000 <= bits <= 0x41df_ffff_ffc0_0000,
        capture::pixels(bits) is Some ==> {
            let n = capture::numerator(bits);
            let d = capture::denominator(bits);
            let px = capture::pixels(bits)->0->Pixels_0 as int;
            &&& capture::pixels(bits)->0 is Pixels
            &&& px == capture::rounded(bits) as i32
            &&& 2 * (capture::rounded(bits) * d) <= 2 * n + d
            &&& 2 * n + d < 2 * (capture::rounded(bits) * d) + 2 * d
        },
{
    if capture::pixels(bits) is Some {
        extents_are_doubles(bits);
        let n = capture::numerator(bits);
        let d = capture::denominator(bits);
        let q = capture::rounded(bits);
        let h = d / 2;
        let f = 0x10_0000_0000_0000int;
        let b = bits as int;
        assert(d == 2 * h) by {
            let c = (bits + 0x10_0000_0000_0000) as u64;
            assert(d == 2 * capture::denominator(c));
        }
        assert(q * d <= n + h < q * d + d) by (nonlinear_arith)
            requires
                q == (n + h) / d,
                d > 0,
        ;
    }
}

/// Several windows of the capture are in column `column`.
pub open spec fn is_stacked(c: Capture, column: usize) -> bool {
    exists|i: int, j: int|
        0 <= i < j < c.places().len() && (#[trigger] c.window(i)).column == Some(column) && (
        #[trigger] c.window(j)).column == Some(column)
}

/// A tiled window before the `k`th is in its column.
pub open spec fn is_led(c: Capture, k: int) -> bool {
    exists|j: int|
        0 <= j < k && !(#[trigger] c.window(j)).is_floating
            && c.recipe().windows[j].layout.column == c.recipe().windows[k].layout.column
}

proof fn shared_columns_are_stacked(c: Capture, column: usize)
    ensures
        c.is_shared_column(column) <==> is_stacked(c, column),
{
    let n = c.places().len();
    let f = c.in_column(column);
    if is_stacked(c, column) {
        let (i, j) = choose|i: int, j: int|
            0 <= i < j < c.places().len() && (#[trigger] c.window(i)).column == Some(column) && (
            #[trigger] c.window(j)).column == Some(column);
        capture_laws::two_are_given(n, f, i, j);
    }
    if c.is_shared_column(column) {
        lists::gathered_from(n, f);
        let from = lists::gather(n, lists::given_at(f));
        let i = from[0];
        let j = from[1];
        assert(c.window(i).column == Some(column) && c.window(j).column == Some(column));
    }
}

/// A captured window is placed where it was seen: in its column, floating or tiled.
/// The first tile of a column says how wide it is, the tiles of a column that several
/// windows share how high they are, and floating windows neither.
pub proof fn windows_are_placed_as_seen(c: Capture, k: int)
    requires
        0 <= k < c.places().len() <= usize::MAX,
    ensures
        ({
            let w = c.window(k);
            let at = c.recipe().windows[k].layout;
            &&& at.floating == w.is_floating
            &&& w.column is Some ==> at.column == w.column->0
            &&& w.column is None ==> at.column == k + 1
            &&& at.column_width == if w.is_floating || is_led(c, k) {
                None
            } else {
                capture::pixels(w.tile_width)
            }
            &&& at.window_height == if !w.is_floating && is_stacked(c, at.column) {
                capture::pixels(w.tile_height)
            } else {
                None
            }
            &&& at.display is None
            &&& at.output is None
        }),
{
    shared_columns_are_stacked(c, c.column(k));
    assert forall|j: int| 0 <= j < k implies (#[trigger] c.recipe().windows[j].layout.column
        == c.column(j)) by {}
    if !c.leads_column(k) {
        let j = choose|j: int|
            0 <= j < k && !(#[trigger] c.window(j)).is_floating && c.column(j) == c.column(k);
        assert(c.recipe().windows[j].layout.column == c.column(j));
        assert(is_led(c, k));
    }
    if is_led(c, k) {
        let j = choose|j: int|
            0 <= j < k && !(#[trigger] c.window(j)).is_floating
                && c.recipe().windows[j].layout.column == c.recipe().windows[k].layout.column;
        assert(c.recipe().windows[j].layout.column == c.column(j));
    }
}

/// A captured window is started again as it was, and is taken where it is open and no
/// other could be meant.
pub proof fn windows_are_kept_as_seen(c: Capture, k: int)
    requires
        0 <= k < c.places().len(),
    ensures
        ({
            let out = c.recipe().windows[k];
            &&& out.reuse == ReusePolicy::Unique
            &&& launch_laws::restores(
                c.window(k),
                c.facts[c.places()[k]],
                c.installed,
                c.programs,
                out.command,
            )
            &&& c.window(k) == c.state.windows[c.places()[k]]
        }),
{
    launch_laws::windows_come_back_as_they_were(
        c.window(k),
        c.process(k),
        c.installed,
        c.programs,
    );
}

/// A captured recipe is about the workspace: it has its name, and its output, and one
/// logical window for each window that is captured.
pub proof fn recipes_are_about_their_workspace(c: Capture)
    ensures
        ({
            let r = c.recipe();
            &&& r.name == Some(r.workspace)
            &&& c.workspace.name is Some ==> r.workspace == c.workspace.name->0
            &&& c.workspace.name is None ==> r.workspace == "Workspace "@ + text::decimal(
                c.workspace.index as nat,
            )
            &&& r.output == c.workspace.output
            &&& r.output_fallback == OutputFallback::Focused
            &&& r.spawn_timeout_ms == 10_000
            &&& r.windows.len() == c.places().len()
            &&& c.details().len() == c.places().len()
        }),
{
}

/// The `k`th window is the one that is asked for, or else has the focus.
pub open spec fn is_focus(c: Capture, k: int) -> bool {
    0 <= k < c.places().len() && (if c.focus is Some {
        c.window(k).id == c.focus->0
    } else {
        c.window(k).is_focused
    })
}

proof fn focus_is_last(c: Capture, n: nat)
    requires
        n <= c.places().len(),
    ensures
        c.focus_name(n) is None ==> forall|k: int| 0 <= k < n ==> !#[trigger] is_focus(c, k),
        c.focus_name(n) is Some ==> exists|k: int|
            0 <= k < n && #[trigger] is_focus(c, k) && c.focus_name(n) == Some(c.name(k))
                && forall|j: int| k < j < n ==> !#[trigger] is_focus(c, j),
    decreases n,
{
    if n > 0 {
        focus_is_last(c, (n - 1) as nat);
        let last = n - 1;
        if c.wants_focus(last) {
            assert(is_focus(c, last));
        } else if c.focus_name(last as nat) is Some {
            let k = choose|k: int|
                0 <= k < last && #[trigger] is_focus(c, k) && c.focus_name(last as nat) == Some(
                    c.name(k),
                ) && forall|j: int| k < j < last ==> !#[trigger] is_focus(c, j);
            assert(is_focus(c, k));
        }
    }
}

/// A captured recipe focuses the window that is asked for, or else the one that has
/// the focus; where there is none, it says nothing of it.
pub proof fn recipes_focus_what_is_focused(c: Capture)
    ensures
        c.recipe().focus is None <==> forall|k: int| !#[trigger] is_focus(c, k),
        c.recipe().focus is Some ==> exists|k: int| #[trigger]
            is_focus(c, k) && c.recipe().windows[k].name == c.recipe().focus->0,
{
    focus_is_last(c, c.places().len());
    if c.recipe().focus is Some {
        let n = c.places().len();
        let k = choose|k: int|
            0 <= k < n && #[trigger] is_focus(c, k) && c.focus_name(n) == Some(c.name(k))
                && forall|j: int| k < j < n ==> !#[trigger] is_focus(c, j);
        assert(c.recipe().windows[k].name == c.name(k));
    }
}

/// Another window than `i`, and not one of the manager, has its application.
pub open spec fn has_namesake(windows: Seq<RuntimeView>, i: int) -> bool {
    exists|j: int|
        0 <= j < windows.len() && j != i && (#[trigger] windows[j]).app_id == windows[i].app_id
            && !resolve::is_own_window(windows[j])
}

/// Another window than `i`, and not one of the manager, has its application and works
/// in the same directory.
pub open spec fn has_neighbour(windows: Seq<RuntimeView>, i: int) -> bool {
    exists|j: int|
        0 <= j < windows.len() && j != i && (#[trigger] windows[j]).app_id == windows[i].app_id
            && windows[j].cwd == windows[i].cwd && !resolve::is_own_window(windows[j])
}

/// The application of a window is known.
pub open spec fn has_app(w: RuntimeView) -> bool {
    w.app_id is Some && !text::is_blank(w.app_id->0)
}

proof fn namesakes_are_counted(windows: Seq<RuntimeView>, i: int)
    requires
        0 <= i < windows.len(),
        !resolve::is_own_window(windows[i]),
    ensures
        capture::shares_app(windows, windows[i]) <==> has_app(windows[i]) && has_namesake(
            windows,
            i,
        ),
{
    let w = windows[i];
    let n = windows.len();
    if w.app_id is Some {
        let f = capture::of_app(windows, w.app_id->0);
        if has_app(w) {
            assert(f(i) == Some(i));
            if has_namesake(windows, i) {
                let j = choose|j: int|
                    0 <= j < n && j != i && (#[trigger] windows[j]).app_id == w.app_id
                        && !resolve::is_own_window(windows[j]);
                assert(f(j) == Some(j));
                capture_laws::two_are_given(n, f, i, j);
            } else {
                assert forall|j: int| 0 <= j < n && j != i implies (#[trigger] f(j)) is None by {
                    assert(windows[j] == windows[j]);
                }
                capture_laws::only_one_given(n, f, i);
            }
        } else {
            assert forall|j: int| 0 <= j < n implies (#[trigger] f(j)) is None by {}
            lists::gather_is_empty(n, f);
        }
    }
}

proof fn neighbours_are_counted(windows: Seq<RuntimeView>, i: int)
    requires
        0 <= i < windows.len(),
        !resolve::is_own_window(windows[i]),
        has_app(windows[i]),
        windows[i].cwd is Some,
    ensures
        lists::gather(
            windows.len(),
            capture::of_app_in(windows, windows[i].app_id->0, windows[i].cwd->0),
        ).len() == 1 <==> !text::is_blank(windows[i].cwd->0) && !has_neighbour(windows, i),
{
    let w = windows[i];
    let n = windows.len();
    let f = capture::of_app_in(windows, w.app_id->0, w.cwd->0);
    if text::is_blank(w.cwd->0) {
        assert forall|j: int| 0 <= j < n implies (#[trigger] f(j)) is None by {}
        lists::gather_is_empty(n, f);
    } else {
        assert(f(i) == Some(i));
        if has_neighbour(windows, i) {
            let j = choose|j: int|
                0 <= j < n && j != i && (#[trigger] windows[j]).app_id == w.app_id
                    && windows[j].cwd == w.cwd && !resolve::is_own_window(windows[j]);
            assert(f(j) == Some(j));
            capture_laws::two_are_given(n, f, i, j);
        } else {
            assert forall|j: int| 0 <= j < n && j != i implies (#[trigger] f(j)) is None by {
                assert(windows[j] == windows[j]);
            }
            capture_laws::only_one_given(n, f, i);
        }
    }
}

/// A captured window is recognised by its application. Where another window has the
/// same, its working directory is added, if that tells them apart, or else its title.
/// A window without an application is recognised by its title.
pub proof fn windows_are_recognised_by_what_tells_them_apart(windows: Seq<RuntimeView>, i: int)
    requires
        0 <= i < windows.len(),
        !resolve::is_own_window(windows[i]),
    ensures
        ({
            let w = windows[i];
            let m = capture::captured_match(windows, w);
            let by_cwd = has_app(w) && has_namesake(windows, i) && w.cwd is Some && !text::is_blank(
                w.cwd->0,
            ) && !has_neighbour(windows, i);
            let by_title = w.title is Some && !text::is_blank(w.title->0) && (!has_app(w) || (
            has_namesake(windows, i) && !by_cwd));
            &&& m.window_id is None && m.process is None && m.pid is None
            &&& w.app_id is None ==> m.app_id is None
            &&& w.app_id is Some ==> m.app_id == Some(outside::literal_pattern(w.app_id->0))
            &&& by_cwd ==> m.cwd == Some(outside::literal_pattern(w.cwd->0))
            &&& !by_cwd ==> m.cwd is None
            &&& by_title ==> m.title == Some(outside::literal_pattern(text::trimmed(w.title->0)))
            &&& !by_title ==> m.title is None
        }),
{
    namesakes_are_counted(windows, i);
    if has_app(windows[i]) && windows[i].cwd is Some {
        neighbours_are_counted(windows, i);
    }
}

/// Only what begins with the identifier of the manager is its own window.
pub proof fn own_windows_go_by_the_manager(w: RuntimeView, rest: Seq<char>)
    ensures
        w.app_id == Some("dev.t1ktak.NiriWorkbench"@ + rest) ==> resolve::is_own_window(w),
        w.app_id is None ==> !resolve::is_own_window(w),
        resolve::is_own_window(w) ==> exists|tail: Seq<char>|
            w.app_id->0 == #[trigger] ("dev.t1ktak.NiriWorkbench"@ + tail),
{
    let own = "dev.t1ktak.NiriWorkbench"@;
    assert((own + rest).take(own.len() as int) =~= own);
    if resolve::is_own_window(w) {
        let tail = w.app_id->0.skip(own.len() as int);
        assert(w.app_id->0 =~= own + tail);
    }
}

/// A window is saved unless the user says otherwise where there is no project. Where
/// there is one, a terminal is where it works in it; of the other windows those are
/// that are editors or browsers, or that were started from it.
pub proof fn windows_of_the_project_are_included(
    w: RuntimeView,
    p: ProcessView,
    root: Option<Seq<char>>,
)
    ensures
        ({
            let (kept, note) = capture::inclusion(w, p, root);
            &&& root is None ==> kept && note is None
            &&& root is Some ==> note is Some
            &&& root is Some && launch::is_terminal(w) ==> (kept <==> launch::works_in(
                w,
                p,
                root->0,
            ))
            &&& root is Some && !launch::is_terminal(w) ==> (kept <==> launch::is_project_editor(w)
                || launch::is_browser(w) || launch::refers_to(w, p, root->0))
            &&& root is Some && !kept ==> text::has_part(note->0, root->0)
        }),
{
    if root is Some {
        let (kept, note) = capture::inclusion(w, p, root);
        if !kept {
            if launch::is_terminal(w) {
                let a = "terminal is outside project "@;
                assert(note->0.subrange(a.len() as int, (a.len() + root->0.len()) as int) =~= root->0);
                assert(text::occurs_at(note->0, root->0, a.len() as int));
            } else {
                let a = "no project context detected for this app (project "@;
                assert(note->0.subrange(a.len() as int, (a.len() + root->0.len()) as int) =~= root->0);
                assert(text::occurs_at(note->0, root->0, a.len() as int));
            }
        }
    }
}

/// The note of a window that is included says why: it is a terminal in the project,
/// an editor, started from the project, or a browser to look at.
pub proof fn notes_say_why(w: RuntimeView, p: ProcessView, root: Seq<char>)
    ensures
        ({
            let (kept, note) = capture::inclusion(w, p, Some(root));
            &&& kept && launch::is_terminal(w) ==> note == Some(
                "terminal belongs to the detected project"@,
            )
            &&& kept && !launch::is_terminal(w) && launch::is_project_editor(w) ==> note == Some(
                "editor identifies the detected project"@,
            )
            &&& kept && !launch::is_terminal(w) && !launch::is_project_editor(w)
                && launch::refers_to(w, p, root) ==> note == Some(
                "process executable or launch arguments reference the detected project"@,
            )
            &&& kept && !launch::is_terminal(w) && !launch::is_project_editor(w)
                && !launch::refers_to(w, p, root) ==> note == Some(
                "browser window on the project workspace; review before saving"@,
            )
        }),
{
}

/// What is shown of a captured window is what it shows of itself, and its name where
/// it has no title.
pub proof fn details_are_as_seen(c: Capture, k: int)
    requires
        0 <= k < c.places().len(),
    ensures
        ({
            let w = c.window(k);
            let d = c.details()[k];
            &&& w.title is Some ==> d.title == w.title->0
            &&& w.title is None ==> d.title == c.recipe().windows[k].name
            &&& w.app_id is Some ==> d.app_id == w.app_id->0
            &&& w.app_id is None ==> d.app_id.len() == 0
            &&& d.cwd == w.cwd
            &&& (d.include_by_default, d.inclusion_note) == capture::inclusion(
                w,
                c.facts[c.places()[k]],
                c.project_root(),
            )
        }),
{
}

/// The `k`th window is one of Visual Studio Code that was started with the directory
/// `root`.
pub open spec fn opens_project(c: Capture, k: int, root: Seq<char>) -> bool {
    0 <= k < c.places().len() && (launch_laws::app_name(c.window(k)) == "code"@ || text::has_part(
        launch_laws::app_name(c.window(k)),
        "visual-studio-code"@,
    )) && launch::opened_project(c.window(k), c.process(k)) == Some(root)
}

/// The `k`th window works in the project `root`.
pub open spec fn works_in_project(c: Capture, k: int, root: Seq<char>) -> bool {
    0 <= k < c.places().len() && c.window(k).cwd is Some && c.process(k).cwd_root == Some(root)
}

/// The project of a workspace is the one that an editor on it shows. Where none shows
/// one, it is the one that a window on it works in. Of several the first counts.
pub proof fn workspaces_are_about_their_editors_project(c: Capture, k: int, root: Seq<char>)
    ensures
        opens_project(c, k, root) && (forall|j: int, r: Seq<char>|
            j < k ==> !#[trigger] opens_project(c, j, r)) ==> c.project_root() == Some(root),
        (forall|j: int, r: Seq<char>| !#[trigger] opens_project(c, j, r)) && works_in_project(
            c,
            k,
            root,
        ) && (forall|j: int, r: Seq<char>| j < k ==> !#[trigger] works_in_project(c, j, r))
            ==> c.project_root() == Some(root),
        (forall|j: int, r: Seq<char>| !#[trigger] opens_project(c, j, r)) && (forall|
            j: int,
            r: Seq<char>,
        |
            !#[trigger] works_in_project(c, j, r)) ==> c.project_root() is None,
{
    let n = c.places().len();
    let f = c.editor_project();
    let g = c.working_project();
    assert forall|j: int| 0 <= j < n implies launch::lower_app(#[trigger] c.window(j))
        == launch_laws::app_name(c.window(j)) by {
        assert(launch::lower_app(c.window(j)) =~= launch_laws::app_name(c.window(j)));
    }
    assert forall|j: int| 0 <= j < n && (#[trigger] f(j)) is Some implies opens_project(
        c,
        j,
        f(j)->0,
    ) by {
        assert(launch::lower_app(c.window(j)) == launch_laws::app_name(c.window(j)));
    }
    assert forall|j: int| 0 <= j < n && (#[trigger] g(j)) is Some implies works_in_project(
        c,
        j,
        g(j)->0,
    ) by {}
    if opens_project(c, k, root) && (forall|j: int, r: Seq<char>|
        j < k ==> !#[trigger] opens_project(c, j, r)) {
        assert(launch::lower_app(c.window(k)) == launch_laws::app_name(c.window(k)));
        assert forall|j: int| 0 <= j < k implies (#[trigger] f(j)) is None by {
            if f(j) is Some {
                assert(opens_project(c, j, f(j)->0));
            }
        }
        lists::first_given_is(n, f, k);
    }
    if forall|j: int, r: Seq<char>| !#[trigger] opens_project(c, j, r) {
        assert forall|j: int| 0 <= j < n implies (#[trigger] f(j)) is None by {
            if f(j) is Some {
                assert(opens_project(c, j, f(j)->0));
            }
        }
        lists::first_given_none(n, f);
        if works_in_project(c, k, root) && (forall|j: int, r: Seq<char>|
            j < k ==> !#[trigger] works_in_project(c, j, r)) {
            assert forall|j: int| 0 <= j < k implies (#[trigger] g(j)) is None by {
                if g(j) is Some {
                    assert(works_in_project(c, j, g(j)->0));
                }
            }
            lists::first_given_is(n, g, k);
        }
        if forall|j: int, r: Seq<char>| !#[trigger] works_in_project(c, j, r) {
            assert forall|j: int| 0 <= j < n implies (#[trigger] g(j)) is None by {
                if g(j) is Some {
                    assert(works_in_project(c, j, g(j)->0));
                }
            }
            lists::first_given_none(n, g);
        }
    }
}

/// The workspace that is captured is the one that is asked for, where it is there, or
/// else the one that has the focus.
pub proof fn the_workspace_asked_for_is_captured(
    s: StateView,
    preferred: Option<u64>,
    w: WorkspaceView,
)
    requires
        capture::captured_workspace(s, preferred) == Some(w),
    ensures
        s.workspaces.contains(w),
        w.is_focused || preferred == Some(w.id),
        forall|i: int|
            0 <= i < s.workspaces.len() && preferred == Some((#[trigger] s.workspaces[i]).id)
                ==> preferred == Some(w.id),
{
    if preferred is Some {
        let p = crate::model::workspace_has_id(preferred->0);
        lists::first_is_none(s.workspaces, p);
        if s.workspace(preferred->0) is Some {
            lists::first_holds(s.workspaces, p);
        }
    }
    if preferred is None || s.workspace(preferred->0) is None {
        lists::first_holds(s.workspaces, crate::model::workspace_focused());
    }
}

/// Where nothing can be captured, no workspace is asked for or has the focus.
pub proof fn a_workspace_is_captured_where_there_is_one(s: StateView, preferred: Option<u64>)
    requires
        capture::captured_workspace(s, preferred) is None,
    ensures
        forall|i: int|
            0 <= i < s.workspaces.len() ==> !(#[trigger] s.workspaces[i]).is_focused && preferred
                != Some(s.workspaces[i].id),
{
    lists::first_is_none(s.workspaces, crate::model::workspace_focused());
    if preferred is Some {
        lists::first_is_none(s.workspaces, crate::model::workspace_has_id(preferred->0));
    }
}

/// Of two captured windows the first does not stand right of the second, nor below it in
/// the same column. Windows without a place come last.
pub proof fn captures_go_from_left_to_right(c: Capture, a: int, b: int)
    requires
        0 <= a < b < c.places().len(),
    ensures
        ({
            let v = c.window(a);
            let w = c.window(b);
            &&& v.column is Some && w.column is Some ==> v.column->0 <= w.column->0
            &&& v.column is Some && v.column == w.column && v.tile_index is Some
                && w.tile_index is Some ==> v.tile_index->0 <= w.tile_index->0
            &&& v.column == w.column && v.tile_index == w.tile_index ==> v.id <= w.id
            &&& v.column is None ==> w.column is None || w.column->0 == usize::MAX
        }),
{
    capture_laws::captures_are_in_order(c, a, b);
}

/// A captured window is named after its application, or else its title.
pub proof fn windows_are_named_after_their_application(w: RuntimeView, k: int)
    ensures
        w.app_id is Some ==> capture::name_source(w) == w.app_id->0,
        w.app_id is None && w.title is Some ==> capture::name_source(w) == w.title->0,
        w.app_id is None && w.title is None ==> capture::name_source(w) == "window"@,
        crate::naming::slug(capture::name_source(w)).len() > 0 ==> capture::plain_name(w, k)
            == crate::naming::slug(capture::name_source(w)),
        crate::naming::slug(capture::name_source(w)).len() == 0 ==> capture::plain_name(w, k)
            == "window-"@ + text::decimal((k + 1) as nat),
{
}

} // verus!
