//! Reviewing what was captured before it is saved.
use crate::capture::{CapturedView, CapturedWindow};
use crate::commands;
use crate::commands::parse_command;
use crate::editor;
use crate::editor::{set_entry_validation, workspace_fault, Faults};
use crate::i18n::Language;
use crate::model::{Recipe, RecipeView};
use crate::outside;
use crate::text;
use crate::text::{blank, trim};
use vstd::prelude::*;

verus! {

/// What is shown of a captured window below its title.
pub open spec fn meta_of(d: CapturedView) -> Seq<char> {
    match d.cwd {
        Some(cwd) => if d.app_id.len() > 0 {
            d.app_id + " · "@ + cwd
        } else {
            cwd
        },
        None => d.app_id,
    }
}

/// What is shown of a captured window below its title.
pub fn captured_meta(detail: &CapturedWindow) -> (out: String)
    ensures
        out@ == meta_of(detail@),
{
    let mut out: String = detail.app_id.clone();
    if let Some(cwd) = &detail.cwd {
        if out.as_str().unicode_len() > 0 {
            out.append(" · ");
        }
        out.append(cwd.as_str());
    }
    assert(out@ =~= meta_of(detail@));
    out
}

/// The name of the field that holds the command of captured window `i`.
pub open spec fn command_field(i: int) -> Seq<char> {
    "command-"@ + text::decimal(i as nat)
}

/// Takes note of what is wrong with the command line of captured window `index`.
pub fn check_command(faults: &mut Faults, index: usize, line: &str)
    ensures
        final(faults)@ == editor::noted(
            old(faults)@,
            command_field(index as int),
            match commands::command_of(line@, outside::shell_words(line@)) {
                Some(_) => None,
                None => Some("unclosed quote in launch command"@),
            },
        ),
{
    let mut key: String = "command-".to_owned();
    text::push_number(&mut key, index as u64);
    let fault: Option<String> = match parse_command(line) {
        Ok(_) => None,
        Err(f) => Some(f.to_owned()),
    };
    set_entry_validation(faults, key.as_str(), fault);
}

/// Whether what was captured can be saved: the workspace has a name, and no field
/// is wrong.
pub fn can_create(workspace: &str, faults: &Faults) -> (out: bool)
    ensures
        out == (!text::is_blank(workspace@) && faults@.len() == 0),
{
    !blank(workspace) && faults.is_empty()
}

/// The commands that the command lines stand for.
pub open spec fn command_at(lines: Seq<Seq<char>>) -> spec_fn(int) -> Option<Seq<Seq<char>>> {
    |i: int| commands::command_of(lines[i], outside::shell_words(lines[i]))
}

/// Some command line cannot be read.
pub open spec fn has_bad_command(lines: Seq<Seq<char>>) -> bool {
    exists|i: int| 0 <= i < lines.len() && (#[trigger] command_at(lines)(i)) is None
}

/// The recipe that is saved: what was captured, with the name of the workspace, the
/// commands and the name that were entered.
pub open spec fn reviewed(
    r: RecipeView,
    workspace: Seq<char>,
    lines: Seq<Seq<char>>,
    name: Seq<char>,
) -> RecipeView {
    RecipeView {
        workspace: text::trimmed(workspace),
        name: if text::is_blank(name) {
            None
        } else {
            Some(text::trimmed(name))
        },
        windows: Seq::new(
            r.windows.len(),
            |i: int| editor::with_command(r.windows[i], command_at(lines)(i)->0),
        ),
        ..r
    }
}

/// Makes the recipe that is saved out of what was captured and entered, or says
/// what is wrong. `lines` holds the command line of each window.
pub fn review_capture(
    recipe: &Recipe,
    workspace: &str,
    lines: &Vec<String>,
    name: &str,
    language: Language,
) -> (out: Result<Recipe, String>)
    requires
        lines@.len() == recipe.windows@.len(),
    ensures
        match out {
            Ok(r) => !text::is_blank(workspace@) && !has_bad_command(text::texts(lines@)) && r@
                == reviewed(recipe@, workspace@, text::texts(lines@), name@),
            Err(message) => if text::is_blank(workspace@) {
                message@ == editor::empty_workspace(language)
            } else {
                has_bad_command(text::texts(lines@)) && message@
                    == "unclosed quote in launch command"@
            },
        },
{
    if let Some(fault) = workspace_fault(workspace, language) {
        return Err(fault);
    }
    let ghost all = text::texts(lines@);
    let ghost f = command_at(all);
    let mut out: Recipe = recipe.clone();
    let ghost start = out@;
    out.workspace = trim(workspace).to_owned();
    out.name = if blank(name) {
        None
    } else {
        Some(trim(name).to_owned())
    };
    let n: usize = lines.len();
    assert(start.windows.len() == out.windows@.len());
    assert(recipe@.windows.len() == recipe.windows@.len());
    for i in 0..n
        invariant
            n == lines@.len(),
            n == out.windows@.len(),
            n == start.windows.len(),
            all == text::texts(lines@),
            f == command_at(all),
            !text::is_blank(workspace@),
            out@ == (RecipeView {
                workspace: text::trimmed(workspace@),
                name: if text::is_blank(name@) {
                    None
                } else {
                    Some(text::trimmed(name@))
                },
                windows: out@.windows,
                ..start
            }),
            forall|k: int|
                0 <= k < i ==> (#[trigger] f(k)) is Some && out.windows@[k]@
                    == editor::with_command(start.windows[k], f(k)->0),
            forall|k: int| i <= k < n ==> (#[trigger] out.windows@[k])@ == start.windows[k],
    {
        assert(all[i as int] == lines@[i as int]@);
        let ghost given = f(i as int);
        let ghost before = out.windows@;
        match parse_command(lines[i].as_str()) {
            Ok(command) => {
                assert(out.windows@[i as int]@ == start.windows[i as int]);
                out.windows[i].command = command;
                assert(out.windows@[i as int]@ =~= editor::with_command(
                    start.windows[i as int],
                    given->0,
                ));
                assert forall|k: int| 0 <= k < n && k != i implies (#[trigger] out.windows@[k])@
                    == before[k]@ by {}
            },
            Err(fault) => {
                assert(has_bad_command(all));
                return Err(fault.to_owned());
            },
        }
    }
    proof {
        assert(!has_bad_command(all)) by {
            if has_bad_command(all) {
                let k = choose|k: int| 0 <= k < all.len() && (#[trigger] f(k)) is None;
                assert(f(k) is Some);
            }
        }
        assert forall|k: int| 0 <= k < n implies #[trigger] out@.windows[k]
            == editor::with_command(start.windows[k], f(k)->0) by {
            assert(f(k) is Some);
        }
        assert(out@ =~= reviewed(recipe@, workspace@, all, name@));
    }
    Ok(out)
}

} // verus!
