//! Command lines as people write them.
use crate::outside;
use crate::outside::split_words;
use crate::show;
use crate::text;
use crate::text::blank;
use vstd::prelude::*;

verus! {

/// A text that has nothing in it that a shell would take in a special way.
pub open spec fn is_plain(s: Seq<char>) -> bool {
    forall|i: int| 0 <= i < s.len() ==> outside::is_plain_for_shell(#[trigger] s[i])
}

/// The words of a plain text: what stands between its spaces.
pub open spec fn plain_words(s: Seq<char>) -> Seq<Seq<char>> {
    text::split(s, ' ').filter(|piece: Seq<char>| piece.len() > 0)
}

/// The words of a command line, or nothing where a quote is left open.
pub open spec fn command_of(s: Seq<char>, words: Option<Seq<Seq<char>>>) -> Option<Seq<Seq<char>>> {
    if text::is_blank(s) {
        Some(Seq::empty())
    } else {
        words
    }
}

pub open spec fn command_view(out: Result<Vec<String>, &'static str>) -> Option<Seq<Seq<char>>> {
    match out {
        Ok(words) => Some(text::texts(words@)),
        Err(_) => None,
    }
}

/// Decides on what the shell's rules made of a command line.
pub fn read_command(line: &str, words: Option<Vec<String>>) -> (out: Result<
    Vec<String>,
    &'static str,
>)
    ensures
        command_view(out) == command_of(line@, outside::opt_texts(words)),
        out is Err ==> out->Err_0@ == "unclosed quote in launch command"@,
{
    if blank(line) {
        let none: Vec<String> = Vec::new();
        assert(text::texts(none@) =~= Seq::empty());
        return Ok(none);
    }
    match words {
        Some(w) => Ok(w),
        None => Err("unclosed quote in launch command"),
    }
}

/// A command whose words are printable and not empty.
pub open spec fn is_printable_command(command: Seq<Seq<char>>) -> bool {
    forall|i: int|
        0 <= i < command.len() ==> (#[trigger] command[i]).len() > 0 && outside::is_printable(
            command[i],
        )
}

/// Reads a command line as a shell would. An empty one is no command. A command line
/// that was written for editing is read back.
pub fn parse_command(line: &str) -> (out: Result<Vec<String>, &'static str>)
    ensures
        command_view(out) == command_of(line@, outside::shell_words(line@)),
        out is Err ==> out->Err_0@ == "unclosed quote in launch command"@,
        is_plain(line@) && !text::is_blank(line@) ==> command_view(out) == Some(
            plain_words(line@),
        ),
        forall|command: Seq<Seq<char>>|
            is_printable_command(command) && line@ == #[trigger] show::shown_words(
                command,
                "/._-:=+%@~"@,
            ) ==> command_view(out) == Some(command),
{
    let words: Option<Vec<String>> = split_words(line);
    assert forall|command: Seq<Seq<char>>|
        is_printable_command(command) && line@ == #[trigger] show::shown_words(
            command,
            "/._-:=+%@~"@,
        ) implies command_of(line@, outside::opt_texts(words)) == Some(command) by {
        written_commands_are_lines(command);
        assert(as_line(command).map_values(|w: (Seq<char>, bool)| w.0) =~= command);
    }
    read_command(line, words)
}

// Laws

/// The words of a command, each with whether it is written in double quotes.
pub open spec fn as_line(command: Seq<Seq<char>>) -> Seq<(Seq<char>, bool)> {
    command.map_values(|w: Seq<char>| (w, !show::is_bare(w, "/._-:=+%@~"@)))
}

/// A command of printable words is written as a line whose words all read back, and
/// that is blank only where there is no word.
pub proof fn written_commands_are_lines(command: Seq<Seq<char>>)
    requires
        is_printable_command(command),
    ensures
        ({
            let line = show::shown_words(command, "/._-:=+%@~"@);
            &&& line == outside::shell_line(as_line(command))
            &&& forall|i: int|
                0 <= i < command.len() ==> outside::is_shell_word(#[trigger] as_line(command)[i])
            &&& text::is_blank(line) <==> command.len() == 0
        }),
{
    let extra = "/._-:=+%@~"@;
    reveal_strlit("/._-:=+%@~");
    let line = show::shown_words(command, extra);
    let shown = command.map_values(|w: Seq<char>| show::shown_word(w, extra));
    let words = as_line(command);
    assert forall|i: int| 0 <= i < command.len() implies outside::is_shell_word(
        #[trigger] words[i],
    ) && outside::shell_word(words[i]) == shown[i] by {
        let w = command[i];
        assert(w.len() > 0 && outside::is_printable(w));
        if show::is_bare(w, extra) {
            assert forall|k: int| 0 <= k < w.len() implies outside::is_plain_for_shell(
                #[trigger] w[k],
            ) && w[k] != ' ' by {
                assert(text::is_alnum(w[k]) || extra.contains(w[k]));
            }
        }
    }
    assert(words.map_values(|w: (Seq<char>, bool)| outside::shell_word(w)) =~= shown);
    if command.len() > 0 {
        let w = command[0];
        assert(w.len() > 0 && outside::is_printable(w));
        assert(shown[0].len() > 0 && !text::is_white(shown[0][0])) by {
            if show::is_bare(w, extra) {
                assert(text::is_alnum(w[0]) || extra.contains(w[0]));
            } else {
                assert(shown[0] == outside::quoted(w));
                assert(shown[0][0] == '"');
            }
        }
        first_word_first(shown);
        assert(line[0] == shown[0][0]);
    }
}

proof fn first_word_first(words: Seq<Seq<char>>)
    requires
        words.len() > 0,
        words[0].len() > 0,
    ensures
        text::joined(words, " "@).len() > 0,
        text::joined(words, " "@)[0] == words[0][0],
    decreases words.len(),
{
    if words.len() > 1 {
        first_word_first(words.drop_last());
    } else {
        assert(text::joined(words, " "@) =~= words[0]);
    }
}

} // verus!
