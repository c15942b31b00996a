//! The calls into other crates, and those into the standard library that have
//! no specification of their own.
use crate::environment;
use crate::environment::{Environment, EnvironmentView};
use crate::text;
use vstd::prelude::*;

verus! {

/// The text of the error that `regex::Regex::new` gives for a pattern, or
/// nothing where the pattern compiles.
pub uninterp spec fn regex_error(pattern: Seq<char>) -> Option<Seq<char>>;

/// Whether `regex::Regex::is_match` finds the pattern somewhere in a text; not
/// where the pattern does not compile.
pub uninterp spec fn regex_matches(pattern: Seq<char>, text: Seq<char>) -> bool;

/// The characters that have a meaning in a regular expression.
pub open spec fn is_meta(c: char) -> bool {
    c == '\\' || c == '.' || c == '+' || c == '*' || c == '?' || c == '(' || c == ')' || c == '|'
        || c == '[' || c == ']' || c == '{' || c == '}' || c == '^' || c == '$' || c == '#' || c
        == '&' || c == '-' || c == '~'
}

/// `s` with a backslash before each character that has a meaning in a regular
/// expression.
pub open spec fn escaped(s: Seq<char>) -> Seq<char>
    decreases s.len(),
{
    if s.len() == 0 {
        Seq::empty()
    } else if is_meta(s.last()) {
        escaped(s.drop_last()).push('\\').push(s.last())
    } else {
        escaped(s.drop_last()).push(s.last())
    }
}

/// The pattern that stands for the literal text `s` and nothing else.
pub open spec fn literal_pattern(s: Seq<char>) -> Seq<char> {
    seq!['^'] + escaped(s) + seq!['$']
}

/// Calls `regex::Regex::new` and gives the text of its error, if any. What the
/// error says depends on the pattern alone.
#[verifier::external_body]
pub(crate) fn pattern_error(pattern: &str) -> (out: Option<String>)
    ensures
        text::opt_text(out) == regex_error(pattern@),
{
    regex::Regex::new(pattern).err().map(|e| e.to_string())
}

/// Calls `regex::Regex::new` and, on what it compiled, `regex::Regex::is_match`.
/// Of a pattern that compiles and is a literal text between `^` and `$`, with its
/// meta characters escaped, it is claimed that it matches that text only: without
/// flags the two anchors stand for the ends of the whole haystack.
#[verifier::external_body]
pub(crate) fn pattern_matches(pattern: &str, haystack: &str) -> (out: bool)
    ensures
        out == regex_matches(pattern@, haystack@),
        regex_error(pattern@) is Some ==> !out,
        forall|s: Seq<char>|
            pattern@ == #[trigger] literal_pattern(s) && regex_error(pattern@) is None ==> out == (
            haystack@ == s),
{
    regex::Regex::new(pattern).map(|r| r.is_match(haystack)).unwrap_or(false)
}

/// Calls `regex::escape`, which puts a backslash before each character that has a
/// meaning in a regular expression.
#[verifier::external_body]
pub(crate) fn escape_pattern(s: &str) -> (out: String)
    ensures
        out@ == escaped(s@),
{
    regex::escape(s)
}

/// How the standard library's `Debug` writes a string: in double quotes, with
/// what is not printable escaped.
pub uninterp spec fn debug_text(s: Seq<char>) -> Seq<char>;

/// The text holds only the characters from the space to the tilde.
pub open spec fn is_printable(s: Seq<char>) -> bool {
    forall|i: int| 0 <= i < s.len() ==> ' ' <= #[trigger] s[i] <= '~'
}

/// `s` with a backslash before each double quote and each backslash.
pub open spec fn backslashed(s: Seq<char>) -> Seq<char>
    decreases s.len(),
{
    if s.len() == 0 {
        Seq::empty()
    } else if s.last() == '"' || s.last() == '\\' {
        backslashed(s.drop_last()).push('\\').push(s.last())
    } else {
        backslashed(s.drop_last()).push(s.last())
    }
}

/// `s` in double quotes.
pub open spec fn quoted(s: Seq<char>) -> Seq<char> {
    seq!['"'] + backslashed(s) + seq!['"']
}

/// Formats a string with `{:?}`. The text depends on the string alone. Of a string of
/// printable ASCII characters it is claimed that only double quotes and backslashes
/// are escaped, each by a backslash.
#[verifier::external_body]
pub(crate) fn debug_string(s: &str) -> (out: String)
    ensures
        out@ == debug_text(s@),
        is_printable(s@) ==> out@ == quoted(s@),
{
    format!("{s:?}")
}

/// The words into which `shlex::split` takes a text apart, as a POSIX shell
/// would; nothing where a quotation or an escape is left open.
pub uninterp spec fn shell_words(s: Seq<char>) -> Option<Seq<Seq<char>>>;

pub open spec fn opt_texts(v: Option<Vec<String>>) -> Option<Seq<Seq<char>>> {
    match v {
        Some(words) => Some(text::texts(words@)),
        None => None,
    }
}

/// A character that `shlex::split` takes as it is.
pub open spec fn is_plain_for_shell(c: char) -> bool {
    c != '"' && c != '\'' && c != '\\' && c != '#' && c != '\t' && c != '\n'
}

/// A word of a line for a shell: in double quotes, or as it is.
pub open spec fn shell_word(word: (Seq<char>, bool)) -> Seq<char> {
    if word.1 {
        quoted(word.0)
    } else {
        word.0
    }
}

/// A word that reads back as it was: printable in double quotes, or not empty and
/// with nothing in it that is taken in a special way.
pub open spec fn is_shell_word(word: (Seq<char>, bool)) -> bool {
    if word.1 {
        is_printable(word.0)
    } else {
        word.0.len() > 0 && forall|i: int|
            0 <= i < word.0.len() ==> is_plain_for_shell(#[trigger] word.0[i]) && word.0[i] != ' '
    }
}

/// A line of words with a space between each and the next.
pub open spec fn shell_line(words: Seq<(Seq<char>, bool)>) -> Seq<char> {
    text::joined(words.map_values(|w: (Seq<char>, bool)| shell_word(w)), " "@)
}

/// Calls `shlex::split`. Of a text without quotes, backslashes, `#`, tabs and
/// line feeds it is claimed that its words are what stands between its spaces; and of
/// a line of words, each in double quotes or without anything special, that they are
/// read back.
#[verifier::external_body]
pub(crate) fn split_words(s: &str) -> (out: Option<Vec<String>>)
    ensures
        opt_texts(out) == shell_words(s@),
        (forall|i: int| 0 <= i < s@.len() ==> is_plain_for_shell(#[trigger] s@[i])) ==> opt_texts(out)
            == Some(text::split(s@, ' ').filter(|piece: Seq<char>| piece.len() > 0)),
        forall|words: Seq<(Seq<char>, bool)>|
            s@ == #[trigger] shell_line(words) && (forall|i: int|
                0 <= i < words.len() ==> is_shell_word(#[trigger] words[i])) ==> opt_texts(out)
                == Some(words.map_values(|w: (Seq<char>, bool)| w.0)),
{
    shlex::split(s)
}

/// Bytes as text, as `String::from_utf8_lossy` reads them: what is not UTF-8
/// becomes the replacement character.
pub uninterp spec fn lossy_text(bytes: Seq<u8>) -> Seq<char>;

/// Calls `String::from_utf8_lossy`. The text depends on the bytes alone.
#[verifier::external_body]
pub(crate) fn text_of_bytes(bytes: &[u8]) -> (out: String)
    ensures
        out@ == lossy_text(bytes@),
{
    String::from_utf8_lossy(bytes).into_owned()
}

/// The text that stands at a JSON pointer, as `serde_json` reads a document;
/// nothing where the document is not JSON, or has no text there.
pub uninterp spec fn json_text(contents: Seq<char>, pointer: Seq<char>) -> Option<Seq<char>>;

/// Calls `serde_json::from_str`, and on the document `Value::pointer` and
/// `Value::as_str`. The text depends on the document and the pointer alone.
#[verifier::external_body]
pub(crate) fn json_text_at(contents: &str, pointer: &str) -> (out: Option<String>)
    ensures
        text::opt_text(out) == json_text(contents@, pointer@),
{
    let document: serde_json::Value = serde_json::from_str(contents).ok()?;
    document.pointer(pointer).and_then(|v| v.as_str()).map(|s| s.to_owned())
}

/// What `shellexpand::full_with_context` makes of a text where the home directory
/// is `home` and the variable `names[i]` has the value `values[i]`, or an error.
pub uninterp spec fn expansion(
    s: Seq<char>,
    home: Option<Seq<char>>,
    names: Seq<Seq<char>>,
    values: Seq<Result<Seq<char>, Seq<char>>>,
) -> Result<Seq<char>, Seq<char>>;

/// What a text expands to in an environment.
pub open spec fn expanded(s: Seq<char>, e: EnvironmentView) -> Result<Seq<char>, Seq<char>> {
    expansion(s, e.home, e.names, e.values)
}

/// A path that begins with the home directory.
pub open spec fn is_home_path(s: Seq<char>) -> bool {
    s.len() > 0 && s[0] == '~' && (s.len() == 1 || s[1] == '/')
}

/// A dollar sign and the name of a variable.
pub open spec fn is_variable(s: Seq<char>) -> bool {
    s.len() > 1 && s[0] == '$' && forall|i: int|
        1 <= i < s.len() ==> text::is_alnum(#[trigger] s[i]) || s[i] == '_'
}

/// What a text expands to where that is a matter of one thing: a text without
/// variables, whose home directory is filled in, and one that is a variable.
pub open spec fn plain_expansion(s: Seq<char>, e: EnvironmentView) -> Option<
    Result<Seq<char>, Seq<char>>,
> {
    if !s.contains('$') {
        if is_home_path(s) && e.home is Some {
            Some(Ok(e.home->0 + s.skip(1)))
        } else {
            Some(Ok(s))
        }
    } else if is_variable(s) {
        match e.value_of(s.skip(1)) {
            Ok(value) => Some(Ok(value)),
            Err(message) => Some(
                Err("error looking key '"@ + s.skip(1) + "' up: "@ + message),
            ),
        }
    } else {
        None
    }
}

/// Calls `shellexpand::full_with_context`, which replaces variables by their values
/// and a leading `~` by the home directory, with the home directory and the
/// variables of `environment`, and gives the text of its error. The result depends
/// on these alone. Of a text without `$` it is claimed that it stays as it is but
/// for the home directory, and of one that is just a variable that its value, or
/// the error of the variable, comes out.
#[verifier::external_body]
pub(crate) fn expand_text(s: &str, environment: &Environment) -> (out: Result<String, String>)
    ensures
        environment::result_text(out) == expansion(
            s@,
            environment@.home,
            environment@.names,
            environment@.values,
        ),
        plain_expansion(s@, environment@) is Some ==> Some(environment::result_text(out)) == plain_expansion(
            s@,
            environment@,
        ),
{
    shellexpand::full_with_context(
        s,
        || environment.home.clone(),
        |name| environment.lookup(name),
    ).map(|e| e.into_owned()).map_err(|e| e.to_string())
}

} // verus!
