//! Where the program keeps its files, and the language that it speaks.
use crate::i18n;
use crate::i18n::Language;
use crate::outside;
use crate::outside::debug_string;
use crate::paths;
use crate::paths::join;
use crate::text;
use vstd::prelude::*;

verus! {

/// The directory of the configuration, from what the environment says.
pub open spec fn config_dir_of(config_home: Option<Seq<char>>, home: Option<Seq<char>>) -> Seq<
    char,
> {
    match config_home {
        Some(dir) => paths::join_path(dir, "niri-workbench"@),
        None => paths::join_path(
            match home {
                Some(h) => h,
                None => "."@,
            },
            ".config/niri-workbench"@,
        ),
    }
}

/// The directory of the configuration. `config_home` and `home` are what the
/// environment says.
pub fn config_dir(config_home: &Option<String>, home: &Option<String>) -> (out: String)
    ensures
        out@ == config_dir_of(text::opt_text(*config_home), text::opt_text(*home)),
{
    match config_home {
        Some(dir) => join(dir.as_str(), "niri-workbench"),
        None => match home {
            Some(h) => join(h.as_str(), ".config/niri-workbench"),
            None => join(".", ".config/niri-workbench"),
        },
    }
}

/// The file that holds the recipes.
pub fn config_path(config_home: &Option<String>, home: &Option<String>) -> (out: String)
    ensures
        out@ == paths::join_path(
            config_dir_of(text::opt_text(*config_home), text::opt_text(*home)),
            "config.toml"@,
        ),
{
    join(config_dir(config_home, home).as_str(), "config.toml")
}

/// The file that holds the settings of the interface.
pub fn settings_path(config_home: &Option<String>, home: &Option<String>) -> (out: String)
    ensures
        out@ == paths::join_path(
            config_dir_of(text::opt_text(*config_home), text::opt_text(*home)),
            "ui.toml"@,
        ),
{
    join(config_dir(config_home, home).as_str(), "ui.toml")
}

/// The language to speak: the stored one, else that of the environment, else
/// English.
pub open spec fn language_of(stored: Option<Seq<char>>, environment: Option<Seq<char>>) -> Language {
    i18n::language_named(
        match stored {
            Some(s) => s,
            None => match environment {
                Some(e) => e,
                None => "en"@,
            },
        },
    )
}

/// The language to speak. `stored` is what the settings say, `environment` what
/// the environment does.
pub fn load_language(stored: &Option<String>, environment: &Option<String>) -> (out: Language)
    ensures
        out == language_of(text::opt_text(*stored), text::opt_text(*environment)),
{
    match stored {
        Some(s) => Language::from_code(s.as_str()),
        None => match environment {
            Some(e) => Language::from_code(e.as_str()),
            None => Language::from_code("en"),
        },
    }
}

/// The settings as they are stored.
pub fn save_language(language: Language) -> (out: String)
    ensures
        out@ == "language = "@ + outside::debug_text(i18n::code_of(language)) + "\n"@,
{
    let mut out: String = "language = ".to_owned();
    out.append(debug_string(language.code()).as_str());
    out.append("\n");
    out
}

/// A language that was stored is spoken again, whatever the environment says.
pub proof fn stored_languages_are_spoken(language: Language, environment: Option<Seq<char>>)
    ensures
        language_of(Some(i18n::code_of(language)), environment) == language,
{
    i18n::codes_name_their_language(language);
}

/// Both files lie in the directory of the configuration.
pub proof fn files_lie_together(config_home: Option<Seq<char>>, home: Option<Seq<char>>)
    ensures
        ({
            let dir = config_dir_of(config_home, home);
            &&& paths::join_path(dir, "config.toml"@) == dir + "/config.toml"@
            &&& paths::join_path(dir, "ui.toml"@) == dir + "/ui.toml"@
        }),
{
    reveal_strlit("config.toml");
    reveal_strlit("/config.toml");
    reveal_strlit("ui.toml");
    reveal_strlit("/ui.toml");
    reveal_strlit("/");
    reveal_strlit("niri-workbench");
    reveal_strlit(".config/niri-workbench");
    let dir = config_dir_of(config_home, home);
    assert(dir.len() > 0 && dir.last() == 'h');
    assert("/"@ + "config.toml"@ =~= "/config.toml"@);
    assert("/"@ + "ui.toml"@ =~= "/ui.toml"@);
    assert(dir + "/"@ + "config.toml"@ =~= dir + "/config.toml"@);
    assert(dir + "/"@ + "ui.toml"@ =~= dir + "/ui.toml"@);
}

} // verus!
