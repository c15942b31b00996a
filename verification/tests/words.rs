use niri_workbench::apps::normalize_app_identity;
use niri_workbench::commands::{parse_command, read_command};
use niri_workbench::naming::{free_name, unique_slug};
use niri_workbench::paths::{absolute, join, name_of_file, path_components, within};
use niri_workbench::show::display_command;
use niri_workbench::text::{
    ascii_lowercase, char_is_alnum, char_is_white, lines_of, number_text, parse_i32, parse_u32,
    rfind_char, split_char, str_lt, strip_prefix, strip_suffix, trim,
};

#[test]
fn white_space_is_that_of_unicode() {
    for code in 0..=0x10ffff_u32 {
        if let Some(c) = char::from_u32(code) {
            assert_eq!(char_is_white(c), c.is_whitespace(), "{code:x}");
            assert_eq!(char_is_alnum(c), c.is_ascii_alphanumeric(), "{code:x}");
        }
    }
}

#[test]
fn texts_are_cut_and_compared_as_by_std() {
    for s in ["", " a\u{a0}b \t", "äß\n", "x", "\u{3000}", "a.b.c"] {
        assert_eq!(trim(s), s.trim());
        assert_eq!(ascii_lowercase(s), s.to_ascii_lowercase());
        assert_eq!(split_char(s, '.'), s.split('.').map(str::to_owned).collect::<Vec<_>>());
        assert_eq!(lines_of(s), s.lines().map(str::to_owned).collect::<Vec<_>>());
        assert_eq!(strip_prefix(s, "a."), s.strip_prefix("a."));
        assert_eq!(strip_suffix(s, ".c"), s.strip_suffix(".c"));
        for t in ["", "a", "ä", "z", "a.b"] {
            assert_eq!(str_lt(s, t), s < t);
        }
    }
    assert_eq!(lines_of("a\r\nb\n\nc"), vec!["a", "b", "", "c"]);
    assert_eq!(rfind_char("a.b.c", '.'), Some(3));
}

#[test]
fn numbers_are_read_as_by_std() {
    for s in ["0", "-0", "+7", "007", "2147483647", "2147483648", "-2147483648", "-2147483649",
        "", "-", "+", " 1", "1 ", "1_0", "4294967295", "4294967296", "٣"]
    {
        assert_eq!(parse_i32(s), s.parse::<i32>().ok(), "{s}");
        assert_eq!(parse_u32(s), s.parse::<u32>().ok(), "{s}");
    }
    assert_eq!(number_text(u64::MAX), u64::MAX.to_string());
    assert_eq!(number_text(0), "0");
}

#[test]
fn slugs_hold_letters_digits_and_single_dashes() {
    assert_eq!(unique_slug("  Rust & Web -- Dev! "), "rust-web-dev");
    assert_eq!(unique_slug("Привет"), "");
    assert_eq!(unique_slug(&unique_slug("A__B")), "a-b");
    assert_eq!(free_name("a", &vec!["a".to_owned(), "a-2".to_owned()]), "a-3");
    assert_eq!(free_name("a", &vec![]), "a");
    assert_eq!(normalize_app_identity("Org.GNOME-Editor é"), "orggnomeeditor");
}

#[test]
fn paths_are_taken_apart_as_by_std() {
    for p in ["/a/b", "/a//b/./c/", "a", "./a", "..", "/", "", "a/..", "/.."] {
        let path = std::path::Path::new(p);
        assert_eq!(absolute(p), path.is_absolute(), "{p}");
        assert_eq!(
            name_of_file(p),
            path.file_name().map(|n| n.to_string_lossy().into_owned()),
            "{p}"
        );
        let expected: Vec<String> = path
            .components()
            .filter(|c| !matches!(c, std::path::Component::RootDir))
            .map(|c| c.as_os_str().to_string_lossy().into_owned())
            .collect();
        assert_eq!(path_components(p), expected, "{p}");
        for r in ["/", "/a", "a", "", "/a/b", "."] {
            assert_eq!(within(p, r), path.starts_with(r), "{p} {r}");
        }
        assert_eq!(join(p, "x"), path.join("x").to_string_lossy(), "{p}");
    }
}

#[test]
fn command_lines_are_split_like_a_shell_does() {
    assert_eq!(
        parse_command("code 'my dir' \"a b\" c\\ d"),
        Ok(vec!["code".to_owned(), "my dir".to_owned(), "a b".to_owned(), "c d".to_owned()])
    );
    assert_eq!(parse_command("   "), Ok(vec![]));
    assert_eq!(parse_command("code 'x"), Err("unclosed quote in launch command"));
    assert_eq!(read_command("x", None), Err("unclosed quote in launch command"));
    assert_eq!(read_command(" ", None), Ok(vec![]));
    let command = vec!["code".to_owned(), "--new-window".to_owned(), "/home/a".to_owned()];
    assert_eq!(parse_command(&display_command(&command)), Ok(command));
}

#[test]
fn shown_commands_are_read_back() {
    let words = ["a b", "it's", "say \"hi\"", "C:\\x\\", "#", "$HOME `x`", "~/x", " ", "{}|;&<>*?[]!"];
    let command: Vec<String> = words.iter().map(|w| w.to_string()).collect();
    assert_eq!(
        display_command(&command[..4].to_vec()),
        r#""a b" "it's" "say \"hi\"" "C:\\x\\""#
    );
    assert_eq!(parse_command(&display_command(&command)), Ok(command));
    for code in 0x20u8..=0x7e {
        let command = vec![format!("x{}y", code as char), (code as char).to_string()];
        assert_eq!(parse_command(&display_command(&command)), Ok(command));
    }
    assert_eq!(parse_command(&display_command(&Vec::new())), Ok(Vec::new()));
}

#[test]
fn dashes_stand_for_what_lay_between() {
    for text in ["Rust & Web", "a_b", "--a--", "AbC", "a1 b2", ""] {
        let slug = unique_slug(text);
        assert_eq!(slug.replace('-', ""), normalize_app_identity(text));
        assert_eq!(unique_slug(&slug), slug);
    }
    assert_eq!(unique_slug("ab c_.d"), "ab-c-d");
}
