use anyframe_rs::text::{
    chars_of, escape, is_whitespace, join_lines, nth_field, split_lines, starts_with, string_from,
    terminate_lines, trim, Class,
};

fn rows(lines: &[&str]) -> Vec<Vec<char>> {
    lines.iter().map(|l| l.chars().collect()).collect()
}

#[test]
fn whitespace_is_what_std_calls_whitespace() {
    let mut n: u32 = 0;
    while n <= 0x10FFFF {
        if let Some(c) = char::from_u32(n) {
            assert_eq!(is_whitespace(c), c.is_whitespace(), "U+{:04X}", n);
        }
        n += 1;
    }
}

#[test]
fn classes_split_characters() {
    assert!(Class::Space.contains(' '));
    assert!(Class::Space.contains('\t'));
    assert!(!Class::Space.contains('x'));
    assert!(Class::Word.contains('x'));
    assert!(!Class::Word.contains('\u{3000}'));
    assert!(Class::LineBody.contains(' '));
    assert!(!Class::LineBody.contains('\n'));
}

#[test]
fn chars_round_trip() {
    let v = chars_of("héllo wörld");
    assert_eq!(v.len(), 11);
    assert_eq!(v[1], 'é');
    assert_eq!(string_from(&v), "héllo wörld");
    assert_eq!(string_from(&chars_of("")), "");
}

#[test]
fn trim_agrees_with_std() {
    let samples = [
        "",
        " ",
        "a",
        "  a  ",
        "\t a b \n",
        "\u{3000}x\u{2003}",
        "no-space",
        " \n\t ",
        "  two words",
        "é ",
    ];
    for s in samples {
        assert_eq!(trim(s), s.trim(), "{:?}", s);
    }
    assert_eq!(trim("  main branch \n"), "main branch");
}

#[test]
fn fields_agree_with_split_whitespace() {
    let samples = ["", "   ", "one", " one two ", "a\tb\nc", "M  path/to/file", "x  y   z "];
    for s in samples {
        for n in 0..5 {
            let expected = s.split_whitespace().nth(n).unwrap_or("");
            assert_eq!(nth_field(s, n), expected, "{:?} field {}", s, n);
        }
    }
    assert_eq!(nth_field("1234 S 0.0 zsh", 0), "1234");
    assert_eq!(nth_field("1234 S 0.0 zsh", 3), "zsh");
    assert_eq!(nth_field("1234 S 0.0 zsh", 4), "");
}

#[test]
fn escape_guards_quotes_dollars_and_backslashes() {
    assert_eq!(escape("echo \"$HOME\""), "echo \\\"\\$HOME\\\"");
    assert_eq!(escape("a\\b"), "a\\\\b");
    assert_eq!(escape("plain"), "plain");
    assert_eq!(escape(""), "");
    let s = "x\\\"$y";
    let by_replace = s.replace('\\', "\\\\").replace('"', "\\\"").replace('$', "\\$");
    assert_eq!(escape(s), by_replace);
}

#[test]
fn lines_agree_with_std() {
    let samples = [
        "",
        "\n",
        "a",
        "a\n",
        "a\nb",
        "a\r\nb\r\n",
        "a\r",
        "\r\n\r\n",
        "a\n\nb\n",
        "x\r\r\ny",
    ];
    for s in samples {
        let expected: Vec<Vec<char>> = s.lines().map(|l| l.chars().collect()).collect();
        assert_eq!(split_lines(&chars_of(s), true), expected, "{:?}", s);
    }
}

#[test]
fn records_keep_carriage_returns() {
    assert_eq!(split_lines(&chars_of("a\r\nb\n"), false), rows(&["a\r", "b"]));
    assert_eq!(split_lines(&chars_of("a\n\nb"), false), rows(&["a", "", "b"]));
    assert_eq!(split_lines(&chars_of(""), false), rows(&[]));
}

#[test]
fn join_and_terminate() {
    assert_eq!(string_from(&join_lines(&rows(&["a", "b", "c"]))), "a\nb\nc");
    assert_eq!(string_from(&join_lines(&rows(&["a"]))), "a");
    assert_eq!(string_from(&join_lines(&rows(&[]))), "");
    assert_eq!(string_from(&join_lines(&rows(&["", ""]))), "\n");
    assert_eq!(string_from(&terminate_lines(&rows(&["a", "b"]))), "a\nb\n");
    assert_eq!(string_from(&terminate_lines(&rows(&[]))), "");
}

#[test]
fn prefixes() {
    assert!(starts_with(&chars_of("M \t../x"), &chars_of("M ")));
    assert!(starts_with(&chars_of("abc"), &chars_of("")));
    assert!(starts_with(&chars_of("abc"), &chars_of("abc")));
    assert!(!starts_with(&chars_of("abc"), &chars_of("abcd")));
    assert!(!starts_with(&chars_of("abc"), &chars_of("b")));
}
