use reniced::logger::{choose_level, init_logger, level_from_name, select_outputs, LevelChoice, Outputs};
use reniced::notice::{Level, Notice};
use reniced::text::{
    decimal, field, find, find_line_with, is_in_class, is_whitespace, matches_at, parse_u32,
    same_chars, same_text, starts_with, to_chars, trim_start, CharClass,
};

fn chars(s: &str) -> Vec<char> {
    s.chars().collect()
}

#[test]
fn white_space_is_what_the_standard_library_says() {
    for code in 0..=0x10FFFFu32 {
        if let Some(c) = char::from_u32(code) {
            assert_eq!(is_whitespace(c), c.is_whitespace(), "U+{:04X}", code);
        }
    }
}

#[test]
fn classes_of_characters() {
    assert!(is_in_class(' ', CharClass::Space));
    assert!(!is_in_class('a', CharClass::Space));
    assert!(is_in_class('a', CharClass::Word));
    assert!(!is_in_class('\t', CharClass::Word));
    assert!(is_in_class(' ', CharClass::Line));
    assert!(is_in_class('\r', CharClass::Line));
    assert!(!is_in_class('\n', CharClass::Line));
}

#[test]
fn the_characters_of_a_text() {
    assert_eq!(to_chars(""), Vec::<char>::new());
    assert_eq!(to_chars("aß€😀"), vec!['a', 'ß', '€', '😀']);
}

#[test]
fn searching_finds_the_leftmost_occurrence() {
    for (text, pattern) in [
        ("", ""),
        ("abc", ""),
        ("", "a"),
        ("abcabc", "bc"),
        ("abcabc", "c"),
        ("abcabc", "abcabc"),
        ("abcabc", "abcabcd"),
        ("aaaa", "aa"),
        ("aaab", "aab"),
        ("äöü äöü", "öü"),
        ("/usr/bin/test_process --arg", "test_process "),
    ] {
        let found = find(&chars(text), &chars(pattern));
        let expected = text.find(pattern).map(|at| text[..at].chars().count());
        assert_eq!(found, expected, "{:?} in {:?}", pattern, text);
    }
    assert_eq!(find(&chars("abcabc"), &chars("bc")), Some(1));
    assert_eq!(find(&chars("abc"), &chars("")), Some(0));
    assert_eq!(find(&chars("abc"), &chars("x")), None);
}

#[test]
fn prefixes_and_equality() {
    assert!(starts_with(&chars("abc"), &chars("")));
    assert!(starts_with(&chars("abc"), &chars("ab")));
    assert!(starts_with(&chars("abc"), &chars("abc")));
    assert!(!starts_with(&chars("abc"), &chars("abcd")));
    assert!(!starts_with(&chars("abc"), &chars("b")));
    assert!(matches_at(&chars("abc"), &chars("bc"), 1));
    assert!(!matches_at(&chars("abc"), &chars("b"), 0));
    assert!(!matches_at(&chars("abc"), &chars("bc"), 2));
    assert!(matches_at(&chars("abc"), &chars(""), 3));
    assert!(!matches_at(&chars("abc"), &chars(""), 4));
    assert!(!matches_at(&chars("abc"), &chars("c"), usize::MAX));
    assert!(same_chars(&chars("abc"), &chars("abc")));
    assert!(!same_chars(&chars("abc"), &chars("ab")));
    assert!(!same_chars(&chars("abc"), &chars("abd")));
    assert!(same_text("", ""));
    assert!(same_text("simple", "simple"));
    assert!(!same_text("simple", "Simple"));
    assert!(!same_text("simple", "simple "));
}

#[test]
fn leading_white_space_is_trimmed() {
    for s in ["", " ", "a", "  a b ", "\t\n\r a", "\u{a0}\u{3000}x", "x  ", "\u{200b}x", "\u{85}\u{2028}ü "] {
        assert_eq!(trim_start(s), s.trim_start(), "{:?}", s);
    }
}

#[test]
fn numbers_are_written_in_decimal() {
    for n in [0i64, 1, 9, 10, 11, 99, 100, 12345, -1, -10, -20, 19, 2147483647, -2147483648, i64::MAX, i64::MIN] {
        assert_eq!(decimal(n), n.to_string());
    }
    assert_eq!(decimal(-20), "-20");
    assert_eq!(decimal(4194304), "4194304");
}

#[test]
fn numbers_are_read_in_decimal() {
    for s in [
        "0", "7", "+7", "+", "", "-7", "007", "4294967295", "4294967296", "12 ", " 12", "١", "1_0",
        "++1", "+0", "00000000000000000000000000042", "99999999999999999999",
    ] {
        assert_eq!(parse_u32(s), s.parse::<u32>().ok(), "{:?}", s);
    }
    assert_eq!(parse_u32("1001"), Some(1001));
}

#[test]
fn lines_and_fields() {
    let text = chars("Name: x\nUid:\t1 2\nUid: 3\n");
    let prefix = chars("Uid:");
    assert_eq!(find_line_with(&text, &prefix), Some((8, 16)));
    assert_eq!(find_line_with(&text, &chars("Gid:")), None);
    assert_eq!(find_line_with(&text, &chars("")), Some((0, 7)));
    assert_eq!(find_line_with(&chars(""), &chars("")), Some((0, 0)));
    assert_eq!(find_line_with(&chars("a\n"), &chars("b")), None);
    assert_eq!(find_line_with(&chars("xUid:\nUid:"), &prefix), Some((6, 10)));
    assert_eq!(field("Uid:\t1 2", 0), Some(String::from("Uid:")));
    assert_eq!(field("Uid:\t1 2", 2), Some(String::from("2")));
    assert_eq!(field("Uid:\t1 2", 3), None);
    for line in ["", "  ", "a", " a  bb\tccc ", "\u{3000}x\u{a0}y", "a\nb\r\nc"] {
        let fields: Vec<&str> = line.split_whitespace().collect();
        for k in 0..4 {
            assert_eq!(field(line, k).as_deref(), fields.get(k).copied(), "field {} of {:?}", k, line);
        }
    }
}

#[test]
fn levels_by_name() {
    assert_eq!(level_from_name("trace"), Some(Level::Trace));
    assert_eq!(level_from_name("debug"), Some(Level::Debug));
    assert_eq!(level_from_name("info"), Some(Level::Info));
    assert_eq!(level_from_name("warn"), Some(Level::Warn));
    assert_eq!(level_from_name("error"), Some(Level::Error));
    assert_eq!(level_from_name("INFO"), None);
    assert_eq!(level_from_name(""), None);
    assert_eq!(choose_level("warn"), LevelChoice { level: Level::Warn, recognized: true });
    assert_eq!(choose_level("loud"), LevelChoice { level: Level::Info, recognized: false });
}

#[test]
fn the_logger_is_set_up_from_what_is_asked_and_what_is_there() {
    assert_eq!(select_outputs(true, true), Outputs { journald: true, stdout: true });
    assert_eq!(select_outputs(true, false), Outputs { journald: true, stdout: false });
    assert_eq!(select_outputs(false, true), Outputs { journald: false, stdout: true });
    assert_eq!(select_outputs(false, false), Outputs { journald: false, stdout: true });
    let setup = init_logger(None, true, false);
    assert_eq!(setup.choice, LevelChoice { level: Level::Info, recognized: true });
    assert_eq!(setup.outputs, Outputs { journald: true, stdout: false });
    // the name is taken in any case of letters
    assert_eq!(init_logger(Some("DEBUG"), false, true).choice, LevelChoice { level: Level::Debug, recognized: true });
    assert_eq!(init_logger(Some("Error"), false, true).choice, LevelChoice { level: Level::Error, recognized: true });
    assert_eq!(init_logger(Some("trace"), false, true).choice, LevelChoice { level: Level::Trace, recognized: true });
    assert_eq!(init_logger(Some("verbose"), false, true).choice, LevelChoice { level: Level::Info, recognized: false });
}

#[test]
fn every_notice_has_its_level_and_its_words() {
    let cases = vec![
        (Notice::ScanFailed { reason: String::from("why") }, Level::Error, "Error fetching processes: why"),
        (Notice::CommandUnavailable { pid: 1 }, Level::Warn, "Failed to get command string for PID 1"),
        (Notice::OwnerUnavailable { pid: 2 }, Level::Warn, "Failed to get owner for PID 2"),
        (
            Notice::Matched { pid: 3, command: String::from("c"), owner: String::from("o") },
            Level::Debug,
            "Process 3 with command 'c' and owner 'o' matches config",
        ),
        (
            Notice::Unmatched { pid: 3, command: String::from("c"), owner: String::from("o") },
            Level::Debug,
            "Process 3 with command 'c' and owner 'o' matches no config",
        ),
        (
            Notice::NiceMismatch { name: String::from("n"), pid: 4, current: -1, expected: 2 },
            Level::Info,
            "Process 'n' (PID: 4) has a nice value of -1 but expected 2. Adjusting...",
        ),
        (
            Notice::NiceMatch { name: String::from("n"), pid: 5, nice: 0 },
            Level::Debug,
            "Process 'n' (PID: 5) already has the correct nice value of 0",
        ),
        (Notice::Adjusted { pid: 6, from: 0, to: 19 }, Level::Info, "Successfully adjusted nice value for PID 6 from 0 to 19"),
        (Notice::AdjustFailed { pid: 7, reason: String::from("r") }, Level::Error, "Failed to adjust nice value for PID 7: r"),
        (Notice::CheckFailed { pid: 8, reason: String::from("r") }, Level::Warn, "Failed to check and adjust nice value for PID 8: r"),
    ];
    for (notice, level, words) in cases {
        assert_eq!(notice.level(), level);
        assert_eq!(notice.message(), words);
    }
}
