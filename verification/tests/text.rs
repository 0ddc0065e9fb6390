use moonstone::command::CommandStatus;
use moonstone::cli::{is_blocked_exit_code, time_left, time_left_form, TimeLeft, TimeLeftForm};
use moonstone::error::{MdmError, StoreError};
use moonstone::scan::{field_after, parse_i32, strip_prefix, trim_matches};
use moonstone::text::{
    bytes_eq, chars_eq, chars_of, contains_str, ends_with, ends_with_dot_suffix, find_in,
    is_whitespace, join_with_colon, lines_of_chars, split_chars, starts_with, str_eq, str_le,
    string_of, trim,
};

fn cs(s: &str) -> Vec<char> {
    s.chars().collect()
}

#[test]
fn equality_and_order_of_strings() {
    assert!(str_eq("", ""));
    assert!(str_eq("héllo", "héllo"));
    assert!(!str_eq("hello", "hellp"));
    assert!(!str_eq("hello", "hell"));
    assert!(str_le("", "a"));
    assert!(str_le("a", "a"));
    assert!(str_le("04:00", "17:00"));
    assert!(!str_le("22:00", "06:00"));
    assert!(str_le("09:59", "10:00"));
    assert!(str_le("ab", "abc"));
    assert!(!str_le("abc", "ab"));
    assert!(!str_le("b", "abc"));
    for (a, b) in [("a", "b"), ("zz", "za"), ("", ""), ("é", "e"), ("10:00", "9:00")] {
        assert_eq!(str_le(a, b), a <= b);
    }
    assert!(bytes_eq(&[1, 2], &[1, 2]) && !bytes_eq(&[1, 2], &[1, 3]) && !bytes_eq(&[], &[0]));
    assert!(chars_eq(&cs("ab"), &cs("ab")) && !chars_eq(&cs("ab"), &cs("ba")));
}

#[test]
fn prefixes_and_suffixes() {
    assert!(starts_with("com.apple.mgmt.X", "com.apple.mgmt."));
    assert!(!starts_with("com.apple", "com.apple.mgmt."));
    assert!(starts_with("anything", ""));
    assert!(ends_with("api.github.com", "github.com"));
    assert!(!ends_with("github.com", "api.github.com"));
    assert!(ends_with_dot_suffix("api.github.com", "github.com"));
    assert!(!ends_with_dot_suffix("github.com", "github.com"));
    assert!(!ends_with_dot_suffix("notgithub.com", "github.com"));
    assert!(contains_str(&vec!["a".to_string(), "b".to_string()], "b"));
    assert!(!contains_str(&vec!["a".to_string()], "A"));
    assert_eq!(join_with_colon("E", "U"), "E:U");
    assert_eq!(join_with_colon("", ""), ":");
}

#[test]
fn trimming_splitting_finding() {
    assert_eq!(trim("  a b \t\r\n"), "a b");
    assert_eq!(trim("\u{a0}x\u{2003}"), "x");
    assert_eq!(trim("   "), "");
    assert_eq!(string_of(&chars_of("héllo")), "héllo");
    assert_eq!(chars_of("héllo").len(), 5);
    assert_eq!(split_chars(&cs("a,b,,c"), ','), vec![cs("a"), cs("b"), cs(""), cs("c")]);
    assert_eq!(split_chars(&cs(""), ','), vec![cs("")]);
    assert_eq!(split_chars(&cs(","), ','), vec![cs(""), cs("")]);
    assert_eq!(find_in(&cs("abcabc"), &cs("bc"), 0), Some(1));
    assert_eq!(find_in(&cs("abcabc"), &cs("bc"), 2), Some(4));
    assert_eq!(find_in(&cs("abcabc"), &cs("bc"), 5), None);
    assert_eq!(find_in(&cs("abc"), &cs(""), 3), Some(3));
    assert_eq!(find_in(&cs("abc"), &cs("abcd"), 0), None);
    assert_eq!(find_in(&cs("abc"), &cs("c"), 9), None);
}

#[test]
fn lines_of_a_text() {
    for text in [
        "", "\n", "a", "a\n", "a\nb", "a\r\nb\r\n", "a\n\nb\n", "foo\nbar\n\r\nbaz\r", "\r", "\r\n", "a\r\r\n",
        "\n\n", " x \r\n y ",
    ] {
        let expected: Vec<Vec<char>> = text.lines().map(cs).collect();
        assert_eq!(lines_of_chars(&cs(text)), expected, "{:?}", text);
    }
}

#[test]
fn whitespace_is_the_unicode_property() {
    let mut count = 0;
    for code in 0u32..=0x10FFFF {
        if let Some(c) = char::from_u32(code) {
            assert_eq!(is_whitespace(c), c.is_whitespace(), "U+{:04X}", code);
            if is_whitespace(c) {
                count += 1;
            }
        }
    }
    assert_eq!(count, 25);
    assert_eq!(trim(" a"), "a");
    assert_eq!(trim("\u{3000}a\u{85}b\u{2028}"), "a\u{85}b");
}

#[test]
fn fields_and_numbers() {
    assert_eq!(strip_prefix(&cs("\"pid\"=12"), &cs("\"pid\"=")), Some(cs("12")));
    assert_eq!(strip_prefix(&cs("pid"), &cs("\"pid\"=")), None);
    assert_eq!(trim_matches(&cs("\"\"Finder\"\""), '"'), cs("Finder"));
    assert_eq!(trim_matches(&cs("\"\""), '"'), cs(""));
    assert_eq!(trim_matches(&cs("a\"b"), '"'), cs("a\"b"));
    assert_eq!(field_after(&cs("k=v=w"), '='), Some(cs("v")));
    assert_eq!(field_after(&cs("k="), '='), Some(cs("")));
    assert_eq!(field_after(&cs("k"), '='), None);
    for text in ["0", "-0", "+7", "007", "2147483647", "-2147483648", "2147483648", "", "-", "+", "1a", " 1", "1 ", "--1", "99999999999"] {
        assert_eq!(parse_i32(&cs(text)), text.parse::<i32>().ok(), "{:?}", text);
    }
}

#[test]
fn status_by_error() {
    assert_eq!(MdmError::Parse.http_status(), 400);
    assert_eq!(MdmError::UnresolvedIdentity.http_status(), 400);
    assert_eq!(MdmError::Unauthorized.http_status(), 401);
    assert_eq!(MdmError::Storage(StoreError::Unavailable).http_status(), 500);
    assert_eq!(MdmError::from_store(StoreError::Constraint), MdmError::Storage(StoreError::Constraint));
    assert_eq!(MdmError::from_store(StoreError::Constraint).http_status(), 500);
}

#[test]
fn command_status_names() {
    assert_eq!(CommandStatus::Acknowledged.to_string(), "Acknowledged");
    assert_eq!(CommandStatus::Error.to_string(), "Error");
    assert_eq!(CommandStatus::CommandFormatError.to_string(), "CommandFormatError");
    assert_eq!(CommandStatus::NotNow.to_string(), "NotNow");
    assert_eq!(CommandStatus::Idle.to_string(), "Idle");
}

#[test]
fn time_left_for_the_command_line() {
    assert_eq!(time_left(3 * 3600 + 25 * 60 + 7), TimeLeft { hours: 3, minutes: 25, seconds: 7 });
    assert_eq!(time_left(59), TimeLeft { hours: 0, minutes: 0, seconds: 59 });
    assert_eq!(time_left(0), TimeLeft { hours: 0, minutes: 0, seconds: 0 });
    assert_eq!(time_left_form(time_left(3600)), TimeLeftForm::Hours);
    assert_eq!(time_left_form(time_left(3599)), TimeLeftForm::Minutes);
    assert_eq!(time_left_form(time_left(59)), TimeLeftForm::Seconds);
    assert_eq!(is_blocked_exit_code(true), 0);
    assert_eq!(is_blocked_exit_code(false), 1);
}
