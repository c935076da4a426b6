use syncbook::filename::{keep_or_replace, output_dir, sanitize_filename};
use syncbook::path::{file_name, file_stem, join_path};
use syncbook::shell::shq;
use syncbook::text::{
    decimal, is_whitespace, lines, replace_char, split_whitespace, strip_line_end, strip_prefix,
    to_chars, trim,
};
use syncbook::uuid::looks_like_uuid;

#[test]
fn white_space_is_that_of_std() {
    for code in 0..0x11_0000u32 {
        if let Some(c) = char::from_u32(code) {
            assert_eq!(is_whitespace(c), c.is_whitespace(), "{code:x}");
        }
    }
}

#[test]
fn trim_strips_both_ends_only() {
    assert_eq!(trim("  a b\t\r\n"), "a b");
    assert_eq!(trim("\u{3000}x\u{a0}"), "x");
    assert_eq!(trim(" \n "), "");
    assert_eq!(trim(""), "");
}

#[test]
fn characters_come_in_order() {
    assert_eq!(to_chars("aé漢"), vec!['a', 'é', '漢']);
}

#[test]
fn lines_agree_with_std() {
    for text in ["", "\n", "a", "a\n", "a\nb", "a\r\nb\r\n", "a\r", "\r\n\r", "a\n\nb\n", "é\n漢\r\n"] {
        let expected: Vec<String> = text.lines().map(|l| l.to_string()).collect();
        assert_eq!(lines(text), expected, "{text:?}");
    }
    assert_eq!(lines("a\r\nb\r"), vec!["a", "b\r"]);
}

#[test]
fn words_agree_with_std() {
    for text in ["", "  ", "a", " a  b\tc\n", "é\u{2003}漢"] {
        let expected: Vec<String> = text.split_whitespace().map(|w| w.to_string()).collect();
        assert_eq!(split_whitespace(text), expected, "{text:?}");
    }
    assert_eq!(split_whitespace(" foo  bar "), vec!["foo", "bar"]);
}

#[test]
fn prefixes_are_stripped_once() {
    assert_eq!(strip_prefix("Host Host x", "Host "), Some("Host x"));
    assert_eq!(strip_prefix("Hos", "Host "), None);
    assert_eq!(strip_prefix("hOst x", "Host "), None);
    assert_eq!(strip_prefix("x", ""), Some("x"));
}

#[test]
fn every_occurrence_is_replaced() {
    assert_eq!(replace_char("a\"b\"", '"', "\\\""), "a\\\"b\\\"");
    assert_eq!(replace_char("abc", 'x', "y"), "abc");
    assert_eq!(replace_char("", 'x', "y"), "");
}

#[test]
fn line_ends_are_stripped() {
    assert_eq!(strip_line_end("10.11.99.1\r\n"), "10.11.99.1");
    assert_eq!(strip_line_end("a \n\n\r"), "a ");
    assert_eq!(strip_line_end("a\nb"), "a\nb");
    assert_eq!(strip_line_end("\n"), "");
}

#[test]
fn numbers_are_written_in_decimal() {
    for n in [0, 7, 9, 10, 42, 100, 1234567890, usize::MAX] {
        assert_eq!(decimal(n), n.to_string());
    }
}

#[test]
fn joined_paths_agree_with_std() {
    for base in ["", "/", "/home/you", "/home/you/", "out"] {
        for part in ["", "a", "a/b", "/etc", "../x"] {
            let expected = std::path::Path::new(base).join(part);
            assert_eq!(join_path(base, part), expected.to_str().unwrap(), "{base:?} {part:?}");
        }
    }
}

#[test]
fn joining_is_associative() {
    let left = join_path(&join_path("/home/you", "remarkable-backups"), "20260101T000000Z");
    let right = join_path("/home/you", &join_path("remarkable-backups", "20260101T000000Z"));
    assert_eq!(left, right);
    assert_eq!(left, "/home/you/remarkable-backups/20260101T000000Z");
}

#[test]
fn file_names_and_stems_agree_with_std() {
    for path in [
        "", "/", ".", "..", "/.", "/..", "a/..", "a/.", "a/", "a//", "./a", "a/./", ".hidden", "a.b.c",
        "/x/a.metadata", "a.", "..a", "...", "/x/.metadata", "x/y.d/", "/a/../b.txt", " a.b ",
    ] {
        let std_path = std::path::Path::new(path);
        let name = std_path.file_name().map(|n| n.to_str().unwrap().to_string());
        let stem = std_path.file_stem().map(|n| n.to_str().unwrap().to_string());
        assert_eq!(file_name(path), name, "{path:?}");
        assert_eq!(file_stem(path), stem, "{path:?}");
    }
    assert_eq!(file_stem("/x/ab-12.metadata"), Some("ab-12".to_string()));
}

#[test]
fn quoting_wraps_and_escapes() {
    assert_eq!(shq("plain"), "'plain'");
    assert_eq!(shq(""), "''");
    assert_eq!(shq("it's"), r"'it'\''s'");
    assert_eq!(shq("'"), r"''\'''");
    assert_eq!(shq("$(rm -rf /) \"`\\"), "'$(rm -rf /) \"`\\'");
}

#[test]
fn different_values_are_quoted_differently() {
    assert_ne!(shq("a'b"), shq(r"a'\''b"));
}

#[test]
fn uuids_are_recognised_by_their_shape() {
    assert!(looks_like_uuid("01234567-89ab-cdef-ABCD-EF0123456789"));
    assert!(!looks_like_uuid(""));
    assert!(!looks_like_uuid("My Notebook"));
    assert!(!looks_like_uuid("0123456-789ab-cdef-ABCD-EF0123456789"));
    assert!(!looks_like_uuid("01234567-89ab-cdef-ABCD-EF012345678"));
    assert!(!looks_like_uuid("01234567-89ab-cdef-ABCD-EF01234567890"));
    assert!(!looks_like_uuid("g1234567-89ab-cdef-ABCD-EF0123456789"));
    assert!(!looks_like_uuid("0123456789ab-cdef-ABCD-EF0123456789-"));
    assert!(!looks_like_uuid("é1234567-89ab-cdef-ABCD-EF0123456789"));
}

#[test]
fn names_become_safe_directory_names() {
    assert_eq!(sanitize_filename("My Notebook"), "My_Notebook");
    assert_eq!(sanitize_filename("a/b.c:d-e_f"), "a_b_c_d-e_f");
    assert_eq!(sanitize_filename("Été ½ 漢字"), "Été_½_漢字");
    assert_eq!(sanitize_filename("../.."), "_____");
    assert_eq!(sanitize_filename(""), "");
}

#[test]
fn output_directory_is_the_one_that_is_given() {
    assert_eq!(output_dir(Some("./a b"), "My Notebook"), "./a b");
    assert_eq!(output_dir(Some(""), "My Notebook"), "");
    assert_eq!(output_dir(None, "My Notebook"), "My_Notebook");
}

#[test]
fn ascii_names_keep_letters_digits_and_two_marks() {
    for code in 0..0x80u8 {
        let c = code as char;
        let kept = c.is_ascii_alphanumeric() || c == '-' || c == '_';
        let expected = if kept { c } else { '_' };
        assert_eq!(sanitize_filename(&c.to_string()), expected.to_string());
    }
}

#[test]
fn no_white_space_or_control_character_is_left() {
    assert_eq!(sanitize_filename("a\u{a0}b\u{85}c\u{2028}d\u{3000}e\u{9f}"), "a_b_c_d_e_");
    for code in 0..0x11_0000u32 {
        if let Some(c) = char::from_u32(code) {
            if c.is_whitespace() || c.is_control() {
                assert_eq!(sanitize_filename(&c.to_string()), "_", "{code:x}");
            }
        }
    }
}

#[test]
fn safe_names_stay_as_they_are() {
    let once = sanitize_filename("Notes (2024) / é");
    assert_eq!(sanitize_filename(&once), once);
    assert_eq!(once.chars().count(), "Notes (2024) / é".chars().count());
}

#[test]
fn one_character_is_kept_or_replaced() {
    assert_eq!(keep_or_replace('x', true), 'x');
    assert_eq!(keep_or_replace('x', false), '_');
    assert_eq!(keep_or_replace('-', false), '-');
    assert_eq!(keep_or_replace('_', false), '_');
}
