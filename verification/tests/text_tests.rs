use fh_kiel_ical_splitter::text::{
    chars_of, contains_chars, eq_ignore_ascii_case, matches_at, replace_chars, str_contains,
    str_position, string_of, Position,
};

fn replaced(s: &str, from: &str, to: &str) -> String {
    let out = replace_chars(&chars_of(s), &chars_of(from), &chars_of(to));
    string_of(&out)
}

#[test]
fn chars_round_trip() {
    let chars = chars_of("Pläne 1");
    assert_eq!(chars, vec!['P', 'l', 'ä', 'n', 'e', ' ', '1']);
    assert_eq!(string_of(&chars), "Pläne 1");
    assert_eq!(string_of(&chars_of("")), "");
}

#[test]
fn replace_removes_every_occurrence() {
    assert_eq!(replaced("a- b- c", "- ", ""), "abc");
    assert_eq!(replaced("- - ", "- ", ""), "");
    assert_eq!(replaced("a-b", "- ", ""), "a-b");
    assert_eq!(replaced("", "- ", ""), "");
}

#[test]
fn replace_scans_left_to_right_without_overlap() {
    assert_eq!(replaced("aaa", "aa", "b"), "ba");
    assert_eq!(replaced("aaaa", "aa", "b"), "bb");
    assert_eq!(replaced("a   b", "  ", " "), "a  b");
    assert_eq!(replaced("a    b", "  ", " "), "a  b");
    assert_eq!(replaced("abc", "abcd", "x"), "abc");
}

#[test]
fn replace_agrees_with_std() {
    let samples = ["", "x", "- ", "a - b  c", "  -   - ", "Mathe -  Lab - ", "----    "];
    for s in samples {
        assert_eq!(replaced(s, "- ", ""), s.replace("- ", ""));
        assert_eq!(replaced(s, "  ", " "), s.replace("  ", " "));
        assert_eq!(replaced(s, "-", "--"), s.replace("-", "--"));
    }
}

#[test]
fn matches_at_checks_one_position() {
    let s = chars_of("abcabc");
    let needle = chars_of("bc");
    assert!(!matches_at(&s, 0, &needle));
    assert!(matches_at(&s, 1, &needle));
    assert!(matches_at(&s, 4, &needle));
    assert!(!matches_at(&s, 5, &needle));
    assert!(!matches_at(&s, 6, &needle));
    assert!(!matches_at(&s, 7, &needle));
    assert!(matches_at(&s, 6, &[]));
    assert!(!matches_at(&s, 7, &[]));
}

#[test]
fn contains_finds_a_substring_anywhere() {
    assert!(str_contains("/files/iue/dozenten/x.ics", "/dozenten/"));
    assert!(str_contains("/dozenten/", "/dozenten/"));
    assert!(!str_contains("/files/iue/dozenten.ics", "/dozenten/"));
    assert!(!str_contains("", "/dozenten/"));
    assert!(str_contains("", ""));
    assert!(str_contains("abc", ""));
    assert!(contains_chars(&chars_of("abc"), &chars_of("c")));
    assert!(!contains_chars(&chars_of("abc"), &chars_of("cd")));
}

#[test]
fn ascii_case_is_ignored_and_nothing_else() {
    assert!(eq_ignore_ascii_case("Karfreitag", "kARFREITAG"));
    assert!(eq_ignore_ascii_case("", ""));
    assert!(!eq_ignore_ascii_case("Karfreitag", "Karfreitag "));
    assert!(!eq_ignore_ascii_case("a", "b"));
    assert!(eq_ignore_ascii_case("Möglichkeiten", "MöGLICHKEITEN"));
    assert!(!eq_ignore_ascii_case("Möglichkeiten", "MÖGLICHKEITEN"));
    assert!(!eq_ignore_ascii_case("@", "`"));
    assert!(!eq_ignore_ascii_case("[", "{"));
    assert!(eq_ignore_ascii_case("Zz", "zZ"));
}

#[test]
fn ascii_case_agrees_with_std() {
    let samples = ["", "a", "A", "Feiertag", "FEIERTAG", "feiertag ", "Ä", "ä", "@", "`", "z", "Z"];
    for a in samples {
        for b in samples {
            assert_eq!(eq_ignore_ascii_case(a, b), a.eq_ignore_ascii_case(b));
        }
    }
}

#[test]
fn position_is_the_order_of_strings() {
    assert_eq!(str_position("a", "b"), Position::Before);
    assert_eq!(str_position("b", "a"), Position::After);
    assert_eq!(str_position("abc", "abc"), Position::Same);
    assert_eq!(str_position("", ""), Position::Same);
    assert_eq!(str_position("", "a"), Position::Before);
    assert_eq!(str_position("ab", "abc"), Position::Before);
    assert_eq!(str_position("abc", "ab"), Position::After);
    assert_eq!(str_position("Z", "a"), Position::Before);
    assert_eq!(str_position("z", "ä"), Position::Before);
}

#[test]
fn position_agrees_with_std() {
    let samples = ["", "a", "ab", "abc", "b", "B", "Mathe", "Mathe 1", "Ä", "ä", "z", "😀", "\u{ffff}"];
    for a in samples {
        for b in samples {
            let expected = if a < b {
                Position::Before
            } else if a == b {
                Position::Same
            } else {
                Position::After
            };
            assert_eq!(str_position(a, b), expected);
        }
    }
}
