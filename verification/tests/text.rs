use codex_tui::text::{
    byte_count, chars_of, integer_text, join, parse_u32, same_text, tail_within_bytes, trim,
    trim_final_breaks, truncate_to_bytes,
};

#[test]
fn trimming_takes_exactly_the_white_space_of_the_language() {
    for c in '\u{0}'..=char::MAX {
        let text = format!("{c}a{c}");
        assert_eq!(trim(&text), text.trim(), "{:x}", c as u32);
    }
    assert_eq!(trim(" \t\n"), "");
    assert_eq!(trim("a b"), "a b");
}

#[test]
fn only_line_breaks_at_the_end_go() {
    for text in ["", "\n", "\r\n\r", "a\n\r\n", "\na", "a \n", "a\u{85}"] {
        assert_eq!(trim_final_breaks(text), text.trim_end_matches(['\r', '\n']));
    }
}

#[test]
fn texts_are_cut_between_characters() {
    let text = "aé…🧠";
    assert_eq!(byte_count(text), 10);
    let heads = ["", "a", "a", "aé", "aé", "aé", "aé…", "aé…", "aé…", "aé…", text, text];
    let tails = ["", "", "", "", "🧠", "🧠", "🧠", "…🧠", "…🧠", "é…🧠", text, text];
    for max in 0..12 {
        assert_eq!(truncate_to_bytes(text, max), heads[max]);
        assert_eq!(tail_within_bytes(text, max), tails[max]);
    }
}

#[test]
fn texts_are_joined_with_separators_between() {
    let parts = |texts: &[&str]| texts.iter().map(|text| text.to_string()).collect::<Vec<_>>();
    assert_eq!(join(&parts(&[]), ", "), "");
    assert_eq!(join(&parts(&["a"]), ", "), "a");
    assert_eq!(join(&parts(&["a", "", "b"]), ", "), "a, , b");
}

#[test]
fn numbers_are_written_in_decimal() {
    for n in [0, 1, 9, 10, 42, 1234567890, -1, -10, i32::MAX, i32::MIN] {
        assert_eq!(integer_text(n), n.to_string());
    }
}

#[test]
fn numbers_are_read_like_the_language_does() {
    for text in [
        "0", "7", "+7", "007", "4294967295", "4294967296", "99999999999999999999", "", "+", "-",
        "-0", "++1", "1_000", " 1", "1a", "١",
    ] {
        assert_eq!(parse_u32(text), text.parse::<u32>().ok(), "{text:?}");
    }
}

#[test]
fn texts_are_compared_character_by_character() {
    assert!(same_text("", ""));
    assert!(same_text("é", "é"));
    assert!(!same_text("é", "e\u{301}"));
    assert!(!same_text("a", "ab"));
    assert_eq!(chars_of("aé"), vec!['a', 'é']);
}
