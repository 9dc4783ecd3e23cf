use diktovani::text::{
    chars_of, copy_last_transcript_menu_text, is_blank, on_one_line, parse_number, preview_text,
    status_menu_text, string_of, trimmed, write_decimal,
};

#[test]
fn preview_of_nothing() {
    assert_eq!(preview_text(" \n"), "Transcript was empty.");
}

#[test]
fn preview_of_a_short_text() {
    assert_eq!(preview_text("  Dobrý den. "), "Last transcript: Dobrý den.");
}

#[test]
fn preview_stops_after_sixty_characters() {
    let exactly = "ř".repeat(60);
    assert_eq!(preview_text(&exactly), format!("Last transcript: {exactly}"));
    let more = "ř".repeat(61);
    assert_eq!(preview_text(&more), format!("Last transcript: {exactly}..."));
}

#[test]
fn status_stands_on_one_line() {
    assert_eq!(status_menu_text("  a\n b\t\tc "), "Status: a b c");
    assert_eq!(status_menu_text(""), "Status: ");
}

#[test]
fn status_stops_after_eighty_characters() {
    let long = "x".repeat(81);
    let shown = status_menu_text(&long);
    assert_eq!(shown, format!("Status: {}...", "x".repeat(80)));
    assert_eq!(shown.chars().count(), 91);
}

#[test]
fn copy_item_shows_the_transcript() {
    assert_eq!(copy_last_transcript_menu_text(" \n "), "Zkopírovat poslední přepis: —");
    assert_eq!(
        copy_last_transcript_menu_text("a\u{2003}b\nc"),
        "Zkopírovat poslední přepis: a b c"
    );
}

#[test]
fn one_line_keeps_only_spaces() {
    let line = on_one_line("\n a \r\n\u{85}b\u{3000}\u{2028}c");
    let text: String = line.iter().collect();
    assert_eq!(text, "a b c");
}

#[test]
fn white_characters_match_the_standard_library() {
    for code in 0..0x11_0000u32 {
        if let Some(c) = char::from_u32(code) {
            let text = c.to_string();
            assert_eq!(is_blank(&text), text.trim().is_empty());
        }
    }
}

#[test]
fn trimming_takes_both_ends() {
    let chars = chars_of("\t ž x \n");
    assert_eq!(string_of(trimmed(&chars)), "ž x");
}

#[test]
fn decimals_are_written() {
    assert_eq!(write_decimal(0), "0");
    assert_eq!(write_decimal(1_048_576), "1048576");
    assert_eq!(write_decimal(u128::MAX), u128::MAX.to_string());
}

#[test]
fn numbers_are_read() {
    for text in ["0", "007", "+5", "18446744073709551615", "1624555275"] {
        assert_eq!(parse_number(text), text.parse::<u64>().ok());
        assert!(parse_number(text).is_some());
    }
    for text in ["", "+", "-1", " 1", "1 ", "1x", "18446744073709551616", "++1"] {
        assert_eq!(parse_number(text), None);
        assert_eq!(text.parse::<u64>().ok(), None);
    }
}

#[test]
fn written_numbers_are_read_back() {
    for n in [0u64, 9, 10, 12345, u64::MAX] {
        assert_eq!(parse_number(&write_decimal(n as u128)), Some(n));
    }
}
