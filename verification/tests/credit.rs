use diktovani::credit::{last_sentence, strip_if_credit, strip_trailing_subtitle_credit};

#[test]
fn strips_credit_with_trailing_period() {
    assert_eq!(
        strip_trailing_subtitle_credit("Ahoj. Titulky vytvořil JohnyX."),
        "Ahoj."
    );
}

#[test]
fn strips_credit_without_trailing_period() {
    assert_eq!(
        strip_trailing_subtitle_credit("Ahoj. Titulky vytvořil JohnyX"),
        "Ahoj."
    );
}

#[test]
fn strips_credit_when_it_is_only_sentence() {
    assert_eq!(
        strip_trailing_subtitle_credit("Titulky vytvořil JohnyX."),
        ""
    );
}

#[test]
fn leaves_other_last_sentence_untouched() {
    assert_eq!(
        strip_trailing_subtitle_credit("Ahoj. To je vsechno."),
        "Ahoj. To je vsechno."
    );
}

#[test]
fn strips_credit_case_insensitively() {
    assert_eq!(
        strip_trailing_subtitle_credit("Ahoj.\nTITULKY VYTVOŘIL JohnyX"),
        "Ahoj."
    );
}

#[test]
fn empty_and_blank_texts_stay_empty() {
    assert_eq!(strip_trailing_subtitle_credit(""), "");
    assert_eq!(strip_trailing_subtitle_credit(" \n\t\u{a0} "), "");
}

#[test]
fn surrounding_white_characters_go_away() {
    assert_eq!(strip_trailing_subtitle_credit("  Dobrý den!  "), "Dobrý den!");
}

#[test]
fn credit_in_an_earlier_sentence_stays() {
    let text = "Titulky vytvořil JohnyX. A dál.";
    assert_eq!(strip_trailing_subtitle_credit(text), text);
}

#[test]
fn credit_may_stand_inside_the_last_sentence() {
    assert_eq!(
        strip_trailing_subtitle_credit("Konec! Tyto titulky vytvořil někdo ?! "),
        "Konec!"
    );
}

#[test]
fn credit_without_a_name_is_no_credit() {
    assert_eq!(
        strip_trailing_subtitle_credit("Ahoj. Titulky vytvořil"),
        "Ahoj. Titulky vytvořil"
    );
}

#[test]
fn stripped_text_is_how_the_text_started() {
    let text = "Jedna. Dvě? Titulky vytvořil X...";
    assert!(text.starts_with(&strip_trailing_subtitle_credit(text)));
}

#[test]
fn last_sentence_is_found() {
    assert_eq!(last_sentence("Ahoj. To je vše."), "To je vše");
    assert_eq!(last_sentence("Jen jedna"), "Jen jedna");
    assert_eq!(last_sentence("...").len(), 0);
}

#[test]
fn a_given_lower_case_text_decides() {
    assert_eq!(strip_if_credit("Ahoj. Kdo?", "titulky vytvořil kdo"), "Ahoj.");
    assert_eq!(strip_if_credit("Ahoj. Kdo?", "kdo"), "Ahoj. Kdo?");
}
