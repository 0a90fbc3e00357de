use uncad_model::text::{
    decode_caret, decode_escapes, decode_escapes_with, escape_queries,
};

fn none(_: u16, _: [u8; 2]) -> Option<char> {
    None
}

#[test]
fn a_unicode_escape_is_the_character_it_stores() {
    assert_eq!(decode_escapes(r"108\U+00B0", none), "108\u{b0}");
    assert_eq!(decode_escapes(r"\U+0410\U+043D", none), "\u{410}\u{43d}");
    // Lower-case hex digits too.
    assert_eq!(decode_escapes(r"\U+00b1", none), "\u{b1}");
}

#[test]
fn what_is_not_an_escape_is_left_as_written() {
    for s in [
        r"\P\U+00",    // too few digits
        r"\U00B0",     // no plus
        r"\U+00G0",    // not hex
        r"\U+005C",    // a character every code page holds
        r"\U+0041",    // the same
        r"\A1;x\P",    // MTEXT codes are text, not storage
        r"%%c32",      // so are percent codes
        r"C:\\U+00B0", // a doubled backslash starts nothing
    ] {
        assert_eq!(decode_escapes(s, none), s, "{s}");
    }
}

#[test]
fn a_multibyte_escape_goes_through_the_code_page_it_names() {
    let korean = |cp: u16, b: [u8; 2]| (cp == 949 && b == [0xB5, 0xB5]).then_some('\u{b3c4}');
    assert_eq!(decode_escapes(r"\M+3B5B5", korean), "\u{b3c4}");
    // A code page the caller cannot decode leaves the escape.
    assert_eq!(decode_escapes(r"\M+1B5B5", korean), r"\M+1B5B5");
    assert_eq!(decode_escapes(r"\M+9B5B5", korean), r"\M+9B5B5");
}

#[test]
fn caret_notation_is_the_control_character_it_names() {
    assert_eq!(decode_caret("10^J20"), "10\n20");
    assert_eq!(decode_caret("a^Ib"), "a\tb");
    assert_eq!(decode_caret("x^ 2"), "x^2");
    // Anything else after a caret is left as written.
    assert_eq!(decode_caret("x^2"), "x^2");
    assert_eq!(decode_caret("end^"), "end^");
    assert_eq!(decode_caret("plain"), "plain");
}

#[test]
fn the_decoder_is_asked_once_per_multibyte_escape_in_order() {
    assert_eq!(
        escape_queries(r"a\M+3B5B5 \U+00B0\M+1ABCD\\M+2FFFF\M+9B5B5"),
        vec![(949, 0xB5, 0xB5), (932, 0xAB, 0xCD)]
    );
    let asked = std::cell::RefCell::new(Vec::new());
    let out = decode_escapes(r"\M+3B5B5x\M+5c0DE", |cp, b| {
        asked.borrow_mut().push((cp, b));
        None
    });
    assert_eq!(out, r"\M+3B5B5x\M+5c0DE");
    assert_eq!(asked.into_inner(), vec![(949, [0xB5, 0xB5]), (936, [0xC0, 0xDE])]);
}

#[test]
fn the_answers_decide_each_multibyte_escape_in_turn() {
    let text = r"\M+3B5B5-\M+3B5B5-\M+3B5B5";
    assert_eq!(
        decode_escapes_with(text, &[Some('\u{b3c4}'), Some('A'), None]),
        "\u{b3c4}-\\M+3B5B5-\\M+3B5B5"
    );
    // A missing answer leaves the escape as written.
    assert_eq!(decode_escapes_with(text, &[None, Some('\u{b3c4}')]), "\\M+3B5B5-\u{b3c4}-\\M+3B5B5");
}

#[test]
fn surrogates_and_short_escapes_are_left_as_written() {
    assert_eq!(decode_escapes(r"\U+D800", none), r"\U+D800");
    assert_eq!(decode_escapes(r"\U+DFFF!", none), r"\U+DFFF!");
    assert_eq!(decode_escapes(r"\U+E000", none), "\u{e000}");
    assert_eq!(decode_escapes(r"\", none), r"\");
    assert_eq!(decode_escapes(r"x\U", none), r"x\U");
    assert_eq!(decode_escapes(r"\M+3B5B", |_, _| Some('\u{b3c4}')), r"\M+3B5B");
}

#[test]
fn text_stored_with_escapes_and_text_stored_with_characters_decode_alike() {
    assert_eq!(
        decode_escapes(r"\U+D45C\U+C81C \U+00B1 1", none),
        decode_escapes("\u{D45C}\u{C81C} \u{b1} 1", none)
    );
    assert_eq!(decode_escapes("\u{D45C}\u{C81C} \u{b1} 1", none), "\u{D45C}\u{C81C} \u{b1} 1");
}

#[test]
fn caret_notation_round_trips_through_every_control_character() {
    let mut written = String::new();
    let mut expected = String::new();
    for b in 0u8..0x20 {
        written.push('^');
        written.push((b + 0x40) as char);
        expected.push(b as char);
    }
    written.push_str("^ ");
    expected.push('^');
    assert_eq!(decode_caret(&written), expected);
    assert_eq!(decode_caret("^^J"), "\u{1e}J");
}

#[test]
fn decoding_twice_decodes_once() {
    let korean = |cp: u16, b: [u8; 2]| (cp == 949 && b == [0xB5, 0xB5]).then_some('\u{b3c4}');
    for s in [
        r"108\U+00B0",
        r"\\U+00B0",
        r"\\\U+00B0",
        r"\M+3B5B5\M+1B5B5",
        r"\U+005C\U+0041",
        r"\\\\M+3B5B5",
        r"\X\U+00E9",
        r"end\",
    ] {
        let once = decode_escapes(s, korean);
        assert_eq!(decode_escapes(&once, korean), once, "{s}");
    }
}

#[test]
fn text_without_escapes_comes_back_borrowed_and_asks_nothing() {
    let plain = "50% of 10^2, no escape";
    match decode_escapes(plain, |_, _| panic!("the decoder was asked")) {
        std::borrow::Cow::Borrowed(b) => assert!(std::ptr::eq(b, plain)),
        std::borrow::Cow::Owned(_) => panic!("a text without a backslash was copied"),
    }
    let caretless = r"a\P b";
    match decode_caret(caretless) {
        std::borrow::Cow::Borrowed(b) => assert!(std::ptr::eq(b, caretless)),
        std::borrow::Cow::Owned(_) => panic!("a text without a caret was copied"),
    }
    assert!(matches!(decode_caret("10^J20"), std::borrow::Cow::Owned(_)));
}
