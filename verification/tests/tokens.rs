use uncad_model::text::tokens::{tokens, Break, Special, Switch, TextKind, Token, Toggle};

fn all(text: &str, kind: TextKind) -> Vec<Token<'_>> {
    tokens(text, kind).collect()
}

#[test]
fn percent_codes_in_any_text() {
    assert_eq!(
        all("%%c32 %%D%%p%%%x", TextKind::Line),
        [
            Token::Special(Special::Diameter),
            Token::Char('3'),
            Token::Char('2'),
            Token::Char(' '),
            Token::Special(Special::Degree),
            Token::Special(Special::PlusMinus),
            Token::Char('%'),
            Token::Char('x'),
        ]
    );
    assert_eq!(all("90%%127", TextKind::Line)[2], Token::CharCode(127));
    assert_eq!(
        all("%%uA", TextKind::Line)[0],
        Token::Toggle(Toggle::Underline(Switch::Flip))
    );
    // Not a code: kept.
    assert_eq!(all("%%12", TextKind::Line)[0], Token::Unknown("%%"));
    assert_eq!(all("%%z", TextKind::Line)[0], Token::Unknown("%%"));
}

#[test]
fn outside_mtext_a_backslash_is_a_character() {
    assert_eq!(
        all(r"\P{x}", TextKind::Line),
        r"\P{x}".chars().map(Token::Char).collect::<Vec<_>>()
    );
}

#[test]
fn mtext_codes() {
    assert_eq!(
        all(r"{\H2.5x;A}\P\~\\\{", TextKind::MText),
        [
            Token::GroupStart,
            Token::Property {
                code: 'H',
                value: "2.5x"
            },
            Token::Char('A'),
            Token::GroupEnd,
            Token::Break(Break::Paragraph),
            Token::NonBreakingSpace,
            Token::Char('\\'),
            Token::Char('{'),
        ]
    );
    assert_eq!(
        all(r"3\S1#2;", TextKind::MText)[1],
        Token::Stack {
            top: "1",
            bottom: "2",
            separator: '#'
        }
    );
    assert_eq!(all(r"\Sab;", TextKind::MText)[0], Token::StackUnsplit("ab"));
    assert_eq!(
        all(r"\L\l\K", TextKind::MText)[..2],
        [
            Token::Toggle(Toggle::Underline(Switch::On)),
            Token::Toggle(Toggle::Underline(Switch::Off))
        ]
    );
}

#[test]
fn what_is_not_a_closed_code_is_kept_as_text() {
    assert_eq!(all(r"\A1", TextKind::MText)[0], Token::Unknown(r"\A"));
    assert_eq!(all(r"\Z", TextKind::MText)[0], Token::Unknown(r"\Z"));
    assert_eq!(all("\\", TextKind::MText), [Token::Unknown("\\")]);
    // A storage escape a reader left (an ASCII one) is not a code.
    assert_eq!(all(r"\U+005C", TextKind::MText)[0], Token::Unknown(r"\U"));
}

#[test]
fn nothing_is_lost_and_nothing_is_read_twice() {
    // What a code produces is not read again: `\\P` is a backslash and
    // a P, not a paragraph break.
    assert_eq!(all(r"\\P", TextKind::MText), [Token::Char('\\'), Token::Char('P')]);
    assert_eq!(all("%%%d", TextKind::Line), [Token::Char('%'), Token::Char('d')]);
}

#[test]
fn next_hands_out_one_token_at_a_time_then_none() {
    let mut it = tokens("a%%d\u{b0}", TextKind::Line);
    assert_eq!(it.next(), Some(Token::Char('a')));
    assert_eq!(it.next(), Some(Token::Special(Special::Degree)));
    assert_eq!(it.next(), Some(Token::Char('\u{b0}')));
    assert_eq!(it.next(), None);
    assert_eq!(it.next(), None);
}

#[test]
fn every_stack_separator_and_the_remaining_codes() {
    assert_eq!(
        all(r"\S1^2;\S3/4;\Sa#b/c;", TextKind::MText),
        [
            Token::Stack { top: "1", bottom: "2", separator: '^' },
            Token::Stack { top: "3", bottom: "4", separator: '/' },
            Token::Stack { top: "a", bottom: "b/c", separator: '#' },
        ]
    );
    assert_eq!(
        all(r"\N\X\O\o\k\}\fArial|b1;\pxqc;", TextKind::MText),
        [
            Token::Break(Break::Column),
            Token::Break(Break::DimensionLine),
            Token::Toggle(Toggle::Overline(Switch::On)),
            Token::Toggle(Toggle::Overline(Switch::Off)),
            Token::Toggle(Toggle::StrikeThrough(Switch::Off)),
            Token::Char('}'),
            Token::Property { code: 'f', value: "Arial|b1" },
            Token::Property { code: 'p', value: "xqc" },
        ]
    );
    assert_eq!(all("%%O%%P%%C%%099%", TextKind::MText), [
        Token::Toggle(Toggle::Overline(Switch::Flip)),
        Token::Special(Special::PlusMinus),
        Token::Special(Special::Diameter),
        Token::CharCode(99),
        Token::Char('%'),
    ]);
    assert_eq!(all("%", TextKind::Line), [Token::Char('%')]);
    assert_eq!(all("%%", TextKind::Line), [Token::Unknown("%%")]);
    assert!(all("", TextKind::MText).is_empty());
}

#[test]
fn a_cloned_split_goes_on_from_where_it_was() {
    let mut it = tokens(r"\P\~", TextKind::MText);
    assert_eq!(it.next(), Some(Token::Break(Break::Paragraph)));
    let copy = it.clone();
    assert_eq!(copy.collect(), [Token::NonBreakingSpace]);
    assert_eq!(it.collect(), [Token::NonBreakingSpace]);
}

#[test]
fn line_text_without_a_percent_code_is_its_characters() {
    let text = r"50% off \P {x} 100%";
    let expected: Vec<Token> = text.chars().map(Token::Char).collect();
    assert_eq!(all(text, TextKind::Line), expected);
}

#[test]
fn a_character_token_comes_from_its_character_or_its_escape() {
    assert_eq!(
        all(r"a%%%\\\{\}", TextKind::MText),
        [
            Token::Char('a'),
            Token::Char('%'),
            Token::Char('\\'),
            Token::Char('{'),
            Token::Char('}'),
        ]
    );
}
