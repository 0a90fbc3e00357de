//! How a drawing's strings are stored, undone.
//!
//! A file whose text is in a code page cannot hold every character, so the
//! formats write the ones it cannot hold as escapes, in any string -- a
//! text's value, a layer's name, a dictionary key:
//!
//! - `\U+XXXX` is the Unicode character with that code point (four hex
//!   digits);
//! - `\M+nXXXX` is a character of an Asian code page (`n` from 1 to 5 names
//!   it, `XXXX` is its two bytes);
//! - in a DXF file, whose every value is one line, a control character is
//!   written in caret notation: `^J` is a line feed, `^I` a tab, and `^ ` (a
//!   space after the caret) is the caret itself.
//!
//! This is storage, not text: the file means the character, and two files
//! that store the same string differently mean the same string. A reader
//! undoes it as it takes the string out of the file, so the model's strings
//! do not depend on which way a file stored them. What the text itself says
//! in its control codes -- `%%d`, MTEXT's `\P` -- is not storage, and is left
//! alone here.
//!
//! An escape that names a character every code page holds (anything below
//! U+0080) is left as written. No writer needs one, and undoing it could make
//! a character the text reads as a code: `\U+005C` would become the
//! backslash an MTEXT code starts with.

use crate::chars::{char_from_u32, chars_of, is_scalar, push_char, string_of};
use std::borrow::Cow;
use vstd::prelude::*;

pub mod tokens;

verus! {

// ---------------------------------------------------------------------------
// The model of the escapes.
// ---------------------------------------------------------------------------

/// An ASCII hexadecimal digit.
pub open spec fn is_hex_digit(c: char) -> bool {
    (0x30 <= c as u32 && c as u32 <= 0x39) || (0x41 <= c as u32 && c as u32 <= 0x46) || (0x61
        <= c as u32 && c as u32 <= 0x66)
}

/// The value of a hexadecimal digit.
pub open spec fn hex_digit_value(c: char) -> int {
    if c as u32 <= 0x39 {
        c as u32 - 0x30
    } else if c as u32 <= 0x46 {
        c as u32 - 0x41 + 10
    } else {
        c as u32 - 0x61 + 10
    }
}

/// The number the four hexadecimal digits at `s[i..i + 4]` write, or `None`
/// when there are not four digits there.
pub open spec fn hex4(s: Seq<char>, i: int) -> Option<int> {
    if 0 <= i && i + 4 <= s.len() && is_hex_digit(s[i]) && is_hex_digit(s[i + 1])
        && is_hex_digit(s[i + 2]) && is_hex_digit(s[i + 3]) {
        Some(
            hex_digit_value(s[i]) * 4096 + hex_digit_value(s[i + 1]) * 256 + hex_digit_value(
                s[i + 2],
            ) * 16 + hex_digit_value(s[i + 3]),
        )
    } else {
        None
    }
}

/// What `+XXXX` at the start of `rest` (the text after `\U`) stores: the
/// character with that code point, when it is one no code page lacks.
pub open spec fn unicode_escape(rest: Seq<char>) -> Option<char> {
    if rest.len() >= 1 && rest[0] == '+' && hex4(rest, 1) is Some {
        let v = hex4(rest, 1)->0;
        if v >= 0x80 && !(0xD800 <= v && v <= 0xDFFF) {
            Some(v as char)
        } else {
            None
        }
    } else {
        None
    }
}

/// The Windows code page digit `n` of a `\M+n` escape names, or 0 for a
/// digit that names none.
pub open spec fn code_page_of(c: char) -> u16 {
    if c == '1' {
        932
    } else if c == '2' {
        950
    } else if c == '3' {
        949
    } else if c == '4' {
        1361
    } else if c == '5' {
        936
    } else {
        0
    }
}

/// What `+nXXXX` at the start of `rest` (the text after `\M`) asks of the
/// code page decoder: the code page and the character's two bytes.
pub open spec fn multibyte_query(rest: Seq<char>) -> Option<(u16, u8, u8)> {
    if rest.len() >= 6 && rest[0] == '+' && code_page_of(rest[1]) != 0 && hex4(rest, 2) is Some {
        let v = hex4(rest, 2)->0;
        Some((code_page_of(rest[1]), (v / 256) as u8, (v % 256) as u8))
    } else {
        None
    }
}

/// Whether a decoder's answer is a character the escape can stand for: one
/// outside ASCII.
pub open spec fn accepted(answer: Option<char>) -> bool {
    answer matches Some(c) && c as u32 >= 0x80
}

/// `s` with its escapes undone, where `answers` are the code page decoder's
/// answers to the `\M+` escapes, in the order they occur.
pub open spec fn decoded(s: Seq<char>, answers: Seq<Option<char>>) -> Seq<char>
    decreases s.len(),
{
    if s.len() == 0 {
        seq![]
    } else if s[0] != '\\' {
        seq![s[0]] + decoded(s.drop_first(), answers)
    } else if s.len() >= 2 && s[1] == '\\' {
        seq!['\\', '\\'] + decoded(s.skip(2), answers)
    } else if s.len() >= 2 && s[1] == 'U' && unicode_escape(s.skip(2)) is Some {
        seq![unicode_escape(s.skip(2))->0] + decoded(s.skip(7), answers)
    } else if s.len() >= 2 && s[1] == 'M' && multibyte_query(s.skip(2)) is Some {
        let (answer, later) = if answers.len() > 0 {
            (answers[0], answers.drop_first())
        } else {
            (None, answers)
        };
        if accepted(answer) {
            seq![answer->0] + decoded(s.skip(8), later)
        } else {
            s.take(8) + decoded(s.skip(8), later)
        }
    } else {
        seq!['\\'] + decoded(s.drop_first(), answers)
    }
}

/// The questions decoding `s` puts to the code page decoder, in order: one
/// per `\M+` escape, as the code page and the two bytes.
pub open spec fn escape_queries_of(s: Seq<char>) -> Seq<(u16, u8, u8)>
    decreases s.len(),
{
    if s.len() == 0 {
        seq![]
    } else if s[0] != '\\' {
        escape_queries_of(s.drop_first())
    } else if s.len() >= 2 && s[1] == '\\' {
        escape_queries_of(s.skip(2))
    } else if s.len() >= 2 && s[1] == 'U' && unicode_escape(s.skip(2)) is Some {
        escape_queries_of(s.skip(7))
    } else if s.len() >= 2 && s[1] == 'M' && multibyte_query(s.skip(2)) is Some {
        seq![multibyte_query(s.skip(2))->0] + escape_queries_of(s.skip(8))
    } else {
        escape_queries_of(s.drop_first())
    }
}

/// `answers` are what `mbcs` may return for `queries`, one for each.
pub open spec fn answers_from<F: Fn(u16, [u8; 2]) -> Option<char>>(
    mbcs: F,
    queries: Seq<(u16, u8, u8)>,
    answers: Seq<Option<char>>,
) -> bool {
    &&& answers.len() == queries.len()
    &&& forall|i: int|
        0 <= i < queries.len() ==> call_ensures(
            mbcs,
            (queries[i].0, [queries[i].1, queries[i].2]),
            #[trigger] answers[i],
        )
}

/// `s` with its caret notation undone.
pub open spec fn caret_decoded(s: Seq<char>) -> Seq<char>
    decreases s.len(),
{
    if s.len() == 0 {
        seq![]
    } else if s[0] != '^' {
        seq![s[0]] + caret_decoded(s.drop_first())
    } else if s.len() >= 2 && s[1] == ' ' {
        seq!['^'] + caret_decoded(s.skip(2))
    } else if s.len() >= 2 && 0x40 <= s[1] as u32 && s[1] as u32 <= 0x5F {
        seq![(s[1] as u32 - 0x40) as char] + caret_decoded(s.skip(2))
    } else {
        seq!['^'] + caret_decoded(s.drop_first())
    }
}

// ---------------------------------------------------------------------------
// Decoding.
// ---------------------------------------------------------------------------

/// The value of the hexadecimal digit `c`, or `None` when it is not one.
fn hex_digit(c: char) -> (r: Option<u32>)
    ensures
        is_hex_digit(c) ==> r == Some(hex_digit_value(c) as u32),
        !is_hex_digit(c) ==> r is None,
{
    if '0' <= c && c <= '9' {
        Some(c as u32 - 0x30)
    } else if 'A' <= c && c <= 'F' {
        Some(c as u32 - 0x41 + 10)
    } else if 'a' <= c && c <= 'f' {
        Some(c as u32 - 0x61 + 10)
    } else {
        None
    }
}

/// The number the four hexadecimal digits at `chars[at..at + 4]` write.
fn hex(chars: &Vec<char>, at: usize) -> (r: Option<u32>)
    ensures
        hex4(chars@, at as int) is Some ==> r == Some(hex4(chars@, at as int)->0 as u32),
        hex4(chars@, at as int) is None ==> r is None,
{
    if at > chars.len() || chars.len() - at < 4 {
        return None;
    }
    let d0 = hex_digit(chars[at]);
    let d1 = hex_digit(chars[at + 1]);
    let d2 = hex_digit(chars[at + 2]);
    let d3 = hex_digit(chars[at + 3]);
    match (d0, d1, d2, d3) {
        (Some(a), Some(b), Some(c), Some(d)) => Some(a * 4096 + b * 256 + c * 16 + d),
        _ => None,
    }
}

/// `+XXXX` at `chars[at..]` (after `\U`): the character, when it is one no
/// code page lacks.
fn unicode(chars: &Vec<char>, at: usize) -> (r: Option<char>)
    requires
        at <= chars.len(),
    ensures
        r == unicode_escape(chars@.skip(at as int)),
{
    let ghost rest = chars@.skip(at as int);
    if at >= chars.len() || chars[at] != '+' {
        return None;
    }
    let code = match hex(chars, at + 1) {
        Some(code) => code,
        None => {
            assert(hex4(rest, 1) is None);
            return None;
        },
    };
    assert(hex4(rest, 1) == hex4(chars@, at + 1));
    if code < 0x80 || (0xD800 <= code && code <= 0xDFFF) {
        return None;
    }
    assert(is_scalar(code));
    char_from_u32(code)
}

/// `+nXXXX` at `chars[at..]` (after `\M`): the code page `n` names and the
/// two bytes `XXXX` write.
fn multibyte(chars: &Vec<char>, at: usize) -> (r: Option<(u16, u8, u8)>)
    requires
        at <= chars.len(),
    ensures
        r == multibyte_query(chars@.skip(at as int)),
{
    let ghost rest = chars@.skip(at as int);
    if chars.len() - at < 6 || chars[at] != '+' {
        return None;
    }
    let codepage: u16 = match chars[at + 1] {
        '1' => 932,
        '2' => 950,
        '3' => 949,
        '4' => 1361,
        '5' => 936,
        _ => return None,
    };
    let bytes = match hex(chars, at + 2) {
        Some(bytes) => bytes,
        None => {
            assert(hex4(rest, 2) is None);
            return None;
        },
    };
    assert(hex4(rest, 2) == hex4(chars@, at + 2));
    Some((codepage, (bytes / 256) as u8, (bytes % 256) as u8))
}

/// The questions decoding `text` puts to a code page decoder: for each
/// `\M+nXXXX` escape, in order, the code page `n` names and the two bytes.
pub fn escape_queries(text: &str) -> (queries: Vec<(u16, u8, u8)>)
    ensures
        queries@ == escape_queries_of(text@),
{
    let chars = chars_of(text);
    let n = chars.len();
    let mut queries: Vec<(u16, u8, u8)> = Vec::new();
    let mut i: usize = 0;
    assert(chars@.skip(0) == chars@);
    while i < n
        invariant
            n == chars.len(),
            chars@ == text@,
            i <= n,
            escape_queries_of(text@) == queries@ + escape_queries_of(chars@.skip(i as int)),
        decreases n - i,
    {
        let ghost s = chars@.skip(i as int);
        if chars[i] != '\\' {
            assert(s.drop_first() == chars@.skip(i + 1));
            i += 1;
        } else if i + 1 < n && chars[i + 1] == '\\' {
            assert(s.skip(2) == chars@.skip(i + 2));
            i += 2;
        } else if i + 1 < n && chars[i + 1] == 'U' && unicode(&chars, i + 2).is_some() {
            assert(s.skip(2) == chars@.skip(i + 2));
            assert(s.skip(7) == chars@.skip(i + 7));
            i += 7;
        } else if i + 1 < n && chars[i + 1] == 'M' && multibyte(&chars, i + 2).is_some() {
            assert(s.skip(2) == chars@.skip(i + 2));
            assert(s.skip(8) == chars@.skip(i + 8));
            let q = multibyte(&chars, i + 2).unwrap();
            queries.push(q);
            i += 8;
        } else {
            assert(s.drop_first() == chars@.skip(i + 1));
            i += 1;
        }
    }
    assert(chars@.skip(n as int) == Seq::<char>::empty());
    queries
}

/// `text` with its `\U+XXXX` and `\M+nXXXX` escapes replaced by the
/// characters they store, where `answers` holds, one per `\M+` escape in the
/// order of [`escape_queries`], what the code page decoder made of it. An
/// answer that is `None` or an ASCII character -- and a missing answer --
/// leaves its escape as written. A doubled backslash is kept as it is and
/// never starts an escape.
#[verifier::rlimit(40)]
pub fn decode_escapes_with(text: &str, answers: &[Option<char>]) -> (out: String)
    ensures
        out@ == decoded(text@, answers@),
{
    let chars = chars_of(text);
    let n = chars.len();
    let mut out: Vec<char> = Vec::new();
    let mut i: usize = 0;
    let mut k: usize = 0;
    assert(chars@.skip(0) == chars@);
    assert(answers@.skip(0) == answers@);
    while i < n
        invariant
            n == chars.len(),
            chars@ == text@,
            i <= n,
            k <= answers@.len(),
            decoded(text@, answers@) == out@ + decoded(
                chars@.skip(i as int),
                answers@.skip(k as int),
            ),
        decreases n - i,
    {
        let ghost s = chars@.skip(i as int);
        let ghost a = answers@.skip(k as int);
        let ghost before = out@;
        assert(s[0] == chars@[i as int]);
        assert(s.len() >= 2 ==> s[1] == chars@[i + 1]);
        if chars[i] != '\\' {
            assert(s.drop_first() == chars@.skip(i + 1));
            let c = chars[i];
            assert(decoded(s, a) == seq![c] + decoded(s.drop_first(), a));
            out.push(c);
            i += 1;
            assert(before + (seq![c] + decoded(chars@.skip(i as int), answers@.skip(k as int)))
                == out@ + decoded(chars@.skip(i as int), answers@.skip(k as int)));
        } else if i + 1 < n && chars[i + 1] == '\\' {
            assert(s.skip(2) == chars@.skip(i + 2));
            assert(decoded(s, a) == seq!['\\', '\\'] + decoded(s.skip(2), a));
            out.push('\\');
            out.push('\\');
            i += 2;
            assert(before + (seq!['\\', '\\'] + decoded(
                chars@.skip(i as int),
                answers@.skip(k as int),
            )) == out@ + decoded(chars@.skip(i as int), answers@.skip(k as int)));
        } else if i + 1 < n && chars[i + 1] == 'U' && unicode(&chars, i + 2).is_some() {
            assert(s.skip(2) == chars@.skip(i + 2));
            assert(s.skip(7) == chars@.skip(i + 7));
            let c = unicode(&chars, i + 2).unwrap();
            assert(decoded(s, a) == seq![c] + decoded(s.skip(7), a));
            out.push(c);
            i += 7;
            assert(before + (seq![c] + decoded(chars@.skip(i as int), answers@.skip(k as int)))
                == out@ + decoded(chars@.skip(i as int), answers@.skip(k as int)));
        } else if i + 1 < n && chars[i + 1] == 'M' && multibyte(&chars, i + 2).is_some() {
            assert(s.skip(2) == chars@.skip(i + 2));
            assert(s.skip(8) == chars@.skip(i + 8));
            let answer = if k < answers.len() {
                answers[k]
            } else {
                None
            };
            assert(answer == (if a.len() > 0 {
                a[0]
            } else {
                None
            }));
            let ghost next_a = if a.len() > 0 {
                a.drop_first()
            } else {
                a
            };
            if k < answers.len() {
                k += 1;
                assert(next_a == answers@.skip(k as int));
            } else {
                assert(next_a == answers@.skip(k as int));
            }
            match answer {
                Some(c) if c as u32 >= 0x80 => {
                    assert(decoded(s, a) == seq![c] + decoded(s.skip(8), next_a));
                    out.push(c);
                    assert(before + (seq![c] + decoded(s.skip(8), next_a)) == out@ + decoded(
                        s.skip(8),
                        next_a,
                    ));
                },
                _ => {
                    assert(!accepted(answer));
                    assert(decoded(s, a) == s.take(8) + decoded(s.skip(8), next_a));
                    let mut j: usize = 0;
                    while j < 8
                        invariant
                            j <= 8,
                            i + 8 <= n,
                            n == chars.len(),
                            out@ == before + chars@.subrange(i as int, i + j),
                        decreases 8 - j,
                    {
                        out.push(chars[i + j]);
                        j += 1;
                        assert(out@ == before + chars@.subrange(i as int, i + j));
                    }
                    assert(chars@.subrange(i as int, i + 8) == s.take(8));
                    assert(before + (s.take(8) + decoded(s.skip(8), next_a)) == out@ + decoded(
                        s.skip(8),
                        next_a,
                    ));
                },
            }
            i += 8;
        } else {
            assert(s.drop_first() == chars@.skip(i + 1));
            assert(decoded(s, a) == seq!['\\'] + decoded(s.drop_first(), a));
            out.push('\\');
            i += 1;
            assert(before + (seq!['\\'] + decoded(chars@.skip(i as int), answers@.skip(k as int)))
                == out@ + decoded(chars@.skip(i as int), answers@.skip(k as int)));
        }
    }
    assert(chars@.skip(n as int) == Seq::<char>::empty());
    string_of(&out)
}

/// Whether `c` occurs in `chars`.
fn contains_char(chars: &Vec<char>, c: char) -> (r: bool)
    ensures
        r == chars@.contains(c),
{
    let mut i: usize = 0;
    while i < chars.len()
        invariant
            i <= chars.len(),
            forall|j: int| 0 <= j < i ==> chars@[j] != c,
        decreases chars.len() - i,
    {
        if chars[i] == c {
            assert(chars@[i as int] == c);
            return true;
        }
        i += 1;
    }
    false
}

/// `text` with its `\U+XXXX` and `\M+nXXXX` escapes replaced by the
/// characters they store.
///
/// `mbcs` decodes a `\M+` escape: it is given the Windows code page the
/// escape names (932, 950, 949, 1361 or 936) and the character's two bytes,
/// and returns the character, or `None` when it cannot -- the escape is then
/// left as written. It is asked once per such escape, in the order the
/// escapes occur, and what it answers is undone as
/// [`decode_escapes_with`] says. A doubled backslash is kept as it is and
/// never starts an escape.
pub fn decode_escapes<'a>(
    text: &'a str,
    mbcs: impl Fn(u16, [u8; 2]) -> Option<char>,
) -> (out: Cow<'a, str>)
    requires
        forall|codepage: u16, bytes: [u8; 2]| call_requires(mbcs, (codepage, bytes)),
    ensures
        exists|answers: Seq<Option<char>>|
            answers_from(mbcs, escape_queries_of(text@), answers) && out@ == decoded(
                text@,
                answers,
            ),
        !text@.contains('\\') ==> out == Cow::<'a, str>::Borrowed(text),
        !text@.contains('\\') ==> escape_queries_of(text@) == Seq::<(u16, u8, u8)>::empty(),
{
    let chars = chars_of(text);
    if !contains_char(&chars, '\\') {
        proof {
            lemma_plain_text_is_unchanged(text@, seq![]);
            lemma_plain_text_asks_nothing(text@);
            assert(answers_from(mbcs, escape_queries_of(text@), seq![]));
        }
        return Cow::Borrowed(text);
    }
    let queries = escape_queries(text);
    let mut answers: Vec<Option<char>> = Vec::new();
    let mut i: usize = 0;
    while i < queries.len()
        invariant
            i <= queries.len(),
            answers@.len() == i,
            forall|codepage: u16, bytes: [u8; 2]| call_requires(mbcs, (codepage, bytes)),
            forall|j: int|
                0 <= j < i ==> call_ensures(
                    mbcs,
                    (queries@[j].0, [queries@[j].1, queries@[j].2]),
                    #[trigger] answers@[j],
                ),
        decreases queries.len() - i,
    {
        let (codepage, hi, lo) = queries[i];
        let answer = mbcs(codepage, [hi, lo]);
        answers.push(answer);
        i += 1;
    }
    let out = decode_escapes_with(text, answers.as_slice());
    assert(answers_from(mbcs, escape_queries_of(text@), answers@));
    Cow::Owned(out)
}

/// `text` with its caret notation undone: `^` followed by `@`, `A` to `Z`,
/// `[`, `\`, `]`, `^` or `_` is the control character that letter names
/// (`^J` a line feed), and `^ ` is the caret. Any other caret is left as
/// written. DXF only -- a binary format stores control characters as they
/// are.
pub fn decode_caret<'a>(text: &'a str) -> (out: Cow<'a, str>)
    ensures
        out@ == caret_decoded(text@),
        !text@.contains('^') ==> out == Cow::<'a, str>::Borrowed(text),
{
    let chars = chars_of(text);
    if !contains_char(&chars, '^') {
        proof {
            lemma_caretless_text_is_unchanged(text@);
        }
        return Cow::Borrowed(text);
    }
    let n = chars.len();
    let mut out: Vec<char> = Vec::new();
    let mut i: usize = 0;
    assert(chars@.skip(0) == chars@);
    while i < n
        invariant
            n == chars.len(),
            chars@ == text@,
            i <= n,
            caret_decoded(text@) == out@ + caret_decoded(chars@.skip(i as int)),
        decreases n - i,
    {
        let ghost s = chars@.skip(i as int);
        let ghost before = out@;
        let c = chars[i];
        if c != '^' {
            assert(s.drop_first() == chars@.skip(i + 1));
            assert(caret_decoded(s) == seq![c] + caret_decoded(s.drop_first()));
            out.push(c);
            i += 1;
            assert(before + (seq![c] + caret_decoded(chars@.skip(i as int))) == out@
                + caret_decoded(chars@.skip(i as int)));
        } else if i + 1 < n && chars[i + 1] == ' ' {
            assert(s.skip(2) == chars@.skip(i + 2));
            assert(caret_decoded(s) == seq!['^'] + caret_decoded(s.skip(2)));
            out.push('^');
            i += 2;
            assert(before + (seq!['^'] + caret_decoded(chars@.skip(i as int))) == out@
                + caret_decoded(chars@.skip(i as int)));
        } else if i + 1 < n && 0x40 <= chars[i + 1] as u32 && chars[i + 1] as u32 <= 0x5F {
            assert(s.skip(2) == chars@.skip(i + 2));
            let code = chars[i + 1] as u32 - 0x40;
            let byte = code as u8;
            assert(byte as u32 == code);
            let control = byte as char;
            assert(caret_decoded(s) == seq![control] + caret_decoded(s.skip(2)));
            out.push(control);
            i += 2;
            assert(before + (seq![control] + caret_decoded(chars@.skip(i as int))) == out@
                + caret_decoded(chars@.skip(i as int)));
        } else {
            assert(s.drop_first() == chars@.skip(i + 1));
            assert(s[0] == '^');
            assert(s.len() >= 2 ==> s[1] == chars@[i + 1]);
            assert(caret_decoded(s) == seq!['^'] + caret_decoded(s.drop_first()));
            out.push('^');
            i += 1;
            assert(before + (seq!['^'] + caret_decoded(chars@.skip(i as int))) == out@
                + caret_decoded(chars@.skip(i as int)));
        }
    }
    assert(chars@.skip(n as int) == Seq::<char>::empty());
    Cow::Owned(string_of(&out))
}

// ---------------------------------------------------------------------------
// What the decoding keeps.
// ---------------------------------------------------------------------------

/// Text without a backslash holds no escape: it decodes to itself, whatever
/// the code page decoder would answer.
pub proof fn lemma_plain_text_is_unchanged(s: Seq<char>, answers: Seq<Option<char>>)
    requires
        !s.contains('\\'),
    ensures
        decoded(s, answers) == s,
    decreases s.len(),
{
    if s.len() > 0 {
        assert(s[0] != '\\');
        assert(!s.drop_first().contains('\\')) by {
            if s.drop_first().contains('\\') {
                let j = choose|j: int| 0 <= j < s.drop_first().len() && s.drop_first()[j] == '\\';
                assert(s[j + 1] == '\\');
            }
        }
        lemma_plain_text_is_unchanged(s.drop_first(), answers);
        assert(s == seq![s[0]] + s.drop_first());
    }
}

/// Text without a backslash puts no question to the code page decoder.
pub proof fn lemma_plain_text_asks_nothing(s: Seq<char>)
    requires
        !s.contains('\\'),
    ensures
        escape_queries_of(s) == Seq::<(u16, u8, u8)>::empty(),
    decreases s.len(),
{
    if s.len() > 0 {
        assert(s[0] != '\\');
        assert(!s.drop_first().contains('\\')) by {
            if s.drop_first().contains('\\') {
                let j = choose|j: int| 0 <= j < s.drop_first().len() && s.drop_first()[j] == '\\';
                assert(s[j + 1] == '\\');
            }
        }
        lemma_plain_text_asks_nothing(s.drop_first());
    }
}

/// Text without a caret holds no caret notation: it decodes to itself.
pub proof fn lemma_caretless_text_is_unchanged(s: Seq<char>)
    requires
        !s.contains('^'),
    ensures
        caret_decoded(s) == s,
    decreases s.len(),
{
    if s.len() > 0 {
        assert(s[0] != '^');
        assert(!s.drop_first().contains('^')) by {
            if s.drop_first().contains('^') {
                let j = choose|j: int| 0 <= j < s.drop_first().len() && s.drop_first()[j] == '^';
                assert(s[j + 1] == '^');
            }
        }
        lemma_caretless_text_is_unchanged(s.drop_first());
        assert(s == seq![s[0]] + s.drop_first());
    }
}

/// The digit writing `d` (0 to 15) in upper-case hexadecimal.
pub open spec fn hex_char(d: int) -> char {
    if d < 10 {
        (0x30 + d) as char
    } else {
        (0x41 + d - 10) as char
    }
}

/// Whether a file in a code page would store `c` as its `\U+XXXX` escape:
/// it is outside ASCII and four hex digits can write its code point.
pub open spec fn escapable(c: char) -> bool {
    0x80 <= c as u32 && c as u32 <= 0xFFFF
}

/// `\U+XXXX` for the code point of `c`, in upper-case hexadecimal.
pub open spec fn unicode_escape_of(c: char) -> Seq<char> {
    let v = c as int;
    seq![
        '\\',
        'U',
        '+',
        hex_char(v / 4096),
        hex_char((v / 256) % 16),
        hex_char((v / 16) % 16),
        hex_char(v % 16),
    ]
}

/// `s` as a file in a code page stores it: every character four hex digits
/// can write and no code page is sure to hold as its `\U+XXXX` escape, the
/// rest as it is.
pub open spec fn escaped(s: Seq<char>) -> Seq<char>
    decreases s.len(),
{
    if s.len() == 0 {
        seq![]
    } else {
        (if escapable(s[0]) {
            unicode_escape_of(s[0])
        } else {
            seq![s[0]]
        }) + escaped(s.drop_first())
    }
}

/// `s` with every control character written in caret notation, and the
/// caret itself as `^ ` -- how a DXF file stores a string on one line.
pub open spec fn caret_encoded(s: Seq<char>) -> Seq<char>
    decreases s.len(),
{
    if s.len() == 0 {
        seq![]
    } else {
        let c = s[0];
        (if (c as u32) < 0x20 {
            seq!['^', (c as u32 + 0x40) as char]
        } else if c == '^' {
            seq!['^', ' ']
        } else {
            seq![c]
        }) + caret_encoded(s.drop_first())
    }
}

proof fn lemma_hex_char(d: int)
    requires
        0 <= d < 16,
    ensures
        is_hex_digit(hex_char(d)),
        hex_digit_value(hex_char(d)) == d,
        hex_char(d) != '\\',
{
}

/// A prefix without a backslash decodes to itself, whatever follows it.
proof fn lemma_plain_prefix(p: Seq<char>, t: Seq<char>, answers: Seq<Option<char>>)
    requires
        !p.contains('\\'),
    ensures
        decoded(p + t, answers) == p + decoded(t, answers),
        escape_queries_of(p + t) == escape_queries_of(t),
    decreases p.len(),
{
    if p.len() > 0 {
        assert(p[0] != '\\');
        let rest = p.drop_first();
        assert(!rest.contains('\\')) by {
            if rest.contains('\\') {
                let j = choose|j: int| 0 <= j < rest.len() && rest[j] == '\\';
                assert(p[j + 1] == '\\');
            }
        }
        lemma_plain_prefix(rest, t, answers);
        assert((p + t).drop_first() == rest + t);
        assert((p + t)[0] == p[0]);
        assert(p == seq![p[0]] + rest);
    }
}

/// The four digits of an escape write the code point they were made from.
proof fn lemma_escape_digits(c: char)
    requires
        escapable(c),
    ensures
        hex4(unicode_escape_of(c).skip(2), 1) == Some(c as int),
{
    let v = c as int;
    let e = unicode_escape_of(c).skip(2);
    let d0 = v / 4096;
    let d1 = (v / 256) % 16;
    let d2 = (v / 16) % 16;
    let d3 = v % 16;
    assert(0 <= d0 < 16 && 0 <= d1 < 16 && 0 <= d2 < 16 && 0 <= d3 < 16) by (nonlinear_arith)
        requires
            0 <= v <= 0xFFFF,
            d0 == v / 4096,
            d1 == (v / 256) % 16,
            d2 == (v / 16) % 16,
            d3 == v % 16,
    ;
    assert(d0 * 4096 + d1 * 256 + d2 * 16 + d3 == v) by (nonlinear_arith)
        requires
            0 <= v <= 0xFFFF,
            d0 == v / 4096,
            d1 == (v / 256) % 16,
            d2 == (v / 16) % 16,
            d3 == v % 16,
    ;
    lemma_hex_char(d0);
    lemma_hex_char(d1);
    lemma_hex_char(d2);
    lemma_hex_char(d3);
    assert(e[1] == hex_char(d0) && e[2] == hex_char(d1) && e[3] == hex_char(d2) && e[4]
        == hex_char(d3));
}

/// A character stored as its `\U+XXXX` escape decodes to the character,
/// whatever follows it.
proof fn lemma_escape_decodes(c: char, t: Seq<char>, answers: Seq<Option<char>>)
    requires
        escapable(c),
    ensures
        decoded(unicode_escape_of(c) + t, answers) == seq![c] + decoded(t, answers),
        escape_queries_of(unicode_escape_of(c) + t) == escape_queries_of(t),
{
    let e = unicode_escape_of(c) + t;
    lemma_escape_digits(c);
    assert(e.skip(2).take(5) == unicode_escape_of(c).skip(2));
    assert(hex4(e.skip(2), 1) == hex4(unicode_escape_of(c).skip(2), 1));
    assert(unicode_escape(e.skip(2)) == Some(c));
    assert(e.skip(7) == t);
}

/// A string without backslashes, stored with each character that needs it
/// as its `\U+XXXX` escape, decodes back to itself -- the file with the
/// escapes and the file with the characters carry the same string -- and
/// asks the code page decoder nothing.
pub proof fn escaped_text_decodes_to_itself(s: Seq<char>, answers: Seq<Option<char>>)
    requires
        !s.contains('\\'),
    ensures
        decoded(escaped(s), answers) == s,
        escape_queries_of(escaped(s)) == Seq::<(u16, u8, u8)>::empty(),
    decreases s.len(),
{
    if s.len() > 0 {
        let c = s[0];
        let rest = s.drop_first();
        assert(c != '\\');
        assert(!rest.contains('\\')) by {
            if rest.contains('\\') {
                let j = choose|j: int| 0 <= j < rest.len() && rest[j] == '\\';
                assert(s[j + 1] == '\\');
            }
        }
        escaped_text_decodes_to_itself(rest, answers);
        if escapable(c) {
            lemma_escape_decodes(c, escaped(rest), answers);
        } else {
            lemma_plain_prefix(seq![c], escaped(rest), answers);
        }
        assert(s == seq![c] + rest);
    }
}

/// A character stored as its `\U+XXXX` escape, after text without a
/// backslash and before anything, decodes to the same string as the
/// character itself in its place.
pub proof fn escape_and_character_decode_alike(
    p: Seq<char>,
    c: char,
    t: Seq<char>,
    answers: Seq<Option<char>>,
)
    requires
        !p.contains('\\'),
        escapable(c),
    ensures
        decoded(p + unicode_escape_of(c) + t, answers) == decoded(p + seq![c] + t, answers),
        decoded(p + seq![c] + t, answers) == p + seq![c] + decoded(t, answers),
{
    assert(p + unicode_escape_of(c) + t == p + (unicode_escape_of(c) + t));
    assert(p + seq![c] + t == p + (seq![c] + t));
    lemma_plain_prefix(p, unicode_escape_of(c) + t, answers);
    lemma_plain_prefix(p, seq![c] + t, answers);
    lemma_escape_decodes(c, t, answers);
    lemma_plain_prefix(seq![c], t, answers);
    assert(p + (seq![c] + decoded(t, answers)) == p + seq![c] + decoded(t, answers));
}

/// An escape naming a character every code page holds (below U+0080) is
/// left as written.
pub proof fn ascii_escape_is_left_as_written(c: char, t: Seq<char>, answers: Seq<Option<char>>)
    requires
        (c as u32) < 0x80,
    ensures
        decoded(unicode_escape_of(c) + t, answers) == unicode_escape_of(c) + decoded(t, answers),
{
    let v = c as int;
    let e = unicode_escape_of(c) + t;
    let d0 = v / 4096;
    let d1 = (v / 256) % 16;
    let d2 = (v / 16) % 16;
    let d3 = v % 16;
    assert(d0 == 0 && d1 == 0 && 0 <= d2 < 8 && 0 <= d3 < 16);
    assert(d0 * 4096 + d1 * 256 + d2 * 16 + d3 == v);
    lemma_hex_char(d0);
    lemma_hex_char(d1);
    lemma_hex_char(d2);
    lemma_hex_char(d3);
    assert(hex4(e.skip(2), 1) == Some(v));
    assert(unicode_escape(e.skip(2)) is None);
    let tail = unicode_escape_of(c).drop_first();
    assert(!tail.contains('\\')) by {
        if tail.contains('\\') {
            let j = choose|j: int| 0 <= j < tail.len() && tail[j] == '\\';
            assert(tail[j] == unicode_escape_of(c)[j + 1]);
        }
    }
    assert(e.drop_first() == tail + t);
    lemma_plain_prefix(tail, t, answers);
    assert(unicode_escape_of(c) == seq!['\\'] + tail);
}

/// A doubled backslash, after text without a backslash, is kept as it is
/// and never starts an escape.
pub proof fn doubled_backslash_starts_nothing(
    p: Seq<char>,
    t: Seq<char>,
    answers: Seq<Option<char>>,
)
    requires
        !p.contains('\\'),
    ensures
        decoded(p + seq!['\\', '\\'] + t, answers) == p + seq!['\\', '\\'] + decoded(
            t,
            answers,
        ),
{
    assert(p + seq!['\\', '\\'] + t == p + (seq!['\\', '\\'] + t));
    lemma_plain_prefix(p, seq!['\\', '\\'] + t, answers);
    assert((seq!['\\', '\\'] + t).skip(2) == t);
}

proof fn lemma_char_code_round_trips(c: char)
    ensures
        ((c as u32) as char) == c,
{
}

/// Every string, its control characters and carets written in caret
/// notation, decodes back to itself.
pub proof fn caret_notation_round_trips(s: Seq<char>)
    ensures
        caret_decoded(caret_encoded(s)) == s,
    decreases s.len(),
{
    if s.len() > 0 {
        let c = s[0];
        let rest = s.drop_first();
        caret_notation_round_trips(rest);
        let head = if (c as u32) < 0x20 {
            seq!['^', (c as u32 + 0x40) as char]
        } else if c == '^' {
            seq!['^', ' ']
        } else {
            seq![c]
        };
        let e = head + caret_encoded(rest);
        assert(caret_encoded(s) == e);
        if (c as u32) < 0x20 {
            let l = (c as u32 + 0x40) as char;
            assert(e.skip(2) == caret_encoded(rest));
            assert(e[0] == '^' && e[1] == l);
            assert(l as u32 == c as u32 + 0x40);
            assert(l as u32 - 0x40 == c as u32);
            lemma_char_code_round_trips(c);
            assert(((l as u32 - 0x40) as char) == c);
            assert(caret_decoded(e) == seq![c] + caret_decoded(caret_encoded(rest)));
        } else if c == '^' {
            assert(e.skip(2) == caret_encoded(rest));
            assert(e[0] == '^' && e[1] == ' ');
            assert(caret_decoded(e) == seq![c] + caret_decoded(caret_encoded(rest)));
        } else {
            assert(e.drop_first() == caret_encoded(rest));
            assert(e[0] == c);
            assert(caret_decoded(e) == seq![c] + caret_decoded(caret_encoded(rest)));
        }
        assert(s == seq![c] + rest);
    }
}

// ---------------------------------------------------------------------------
// Decoding twice.
// ---------------------------------------------------------------------------

/// `s` with its escapes undone by a decoder that gives the same answer to
/// the same question: `f`, asked the code page and the two bytes.
spec fn decoded_by(s: Seq<char>, f: spec_fn(u16, [u8; 2]) -> Option<char>) -> Seq<char>
    decreases s.len(),
{
    if s.len() == 0 {
        seq![]
    } else if s[0] != '\\' {
        seq![s[0]] + decoded_by(s.drop_first(), f)
    } else if s.len() >= 2 && s[1] == '\\' {
        seq!['\\', '\\'] + decoded_by(s.skip(2), f)
    } else if s.len() >= 2 && s[1] == 'U' && unicode_escape(s.skip(2)) is Some {
        seq![unicode_escape(s.skip(2))->0] + decoded_by(s.skip(7), f)
    } else if s.len() >= 2 && s[1] == 'M' && multibyte_query(s.skip(2)) is Some {
        let q = multibyte_query(s.skip(2))->0;
        let answer = f(q.0, [q.1, q.2]);
        if accepted(answer) {
            seq![answer->0] + decoded_by(s.skip(8), f)
        } else {
            s.take(8) + decoded_by(s.skip(8), f)
        }
    } else {
        seq!['\\'] + decoded_by(s.drop_first(), f)
    }
}

/// A character that can be part of an escape's digits: ASCII, and not the
/// backslash that starts one.
spec fn plain_ascii(c: char) -> bool {
    c != '\\' && (c as u32) < 0x80
}

/// Answers that `f` gives to the questions decoding `s` asks decode `s` as
/// `f` does.
proof fn lemma_answers_of_a_pure_decoder(
    s: Seq<char>,
    a: Seq<Option<char>>,
    f: spec_fn(u16, [u8; 2]) -> Option<char>,
)
    requires
        a.len() == escape_queries_of(s).len(),
        forall|i: int|
            0 <= i < a.len() ==> #[trigger] a[i] == f(
                escape_queries_of(s)[i].0,
                [escape_queries_of(s)[i].1, escape_queries_of(s)[i].2],
            ),
    ensures
        decoded(s, a) == decoded_by(s, f),
    decreases s.len(),
{
    if s.len() == 0 {
    } else if s[0] != '\\' {
        lemma_answers_of_a_pure_decoder(s.drop_first(), a, f);
    } else if s.len() >= 2 && s[1] == '\\' {
        lemma_answers_of_a_pure_decoder(s.skip(2), a, f);
    } else if s.len() >= 2 && s[1] == 'U' && unicode_escape(s.skip(2)) is Some {
        lemma_answers_of_a_pure_decoder(s.skip(7), a, f);
    } else if s.len() >= 2 && s[1] == 'M' && multibyte_query(s.skip(2)) is Some {
        let q = escape_queries_of(s);
        let later = escape_queries_of(s.skip(8));
        assert(q == seq![multibyte_query(s.skip(2))->0] + later);
        assert(a[0] == f(q[0].0, [q[0].1, q[0].2]));
        assert forall|i: int| 0 <= i < a.drop_first().len() implies #[trigger] a.drop_first()[i]
            == f(later[i].0, [later[i].1, later[i].2]) by {
            assert(a.drop_first()[i] == a[i + 1]);
            assert(q[i + 1] == later[i]);
        }
        lemma_answers_of_a_pure_decoder(s.skip(8), a.drop_first(), f);
    } else {
        lemma_answers_of_a_pure_decoder(s.drop_first(), a, f);
    }
}

/// What decoding writes as plain ASCII other than a backslash, the text had
/// there already: a prefix of such characters is the text's own.
proof fn lemma_plain_output_was_input(r: Seq<char>, f: spec_fn(u16, [u8; 2]) -> Option<char>, k: int)
    requires
        0 <= k <= decoded_by(r, f).len(),
        forall|i: int| 0 <= i < k ==> plain_ascii(#[trigger] decoded_by(r, f)[i]),
    ensures
        k <= r.len(),
        r.take(k) == decoded_by(r, f).take(k),
    decreases r.len(),
{
    let d = decoded_by(r, f);
    if k == 0 {
        assert(r.take(0) =~= d.take(0));
    } else if r[0] != '\\' {
        let rest = decoded_by(r.drop_first(), f);
        assert(d == seq![r[0]] + rest);
        assert forall|i: int| 0 <= i < k - 1 implies plain_ascii(#[trigger] rest[i]) by {
            assert(d[i + 1] == rest[i]);
        }
        lemma_plain_output_was_input(r.drop_first(), f, k - 1);
        assert(r.take(k) =~= seq![r[0]] + r.drop_first().take(k - 1));
        assert(d.take(k) =~= seq![r[0]] + rest.take(k - 1));
    } else {
        assert(plain_ascii(d[0]));
        if r.len() >= 2 && r[1] == 'U' && unicode_escape(r.skip(2)) is Some {
            let v = hex4(r.skip(2), 1)->0;
            assert(d[0] == v as char);
            assert((v as char) as u32 == v);
        } else if r.len() >= 2 && r[1] == 'M' && multibyte_query(r.skip(2)) is Some && !(r[1]
            == '\\') {
            let q = multibyte_query(r.skip(2))->0;
            let answer = f(q.0, [q.1, q.2]);
            if accepted(answer) {
                assert(d[0] == answer->0);
            } else {
                assert(d[0] == r.take(8)[0]);
            }
        }
    }
}

/// `\U` and `\M` read no further than the first five and six characters
/// after the escape's letter, all of them plain ASCII.
proof fn lemma_escape_digits_are_plain(x: Seq<char>, y: Seq<char>)
    ensures
        unicode_escape(x) is Some ==> x.len() >= 5 && forall|i: int|
            0 <= i < 5 ==> plain_ascii(#[trigger] x[i]),
        multibyte_query(x) is Some ==> x.len() >= 6 && forall|i: int|
            0 <= i < 6 ==> plain_ascii(#[trigger] x[i]),
        x.len() >= 5 && y.len() >= 5 && x.take(5) == y.take(5) ==> unicode_escape(x)
            == unicode_escape(y),
        x.len() >= 6 && y.len() >= 6 && x.take(6) == y.take(6) ==> multibyte_query(x)
            == multibyte_query(y),
{
    if x.len() >= 5 && y.len() >= 5 && x.take(5) == y.take(5) {
        assert forall|i: int| 0 <= i < 5 implies x[i] == y[i] by {
            assert(x.take(5)[i] == x[i] && y.take(5)[i] == y[i]);
        }
    }
    if x.len() >= 6 && y.len() >= 6 && x.take(6) == y.take(6) {
        assert forall|i: int| 0 <= i < 6 implies x[i] == y[i] by {
            assert(x.take(6)[i] == x[i] && y.take(6)[i] == y[i]);
        }
    }
}

/// A character that does not start an escape is kept, and decoding goes on
/// after it.
proof fn lemma_decoded_by_plain_head(c: char, t: Seq<char>, f: spec_fn(u16, [u8; 2]) -> Option<char>)
    requires
        c != '\\',
    ensures
        decoded_by(seq![c] + t, f) == seq![c] + decoded_by(t, f),
{
    let u = seq![c] + t;
    assert(u[0] == c);
    assert(u.drop_first() =~= t);
}

/// Decoding what a decoder that gives the same answer to the same question
/// decoded changes nothing.
proof fn lemma_decoded_by_twice(s: Seq<char>, f: spec_fn(u16, [u8; 2]) -> Option<char>)
    ensures
        decoded_by(decoded_by(s, f), f) == decoded_by(s, f),
    decreases s.len(),
{
    let d = decoded_by(s, f);
    if s.len() == 0 {
    } else if s[0] != '\\' {
        lemma_decoded_by_twice(s.drop_first(), f);
        lemma_decoded_by_plain_head(s[0], decoded_by(s.drop_first(), f), f);
    } else if s.len() >= 2 && s[1] == '\\' {
        lemma_decoded_by_twice(s.skip(2), f);
        let t = decoded_by(s.skip(2), f);
        let u = seq!['\\', '\\'] + t;
        assert(u[0] == '\\' && u[1] == '\\');
        assert(u.skip(2) =~= t);
    } else if s.len() >= 2 && s[1] == 'U' && unicode_escape(s.skip(2)) is Some {
        lemma_decoded_by_twice(s.skip(7), f);
        let v = hex4(s.skip(2), 1)->0;
        assert((v as char) as u32 == v);
        lemma_decoded_by_plain_head(unicode_escape(s.skip(2))->0, decoded_by(s.skip(7), f), f);
    } else if s.len() >= 2 && s[1] == 'M' && multibyte_query(s.skip(2)) is Some {
        lemma_decoded_by_twice(s.skip(8), f);
        let q = multibyte_query(s.skip(2))->0;
        let answer = f(q.0, [q.1, q.2]);
        let t = decoded_by(s.skip(8), f);
        if accepted(answer) {
            lemma_decoded_by_plain_head(answer->0, t, f);
        } else {
            let u = s.take(8) + t;
            assert(u[0] == '\\' && u[1] == 'M');
            assert(u.take(8) =~= s.take(8));
            assert(u.skip(8) =~= t);
            assert(u.skip(2).take(6) =~= s.skip(2).take(6));
            lemma_escape_digits_are_plain(u.skip(2), s.skip(2));
        }
    } else {
        let s1 = s.drop_first();
        lemma_decoded_by_twice(s1, f);
        let t = decoded_by(s1, f);
        let u = seq!['\\'] + t;
        assert(u[0] == '\\');
        assert(u.drop_first() =~= t);
        if s1.len() > 0 {
            assert(s1[0] == s[1]);
            assert(t == seq![s1[0]] + decoded_by(s1.drop_first(), f));
            let r = s1.drop_first();
            let dr = decoded_by(r, f);
            assert(r =~= s.skip(2));
            assert(u.skip(2) =~= dr);
            assert(u[1] == s[1]);
            if s[1] == 'U' && unicode_escape(dr) is Some {
                lemma_escape_digits_are_plain(dr, r);
                lemma_plain_output_was_input(r, f, 5);
                assert(r.take(5) =~= dr.take(5));
                lemma_escape_digits_are_plain(r, dr);
                assert(false);
            }
            if s[1] == 'M' && multibyte_query(dr) is Some {
                lemma_escape_digits_are_plain(dr, r);
                lemma_plain_output_was_input(r, f, 6);
                lemma_escape_digits_are_plain(r, dr);
                assert(false);
            }
        }
    }
}

/// Decoding a text's escapes a second time changes nothing, as long as the
/// code page decoder gives the same answer to the same question (`f`): what
/// an escape decodes to is a character outside ASCII, which neither starts
/// nor completes an escape, an escape the decoder left alone is left alone
/// again, and a doubled backslash stays doubled. `first` and `second` are
/// the decoder's answers to the questions of the first and of the second
/// decoding, as [`decode_escapes`] states them.
pub proof fn decoding_escapes_twice_decodes_once<F: Fn(u16, [u8; 2]) -> Option<char>>(
    mbcs: F,
    f: spec_fn(u16, [u8; 2]) -> Option<char>,
    s: Seq<char>,
    first: Seq<Option<char>>,
    second: Seq<Option<char>>,
)
    requires
        forall|codepage: u16, bytes: [u8; 2], answer: Option<char>|
            #[trigger] call_ensures(mbcs, (codepage, bytes), answer) ==> answer == f(
                codepage,
                bytes,
            ),
        answers_from(mbcs, escape_queries_of(s), first),
        answers_from(mbcs, escape_queries_of(decoded(s, first)), second),
    ensures
        decoded(decoded(s, first), second) == decoded(s, first),
{
    lemma_answers_of_a_pure_decoder(s, first, f);
    let once = decoded(s, first);
    lemma_answers_of_a_pure_decoder(once, second, f);
    lemma_decoded_by_twice(s, f);
}

// ---------------------------------------------------------------------------
// What a caret stands for.
// ---------------------------------------------------------------------------

/// Text without a caret before a caret notation is kept as it is, and the
/// notation after it is read on its own.
proof fn lemma_caretless_prefix(p: Seq<char>, x: Seq<char>)
    requires
        !p.contains('^'),
    ensures
        caret_decoded(p + x) == p + caret_decoded(x),
    decreases p.len(),
{
    if p.len() > 0 {
        let q = p.drop_first();
        assert(!q.contains('^')) by {
            if q.contains('^') {
                let j = choose|j: int| 0 <= j < q.len() && q[j] == '^';
                assert(p[j + 1] == '^');
            }
        }
        lemma_caretless_prefix(q, x);
        assert(p[0] != '^');
        assert((p + x)[0] == p[0]);
        assert((p + x).drop_first() =~= q + x);
        assert(p =~= seq![p[0]] + q);
    }
}

/// A caret followed by anything but a space or one of `@`, `A` to `Z`, `[`,
/// `\`, `]`, `^` and `_` -- a lower-case letter, a digit, another
/// punctuation mark -- is left as written: the caret stays, and reading goes
/// on at the character after it, which keeps its own meaning.
pub proof fn any_other_caret_is_left_as_written(p: Seq<char>, c: char, t: Seq<char>)
    requires
        !p.contains('^'),
        c != ' ',
        !(0x40 <= c as u32 && c as u32 <= 0x5F),
    ensures
        caret_decoded(p + seq!['^', c] + t) == p + seq!['^'] + caret_decoded(seq![c] + t),
{
    let x = seq!['^', c] + t;
    lemma_caretless_prefix(p, x);
    assert(p + seq!['^', c] + t =~= p + x);
    assert(x[0] == '^' && x[1] == c);
    assert(x.drop_first() =~= seq![c] + t);
}

/// A caret at the end of the text is left as written.
pub proof fn a_trailing_caret_is_left_as_written(p: Seq<char>)
    requires
        !p.contains('^'),
    ensures
        caret_decoded(p + seq!['^']) == p + seq!['^'],
{
    let x = seq!['^'];
    lemma_caretless_prefix(p, x);
    assert(x[0] == '^' && x.len() == 1);
    assert(x.drop_first() =~= Seq::<char>::empty());
    assert(caret_decoded(x.drop_first()) =~= Seq::<char>::empty());
    assert(caret_decoded(x) =~= seq!['^']);
}

/// `^` and a space is the caret itself, and `^` and one of `@`, `A` to
/// `Z`, `[`, `\`, `]`, `^` and `_` is the control character 0x40 below it
/// (`^@` is U+0000, `^J` a line feed, `^_` U+001F); both take the two
/// characters and reading goes on after them.
pub proof fn caret_notation_names_its_character(p: Seq<char>, c: char, t: Seq<char>)
    requires
        !p.contains('^'),
        c == ' ' || (0x40 <= c as u32 && c as u32 <= 0x5F),
    ensures
        c == ' ' ==> caret_decoded(p + seq!['^', c] + t) == p + seq!['^'] + caret_decoded(t),
        c != ' ' ==> caret_decoded(p + seq!['^', c] + t) == p + seq![(c as u32 - 0x40) as char]
            + caret_decoded(t),
        c != ' ' ==> (((c as u32 - 0x40) as char) as u32) < 0x20,
{
    let x = seq!['^', c] + t;
    lemma_caretless_prefix(p, x);
    assert(p + seq!['^', c] + t =~= p + x);
    assert(x[0] == '^' && x[1] == c);
    assert(x.skip(2) =~= t);
}

// ---------------------------------------------------------------------------
// What a `\M+` escape asks, and what it decodes to.
// ---------------------------------------------------------------------------

/// The value of the hexadecimal digit `c`: `0` to `9`, then `A` to `F` and
/// `a` to `f` for ten to fifteen.
pub open spec fn hex_value_of(c: char) -> int {
    let v = c as u32 as int;
    if v < 0x3A {
        v - 48
    } else if v < 0x47 {
        v - 55
    } else {
        v - 87
    }
}

/// `\M+nXXXX` with `n` from 1 to 5 and four hexadecimal digits puts one
/// question to the code page decoder, before those of the rest of the text:
/// the Windows code page `n` names -- 1 Japanese (932), 2 Traditional
/// Chinese (950), 3 Korean (949), 4 Korean Johab (1361), 5 Simplified
/// Chinese (936) -- and the character's two bytes, `XX` and `XX`, high
/// first.
pub proof fn a_multibyte_escape_asks_its_code_page(
    p: Seq<char>,
    n: char,
    h: Seq<char>,
    t: Seq<char>,
)
    requires
        !p.contains('\\'),
        '1' <= n <= '5',
        h.len() == 4,
        forall|i: int| 0 <= i < 4 ==> is_hex_digit(#[trigger] h[i]),
    ensures
        ({
            let q = escape_queries_of(p + seq!['\\', 'M', '+', n] + h + t);
            &&& q.len() == escape_queries_of(t).len() + 1
            &&& q.drop_first() == escape_queries_of(t)
            &&& n == '1' ==> q[0].0 == 932
            &&& n == '2' ==> q[0].0 == 950
            &&& n == '3' ==> q[0].0 == 949
            &&& n == '4' ==> q[0].0 == 1361
            &&& n == '5' ==> q[0].0 == 936
            &&& q[0].1 == hex_value_of(h[0]) * 16 + hex_value_of(h[1])
            &&& q[0].2 == hex_value_of(h[2]) * 16 + hex_value_of(h[3])
        }),
{
    let s = seq!['\\', 'M', '+', n] + h + t;
    lemma_plain_prefix(p, s, seq![]);
    assert(p + seq!['\\', 'M', '+', n] + h + t =~= p + s);
    lemma_multibyte_escape(n, h, t);
    assert(s.len() >= 8 && s[0] == '\\' && s[1] == 'M');
    assert(escape_queries_of(s) == seq![multibyte_query(s.skip(2))->0] + escape_queries_of(s.skip(8)));
    assert(escape_queries_of(s).drop_first() =~= escape_queries_of(t));
    assert(0 <= hex_value_of(h[0]) < 16 && 0 <= hex_value_of(h[1]) < 16);
    assert(0 <= hex_value_of(h[2]) < 16 && 0 <= hex_value_of(h[3]) < 16);
}

/// `\M+nXXXX` decodes to the decoder's answer when that is a character
/// outside ASCII, and is otherwise left as written; either way it takes one
/// answer, and the rest of the text is decoded with the answers after it.
pub proof fn a_multibyte_escape_decodes_to_its_answer(
    p: Seq<char>,
    n: char,
    h: Seq<char>,
    t: Seq<char>,
    answers: Seq<Option<char>>,
)
    requires
        !p.contains('\\'),
        '1' <= n <= '5',
        h.len() == 4,
        forall|i: int| 0 <= i < 4 ==> is_hex_digit(#[trigger] h[i]),
        answers.len() > 0,
    ensures
        (answers[0] matches Some(c) && c as u32 >= 0x80) ==> decoded(
            p + seq!['\\', 'M', '+', n] + h + t,
            answers,
        ) == p + seq![answers[0]->0] + decoded(t, answers.drop_first()),
        !(answers[0] matches Some(c) && c as u32 >= 0x80) ==> decoded(
            p + seq!['\\', 'M', '+', n] + h + t,
            answers,
        ) == p + seq!['\\', 'M', '+', n] + h + decoded(t, answers.drop_first()),
{
    let s = seq!['\\', 'M', '+', n] + h + t;
    lemma_plain_prefix(p, s, answers);
    assert(p + seq!['\\', 'M', '+', n] + h + t =~= p + s);
    lemma_multibyte_escape(n, h, t);
    assert(s.take(8) =~= seq!['\\', 'M', '+', n] + h);
}

/// How `\M+nXXXX` before `t` is read.
proof fn lemma_multibyte_escape(n: char, h: Seq<char>, t: Seq<char>)
    requires
        '1' <= n <= '5',
        h.len() == 4,
        forall|i: int| 0 <= i < 4 ==> is_hex_digit(#[trigger] h[i]),
    ensures
        ({
            let s = seq!['\\', 'M', '+', n] + h + t;
            &&& s[0] == '\\' && s[1] == 'M'
            &&& s.skip(8) == t
            &&& multibyte_query(s.skip(2)) is Some
            &&& forall|i: int| 0 <= i < 4 ==> 0 <= #[trigger] hex_value_of(h[i]) < 16
            &&& n == '1' ==> multibyte_query(s.skip(2)) == Some((932u16, (hex_value_of(h[0]) * 16 + hex_value_of(h[1])) as u8, (hex_value_of(h[2]) * 16 + hex_value_of(h[3])) as u8))
            &&& n == '2' ==> multibyte_query(s.skip(2)) == Some((950u16, (hex_value_of(h[0]) * 16 + hex_value_of(h[1])) as u8, (hex_value_of(h[2]) * 16 + hex_value_of(h[3])) as u8))
            &&& n == '3' ==> multibyte_query(s.skip(2)) == Some((949u16, (hex_value_of(h[0]) * 16 + hex_value_of(h[1])) as u8, (hex_value_of(h[2]) * 16 + hex_value_of(h[3])) as u8))
            &&& n == '4' ==> multibyte_query(s.skip(2)) == Some((1361u16, (hex_value_of(h[0]) * 16 + hex_value_of(h[1])) as u8, (hex_value_of(h[2]) * 16 + hex_value_of(h[3])) as u8))
            &&& n == '5' ==> multibyte_query(s.skip(2)) == Some((936u16, (hex_value_of(h[0]) * 16 + hex_value_of(h[1])) as u8, (hex_value_of(h[2]) * 16 + hex_value_of(h[3])) as u8))
        }),
{
    let s = seq!['\\', 'M', '+', n] + h + t;
    let r = s.skip(2);
    assert(s.skip(8) =~= t);
    assert(r[0] == '+' && r[1] == n);
    assert(r[2] == h[0] && r[3] == h[1] && r[4] == h[2] && r[5] == h[3]);
    assert forall|i: int| 0 <= i < 4 implies hex_digit_value(#[trigger] h[i]) == hex_value_of(h[i])
        && 0 <= hex_value_of(h[i]) < 16 by {
        assert(is_hex_digit(h[i]));
    }
    let a = hex_value_of(h[0]);
    let b = hex_value_of(h[1]);
    let c = hex_value_of(h[2]);
    let d = hex_value_of(h[3]);
    assert(hex_digit_value(h[0]) == a && hex_digit_value(h[1]) == b);
    assert(hex_digit_value(h[2]) == c && hex_digit_value(h[3]) == d);
    let v = a * 4096 + b * 256 + c * 16 + d;
    assert(hex4(r, 2) == Some(v));
    assert(v / 256 == a * 16 + b && v % 256 == c * 16 + d) by (nonlinear_arith)
        requires
            v == a * 4096 + b * 256 + c * 16 + d,
            0 <= a < 16,
            0 <= b < 16,
            0 <= c < 16,
            0 <= d < 16,
    ;
}

} // verus!
