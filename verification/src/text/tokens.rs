//! A drawing's text, split into what its codes say.
//!
//! The model carries text with the codes the text itself is written in:
//! TEXT, ATTRIB, ATTDEF and a dimension's text use percent codes (`%%d` for
//! a degree sign), and MTEXT adds its own backslash codes (`\P` for a
//! paragraph break, `\S1#2;` for stacked text). What each code *means* is
//! fixed by the format; what to do with it -- draw it, drop it, compare text
//! without it -- is each consumer's choice. So the splitting lives here,
//! once, and the choosing stays with the consumer: a renderer draws a
//! [`Token::Special`] as its sign, a search compares text by its
//! [`Token::Char`]s.
//!
//! The split is one pass: what one code produces is never read again as
//! another, and nothing of the text is lost -- a code this module does not
//! know, or one left unclosed, is a [`Token::Unknown`] carrying the text it
//! covers.

use crate::chars::chars_of;
use vstd::prelude::*;
use vstd::string::StrSliceExecFns;

verus! {

/// Which codes a string is written in.
#[derive(Debug, Clone, Copy, PartialEq, Eq, Structural)]
pub enum TextKind {
    /// TEXT, ATTRIB, ATTDEF, a dimension's text, a tolerance frame's text:
    /// percent codes only. A backslash is a character.
    Line,
    /// MTEXT: percent codes and MTEXT's backslash codes and `{}` groups.
    MText,
}

/// One piece of a text.
#[derive(Debug, Clone, Copy, PartialEq, Eq)]
pub enum Token<'a> {
    /// A character of the text -- including one MTEXT writes escaped
    /// (`\\`, `\{`, `\}`) and a line feed (a tolerance frame's line break).
    Char(char),
    /// `%%d`, `%%p`, `%%c`: a sign the format names.
    Special(Special),
    /// `%%nnn`: the character with that three-digit code in the text's font.
    /// Which glyph that is depends on the font -- the standard shape fonts
    /// keep the degree, plus-minus and diameter signs at 127 to 129.
    CharCode(u16),
    /// `%%u` / `%%o`, and MTEXT's `\L` `\l` `\O` `\o` `\K` `\k`: a switch of
    /// how the text is drawn.
    Toggle(Toggle),
    /// MTEXT's `\P` (paragraph), `\N` (column), `\X` (a dimension text's
    /// split above and below its line).
    Break(Break),
    /// MTEXT's `\~`.
    NonBreakingSpace,
    /// MTEXT's `\S…;`: two parts stacked, with the separator the text wrote
    /// (`^` tolerance, `/` fraction bar, `#` diagonal bar).
    Stack { top: &'a str, bottom: &'a str, separator: char },
    /// MTEXT's `\S…;` with no separator in it: the text as written.
    StackUnsplit(&'a str),
    /// An MTEXT code that sets a value until the next `;` -- `\A1;`,
    /// `\H2.5x;`, `\fArial|b1;` -- as its letter and its value.
    Property { code: char, value: &'a str },
    /// MTEXT's `{` and `}`: a group that bounds what the codes inside set.
    GroupStart,
    GroupEnd,
    /// Anything that looks like a code but is not one this module reads, or
    /// is not closed: the text it covers, as written.
    Unknown(&'a str),
}

/// A sign a percent code names.
#[derive(Debug, Clone, Copy, PartialEq, Eq, Structural)]
pub enum Special {
    /// `%%d`.
    Degree,
    /// `%%p`.
    PlusMinus,
    /// `%%c`.
    Diameter,
}

/// A drawing switch.
#[derive(Debug, Clone, Copy, PartialEq, Eq, Structural)]
pub enum Toggle {
    /// `%%u` (flips), `\L` (on), `\l` (off).
    Underline(Switch),
    /// `%%o` (flips), `\O` (on), `\o` (off).
    Overline(Switch),
    /// `\K` (on), `\k` (off).
    StrikeThrough(Switch),
}

/// How a toggle sets its switch.
#[derive(Debug, Clone, Copy, PartialEq, Eq, Structural)]
pub enum Switch {
    On,
    Off,
    /// A percent code flips whatever the state is.
    Flip,
}

/// A line break MTEXT writes.
#[derive(Debug, Clone, Copy, PartialEq, Eq, Structural)]
pub enum Break {
    Paragraph,
    Column,
    /// `\X`: in a dimension's text, what follows goes below the line.
    DimensionLine,
}

// ---------------------------------------------------------------------------
// The model of the split.
// ---------------------------------------------------------------------------

/// An ASCII decimal digit.
pub open spec fn is_digit(c: char) -> bool {
    0x30 <= c as u32 && c as u32 <= 0x39
}

/// The position of the first `c` in `s`, or `-1` when there is none.
pub open spec fn index_of(s: Seq<char>, c: char) -> int
    decreases s.len(),
{
    if s.len() == 0 {
        -1
    } else if s[0] == c {
        0
    } else if index_of(s.drop_first(), c) < 0 {
        -1
    } else {
        index_of(s.drop_first(), c) + 1
    }
}

/// A stack separator: `^`, `/` or `#`.
pub open spec fn is_separator(c: char) -> bool {
    c == '^' || c == '/' || c == '#'
}

/// The position of the first stack separator in `s`, or `-1`.
pub open spec fn separator_index(s: Seq<char>) -> int
    decreases s.len(),
{
    if s.len() == 0 {
        -1
    } else if is_separator(s[0]) {
        0
    } else if separator_index(s.drop_first()) < 0 {
        -1
    } else {
        separator_index(s.drop_first()) + 1
    }
}

/// The percent code at the start of `s` (which starts with `%%`): the
/// characters it covers.
pub open spec fn percent_len(s: Seq<char>) -> int {
    if s.len() < 3 {
        2
    } else {
        let d = s[2];
        if d == 'd' || d == 'D' || d == 'p' || d == 'P' || d == 'c' || d == 'C' || d == '%' || d
            == 'u' || d == 'U' || d == 'o' || d == 'O' {
            3
        } else if s.len() >= 5 && is_digit(s[2]) && is_digit(s[3]) && is_digit(s[4]) {
            5
        } else {
            2
        }
    }
}

/// The number three decimal digits at `s[i..i + 3]` write.
pub open spec fn digits3(s: Seq<char>, i: int) -> int {
    (s[i] as u32 - 0x30) * 100 + (s[i + 1] as u32 - 0x30) * 10 + (s[i + 2] as u32 - 0x30)
}

/// `t` is the token of the percent code at the start of `s`.
pub open spec fn is_percent_token<'a>(s: Seq<char>, t: Token<'a>) -> bool {
    if s.len() < 3 {
        t matches Token::Unknown(u) && u@ == s.take(2)
    } else {
        let d = s[2];
        if d == 'd' || d == 'D' {
            t == Token::Special(Special::Degree)
        } else if d == 'p' || d == 'P' {
            t == Token::Special(Special::PlusMinus)
        } else if d == 'c' || d == 'C' {
            t == Token::Special(Special::Diameter)
        } else if d == '%' {
            t == Token::Char('%')
        } else if d == 'u' || d == 'U' {
            t == Token::Toggle(Toggle::Underline(Switch::Flip))
        } else if d == 'o' || d == 'O' {
            t == Token::Toggle(Toggle::Overline(Switch::Flip))
        } else if s.len() >= 5 && is_digit(s[2]) && is_digit(s[3]) && is_digit(s[4]) {
            t == Token::CharCode(digits3(s, 2) as u16)
        } else {
            t matches Token::Unknown(u) && u@ == s.take(2)
        }
    }
}

/// A backslash code MTEXT reads from its letter alone.
pub open spec fn is_simple_code(c: char) -> bool {
    c == 'P' || c == 'N' || c == 'X' || c == '~' || c == '\\' || c == '{' || c == '}' || c == 'L'
        || c == 'l' || c == 'O' || c == 'o' || c == 'K' || c == 'k'
}

/// `t` is the token of the simple backslash code with letter `c`.
pub open spec fn is_simple_token<'a>(c: char, t: Token<'a>) -> bool {
    if c == 'P' {
        t == Token::Break(Break::Paragraph)
    } else if c == 'N' {
        t == Token::Break(Break::Column)
    } else if c == 'X' {
        t == Token::Break(Break::DimensionLine)
    } else if c == '~' {
        t == Token::NonBreakingSpace
    } else if c == '\\' || c == '{' || c == '}' {
        t == Token::Char(c)
    } else if c == 'L' {
        t == Token::Toggle(Toggle::Underline(Switch::On))
    } else if c == 'l' {
        t == Token::Toggle(Toggle::Underline(Switch::Off))
    } else if c == 'O' {
        t == Token::Toggle(Toggle::Overline(Switch::On))
    } else if c == 'o' {
        t == Token::Toggle(Toggle::Overline(Switch::Off))
    } else if c == 'K' {
        t == Token::Toggle(Toggle::StrikeThrough(Switch::On))
    } else {
        t == Token::Toggle(Toggle::StrikeThrough(Switch::Off))
    }
}

/// A backslash code whose value runs to the next `;`.
pub open spec fn is_value_code(c: char) -> bool {
    c == 'S' || c == 'A' || c == 'C' || c == 'c' || c == 'F' || c == 'f' || c == 'H' || c == 'Q'
        || c == 'T' || c == 'W' || c == 'p'
}

/// The backslash code at the start of `s` (which starts with `\`): the
/// characters it covers.
pub open spec fn backslash_len(s: Seq<char>) -> int {
    if s.len() < 2 {
        1
    } else if is_simple_code(s[1]) {
        2
    } else if is_value_code(s[1]) && index_of(s.skip(2), ';') >= 0 {
        2 + index_of(s.skip(2), ';') + 1
    } else {
        2
    }
}

/// `t` is the token of the backslash code at the start of `s`.
pub open spec fn is_backslash_token<'a>(s: Seq<char>, t: Token<'a>) -> bool {
    if s.len() < 2 {
        t matches Token::Unknown(u) && u@ == s.take(1)
    } else if is_simple_code(s[1]) {
        is_simple_token(s[1], t)
    } else if is_value_code(s[1]) && index_of(s.skip(2), ';') >= 0 {
        let value = s.subrange(2, 2 + index_of(s.skip(2), ';'));
        if s[1] != 'S' {
            t matches Token::Property { code, value: v } && code == s[1] && v@ == value
        } else if separator_index(value) >= 0 {
            let at = separator_index(value);
            t matches Token::Stack { top, bottom, separator } && top@ == value.take(at)
                && bottom@ == value.skip(at + 1) && separator == value[at]
        } else {
            t matches Token::StackUnsplit(v) && v@ == value
        }
    } else {
        t matches Token::Unknown(u) && u@ == s.take(2)
    }
}

/// How many characters the first token of `s` (not empty) covers.
pub open spec fn token_len(s: Seq<char>, kind: TextKind) -> int {
    if s.len() >= 2 && s[0] == '%' && s[1] == '%' {
        percent_len(s)
    } else if kind == TextKind::MText && s[0] == '\\' {
        backslash_len(s)
    } else {
        1
    }
}

/// `t` is the first token of `s` (not empty).
pub open spec fn is_first_token<'a>(s: Seq<char>, kind: TextKind, t: Token<'a>) -> bool {
    if s.len() >= 2 && s[0] == '%' && s[1] == '%' {
        is_percent_token(s, t)
    } else if kind == TextKind::MText && s[0] == '\\' {
        is_backslash_token(s, t)
    } else if kind == TextKind::MText && s[0] == '{' {
        t == Token::GroupStart
    } else if kind == TextKind::MText && s[0] == '}' {
        t == Token::GroupEnd
    } else {
        t == Token::Char(s[0])
    }
}

/// `toks` are the tokens of `s`, in order.
pub open spec fn tokenizes<'a>(s: Seq<char>, kind: TextKind, toks: Seq<Token<'a>>) -> bool
    decreases s.len(),
{
    if s.len() == 0 {
        toks.len() == 0
    } else if token_len(s, kind) < 1 || token_len(s, kind) > s.len() {
        false
    } else {
        &&& toks.len() > 0
        &&& is_first_token(s, kind, toks[0])
        &&& tokenizes(s.skip(token_len(s, kind)), kind, toks.drop_first())
    }
}

/// The pieces of `s` its tokens cover, in order.
pub open spec fn pieces(s: Seq<char>, kind: TextKind) -> Seq<Seq<char>>
    decreases s.len(),
{
    if s.len() == 0 {
        seq![]
    } else if token_len(s, kind) < 1 || token_len(s, kind) > s.len() {
        seq![s]
    } else {
        seq![s.take(token_len(s, kind))] + pieces(s.skip(token_len(s, kind)), kind)
    }
}

proof fn lemma_index_of(s: Seq<char>, c: char)
    ensures
        -1 <= index_of(s, c) < s.len(),
        index_of(s, c) >= 0 ==> s[index_of(s, c)] == c,
        forall|j: int| 0 <= j < s.len() && (index_of(s, c) < 0 || j < index_of(s, c)) ==> s[j] != c,
    decreases s.len(),
{
    if s.len() > 0 {
        lemma_index_of(s.drop_first(), c);
        assert forall|j: int|
            0 <= j < s.len() && (index_of(s, c) < 0 || j < index_of(s, c)) implies s[j] != c by {
            if j > 0 {
                assert(s[j] == s.drop_first()[j - 1]);
            }
        }
    }
}

proof fn lemma_separator_index(s: Seq<char>)
    ensures
        -1 <= separator_index(s) < s.len(),
        separator_index(s) >= 0 ==> is_separator(s[separator_index(s)]),
    decreases s.len(),
{
    if s.len() > 0 {
        lemma_separator_index(s.drop_first());
    }
}

/// Every token covers at least one character and no more than are left.
pub proof fn lemma_token_len(s: Seq<char>, kind: TextKind)
    requires
        s.len() > 0,
    ensures
        1 <= token_len(s, kind) <= s.len(),
{
    lemma_index_of(s.skip(2), ';');
}

/// Nothing of a text is lost and nothing is read twice: the pieces its
/// tokens cover are not empty and, put back together in order, are the
/// text. Any split of the text has one token per piece, and a token this
/// module does not read carries the piece it covers, as written.
pub proof fn tokens_cover_the_text<'a>(s: Seq<char>, kind: TextKind, toks: Seq<Token<'a>>)
    ensures
        pieces(s, kind).flatten() == s,
        forall|i: int| 0 <= i < pieces(s, kind).len() ==> #[trigger] pieces(s, kind)[i].len() >= 1,
        tokenizes(s, kind, toks) ==> toks.len() == pieces(s, kind).len(),
        tokenizes(s, kind, toks) ==> forall|i: int|
            0 <= i < toks.len() ==> (#[trigger] toks[i] matches Token::Unknown(u) ==> u@ == pieces(
                s,
                kind,
            )[i]),
        tokenizes(s, kind, toks) ==> forall|i: int|
            0 <= i < toks.len() ==> (#[trigger] toks[i] matches Token::Char(c) ==> char_piece(
                c,
                pieces(s, kind)[i],
                kind,
            )),
    decreases s.len(),
{
    if s.len() > 0 {
        lemma_token_len(s, kind);
        let n = token_len(s, kind);
        let rest = s.skip(n);
        let rest_toks = if toks.len() > 0 {
            toks.drop_first()
        } else {
            toks
        };
        tokens_cover_the_text(rest, kind, rest_toks);
        let p = pieces(s, kind);
        assert(p == seq![s.take(n)] + pieces(rest, kind));
        assert(p.drop_first() == pieces(rest, kind));
        assert(p.first() == s.take(n));
        assert(s.take(n) + rest == s);
        assert forall|i: int| 0 <= i < p.len() implies #[trigger] p[i].len() >= 1 by {
            if i > 0 {
                assert(p[i] == pieces(rest, kind)[i - 1]);
            }
        }
        if tokenizes(s, kind, toks) {
            assert forall|i: int| 0 <= i < toks.len() implies (#[trigger] toks[i] matches Token::Unknown(u) ==> u@ == p[i]) by {
                if i > 0 {
                    assert(toks[i] == rest_toks[i - 1]);
                    assert(p[i] == pieces(rest, kind)[i - 1]);
                } else {
                    lemma_unknown_carries_its_piece(s, kind, toks[0]);
                }
            }
            assert forall|i: int| 0 <= i < toks.len() implies (#[trigger] toks[i] matches Token::Char(c) ==> char_piece(c, p[i], kind)) by {
                if i > 0 {
                    assert(toks[i] == rest_toks[i - 1]);
                    assert(p[i] == pieces(rest, kind)[i - 1]);
                } else {
                    lemma_char_comes_from_its_piece(s, kind, toks[0]);
                }
            }
        }
    }
}

/// The pieces a character token can come from: the character itself, the
/// escaped percent sign `%%%`, and in MTEXT the escaped backslash and braces
/// `\\`, `\{` and `\}`.
pub open spec fn char_piece(c: char, piece: Seq<char>, kind: TextKind) -> bool {
    ||| piece == seq![c]
    ||| (c == '%' && piece == seq!['%', '%', '%'])
    ||| (kind == TextKind::MText && (c == '\\' || c == '{' || c == '}') && piece == seq!['\\', c])
}

/// A character first token comes from one of the pieces [`char_piece`] names.
proof fn lemma_char_comes_from_its_piece<'a>(s: Seq<char>, kind: TextKind, t: Token<'a>)
    requires
        s.len() > 0,
        is_first_token(s, kind, t),
    ensures
        t matches Token::Char(c) ==> char_piece(c, s.take(token_len(s, kind)), kind),
{
    lemma_index_of(s.skip(2), ';');
    if let Token::Char(c) = t {
        let n = token_len(s, kind);
        if s.len() >= 2 && s[0] == '%' && s[1] == '%' {
            assert(s.take(n) =~= seq!['%', '%', '%']);
        } else if kind == TextKind::MText && s[0] == '\\' {
            assert(s.take(n) =~= seq!['\\', c]);
        } else {
            assert(s.take(n) =~= seq![c]);
        }
    }
}

/// An unknown first token carries the characters its token covers.
proof fn lemma_unknown_carries_its_piece<'a>(s: Seq<char>, kind: TextKind, t: Token<'a>)
    requires
        s.len() > 0,
        is_first_token(s, kind, t),
    ensures
        t matches Token::Unknown(u) ==> u@ == s.take(token_len(s, kind)),
{
}

/// Whether `s` holds no percent code: no `%` is followed by another.
pub open spec fn has_no_percent_code(s: Seq<char>) -> bool {
    forall|i: int| 0 <= i < s.len() - 1 ==> !(#[trigger] s[i] == '%' && s[i + 1] == '%')
}

/// Outside MTEXT a backslash, a brace, a lone `%` and every other
/// character but a percent code is a character: text without `%%` in it
/// splits into one [`Token::Char`] per character.
pub proof fn line_text_is_its_characters<'a>(s: Seq<char>, toks: Seq<Token<'a>>)
    requires
        has_no_percent_code(s),
        tokenizes(s, TextKind::Line, toks),
    ensures
        toks.len() == s.len(),
        forall|i: int| 0 <= i < s.len() ==> toks[i] == Token::Char(s[i]),
    decreases s.len(),
{
    if s.len() > 0 {
        assert(!(s.len() >= 2 && s[0] == '%' && s[1] == '%')) by {
            if s.len() >= 2 {
                assert(!(s[0] == '%' && s[1] == '%'));
            }
        }
        let rest = s.drop_first();
        assert(has_no_percent_code(rest)) by {
            assert forall|i: int| 0 <= i < rest.len() - 1 implies !(#[trigger] rest[i] == '%' && rest[i
                + 1] == '%') by {
                assert(rest[i] == s[i + 1] && rest[i + 1] == s[i + 2]);
                assert(!(s[i + 1] == '%' && s[i + 2] == '%'));
            }
        }
        assert(token_len(s, TextKind::Line) == 1);
        assert(s.skip(1) == rest);
        line_text_is_its_characters(rest, toks.drop_first());
        assert forall|i: int| 0 <= i < s.len() implies toks[i] == Token::Char(s[i]) by {
            if i > 0 {
                assert(toks[i] == toks.drop_first()[i - 1]);
                assert(s[i] == rest[i - 1]);
            }
        }
    }
}

// ---------------------------------------------------------------------------
// What an MTEXT code with a value covers.
// ---------------------------------------------------------------------------

/// The first `;` after a value without one is the one that ends it.
proof fn lemma_semicolon_after_value(v: Seq<char>, t: Seq<char>)
    requires
        !v.contains(';'),
    ensures
        index_of(v + seq![';'] + t, ';') == v.len(),
    decreases v.len(),
{
    let s = v + seq![';'] + t;
    if v.len() == 0 {
        assert(s[0] == ';');
    } else {
        let w = v.drop_first();
        assert(!w.contains(';')) by {
            if w.contains(';') {
                let j = choose|j: int| 0 <= j < w.len() && w[j] == ';';
                assert(v[j + 1] == ';');
            }
        }
        lemma_semicolon_after_value(w, t);
        assert(v[0] != ';');
        assert(s[0] == v[0]);
        assert(s.drop_first() =~= w + seq![';'] + t);
    }
}

/// In MTEXT, `\A`, `\C` (colour), `\c` (true colour), `\F` and `\f` (font),
/// `\H` (height), `\Q` (obliquing), `\T` (tracking), `\W` (width) and `\p`
/// (paragraph) set a value that runs to the next `;`: the code, its value
/// and the `;` are one token, the property with that letter and that value
/// -- `\C1;` is colour 1 -- and the text after the `;` is read on its own.
pub proof fn a_value_code_runs_to_its_semicolon<'a>(
    code: char,
    v: Seq<char>,
    t: Seq<char>,
    tok: Token<'a>,
)
    requires
        code == 'A' || code == 'C' || code == 'c' || code == 'F' || code == 'f' || code == 'H'
            || code == 'Q' || code == 'T' || code == 'W' || code == 'p',
        !v.contains(';'),
    ensures
        token_len(seq!['\\', code] + v + seq![';'] + t, TextKind::MText) == v.len() + 3,
        (seq!['\\', code] + v + seq![';'] + t).skip(v.len() + 3int) == t,
        is_first_token(seq!['\\', code] + v + seq![';'] + t, TextKind::MText, tok) <==> (
        tok matches Token::Property { code: k, value } && k == code && value@ == v),
{
    lemma_value_code(code, v, t);
}

/// In MTEXT, `\S` stacks the value that runs to the next `;`: the code, the
/// value and the `;` are one token, split at its separator or, without one,
/// the value as written.
pub proof fn a_stack_runs_to_its_semicolon<'a>(v: Seq<char>, t: Seq<char>, tok: Token<'a>)
    requires
        !v.contains(';'),
    ensures
        token_len(seq!['\\', 'S'] + v + seq![';'] + t, TextKind::MText) == v.len() + 3,
        is_first_token(seq!['\\', 'S'] + v + seq![';'] + t, TextKind::MText, tok) ==> (
        tok is Stack || tok is StackUnsplit),
        is_first_token(seq!['\\', 'S'] + v + seq![';'] + t, TextKind::MText, tok) && tok is StackUnsplit ==> tok->StackUnsplit_0@ == v,
{
    lemma_value_code('S', v, t);
}

/// How `\` and a value code, a value without `;`, and a `;` are read.
proof fn lemma_value_code(code: char, v: Seq<char>, t: Seq<char>)
    requires
        is_value_code(code),
        !is_simple_code(code),
        !v.contains(';'),
    ensures
        ({
            let s = seq!['\\', code] + v + seq![';'] + t;
            &&& token_len(s, TextKind::MText) == v.len() + 3
            &&& s.skip(v.len() + 3int) == t
            &&& index_of(s.skip(2), ';') == v.len()
            &&& s.subrange(2, 2 + v.len() as int) == v
        }),
{
    let s = seq!['\\', code] + v + seq![';'] + t;
    assert(s.skip(2) =~= v + seq![';'] + t);
    lemma_semicolon_after_value(v, t);
    assert(s[0] == '\\' && s[1] == code);
    assert(s.subrange(2, 2 + v.len() as int) =~= v);
    assert(s.skip(v.len() + 3int) =~= t);
}

/// No MTEXT code but the ones that read a value runs to a `;`: `\` and any
/// other letter that is not one of the codes read from their letter alone
/// (`\P`, `\N`, `\X`, `\L`, `\l`, `\O`, `\o`, `\K`, `\k`) is not a code,
/// and the two characters are kept as written, whatever follows them.
pub proof fn other_letters_start_no_code<'a>(code: char, rest: Seq<char>, tok: Token<'a>)
    requires
        ('A' <= code <= 'Z') || ('a' <= code <= 'z'),
        !(code == 'S' || code == 'A' || code == 'C' || code == 'c' || code == 'F' || code == 'f'
            || code == 'H' || code == 'Q' || code == 'T' || code == 'W' || code == 'p'),
        !(code == 'P' || code == 'N' || code == 'X' || code == 'L' || code == 'l' || code == 'O'
            || code == 'o' || code == 'K' || code == 'k'),
    ensures
        token_len(seq!['\\', code] + rest, TextKind::MText) == 2,
        is_first_token(seq!['\\', code] + rest, TextKind::MText, tok) <==> (
        tok matches Token::Unknown(u) && u@ == seq!['\\', code]),
{
    let s = seq!['\\', code] + rest;
    assert(s[0] == '\\' && s[1] == code);
    assert(s.take(2) =~= seq!['\\', code]);
}

// ---------------------------------------------------------------------------
// What the percent codes and MTEXT's one-letter codes say.
// ---------------------------------------------------------------------------

/// In any text, `%%d` is the degree sign, `%%p` plus-minus, `%%c` the
/// diameter sign (each letter in either case), `%%%` a percent sign, and
/// `%%u` and `%%o` flip underlining and overlining; each is one token of
/// three characters, and the text after it is read on its own.
pub proof fn percent_codes_name_their_signs<'a>(
    d: char,
    t: Seq<char>,
    kind: TextKind,
    tok: Token<'a>,
)
    ensures
        ({
            let s = seq!['%', '%', d] + t;
            &&& (d == 'd' || d == 'D') ==> token_len(s, kind) == 3 && (is_first_token(s, kind, tok)
                <==> tok == Token::Special(Special::Degree))
            &&& (d == 'p' || d == 'P') ==> token_len(s, kind) == 3 && (is_first_token(s, kind, tok)
                <==> tok == Token::Special(Special::PlusMinus))
            &&& (d == 'c' || d == 'C') ==> token_len(s, kind) == 3 && (is_first_token(s, kind, tok)
                <==> tok == Token::Special(Special::Diameter))
            &&& d == '%' ==> token_len(s, kind) == 3 && (is_first_token(s, kind, tok) <==> tok
                == Token::Char('%'))
            &&& (d == 'u' || d == 'U') ==> token_len(s, kind) == 3 && (is_first_token(s, kind, tok)
                <==> tok == Token::Toggle(Toggle::Underline(Switch::Flip)))
            &&& (d == 'o' || d == 'O') ==> token_len(s, kind) == 3 && (is_first_token(s, kind, tok)
                <==> tok == Token::Toggle(Toggle::Overline(Switch::Flip)))
            &&& s.skip(3) == t
        }),
{
    let s = seq!['%', '%', d] + t;
    assert(s[0] == '%' && s[1] == '%' && s[2] == d);
    assert(s.skip(3) =~= t);
}

/// In any text, `%%` and three decimal digits is the character with that
/// code, one token of five characters.
pub proof fn a_percent_number_is_its_character_code<'a>(
    a: char,
    b: char,
    c: char,
    t: Seq<char>,
    kind: TextKind,
    tok: Token<'a>,
)
    requires
        '0' <= a <= '9',
        '0' <= b <= '9',
        '0' <= c <= '9',
    ensures
        token_len(seq!['%', '%', a, b, c] + t, kind) == 5,
        (seq!['%', '%', a, b, c] + t).skip(5) == t,
        is_first_token(seq!['%', '%', a, b, c] + t, kind, tok) <==> tok == Token::CharCode(
            ((a as u32 - 48) * 100 + (b as u32 - 48) * 10 + (c as u32 - 48)) as u16,
        ),
{
    let s = seq!['%', '%', a, b, c] + t;
    assert(s[0] == '%' && s[1] == '%' && s[2] == a && s[3] == b && s[4] == c);
    assert(s.skip(5) =~= t);
}

/// In MTEXT, `\P` is a paragraph break, `\N` a column break, `\X` the break
/// of a dimension's text below its line, `\~` a non-breaking space; `\\`,
/// `\{` and `\}` are the backslash and the braces as characters; `\L` and
/// `\l` switch underlining on and off, `\O` and `\o` overlining, `\K` and
/// `\k` striking through. Each is one token of two characters.
pub proof fn mtext_letter_codes_say_what_they_name<'a>(c: char, t: Seq<char>, tok: Token<'a>)
    ensures
        ({
            let s = seq!['\\', c] + t;
            let first = is_first_token(s, TextKind::MText, tok);
            &&& c == 'P' ==> token_len(s, TextKind::MText) == 2 && (first <==> tok == Token::Break(Break::Paragraph))
            &&& c == 'N' ==> token_len(s, TextKind::MText) == 2 && (first <==> tok == Token::Break(Break::Column))
            &&& c == 'X' ==> token_len(s, TextKind::MText) == 2 && (first <==> tok == Token::Break(Break::DimensionLine))
            &&& c == '~' ==> token_len(s, TextKind::MText) == 2 && (first <==> tok == Token::NonBreakingSpace)
            &&& (c == '\\' || c == '{' || c == '}') ==> token_len(s, TextKind::MText) == 2 && (first <==> tok == Token::Char(c))
            &&& c == 'L' ==> token_len(s, TextKind::MText) == 2 && (first <==> tok == Token::Toggle(Toggle::Underline(Switch::On)))
            &&& c == 'l' ==> token_len(s, TextKind::MText) == 2 && (first <==> tok == Token::Toggle(Toggle::Underline(Switch::Off)))
            &&& c == 'O' ==> token_len(s, TextKind::MText) == 2 && (first <==> tok == Token::Toggle(Toggle::Overline(Switch::On)))
            &&& c == 'o' ==> token_len(s, TextKind::MText) == 2 && (first <==> tok == Token::Toggle(Toggle::Overline(Switch::Off)))
            &&& c == 'K' ==> token_len(s, TextKind::MText) == 2 && (first <==> tok == Token::Toggle(Toggle::StrikeThrough(Switch::On)))
            &&& c == 'k' ==> token_len(s, TextKind::MText) == 2 && (first <==> tok == Token::Toggle(Toggle::StrikeThrough(Switch::Off)))
            &&& s.skip(2) == t
        }),
{
    let s = seq!['\\', c] + t;
    assert(s[0] == '\\' && s[1] == c);
    assert(s.skip(2) =~= t);
}

/// In MTEXT, `{` opens a group and `}` closes one, each a token of its own.
pub proof fn mtext_braces_bound_groups<'a>(c: char, t: Seq<char>, tok: Token<'a>)
    requires
        c == '{' || c == '}',
    ensures
        token_len(seq![c] + t, TextKind::MText) == 1,
        c == '{' ==> (is_first_token(seq![c] + t, TextKind::MText, tok) <==> tok == Token::GroupStart),
        c == '}' ==> (is_first_token(seq![c] + t, TextKind::MText, tok) <==> tok == Token::GroupEnd),
{
    let s = seq![c] + t;
    assert(s[0] == c);
}

/// In TEXT, a dimension's text and the other one-line texts, a backslash
/// and a brace are characters: only MTEXT reads codes from them.
pub proof fn line_text_reads_no_backslash_code<'a>(c: char, t: Seq<char>, tok: Token<'a>)
    requires
        c == '\\' || c == '{' || c == '}',
    ensures
        token_len(seq![c] + t, TextKind::Line) == 1,
        is_first_token(seq![c] + t, TextKind::Line, tok) <==> tok == Token::Char(c),
{
    let s = seq![c] + t;
    assert(s[0] == c);
}

// ---------------------------------------------------------------------------
// The split.
// ---------------------------------------------------------------------------

/// `text` split into its tokens, in order.
pub fn tokens<'a>(text: &'a str, kind: TextKind) -> (toks: Tokens<'a>)
    ensures
        toks.source() == text@,
        toks.position() == 0,
        toks.kind() == kind,
{
    Tokens { text, chars: chars_of(text), at: 0, kind }
}

/// The tokens [`tokens`] splits a text into, one at a time.
#[derive(Debug)]
pub struct Tokens<'a> {
    text: &'a str,
    chars: Vec<char>,
    at: usize,
    kind: TextKind,
}

impl<'a> Clone for Tokens<'a> {
    fn clone(&self) -> (c: Self)
        ensures
            c.source() == self.source(),
            c.position() == self.position(),
            c.kind() == self.kind(),
    {
        proof {
            use_type_invariant(self);
        }
        let mut chars: Vec<char> = Vec::new();
        let mut i: usize = 0;
        while i < self.chars.len()
            invariant
                i <= self.chars@.len(),
                chars@ == self.chars@.take(i as int),
            decreases self.chars@.len() - i,
        {
            chars.push(self.chars[i]);
            i += 1;
            assert(chars@ == self.chars@.take(i as int));
        }
        assert(self.chars@.take(self.chars@.len() as int) == self.chars@);
        Tokens { text: self.text, chars, at: self.at, kind: self.kind }
    }
}

impl<'a> Tokens<'a> {
    #[verifier::type_invariant]
    spec fn well_formed(self) -> bool {
        &&& self.chars@ == self.text@
        &&& self.at <= self.chars@.len()
    }

    /// The text being split.
    pub closed spec fn source(self) -> Seq<char> {
        self.text@
    }

    /// How many of its characters the tokens handed out so far cover.
    pub closed spec fn position(self) -> int {
        self.at as int
    }

    /// Which codes the text is written in.
    pub closed spec fn kind(self) -> TextKind {
        self.kind
    }

    /// The next token, or `None` when the text is used up.
    pub fn next(&mut self) -> (t: Option<Token<'a>>)
        ensures
            final(self).source() == old(self).source(),
            final(self).kind() == old(self).kind(),
            0 <= old(self).position() <= old(self).source().len(),
            0 <= final(self).position() <= final(self).source().len(),
            old(self).position() == old(self).source().len() ==> t is None
                && final(self).position() == old(self).position(),
            old(self).position() < old(self).source().len() ==> {
                let rest = old(self).source().skip(old(self).position());
                &&& t matches Some(tok) && is_first_token(rest, old(self).kind(), tok)
                &&& 1 <= token_len(rest, old(self).kind()) <= rest.len()
                &&& final(self).position() == old(self).position() + token_len(
                    rest,
                    old(self).kind(),
                )
            },
    {
        proof {
            use_type_invariant(&*self);
        }
        let n = self.chars.len();
        if self.at >= n {
            return None;
        }
        let at = self.at;
        let ghost rest = self.chars@.skip(at as int);
        let c = self.chars[at];
        let (token, len) = if c == '%' && at + 1 < n && self.chars[at + 1] == '%' {
            self.percent(at)
        } else if self.kind == TextKind::MText && c == '\\' {
            self.backslash(at)
        } else if self.kind == TextKind::MText && c == '{' {
            (Token::GroupStart, 1)
        } else if self.kind == TextKind::MText && c == '}' {
            (Token::GroupEnd, 1)
        } else {
            (Token::Char(c), 1)
        };
        assert(rest[0] == c);
        assert(rest.len() >= 2 ==> rest[1] == self.chars@[at + 1]);
        proof {
            lemma_token_len(rest, self.kind);
        }
        self.at = at + len;
        Some(token)
    }

    /// Every token not handed out yet, in order.
    pub fn collect(self) -> (all: Vec<Token<'a>>)
        ensures
            tokenizes(self.source().skip(self.position()), self.kind(), all@),
    {
        let mut it = self;
        it.drain()
    }

    /// Hands out every token not handed out yet, in order.
    fn drain(&mut self) -> (all: Vec<Token<'a>>)
        ensures
            tokenizes(old(self).source().skip(old(self).position()), old(self).kind(), all@),
    {
        proof {
            use_type_invariant(&*self);
        }
        let mut toks: Vec<Token<'a>> = Vec::new();
        assert forall|rest: Seq<Token<'a>>| #[trigger] (toks@ + rest) == rest by {
            assert(toks@ + rest == rest);
        }
        let ghost src = self.source();
        let ghost kind = self.kind();
        let ghost first = self.position();
        loop
            invariant
                self.source() == src,
                self.kind() == kind,
                src == old(self).source(),
                kind == old(self).kind(),
                first == old(self).position(),
                first <= self.position() <= src.len(),
                forall|rest: Seq<Token<'a>>|
                    tokenizes(src.skip(self.position()), kind, rest) ==> tokenizes(
                        src.skip(first),
                        kind,
                        toks@ + rest,
                    ),
            decreases src.len() - self.position(),
        {
            let ghost before = self.position();
            let ghost before_toks = toks@;
            match self.next() {
                None => {
                    assert(src.skip(before) == Seq::<char>::empty());
                    assert(tokenizes(src.skip(before), kind, Seq::<Token<'a>>::empty()));
                    assert(toks@ + Seq::<Token<'a>>::empty() == toks@);
                    assert(tokenizes(src.skip(first), kind, toks@));
                    return toks;
                },
                Some(tok) => {
                    let ghost s = src.skip(before);
                    let ghost n = token_len(s, kind);
                    assert(src.skip(self.position()) == s.skip(n));
                    toks.push(tok);
                    assert forall|rest: Seq<Token<'a>>|
                        tokenizes(src.skip(self.position()), kind, rest) implies tokenizes(
                        src.skip(first),
                        kind,
                        toks@ + rest,
                    ) by {
                        assert((seq![tok] + rest).drop_first() == rest);
                        assert((seq![tok] + rest)[0] == tok);
                        assert(tokenizes(s, kind, seq![tok] + rest));
                        assert(before_toks + (seq![tok] + rest) == toks@ + rest);
                    }
                },
            }
        }
    }

    /// The percent code at `chars[at..]`, which starts with `%%`, and how
    /// many characters it covers.
    fn percent(&self, at: usize) -> (r: (Token<'a>, usize))
        requires
            self.chars@ == self.text@,
            at + 2 <= self.chars@.len(),
            self.chars@[at as int] == '%',
            self.chars@[at + 1] == '%',
        ensures
            is_percent_token(self.chars@.skip(at as int), r.0),
            r.1 == percent_len(self.chars@.skip(at as int)),
    {
        let ghost s = self.chars@.skip(at as int);
        let n = self.chars.len();
        let unknown = (Token::Unknown(self.text.substring_char(at, at + 2)), 2);
        assert(s.take(2) == self.chars@.subrange(at as int, at + 2));
        if n - at < 3 {
            return unknown;
        }
        assert(s[2] == self.chars@[at + 2]);
        let d = self.chars[at + 2];
        match d {
            'd' | 'D' => (Token::Special(Special::Degree), 3),
            'p' | 'P' => (Token::Special(Special::PlusMinus), 3),
            'c' | 'C' => (Token::Special(Special::Diameter), 3),
            '%' => (Token::Char('%'), 3),
            'u' | 'U' => (Token::Toggle(Toggle::Underline(Switch::Flip)), 3),
            'o' | 'O' => (Token::Toggle(Toggle::Overline(Switch::Flip)), 3),
            _ => {
                if n - at >= 5 {
                    let (d0, d1, d2) = (self.chars[at + 2], self.chars[at + 3], self.chars[at + 4]);
                    assert(s[3] == d1 && s[4] == d2);
                    if 0x30 <= d0 as u32 && d0 as u32 <= 0x39 && 0x30 <= d1 as u32 && d1 as u32
                        <= 0x39 && 0x30 <= d2 as u32 && d2 as u32 <= 0x39 {
                        let code = (d0 as u32 - 0x30) * 100 + (d1 as u32 - 0x30) * 10 + (d2 as u32
                            - 0x30);
                        return (Token::CharCode(code as u16), 5);
                    }
                }
                unknown
            },
        }
    }

    /// The MTEXT backslash code at `chars[at..]`, which starts with `\`, and
    /// how many characters it covers.
    fn backslash(&self, at: usize) -> (r: (Token<'a>, usize))
        requires
            self.chars@ == self.text@,
            at < self.chars@.len(),
            self.chars@[at as int] == '\\',
        ensures
            is_backslash_token(self.chars@.skip(at as int), r.0),
            r.1 == backslash_len(self.chars@.skip(at as int)),
    {
        let ghost s = self.chars@.skip(at as int);
        let n = self.chars.len();
        if at + 1 >= n {
            assert(s.take(1) == self.chars@.subrange(at as int, at + 1));
            return (Token::Unknown(self.text.substring_char(at, at + 1)), 1);
        }
        let c = self.chars[at + 1];
        assert(s[1] == c);
        let simple = match c {
            'P' => Some(Token::Break(Break::Paragraph)),
            'N' => Some(Token::Break(Break::Column)),
            'X' => Some(Token::Break(Break::DimensionLine)),
            '~' => Some(Token::NonBreakingSpace),
            '\\' | '{' | '}' => Some(Token::Char(c)),
            'L' => Some(Token::Toggle(Toggle::Underline(Switch::On))),
            'l' => Some(Token::Toggle(Toggle::Underline(Switch::Off))),
            'O' => Some(Token::Toggle(Toggle::Overline(Switch::On))),
            'o' => Some(Token::Toggle(Toggle::Overline(Switch::Off))),
            'K' => Some(Token::Toggle(Toggle::StrikeThrough(Switch::On))),
            'k' => Some(Token::Toggle(Toggle::StrikeThrough(Switch::Off))),
            _ => None,
        };
        if let Some(token) = simple {
            return (token, 2);
        }
        let body_at = at + 2;
        assert(s.take(2) == self.chars@.subrange(at as int, at + 2));
        match c {
            'S' | 'A' | 'C' | 'c' | 'F' | 'f' | 'H' | 'Q' | 'T' | 'W' | 'p' => {
                // The value runs to the next `;`; without one the code is not
                // closed, and it is text.
                proof {
                    lemma_index_of(s.skip(2), ';');
                }
                assert(s.skip(2) == self.chars@.skip(body_at as int));
                let end = match self.find(body_at, ';') {
                    Some(end) => end,
                    None => {
                        return (Token::Unknown(self.text.substring_char(at, body_at)), 2);
                    },
                };
                assert(s.skip(2) == self.chars@.skip(body_at as int));
                let ghost value = s.subrange(2, 2 + index_of(s.skip(2), ';'));
                assert(value == self.chars@.subrange(body_at as int, end as int));
                let len = end - at + 1;
                if c != 'S' {
                    return (
                        Token::Property { code: c, value: self.text.substring_char(body_at, end) },
                        len,
                    );
                }
                proof {
                    lemma_separator_index(value);
                }
                match self.find_separator(body_at, end) {
                    Some(sep) => {
                        assert(value.take(sep - body_at) == self.chars@.subrange(
                            body_at as int,
                            sep as int,
                        ));
                        assert(value.skip(sep - body_at + 1) == self.chars@.subrange(
                            sep + 1,
                            end as int,
                        ));
                        (
                            Token::Stack {
                                top: self.text.substring_char(body_at, sep),
                                bottom: self.text.substring_char(sep + 1, end),
                                separator: self.chars[sep],
                            },
                            len,
                        )
                    },
                    None => (Token::StackUnsplit(self.text.substring_char(body_at, end)), len),
                }
            },
            _ => (Token::Unknown(self.text.substring_char(at, body_at)), 2),
        }
    }

    /// The position of the first `c` at or after `from`, as an index of
    /// `chars`.
    fn find(&self, from: usize, c: char) -> (r: Option<usize>)
        requires
            from <= self.chars@.len(),
        ensures
            index_of(self.chars@.skip(from as int), c) < 0 ==> r is None,
            index_of(self.chars@.skip(from as int), c) >= 0 ==> r == Some(
                (from + index_of(self.chars@.skip(from as int), c)) as usize,
            ),
    {
        let mut i = from;
        while i < self.chars.len()
            invariant
                from <= i <= self.chars@.len(),
                index_of(self.chars@.skip(from as int), c) == if index_of(
                    self.chars@.skip(i as int),
                    c,
                ) < 0 {
                    -1
                } else {
                    i - from + index_of(self.chars@.skip(i as int), c)
                },
            decreases self.chars@.len() - i,
        {
            assert(self.chars@.skip(i as int)[0] == self.chars@[i as int]);
            if self.chars[i] == c {
                return Some(i);
            }
            assert(self.chars@.skip(i as int).drop_first() == self.chars@.skip(i + 1));
            i += 1;
        }
        None
    }

    /// The position of the first stack separator in `chars[from..to]`.
    fn find_separator(&self, from: usize, to: usize) -> (r: Option<usize>)
        requires
            from <= to <= self.chars@.len(),
        ensures
            separator_index(self.chars@.subrange(from as int, to as int)) < 0 ==> r is None,
            separator_index(self.chars@.subrange(from as int, to as int)) >= 0 ==> r == Some(
                (from + separator_index(self.chars@.subrange(from as int, to as int))) as usize,
            ),
    {
        let mut i = from;
        while i < to
            invariant
                from <= i <= to <= self.chars@.len(),
                separator_index(self.chars@.subrange(from as int, to as int)) == if separator_index(
                    self.chars@.subrange(i as int, to as int),
                ) < 0 {
                    -1
                } else {
                    i - from + separator_index(self.chars@.subrange(i as int, to as int))
                },
            decreases to - i,
        {
            let c = self.chars[i];
            assert(self.chars@.subrange(i as int, to as int)[0] == c);
            if c == '^' || c == '/' || c == '#' {
                return Some(i);
            }
            assert(self.chars@.subrange(i as int, to as int).drop_first() == self.chars@.subrange(
                i + 1,
                to as int,
            ));
            i += 1;
        }
        None
    }
}

} // verus!
