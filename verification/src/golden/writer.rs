//! The bytes a golden drawing is written as, group by group.
//!
//! A DXF file is a sequence of groups, each written as two lines: the group
//! code, right-aligned in a three-character field, and the value. Handles
//! are written in upper-case hexadecimal. Every string value goes through
//! the drawing's code page ([`Codepage`]), so a case with non-ASCII text is
//! not UTF-8 on disk -- and one that the code page cannot hold cannot be
//! written at all.

use crate::chars::chars_of;
use crate::golden::block_names::{decimal_chars, decimal_text, digit_char};
use crate::golden::spec::Codepage;
use crate::text::hex_char;
use vstd::prelude::*;
use vstd::string::StrSliceExecFns;

verus! {

/// The handles a written drawing carries, so an oracle can name them.
#[derive(Debug, Clone, PartialEq)]
pub struct Handles {
    /// Handle of each top-level entity, in file order. A dimension's
    /// anonymous block does not appear here; its entities are in `blocks`.
    pub entities: Vec<u32>,
    /// Per block definition (named blocks first, in spec order, then the
    /// dimension blocks `*D1`, `*D2`, ...): the handles of its entities.
    pub blocks: Vec<(String, Vec<u32>)>,
    /// Attribute handles per top-level INSERT that has any, keyed by the
    /// INSERT's own handle.
    pub attribs: Vec<(u32, Vec<u32>)>,
}

impl Default for Handles {
    /// No handle issued yet.
    fn default() -> (h: Self)
        ensures
            h.entities@.len() == 0,
            h.blocks@.len() == 0,
            h.attribs@.len() == 0,
    {
        Handles { entities: Vec::new(), blocks: Vec::new(), attribs: Vec::new() }
    }
}

/// A written drawing: the DXF bytes plus the handles it issued.
#[derive(Debug, Clone, PartialEq)]
pub struct Written {
    /// The file's bytes: 7-bit ASCII for [`Codepage::Ascii`], otherwise the
    /// spec's strings encoded in the declared codepage.
    pub dxf: Vec<u8>,
    pub handles: Handles,
}

/// What `encoding_rs::EUC_KR.encode` makes of a string: its bytes, and
/// whether it met a character EUC-KR has no bytes for.
pub uninterp spec fn euc_kr_encoding(s: Seq<char>) -> (Seq<u8>, bool);

/// The bytes of a string of ASCII characters: one per character, its code.
pub open spec fn ascii_bytes(s: Seq<char>) -> Seq<u8> {
    Seq::new(s.len(), |i: int| s[i] as u8)
}

/// `encoding_rs::EUC_KR.encode`: the string's bytes in EUC-KR (the CP949
/// superset that `ANSI_949` names), and whether the string held a character
/// EUC-KR has no bytes for -- [`euc_kr_encoding`] of the string. A string of
/// ASCII characters comes back as its own bytes, with no error.
#[verifier::external_body]
fn encode_euc_kr(value: &str) -> (r: (Vec<u8>, bool))
    requires
        value@.len() <= 0x0FFF_FFFF,
    ensures
        (r.0@, r.1) == euc_kr_encoding(value@),
        vstd::utf8::is_ascii_chars(value@) ==> r.0@ == ascii_bytes(value@) && !r.1,
{
    let (bytes, _, had_errors) = encoding_rs::EUC_KR.encode(value);
    (bytes.into_owned(), had_errors)
}

/// The bytes a string is stored as in `codepage`, or `None` when the code
/// page cannot hold it.
pub open spec fn encoded(codepage: Codepage, s: Seq<char>) -> Option<Seq<u8>> {
    match codepage {
        Codepage::Ascii => if vstd::utf8::is_ascii_chars(s) {
            Some(ascii_bytes(s))
        } else {
            None
        },
        Codepage::Ansi949 => if !euc_kr_encoding(s).1 {
            Some(euc_kr_encoding(s).0)
        } else {
            None
        },
    }
}

/// A string as a drawing in `codepage` stores it: its ASCII bytes for
/// [`Codepage::Ascii`], its CP949 bytes for [`Codepage::Ansi949`], and
/// `None` when the code page cannot hold every character of it. Every value
/// goes through here, so a layer name is encoded the same way as a text
/// value.
pub fn encode(codepage: Codepage, value: &str) -> (bytes: Option<Vec<u8>>)
    requires
        codepage == Codepage::Ansi949 ==> value@.len() <= 0x0FFF_FFFF,
    ensures
        bytes matches Some(b) ==> encoded(codepage, value@) == Some(b@),
        bytes is None ==> encoded(codepage, value@) is None,
        vstd::utf8::is_ascii_chars(value@) ==> (bytes matches Some(b) && b@ == ascii_bytes(
            value@,
        )),
{
    match codepage {
        Codepage::Ascii => {
            if value.is_ascii() {
                proof {
                    vstd::string::is_ascii_spec_bytes(value);
                }
                let b = value.as_bytes_vec();
                assert(b@ == ascii_bytes(value@));
                Some(b)
            } else {
                None
            }
        },
        Codepage::Ansi949 => {
            let (b, had_errors) = encode_euc_kr(value);
            if had_errors {
                None
            } else {
                Some(b)
            }
        },
    }
}

/// The decimal digits of `n`, as ASCII bytes.
pub open spec fn decimal(n: nat) -> Seq<u8>
    decreases n,
{
    if n < 10 {
        seq![(0x30 + n) as u8]
    } else {
        decimal(n / 10) + seq![(0x30 + n % 10) as u8]
    }
}

/// A group code as a DXF file writes it: right-aligned in a field of three
/// characters.
pub open spec fn group_code_field(code: u16) -> Seq<u8> {
    let d = decimal(code as nat);
    if d.len() < 3 {
        Seq::new((3 - d.len()) as nat, |i: int| 0x20u8) + d
    } else {
        d
    }
}

/// The upper-case hexadecimal digits of `n`.
pub open spec fn upper_hex(n: nat) -> Seq<char>
    decreases n,
{
    if n < 16 {
        seq![hex_char(n as int)]
    } else {
        upper_hex(n / 16) + seq![hex_char((n % 16) as int)]
    }
}

/// The decimal digits of `n`, as ASCII bytes.
pub fn decimal_digits(n: u16) -> (digits: Vec<u8>)
    ensures
        digits@ == decimal(n as nat),
        1 <= digits@.len() <= 5,
{
    let text = decimal_text(n as usize);
    let chars = chars_of(text.as_str());
    proof {
        lemma_decimal_bytes_are_its_chars(n as nat);
        lemma_decimal_len(n as nat);
    }
    let mut digits: Vec<u8> = Vec::new();
    let mut i: usize = 0;
    while i < chars.len()
        invariant
            i <= chars@.len(),
            chars@ == decimal_chars(n as nat),
            decimal(n as nat).len() == chars@.len(),
            forall|k: int| 0 <= k < chars@.len() ==> decimal(n as nat)[k] == ((#[trigger] chars@[k]) as u32) as u8,
            forall|k: int| 0 <= k < chars@.len() ==> (#[trigger] chars@[k]) as u32 <= 0x39,
            digits@ == decimal(n as nat).take(i as int),
        decreases chars@.len() - i,
    {
        let c = chars[i];
        let b = c as u32 as u8;
        digits.push(b);
        i += 1;
        assert(digits@ =~= decimal(n as nat).take(i as int));
    }
    assert(decimal(n as nat).take(i as int) =~= decimal(n as nat));
    digits
}

/// The decimal digits of `n` as bytes are its decimal digits as
/// characters, byte for character.
proof fn lemma_decimal_bytes_are_its_chars(n: nat)
    ensures
        decimal(n).len() == decimal_chars(n).len(),
        forall|k: int| 0 <= k < decimal(n).len() ==> decimal(n)[k] == ((#[trigger] decimal_chars(n)[k]) as u32) as u8,
        forall|k: int| 0 <= k < decimal(n).len() ==> (#[trigger] decimal_chars(n)[k]) as u32 <= 0x39,
    decreases n,
{
    if n >= 10 {
        lemma_decimal_bytes_are_its_chars(n / 10);
        let last = (n % 10) as nat;
        assert((digit_char(last) as u32) == 0x30 + last);
        assert forall|k: int| 0 <= k < decimal(n).len() implies decimal(n)[k] == ((#[trigger] decimal_chars(n)[k]) as u32) as u8 && decimal_chars(n)[k] as u32 <= 0x39 by {
            if k < decimal(n / 10).len() {
                assert(decimal(n)[k] == decimal(n / 10)[k]);
                assert(decimal_chars(n)[k] == decimal_chars(n / 10)[k]);
            }
        }
    } else {
        assert((digit_char(n) as u32) == 0x30 + n);
    }
}

/// How many digits `decimal` writes.
proof fn lemma_decimal_len(n: nat)
    ensures
        decimal(n).len() >= 1,
        n < 10 ==> decimal(n).len() == 1,
        10 <= n < 100 ==> decimal(n).len() == 2,
        100 <= n < 1000 ==> decimal(n).len() == 3,
        1000 <= n < 10000 ==> decimal(n).len() == 4,
        10000 <= n < 100000 ==> decimal(n).len() == 5,
    decreases n,
{
    if n >= 10 {
        lemma_decimal_len(n / 10);
    }
}

/// A handle as a DXF file writes it: upper-case hexadecimal, no leading
/// zeros.
pub fn handle_hex(h: u32) -> (s: String)
    ensures
        s@ == upper_hex(h as nat),
{
    let mut m: u32 = h;
    let mut tail: Vec<char> = Vec::new();
    while m >= 16
        invariant
            upper_hex(h as nat) == upper_hex(m as nat) + tail@,
        decreases m,
    {
        let d = m % 16;
        let ghost before = tail@;
        let c = hex_digit_char(d);
        let mut next = Vec::new();
        next.push(c);
        next.append(&mut tail);
        tail = next;
        assert(tail@ == seq![hex_char((m % 16) as int)] + before);
        assert(upper_hex(m as nat) == upper_hex((m / 16) as nat) + seq![hex_char((m % 16) as int)]);
        m = m / 16;
    }
    let mut digits = Vec::new();
    digits.push(hex_digit_char(m));
    let ghost head = digits@;
    digits.append(&mut tail);
    assert(head == upper_hex(m as nat));
    crate::chars::string_of(&digits)
}

/// The upper-case hexadecimal digit for `d` (below 16).
fn hex_digit_char(d: u32) -> (c: char)
    requires
        d < 16,
    ensures
        c == hex_char(d as int),
{
    let b: u8 = if d < 10 {
        0x30 + d as u8
    } else {
        0x41 + (d as u8 - 10)
    };
    b as char
}

/// One group as a DXF file writes it: the code right-aligned in a field of
/// three characters and a line feed, then the value stored in the drawing's
/// code page and a line feed. `None` when the code page cannot hold the
/// value.
pub fn group_pair(codepage: Codepage, code: u16, value: &str) -> (bytes: Option<Vec<u8>>)
    requires
        codepage == Codepage::Ansi949 ==> value@.len() <= 0x0FFF_FFFF,
    ensures
        encoded(codepage, value@) is None ==> bytes is None,
        encoded(codepage, value@) matches Some(v) ==> bytes matches Some(b) && b@
            == group_code_field(code) + seq![0x0Au8] + v + seq![0x0Au8],
        vstd::utf8::is_ascii_chars(value@) ==> (bytes matches Some(b) && b@ == group_code_field(
            code,
        ) + seq![0x0Au8] + ascii_bytes(value@) + seq![0x0Au8]),
{
    let encoded_value = encode(codepage, value);
    let mut v = match encoded_value {
        Some(v) => v,
        None => return None,
    };
    let mut digits = decimal_digits(code);
    let mut out: Vec<u8> = Vec::new();
    let mut pad = digits.len();
    while pad < 3
        invariant
            digits@ == decimal(code as nat),
            1 <= digits@.len() <= pad,
            digits@.len() <= 3 ==> pad <= 3,
            digits@.len() > 3 ==> pad == digits@.len(),
            out@ == Seq::new((pad - digits@.len()) as nat, |i: int| 0x20u8),
        decreases 3 - pad,
    {
        out.push(0x20);
        pad += 1;
        assert(out@ == Seq::new((pad - digits@.len()) as nat, |i: int| 0x20u8));
    }
    let ghost field = out@ + digits@;
    assert(field == group_code_field(code));
    out.append(&mut digits);
    out.push(0x0A);
    out.append(&mut v);
    out.push(0x0A);
    Some(out)
}

} // verus!
