//! The names of the anonymous blocks that hold a dimension's drawn
//! geometry.
//!
//! The writer gives the n-th dimension's block the name `*D<n>`, counting
//! from 1 in the order it writes them; the oracle reads `n` back out of the
//! name to find which dimension a block belongs to.

use crate::chars::{chars_of, string_of};
use vstd::prelude::*;

verus! {

/// The decimal digit character for `d` (below 10).
pub open spec fn digit_char(d: nat) -> char {
    (0x30 + d) as char
}

/// The decimal digits of `n`, most significant first, with no leading zero.
pub open spec fn decimal_chars(n: nat) -> Seq<char>
    decreases n,
{
    if n < 10 {
        seq![digit_char(n)]
    } else {
        decimal_chars(n / 10) + seq![digit_char(n % 10)]
    }
}

/// Whether every character of `s` is an ASCII digit.
pub open spec fn all_digits(s: Seq<char>) -> bool {
    forall|i: int| 0 <= i < s.len() ==> '0' <= #[trigger] s[i] && s[i] <= '9'
}

/// The number the ASCII digits `s` write in decimal.
pub open spec fn digits_value(s: Seq<char>) -> nat
    decreases s.len(),
{
    if s.len() == 0 {
        0
    } else {
        digits_value(s.drop_last()) * 10 + (s.last() as nat - 0x30) as nat
    }
}

/// What `usize`'s `from_str` reads from `s`: an optional `+`, then at least
/// one ASCII digit, and nothing else, for a value that fits in a `usize`;
/// `None` for anything else.
pub open spec fn parsed_usize(s: Seq<char>) -> Option<nat> {
    let body = if s.len() > 0 && s[0] == '+' {
        s.drop_first()
    } else {
        s
    };
    if body.len() > 0 && all_digits(body) && digits_value(body) <= usize::MAX {
        Some(digits_value(body))
    } else {
        None
    }
}

/// The name of the n-th dimension's block: `*D` and `n` in decimal.
pub open spec fn block_name(n: nat) -> Seq<char> {
    seq!['*', 'D'] + decimal_chars(n)
}

/// Which dimension a block's name says it belongs to: the number after
/// `*D`, read as a `usize`; `None` when the name is not `*D` and a number.
pub open spec fn block_number(name: Seq<char>) -> Option<nat> {
    if name.len() >= 2 && name[0] == '*' && name[1] == 'D' {
        parsed_usize(name.subrange(2, name.len() as int))
    } else {
        None
    }
}

/// The name the writer gives the `n`-th dimension's anonymous block.
pub fn dimension_block_name(n: usize) -> (name: String)
    ensures
        name@ == block_name(n as nat),
{
    let mut digits = chars_of(decimal_text(n).as_str());
    let mut chars = Vec::new();
    chars.push('*');
    chars.push('D');
    chars.append(&mut digits);
    string_of(&chars)
}

/// `n` in decimal, as text.
pub fn decimal_text(n: usize) -> (text: String)
    ensures
        text@ == decimal_chars(n as nat),
{
    let mut m: usize = n;
    let mut tail: Vec<char> = Vec::new();
    while m >= 10
        invariant
            decimal_chars(n as nat) == decimal_chars(m as nat) + tail@,
        decreases m,
    {
        let ghost before = tail@;
        let c = digit((m % 10) as u8);
        let mut next = Vec::new();
        next.push(c);
        next.append(&mut tail);
        tail = next;
        assert(tail@ == seq![digit_char((m % 10) as nat)] + before);
        assert(decimal_chars(m as nat) == decimal_chars((m / 10) as nat) + seq![
            digit_char((m % 10) as nat),
        ]);
        m = m / 10;
    }
    let mut chars = Vec::new();
    chars.push(digit(m as u8));
    let ghost head = chars@;
    assert(head == decimal_chars(m as nat));
    chars.append(&mut tail);
    string_of(&chars)
}

/// The digit character for `d` (below 10).
fn digit(d: u8) -> (c: char)
    requires
        d < 10,
    ensures
        c == digit_char(d as nat),
{
    (0x30 + d) as char
}

/// Which dimension the anonymous block `name` holds the geometry of: the
/// `n` of `*D<n>`, or `None` when `name` is not so formed.
pub fn dimension_block_number(name: &str) -> (n: Option<usize>)
    ensures
        n matches Some(v) ==> block_number(name@) == Some(v as nat),
        n is None ==> block_number(name@) is None,
{
    let cs = chars_of(name);
    if cs.len() < 2 || cs[0] != '*' || cs[1] != 'D' {
        return None;
    }
    let ghost rest = name@.subrange(2, name@.len() as int);
    let mut start: usize = 2;
    if cs.len() > 2 && cs[2] == '+' {
        start = 3;
    }
    let ghost body = cs@.subrange(start as int, cs@.len() as int);
    let ghost stated = if rest.len() > 0 && rest[0] == '+' {
        rest.drop_first()
    } else {
        rest
    };
    assert(body == stated);
    if start == cs.len() {
        return None;
    }
    let mut value: usize = 0;
    let mut i: usize = start;
    while i < cs.len()
        invariant
            2 <= start < i + 1,
            i <= cs@.len(),
            cs@ == name@,
            name@.len() >= 2 && name@[0] == '*' && name@[1] == 'D',
            rest == name@.subrange(2, name@.len() as int),
            body == stated,
            stated == (if rest.len() > 0 && rest[0] == '+' {
                rest.drop_first()
            } else {
                rest
            }),
            body == cs@.subrange(start as int, cs@.len() as int),
            all_digits(cs@.subrange(start as int, i as int)),
            value as nat == digits_value(cs@.subrange(start as int, i as int)),
        decreases cs@.len() - i,
    {
        let c = cs[i];
        let ghost seen = cs@.subrange(start as int, i as int);
        let ghost next = cs@.subrange(start as int, i + 1);
        assert(next.drop_last() == seen);
        if c < '0' || c > '9' {
            assert(body[i - start] == c);
            return None;
        }
        let d = (c as u32 - 0x30) as usize;
        assert(digits_value(next) == digits_value(seen) * 10 + d);
        if value > (usize::MAX - d) / 10 {
            proof {
                lemma_digits_value_grows(body, (i + 1 - start) as int);
            }
            assert(digits_value(next) > usize::MAX) by (nonlinear_arith)
                requires
                    value > (usize::MAX - d) / 10,
                    digits_value(next) == value * 10 + d,
                    d <= 9,
            ;
            assert(body.subrange(0, (i + 1 - start) as int) == next);
            return None;
        }
        assert(value * 10 + d <= usize::MAX) by (nonlinear_arith)
            requires
                value <= (usize::MAX - d) / 10,
                d <= 9,
        ;
        value = value * 10 + d;
        i += 1;
    }
    assert(body == cs@.subrange(start as int, i as int));
    Some(value)
}

/// Appending digits never makes the number smaller: the value of all of
/// `s` is at least that of its first `k` digits.
proof fn lemma_digits_value_grows(s: Seq<char>, k: int)
    requires
        0 <= k <= s.len(),
    ensures
        digits_value(s.subrange(0, k)) <= digits_value(s),
    decreases s.len() - k,
{
    if k < s.len() {
        lemma_digits_value_grows(s, k + 1);
        assert(s.subrange(0, k + 1).drop_last() == s.subrange(0, k));
    } else {
        assert(s.subrange(0, k) == s);
    }
}

/// The digits of `n` are all digits and read back as `n`.
proof fn lemma_decimal_chars_read_back(n: nat)
    ensures
        decimal_chars(n).len() > 0,
        all_digits(decimal_chars(n)),
        digits_value(decimal_chars(n)) == n,
        decimal_chars(n)[0] != '+',
    decreases n,
{
    if n < 10 {
        let s = decimal_chars(n);
        assert(s.drop_last().len() == 0);
        assert(s.last() as nat == 0x30 + n);
        assert(digits_value(s) == digits_value(s.drop_last()) * 10 + (s.last() as nat - 0x30) as nat);
    } else {
        lemma_decimal_chars_read_back(n / 10);
        let s = decimal_chars(n);
        assert(s.drop_last() == decimal_chars(n / 10));
        assert(s[0] == decimal_chars(n / 10)[0]);
        assert(s.last() as nat == 0x30 + n % 10);
        assert(digits_value(s) == digits_value(s.drop_last()) * 10 + (s.last() as nat - 0x30) as nat);
        assert((n / 10) * 10 + n % 10 == n);
    }
}

/// A dimension block's name reads back as the number it was given: the
/// oracle finds the n-th dimension from the name the writer wrote for it.
pub proof fn dimension_block_names_read_back(n: usize)
    ensures
        block_number(block_name(n as nat)) == Some(n as nat),
{
    lemma_decimal_chars_read_back(n as nat);
    let name = block_name(n as nat);
    assert(name.subrange(2, name.len() as int) == decimal_chars(n as nat));
}

/// The n-th dimension's block is named `*D` and `n` in decimal: `*D1` to
/// `*D9` for the first nine, and each further digit appended in turn --
/// `*D12` is `*D1` and `2`.
pub proof fn dimension_block_names_are_star_d_and_the_number(n: nat, k: nat)
    requires
        k < 10,
    ensures
        n < 10 ==> block_name(n) == seq!['*', 'D', (0x30 + n) as char],
        n >= 1 ==> block_name(10 * n + k) == block_name(n) + seq![(0x30 + k) as char],
{
    if n >= 1 {
        assert((10 * n + k) / 10 == n && (10 * n + k) % 10 == k);
        assert(decimal_chars(10 * n + k) == decimal_chars(n) + seq![digit_char(k)]);
        assert(block_name(10 * n + k) =~= block_name(n) + seq![(0x30 + k) as char]);
    }
    if n < 10 {
        assert(block_name(n) =~= seq!['*', 'D', (0x30 + n) as char]);
    }
}

} // verus!
