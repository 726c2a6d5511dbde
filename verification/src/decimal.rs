//! Non-negative integers in decimal: reading them from text and writing them out.

use vstd::prelude::*;

verus! {

/// Whether `c` is one of the ten decimal digits `0` to `9`.
pub open spec fn is_digit(c: char) -> bool {
    0x30 <= c as u32 <= 0x39
}

/// The number a decimal digit stands for.
pub open spec fn digit_value(c: char) -> nat {
    (c as u32 - 0x30) as nat
}

/// Whether `s` holds decimal digits and nothing else.
pub open spec fn all_digits(s: Seq<char>) -> bool {
    forall|i: int| 0 <= i < s.len() ==> is_digit(#[trigger] s[i])
}

/// The number that a run of decimal digits denotes, most significant digit first.
pub open spec fn digits_value(s: Seq<char>) -> nat
    decreases s.len(),
{
    if s.len() == 0 {
        0
    } else {
        10 * digits_value(s.drop_last()) + digit_value(s.last())
    }
}

/// The digits of a numeral: the text itself, or what follows one leading `+`.
pub open spec fn numeral_digits(s: Seq<char>) -> Seq<char> {
    if s.len() > 0 && s.first() == '+' {
        s.drop_first()
    } else {
        s
    }
}

/// The number that `s` denotes as a 32-bit unsigned integer: `s` is one or more
/// decimal digits, with at most one `+` before them, and the number fits.
/// Anything else, the empty text and a lone `+` included, denotes no number.
pub open spec fn parse_u32(s: Seq<char>) -> Option<u32> {
    let digits = numeral_digits(s);
    if digits.len() > 0 && all_digits(digits) && digits_value(digits) <= u32::MAX {
        Some(digits_value(digits) as u32)
    } else {
        None
    }
}

/// A run of digits denotes at least what any of its prefixes denotes.
pub proof fn lemma_prefix_value(s: Seq<char>, k: int)
    requires
        0 <= k <= s.len(),
    ensures
        digits_value(s.take(k)) <= digits_value(s),
    decreases s.len() - k,
{
    if k == s.len() {
        assert(s.take(k) =~= s);
    } else {
        lemma_prefix_value(s.drop_last(), k);
        assert(s.drop_last().take(k) =~= s.take(k));
    }
}

/// Reads `text` as a 32-bit unsigned integer.
pub fn parse_number(text: &str) -> (number: Option<u32>)
    ensures
        number == parse_u32(text@),
{
    let mut value: u64 = 0;
    let mut at_start: bool = true;
    let mut signed: bool = false;
    let mut any_digit: bool = false;
    let chars = text.chars();
    for c in it: chars
        invariant
            it.seq() == text@,
            at_start <==> it.index() == 0,
            signed <==> it.index() > 0 && text@[0] == '+',
            any_digit <==> it.index() > (if signed { 1int } else { 0int }),
            all_digits(text@.subrange(if signed { 1int } else { 0int }, it.index())),
            value == digits_value(text@.subrange(if signed { 1int } else { 0int }, it.index())),
            value <= u32::MAX,
    {
        let ghost from: int = if signed { 1 } else { 0 };
        let ghost before = text@.subrange(from, it.index());
        if at_start && c == '+' {
            signed = true;
        } else {
            let ghost digits = numeral_digits(text@);
            let ghost now = text@.subrange(from, it.index() + 1);
            assert(now.drop_last() =~= before);
            assert(now =~= digits.take(it.index() + 1 - from));
            let code: u32 = c as u32;
            if code < 0x30 || code > 0x39 {
                assert(!is_digit(digits[it.index() - from]));
                return None;
            }
            value = 10 * value + (code - 0x30) as u64;
            if value > 0xFFFF_FFFF {
                proof {
                    lemma_prefix_value(digits, it.index() + 1 - from);
                }
                return None;
            }
            any_digit = true;
        }
        at_start = false;
    }
    assert(numeral_digits(text@) =~= text@.subrange(
        if signed { 1int } else { 0int },
        text@.len() as int,
    ));
    if any_digit {
        Some(value as u32)
    } else {
        None
    }
}

/// The decimal digit that stands for `d`, which is below ten.
pub open spec fn digit_char(d: nat) -> char {
    (0x30 + d) as char
}

/// The decimal numeral of `n`: no sign, and no leading zero but in `0` itself.
pub open spec fn decimal(n: nat) -> Seq<char>
    decreases n,
{
    if n < 10 {
        seq![digit_char(n)]
    } else {
        decimal(n / 10).push(digit_char(n % 10))
    }
}

/// A decimal numeral is digits only, at least one of them, and they denote the
/// number it was written for.
pub proof fn lemma_decimal_denotes(n: nat)
    ensures
        decimal(n).len() > 0,
        all_digits(decimal(n)),
        digits_value(decimal(n)) == n,
    decreases n,
{
    let s = decimal(n);
    if n < 10 {
        assert(digits_value(s.drop_last()) == 0);
    } else {
        lemma_decimal_denotes(n / 10);
        assert(s.drop_last() =~= decimal(n / 10));
    }
}

/// Writing a 32-bit number out and reading the numeral gives the number back.
pub proof fn lemma_parse_of_decimal(n: u32)
    ensures
        parse_u32(decimal(n as nat)) == Some(n),
{
    lemma_decimal_denotes(n as nat);
}

/// The one-character text of the digit `d`.
fn digit_text(d: u32) -> (text: &'static str)
    requires
        d < 10,
    ensures
        text@ == seq![digit_char(d as nat)],
{
    proof {
        reveal_strlit("0");
        reveal_strlit("1");
        reveal_strlit("2");
        reveal_strlit("3");
        reveal_strlit("4");
        reveal_strlit("5");
        reveal_strlit("6");
        reveal_strlit("7");
        reveal_strlit("8");
        reveal_strlit("9");
    }
    match d {
        0 => "0",
        1 => "1",
        2 => "2",
        3 => "3",
        4 => "4",
        5 => "5",
        6 => "6",
        7 => "7",
        8 => "8",
        _ => "9",
    }
}

/// Appends the decimal numeral of `n` to `out`.
pub fn push_decimal(out: &mut String, n: u32)
    ensures
        final(out)@ == old(out)@ + decimal(n as nat),
    decreases n,
{
    if n >= 10 {
        push_decimal(out, n / 10);
    }
    out.append(digit_text(n % 10));
}

} // verus!
