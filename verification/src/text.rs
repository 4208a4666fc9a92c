//! Writing numbers into text: the digits of a value in a base, padded
//! with zeroes to a width, as disassembly and debugger views print them.
use vstd::prelude::*;
use vstd::arithmetic::div_mod::{lemma_div_is_strictly_smaller, lemma_small_mod};

verus! {

/// The digit characters, upper case.
pub open spec fn digit_chars() -> Seq<char> {
    seq!['0', '1', '2', '3', '4', '5', '6', '7', '8', '9', 'A', 'B', 'C', 'D', 'E', 'F']
}

/// Digits of `v` in `base`, most significant first, padded with zeroes to
/// at least `width` digits; zero has the one digit `0`.
pub open spec fn digits(v: nat, base: nat, width: nat) -> Seq<char>
    decreases v + width,
{
    if base < 2 || base > 16 {
        Seq::empty()
    } else if v < base && width <= 1 {
        seq![digit_chars()[v as int]]
    } else {
        proof {
            if v >= base {
                lemma_div_is_strictly_smaller(v as int, base as int);
            }
        }
        digits(v / base, base, if width > 0 { (width - 1) as nat } else { 0 }).push(
            digit_chars()[(v % base) as int],
        )
    }
}

/// `v` in decimal.
pub open spec fn dec(v: nat) -> Seq<char> {
    digits(v, 10, 0)
}

/// `v` in upper-case hexadecimal.
pub open spec fn hex(v: nat) -> Seq<char> {
    digits(v, 16, 0)
}

/// Append a character to a string.
#[verifier::external_body]
pub(crate) fn push_char(s: &mut String, c: char)
    ensures
        final(s)@ == old(s)@.push(c),
{
    s.push(c);
}

/// The digit character for `d`.
fn digit_char(d: u32) -> (c: char)
    requires
        d < 16,
    ensures
        c == digit_chars()[d as int],
{
    match d {
        0 => '0',
        1 => '1',
        2 => '2',
        3 => '3',
        4 => '4',
        5 => '5',
        6 => '6',
        7 => '7',
        8 => '8',
        9 => '9',
        10 => 'A',
        11 => 'B',
        12 => 'C',
        13 => 'D',
        14 => 'E',
        _ => 'F',
    }
}

/// Append the digits of `v` in `base`, padded with zeroes to at least
/// `width` digits.
pub fn push_digits(s: &mut String, v: u32, base: u32, width: u32)
    requires
        2 <= base <= 16,
    ensures
        final(s)@ == old(s)@ + digits(v as nat, base as nat, width as nat),
    decreases v + width,
{
    if v >= base || width >= 2 {
        proof {
            if v >= base {
                lemma_div_is_strictly_smaller(v as int, base as int);
            }
        }
        let w = if width > 0 {
            width - 1
        } else {
            0
        };
        push_digits(s, v / base, base, w);
    }
    let ghost mid = s@;
    let c = digit_char(v % base);
    push_char(s, c);
    proof {
        let w: nat = if width > 0 { (width - 1) as nat } else { 0 };
        if v >= base || width >= 2 {
            assert(digits(v as nat, base as nat, width as nat) == digits((v / base) as nat, base as nat, w).push(c));
            assert(mid == old(s)@ + digits((v / base) as nat, base as nat, w));
        } else {
            lemma_small_mod(v as nat, base as nat);
            assert(digits(v as nat, base as nat, width as nat) == seq![c]);
            assert(mid == old(s)@);
        }
        assert(s@ =~= old(s)@ + digits(v as nat, base as nat, width as nat));
    }
}

} // verus!
