//! Invite codes: the eight leading hex digits of a random word.
//!
//! The randomness is the caller's; given the random word, the code is the
//! exact uppercase hexadecimal rendering of its top eight digits.

use vstd::prelude::*;
use vstd::arithmetic::div_mod::lemma_div_denominator;

use crate::text::push_char;

verus! {

/// The uppercase hexadecimal character for a digit value below 16.
pub open spec fn spec_hex_char(d: int) -> char {
    if d == 0 {
        '0'
    } else if d == 1 {
        '1'
    } else if d == 2 {
        '2'
    } else if d == 3 {
        '3'
    } else if d == 4 {
        '4'
    } else if d == 5 {
        '5'
    } else if d == 6 {
        '6'
    } else if d == 7 {
        '7'
    } else if d == 8 {
        '8'
    } else if d == 9 {
        '9'
    } else if d == 10 {
        'A'
    } else if d == 11 {
        'B'
    } else if d == 12 {
        'C'
    } else if d == 13 {
        'D'
    } else if d == 14 {
        'E'
    } else {
        'F'
    }
}

/// How many hexadecimal digits `h` takes to write (1 for zero).
pub open spec fn spec_hex_len(h: int) -> int
    decreases h,
{
    if h < 16 {
        1
    } else {
        1 + spec_hex_len(h / 16)
    }
}

pub open spec fn spec_pow16(e: int) -> int
    decreases e,
{
    if e <= 0 {
        1
    } else {
        16 * spec_pow16(e - 1)
    }
}

/// Digit `j` (counting from the least significant) of `h` in hex.
pub open spec fn spec_hex_digit(h: int, j: int) -> int {
    (h / spec_pow16(j)) % 16
}

fn hex_char_of(d: u64) -> (c: char)
    requires
        d < 16,
    ensures
        c == spec_hex_char(d as int),
{
    if d == 0 {
        '0'
    } else if d == 1 {
        '1'
    } else if d == 2 {
        '2'
    } else if d == 3 {
        '3'
    } else if d == 4 {
        '4'
    } else if d == 5 {
        '5'
    } else if d == 6 {
        '6'
    } else if d == 7 {
        '7'
    } else if d == 8 {
        '8'
    } else if d == 9 {
        '9'
    } else if d == 10 {
        'A'
    } else if d == 11 {
        'B'
    } else if d == 12 {
        'C'
    } else if d == 13 {
        'D'
    } else if d == 14 {
        'E'
    } else {
        'F'
    }
}

/// The invite code derived from the random word `hash`: its eight leading
/// uppercase hex digits (the word must have at least eight, i.e. be at
/// least `0x1000_0000`, as the rendering carries no leading zeros).
pub fn invite_code_of(hash: u64) -> (r: String)
    requires
        hash >= 0x1000_0000,
    ensures
        r@.len() == 8,
        forall|i: int|
            0 <= i < 8 ==> r@[i] == spec_hex_char(
                spec_hex_digit(hash as int, spec_hex_len(hash as int) - 1 - i),
            ),
{
    // Drop all but the top eight digits.
    let mut top: u64 = hash;
    let ghost mut dropped: int = 0;
    while top >= 0x1_0000_0000
        invariant
            top == hash as int / spec_pow16(dropped),
            dropped >= 0,
            top >= 0x1000_0000,
        decreases top,
    {
        proof {
            lemma_pow16_positive(dropped);
            lemma_div_denominator(hash as int, spec_pow16(dropped), 16);
            assert(spec_pow16(dropped) * 16 == spec_pow16(dropped + 1));
            dropped = dropped + 1;
        }
        top = top / 16;
    }
    proof {
        lemma_hex_len_from_division(hash as int, dropped);
    }
    // Read the eight digits of `top`, least significant first.
    let mut digits: Vec<u64> = Vec::new();
    let mut tmp: u64 = top;
    let mut j: usize = 0;
    while j < 8
        invariant
            j <= 8,
            digits@.len() == j,
            tmp == top as int / spec_pow16(j as int),
            forall|p: int|
                0 <= p < j ==> digits@[p] == spec_hex_digit(top as int, p) && digits@[p] < 16,
        decreases 8 - j,
    {
        proof {
            lemma_pow16_positive(j as int);
            lemma_div_denominator(top as int, spec_pow16(j as int), 16);
            assert(spec_pow16(j as int) * 16 == spec_pow16(j + 1));
        }
        let d = tmp % 16;
        digits.push(d);
        tmp = tmp / 16;
        j = j + 1;
    }
    // Write them out, most significant first.
    let mut r = String::new();
    let mut i: usize = 0;
    while i < 8
        invariant
            i <= 8,
            r@.len() == i,
            digits@.len() == 8,
            forall|p: int|
                0 <= p < 8 ==> (#[trigger] digits@[p]) == spec_hex_digit(top as int, p)
                    && digits@[p] < 16,
            forall|p: int|
                0 <= p < i ==> r@[p] == spec_hex_char(spec_hex_digit(top as int, 7 - p)),
        decreases 8 - i,
    {
        let c = hex_char_of(digits[7 - i]);
        push_char(&mut r, c);
        i = i + 1;
    }
    proof {
        assert forall|i2: int| 0 <= i2 < 8 implies r@[i2] == spec_hex_char(
            spec_hex_digit(hash as int, spec_hex_len(hash as int) - 1 - i2),
        ) by {
            lemma_digit_of_quotient(hash as int, dropped, 7 - i2);
            assert(spec_hex_len(hash as int) == dropped + 8);
        }
    }
    r
}

/// Once `h / 16^dropped` has exactly eight hex digits, `h` itself has
/// `dropped + 8`.
proof fn lemma_hex_len_from_division(h: int, dropped: int)
    requires
        dropped >= 0,
        h >= 0,
        0x1000_0000 <= h / spec_pow16(dropped) < 0x1_0000_0000,
    ensures
        spec_hex_len(h) == dropped + 8,
    decreases dropped,
{
    if dropped == 0 {
        assert(h == h / spec_pow16(0));
        lemma_hex_len_eight(h);
    } else {
        lemma_pow16_positive(dropped - 1);
        lemma_div_denominator(h, 16, spec_pow16(dropped - 1));
        assert(16 * spec_pow16(dropped - 1) == spec_pow16(dropped));
        assert((h / 16) / spec_pow16(dropped - 1) == h / spec_pow16(dropped));
        lemma_hex_len_from_division(h / 16, dropped - 1);
        assert(h >= 16) by {
            if h < 16 {
                vstd::arithmetic::div_mod::lemma_basic_div(h, spec_pow16(dropped));
                assert(spec_pow16(dropped) >= 16) by {
                    lemma_pow16_at_least(dropped);
                }
            }
        }
    }
}

/// A number in `[16^(n-1), 16^n)` writes as exactly `n` hex digits.
proof fn lemma_hex_len_bounded(h: int, n: int)
    requires
        n >= 1,
        spec_pow16(n - 1) <= h < spec_pow16(n),
    ensures
        spec_hex_len(h) == n,
    decreases n,
{
    if n == 1 {
    } else {
        lemma_pow16_at_least(n - 1);
        assert(h >= 16);
        vstd::arithmetic::div_mod::lemma_fundamental_div_mod(h, 16);
        assert(spec_pow16(n - 2) <= h / 16) by {
            if h / 16 < spec_pow16(n - 2) {
                assert(h == 16 * (h / 16) + h % 16);
                assert(16 * (h / 16) <= 16 * (spec_pow16(n - 2) - 1));
                assert(h < 16 * spec_pow16(n - 2));
            }
        }
        assert(h / 16 < spec_pow16(n - 1)) by {
            if h / 16 >= spec_pow16(n - 1) {
                assert(16 * (h / 16) >= 16 * spec_pow16(n - 1));
                assert(h >= spec_pow16(n));
            }
        }
        lemma_hex_len_bounded(h / 16, n - 1);
    }
}

/// A number with value in `[16^7, 16^8)` writes as exactly eight digits.
proof fn lemma_hex_len_eight(h: int)
    requires
        0x1000_0000 <= h < 0x1_0000_0000,
    ensures
        spec_hex_len(h) == 8,
{
    assert(spec_pow16(0) == 1);
    assert(spec_pow16(1) == 16);
    assert(spec_pow16(2) == 0x100);
    assert(spec_pow16(3) == 0x1000);
    assert(spec_pow16(4) == 0x1_0000);
    assert(spec_pow16(5) == 0x10_0000);
    assert(spec_pow16(6) == 0x100_0000);
    assert(spec_pow16(7) == 0x1000_0000);
    assert(spec_pow16(8) == 0x1_0000_0000);
    lemma_hex_len_bounded(h, 8);
}

proof fn lemma_pow16_at_least(e: int)
    requires
        e >= 1,
    ensures
        spec_pow16(e) >= 16,
{
    lemma_pow16_positive(e - 1);
    assert(spec_pow16(e) == 16 * spec_pow16(e - 1));
}

/// Digit `j` of `h / 16^dropped` is digit `dropped + j` of `h`.
proof fn lemma_digit_of_quotient(h: int, dropped: int, j: int)
    requires
        h >= 0,
        dropped >= 0,
        j >= 0,
    ensures
        spec_hex_digit(h / spec_pow16(dropped), j) == spec_hex_digit(h, dropped + j),
{
    lemma_pow16_positive(dropped);
    lemma_pow16_positive(j);
    lemma_div_denominator(h, spec_pow16(dropped), spec_pow16(j));
    assert(spec_pow16(dropped) * spec_pow16(j) == spec_pow16(dropped + j)) by {
        lemma_pow16_adds(dropped, j);
    }
}

proof fn lemma_pow16_positive(e: int)
    ensures
        spec_pow16(e) >= 1,
    decreases e,
{
    if e > 0 {
        lemma_pow16_positive(e - 1);
    }
}

proof fn lemma_pow16_adds(a: int, b: int)
    requires
        a >= 0,
        b >= 0,
    ensures
        spec_pow16(a) * spec_pow16(b) == spec_pow16(a + b),
    decreases a,
{
    if a == 0 {
    } else {
        lemma_pow16_adds(a - 1, b);
        assert(spec_pow16(a) * spec_pow16(b) == 16 * (spec_pow16(a - 1) * spec_pow16(b)))
            by (nonlinear_arith)
            requires spec_pow16(a) == 16 * spec_pow16(a - 1),
        ;
    }
}

} // verus!
