//! Decimal formatting for the status line, with an exact character-level
//! specification.

use crate::grapheme::push_char;
use vstd::prelude::*;

verus! {

/// The decimal digit character for `d`.
pub open spec fn digit_char(d: int) -> char {
    if d == 0 {
        '0'
    } else if d == 1 {
        '1'
    } else if d == 2 {
        '2'
    } else if d == 3 {
        '3'
    } else if d == 4 {
        '4'
    } else if d == 5 {
        '5'
    } else if d == 6 {
        '6'
    } else if d == 7 {
        '7'
    } else if d == 8 {
        '8'
    } else {
        '9'
    }
}

/// The decimal numeral for `n`, most significant digit first.
pub open spec fn dec_of(n: int) -> Seq<char>
    decreases n,
{
    if n < 10 {
        seq![digit_char(n)]
    } else {
        dec_of(n / 10).push(digit_char(n % 10))
    }
}

/// The digit character for one digit value.
fn digit(d: usize) -> (c: char)
    requires
        d < 10,
    ensures
        c == digit_char(d as int),
{
    match d {
        0 => '0',
        1 => '1',
        2 => '2',
        3 => '3',
        4 => '4',
        5 => '5',
        6 => '6',
        7 => '7',
        8 => '8',
        _ => '9',
    }
}

/// Formats `n` in decimal.
pub fn usize_to_string(n: usize) -> (r: String)
    ensures
        r@ == dec_of(n as int),
{
    let mut digits: Vec<char> = Vec::new();
    let mut m = n;
    while m >= 10
        invariant
            dec_of(n as int) =~= dec_of(m as int) + digits@.reverse(),
        decreases m,
    {
        let d = digit(m % 10);
        let ghost pre = digits@;
        digits.push(d);
        m = m / 10;
        proof {
            assert(digits@.reverse() =~= seq![d] + pre.reverse());
            assert(dec_of(n as int) =~= dec_of(m as int) + digits@.reverse());
        }
    }
    let d = digit(m);
    let ghost pre = digits@;
    digits.push(d);
    proof {
        assert(digits@.reverse() =~= seq![d] + pre.reverse());
        assert(dec_of(m as int) =~= seq![d]);
        assert(digits@.reverse() =~= dec_of(n as int));
    }
    let mut out = String::new();
    let mut j = digits.len();
    while j > 0
        invariant
            j <= digits@.len(),
            out@ =~= digits@.subrange(j as int, digits@.len() as int).reverse(),
        decreases j,
    {
        j -= 1;
        push_char(&mut out, digits[j]);
        proof {
            assert(out@ =~= digits@.subrange(j as int, digits@.len() as int).reverse());
        }
    }
    proof {
        assert(digits@.subrange(0, digits@.len() as int) =~= digits@);
    }
    out
}

} // verus!
