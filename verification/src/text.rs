//! Small verified helpers on strings: appending a character, decimal
//! rendering of integers, and prefix tests.

use vstd::prelude::*;
use vstd::string::*;

verus! {

/// Appends one character to a string.
///
/// Trusted: calls `String::push`, which the standard library documents as
/// appending the given `char` to the end of the string.
#[verifier::external_body]
pub(crate) fn push_char(s: &mut String, c: char)
    ensures
        final(s)@ == old(s)@.push(c),
{
    s.push(c);
}

/// The character that writes the decimal digit `d`.
pub open spec fn digit_char(d: int) -> char {
    if d == 0 {
        '0'
    } else if d == 1 {
        '1'
    } else if d == 2 {
        '2'
    } else if d == 3 {
        '3'
    } else if d == 4 {
        '4'
    } else if d == 5 {
        '5'
    } else if d == 6 {
        '6'
    } else if d == 7 {
        '7'
    } else if d == 8 {
        '8'
    } else {
        '9'
    }
}

/// Decimal digits of a natural number, most significant first, no padding.
pub open spec fn decimal_nat(n: nat) -> Seq<char>
    decreases n,
{
    if n < 10 {
        seq![digit_char(n as int)]
    } else {
        decimal_nat(n / 10).push(digit_char((n % 10) as int))
    }
}

/// Decimal rendering of an integer: a minus sign for negatives, then digits.
pub open spec fn decimal_int(i: int) -> Seq<char> {
    if i < 0 {
        seq!['-'] + decimal_nat((-i) as nat)
    } else {
        decimal_nat(i as nat)
    }
}

/// The number that a decimal digit writes; 0 for any other character.
pub open spec fn digit_value(c: char) -> nat {
    if c == '1' {
        1
    } else if c == '2' {
        2
    } else if c == '3' {
        3
    } else if c == '4' {
        4
    } else if c == '5' {
        5
    } else if c == '6' {
        6
    } else if c == '7' {
        7
    } else if c == '8' {
        8
    } else if c == '9' {
        9
    } else {
        0
    }
}

/// The number that a sequence of decimal digits writes.
pub open spec fn digits_value(s: Seq<char>) -> nat
    decreases s.len(),
{
    if s.len() == 0 {
        0
    } else {
        digits_value(s.drop_last()) * 10 + digit_value(s.last())
    }
}

/// The digits of a number write that number, and none of them is a minus
/// sign.
pub proof fn lemma_decimal_nat_value(n: nat)
    ensures
        digits_value(decimal_nat(n)) == n,
        decimal_nat(n).len() >= 1,
        forall|i: int| 0 <= i < decimal_nat(n).len() ==> decimal_nat(n)[i] != '-',
    decreases n,
{
    if n < 10 {
        let s = decimal_nat(n);
        assert(s.drop_last() =~= Seq::<char>::empty());
        assert(digits_value(s.drop_last()) == 0);
        assert(s.last() == digit_char(n as int));
    } else {
        lemma_decimal_nat_value(n / 10);
        let s = decimal_nat(n);
        assert(s.drop_last() =~= decimal_nat(n / 10));
        assert(s.last() == digit_char((n % 10) as int));
    }
}

/// Different numbers are written differently.
pub proof fn lemma_decimal_injective(a: int, b: int)
    ensures
        decimal_int(a) == decimal_int(b) ==> a == b,
{
    if decimal_int(a) == decimal_int(b) {
        if a < 0 {
            lemma_decimal_nat_value((-a) as nat);
        } else {
            lemma_decimal_nat_value(a as nat);
        }
        if b < 0 {
            lemma_decimal_nat_value((-b) as nat);
        } else {
            lemma_decimal_nat_value(b as nat);
        }
        if a < 0 && b < 0 {
            assert(decimal_nat((-a) as nat) =~= decimal_int(a).drop_first());
            assert(decimal_nat((-b) as nat) =~= decimal_int(b).drop_first());
        } else if a < 0 {
            assert(decimal_int(a)[0] == '-');
            assert(decimal_int(b)[0] != '-');
        } else if b < 0 {
            assert(decimal_int(b)[0] == '-');
            assert(decimal_int(a)[0] != '-');
        }
    }
}

fn digit(d: u64) -> (c: char)
    requires
        d < 10,
    ensures
        c == digit_char(d as int),
{
    if d == 0 {
        '0'
    } else if d == 1 {
        '1'
    } else if d == 2 {
        '2'
    } else if d == 3 {
        '3'
    } else if d == 4 {
        '4'
    } else if d == 5 {
        '5'
    } else if d == 6 {
        '6'
    } else if d == 7 {
        '7'
    } else if d == 8 {
        '8'
    } else {
        '9'
    }
}

fn push_decimal_nat(s: &mut String, n: u64)
    ensures
        final(s)@ == old(s)@ + decimal_nat(n as nat),
    decreases n,
{
    if n < 10 {
        push_char(s, digit(n));
        assert(old(s)@.push(digit_char(n as int)) =~= old(s)@ + decimal_nat(n as nat));
    } else {
        push_decimal_nat(s, n / 10);
        push_char(s, digit(n % 10));
        assert((old(s)@ + decimal_nat((n / 10) as nat)).push(digit_char((n % 10) as int)) =~= old(
            s,
        )@ + decimal_nat(n as nat));
    }
}

/// Appends the decimal rendering of `i` to `s`.
pub fn push_decimal(s: &mut String, i: i64)
    ensures
        final(s)@ == old(s)@ + decimal_int(i as int),
{
    if i < 0 {
        push_char(s, '-');
        // -(i + 1) fits in i64 for every negative i, so the magnitude never overflows.
        let below: i64 = -(i + 1);
        let magnitude: u64 = (below as u64) + 1;
        assert(magnitude as int == -(i as int));
        push_decimal_nat(s, magnitude);
        assert(old(s)@.push('-') + decimal_nat(magnitude as nat) =~= old(s)@ + decimal_int(
            i as int,
        ));
    } else {
        push_decimal_nat(s, i as u64);
    }
}

/// The decimal rendering of `i` as a fresh string.
pub fn decimal(i: i64) -> (s: String)
    ensures
        s@ == decimal_int(i as int),
{
    let mut s = String::new();
    push_decimal(&mut s, i);
    assert(Seq::<char>::empty() + decimal_int(i as int) =~= decimal_int(i as int));
    s
}

} // verus!
