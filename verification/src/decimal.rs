//! Decimal notation for signed integers.

use vstd::prelude::*;

verus! {

/// The character that writes the digit `d`: the digits stand in a row from
/// `0`, at code point 48, to `9`.
pub open spec fn digit(d: int) -> char {
    (48 + d) as char
}

/// The digits of `n` in base ten, most significant first, without leading
/// zeros; zero is written `0`.
pub open spec fn digits(n: nat) -> Seq<char>
    decreases n,
{
    if n < 10 {
        seq![digit(n as int)]
    } else {
        digits(n / 10).push(digit((n % 10) as int))
    }
}

/// `n` in decimal notation: a minus sign for a negative number, then the
/// digits of its magnitude.
pub open spec fn decimal(n: int) -> Seq<char> {
    if n < 0 {
        seq!['-'] + digits((-n) as nat)
    } else {
        digits(n as nat)
    }
}

/// Gives the character that writes the digit `d`.
fn digit_char(d: u64) -> (c: char)
    requires
        d < 10,
    ensures
        c == digit(d as int),
{
    (48u8 + d as u8) as char
}

/// Appends the digits of `n` to `out`.
fn push_digits(out: &mut String, n: u64)
    ensures
        final(out)@ == old(out)@ + digits(n as nat),
    decreases n,
{
    if n >= 10 {
        push_digits(out, n / 10);
    }
    out.push(digit_char(n % 10));
}

/// Writes `n` in decimal notation.
pub fn to_decimal(n: i64) -> (s: String)
    ensures
        s@ == decimal(n as int),
{
    let mut s = String::new();
    if n < 0 {
        s.push('-');
        push_digits(&mut s, (-(n as i128)) as u64);
    } else {
        push_digits(&mut s, n as u64);
    }
    s
}

/// The ten digits are written `0` to `9`.
pub proof fn lemma_digit_characters()
    ensures
        digit(0) == '0',
        digit(1) == '1',
        digit(2) == '2',
        digit(3) == '3',
        digit(4) == '4',
        digit(5) == '5',
        digit(6) == '6',
        digit(7) == '7',
        digit(8) == '8',
        digit(9) == '9',
{
}

/// Whether `c` is one of the ten digit characters.
pub open spec fn is_digit(c: char) -> bool {
    48 <= c as u32 <= 57
}

/// The digits of a number are at least one character, and digit characters
/// only.
pub proof fn lemma_digits_are_digits(n: nat)
    ensures
        digits(n).len() >= 1,
        forall|i: int| 0 <= i < digits(n).len() ==> is_digit(#[trigger] digits(n)[i]),
    decreases n,
{
    if n >= 10 {
        lemma_digits_are_digits(n / 10);
    }
}

/// Two numbers with the same digits are the same number.
pub proof fn lemma_digits_injective(a: nat, b: nat)
    requires
        digits(a) == digits(b),
    ensures
        a == b,
    decreases a,
{
    lemma_digits_are_digits(a / 10);
    lemma_digits_are_digits(b / 10);
    if a < 10 && b < 10 {
        assert(digits(a)[0] as int == 48 + a);
        assert(digits(b)[0] as int == 48 + b);
    } else if a >= 10 && b >= 10 {
        assert(digits(a).last() as int == 48 + a % 10);
        assert(digits(b).last() as int == 48 + b % 10);
        assert(digits(a).drop_last() == digits(a / 10));
        assert(digits(b).drop_last() == digits(b / 10));
        lemma_digits_injective(a / 10, b / 10);
    }
}

/// Decimal notation tells numbers apart: two integers that are written the
/// same are equal.
pub proof fn lemma_decimal_injective(a: int, b: int)
    requires
        decimal(a) == decimal(b),
    ensures
        a == b,
{
    let sign = seq!['-'];
    if a < 0 && b < 0 {
        let x = digits((-a) as nat);
        let y = digits((-b) as nat);
        assert(x == (sign + x).skip(1));
        assert(y == (sign + y).skip(1));
        lemma_digits_injective((-a) as nat, (-b) as nat);
    } else if a >= 0 && b >= 0 {
        lemma_digits_injective(a as nat, b as nat);
    } else if a < 0 {
        lemma_digits_are_digits(b as nat);
        assert(decimal(a)[0] == '-');
        assert(is_digit(digits(b as nat)[0]));
    } else {
        lemma_digits_are_digits(a as nat);
        assert(decimal(b)[0] == '-');
        assert(is_digit(digits(a as nat)[0]));
    }
}

} // verus!
