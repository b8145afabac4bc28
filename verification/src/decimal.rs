//! Decimal notation: the value of a run of digits, and the digits of a value.

use vstd::prelude::*;

verus! {

/// One of the ten characters `0` to `9`.
pub open spec fn is_decimal_digit(c: char) -> bool {
    '0' <= c <= '9'
}

/// Every character of `digits` is one of `0` to `9`.
pub open spec fn all_decimal_digits(digits: Seq<char>) -> bool {
    forall|i: int| 0 <= i < digits.len() ==> is_decimal_digit(#[trigger] digits[i])
}

/// The number that the digit `c` stands for.
pub open spec fn digit_value(c: char) -> int {
    c as int - '0' as int
}

/// The digit that stands for `d`, for `d` below ten.
pub open spec fn digit_char(d: nat) -> char {
    ('0' as int + d) as char
}

/// The number written by `digits` in base ten, most significant digit first.
/// The empty run is worth zero, and leading zeros do not count.
pub open spec fn decimal_value(digits: Seq<char>) -> int
    decreases digits.len(),
{
    if digits.len() == 0 {
        0
    } else {
        10 * decimal_value(digits.drop_last()) + digit_value(digits.last())
    }
}

/// The digits of `n` in base ten, most significant first, without leading
/// zeros; zero is written `0`.
pub open spec fn decimal_digits(n: nat) -> Seq<char>
    decreases n,
{
    if n < 10 {
        seq![digit_char(n)]
    } else {
        decimal_digits(n / 10).push(digit_char(n % 10))
    }
}

/// The decimal rendering of a signed integer: a minus sign for a negative
/// value, then the digits of its magnitude.
pub open spec fn decimal_text(i: int) -> Seq<char> {
    if i < 0 {
        seq!['-'] + decimal_digits((-i) as nat)
    } else {
        decimal_digits(i as nat)
    }
}

/// Ten to the power `k`.
pub open spec fn pow10(k: nat) -> nat
    decreases k,
{
    if k == 0 {
        1
    } else {
        10 * pow10((k - 1) as nat)
    }
}

/// A run of decimal digits is worth a natural number below ten to the power
/// of its length.
pub proof fn lemma_decimal_value_bound(digits: Seq<char>)
    requires
        all_decimal_digits(digits),
    ensures
        0 <= decimal_value(digits) < pow10(digits.len()),
    decreases digits.len(),
{
    if digits.len() > 0 {
        lemma_decimal_value_bound(digits.drop_last());
    }
}

/// The value of a run of decimal digits is at least the value of each of its
/// prefixes.
pub proof fn lemma_decimal_value_prefix(digits: Seq<char>, k: int)
    requires
        all_decimal_digits(digits),
        0 <= k <= digits.len(),
    ensures
        0 <= decimal_value(digits.take(k)) <= decimal_value(digits),
    decreases digits.len(),
{
    lemma_decimal_value_bound(digits.take(k));
    if k == digits.len() {
        assert(digits.take(k) =~= digits);
    } else {
        lemma_decimal_value_prefix(digits.drop_last(), k);
        assert(digits.drop_last().take(k) =~= digits.take(k));
    }
}

/// A number below ten to the power `k`, for `k` at least one, has at most `k`
/// digits, and every number has at least one.
pub proof fn lemma_decimal_digits_len(n: nat, k: nat)
    requires
        k >= 1,
        n < pow10(k),
    ensures
        1 <= decimal_digits(n).len() <= k,
    decreases n,
{
    if n >= 10 {
        assert(pow10(1) == 10) by {
            reveal_with_fuel(pow10, 2);
        }
        assert(k >= 2);
        lemma_decimal_digits_len(n / 10, (k - 1) as nat);
    }
}

/// Reading back the digits of a number gives the number, and they are
/// decimal digits.
pub proof fn lemma_decimal_round_trip(n: nat)
    ensures
        all_decimal_digits(decimal_digits(n)),
        decimal_value(decimal_digits(n)) == n,
    decreases n,
{
    let digits = decimal_digits(n);
    if n >= 10 {
        lemma_decimal_round_trip(n / 10);
        assert(digits.drop_last() =~= decimal_digits(n / 10));
        assert(digit_value(digits.last()) == n % 10);
    } else {
        assert(digits.drop_last() =~= Seq::<char>::empty());
        assert(decimal_value(digits.drop_last()) == 0);
        assert(digit_value(digits.last()) == n);
    }
}

/// A run of decimal digits that does not start with `0` is worth at least
/// one.
proof fn lemma_decimal_value_positive(digits: Seq<char>)
    requires
        digits.len() >= 1,
        all_decimal_digits(digits),
        digits[0] != '0',
    ensures
        decimal_value(digits) >= 1,
    decreases digits.len(),
{
    if digits.len() == 1 {
        assert(decimal_value(digits.drop_last()) == 0);
    } else {
        lemma_decimal_value_positive(digits.drop_last());
    }
}

/// Writing out the value of a run of decimal digits gives the run back where
/// the run has no leading zero: it is a single digit, or does not start with
/// `0`.
pub proof fn lemma_canonical_digits_are_kept(digits: Seq<char>)
    requires
        digits.len() >= 1,
        all_decimal_digits(digits),
        digits.len() == 1 || digits[0] != '0',
    ensures
        decimal_text(decimal_value(digits)) == digits,
    decreases digits.len(),
{
    let front = digits.drop_last();
    let value = decimal_value(digits);
    lemma_decimal_value_bound(front);
    if digits.len() == 1 {
        assert(decimal_value(front) == 0);
        assert(decimal_digits(value as nat) =~= digits);
    } else {
        lemma_decimal_value_positive(front);
        lemma_canonical_digits_are_kept(front);
        assert(value / 10 == decimal_value(front));
        assert(digit_char((value % 10) as nat) == digits.last());
        assert(decimal_digits(value as nat) =~= digits);
    }
}

/// Rendering the value of a non-empty run of decimal digits never takes more
/// characters than the run has: leading zeros are all that is lost.
pub proof fn lemma_rendering_fits_run(digits: Seq<char>)
    requires
        digits.len() >= 1,
        all_decimal_digits(digits),
    ensures
        1 <= decimal_text(decimal_value(digits)).len() <= digits.len(),
{
    lemma_decimal_value_bound(digits);
    lemma_decimal_digits_len(decimal_value(digits) as nat, digits.len());
}

/// `String::push` appends one character to the end of the string.
pub assume_specification[ String::push ](s: &mut String, ch: char)
    ensures
        final(s)@ == old(s)@.push(ch),
;

/// The character that stands for the digit `d`.
fn digit_of(d: u8) -> (c: char)
    requires
        d < 10,
    ensures
        c == digit_char(d as nat),
{
    (48u8 + d) as char
}

/// The magnitude of `i`.
fn magnitude(i: isize) -> (m: usize)
    ensures
        m == if i < 0 {
            -i
        } else {
            i as int
        },
{
    if i < 0 {
        (-(i + 1)) as usize + 1
    } else {
        i as usize
    }
}

/// Counts the decimal digits of `m`.
fn digits_len(m: usize) -> (n: usize)
    ensures
        n == decimal_digits(m as nat).len(),
        n == 1 || n <= m,
    decreases m,
{
    if m < 10 {
        1
    } else {
        1 + digits_len(m / 10)
    }
}

/// Appends the decimal digits of `m` to `out`.
fn push_digits(out: &mut String, m: usize)
    ensures
        final(out)@ == old(out)@ + decimal_digits(m as nat),
    decreases m,
{
    if m >= 10 {
        push_digits(out, m / 10);
    }
    out.push(digit_of((m % 10) as u8));
    assert(final(out)@ =~= old(out)@ + decimal_digits(m as nat));
}

/// The length of the decimal rendering of `i`.
pub fn decimal_len(i: isize) -> (n: usize)
    ensures
        n == decimal_text(i as int).len(),
        n >= 1,
{
    let digits = digits_len(magnitude(i));
    if i < 0 {
        digits + 1
    } else {
        digits
    }
}

/// Appends the decimal rendering of `i` to `out`.
pub fn push_decimal(out: &mut String, i: isize)
    ensures
        final(out)@ == old(out)@ + decimal_text(i as int),
{
    if i < 0 {
        out.push('-');
    }
    push_digits(out, magnitude(i));
    assert(final(out)@ =~= old(out)@ + decimal_text(i as int));
}

/// Extends the value `acc` of a run of digits by one more character: the
/// value of the longer run, unless the character is no decimal digit or the
/// value no longer fits.
pub fn append_digit(acc: isize, c: char) -> (r: Option<isize>)
    requires
        acc >= 0,
    ensures
        r == if is_decimal_digit(c) && 10 * acc + digit_value(c) <= isize::MAX {
            Some((10 * acc + digit_value(c)) as isize)
        } else {
            None
        },
{
    if '0' <= c && c <= '9' {
        let d: isize = (c as u32 - 48) as isize;
        if acc <= (isize::MAX - d) / 10 {
            Some(10 * acc + d)
        } else {
            None
        }
    } else {
        None
    }
}

} // verus!
