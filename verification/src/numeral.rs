//! Runs of decimal digits in a text: where a run ends and what number it
//! denotes.

use vstd::prelude::*;

verus! {

/// Whether `byte` is one of the digits `0` to `9`.
pub open spec fn is_digit(byte: u8) -> bool {
    48 <= byte <= 57
}

/// The value of a digit; 0 for any other byte.
pub open spec fn digit_of(byte: u8) -> nat {
    if is_digit(byte) {
        (byte - 48) as nat
    } else {
        0
    }
}

/// The length of the sign before a number: 1 where the text starts with `+`.
pub open spec fn sign_len(bytes: Seq<u8>) -> int {
    if bytes.len() > 0 && bytes[0] == 43 {
        1
    } else {
        0
    }
}

/// The end of the run of digits that starts at `from`.
pub open spec fn digit_run(bytes: Seq<u8>, from: int) -> int
    decreases bytes.len() - from,
{
    if 0 <= from < bytes.len() && is_digit(bytes[from]) {
        digit_run(bytes, from + 1)
    } else {
        from
    }
}

/// The number that a run of digits denotes.
pub open spec fn digits_value(digits: Seq<u8>) -> nat
    decreases digits.len(),
{
    if digits.len() == 0 {
        0
    } else {
        digits_value(digits.drop_last()) * 10 + digit_of(digits.last())
    }
}

/// Ten to the power of `n`.
pub open spec fn pow10(n: nat) -> nat
    decreases n,
{
    if n == 0 {
        1
    } else {
        10 * pow10((n - 1) as nat)
    }
}

/// The smaller of `value` and `cap`.
pub open spec fn capped(value: nat, cap: nat) -> nat {
    if value < cap {
        value
    } else {
        cap
    }
}

/// A run of digits ends within the text, holds digits only, and ends before
/// a byte that is no digit.
pub proof fn lemma_digit_run_bounds(bytes: Seq<u8>, from: int)
    requires
        0 <= from <= bytes.len(),
    ensures
        from <= digit_run(bytes, from) <= bytes.len(),
        forall|i: int| from <= i < digit_run(bytes, from) ==> is_digit(#[trigger] bytes[i]),
        digit_run(bytes, from) < bytes.len() ==> !is_digit(bytes[digit_run(bytes, from)]),
    decreases bytes.len() - from,
{
    if from < bytes.len() && is_digit(bytes[from]) {
        lemma_digit_run_bounds(bytes, from + 1);
    }
}

/// The number of a run with one more digit at its end.
pub proof fn lemma_value_extends(bytes: Seq<u8>, from: int, to: int)
    requires
        0 <= from <= to < bytes.len(),
    ensures
        digits_value(bytes.subrange(from, to + 1)) == digits_value(bytes.subrange(from, to)) * 10
            + digit_of(bytes[to]),
{
    assert(bytes.subrange(from, to + 1).drop_last() =~= bytes.subrange(from, to));
}

/// The powers of ten are positive and grow with the exponent.
pub proof fn lemma_pow10_grows(smaller: nat, larger: nat)
    requires
        smaller <= larger,
    ensures
        1 <= pow10(smaller) <= pow10(larger),
    decreases larger,
{
    if larger > 0 {
        if smaller < larger {
            lemma_pow10_grows(smaller, (larger - 1) as nat);
        } else {
            lemma_pow10_grows((smaller - 1) as nat, (larger - 1) as nat);
        }
    }
}

/// The number of two runs joined is the number of the first, shifted by the
/// length of the second, plus the number of the second, which is less than
/// one such shift.
pub proof fn lemma_value_of_joined(front: Seq<u8>, back: Seq<u8>)
    ensures
        digits_value(front + back) == digits_value(front) * pow10(back.len()) + digits_value(back),
        digits_value(back) < pow10(back.len()),
    decreases back.len(),
{
    if back.len() == 0 {
        assert(front + back =~= front);
        assert(pow10(0) == 1);
        assert(digits_value(back) == 0);
        assert(digits_value(front) * 1 == digits_value(front)) by (nonlinear_arith);
    } else {
        let shorter = back.drop_last();
        lemma_value_of_joined(front, shorter);
        assert((front + back).drop_last() =~= front + shorter);
        assert((front + back).last() == back.last());
        let unit = pow10(shorter.len());
        assert(pow10(back.len()) == 10 * unit);
        let a = digits_value(front);
        let b = digits_value(shorter);
        let d = digit_of(back.last());
        assert(d <= 9);
        assert((a * unit + b) * 10 + d == a * (10 * unit) + (b * 10 + d)) by (nonlinear_arith);
        assert(digits_value(front + back) == digits_value(front + shorter) * 10 + d);
        assert(digits_value(back) == b * 10 + d);
        assert(b * 10 + d < 10 * unit);
    }
}

/// A run of digits denotes zero exactly where all its digits are `0`.
pub proof fn lemma_zero_value(digits: Seq<u8>)
    requires
        forall|i: int| 0 <= i < digits.len() ==> is_digit(#[trigger] digits[i]),
    ensures
        digits_value(digits) == 0 <==> forall|i: int|
            0 <= i < digits.len() ==> #[trigger] digits[i] == 48,
    decreases digits.len(),
{
    if digits.len() > 0 {
        let shorter = digits.drop_last();
        lemma_zero_value(shorter);
        assert(forall|i: int| 0 <= i < shorter.len() ==> shorter[i] == digits[i]);
        if digits_value(digits) == 0 {
            assert(digits_value(shorter) == 0 && digit_of(digits.last()) == 0);
            assert forall|i: int| 0 <= i < digits.len() implies #[trigger] digits[i] == 48 by {
                if i < shorter.len() {
                    assert(shorter[i] == 48);
                }
            }
        }
        if forall|i: int| 0 <= i < digits.len() ==> #[trigger] digits[i] == 48 {
            assert forall|i: int| 0 <= i < shorter.len() implies #[trigger] shorter[i] == 48 by {
                assert(digits[i] == 48);
            }
            assert(digits[digits.len() - 1] == 48);
        }
    }
}

/// Finds the end of the run of digits that starts at `from`.
pub fn scan_digits(bytes: &[u8], from: usize) -> (end: usize)
    requires
        from <= bytes@.len(),
    ensures
        end == digit_run(bytes@, from as int),
        from <= end <= bytes@.len(),
{
    let mut i: usize = from;
    proof {
        lemma_digit_run_bounds(bytes@, from as int);
    }
    while i < bytes.len() && bytes[i] >= 48 && bytes[i] <= 57
        invariant
            from <= i <= bytes@.len(),
            digit_run(bytes@, from as int) == digit_run(bytes@, i as int),
        decreases bytes@.len() - i,
    {
        i += 1;
    }
    i
}

/// The largest cap that [`read_capped`] takes.
pub const CAP_LIMIT: u128 = 0x0fff_ffff_ffff_ffff_ffff_ffff_ffff_ffff;

/// Reads the number that the bytes from `from` to `to` denote, as far as it
/// stays below `cap`; a larger number is read as `cap`.
pub fn read_capped(bytes: &[u8], from: usize, to: usize, cap: u128) -> (value: u128)
    requires
        from <= to <= bytes@.len(),
        cap <= CAP_LIMIT,
    ensures
        value == capped(digits_value(bytes@.subrange(from as int, to as int)), cap as nat),
{
    let mut value: u128 = 0;
    let mut i: usize = from;
    assert(bytes@.subrange(from as int, from as int) =~= Seq::<u8>::empty());
    while i < to
        invariant
            from <= i <= to <= bytes@.len(),
            cap <= CAP_LIMIT,
            value == capped(digits_value(bytes@.subrange(from as int, i as int)), cap as nat),
        decreases to - i,
    {
        let byte = bytes[i];
        let digit: u128 = if byte >= 48 && byte <= 57 {
            (byte - 48) as u128
        } else {
            0
        };
        proof {
            lemma_value_extends(bytes@, from as int, i as int);
        }
        let next: u128 = value * 10 + digit;
        value = if next < cap {
            next
        } else {
            cap
        };
        i += 1;
    }
    value
}

/// Reads the number that the bytes from `from` to `to` denote; `None` where
/// it does not fit in 64 bits.
pub fn read_number(bytes: &[u8], from: usize, to: usize) -> (value: Option<u64>)
    requires
        from <= to <= bytes@.len(),
    ensures
        match value {
            Some(number) => number == digits_value(bytes@.subrange(from as int, to as int)),
            None => digits_value(bytes@.subrange(from as int, to as int)) > u64::MAX,
        },
{
    let read = read_capped(bytes, from, to, 0x1_0000_0000_0000_0000);
    if read > 0xffff_ffff_ffff_ffff {
        None
    } else {
        Some(read as u64)
    }
}

} // verus!
