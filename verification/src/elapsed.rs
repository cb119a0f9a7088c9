//! Elapsed times: reading the decimal numeral that the server sends, the
//! latency bucket of a time, and the text that the table shows for it.
//!
//! A numeral is an optional plus sign, a run of digits or two runs with a
//! point between them, of which one may be empty, and an optional exponent:
//! `e` or `E`, an optional sign, and digits. `12`, `0.25`, `7.`, `.5`, `+1.5`,
//! `1e3` and `25E-1` are numerals. A minus sign before the numeral is not part
//! of one, for no time is negative. The value of a numeral is kept exact.

use vstd::prelude::*;
use vstd::string::*;
use crate::model::{Accent, ValidationError};
use crate::numeral::{
    capped,
    digit_of,
    digit_run,
    digits_value,
    is_digit,
    lemma_digit_run_bounds,
    lemma_pow10_grows,
    lemma_value_of_joined,
    lemma_zero_value,
    pow10,
    read_capped,
    read_number,
    scan_digits,
    sign_len,
};
use crate::text::{decimal_text, digit_char, push_decimal};

verus! {

/// Where the digits before the point end.
pub open spec fn whole_end(bytes: Seq<u8>) -> int {
    digit_run(bytes, sign_len(bytes))
}

/// Whether a point follows the digits of the whole part.
pub open spec fn has_point(bytes: Seq<u8>) -> bool {
    whole_end(bytes) < bytes.len() && bytes[whole_end(bytes)] == 46
}

/// Where the digits of the numeral end and its exponent, if any, begins.
pub open spec fn mantissa_end(bytes: Seq<u8>) -> int {
    if has_point(bytes) {
        digit_run(bytes, whole_end(bytes) + 1)
    } else {
        whole_end(bytes)
    }
}

/// The digits before the point.
pub open spec fn whole_digits(bytes: Seq<u8>) -> Seq<u8> {
    bytes.subrange(sign_len(bytes), whole_end(bytes))
}

/// The digits after the point.
pub open spec fn fraction_digits(bytes: Seq<u8>) -> Seq<u8> {
    if has_point(bytes) {
        bytes.subrange(whole_end(bytes) + 1, mantissa_end(bytes))
    } else {
        Seq::empty()
    }
}

/// All digits of the numeral before its exponent, the point left out.
pub open spec fn mantissa(bytes: Seq<u8>) -> Seq<u8> {
    whole_digits(bytes) + fraction_digits(bytes)
}

/// Whether the exponent has a sign.
pub open spec fn exponent_signed(bytes: Seq<u8>) -> bool {
    let at = mantissa_end(bytes) + 1;
    at < bytes.len() && (bytes[at] == 43 || bytes[at] == 45)
}

/// Whether the exponent is negative.
pub open spec fn exponent_negative(bytes: Seq<u8>) -> bool {
    let at = mantissa_end(bytes) + 1;
    at < bytes.len() && bytes[at] == 45
}

/// Where the digits of the exponent begin.
pub open spec fn exponent_start(bytes: Seq<u8>) -> int {
    if exponent_signed(bytes) {
        mantissa_end(bytes) + 2
    } else {
        mantissa_end(bytes) + 1
    }
}

/// Whether `bytes` is a decimal numeral.
pub open spec fn is_decimal(bytes: Seq<u8>) -> bool {
    &&& mantissa(bytes).len() >= 1
    &&& mantissa_end(bytes) < bytes.len() ==> {
        &&& bytes[mantissa_end(bytes)] == 101 || bytes[mantissa_end(bytes)] == 69
        &&& exponent_start(bytes) < bytes.len()
        &&& digit_run(bytes, exponent_start(bytes)) == bytes.len()
    }
}

/// The size of the exponent of a numeral, without its sign; 0 where it has
/// none.
pub open spec fn exponent_size(bytes: Seq<u8>) -> nat {
    if mantissa_end(bytes) < bytes.len() && exponent_start(bytes) <= bytes.len() {
        digits_value(bytes.subrange(exponent_start(bytes), bytes.len() as int))
    } else {
        0
    }
}

/// The exponent of a numeral; 0 where it has none.
pub open spec fn exponent_of(bytes: Seq<u8>) -> int {
    if exponent_negative(bytes) {
        -exponent_size(bytes)
    } else {
        exponent_size(bytes) as int
    }
}

/// The number of digits of the mantissa that stand before the point once
/// the exponent has moved it; negative where the point comes to stand before
/// the first digit.
pub open spec fn point_of(bytes: Seq<u8>) -> int {
    whole_digits(bytes).len() + exponent_of(bytes)
}

/// The digit at place `i` of `digits`; 0 outside of them.
pub open spec fn place(digits: Seq<u8>, i: int) -> nat {
    if 0 <= i < digits.len() {
        digit_of(digits[i])
    } else {
        0
    }
}

/// The whole part of the number that `digits` denote with the point before
/// place `point`.
pub open spec fn whole_at(digits: Seq<u8>, point: int) -> nat {
    if point <= 0 {
        0
    } else if point <= digits.len() {
        digits_value(digits.subrange(0, point))
    } else {
        digits_value(digits) * pow10((point - digits.len()) as nat)
    }
}

/// The first three digits after the point, as a number of thousandths.
pub open spec fn thousandths_at(digits: Seq<u8>, point: int) -> nat {
    100 * place(digits, point) + 10 * place(digits, point + 1) + place(digits, point + 2)
}

/// Whether a digit after the third behind the point is not 0.
pub open spec fn tail_at(digits: Seq<u8>, point: int) -> bool {
    exists|i: int| 0 <= i < digits.len() && point + 3 <= i && #[trigger] digits[i] != 48
}

/// The time that `digits` denote with the point before place `point`.
pub open spec fn elapsed_at(digits: Seq<u8>, point: int) -> Elapsed {
    Elapsed {
        whole: whole_at(digits, point) as u64,
        thousandths: thousandths_at(digits, point) as u16,
        tail: tail_at(digits, point),
    }
}

/// Whether `bytes` is a numeral whose whole part fits in 64 bits.
pub open spec fn readable(bytes: Seq<u8>) -> bool {
    is_decimal(bytes) && whole_at(mantissa(bytes), point_of(bytes)) <= u64::MAX
}

/// The time that a readable numeral denotes.
pub open spec fn elapsed_of(bytes: Seq<u8>) -> Elapsed {
    elapsed_at(mantissa(bytes), point_of(bytes))
}

/// An elapsed time in milliseconds: the whole milliseconds, the first three
/// digits of the fraction, and whether anything but zeros follows them.
#[derive(Clone, Copy, Debug, PartialEq, Eq, Structural)]
pub struct Elapsed {
    pub whole: u64,
    pub thousandths: u16,
    pub tail: bool,
}

/// The latency bucket of an elapsed time.
#[derive(Clone, Copy, Debug, PartialEq, Eq, Structural)]
pub enum LatencyBucket {
    /// Below 1 ms.
    Fast,
    /// From 1 ms to 20 ms, both included.
    Moderate,
    /// Above 20 ms.
    Slow,
}

impl Elapsed {
    /// The thousandths are three digits.
    pub open spec fn wf(self) -> bool {
        self.thousandths < 1000
    }

    /// The bucket of the time: fast below 1 ms, slow above 20 ms, moderate
    /// between them, 1 ms and 20 ms included.
    pub open spec fn bucket_of(self) -> LatencyBucket {
        if self.whole < 1 {
            LatencyBucket::Fast
        } else if self.whole > 20 || (self.whole == 20 && (self.thousandths > 0 || self.tail)) {
            LatencyBucket::Slow
        } else {
            LatencyBucket::Moderate
        }
    }

    /// The time in hundredths of a millisecond, rounded to the nearest,
    /// halves upwards.
    pub open spec fn hundredths_of(self) -> int {
        self.whole * 100 + self.thousandths / 10 + if self.thousandths % 10 >= 5 {
            1int
        } else {
            0int
        }
    }

    /// The text shown for the time: the milliseconds with two decimals.
    pub open spec fn text_of(self) -> Seq<char> {
        let h = self.hundredths_of();
        decimal_text((h / 100) as nat) + seq![
            '.',
            digit_char((h % 100 / 10) as nat),
            digit_char((h % 10) as nat),
        ] + " ms"@
    }

    /// Tells the latency bucket of the time.
    pub fn bucket(&self) -> (bucket: LatencyBucket)
        ensures
            bucket == self.bucket_of(),
    {
        if self.whole < 1 {
            LatencyBucket::Fast
        } else if self.whole > 20 || (self.whole == 20 && (self.thousandths > 0 || self.tail)) {
            LatencyBucket::Slow
        } else {
            LatencyBucket::Moderate
        }
    }

    /// Rounds the time to hundredths of a millisecond.
    pub fn hundredths(&self) -> (h: u128)
        requires
            self.wf(),
        ensures
            h == self.hundredths_of(),
    {
        let up: u128 = if self.thousandths % 10 >= 5 {
            1
        } else {
            0
        };
        self.whole as u128 * 100 + (self.thousandths / 10) as u128 + up
    }

    /// Writes the time with two decimals and its unit.
    pub fn text(&self) -> (text: String)
        requires
            self.wf(),
        ensures
            text@ == self.text_of(),
    {
        let h = self.hundredths();
        let mut text = String::new();
        push_decimal(&mut text, h / 100);
        proof {
            reveal_strlit(".");
        }
        text.append(".");
        push_decimal(&mut text, h % 100 / 10);
        push_decimal(&mut text, h % 10);
        text.append(" ms");
        proof {
            let tens = (h % 100 / 10) as nat;
            let ones = (h % 10) as nat;
            assert(decimal_text(tens) =~= seq![digit_char(tens)]);
            assert(decimal_text(ones) =~= seq![digit_char(ones)]);
            assert("."@ =~= seq!['.']);
            assert(text@ =~= self.text_of());
        }
        text
    }
}

impl LatencyBucket {
    /// The accent of the bucket: green, yellow, red as times grow.
    pub open spec fn accent_of(self) -> Accent {
        match self {
            LatencyBucket::Fast => Accent::Green,
            LatencyBucket::Moderate => Accent::Yellow,
            LatencyBucket::Slow => Accent::Red,
        }
    }

    /// The accent in which a time of this bucket is shown.
    pub fn accent(self) -> (accent: Accent)
        ensures
            accent == self.accent_of(),
    {
        match self {
            LatencyBucket::Fast => Accent::Green,
            LatencyBucket::Moderate => Accent::Yellow,
            LatencyBucket::Slow => Accent::Red,
        }
    }
}

/// The largest exponent that is told apart from larger ones: beyond it a
/// number is zero, or too small or too large to tell the difference.
pub const EXPONENT_CAP: u128 = 0x1_0000_0000_0000_0000_0000;

/// Twenty places more make any number but zero too large for 64 bits.
proof fn lemma_twenty_places(value: nat, places: nat)
    requires
        value >= 1,
        places >= 20,
    ensures
        value * pow10(places) > u64::MAX,
{
    reveal_with_fuel(pow10, 21);
    assert(pow10(20) == 100000000000000000000);
    lemma_pow10_grows(20, places);
    assert(value * pow10(places) >= pow10(20)) by (nonlinear_arith)
        requires
            value >= 1,
            pow10(places) >= pow10(20),
    ;
}

/// Two points that both lie twenty places or more behind the digits, or both
/// three places or more before them, give the same time, and the one fits
/// where the other does.
pub proof fn lemma_far_points(digits: Seq<u8>, one: int, other: int)
    requires
        one == other || (one >= digits.len() + 20 && other >= digits.len() + 20) || (one <= -3
            && other <= -3),
    ensures
        whole_at(digits, one) <= u64::MAX <==> whole_at(digits, other) <= u64::MAX,
        whole_at(digits, one) <= u64::MAX ==> elapsed_at(digits, one) == elapsed_at(digits, other),
{
    let n = digits.len() as int;
    if one != other && one >= n + 20 {
        let value = digits_value(digits);
        if value >= 1 {
            lemma_twenty_places(value, (one - n) as nat);
            lemma_twenty_places(value, (other - n) as nat);
        } else {
            assert(0 * pow10((one - n) as nat) == 0) by (nonlinear_arith);
            assert(0 * pow10((other - n) as nat) == 0) by (nonlinear_arith);
        }
    }
}

fn place_at(digits: &[u8], i: i128) -> (digit: u16)
    ensures
        digit == place(digits@, i as int),
        digit <= 9,
{
    if 0 <= i && i < digits.len() as i128 {
        let byte = digits[i as usize];
        if byte >= 48 && byte <= 57 {
            (byte - 48) as u16
        } else {
            0
        }
    } else {
        0
    }
}

fn whole_part(digits: &[u8], point: i128) -> (whole: Option<u64>)
    ensures
        match whole {
            Some(number) => number == whole_at(digits@, point as int),
            None => whole_at(digits@, point as int) > u64::MAX,
        },
{
    let n = digits.len();
    if point <= 0 {
        return Some(0);
    }
    if point <= n as i128 {
        return read_number(digits, 0, point as usize);
    }
    let ghost value = digits_value(digits@);
    let ghost places = (point - n) as nat;
    assert(digits@.subrange(0, n as int) =~= digits@);
    let start = match read_number(digits, 0, n) {
        Some(number) => number,
        None => {
            proof {
                lemma_pow10_grows(0, places);
                assert(value * pow10(places) >= value) by (nonlinear_arith)
                    requires
                        pow10(places) >= 1,
                ;
            }
            return None;
        },
    };
    if start == 0 {
        assert(0 * pow10(places) == 0) by (nonlinear_arith);
        return Some(0);
    }
    if point - n as i128 >= 20 {
        proof {
            lemma_twenty_places(value, places);
        }
        return None;
    }
    let more: u8 = (point - n as i128) as u8;
    let mut whole: u64 = start;
    let mut done: u8 = 0;
    assert(pow10(0) == 1);
    assert(value * 1 == value) by (nonlinear_arith);
    while done < more
        invariant
            0 <= done <= more < 20,
            more == places,
            point > digits@.len(),
            places == point - digits@.len(),
            value == digits_value(digits@),
            value >= 1,
            whole == value * pow10(done as nat),
        decreases more - done,
    {
        proof {
            assert(pow10((done + 1) as nat) == 10 * pow10(done as nat));
            assert(value * (10 * pow10(done as nat)) == (value * pow10(done as nat)) * 10)
                by (nonlinear_arith);
        }
        if whole > u64::MAX / 10 {
            proof {
                assert(whole * 10 > u64::MAX);
                assert(value * pow10((done + 1) as nat) == whole * 10);
                lemma_pow10_grows((done + 1) as nat, places);
                assert(value * pow10(places) >= value * pow10((done + 1) as nat))
                    by (nonlinear_arith)
                    requires
                        pow10(places) >= pow10((done + 1) as nat),
                        value >= 1,
                ;
            }
            return None;
        }
        whole = whole * 10;
        done += 1;
    }
    Some(whole)
}

fn has_tail(digits: &[u8], point: i128) -> (tail: bool)
    requires
        point <= i128::MAX - 3,
    ensures
        tail == tail_at(digits@, point as int),
{
    let n = digits.len();
    let first = point + 3;
    if first >= n as i128 {
        return false;
    }
    let mut i: usize = if first <= 0 {
        0
    } else {
        first as usize
    };
    while i < n
        invariant
            n == digits@.len(),
            0 <= i <= n,
            point + 3 <= i,
            i == 0 || i == point + 3 || i > point + 3,
            forall|j: int| 0 <= j < i && point + 3 <= j ==> digits@[j] == 48,
        decreases n - i,
    {
        if digits[i] != 48 {
            return true;
        }
        i += 1;
    }
    false
}

/// Reads the time that `digits` denote with the point before place `point`;
/// `None` where its whole part does not fit in 64 bits.
pub fn elapsed_from_digits(digits: &[u8], point: i128) -> (time: Option<Elapsed>)
    requires
        i128::MIN + 3 <= point <= i128::MAX - 3,
    ensures
        match time {
            Some(time) => {
                &&& whole_at(digits@, point as int) <= u64::MAX
                &&& time == elapsed_at(digits@, point as int)
                &&& time.wf()
            },
            None => whole_at(digits@, point as int) > u64::MAX,
        },
{
    let whole = match whole_part(digits, point) {
        Some(whole) => whole,
        None => {
            return None;
        },
    };
    let thousandths = 100 * place_at(digits, point) + 10 * place_at(digits, point + 1) + place_at(
        digits,
        point + 2,
    );
    let tail = has_tail(digits, point);
    Some(Elapsed { whole, thousandths, tail })
}

fn append_range(out: &mut Vec<u8>, bytes: &[u8], from: usize, to: usize)
    requires
        from <= to <= bytes@.len(),
    ensures
        final(out)@ == old(out)@ + bytes@.subrange(from as int, to as int),
{
    let mut i: usize = from;
    assert(out@ =~= old(out)@ + bytes@.subrange(from as int, from as int));
    while i < to
        invariant
            from <= i <= to <= bytes@.len(),
            out@ == old(out)@ + bytes@.subrange(from as int, i as int),
        decreases to - i,
    {
        out.push(bytes[i]);
        assert(out@ =~= old(out)@ + bytes@.subrange(from as int, i + 1));
        i += 1;
    }
}

/// The parts of a numeral: its digits without the point, the number of
/// them that stand before the point, and its exponent by sign and size, the
/// size read up to [`EXPONENT_CAP`].
pub struct Shape {
    pub digits: Vec<u8>,
    pub before: usize,
    pub negative: bool,
    pub size: u128,
}

impl Shape {
    /// Whether these are the parts of the numeral `bytes`.
    pub open spec fn shows(self, bytes: Seq<u8>) -> bool {
        &&& self.digits@ == mantissa(bytes)
        &&& self.before == whole_digits(bytes).len()
        &&& self.negative == exponent_negative(bytes)
        &&& self.size == capped(exponent_size(bytes), EXPONENT_CAP as nat)
    }
}

fn read_exponent(bytes: &[u8], end: usize) -> (exponent: Option<(bool, u128)>)
    requires
        end < bytes@.len(),
        end == mantissa_end(bytes@),
    ensures
        match exponent {
            Some((negative, size)) => {
                &&& bytes@[end as int] == 101 || bytes@[end as int] == 69
                &&& exponent_start(bytes@) < bytes@.len()
                &&& digit_run(bytes@, exponent_start(bytes@)) == bytes@.len()
                &&& negative == exponent_negative(bytes@)
                &&& size == capped(exponent_size(bytes@), EXPONENT_CAP as nat)
            },
            None => !({
                &&& bytes@[end as int] == 101 || bytes@[end as int] == 69
                &&& exponent_start(bytes@) < bytes@.len()
                &&& digit_run(bytes@, exponent_start(bytes@)) == bytes@.len()
            }),
        },
{
    let n = bytes.len();
    if bytes[end] != 101 && bytes[end] != 69 {
        return None;
    }
    let mut start = end + 1;
    let mut negative = false;
    if start < n && (bytes[start] == 43 || bytes[start] == 45) {
        negative = bytes[start] == 45;
        start += 1;
    }
    assert(start == exponent_start(bytes@));
    if start >= n || scan_digits(bytes, start) != n {
        return None;
    }
    Some((negative, read_capped(bytes, start, n, EXPONENT_CAP)))
}

/// Takes a numeral apart; `None` where `bytes` is no numeral.
pub fn read_shape(bytes: &[u8]) -> (shape: Option<Shape>)
    ensures
        match shape {
            Some(shape) => is_decimal(bytes@) && shape.shows(bytes@),
            None => !is_decimal(bytes@),
        },
{
    let n = bytes.len();
    let sign: usize = if n > 0 && bytes[0] == 43 {
        1
    } else {
        0
    };
    let point_at = scan_digits(bytes, sign);
    let dotted = point_at < n && bytes[point_at] == 46;
    let end = if dotted {
        scan_digits(bytes, point_at + 1)
    } else {
        point_at
    };
    assert(sign == sign_len(bytes@));
    assert(point_at == whole_end(bytes@));
    assert(dotted == has_point(bytes@));
    assert(end == mantissa_end(bytes@));
    let mut digits: Vec<u8> = Vec::new();
    append_range(&mut digits, bytes, sign, point_at);
    if dotted {
        append_range(&mut digits, bytes, point_at + 1, end);
    }
    assert(digits@ =~= mantissa(bytes@));
    if digits.len() == 0 {
        return None;
    }
    if end == n {
        return Some(Shape { digits, before: point_at - sign, negative: false, size: 0 });
    }
    match read_exponent(bytes, end) {
        Some((negative, size)) => Some(Shape { digits, before: point_at - sign, negative, size }),
        None => None,
    }
}

/// Reads the decimal numeral of an elapsed time. A text that is no numeral is
/// refused, and so is one whose whole part does not fit in 64 bits.
pub fn parse_elapsed(text: &str) -> (parsed: Result<Elapsed, ValidationError>)
    ensures
        match parsed {
            Ok(elapsed) => {
                &&& readable(text.spec_bytes())
                &&& elapsed == elapsed_of(text.spec_bytes())
                &&& elapsed.wf()
            },
            Err(error) => error == ValidationError::BadElapsed && !readable(text.spec_bytes()),
        },
{
    let shape = match read_shape(text.as_bytes()) {
        Some(shape) => shape,
        None => {
            return Err(ValidationError::BadElapsed);
        },
    };
    let point: i128 = if shape.negative {
        shape.before as i128 - shape.size as i128
    } else {
        shape.before as i128 + shape.size as i128
    };
    proof {
        lemma_far_points(shape.digits@, point_of(text.spec_bytes()), point as int);
    }
    match elapsed_from_digits(shape.digits.as_slice(), point) {
        Some(elapsed) => Ok(elapsed),
        None => Err(ValidationError::BadElapsed),
    }
}

/// Text and accent of the cell that shows how long a query took.
pub fn make_time_taken_and_color(elapsed: &str) -> (cell: Result<(String, Accent), ValidationError>)
    ensures
        match cell {
            Ok((text, accent)) => {
                &&& readable(elapsed.spec_bytes())
                &&& text@ == elapsed_of(elapsed.spec_bytes()).text_of()
                &&& accent == elapsed_of(elapsed.spec_bytes()).bucket_of().accent_of()
            },
            Err(error) => error == ValidationError::BadElapsed && !readable(elapsed.spec_bytes()),
        },
{
    match parse_elapsed(elapsed) {
        Ok(time) => Ok((time.text(), time.bucket().accent())),
        Err(error) => Err(error),
    }
}

/// The numerator of the exact value of `digits` with the point before place
/// `point`; the value is this over [`value_denominator`].
pub open spec fn value_numerator(digits: Seq<u8>, point: int) -> nat {
    if point >= digits.len() {
        digits_value(digits) * pow10((point - digits.len()) as nat)
    } else {
        digits_value(digits)
    }
}

/// The denominator of the exact value of `digits` with the point before
/// place `point`: a power of ten.
pub open spec fn value_denominator(digits: Seq<u8>, point: int) -> nat {
    if point >= digits.len() {
        1
    } else {
        pow10((digits.len() - point) as nat)
    }
}

/// The bucket of the time that digits denote with the point at a given place
/// goes by the exact value: fast where it is below 1, slow where it is above
/// 20, moderate from 1 to 20, both included.
pub proof fn lemma_bucket_at(digits: Seq<u8>, point: int)
    requires
        forall|i: int| 0 <= i < digits.len() ==> is_digit(#[trigger] digits[i]),
        whole_at(digits, point) <= u64::MAX,
    ensures
        elapsed_at(digits, point).bucket_of() == LatencyBucket::Fast <==> value_numerator(
            digits,
            point,
        ) < value_denominator(digits, point),
        elapsed_at(digits, point).bucket_of() == LatencyBucket::Slow <==> value_numerator(
            digits,
            point,
        ) > 20 * value_denominator(digits, point),
        elapsed_at(digits, point).bucket_of() == LatencyBucket::Moderate <==> value_denominator(
            digits,
            point,
        ) <= value_numerator(digits, point) <= 20 * value_denominator(digits, point),
{
    let n = digits.len() as int;
    let value = digits_value(digits);
    let time = elapsed_at(digits, point);
    if point >= n {
        let unit = pow10((point - n) as nat);
        assert(place(digits, point) == 0 && place(digits, point + 1) == 0 && place(
            digits,
            point + 2,
        ) == 0);
        assert(time.thousandths == 0);
        assert(!time.tail);
        assert(value_numerator(digits, point) == value * unit);
        assert(value_denominator(digits, point) == 1);
        if point <= 0 {
            assert(digits =~= Seq::<u8>::empty());
            assert(value == 0);
            assert(value * unit == 0) by (nonlinear_arith)
                requires
                    value == 0,
            ;
            assert(time.whole == 0);
        } else if point == n {
            assert(digits.subrange(0, n) =~= digits);
            assert(unit == 1);
            assert(value * unit == value) by (nonlinear_arith)
                requires
                    unit == 1,
            ;
            assert(time.whole == value);
        } else {
            assert(time.whole == value * unit);
        }
    } else if point < 0 {
        lemma_value_of_joined(Seq::<u8>::empty(), digits);
        lemma_pow10_grows(n as nat, (n - point) as nat);
    } else {
        let front = digits.subrange(0, point);
        let back = digits.subrange(point, n);
        assert(digits =~= front + back);
        lemma_value_of_joined(front, back);
        assert forall|i: int| 0 <= i < back.len() implies is_digit(#[trigger] back[i]) by {
            assert(back[i] == digits[point + i]);
        }
        lemma_zero_value(back);
        let unit = pow10(back.len());
        let w = digits_value(front);
        let f = digits_value(back);
        if point == 0 {
            assert(front =~= Seq::<u8>::empty());
        }
        assert(time.whole == w);
        let marked = time.thousandths > 0 || time.tail;
        if marked {
            if time.tail {
                let i = choose|i: int| 0 <= i < n && point + 3 <= i && #[trigger] digits[i] != 48;
                assert(back[i - point] != 48);
            } else {
                if place(digits, point) > 0 {
                    assert(back[0] != 48);
                } else if place(digits, point + 1) > 0 {
                    assert(back[1] != 48);
                } else {
                    assert(place(digits, point + 2) > 0);
                    assert(back[2] != 48);
                }
            }
            assert(f > 0);
        } else {
            assert forall|i: int| 0 <= i < back.len() implies #[trigger] back[i] == 48 by {
                assert(back[i] == digits[point + i]);
                if i >= 3 {
                    assert(!(digits[point + i] != 48));
                } else if i == 0 {
                    assert(place(digits, point) == 0);
                } else if i == 1 {
                    assert(place(digits, point + 1) == 0);
                } else {
                    assert(place(digits, point + 2) == 0);
                }
            }
            assert(f == 0);
        }
        assert((w < 1 <==> w * unit + f < unit) && ((w > 20 || (w == 20 && f > 0)) <==> w * unit
            + f > 20 * unit)) by (nonlinear_arith)
            requires
                0 <= f < unit,
                w >= 0,
        ;
    }
}

/// The bucket of a readable numeral goes by its exact value, which is
/// `value_numerator` over `value_denominator` of its digits and its point: the
/// time is fast where the value is below 1, slow where it is above 20, and
/// moderate from 1 to 20, both included.
pub proof fn lemma_bucket_by_value(bytes: Seq<u8>)
    requires
        readable(bytes),
    ensures
        elapsed_of(bytes).bucket_of() == LatencyBucket::Fast <==> value_numerator(
            mantissa(bytes),
            point_of(bytes),
        ) < value_denominator(mantissa(bytes), point_of(bytes)),
        elapsed_of(bytes).bucket_of() == LatencyBucket::Slow <==> value_numerator(
            mantissa(bytes),
            point_of(bytes),
        ) > 20 * value_denominator(mantissa(bytes), point_of(bytes)),
        elapsed_of(bytes).bucket_of() == LatencyBucket::Moderate <==> value_denominator(
            mantissa(bytes),
            point_of(bytes),
        ) <= value_numerator(mantissa(bytes), point_of(bytes)) <= 20 * value_denominator(
            mantissa(bytes),
            point_of(bytes),
        ),
{
    let digits = mantissa(bytes);
    let sign = sign_len(bytes);
    lemma_digit_run_bounds(bytes, sign);
    let point_at = whole_end(bytes);
    if has_point(bytes) {
        lemma_digit_run_bounds(bytes, point_at + 1);
    }
    let whole = whole_digits(bytes);
    let fraction = fraction_digits(bytes);
    assert forall|i: int| 0 <= i < digits.len() implies is_digit(#[trigger] digits[i]) by {
        if i < whole.len() {
            assert(digits[i] == bytes[sign + i]);
        } else {
            assert(digits[i] == fraction[i - whole.len()]);
            assert(fraction[i - whole.len()] == bytes[point_at + 1 + (i - whole.len())]);
        }
    }
    lemma_bucket_at(digits, point_of(bytes));
}

} // verus!
