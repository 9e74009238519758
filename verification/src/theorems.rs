//! What holds between reading, arithmetic and showing: general statements
//! about the spec functions in which the contracts of this crate are written.

use crate::calculate::eval;
use crate::display::{decimal, digit_char, fraction, is_scale, magnitude, rendered, shown_count};
use crate::operations::BinaryOperator;
use crate::parse::{
    lemma_spelling_letters, spelled_unit, spelling, spelling_count, unit_at, unit_from,
};
use crate::text::{
    begins_with_word, digit_run, digits_value, has_sign, is_digit, lowered, number_at,
    skip_blanks, skip_white_space,
};
use crate::time::{combine, duration_of, shown_in, Duration, TimeUnit};
use vstd::prelude::*;

verus! {

/// A whole number as it is written: a `-` where it is negative, and its
/// decimal digits.
pub open spec fn signed_decimal(n: int) -> Seq<char> {
    if n < 0 {
        seq!['-'] + decimal(magnitude(n))
    } else {
        decimal(magnitude(n))
    }
}

/// Every character of `s` is a decimal digit.
pub open spec fn all_digits(s: Seq<char>) -> bool {
    forall|i: int| 0 <= i < s.len() ==> is_digit(#[trigger] s[i])
}

/// The decimal digits of a number are digits, at least one of them, and they
/// write that number.
pub proof fn lemma_decimal_writes_number(n: nat)
    ensures
        all_digits(decimal(n)),
        decimal(n).len() > 0,
        digits_value(decimal(n)) == n,
    decreases n,
{
    if n < 10 {
        let s = decimal(n);
        assert(s.drop_last() =~= Seq::<char>::empty());
        assert(digits_value(s.drop_last()) == 0);
        assert(s.last() == digit_char(n as int));
    } else {
        lemma_decimal_writes_number(n / 10);
        let s = decimal(n);
        assert(s.drop_last() =~= decimal(n / 10));
        assert(s.last() == digit_char((n % 10) as int));
    }
}

/// A run of digits ends where the digits end.
pub proof fn lemma_digit_run_of_digits(digits: Seq<char>, rest: Seq<char>)
    requires
        all_digits(digits),
        rest.len() == 0 || !is_digit(rest[0]),
    ensures
        digit_run(digits + rest) == digits.len(),
    decreases digits.len(),
{
    let s = digits + rest;
    if digits.len() == 0 {
        assert(s =~= rest);
    } else {
        assert(s[0] == digits[0]);
        assert(s.skip(1) =~= digits.skip(1) + rest);
        assert forall|i: int| 0 <= i < digits.skip(1).len() implies is_digit(
            #[trigger] digits.skip(1)[i],
        ) by {
            assert(digits.skip(1)[i] == digits[i + 1]);
        }
        lemma_digit_run_of_digits(digits.skip(1), rest);
    }
}

/// Reading a number gives back what was written: for every number of 64 bits,
/// written in decimal and followed by anything but a digit, the number rule
/// yields that number and leaves what follows.
pub proof fn lemma_number_reads_back(n: int, rest: Seq<char>)
    requires
        i64::MIN <= n <= i64::MAX,
        rest.len() == 0 || !is_digit(rest[0]),
    ensures
        number_at(signed_decimal(n) + rest) == Some((n, rest)),
{
    let digits = decimal(magnitude(n));
    let s = signed_decimal(n) + rest;
    lemma_decimal_writes_number(magnitude(n));
    lemma_digit_run_of_digits(digits, rest);
    if n < 0 {
        assert(s[0] == '-');
        assert(s.skip(1) =~= digits + rest);
        assert((digits + rest).take(digits.len() as int) =~= digits);
        assert((digits + rest).skip(digits.len() as int) =~= rest);
    } else {
        assert(s[0] == digits[0]);
        assert(is_digit(digits[0]));
        assert(!has_sign(s));
        assert(s.take(digits.len() as int) =~= digits);
        assert(s.skip(digits.len() as int) =~= rest);
    }
}

/// A whole count is shown as it was given: the duration of `count` times
/// `unit`, where that product fits 64 bits of nanoseconds, is shown as the
/// count itself, with no fraction, and the unit's suffix.
pub proof fn lemma_whole_count_is_shown_unchanged(count: int, unit: TimeUnit)
    requires
        i64::MIN <= count * unit.factor() <= i64::MAX,
    ensures
        rendered(duration_of(count, unit)) == signed_decimal(count) + unit.suffix(),
{
    let factor = unit.factor();
    let nanos = count * factor;
    let size = magnitude(count);
    assert(magnitude(nanos) == size * factor && (nanos < 0 <==> count < 0)) by (nonlinear_arith)
        requires
            nanos == count * factor,
            factor > 0,
            size == magnitude(count),
    ;
    assert((size * factor) / factor == size && (size * factor) % factor == 0) by (nonlinear_arith)
        requires
            factor > 0,
            size >= 0,
    ;
    assert(shown_count(nanos, factor) =~= signed_decimal(count));
}

/// Reading and then showing gives back what was written: an expression that
/// is one count, written in decimal, and one unit, with or without blanks
/// between them and whitespace behind, evaluates to a duration that is shown
/// as that count and the suffix of that unit. The count times the unit's
/// factor has to fit 64 bits of nanoseconds.
pub proof fn lemma_written_value_is_shown_as_written(
    count: int,
    unit: TimeUnit,
    tail: Seq<char>,
)
    requires
        i64::MIN <= count <= i64::MAX,
        i64::MIN <= count * unit.factor() <= i64::MAX,
        tail.len() == 0 || !is_digit(tail[0]),
        unit_at(skip_blanks(tail)) matches Ok((u, rest)) && u == unit && skip_white_space(
            rest,
        ).len() == 0,
    ensures
        eval(signed_decimal(count) + tail) matches Ok(d) && d == duration_of(count, unit)
            && rendered(d) == signed_decimal(count) + unit.suffix(),
{
    lemma_number_reads_back(count, tail);
    lemma_whole_count_is_shown_unchanged(count, unit);
}

/// A conversion changes how a duration is shown and nothing else: whatever
/// units it goes through, its nanoseconds stay, and shown in its first unit
/// again it is the duration it was.
pub proof fn lemma_conversion_keeps_nanoseconds(d: Duration, first: TimeUnit, second: TimeUnit)
    ensures
        shown_in(d, first).nanos == d.nanos,
        shown_in(shown_in(d, first), second) == shown_in(d, second),
        shown_in(shown_in(d, first), d.unit) == d,
{
}

/// Operands are combined in nanoseconds, whatever their units: the result of
/// an operator depends on the unit of neither side but for the unit it is
/// shown in, which is that of the left side. Within the 64-bit range, what is
/// added can be taken away again.
pub proof fn lemma_arithmetic_is_in_nanoseconds(
    lhs: Duration,
    op: BinaryOperator,
    rhs: Duration,
    unit: TimeUnit,
)
    ensures
        combine(lhs, op, shown_in(rhs, unit)) == combine(lhs, op, rhs),
        combine(shown_in(lhs, unit), op, rhs) == shown_in(combine(lhs, op, rhs), unit),
        i64::MIN <= lhs.nanos <= i64::MAX && i64::MIN <= lhs.nanos + rhs.nanos <= i64::MAX
            ==> combine(combine(lhs, BinaryOperator::Plus, rhs), BinaryOperator::Minus, rhs)
            == lhs,
{
}

/// Ten to the power of `k`.
pub open spec fn pow10(k: nat) -> nat
    decreases k,
{
    if k == 0 {
        1
    } else {
        10 * pow10((k - 1) as nat)
    }
}

/// A digit in front of a run of digits counts ten to the length of the run.
pub proof fn lemma_leading_digit_value(d: char, digits: Seq<char>)
    ensures
        digits_value(seq![d] + digits) == (d as int - '0' as int) * pow10(digits.len())
            + digits_value(digits),
    decreases digits.len(),
{
    let s = seq![d] + digits;
    if digits.len() == 0 {
        assert(s.drop_last() =~= Seq::<char>::empty());
        assert(digits_value(s.drop_last()) == 0);
        assert(s.last() == d);
        assert(pow10(0) == 1);
        assert(digits_value(digits) == 0);
        assert((d as int - '0' as int) * 1 == d as int - '0' as int);
    } else {
        assert(s.drop_last() =~= seq![d] + digits.drop_last());
        assert(s.last() == digits.last());
        lemma_leading_digit_value(d, digits.drop_last());
        let a = d as int - '0' as int;
        let p = pow10(digits.drop_last().len()) as int;
        let v = digits_value(digits.drop_last());
        assert(pow10(digits.len()) == 10 * p);
        assert((a * p + v) * 10 == a * (10 * p) + v * 10) by (nonlinear_arith);
        assert(digits_value(s) == (a * p + v) * 10 + (digits.last() as int - '0' as int));
        assert(digits_value(digits) == v * 10 + (digits.last() as int - '0' as int));
    }
}

/// The digits after the point are the exact quotient: for a part below a
/// scale that is a power of ten, the fraction is made of digits only, it
/// writes `part / scale` with nothing cut off or rounded, and it ends in no
/// zero.
pub proof fn lemma_fraction_is_exact(part: nat, scale: nat)
    requires
        is_scale(scale),
        part < scale,
    ensures
        all_digits(fraction(part, scale)),
        digits_value(fraction(part, scale)) * scale == part * pow10(fraction(part, scale).len()),
        part > 0 ==> fraction(part, scale).len() > 0 && fraction(part, scale).last() != '0',
        part == 0 ==> fraction(part, scale).len() == 0,
    decreases scale,
{
    let digits = fraction(part, scale);
    if part == 0 || scale <= 1 {
        assert(digits_value(digits) == 0);
    } else {
        let step = scale / 10;
        let leading = part / step;
        let left = part % step;
        let tail = fraction(left, step);
        assert(scale == 10 * step && is_scale(step));
        assert(leading < 10) by (nonlinear_arith)
            requires
                leading == part / step,
                part < 10 * step,
                step > 0,
        ;
        assert(part == leading * step + left) by (nonlinear_arith)
            requires
                leading == part / step,
                left == part % step,
                step > 0,
        ;
        lemma_fraction_is_exact(left, step);
        lemma_leading_digit_value(digit_char(leading as int), tail);
        assert(digits =~= seq![digit_char(leading as int)] + tail);
        assert(digit_char(leading as int) as int - '0' as int == leading);
        assert forall|i: int| 0 <= i < digits.len() implies is_digit(#[trigger] digits[i]) by {
            if i > 0 {
                assert(digits[i] == tail[i - 1]);
            }
        }
        let p = pow10(tail.len()) as int;
        let v = digits_value(tail);
        assert(pow10(digits.len()) == 10 * p);
        assert((leading * p + v) * (10 * step) == (leading * step + left) * (10 * p))
            by (nonlinear_arith)
            requires
                v * step == left * p,
        ;
        if left == 0 {
            assert(tail.len() == 0);
            assert(leading > 0);
            assert(digits.last() == digit_char(leading as int));
        } else {
            assert(digits.last() == tail.last());
        }
    }
}

/// From any place in the table up to a spelling that the input begins with,
/// the search ends at a spelling of the same unit that is no shorter.
proof fn lemma_spelling_found_from(s: Seq<char>, i: int, j: int)
    requires
        0 <= j <= i < spelling_count(),
        begins_with_word(s, spelling(i)),
    ensures
        unit_from(s, j) matches Ok((unit, rest)) && unit == spelled_unit(i) && rest.len()
            + spelling(i).len() <= s.len(),
    decreases i - j,
{
    lemma_spelling_letters();
    if j < i {
        if begins_with_word(s, spelling(j)) {
            if spelling(i).len() >= 3 && spelling(j).len() >= 3 {
                assert(lowered(s[0]) == spelling(i)[0] && lowered(s[0]) == spelling(j)[0]);
                assert(lowered(s[1]) == spelling(i)[1] && lowered(s[1]) == spelling(j)[1]);
                assert(lowered(s[2]) == spelling(i)[2] && lowered(s[2]) == spelling(j)[2]);
            } else if spelling(i).len() >= 2 && spelling(j).len() >= 2 {
                assert(lowered(s[0]) == spelling(i)[0] && lowered(s[0]) == spelling(j)[0]);
                assert(lowered(s[1]) == spelling(i)[1] && lowered(s[1]) == spelling(j)[1]);
            } else {
                assert(lowered(s[0]) == spelling(i)[0] && lowered(s[0]) == spelling(j)[0]);
            }
            assert(spelled_unit(j) == spelled_unit(i));
            assert(spelling(j).len() >= spelling(i).len());
        } else {
            lemma_spelling_found_from(s, i, j + 1);
        }
    }
}

/// The longest spelling wins: where the input begins with a spelling of a
/// unit, in any mix of case, the unit rule yields the unit that this spelling
/// names and takes at least this spelling, never a shorter one in its place.
pub proof fn lemma_longest_spelling_wins(s: Seq<char>, i: int)
    requires
        0 <= i < spelling_count(),
        begins_with_word(s, spelling(i)),
    ensures
        unit_at(s) matches Ok((unit, rest)) && unit == spelled_unit(i) && rest.len()
            + spelling(i).len() <= s.len(),
{
    lemma_spelling_found_from(s, i, 0);
}

} // verus!
