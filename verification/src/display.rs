//! How a duration is shown: its count in the display unit, written out as a
//! decimal number without any rounding, and the unit's suffix.

use crate::time::{Duration, TimeUnit, TimeValue};
use vstd::prelude::*;
use vstd::string::*;

verus! {

/// The character of the decimal digit `d`.
pub open spec fn digit_char(d: int) -> char {
    if d == 0 {
        '0'
    } else if d == 1 {
        '1'
    } else if d == 2 {
        '2'
    } else if d == 3 {
        '3'
    } else if d == 4 {
        '4'
    } else if d == 5 {
        '5'
    } else if d == 6 {
        '6'
    } else if d == 7 {
        '7'
    } else if d == 8 {
        '8'
    } else {
        '9'
    }
}

/// The decimal digits of `n`, with no leading zero but for zero itself.
pub open spec fn decimal(n: nat) -> Seq<char>
    decreases n,
{
    if n < 10 {
        seq![digit_char(n as int)]
    } else {
        decimal(n / 10).push(digit_char((n % 10) as int))
    }
}

/// A power of ten up to the largest factor of a unit.
pub open spec fn is_scale(scale: nat) -> bool {
    ||| scale == 1
    ||| scale == 10
    ||| scale == 100
    ||| scale == 1_000
    ||| scale == 10_000
    ||| scale == 100_000
    ||| scale == 1_000_000
    ||| scale == 10_000_000
    ||| scale == 100_000_000
    ||| scale == 1_000_000_000
}

/// The digits after the decimal point of `part / scale`, for a part below the
/// scale: exactly as many as it takes, so that the last one is not a zero.
pub open spec fn fraction(part: nat, scale: nat) -> Seq<char>
    decreases scale,
{
    if part == 0 || scale <= 1 {
        Seq::empty()
    } else {
        seq![digit_char((part / (scale / 10)) as int)] + fraction(part % (scale / 10), scale / 10)
    }
}

/// The size of `x` without its sign.
pub open spec fn magnitude(x: int) -> nat {
    if x < 0 {
        (-x) as nat
    } else {
        x as nat
    }
}

/// The quotient `nanos / factor` as a decimal number: a `-` where it is
/// negative, the whole part, and the point and the fraction where there is one.
pub open spec fn shown_count(nanos: int, factor: int) -> Seq<char> {
    let whole = magnitude(nanos) / (factor as nat);
    let part = magnitude(nanos) % (factor as nat);
    let sign = if nanos < 0 { seq!['-'] } else { Seq::empty() };
    let tail = if part == 0 { Seq::empty() } else { seq!['.'] + fraction(part, factor as nat) };
    sign + decimal(whole) + tail
}

/// The text of a duration: its count in the unit it is shown in, and right
/// after it the unit's suffix.
pub open spec fn rendered(d: Duration) -> Seq<char> {
    shown_count(d.nanos, d.unit.factor()) + d.unit.suffix()
}

/// The text of one decimal digit.
fn digit_str(d: u64) -> (s: &'static str)
    requires
        d < 10,
    ensures
        s@ == seq![digit_char(d as int)],
{
    proof {
        reveal_strlit("0");
        reveal_strlit("1");
        reveal_strlit("2");
        reveal_strlit("3");
        reveal_strlit("4");
        reveal_strlit("5");
        reveal_strlit("6");
        reveal_strlit("7");
        reveal_strlit("8");
        reveal_strlit("9");
    }
    let s = match d {
        0 => "0",
        1 => "1",
        2 => "2",
        3 => "3",
        4 => "4",
        5 => "5",
        6 => "6",
        7 => "7",
        8 => "8",
        _ => "9",
    };
    assert(s@ =~= seq![digit_char(d as int)]);
    s
}

/// Writes the decimal digits of `n` at the end of `text`.
fn push_decimal(text: &mut String, n: u64)
    ensures
        final(text)@ == old(text)@ + decimal(n as nat),
    decreases n,
{
    if n >= 10 {
        push_decimal(text, n / 10);
    }
    text.append(digit_str(n % 10));
    assert(final(text)@ =~= old(text)@ + decimal(n as nat));
}

/// Writes the digits after the decimal point of `part / scale` at the end of
/// `text`.
fn push_fraction(text: &mut String, part: u64, scale: u64)
    requires
        is_scale(scale as nat),
        part < scale,
    ensures
        final(text)@ == old(text)@ + fraction(part as nat, scale as nat),
    decreases scale,
{
    if part != 0 && scale > 1 {
        let step: u64 = scale / 10;
        assert(scale == 10 * step && is_scale(step as nat));
        assert(part / step < 10) by (nonlinear_arith)
            requires
                part < 10 * step,
                step > 0,
        ;
        text.append(digit_str(part / step));
        push_fraction(text, part % step, step);
    }
    assert(final(text)@ =~= old(text)@ + fraction(part as nat, scale as nat));
}

impl TimeValue {
    /// The duration as text: the nanoseconds divided by the factor of the
    /// display unit, written without rounding and without needless zeros, and
    /// the suffix of that unit with no space between the two.
    pub fn to_string(&self) -> (text: String)
        ensures
            text@ == rendered(self@),
    {
        let nanos: i64 = self.nanos();
        let unit: TimeUnit = self.unit();
        let factor: u64 = unit.nanos_per_unit() as u64;
        let size: u64 = if nanos == i64::MIN {
            9_223_372_036_854_775_808
        } else if nanos < 0 {
            (-nanos) as u64
        } else {
            nanos as u64
        };
        let mut text = String::from_str("");
        proof {
            reveal_strlit("");
            reveal_strlit("-");
            reveal_strlit(".");
        }
        if nanos < 0 {
            text.append("-");
        }
        push_decimal(&mut text, size / factor);
        let part: u64 = size % factor;
        if part != 0 {
            text.append(".");
            push_fraction(&mut text, part, factor);
        }
        text.append(unit.as_str());
        assert(text@ =~= rendered(self@));
        text
    }
}

} // verus!
