//! Numerals: the text of a number as it stands in the source, and the
//! number that it denotes.
//!
//! A decimal numeral is kept as its text, a hexadecimal one as its value.
//! Both denote `significand * 10^exponent`; turning that into a
//! floating-point number is left to the caller.

use crate::chars::{
    decimal_digit, decimal_digit_value, hex_digit_value, hex_value, is_decimal_digit,
    is_hex_digit,
};
use vstd::prelude::*;

verus! {

/// The number of a numeric literal.
#[derive(Debug, Clone, PartialEq, Eq)]
pub enum Numeral {
    /// A decimal numeral, by its text: digits, then at most one point with
    /// the digits behind it, then at most one exponent.
    Decimal(String),
    /// A hexadecimal integer, by its value.
    Hexadecimal(i64),
}

/// A numeral as mathematics sees it.
pub enum NumeralView {
    /// The text of a decimal numeral.
    Decimal(Seq<char>),
    /// The value of a hexadecimal integer.
    Hexadecimal(int),
}

impl View for Numeral {
    type V = NumeralView;

    open spec fn view(&self) -> NumeralView {
        match self {
            Numeral::Decimal(text) => NumeralView::Decimal(text@),
            Numeral::Hexadecimal(value) => NumeralView::Hexadecimal(*value as int),
        }
    }
}

/// The end of the run of decimal digits of `t` that begins at `i`: the
/// first index from `i` on that holds no decimal digit, or the length.
pub open spec fn digits_end(t: Seq<char>, i: int) -> int
    decreases t.len() - i,
{
    if 0 <= i < t.len() && is_decimal_digit(t[i]) {
        digits_end(t, i + 1)
    } else {
        i
    }
}

/// The end of the integer part and of the fraction that may follow it: the
/// leading digits, then, if a point follows them, the point and the digits
/// behind it.
pub open spec fn fraction_end(t: Seq<char>) -> int {
    let a = digits_end(t, 0);
    if a < t.len() && t[a] == '.' {
        digits_end(t, a + 1)
    } else {
        a
    }
}

/// Where the digits of the exponent begin, in a numeral whose exponent
/// mark stands at `fraction_end(t)`: behind the mark, and behind the minus
/// sign if one follows the mark.
pub open spec fn exponent_digits_start(t: Seq<char>) -> int {
    let b = fraction_end(t);
    if b + 1 < t.len() && t[b + 1] == '-' {
        b + 2
    } else {
        b + 1
    }
}

/// `t` is a decimal numeral: one or more digits; then, optionally, a point
/// and any number of digits; then, optionally, `e` or `E`, an optional
/// minus sign and one or more digits; and nothing else.
pub open spec fn is_decimal_numeral(t: Seq<char>) -> bool {
    let b = fraction_end(t);
    let d = exponent_digits_start(t);
    &&& digits_end(t, 0) > 0
    &&& b < t.len() ==> {
        &&& t[b] == 'e' || t[b] == 'E'
        &&& d < digits_end(t, d)
        &&& digits_end(t, d) == t.len()
    }
}

/// The number that a sequence of decimal digits denotes.
pub open spec fn digits_value(ds: Seq<char>) -> nat
    decreases ds.len(),
{
    if ds.len() == 0 {
        0
    } else {
        digits_value(ds.drop_last()) * 10 + decimal_digit_value(ds.last())
    }
}

/// The number that a sequence of hexadecimal digits denotes.
pub open spec fn hex_digits_value(ds: Seq<char>) -> nat
    decreases ds.len(),
{
    if ds.len() == 0 {
        0
    } else {
        hex_digits_value(ds.drop_last()) * 16 + hex_digit_value(ds.last())
    }
}

/// Every character of `t` is a hexadecimal digit.
pub open spec fn all_hex_digits(t: Seq<char>) -> bool {
    forall|i: int| 0 <= i < t.len() ==> is_hex_digit(#[trigger] t[i])
}

/// The value of the hexadecimal numeral `t`: `t` holds at least one
/// character, all of them hexadecimal digits, and the number they denote
/// fits in an `i64`. `None` otherwise.
pub open spec fn hex_numeral_value(t: Seq<char>) -> Option<int> {
    if t.len() > 0 && all_hex_digits(t) && hex_digits_value(t) <= i64::MAX {
        Some(hex_digits_value(t) as int)
    } else {
        None
    }
}

impl NumeralView {
    /// A decimal numeral follows the grammar, a hexadecimal value is not
    /// negative.
    pub open spec fn wf(self) -> bool {
        match self {
            NumeralView::Decimal(t) => is_decimal_numeral(t),
            NumeralView::Hexadecimal(v) => 0 <= v <= i64::MAX,
        }
    }

    /// The digits of the numeral read as one whole number: for a decimal
    /// numeral the digits before the point followed by those behind it.
    pub open spec fn significand(self) -> nat {
        match self {
            NumeralView::Decimal(t) => {
                let a = digits_end(t, 0);
                let b = fraction_end(t);
                if a < b {
                    digits_value(t.subrange(0, a) + t.subrange(a + 1, b))
                } else {
                    digits_value(t.subrange(0, a))
                }
            },
            NumeralView::Hexadecimal(v) => v as nat,
        }
    }

    /// The power of ten that scales the significand: the written exponent,
    /// less the number of digits behind the point.
    pub open spec fn exponent(self) -> int {
        match self {
            NumeralView::Decimal(t) => {
                let a = digits_end(t, 0);
                let b = fraction_end(t);
                let d = exponent_digits_start(t);
                let fraction_digits = if a < b {
                    b - a - 1
                } else {
                    0
                };
                let written = if b < t.len() {
                    let magnitude = digits_value(t.subrange(d, t.len() as int)) as int;
                    if d == b + 2 {
                        -magnitude
                    } else {
                        magnitude
                    }
                } else {
                    0
                };
                written - fraction_digits
            },
            NumeralView::Hexadecimal(_) => 0,
        }
    }
}

/// A run of digits ends at or behind its start, inside the text; up to its
/// end every character is a digit, and at its end stands none.
pub proof fn lemma_digits_end(t: Seq<char>, i: int)
    requires
        0 <= i <= t.len(),
    ensures
        i <= digits_end(t, i) <= t.len(),
        forall|k: int| i <= k < digits_end(t, i) ==> is_decimal_digit(#[trigger] t[k]),
        digits_end(t, i) < t.len() ==> !is_decimal_digit(t[digits_end(t, i)]),
    decreases t.len() - i,
{
    if i < t.len() && is_decimal_digit(t[i]) {
        lemma_digits_end(t, i + 1);
    }
}

/// A run of digits is the same run from each index inside it.
pub proof fn lemma_digits_end_from(t: Seq<char>, i: int, j: int)
    requires
        0 <= i <= j <= t.len(),
        forall|k: int| i <= k < j ==> is_decimal_digit(#[trigger] t[k]),
    ensures
        digits_end(t, i) == digits_end(t, j),
    decreases j - i,
{
    if i < j {
        lemma_digits_end_from(t, i + 1, j);
    }
}

/// The value of hexadecimal digits is at least the value of each prefix.
pub proof fn lemma_hex_value_prefix(t: Seq<char>, k: int)
    requires
        0 <= k <= t.len(),
    ensures
        hex_digits_value(t.take(k)) <= hex_digits_value(t),
    decreases t.len() - k,
{
    if k < t.len() {
        lemma_hex_value_prefix(t, k + 1);
        assert(t.take(k + 1).drop_last() == t.take(k));
    } else {
        assert(t.take(k) == t);
    }
}

/// Tells whether `text` is a decimal numeral.
pub fn decimal_numeral(text: &Vec<char>) -> (ok: bool)
    ensures
        ok == is_decimal_numeral(text@),
{
    let n: usize = text.len();
    let a: usize = digit_run(text, 0);
    if a == 0 {
        return false;
    }
    let mut b: usize = a;
    if a < n && text[a] == '.' {
        b = digit_run(text, a + 1);
    }
    if b == n {
        return true;
    }
    if text[b] != 'e' && text[b] != 'E' {
        return false;
    }
    let mut d: usize = b + 1;
    if d < n && text[d] == '-' {
        d = d + 1;
    }
    let e: usize = digit_run(text, d);
    d < e && e == n
}

/// The end of the run of decimal digits of `text` that begins at `from`.
pub fn digit_run(text: &Vec<char>, from: usize) -> (end: usize)
    requires
        from <= text.len(),
    ensures
        end == digits_end(text@, from as int),
        from <= end <= text.len(),
{
    let mut j: usize = from;
    while j < text.len() && decimal_digit(text[j])
        invariant
            from <= j <= text.len(),
            digits_end(text@, from as int) == digits_end(text@, j as int),
        decreases text.len() - j,
    {
        j = j + 1;
    }
    j
}

/// Reads `text` as a hexadecimal integer. `None` where `text` is empty,
/// holds anything but hexadecimal digits, or denotes more than an `i64`
/// can hold.
pub fn parse_hex(text: &Vec<char>) -> (value: Option<i64>)
    ensures
        match value {
            Some(v) => hex_numeral_value(text@) == Some(v as int),
            None => hex_numeral_value(text@) is None,
        },
{
    let n: usize = text.len();
    if n == 0 {
        return None;
    }
    let mut acc: i64 = 0;
    let mut j: usize = 0;
    while j < n
        invariant
            n == text.len(),
            0 <= j <= n,
            0 <= acc,
            acc == hex_digits_value(text@.take(j as int)),
            all_hex_digits(text@.take(j as int)),
        decreases n - j,
    {
        let digit: i64 = match hex_value(text[j]) {
            Some(d) => d as i64,
            None => {
                return None;
            },
        };
        proof {
            assert(text@.take(j + 1).drop_last() == text@.take(j as int));
            lemma_hex_value_prefix(text@, j + 1);
        }
        if acc > (i64::MAX - digit) / 16 {
            return None;
        }
        acc = acc * 16 + digit;
        j = j + 1;
    }
    proof {
        assert(text@.take(n as int) == text@);
    }
    Some(acc)
}

} // verus!
