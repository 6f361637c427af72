//! Unsigned decimal integers as `str::parse` reads them: an optional `'+'`,
//! then one or more ASCII digits, whose value must not exceed the type's
//! largest value.

use vstd::prelude::*;

verus! {

pub open spec fn is_digit(c: char) -> bool {
    '0' <= c && c <= '9'
}

pub open spec fn digit_value(c: char) -> int {
    c as int - '0' as int
}

pub open spec fn all_digits(t: Seq<char>, lo: int, hi: int) -> bool {
    forall|k: int| lo <= k < hi ==> is_digit(#[trigger] t[k])
}

/// The value of the decimal digits `t[lo..hi]`.
pub open spec fn decimal_value(t: Seq<char>, lo: int, hi: int) -> int
    decreases hi - lo,
{
    if hi <= lo {
        0
    } else {
        decimal_value(t, lo, hi - 1) * 10 + digit_value(t[hi - 1])
    }
}

/// Where the digits of `t[lo..hi]` start: after a leading `'+'`, if any.
pub open spec fn digits_start(t: Seq<char>, lo: int, hi: int) -> int {
    if lo < hi && t[lo] == '+' {
        lo + 1
    } else {
        lo
    }
}

/// What parsing `t[lo..hi]` as an unsigned integer type whose largest value
/// is `max` gives.
pub open spec fn parse_unsigned_spec(t: Seq<char>, lo: int, hi: int, max: int) -> Option<int> {
    let d = digits_start(t, lo, hi);
    if d < hi && all_digits(t, d, hi) && decimal_value(t, d, hi) <= max {
        Some(decimal_value(t, d, hi))
    } else {
        None
    }
}

proof fn lemma_decimal_value_grows(t: Seq<char>, lo: int, mid: int, hi: int)
    requires
        lo <= mid <= hi,
        all_digits(t, lo, hi),
    ensures
        0 <= decimal_value(t, lo, mid) <= decimal_value(t, lo, hi),
    decreases hi - mid,
{
    if mid < hi {
        lemma_decimal_value_grows(t, lo, mid, hi - 1);
        assert(is_digit(t[hi - 1]));
    } else {
        lemma_decimal_value_nonneg(t, lo, hi);
    }
}

proof fn lemma_decimal_value_nonneg(t: Seq<char>, lo: int, hi: int)
    requires
        all_digits(t, lo, hi),
    ensures
        0 <= decimal_value(t, lo, hi),
    decreases hi - lo,
{
    if lo < hi {
        lemma_decimal_value_nonneg(t, lo, hi - 1);
        assert(is_digit(t[hi - 1]));
    }
}

/// A parsed value lies between zero and the type's largest value.
pub proof fn lemma_parsed_in_range(t: Seq<char>, lo: int, hi: int, max: int)
    ensures
        parse_unsigned_spec(t, lo, hi, max) matches Some(v) ==> 0 <= v <= max,
{
    let d = digits_start(t, lo, hi);
    if d < hi && all_digits(t, d, hi) {
        lemma_decimal_value_nonneg(t, d, hi);
    }
}

/// Why a text is not an unsigned integer, as `core::num::IntErrorKind`
/// tells it.
#[derive(Clone, Copy, Debug, PartialEq, Eq)]
pub enum IntErrorKind {
    /// The text is empty.
    Empty,
    /// The text holds a character that is not a digit where a digit is due.
    InvalidDigit,
    /// The value is larger than the type's largest value.
    PosOverflow,
}

impl IntErrorKind {
    /// The text of the message that `ParseIntError` shows for this kind.
    pub open spec fn message_spec(self) -> Seq<char> {
        match self {
            IntErrorKind::Empty => "cannot parse integer from empty string"@,
            IntErrorKind::InvalidDigit => "invalid digit found in string"@,
            IntErrorKind::PosOverflow => "number too large to fit in target type"@,
        }
    }

    /// The message that `ParseIntError` shows for this kind.
    pub fn message(&self) -> (s: &'static str)
        ensures
            s@ == self.message_spec(),
    {
        match self {
            IntErrorKind::Empty => "cannot parse integer from empty string",
            IntErrorKind::InvalidDigit => "invalid digit found in string",
            IntErrorKind::PosOverflow => "number too large to fit in target type",
        }
    }
}

/// Reading the digits `t[k..hi]` after a value `acc` read so far, from left
/// to right: the first character that is not a digit, or the first digit
/// after which the value exceeds `max`, stops the reading with that error.
pub open spec fn digit_scan(t: Seq<char>, k: int, hi: int, max: int, acc: int) -> Option<
    IntErrorKind,
>
    decreases hi - k,
{
    if k >= hi {
        None
    } else if !is_digit(t[k]) {
        Some(IntErrorKind::InvalidDigit)
    } else if acc * 10 + digit_value(t[k]) > max {
        Some(IntErrorKind::PosOverflow)
    } else {
        digit_scan(t, k + 1, hi, max, acc * 10 + digit_value(t[k]))
    }
}

/// The error that parsing `t[lo..hi]` as an unsigned integer type whose
/// largest value is `max` reports; `None` where it succeeds.
pub open spec fn parse_error_kind(t: Seq<char>, lo: int, hi: int, max: int) -> Option<IntErrorKind> {
    let d = digits_start(t, lo, hi);
    if lo >= hi {
        Some(IntErrorKind::Empty)
    } else if d >= hi {
        Some(IntErrorKind::InvalidDigit)
    } else {
        digit_scan(t, d, hi, max, 0)
    }
}

proof fn lemma_digit_scan(t: Seq<char>, d: int, k: int, hi: int, max: int)
    requires
        d <= k <= hi,
        all_digits(t, d, k),
        decimal_value(t, d, k) <= max,
    ensures
        digit_scan(t, k, hi, max, decimal_value(t, d, k)) is None <==> (all_digits(t, d, hi)
            && decimal_value(t, d, hi) <= max),
    decreases hi - k,
{
    if k < hi && is_digit(t[k]) {
        let v = decimal_value(t, d, k) * 10 + digit_value(t[k]);
        assert(v == decimal_value(t, d, k + 1));
        if v > max {
            if all_digits(t, d, hi) {
                lemma_decimal_value_grows(t, d, k + 1, hi);
            }
        } else {
            lemma_digit_scan(t, d, k + 1, hi, max);
        }
    }
}

/// Law: parsing reports an error exactly where it gives no value.
pub proof fn law_error_iff_no_value(t: Seq<char>, lo: int, hi: int, max: int)
    requires
        lo <= hi,
        0 <= max,
    ensures
        parse_error_kind(t, lo, hi, max) is None <==> parse_unsigned_spec(t, lo, hi, max) is Some,
{
    let d = digits_start(t, lo, hi);
    if lo < hi && d < hi {
        lemma_digit_scan(t, d, d, hi, max);
    }
}

/// Parses `t[lo..hi]` as an unsigned integer no greater than `max`.
fn parse_unsigned(t: &[char], lo: usize, hi: usize, max: u64) -> (r: Result<u64, IntErrorKind>)
    requires
        lo <= hi <= t@.len(),
    ensures
        match r {
            Ok(v) => parse_unsigned_spec(t@, lo as int, hi as int, max as int) == Some(v as int),
            Err(e) => {
                &&& parse_unsigned_spec(t@, lo as int, hi as int, max as int) is None
                &&& parse_error_kind(t@, lo as int, hi as int, max as int) == Some(e)
            },
        },
{
    if lo >= hi {
        return Err(IntErrorKind::Empty);
    }
    let d = if t[lo] == '+' {
        lo + 1
    } else {
        lo
    };
    if d >= hi {
        return Err(IntErrorKind::InvalidDigit);
    }
    let mut acc: u64 = 0;
    let mut i = d;
    while i < hi
        invariant
            d <= i <= hi <= t@.len(),
            lo < hi,
            d == digits_start(t@, lo as int, hi as int),
            all_digits(t@, d as int, i as int),
            acc == decimal_value(t@, d as int, i as int),
            acc <= max,
            digit_scan(t@, i as int, hi as int, max as int, acc as int) == digit_scan(
                t@,
                d as int,
                hi as int,
                max as int,
                0,
            ),
        decreases hi - i,
    {
        let c = t[i];
        if !('0' <= c && c <= '9') {
            assert(!is_digit(t@[i as int]));
            return Err(IntErrorKind::InvalidDigit);
        }
        let dv: u64 = (c as u64) - ('0' as u64);
        let next: u128 = (acc as u128) * 10 + (dv as u128);
        assert(next == decimal_value(t@, d as int, i + 1));
        if next > max as u128 {
            proof {
                if all_digits(t@, d as int, hi as int) {
                    lemma_decimal_value_grows(t@, d as int, i + 1, hi as int);
                }
            }
            return Err(IntErrorKind::PosOverflow);
        }
        acc = next as u64;
        i = i + 1;
    }
    Ok(acc)
}

/// Parses `t[lo..hi]` as a `usize`.
pub fn parse_usize(t: &[char], lo: usize, hi: usize) -> (r: Result<usize, IntErrorKind>)
    requires
        lo <= hi <= t@.len(),
    ensures
        match r {
            Ok(v) => parse_unsigned_spec(t@, lo as int, hi as int, usize::MAX as int) == Some(
                v as int,
            ),
            Err(e) => {
                &&& parse_unsigned_spec(t@, lo as int, hi as int, usize::MAX as int) is None
                &&& parse_error_kind(t@, lo as int, hi as int, usize::MAX as int) == Some(e)
            },
        },
{
    match parse_unsigned(t, lo, hi, usize::MAX as u64) {
        Ok(v) => Ok(v as usize),
        Err(e) => Err(e),
    }
}

/// Parses `t[lo..hi]` as a `u16`.
pub fn parse_u16(t: &[char], lo: usize, hi: usize) -> (r: Result<u16, IntErrorKind>)
    requires
        lo <= hi <= t@.len(),
    ensures
        match r {
            Ok(v) => parse_unsigned_spec(t@, lo as int, hi as int, u16::MAX as int) == Some(
                v as int,
            ),
            Err(e) => {
                &&& parse_unsigned_spec(t@, lo as int, hi as int, u16::MAX as int) is None
                &&& parse_error_kind(t@, lo as int, hi as int, u16::MAX as int) == Some(e)
            },
        },
{
    match parse_unsigned(t, lo, hi, u16::MAX as u64) {
        Ok(v) => Ok(v as u16),
        Err(e) => Err(e),
    }
}

} // verus!
