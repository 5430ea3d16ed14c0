//! Unsigned decimal parsing with the outcomes of `str::parse` on the
//! unsigned integer types.

use vstd::prelude::*;
use crate::text::{is_digit, digit_value};

verus! {

/// Why a string is not an unsigned integer (the kinds `str::parse` reports
/// for unsigned types).
#[derive(Debug, Clone, Copy, PartialEq, Eq, Structural)]
pub enum IntParseError {
    Empty,
    InvalidDigit,
    PosOverflow,
}

impl IntParseError {
    /// The text that std's `ParseIntError` displays for this kind.
    pub fn message(&self) -> (s: String)
        ensures
            s@ == int_error_text(*self),
    {
        match self {
            IntParseError::Empty => String::from_str("cannot parse integer from empty string"),
            IntParseError::InvalidDigit => String::from_str("invalid digit found in string"),
            IntParseError::PosOverflow => String::from_str("number too large to fit in target type"),
        }
    }
}

/// The text displayed for each kind of failure.
pub open spec fn int_error_text(e: IntParseError) -> Seq<char> {
    match e {
        IntParseError::Empty => "cannot parse integer from empty string"@,
        IntParseError::InvalidDigit => "invalid digit found in string"@,
        IntParseError::PosOverflow => "number too large to fit in target type"@,
    }
}

/// The value of a run of decimal digits, read left to right.
pub open spec fn digits_value(ds: Seq<char>) -> nat
    decreases ds.len(),
{
    if ds.len() == 0 {
        0
    } else {
        digits_value(ds.drop_last()) * 10 + digit_value(ds.last())
    }
}

/// Reading `ds` digit by digit from the left: the first char that is not a
/// digit is an invalid digit, and a running value above `max` an overflow,
/// whichever comes first.
pub open spec fn accumulate(ds: Seq<char>, max: nat) -> Result<nat, IntParseError>
    decreases ds.len(),
{
    if ds.len() == 0 {
        Ok(0)
    } else {
        match accumulate(ds.drop_last(), max) {
            Err(e) => Err(e),
            Ok(v) => if !is_digit(ds.last()) {
                Err(IntParseError::InvalidDigit)
            } else if v * 10 + digit_value(ds.last()) > max {
                Err(IntParseError::PosOverflow)
            } else {
                Ok(v * 10 + digit_value(ds.last()))
            },
        }
    }
}

/// What `str::parse` gives for an unsigned type whose largest value is
/// `max`: an empty string is `Empty`; a lone sign is an invalid digit; one
/// leading '+' is skipped; then the digits are read by `accumulate`.
pub open spec fn parse_unsigned_spec(s: Seq<char>, max: nat) -> Result<nat, IntParseError> {
    if s.len() == 0 {
        Err(IntParseError::Empty)
    } else if s.len() == 1 && (s[0] == '+' || s[0] == '-') {
        Err(IntParseError::InvalidDigit)
    } else if s[0] == '+' {
        accumulate(s.drop_first(), max)
    } else {
        accumulate(s, max)
    }
}

/// Whether every char of `s` is a digit.
pub open spec fn all_digits(s: Seq<char>) -> bool {
    forall|i: int| 0 <= i < s.len() ==> #[trigger] is_digit(s[i])
}

/// Parses `s` as an unsigned integer no larger than `max`.
pub fn parse_unsigned(s: &str, max: u64) -> (r: Result<u64, IntParseError>)
    ensures
        match parse_unsigned_spec(s@, max as nat) {
            Ok(v) => r == Ok::<u64, IntParseError>(v as u64),
            Err(e) => r == Err::<u64, IntParseError>(e),
        },
{
    let n = s.unicode_len();
    if n == 0 {
        return Err(IntParseError::Empty);
    }
    let first = s.get_char(0);
    if n == 1 && (first == '+' || first == '-') {
        return Err(IntParseError::InvalidDigit);
    }
    let start: usize = if first == '+' { 1 } else { 0 };
    let ghost ds = if first == '+' { s@.drop_first() } else { s@ };
    assert(ds == s@.subrange(start as int, n as int));
    assert(ds.take(0) == Seq::<char>::empty());
    assert(parse_unsigned_spec(s@, max as nat) == accumulate(ds, max as nat));
    let mut v: u64 = 0;
    let mut i: usize = start;
    while i < n
        invariant
            n == s@.len(),
            start <= i <= n,
            start == 0 || start == 1,
            ds == s@.subrange(start as int, n as int),
            v <= max,
            parse_unsigned_spec(s@, max as nat) == accumulate(ds, max as nat),
            accumulate(ds.take(i - start), max as nat) == Ok::<nat, IntParseError>(v as nat),
        decreases n - i,
    {
        let c = s.get_char(i);
        let ghost pre = ds.take(i - start);
        let ghost next = ds.take(i + 1 - start);
        assert(next.drop_last() == pre);
        assert(next.last() == c);
        assert(s@[i as int] == c);
        if !('0' <= c && c <= '9') {
            proof { lemma_accumulate_error_stays(ds, (i + 1 - start) as int, max as nat); }
            return Err(IntParseError::InvalidDigit);
        }
        let d: u64 = ((c as u32) - 48u32) as u64;
        if d > max || v > (max - d) / 10 {
            assert(v * 10 + d > max) by (nonlinear_arith)
                requires d > max || v > (max - d) / 10;
            proof { lemma_accumulate_error_stays(ds, (i + 1 - start) as int, max as nat); }
            return Err(IntParseError::PosOverflow);
        }
        v = v * 10 + d;
        i = i + 1;
    }
    assert(ds.take(n - start) == ds);
    Ok(v)
}

/// Once a prefix fails, every longer prefix fails the same way.
pub proof fn lemma_accumulate_error_stays(ds: Seq<char>, k: int, max: nat)
    requires
        0 <= k <= ds.len(),
        accumulate(ds.take(k), max) is Err,
    ensures
        accumulate(ds, max) == accumulate(ds.take(k), max),
    decreases ds.len() - k,
{
    if k < ds.len() {
        let next = ds.take(k + 1);
        assert(next.drop_last() == ds.take(k));
        lemma_accumulate_error_stays(ds, k + 1, max);
    } else {
        assert(ds.take(k) == ds);
    }
}

} // verus!

verus! {

/// On a run of digits, reading succeeds exactly when the value fits.
pub proof fn lemma_accumulate_digits(ds: Seq<char>, max: nat)
    requires
        all_digits(ds),
    ensures
        accumulate(ds, max) == (if digits_value(ds) <= max {
            Ok::<nat, IntParseError>(digits_value(ds))
        } else {
            Err(IntParseError::PosOverflow)
        }),
    decreases ds.len(),
{
    if ds.len() > 0 {
        let p = ds.drop_last();
        assert(all_digits(p)) by {
            assert forall|i: int| 0 <= i < p.len() implies #[trigger] is_digit(p[i]) by {
                assert(p[i] == ds[i]);
            }
        }
        lemma_accumulate_digits(p, max);
        assert(is_digit(ds[ds.len() - 1]));
    }
}

} // verus!
