//! The integer side of the loss-of-precision check on number literals.
//!
//! Whether a literal survives the trip through a double-precision float is
//! decided with floating-point arithmetic outside this library; what is
//! decided here is which literals are examined and when an integer literal
//! lies beyond the integers that a double holds exactly.
use vstd::prelude::*;
use vstd::string::StringSliceAdditionalSpecFns;
use crate::text::{bytes_contain, bytes_start_with, contains_seq, starts_with_seq};

verus! {

pub const DIGIT_ZERO: u8 = 48;

pub const DIGIT_NINE: u8 = 57;

pub const PLUS: u8 = 43;

pub const MINUS: u8 = 45;

pub const UNDERSCORE: u8 = 95;

/// The largest integer that a double holds exactly, 2^53 - 1.
pub const MAX_SAFE_INTEGER: u128 = 9007199254740991;

/// 2^127, the magnitude of the smallest `i128`.
pub const I128_MAGNITUDE: u128 = 170141183460469231731687303715884105728;

pub open spec fn is_digit(b: u8) -> bool {
    DIGIT_ZERO <= b <= DIGIT_NINE
}

/// The value of a sequence of decimal digits.
pub open spec fn digits_value(s: Seq<u8>) -> nat
    decreases s.len(),
{
    if s.len() == 0 {
        0
    } else {
        digits_value(s.drop_last()) * 10 + (s.last() - DIGIT_ZERO) as nat
    }
}

pub open spec fn all_digits(s: Seq<u8>) -> bool {
    forall|i: int| 0 <= i < s.len() ==> is_digit(#[trigger] s[i])
}

/// The value that `str::parse::<i128>` reads from `s`: an optional sign and
/// at least one decimal digit, within the range of `i128`.
pub open spec fn i128_value(s: Seq<u8>) -> Option<int> {
    let negative = s.len() > 0 && s[0] == MINUS;
    let signed = s.len() > 0 && (s[0] == MINUS || s[0] == PLUS);
    let digits = if signed {
        s.drop_first()
    } else {
        s
    };
    if digits.len() == 0 || !all_digits(digits) {
        None
    } else if negative {
        if digits_value(digits) <= I128_MAGNITUDE {
            Some(-(digits_value(digits) as int))
        } else {
            None
        }
    } else if digits_value(digits) < I128_MAGNITUDE {
        Some(digits_value(digits) as int)
    } else {
        None
    }
}

/// An integer literal, with no `.` and no exponent, that reads as an `i128`
/// outside the integers that a double holds exactly.
pub open spec fn beyond_safe_integers(s: Seq<u8>) -> bool {
    &&& !contains_seq(s, ".".spec_bytes())
    &&& !contains_seq(s, "e".spec_bytes())
    &&& !contains_seq(s, "E".spec_bytes())
    &&& match i128_value(s) {
        Some(v) => v < -(MAX_SAFE_INTEGER as int) || v > MAX_SAFE_INTEGER as int,
        None => false,
    }
}

proof fn lemma_digits_value_grows(s: Seq<u8>, i: int, j: int)
    requires
        0 <= i <= j <= s.len(),
        all_digits(s),
    ensures
        digits_value(s.subrange(0, i)) <= digits_value(s.subrange(0, j)),
    decreases j - i,
{
    if i < j {
        lemma_digits_value_grows(s, i, j - 1);
        assert(s.subrange(0, j).drop_last() =~= s.subrange(0, j - 1));
        assert(is_digit(s[j - 1]));
    }
}

proof fn lemma_next_digit(s: Seq<u8>, j: int, m: u128)
    requires
        0 <= j < s.len(),
        is_digit(s[j]),
        m == digits_value(s.subrange(0, j)),
        m <= I128_MAGNITUDE / 10,
    ensures
        m * 10 + (s[j] - DIGIT_ZERO) <= u128::MAX,
        digits_value(s.subrange(0, j + 1)) == m * 10 + (s[j] - DIGIT_ZERO),
{
    assert(s.subrange(0, j + 1).drop_last() =~= s.subrange(0, j));
    assert(m * 10 <= I128_MAGNITUDE) by (nonlinear_arith)
        requires
            m <= I128_MAGNITUDE / 10,
    ;
}

/// Once the digits read so far exceed 2^127, all of them do.
proof fn lemma_exceeds(s: Seq<u8>, j: int)
    requires
        0 <= j <= s.len(),
        digits_value(s.subrange(0, j)) > I128_MAGNITUDE,
    ensures
        all_digits(s) ==> digits_value(s) > I128_MAGNITUDE,
{
    if all_digits(s) {
        lemma_digits_value_grows(s, j, s.len() as int);
        assert(s.subrange(0, s.len() as int) =~= s);
    }
}

proof fn lemma_too_big(s: Seq<u8>, j: int, m: u128)
    requires
        0 <= j < s.len(),
        is_digit(s[j]),
        m == digits_value(s.subrange(0, j)),
        m > I128_MAGNITUDE / 10,
    ensures
        all_digits(s) ==> digits_value(s) > I128_MAGNITUDE,
{
    assert(s.subrange(0, j + 1).drop_last() =~= s.subrange(0, j));
    assert(m * 10 > I128_MAGNITUDE) by (nonlinear_arith)
        requires
            m > I128_MAGNITUDE / 10,
    ;
    lemma_exceeds(s, j + 1);
}

/// Whether `text` is an integer literal beyond the integers that a double
/// holds exactly, read as `str::parse::<i128>` reads it.
pub fn loses_precision(text: &str) -> (r: bool)
    ensures
        r == beyond_safe_integers(text.spec_bytes()),
{
    let b = text.as_bytes();
    if bytes_contain(b, ".".as_bytes()) || bytes_contain(b, "e".as_bytes()) || bytes_contain(
        b,
        "E".as_bytes(),
    ) {
        return false;
    }
    let negative = b.len() > 0 && b[0] == MINUS;
    let signed = b.len() > 0 && (b[0] == MINUS || b[0] == PLUS);
    let start: usize = if signed {
        1
    } else {
        0
    };
    let digits = &b[start..b.len()];
    proof {
        if signed {
            assert(digits@ =~= b@.drop_first());
        } else {
            assert(digits@ =~= b@);
        }
    }
    if digits.len() == 0 {
        return false;
    }
    let mut m: u128 = 0;
    let mut readable = true;
    let mut j: usize = 0;
    while j < digits.len() && readable
        invariant
            0 <= j <= digits@.len(),
            readable ==> forall|k: int| 0 <= k < j ==> is_digit(#[trigger] digits@[k]),
            readable ==> m == digits_value(digits@.subrange(0, j as int)),
            m <= I128_MAGNITUDE,
            !readable ==> !(all_digits(digits@) && digits_value(digits@) <= I128_MAGNITUDE),
        decreases digits.len() - j + (if readable { 1int } else { 0int }),
    {
        let d = digits[j];
        if d < DIGIT_ZERO || d > DIGIT_NINE {
            readable = false;
        } else if m > I128_MAGNITUDE / 10 {
            proof {
                lemma_too_big(digits@, j as int, m);
            }
            readable = false;
        } else {
            proof {
                lemma_next_digit(digits@, j as int, m);
            }
            let next = m * 10 + (d - DIGIT_ZERO) as u128;
            if next > I128_MAGNITUDE {
                proof {
                    lemma_exceeds(digits@, j as int + 1);
                }
                readable = false;
            } else {
                m = next;
                j = j + 1;
            }
        }
    }
    if !readable {
        return false;
    }
    proof {
        assert(digits@.subrange(0, digits@.len() as int) =~= digits@);
    }
    if negative {
        m > MAX_SAFE_INTEGER
    } else {
        m < I128_MAGNITUDE && m > MAX_SAFE_INTEGER
    }
}

/// Literals in another base than ten.
pub open spec fn radix_literal(s: Seq<u8>) -> bool {
    ||| starts_with_seq(s, "0x".spec_bytes())
    ||| starts_with_seq(s, "0X".spec_bytes())
    ||| starts_with_seq(s, "0o".spec_bytes())
    ||| starts_with_seq(s, "0O".spec_bytes())
    ||| starts_with_seq(s, "0b".spec_bytes())
    ||| starts_with_seq(s, "0B".spec_bytes())
}

/// Whether a number literal is written in another base than ten.
pub fn is_radix_literal(s: &[u8]) -> (r: bool)
    ensures
        r == radix_literal(s@),
{
    bytes_start_with(s, "0x".as_bytes()) || bytes_start_with(s, "0X".as_bytes()) || bytes_start_with(
        s,
        "0o".as_bytes(),
    ) || bytes_start_with(s, "0O".as_bytes()) || bytes_start_with(s, "0b".as_bytes())
        || bytes_start_with(s, "0B".as_bytes())
}

/// `s` without its underscores.
pub open spec fn without_underscores(s: Seq<u8>) -> Seq<u8>
    decreases s.len(),
{
    if s.len() == 0 {
        s
    } else if s.last() == UNDERSCORE {
        without_underscores(s.drop_last())
    } else {
        without_underscores(s.drop_last()).push(s.last())
    }
}

/// No underscore is left after stripping, and the other bytes keep their
/// order: stripping twice is stripping once.
pub proof fn lemma_without_underscores(s: Seq<u8>)
    ensures
        forall|i: int|
            0 <= i < without_underscores(s).len() ==> #[trigger] without_underscores(s)[i]
                != UNDERSCORE,
        without_underscores(without_underscores(s)) == without_underscores(s),
        without_underscores(s).len() <= s.len(),
    decreases s.len(),
{
    if s.len() > 0 {
        lemma_without_underscores(s.drop_last());
        let w = without_underscores(s.drop_last());
        if s.last() != UNDERSCORE {
            let v = w.push(s.last());
            assert(v.drop_last() =~= w);
            assert forall|i: int| 0 <= i < v.len() implies #[trigger] v[i] != UNDERSCORE by {
                if i < w.len() {
                    assert(v[i] == w[i]);
                }
            }
        }
    }
}

/// A number literal with its digit separators removed.
pub fn strip_underscores(s: &[u8]) -> (r: Vec<u8>)
    ensures
        r@ == without_underscores(s@),
{
    let mut out: Vec<u8> = Vec::new();
    let mut i: usize = 0;
    while i < s.len()
        invariant
            0 <= i <= s@.len(),
            out@ == without_underscores(s@.subrange(0, i as int)),
        decreases s.len() - i,
    {
        proof {
            assert(s@.subrange(0, i + 1).drop_last() =~= s@.subrange(0, i as int));
        }
        if s[i] != UNDERSCORE {
            out.push(s[i]);
        }
        i = i + 1;
    }
    assert(s@.subrange(0, s@.len() as int) =~= s@);
    out
}

} // verus!
