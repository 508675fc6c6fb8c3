//! The numeric scanner: integer tokens are parsed against an exact
//! grammar (an optional leading `-`, then decimal digits), and float
//! tokens are validated against the decimal-float grammar (an optional
//! sign, a mantissa with at least one digit and at most one point, and
//! an optional exponent), straight from the bytes.

use vstd::prelude::*;

verus! {

/// An ASCII decimal digit.
pub open spec fn is_digit(c: u8) -> bool {
    48 <= c && c <= 57
}

pub open spec fn all_digits(s: Seq<u8>) -> bool {
    forall|i: int| 0 <= i < s.len() ==> is_digit(s[i])
}

/// The value of a digit string, most significant digit first.
pub open spec fn digits_value(s: Seq<u8>) -> int
    decreases s.len(),
{
    if s.len() == 0 {
        0
    } else {
        digits_value(s.drop_last()) * 10 + (s.last() - 48)
    }
}

/// The integer denoted by a face-index token: an optional leading `-`,
/// then one or more decimal digits; anything else denotes nothing.
pub open spec fn int_token_value(s: Seq<u8>) -> Option<int> {
    if s.len() >= 1 && s[0] == 45u8 {
        if s.len() >= 2 && all_digits(s.subrange(1, s.len() as int)) {
            Some(-digits_value(s.subrange(1, s.len() as int)))
        } else {
            None
        }
    } else if s.len() >= 1 && all_digits(s) {
        Some(digits_value(s))
    } else {
        None
    }
}

/// What [`parse_i32`] returns: the token's value when it denotes an
/// integer that fits in an `i32`, and `None` otherwise.
pub open spec fn spec_parse_i32(s: Seq<u8>) -> Option<i32> {
    match int_token_value(s) {
        Some(v) => if i32::MIN <= v && v <= i32::MAX {
            Some(v as i32)
        } else {
            None
        },
        None => None,
    }
}

proof fn lemma_digits_value_nonneg(s: Seq<u8>)
    requires
        all_digits(s),
    ensures
        digits_value(s) >= 0,
    decreases s.len(),
{
    if s.len() == 0 {
    } else {
        assert(all_digits(s.drop_last()));
        lemma_digits_value_nonneg(s.drop_last());
    }
}

/// Parses a whole byte slice as a decimal `i32`: optional leading `-`,
/// then one or more digits; rejects anything else, and any value outside
/// the `i32` range.
pub fn parse_i32(bytes: &[u8]) -> (r: Option<i32>)
    ensures
        r == spec_parse_i32(bytes@),
{
    let n = bytes.len();
    if n == 0 {
        return None;
    }
    let neg = bytes[0] == 45u8;
    let start: usize = if neg {
        1
    } else {
        0
    };
    if start == n {
        // a bare sign with no digits
        return None;
    }
    let mut val: u64 = 0;
    let mut sat: bool = false;
    let mut i: usize = start;
    while i < n
        invariant
            start <= i <= n,
            n == bytes@.len(),
            start == if neg {
                1int
            } else {
                0int
            },
            start < n,
            neg == (bytes@[0] == 45u8),
            forall|j: int| start <= j < i ==> is_digit(bytes@[j]),
            sat ==> digits_value(bytes@.subrange(start as int, i as int)) >= 0x1_0000_0000,
            !sat ==> val == digits_value(bytes@.subrange(start as int, i as int)) && val
                < 0x1_0000_0000,
        decreases n - i,
    {
        let c = bytes[i];
        if c < 48 || c > 57 {
            proof {
                if neg {
                    let tail = bytes@.subrange(1, bytes@.len() as int);
                    assert(tail[i - 1] == bytes@[i as int]);
                    assert(!is_digit(tail[i - 1]));
                    assert(!all_digits(tail));
                } else {
                    assert(!is_digit(bytes@[i as int]));
                }
            }
            return None;
        }
        let d = (c - 48) as u64;
        proof {
            let prefix = bytes@.subrange(start as int, i as int);
            let prefix2 = bytes@.subrange(start as int, i + 1);
            assert(prefix2.drop_last() =~= prefix);
            assert(prefix2.last() == bytes@[i as int]);
            assert(digits_value(prefix2) == digits_value(prefix) * 10 + (c - 48));
            if sat {
                assert(digits_value(prefix2) >= 0x1_0000_0000);
            }
        }
        if !sat {
            let nv = val * 10 + d;
            val = nv;
            if nv >= 0x1_0000_0000u64 {
                sat = true;
            }
        }
        i = i + 1;
    }
    let ghost digits = if neg {
        bytes@.subrange(1, bytes@.len() as int)
    } else {
        bytes@
    };
    proof {
        assert(bytes@.subrange(start as int, n as int) =~= digits);
        assert(all_digits(digits));
        lemma_digits_value_nonneg(digits);
    }
    if sat {
        // magnitude at least 2^32: out of the i32 range for either sign
        return None;
    }
    if neg {
        if val > 0x8000_0000u64 {
            return None;
        }
        let v: i64 = -(val as i64);
        return Some(v as i32);
    }
    if val > 0x7FFF_FFFFu64 {
        return None;
    }
    Some(val as i32)
}

/// A sign byte (`+` or `-`).
pub open spec fn is_sign(c: u8) -> bool {
    c == 43u8 || c == 45u8
}

/// The first index at or after `i` that does not hold a digit, clamped
/// to the end of `s`.
pub open spec fn digit_run_end(s: Seq<u8>, i: int) -> int
    decreases s.len() - i,
{
    if 0 <= i < s.len() && is_digit(s[i]) {
        digit_run_end(s, i + 1)
    } else {
        i
    }
}

/// An optional exponent part starting at `i` and reaching the end of the
/// token: nothing, or `e`/`E`, an optional sign, and one or more digits.
pub open spec fn float_exponent_ok(s: Seq<u8>, i: int) -> bool {
    if i == s.len() {
        true
    } else if 0 <= i < s.len() && (s[i] == 101u8 || s[i] == 69u8) {
        let j = if i + 1 < s.len() && is_sign(s[i + 1]) {
            i + 2
        } else {
            i + 1
        };
        let k = digit_run_end(s, j);
        k > j && k == s.len()
    } else {
        false
    }
}

/// A well-formed decimal float token: an optional sign, a mantissa with
/// at least one digit and at most one point, and an optional exponent.
pub open spec fn is_float_token(s: Seq<u8>) -> bool {
    let i0: int = if s.len() >= 1 && is_sign(s[0]) {
        1
    } else {
        0
    };
    let i1 = digit_run_end(s, i0);
    if i1 < s.len() && s[i1] == 46u8 {
        let i2 = digit_run_end(s, i1 + 1);
        (i1 > i0 || i2 > i1 + 1) && float_exponent_ok(s, i2)
    } else {
        i1 > i0 && float_exponent_ok(s, i1)
    }
}

proof fn lemma_digit_run_end_bounds(s: Seq<u8>, i: int)
    requires
        0 <= i <= s.len(),
    ensures
        i <= digit_run_end(s, i) <= s.len(),
    decreases s.len() - i,
{
    if 0 <= i < s.len() && is_digit(s[i]) {
        lemma_digit_run_end_bounds(s, i + 1);
    }
}

/// Scans the first run of digits at or after `i`, returning its end.
fn scan_digits(bytes: &[u8], i: usize) -> (r: usize)
    requires
        i <= bytes@.len(),
    ensures
        r == digit_run_end(bytes@, i as int),
        i <= r <= bytes@.len(),
{
    let n = bytes.len();
    let mut j = i;
    while j < n && 48 <= bytes[j] && bytes[j] <= 57
        invariant
            i <= j <= n,
            n == bytes@.len(),
            digit_run_end(bytes@, i as int) == digit_run_end(bytes@, j as int),
        decreases n - j,
    {
        j = j + 1;
    }
    j
}

/// Decides whether a token is a well-formed decimal float.
pub fn check_float_token(bytes: &[u8]) -> (r: bool)
    ensures
        r == is_float_token(bytes@),
{
    let n = bytes.len();
    let i0: usize = if n >= 1 && (bytes[0] == 43u8 || bytes[0] == 45u8) {
        1
    } else {
        0
    };
    let i1 = scan_digits(bytes, i0);
    if i1 < n && bytes[i1] == 46u8 {
        let i2 = scan_digits(bytes, i1 + 1);
        (i1 > i0 || i2 > i1 + 1) && check_float_exponent(bytes, i2)
    } else {
        i1 > i0 && check_float_exponent(bytes, i1)
    }
}

fn check_float_exponent(bytes: &[u8], i: usize) -> (r: bool)
    requires
        i <= bytes@.len(),
    ensures
        r == float_exponent_ok(bytes@, i as int),
{
    let n = bytes.len();
    if i == n {
        return true;
    }
    let c = bytes[i];
    if c == 101u8 || c == 69u8 {
        let j: usize = if i + 1 < n && (bytes[i + 1] == 43u8 || bytes[i + 1] == 45u8) {
            i + 2
        } else {
            i + 1
        };
        let k = scan_digits(bytes, j);
        k > j && k == n
    } else {
        false
    }
}

} // verus!
