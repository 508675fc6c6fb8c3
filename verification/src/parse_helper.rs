//! Scanning helpers of the historical line recognizers: reading the
//! first integer or float token at or after a position.

use vstd::prelude::*;

use crate::finite_state_machine::{spec_is_digit, spec_is_whitespace, FiniteStateMachine};
use crate::numeric::{is_float_token, check_float_token, spec_parse_i32};
use crate::split::copy_bytes;
use vstd::slice::slice_subrange;

verus! {

/// The outcome of reading one integer token: a value with the length
/// scanned, an unreadable token, or nothing left but whitespace.
#[derive(Clone, Copy, PartialEq, Eq, Debug)]
pub enum ReadIndexResult {
    Value(i32, usize),
    Error,
    Finished,
}

/// The first index at or after `i` that does not hold machine
/// whitespace, clamped to the end.
pub open spec fn spec_skip_ws(s: Seq<u8>, i: int) -> int
    decreases s.len() - i,
{
    if 0 <= i < s.len() && spec_is_whitespace(s[i]) {
        spec_skip_ws(s, i + 1)
    } else {
        i
    }
}

/// A byte that may stand in an integer token: a digit or `-`.
pub open spec fn is_number_byte(c: u8) -> bool {
    spec_is_digit(c) || c == 45u8
}

/// The first index at or after `i` that does not hold a number byte,
/// clamped to the end.
pub open spec fn spec_scan_number_end(s: Seq<u8>, i: int) -> int
    decreases s.len() - i,
{
    if 0 <= i < s.len() && is_number_byte(s[i]) {
        spec_scan_number_end(s, i + 1)
    } else {
        i
    }
}

/// The first index at or after `i` that holds machine whitespace,
/// clamped to the end.
pub open spec fn spec_scan_to_ws(s: Seq<u8>, i: int) -> int
    decreases s.len() - i,
{
    if 0 <= i < s.len() && !spec_is_whitespace(s[i]) {
        spec_scan_to_ws(s, i + 1)
    } else {
        i
    }
}

/// What [`read_int`] yields: after skipping whitespace, the run of
/// digits and `-` bytes is the token and the scan continues to the
/// next whitespace; the reported length spans from `start` to there.
pub open spec fn spec_read_int(s: Seq<u8>, start: int) -> ReadIndexResult {
    let j = spec_skip_ws(s, start);
    if j >= s.len() {
        ReadIndexResult::Finished
    } else {
        let k = spec_scan_number_end(s, j);
        let p = spec_scan_to_ws(s, k);
        match spec_parse_i32(s.subrange(j, k)) {
            Some(v) => ReadIndexResult::Value(v, (p - start) as usize),
            None => ReadIndexResult::Error,
        }
    }
}

/// Reads the first integer token at or after `start_index` and scans
/// on to the next whitespace byte.
pub fn read_int(input: &[u8], start_index: usize) -> (r: ReadIndexResult)
    ensures
        r == spec_read_int(input@, start_index as int),
{
    let n = input.len();
    let mut index = start_index;
    while index < n && FiniteStateMachine::is_whitespace(input[index])
        invariant
            start_index <= index,
            index <= n || index == start_index,
            n == input@.len(),
            spec_skip_ws(input@, start_index as int) == spec_skip_ws(input@, index as int),
        decreases n - index,
    {
        index = index + 1;
    }
    if index >= n {
        return ReadIndexResult::Finished;
    }
    let number_start = index;
    while index < n && (FiniteStateMachine::is_digit(input[index]) || input[index] == 45u8)
        invariant
            number_start <= index <= n,
            n == input@.len(),
            spec_scan_number_end(input@, number_start as int) == spec_scan_number_end(
                input@,
                index as int,
            ),
        decreases n - index,
    {
        index = index + 1;
    }
    let number_end = index;
    while index < n && !FiniteStateMachine::is_whitespace(input[index])
        invariant
            number_end <= index <= n,
            n == input@.len(),
            spec_scan_to_ws(input@, number_end as int) == spec_scan_to_ws(input@, index as int),
        decreases n - index,
    {
        index = index + 1;
    }
    let pattern_end = index;
    let token = slice_subrange(input, number_start, number_end);
    match crate::numeric::parse_i32(token) {
        Some(v) => ReadIndexResult::Value(v, pattern_end - start_index),
        None => ReadIndexResult::Error,
    }
}

/// What [`read_float`] yields: after skipping whitespace, the run up
/// to the next whitespace is the token; it is handed back when it is a
/// well-formed float, with the length from `start` to its end.
pub open spec fn spec_read_float(s: Seq<u8>, start: int) -> Option<(Seq<u8>, int)> {
    let a0 = spec_skip_ws(s, start);
    let a = if a0 > s.len() {
        s.len() as int
    } else {
        a0
    };
    let b = spec_scan_to_ws(s, a);
    if is_float_token(s.subrange(a, b)) {
        Some((s.subrange(a, b), b - start))
    } else {
        None
    }
}

/// Reads the first float token at or after `start_index`: the token's
/// bytes and the length scanned from `start_index` to its end. The
/// token is validated against the decimal-float grammar; turning it
/// into a binary float value is the caller's affair.
pub fn read_float(input: &[u8], start_index: usize) -> (r: Option<(Vec<u8>, usize)>)
    ensures
        match spec_read_float(input@, start_index as int) {
            Some(t) => r matches Some(pair) && pair.0@ == t.0 && pair.1 as int == t.1,
            None => r is None,
        },
{
    let n = input.len();
    let mut index = start_index;
    while index < n && FiniteStateMachine::is_whitespace(input[index])
        invariant
            start_index <= index,
            index <= n || index == start_index,
            n == input@.len(),
            spec_skip_ws(input@, start_index as int) == spec_skip_ws(input@, index as int),
        decreases n - index,
    {
        index = index + 1;
    }
    let number_start = if index > n {
        n
    } else {
        index
    };
    let mut index = number_start;
    while index < n && !FiniteStateMachine::is_whitespace(input[index])
        invariant
            number_start <= index <= n,
            n == input@.len(),
            spec_scan_to_ws(input@, number_start as int) == spec_scan_to_ws(input@, index as int),
        decreases n - index,
    {
        index = index + 1;
    }
    let number_end = index;
    let token = slice_subrange(input, number_start, number_end);
    if check_float_token(token) {
        Some((copy_bytes(token), number_end - start_index))
    } else {
        None
    }
}

} // verus!
