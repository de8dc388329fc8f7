use vstd::prelude::*;
use crate::errors::ParseError;
use crate::parsers::primitives::{lemma_skip_ws_bounds, skip_ws, spec_skip_ws};

verus! {

/// Whether a character is an ASCII decimal digit.
pub open spec fn is_dec_digit(c: char) -> bool {
    '0' <= c && c <= '9'
}

/// The numeric value of a decimal digit character.
pub open spec fn dec_digit_val(c: char) -> int {
    (c as u32) as int - ('0' as u32) as int
}

/// The first position at or after `pos` that does not hold a decimal digit.
pub open spec fn spec_dec_run_end(s: Seq<char>, pos: int) -> int
    decreases s.len() - pos,
{
    if 0 <= pos < s.len() && is_dec_digit(s[pos]) {
        spec_dec_run_end(s, pos + 1)
    } else {
        pos
    }
}

/// A digit run stays within the input and never moves backwards.
pub proof fn lemma_dec_run_bounds(s: Seq<char>, pos: int)
    requires
        0 <= pos <= s.len(),
    ensures
        pos <= spec_dec_run_end(s, pos) <= s.len(),
    decreases s.len() - pos,
{
    if pos < s.len() && is_dec_digit(s[pos]) {
        lemma_dec_run_bounds(s, pos + 1);
    }
}

/// The value of the decimal digits from `from` (inclusive) to `to`
/// (exclusive), read most significant first.
pub open spec fn spec_dec_value(s: Seq<char>, from: int, to: int) -> int
    decreases to - from,
{
    if to <= from {
        0
    } else {
        spec_dec_value(s, from, to - 1) * 10 + dec_digit_val(s[to - 1])
    }
}

/// A digit run's value is non-negative when its characters are digits.
pub proof fn lemma_dec_value_nonneg(s: Seq<char>, from: int, to: int)
    requires
        forall|k: int| from <= k < to ==> is_dec_digit(#[trigger] s[k]),
    ensures
        spec_dec_value(s, from, to) >= 0,
    decreases to - from,
{
    if to > from {
        lemma_dec_value_nonneg(s, from, to - 1);
    }
}

/// An unsigned decimal integer no greater than `max`: surrounding
/// whitespace and one or more ASCII digits. A run whose value exceeds
/// `max` does not parse: the target type cannot hold it.
pub open spec fn spec_parse_dec(s: Seq<char>, pos: int, max: int) -> Option<(int, int)> {
    let p = spec_skip_ws(s, pos);
    let e = spec_dec_run_end(s, p);
    if e == p {
        None
    } else {
        let v = spec_dec_value(s, p, e);
        if v > max {
            None
        } else {
            Some((v, spec_skip_ws(s, e)))
        }
    }
}

/// A parsed decimal integer advances the position and stays within the input.
pub proof fn lemma_parse_dec_advances(s: Seq<char>, pos: int, max: int)
    requires
        0 <= pos <= s.len(),
    ensures
        spec_parse_dec(s, pos, max) matches Some((v, p2)) ==> pos < p2 <= s.len() && 0 <= v <= max,
{
    lemma_skip_ws_bounds(s, pos);
    let p = spec_skip_ws(s, pos);
    lemma_dec_run_bounds(s, p);
    let e = spec_dec_run_end(s, p);
    if e > p {
        lemma_skip_ws_bounds(s, e);
        lemma_dec_run_digits(s, p);
        lemma_dec_value_nonneg(s, p, e);
    }
}

/// Every character of a digit run is a digit.
pub proof fn lemma_dec_run_digits(s: Seq<char>, pos: int)
    requires
        0 <= pos <= s.len(),
    ensures
        forall|k: int|
            pos <= k < spec_dec_run_end(s, pos) ==> is_dec_digit(#[trigger] s[k]),
    decreases s.len() - pos,
{
    if pos < s.len() && is_dec_digit(s[pos]) {
        lemma_dec_run_digits(s, pos + 1);
    }
}

/// A digit run value grows (weakly) with each further digit.
proof fn lemma_dec_value_step_grows(s: Seq<char>, from: int, to: int)
    requires
        from <= to,
        forall|k: int| from <= k < to + 1 ==> is_dec_digit(#[trigger] s[k]),
    ensures
        spec_dec_value(s, from, to + 1) >= spec_dec_value(s, from, to),
        spec_dec_value(s, from, to) >= 0,
{
    lemma_dec_value_nonneg(s, from, to);
}

/// Parse an unsigned decimal integer whose value is at most `max`.
#[verifier::loop_isolation(false)]
pub fn parse_dec(input: &[char], pos: usize, max: u64) -> (r: Result<(u64, usize), ParseError>)
    requires
        pos <= input@.len(),
    ensures
        r matches Ok((v, p2)) ==> spec_parse_dec(input@, pos as int, max as int) == Some(
            (v as int, p2 as int),
        ) && pos < p2 <= input@.len(),
        r is Err ==> spec_parse_dec(input@, pos as int, max as int) is None,
{
    proof {
        lemma_parse_dec_advances(input@, pos as int, max as int);
    }
    let p = skip_ws(input, pos);
    proof {
        lemma_dec_run_digits(input@, p as int);
        lemma_dec_run_bounds(input@, p as int);
    }
    let ghost e = spec_dec_run_end(input@, p as int);
    let mut i = p;
    let mut acc: u128 = 0;
    let mut big = false;
    while i < input.len() && input[i] >= '0' && input[i] <= '9'
        invariant
            p <= i <= input@.len(),
            i <= e,
            spec_dec_run_end(input@, i as int) == e,
            !big ==> acc == spec_dec_value(input@, p as int, i as int) && acc <= max,
            big ==> spec_dec_value(input@, p as int, i as int) > max,
        decreases input@.len() - i,
    {
        proof {
            assert(is_dec_digit(input@[i as int]));
            assert(i < e) by {
                assert(spec_dec_run_end(input@, i as int) == spec_dec_run_end(input@, i + 1));
                lemma_dec_run_bounds(input@, i + 1);
            }
            lemma_dec_value_step_grows(input@, p as int, i as int);
        }
        if !big {
            let d: u32 = (input[i] as u32) - 0x30;
            acc = acc * 10 + (d as u128);
            if acc > max as u128 {
                big = true;
            }
        }
        i = i + 1;
    }
    proof {
        assert(spec_dec_run_end(input@, i as int) == i);
        assert(i == e);
    }
    if i == p {
        return Err(ParseError { pos: p, expected: "integer" });
    }
    if big {
        return Err(ParseError { pos: p, expected: "integer in range" });
    }
    let p2 = skip_ws(input, i);
    Ok((acc as u64, p2))
}

/// Parse a base 10 32-bit signed integer (digits only, so non-negative).
pub fn int32(input: &[char], pos: usize) -> (r: Result<(i32, usize), ParseError>)
    requires
        pos <= input@.len(),
    ensures
        r matches Ok((v, p2)) ==> spec_parse_dec(input@, pos as int, i32::MAX as int) == Some(
            (v as int, p2 as int),
        ) && pos < p2 <= input@.len(),
        r is Err ==> spec_parse_dec(input@, pos as int, i32::MAX as int) is None,
{
    match parse_dec(input, pos, 0x7FFF_FFFF) {
        Ok((v, p2)) => Ok((v as i32, p2)),
        Err(e) => Err(e),
    }
}

/// Parse a base 10 64-bit signed integer (digits only, so non-negative).
pub fn int64(input: &[char], pos: usize) -> (r: Result<(i64, usize), ParseError>)
    requires
        pos <= input@.len(),
    ensures
        r matches Ok((v, p2)) ==> spec_parse_dec(input@, pos as int, i64::MAX as int) == Some(
            (v as int, p2 as int),
        ) && pos < p2 <= input@.len(),
        r is Err ==> spec_parse_dec(input@, pos as int, i64::MAX as int) is None,
{
    match parse_dec(input, pos, 0x7FFF_FFFF_FFFF_FFFF) {
        Ok((v, p2)) => Ok((v as i64, p2)),
        Err(e) => Err(e),
    }
}

} // verus!
