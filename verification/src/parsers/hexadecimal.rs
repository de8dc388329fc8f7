use vstd::prelude::*;
use crate::errors::ParseError;
use crate::parsers::primitives::{match_at, spec_match_at};

verus! {

/// Whether a character is an ASCII hexadecimal digit, either case.
pub open spec fn is_hex_digit(c: char) -> bool {
    ('0' <= c && c <= '9') || ('a' <= c && c <= 'f') || ('A' <= c && c <= 'F')
}

/// The numeric value of a hexadecimal digit character.
pub open spec fn hex_digit_val(c: char) -> int {
    if '0' <= c && c <= '9' {
        (c as u32) as int - ('0' as u32) as int
    } else if 'a' <= c && c <= 'f' {
        (c as u32) as int - ('a' as u32) as int + 10
    } else {
        (c as u32) as int - ('A' as u32) as int + 10
    }
}

/// The first position at or after `pos` that does not hold a hex digit.
pub open spec fn spec_hex_run_end(s: Seq<char>, pos: int) -> int
    decreases s.len() - pos,
{
    if 0 <= pos < s.len() && is_hex_digit(s[pos]) {
        spec_hex_run_end(s, pos + 1)
    } else {
        pos
    }
}

/// A hex digit run stays within the input and never moves backwards.
pub proof fn lemma_hex_run_bounds(s: Seq<char>, pos: int)
    requires
        0 <= pos <= s.len(),
    ensures
        pos <= spec_hex_run_end(s, pos) <= s.len(),
    decreases s.len() - pos,
{
    if pos < s.len() && is_hex_digit(s[pos]) {
        lemma_hex_run_bounds(s, pos + 1);
    }
}

/// Every character of a hex digit run is a hex digit.
pub proof fn lemma_hex_run_digits(s: Seq<char>, pos: int)
    requires
        0 <= pos <= s.len(),
    ensures
        forall|k: int|
            pos <= k < spec_hex_run_end(s, pos) ==> is_hex_digit(#[trigger] s[k]),
    decreases s.len() - pos,
{
    if pos < s.len() && is_hex_digit(s[pos]) {
        lemma_hex_run_digits(s, pos + 1);
    }
}

/// The value of the hex digits from `from` (inclusive) to `to` (exclusive),
/// read most significant first.
pub open spec fn spec_hex_value(s: Seq<char>, from: int, to: int) -> int
    decreases to - from,
{
    if to <= from {
        0
    } else {
        spec_hex_value(s, from, to - 1) * 16 + hex_digit_val(s[to - 1])
    }
}

/// A hex run's value is non-negative when its characters are hex digits.
pub proof fn lemma_hex_value_nonneg(s: Seq<char>, from: int, to: int)
    requires
        forall|k: int| from <= k < to ==> is_hex_digit(#[trigger] s[k]),
    ensures
        spec_hex_value(s, from, to) >= 0,
    decreases to - from,
{
    if to > from {
        lemma_hex_value_nonneg(s, from, to - 1);
    }
}

/// A hexadecimal value: a `0x` or `#` prefix, then one or more hex digits,
/// read as a 32-bit signed integer. A run whose value exceeds `i32::MAX`
/// does not parse: the target type cannot hold it. No whitespace is skipped.
pub open spec fn spec_parse_hex(s: Seq<char>, pos: int) -> Option<(int, int)> {
    let start = if spec_match_at(s, pos, "0x"@) {
        pos + 2
    } else if 0 <= pos < s.len() && s[pos] == '#' {
        pos + 1
    } else {
        pos
    };
    if start == pos {
        None
    } else {
        let e = spec_hex_run_end(s, start);
        if e == start {
            None
        } else {
            let v = spec_hex_value(s, start, e);
            if v > i32::MAX {
                None
            } else {
                Some((v, e))
            }
        }
    }
}

/// A parsed hexadecimal value advances the position, stays within the
/// input, and fits a 32-bit signed integer.
pub proof fn lemma_parse_hex_advances(s: Seq<char>, pos: int)
    requires
        0 <= pos <= s.len(),
    ensures
        spec_parse_hex(s, pos) matches Some((v, p2)) ==> pos < p2 <= s.len() && 0 <= v
            <= i32::MAX,
{
    reveal_strlit("0x");
    let start = if spec_match_at(s, pos, "0x"@) {
        pos + 2
    } else if 0 <= pos < s.len() && s[pos] == '#' {
        pos + 1
    } else {
        pos
    };
    if start != pos && start <= s.len() {
        lemma_hex_run_bounds(s, start);
        lemma_hex_run_digits(s, start);
        lemma_hex_value_nonneg(s, start, spec_hex_run_end(s, start));
    }
}

/// A hex run value grows (weakly) with each further digit.
proof fn lemma_hex_value_step_grows(s: Seq<char>, from: int, to: int)
    requires
        from <= to,
        forall|k: int| from <= k < to + 1 ==> is_hex_digit(#[trigger] s[k]),
    ensures
        spec_hex_value(s, from, to + 1) >= spec_hex_value(s, from, to),
        spec_hex_value(s, from, to) >= 0,
{
    lemma_hex_value_nonneg(s, from, to);
}

/// The exec hex digit test.
pub fn is_hex_digit_exec(c: char) -> (r: bool)
    ensures
        r == is_hex_digit(c),
{
    (c >= '0' && c <= '9') || (c >= 'a' && c <= 'f') || (c >= 'A' && c <= 'F')
}

/// The exec hex digit value.
pub fn hex_val(c: char) -> (r: u32)
    requires
        is_hex_digit(c),
    ensures
        r == hex_digit_val(c),
        r < 16,
{
    if c >= '0' && c <= '9' {
        (c as u32) - 0x30
    } else if c >= 'a' && c <= 'f' {
        (c as u32) - 0x61 + 10
    } else {
        (c as u32) - 0x41 + 10
    }
}

/// Parse a hexadecimal value starting with `0x` or `#`.
#[verifier::loop_isolation(false)]
pub fn hexadecimal(input: &[char], pos: usize) -> (r: Result<(i32, usize), ParseError>)
    requires
        pos <= input@.len(),
    ensures
        r matches Ok((v, p2)) ==> spec_parse_hex(input@, pos as int) == Some(
            (v as int, p2 as int),
        ) && pos < p2 <= input@.len(),
        r is Err ==> spec_parse_hex(input@, pos as int) is None,
{
    proof {
        lemma_parse_hex_advances(input@, pos as int);
        reveal_strlit("0x");
    }
    let n = input.len();
    let start: usize = if match_at(input, pos, "0x") {
        proof {
            assert(pos + 2 <= n);
        }
        pos + 2
    } else if pos < n && input[pos] == '#' {
        pos + 1
    } else {
        return Err(ParseError { pos, expected: "hexadecimal prefix" });
    };
    proof {
        lemma_hex_run_digits(input@, start as int);
        lemma_hex_run_bounds(input@, start as int);
    }
    let ghost e = spec_hex_run_end(input@, start as int);
    let mut i = start;
    let mut acc: u64 = 0;
    let mut big = false;
    while i < input.len() && is_hex_digit_exec(input[i])
        invariant
            start <= i <= input@.len(),
            i <= e,
            spec_hex_run_end(input@, i as int) == e,
            !big ==> acc == spec_hex_value(input@, start as int, i as int) && acc <= i32::MAX,
            big ==> spec_hex_value(input@, start as int, i as int) > i32::MAX,
        decreases input@.len() - i,
    {
        proof {
            assert(i < e) by {
                assert(spec_hex_run_end(input@, i as int) == spec_hex_run_end(input@, i + 1));
                lemma_hex_run_bounds(input@, i + 1);
            }
            lemma_hex_value_step_grows(input@, start as int, i as int);
        }
        if !big {
            let d = hex_val(input[i]);
            acc = acc * 16 + (d as u64);
            if acc > 0x7FFF_FFFF {
                big = true;
            }
        }
        i = i + 1;
    }
    proof {
        assert(spec_hex_run_end(input@, i as int) == i);
    }
    if i == start {
        return Err(ParseError { pos: start, expected: "hexadecimal digits" });
    }
    if big {
        return Err(ParseError { pos: start, expected: "hexadecimal value in range" });
    }
    Ok((acc as i32, i))
}

} // verus!
