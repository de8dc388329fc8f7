use vstd::prelude::*;
use crate::errors::ParseError;
use crate::helpers::chars_to_string;
use crate::parsers::primitives::{lemma_skip_ws_bounds, skip_ws, spec_skip_ws};

verus! {

/// The position of the closing quote of a string body starting at `pos`,
/// if the body runs to one without a backslash or end of input first.
pub open spec fn spec_string_end(s: Seq<char>, pos: int) -> Option<int>
    decreases s.len() - pos,
{
    if pos < 0 || pos >= s.len() {
        None
    } else if s[pos] == '"' {
        Some(pos)
    } else if s[pos] == '\\' {
        None
    } else {
        spec_string_end(s, pos + 1)
    }
}

/// A found closing quote lies within the input, at or after the start.
pub proof fn lemma_string_end_bounds(s: Seq<char>, pos: int)
    ensures
        spec_string_end(s, pos) matches Some(e) ==> pos <= e < s.len() && s[e] == '"',
    decreases s.len() - pos,
{
    if 0 <= pos < s.len() && s[pos] != '"' && s[pos] != '\\' {
        lemma_string_end_bounds(s, pos + 1);
    }
}

/// A string literal: surrounding whitespace, a double quote, body characters
/// taken verbatim (no escape processing; no backslash or quote within), and
/// a closing double quote.
pub open spec fn spec_parse_string(s: Seq<char>, pos: int) -> Option<(Seq<char>, int)> {
    let p = spec_skip_ws(s, pos);
    if p < s.len() && s[p] == '"' {
        match spec_string_end(s, p + 1) {
            Some(e) => Some((s.subrange(p + 1, e), spec_skip_ws(s, e + 1))),
            None => None,
        }
    } else {
        None
    }
}

/// A parsed string advances the position and stays within the input.
pub proof fn lemma_parse_string_advances(s: Seq<char>, pos: int)
    requires
        0 <= pos <= s.len(),
    ensures
        spec_parse_string(s, pos) matches Some((t, p2)) ==> pos < p2 <= s.len(),
{
    lemma_skip_ws_bounds(s, pos);
    let p = spec_skip_ws(s, pos);
    if p < s.len() && s[p] == '"' {
        lemma_string_end_bounds(s, p + 1);
        match spec_string_end(s, p + 1) {
            Some(e) => {
                lemma_skip_ws_bounds(s, e + 1);
            },
            None => {},
        }
    }
}

/// Parse a string literal.
#[verifier::loop_isolation(false)]
pub fn parse_string(input: &[char], pos: usize) -> (r: Result<(String, usize), ParseError>)
    requires
        pos <= input@.len(),
    ensures
        r matches Ok((v, p2)) ==> spec_parse_string(input@, pos as int) == Some((v@, p2 as int))
            && pos < p2 <= input@.len(),
        r is Err ==> spec_parse_string(input@, pos as int) is None,
{
    proof {
        lemma_parse_string_advances(input@, pos as int);
    }
    let p = skip_ws(input, pos);
    if p >= input.len() || input[p] != '"' {
        return Err(ParseError { pos: p, expected: "string" });
    }
    let mut i = p + 1;
    let mut out: Vec<char> = Vec::new();
    while i < input.len() && input[i] != '"' && input[i] != '\\'
        invariant
            p + 1 <= i <= input@.len(),
            spec_string_end(input@, p + 1) == spec_string_end(input@, i as int),
            out@ =~= input@.subrange(p + 1, i as int),
        decreases input@.len() - i,
    {
        out.push(input[i]);
        proof {
            assert(out@ =~= input@.subrange(p + 1, i + 1 as int));
        }
        i = i + 1;
    }
    if i >= input.len() || input[i] == '\\' {
        return Err(ParseError { pos: i, expected: "closing quote" });
    }
    let p2 = skip_ws(input, i + 1);
    let v = chars_to_string(&out);
    Ok((v, p2))
}

} // verus!
