use vstd::prelude::*;
use crate::errors::ParseError;
use crate::parsers::primitives::{
    lemma_skip_ws_bounds, match_at, skip_ws, spec_match_at, spec_skip_ws,
};

verus! {

/// A boolean literal: surrounding whitespace and a case-sensitive `true`
/// or `false`.
pub open spec fn spec_parse_bool(s: Seq<char>, pos: int) -> Option<(bool, int)> {
    let p = spec_skip_ws(s, pos);
    if spec_match_at(s, p, "true"@) {
        Some((true, spec_skip_ws(s, p + 4)))
    } else if spec_match_at(s, p, "false"@) {
        Some((false, spec_skip_ws(s, p + 5)))
    } else {
        None
    }
}

/// A parsed boolean advances the position and stays within the input.
pub proof fn lemma_parse_bool_advances(s: Seq<char>, pos: int)
    requires
        0 <= pos <= s.len(),
    ensures
        spec_parse_bool(s, pos) matches Some((b, p2)) ==> pos < p2 <= s.len(),
{
    reveal_strlit("true");
    reveal_strlit("false");
    lemma_skip_ws_bounds(s, pos);
    let p = spec_skip_ws(s, pos);
    if spec_match_at(s, p, "true"@) {
        lemma_skip_ws_bounds(s, p + 4);
    } else if spec_match_at(s, p, "false"@) {
        lemma_skip_ws_bounds(s, p + 5);
    }
}

/// Parse a boolean literal.
pub fn parse_bool(input: &[char], pos: usize) -> (r: Result<(bool, usize), ParseError>)
    requires
        pos <= input@.len(),
    ensures
        r matches Ok((b, p2)) ==> spec_parse_bool(input@, pos as int) == Some((b, p2 as int)) && pos
            < p2 <= input@.len(),
        r is Err ==> spec_parse_bool(input@, pos as int) is None,
{
    proof {
        lemma_parse_bool_advances(input@, pos as int);
        reveal_strlit("true");
        reveal_strlit("false");
    }
    let n = input.len();
    let p = skip_ws(input, pos);
    if match_at(input, p, "true") {
        proof {
            assert(p + 4 <= n);
        }
        let p2 = skip_ws(input, p + 4);
        Ok((true, p2))
    } else if match_at(input, p, "false") {
        proof {
            assert(p + 5 <= n);
        }
        let p2 = skip_ws(input, p + 5);
        Ok((false, p2))
    } else {
        Err(ParseError { pos: p, expected: "boolean" })
    }
}

} // verus!
