use vstd::prelude::*;
use crate::enums::{Expr, SpecExpr};
use crate::errors::ParseError;
use crate::parsers::primitives::{
    lemma_skip_ws_bounds, match_at, skip_ws, spec_match_at, spec_skip_ws,
};
use crate::parsers::string::{lemma_parse_string_advances, parse_string, spec_parse_string};

verus! {

/// The view of a vector of strings: their character sequences, in order.
pub open spec fn strs_view(v: Seq<String>) -> Seq<Seq<char>> {
    v.map_values(|s: String| s@)
}

/// The items of a random block from `pos` on: string literals separated by
/// commas, closed by a brace. Yields the collected strings and the position
/// after the closing brace and trailing whitespace.
pub open spec fn spec_random_items(s: Seq<char>, pos: int, acc: Seq<Seq<char>>) -> Option<
    (Seq<Seq<char>>, int),
>
    decreases s.len() - pos,
{
    if pos < 0 || pos > s.len() {
        None
    } else {
        match spec_parse_string(s, pos) {
            None => None,
            Some((t, p1)) => if p1 <= pos || p1 > s.len() {
                None
            } else if p1 < s.len() && s[p1] == ',' {
                spec_random_items(s, p1 + 1, acc.push(t))
            } else if p1 < s.len() && s[p1] == '}' {
                Some((acc.push(t), spec_skip_ws(s, p1 + 1)))
            } else {
                None
            },
        }
    }
}

/// A random block: surrounding whitespace, the opening `#random {`, zero or
/// more comma-separated string literals, and the closing brace.
pub open spec fn spec_parse_random(s: Seq<char>, pos: int) -> Option<(Seq<Seq<char>>, int)> {
    let p = spec_skip_ws(s, pos);
    if spec_match_at(s, p, "#random {"@) {
        let q = spec_skip_ws(s, p + 9);
        if q < s.len() && s[q] == '}' {
            Some((Seq::empty(), spec_skip_ws(s, q + 1)))
        } else {
            spec_random_items(s, p + 9, Seq::empty())
        }
    } else {
        None
    }
}

/// Parsed random items end within the input, after where they began.
pub proof fn lemma_random_items_bounds(s: Seq<char>, pos: int, acc: Seq<Seq<char>>)
    ensures
        spec_random_items(s, pos, acc) matches Some((items, p2)) ==> pos < p2 <= s.len(),
    decreases s.len() - pos,
{
    if 0 <= pos <= s.len() {
        lemma_parse_string_advances(s, pos);
        match spec_parse_string(s, pos) {
            None => {},
            Some((t, p1)) => {
                if pos < p1 <= s.len() {
                    if p1 < s.len() && s[p1] == ',' {
                        lemma_random_items_bounds(s, p1 + 1, acc.push(t));
                    } else if p1 < s.len() && s[p1] == '}' {
                        lemma_skip_ws_bounds(s, p1 + 1);
                    }
                }
            },
        }
    }
}

/// A parsed random block advances the position and stays within the input.
pub proof fn lemma_parse_random_advances(s: Seq<char>, pos: int)
    requires
        0 <= pos <= s.len(),
    ensures
        spec_parse_random(s, pos) matches Some((items, p2)) ==> pos < p2 <= s.len(),
{
    reveal_strlit("#random {");
    lemma_skip_ws_bounds(s, pos);
    let p = spec_skip_ws(s, pos);
    if spec_match_at(s, p, "#random {"@) {
        lemma_skip_ws_bounds(s, p + 9);
        let q = spec_skip_ws(s, p + 9);
        if q < s.len() && s[q] == '}' {
            lemma_skip_ws_bounds(s, q + 1);
        } else {
            lemma_random_items_bounds(s, p + 9, Seq::empty());
        }
    }
}

/// Parse a random block into a random-choice expression.
#[verifier::loop_isolation(false)]
pub fn parse_random(input: &[char], pos: usize) -> (r: Result<(Expr, usize), ParseError>)
    requires
        pos <= input@.len(),
    ensures
        r matches Ok((e, p2)) ==> (spec_parse_random(input@, pos as int) matches Some((items, pp))
            && pp == p2 as int && e@ == SpecExpr::Random(items) && pos < p2 <= input@.len()),
        r is Err ==> spec_parse_random(input@, pos as int) is None,
{
    proof {
        lemma_parse_random_advances(input@, pos as int);
        reveal_strlit("#random {");
    }
    let n = input.len();
    let p = skip_ws(input, pos);
    if !match_at(input, p, "#random {") {
        return Err(ParseError { pos: p, expected: "random block" });
    }
    let q = skip_ws(input, p + 9);
    if q < n && input[q] == '}' {
        let p2 = skip_ws(input, q + 1);
        let items: Vec<String> = Vec::new();
        proof {
            assert(strs_view(items@) =~= Seq::<Seq<char>>::empty());
        }
        return Ok((Expr::Random(items), p2));
    }
    let mut items: Vec<String> = Vec::new();
    let mut cur = p + 9;
    proof {
        assert(strs_view(items@) =~= Seq::<Seq<char>>::empty());
    }
    loop
        invariant
            cur <= input@.len(),
            spec_random_items(input@, cur as int, strs_view(items@)) == spec_random_items(
                input@,
                p + 9 as int,
                Seq::empty(),
            ),
        decreases input@.len() - cur,
    {
        proof {
            lemma_parse_string_advances(input@, cur as int);
        }
        let (t, p1) = match parse_string(input, cur) {
            Ok(r) => r,
            Err(e) => {
                return Err(e);
            },
        };
        let ghost items_pre = strs_view(items@);
        let ghost tv = t@;
        items.push(t);
        proof {
            assert(strs_view(items@) =~= items_pre.push(tv));
        }
        if p1 < n && input[p1] == ',' {
            cur = p1 + 1;
        } else if p1 < n && input[p1] == '}' {
            let p2 = skip_ws(input, p1 + 1);
            return Ok((Expr::Random(items), p2));
        } else {
            return Err(ParseError { pos: p1, expected: "comma or closing brace" });
        }
    }
}

} // verus!
