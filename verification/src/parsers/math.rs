use vstd::prelude::*;
use crate::enums::MathExpr;
use crate::errors::ParseError;
use crate::parsers::decimal::{int64, lemma_parse_dec_advances, spec_parse_dec};
use crate::parsers::primitives::{lemma_skip_ws_bounds, skip_ws, spec_skip_ws};

verus! {

/// An atom: an integer literal, or a parenthesized expression.
pub open spec fn spec_math_atom(s: Seq<char>, pos: int) -> Option<(MathExpr, int)>
    decreases s.len() - pos, 0int,
{
    if pos < 0 || pos > s.len() {
        None
    } else {
        let p = spec_skip_ws(s, pos);
        if p < pos || p > s.len() {
            None
        } else {
            match spec_parse_dec(s, p, i64::MAX as int) {
                Some((v, p2)) => Some((MathExpr::Num(v as i64), p2)),
                None => if p < s.len() && s[p] == '(' {
                    match spec_math_sum(s, p + 1) {
                        None => None,
                        Some((e, p2)) => if p2 < 0 || p2 > s.len() {
                            None
                        } else {
                            let q = spec_skip_ws(s, p2);
                            if q < s.len() && s[q] == ')' {
                                Some((e, spec_skip_ws(s, q + 1)))
                            } else {
                                None
                            }
                        },
                    }
                } else {
                    None
                },
            }
        }
    }
}

/// A unary term: zero or more prefix negations applied to an atom,
/// associating right to left.
pub open spec fn spec_math_unary(s: Seq<char>, pos: int) -> Option<(MathExpr, int)>
    decreases s.len() - pos, 1int,
{
    if pos < 0 || pos > s.len() {
        None
    } else {
        let p = spec_skip_ws(s, pos);
        if p < pos || p > s.len() {
            None
        } else if p < s.len() && s[p] == '-' {
            match spec_math_unary(s, p + 1) {
                Some((e, p2)) => Some((MathExpr::Neg(Box::new(e)), p2)),
                None => None,
            }
        } else {
            spec_math_atom(s, p)
        }
    }
}

/// Further factors of a product: `*` or `/` operators applied left to
/// right onto what was collected so far.
pub open spec fn spec_math_product_rest(s: Seq<char>, pos: int, acc: MathExpr) -> Option<
    (MathExpr, int),
>
    decreases s.len() - pos, 2int,
{
    if pos < 0 || pos > s.len() {
        None
    } else {
        let p = spec_skip_ws(s, pos);
        if p < pos || p > s.len() {
            None
        } else if p < s.len() && (s[p] == '*' || s[p] == '/') {
            match spec_math_unary(s, p + 1) {
                None => None,
                Some((rhs, p2)) => if p2 <= pos || p2 > s.len() {
                    None
                } else {
                    let next = if s[p] == '*' {
                        MathExpr::Mul(Box::new(acc), Box::new(rhs))
                    } else {
                        MathExpr::Div(Box::new(acc), Box::new(rhs))
                    };
                    spec_math_product_rest(s, p2, next)
                },
            }
        } else {
            Some((acc, pos))
        }
    }
}

/// A product: unary terms joined by `*` and `/`, associating left.
pub open spec fn spec_math_product(s: Seq<char>, pos: int) -> Option<(MathExpr, int)>
    decreases s.len() - pos, 3int,
{
    if pos < 0 || pos > s.len() {
        None
    } else {
        match spec_math_unary(s, pos) {
            None => None,
            Some((lhs, p1)) => if p1 < pos || p1 > s.len() {
                None
            } else {
                spec_math_product_rest(s, p1, lhs)
            },
        }
    }
}

/// Further terms of a sum: `+` or `-` operators applied left to right onto
/// what was collected so far.
pub open spec fn spec_math_sum_rest(s: Seq<char>, pos: int, acc: MathExpr) -> Option<
    (MathExpr, int),
>
    decreases s.len() - pos, 4int,
{
    if pos < 0 || pos > s.len() {
        None
    } else {
        let p = spec_skip_ws(s, pos);
        if p < pos || p > s.len() {
            None
        } else if p < s.len() && (s[p] == '+' || s[p] == '-') {
            match spec_math_product(s, p + 1) {
                None => None,
                Some((rhs, p2)) => if p2 <= pos || p2 > s.len() {
                    None
                } else {
                    let next = if s[p] == '+' {
                        MathExpr::Add(Box::new(acc), Box::new(rhs))
                    } else {
                        MathExpr::Sub(Box::new(acc), Box::new(rhs))
                    };
                    spec_math_sum_rest(s, p2, next)
                },
            }
        } else {
            Some((acc, pos))
        }
    }
}

/// A sum: products joined by `+` and `-`, associating left. This is the
/// whole arithmetic sub-grammar, binding loosest.
pub open spec fn spec_math_sum(s: Seq<char>, pos: int) -> Option<(MathExpr, int)>
    decreases s.len() - pos, 5int,
{
    if pos < 0 || pos > s.len() {
        None
    } else {
        match spec_math_product(s, pos) {
            None => None,
            Some((lhs, p1)) => if p1 < pos || p1 > s.len() {
                None
            } else {
                spec_math_sum_rest(s, p1, lhs)
            },
        }
    }
}

/// An arithmetic expression: the sum grammar.
pub open spec fn spec_parse_math(s: Seq<char>, pos: int) -> Option<(MathExpr, int)> {
    spec_math_sum(s, pos)
}

/// A parsed atom advances the position and stays within the input.
pub proof fn lemma_math_atom_advances(s: Seq<char>, pos: int)
    ensures
        spec_math_atom(s, pos) matches Some((e, p2)) ==> pos < p2 <= s.len(),
    decreases s.len() - pos, 0int,
{
    if 0 <= pos <= s.len() {
        lemma_skip_ws_bounds(s, pos);
        let p = spec_skip_ws(s, pos);
        if pos <= p <= s.len() {
            lemma_parse_dec_advances(s, p, i64::MAX as int);
            match spec_parse_dec(s, p, i64::MAX as int) {
                Some(_) => {},
                None => {
                    if p < s.len() && s[p] == '(' {
                        lemma_math_sum_advances(s, p + 1);
                        match spec_math_sum(s, p + 1) {
                            None => {},
                            Some((e, p2)) => {
                                if 0 <= p2 <= s.len() {
                                    lemma_skip_ws_bounds(s, p2);
                                    let q = spec_skip_ws(s, p2);
                                    if q < s.len() && s[q] == ')' {
                                        lemma_skip_ws_bounds(s, q + 1);
                                    }
                                }
                            },
                        }
                    }
                },
            }
        }
    }
}

/// A parsed unary term advances the position and stays within the input.
pub proof fn lemma_math_unary_advances(s: Seq<char>, pos: int)
    ensures
        spec_math_unary(s, pos) matches Some((e, p2)) ==> pos < p2 <= s.len(),
    decreases s.len() - pos, 1int,
{
    if 0 <= pos <= s.len() {
        lemma_skip_ws_bounds(s, pos);
        let p = spec_skip_ws(s, pos);
        if pos <= p <= s.len() {
            if p < s.len() && s[p] == '-' {
                lemma_math_unary_advances(s, p + 1);
            } else {
                lemma_math_atom_advances(s, p);
            }
        }
    }
}

/// Parsed product factors never move the position backwards.
pub proof fn lemma_math_product_rest_advances(s: Seq<char>, pos: int, acc: MathExpr)
    ensures
        spec_math_product_rest(s, pos, acc) matches Some((e, p2)) ==> pos <= p2 <= s.len(),
    decreases s.len() - pos, 2int,
{
    if 0 <= pos <= s.len() {
        lemma_skip_ws_bounds(s, pos);
        let p = spec_skip_ws(s, pos);
        if pos <= p <= s.len() {
            if p < s.len() && (s[p] == '*' || s[p] == '/') {
                lemma_math_unary_advances(s, p + 1);
                match spec_math_unary(s, p + 1) {
                    None => {},
                    Some((rhs, p2)) => {
                        if pos < p2 <= s.len() {
                            let next = if s[p] == '*' {
                                MathExpr::Mul(Box::new(acc), Box::new(rhs))
                            } else {
                                MathExpr::Div(Box::new(acc), Box::new(rhs))
                            };
                            lemma_math_product_rest_advances(s, p2, next);
                        }
                    },
                }
            }
        }
    }
}

/// A parsed product advances the position and stays within the input.
pub proof fn lemma_math_product_advances(s: Seq<char>, pos: int)
    ensures
        spec_math_product(s, pos) matches Some((e, p2)) ==> pos < p2 <= s.len(),
    decreases s.len() - pos, 3int,
{
    if 0 <= pos <= s.len() {
        lemma_math_unary_advances(s, pos);
        match spec_math_unary(s, pos) {
            None => {},
            Some((lhs, p1)) => {
                if pos <= p1 <= s.len() {
                    lemma_math_product_rest_advances(s, p1, lhs);
                }
            },
        }
    }
}

/// Parsed sum terms never move the position backwards.
pub proof fn lemma_math_sum_rest_advances(s: Seq<char>, pos: int, acc: MathExpr)
    ensures
        spec_math_sum_rest(s, pos, acc) matches Some((e, p2)) ==> pos <= p2 <= s.len(),
    decreases s.len() - pos, 4int,
{
    if 0 <= pos <= s.len() {
        lemma_skip_ws_bounds(s, pos);
        let p = spec_skip_ws(s, pos);
        if pos <= p <= s.len() {
            if p < s.len() && (s[p] == '+' || s[p] == '-') {
                lemma_math_product_advances(s, p + 1);
                match spec_math_product(s, p + 1) {
                    None => {},
                    Some((rhs, p2)) => {
                        if pos < p2 <= s.len() {
                            let next = if s[p] == '+' {
                                MathExpr::Add(Box::new(acc), Box::new(rhs))
                            } else {
                                MathExpr::Sub(Box::new(acc), Box::new(rhs))
                            };
                            lemma_math_sum_rest_advances(s, p2, next);
                        }
                    },
                }
            }
        }
    }
}

/// A parsed sum advances the position and stays within the input.
pub proof fn lemma_math_sum_advances(s: Seq<char>, pos: int)
    ensures
        spec_math_sum(s, pos) matches Some((e, p2)) ==> pos < p2 <= s.len(),
    decreases s.len() - pos, 5int,
{
    if 0 <= pos <= s.len() {
        lemma_math_product_advances(s, pos);
        match spec_math_product(s, pos) {
            None => {},
            Some((lhs, p1)) => {
                if pos <= p1 <= s.len() {
                    lemma_math_sum_rest_advances(s, p1, lhs);
                }
            },
        }
    }
}

/// Parse an atom.
fn math_atom(input: &[char], pos: usize) -> (r: Result<(MathExpr, usize), ParseError>)
    requires
        pos <= input@.len(),
    ensures
        r matches Ok((e, p2)) ==> spec_math_atom(input@, pos as int) == Some((e, p2 as int)) && pos
            < p2 <= input@.len(),
        r is Err ==> spec_math_atom(input@, pos as int) is None,
    decreases input@.len() - pos, 0int,
{
    proof {
        lemma_math_atom_advances(input@, pos as int);
    }
    let n = input.len();
    let p = skip_ws(input, pos);
    match int64(input, p) {
        Ok((v, p2)) => Ok((MathExpr::Num(v), p2)),
        Err(_) => {
            if p < n && input[p] == '(' {
                proof {
                    lemma_math_sum_advances(input@, p + 1 as int);
                }
                let (e, p2) = match math_sum(input, p + 1) {
                    Ok(r) => r,
                    Err(err) => {
                        return Err(err);
                    },
                };
                let q = skip_ws(input, p2);
                if q < n && input[q] == ')' {
                    Ok((e, skip_ws(input, q + 1)))
                } else {
                    Err(ParseError { pos: q, expected: "closing parenthesis" })
                }
            } else {
                Err(ParseError { pos: p, expected: "number or parenthesized expression" })
            }
        },
    }
}

/// Parse a unary term.
fn math_unary(input: &[char], pos: usize) -> (r: Result<(MathExpr, usize), ParseError>)
    requires
        pos <= input@.len(),
    ensures
        r matches Ok((e, p2)) ==> spec_math_unary(input@, pos as int) == Some((e, p2 as int)) && pos
            < p2 <= input@.len(),
        r is Err ==> spec_math_unary(input@, pos as int) is None,
    decreases input@.len() - pos, 1int,
{
    proof {
        lemma_math_unary_advances(input@, pos as int);
    }
    let n = input.len();
    let p = skip_ws(input, pos);
    if p < n && input[p] == '-' {
        match math_unary(input, p + 1) {
            Ok((e, p2)) => Ok((MathExpr::Neg(Box::new(e)), p2)),
            Err(err) => Err(err),
        }
    } else {
        math_atom(input, p)
    }
}

/// Parse a product.
#[verifier::loop_isolation(false)]
fn math_product(input: &[char], pos: usize) -> (r: Result<(MathExpr, usize), ParseError>)
    requires
        pos <= input@.len(),
    ensures
        r matches Ok((e, p2)) ==> spec_math_product(input@, pos as int) == Some((e, p2 as int))
            && pos < p2 <= input@.len(),
        r is Err ==> spec_math_product(input@, pos as int) is None,
    decreases input@.len() - pos, 3int,
{
    proof {
        lemma_math_product_advances(input@, pos as int);
    }
    let n = input.len();
    let (first, start) = match math_unary(input, pos) {
        Ok(r) => r,
        Err(err) => {
            return Err(err);
        },
    };
    let mut lhs = first;
    let mut cur = start;
    loop
        invariant
            pos < cur <= input@.len(),
            spec_math_product_rest(input@, cur as int, lhs) == spec_math_product(
                input@,
                pos as int,
            ),
        decreases input@.len() - cur,
    {
        proof {
            lemma_math_product_rest_advances(input@, cur as int, lhs);
        }
        let q = skip_ws(input, cur);
        if q < n && (input[q] == '*' || input[q] == '/') {
            proof {
                lemma_math_unary_advances(input@, q + 1 as int);
            }
            let (rhs, p2) = match math_unary(input, q + 1) {
                Ok(r) => r,
                Err(err) => {
                    return Err(err);
                },
            };
            if input[q] == '*' {
                lhs = MathExpr::Mul(Box::new(lhs), Box::new(rhs));
            } else {
                lhs = MathExpr::Div(Box::new(lhs), Box::new(rhs));
            }
            cur = p2;
        } else {
            return Ok((lhs, cur));
        }
    }
}

/// Parse a sum.
#[verifier::loop_isolation(false)]
fn math_sum(input: &[char], pos: usize) -> (r: Result<(MathExpr, usize), ParseError>)
    requires
        pos <= input@.len(),
    ensures
        r matches Ok((e, p2)) ==> spec_math_sum(input@, pos as int) == Some((e, p2 as int)) && pos
            < p2 <= input@.len(),
        r is Err ==> spec_math_sum(input@, pos as int) is None,
    decreases input@.len() - pos, 5int,
{
    proof {
        lemma_math_sum_advances(input@, pos as int);
    }
    let n = input.len();
    let (first, start) = match math_product(input, pos) {
        Ok(r) => r,
        Err(err) => {
            return Err(err);
        },
    };
    let mut lhs = first;
    let mut cur = start;
    loop
        invariant
            pos < cur <= input@.len(),
            spec_math_sum_rest(input@, cur as int, lhs) == spec_math_sum(input@, pos as int),
        decreases input@.len() - cur,
    {
        proof {
            lemma_math_sum_rest_advances(input@, cur as int, lhs);
        }
        let q = skip_ws(input, cur);
        if q < n && (input[q] == '+' || input[q] == '-') {
            proof {
                lemma_math_product_advances(input@, q + 1 as int);
            }
            let (rhs, p2) = match math_product(input, q + 1) {
                Ok(r) => r,
                Err(err) => {
                    return Err(err);
                },
            };
            if input[q] == '+' {
                lhs = MathExpr::Add(Box::new(lhs), Box::new(rhs));
            } else {
                lhs = MathExpr::Sub(Box::new(lhs), Box::new(rhs));
            }
            cur = p2;
        } else {
            return Ok((lhs, cur));
        }
    }
}

/// Parse a string of characters into a math expression.
pub fn parse_math(input: &[char], pos: usize) -> (r: Result<(MathExpr, usize), ParseError>)
    requires
        pos <= input@.len(),
    ensures
        r matches Ok((e, p2)) ==> spec_parse_math(input@, pos as int) == Some((e, p2 as int)) && pos
            < p2 <= input@.len(),
        r is Err ==> spec_parse_math(input@, pos as int) is None,
{
    math_sum(input, pos)
}

} // verus!
