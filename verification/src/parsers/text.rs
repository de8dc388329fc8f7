use vstd::prelude::*;
use crate::errors::ParseError;
use crate::helpers::chars_to_string;
use crate::parsers::hexadecimal::{hex_val, is_hex_digit, is_hex_digit_exec, spec_hex_value};
use crate::parsers::primitives::{
    lemma_skip_ws_bounds, match_at, skip_ws, spec_match_at, spec_skip_ws,
};

verus! {

/// One escape sequence, starting just after the backslash: the character it
/// stands for and the position after it. `\uXXXX` with a surrogate code
/// yields the replacement character.
pub open spec fn spec_escape(s: Seq<char>, pos: int) -> Option<(char, int)> {
    if pos < 0 || pos >= s.len() {
        None
    } else if s[pos] == '\\' {
        Some(('\\', pos + 1))
    } else if s[pos] == '/' {
        Some(('/', pos + 1))
    } else if s[pos] == '"' {
        Some(('"', pos + 1))
    } else if s[pos] == 'b' {
        Some(('\u{8}', pos + 1))
    } else if s[pos] == 'f' {
        Some(('\u{c}', pos + 1))
    } else if s[pos] == 'n' {
        Some(('\n', pos + 1))
    } else if s[pos] == 'r' {
        Some(('\r', pos + 1))
    } else if s[pos] == 't' {
        Some(('\t', pos + 1))
    } else if s[pos] == 'u' {
        if pos + 5 <= s.len() && (forall|k: int|
            pos + 1 <= k < pos + 5 ==> is_hex_digit(#[trigger] s[k])) {
            let code = spec_hex_value(s, pos + 1, pos + 5);
            if 0xD800 <= code <= 0xDFFF {
                Some(('\u{fffd}', pos + 5))
            } else {
                Some(((code as u32) as char, pos + 5))
            }
        } else {
            None
        }
    } else {
        None
    }
}

/// A recognized escape ends after the backslash and within the input.
pub proof fn lemma_escape_bounds(s: Seq<char>, pos: int)
    ensures
        spec_escape(s, pos) matches Some((c, p2)) ==> pos < p2 <= s.len(),
{
}

/// A text block body from `pos`: characters taken verbatim up to the
/// closing brace, with backslash escapes decoded. Yields the decoded text
/// and the position after the closing brace.
pub open spec fn spec_text_body(s: Seq<char>, pos: int) -> Option<(Seq<char>, int)>
    decreases s.len() - pos,
{
    if pos < 0 || pos >= s.len() {
        None
    } else if s[pos] == '}' {
        Some((Seq::empty(), pos + 1))
    } else if s[pos] == '\\' {
        match spec_escape(s, pos + 1) {
            None => None,
            Some((c, p2)) => if p2 <= pos + 1 || p2 > s.len() {
                None
            } else {
                match spec_text_body(s, p2) {
                    None => None,
                    Some((t, p3)) => Some((seq![c] + t, p3)),
                }
            },
        }
    } else {
        match spec_text_body(s, pos + 1) {
            None => None,
            Some((t, p3)) => Some((seq![s[pos]] + t, p3)),
        }
    }
}

/// A text block: surrounding whitespace, the opening `#text {`, a body with
/// escapes, and the closing brace.
pub open spec fn spec_parse_text(s: Seq<char>, pos: int) -> Option<(Seq<char>, int)> {
    let p = spec_skip_ws(s, pos);
    if spec_match_at(s, p, "#text {"@) {
        match spec_text_body(s, p + 7) {
            Some((t, p2)) => Some((t, spec_skip_ws(s, p2))),
            None => None,
        }
    } else {
        None
    }
}

/// A text body ends within the input, after where it began.
pub proof fn lemma_text_body_bounds(s: Seq<char>, pos: int)
    ensures
        spec_text_body(s, pos) matches Some((t, p2)) ==> pos < p2 <= s.len(),
    decreases s.len() - pos,
{
    if 0 <= pos < s.len() {
        if s[pos] == '}' {
        } else if s[pos] == '\\' {
            match spec_escape(s, pos + 1) {
                None => {},
                Some((c, p2)) => {
                    if pos + 1 < p2 <= s.len() {
                        lemma_text_body_bounds(s, p2);
                    }
                },
            }
        } else {
            lemma_text_body_bounds(s, pos + 1);
        }
    }
}

/// A parsed text block advances the position and stays within the input.
pub proof fn lemma_parse_text_advances(s: Seq<char>, pos: int)
    requires
        0 <= pos <= s.len(),
    ensures
        spec_parse_text(s, pos) matches Some((t, p2)) ==> pos < p2 <= s.len(),
{
    reveal_strlit("#text {");
    lemma_skip_ws_bounds(s, pos);
    let p = spec_skip_ws(s, pos);
    if spec_match_at(s, p, "#text {"@) {
        lemma_text_body_bounds(s, p + 7);
        match spec_text_body(s, p + 7) {
            Some((t, p2)) => {
                lemma_skip_ws_bounds(s, p2);
            },
            None => {},
        }
    }
}

/// Parse one escape sequence, starting just after the backslash.
fn parse_escape(input: &[char], pos: usize) -> (r: Result<(char, usize), ParseError>)
    requires
        pos <= input@.len(),
    ensures
        r matches Ok((c, p2)) ==> spec_escape(input@, pos as int) == Some((c, p2 as int)) && pos
            < p2 <= input@.len(),
        r is Err ==> spec_escape(input@, pos as int) is None,
{
    let n = input.len();
    if pos >= n {
        return Err(ParseError { pos, expected: "escape sequence" });
    }
    let c = input[pos];
    if c == '\\' {
        Ok(('\\', pos + 1))
    } else if c == '/' {
        Ok(('/', pos + 1))
    } else if c == '"' {
        Ok(('"', pos + 1))
    } else if c == 'b' {
        Ok(('\u{8}', pos + 1))
    } else if c == 'f' {
        Ok(('\u{c}', pos + 1))
    } else if c == 'n' {
        Ok(('\n', pos + 1))
    } else if c == 'r' {
        Ok(('\r', pos + 1))
    } else if c == 't' {
        Ok(('\t', pos + 1))
    } else if c == 'u' {
        if n - pos < 5 {
            return Err(ParseError { pos, expected: "four hex digits" });
        }
        if !(is_hex_digit_exec(input[pos + 1]) && is_hex_digit_exec(input[pos + 2])
            && is_hex_digit_exec(input[pos + 3]) && is_hex_digit_exec(input[pos + 4])) {
            return Err(ParseError { pos, expected: "four hex digits" });
        }
        let d1 = hex_val(input[pos + 1]);
        let d2 = hex_val(input[pos + 2]);
        let d3 = hex_val(input[pos + 3]);
        let d4 = hex_val(input[pos + 4]);
        let code: u32 = ((d1 * 16 + d2) * 16 + d3) * 16 + d4;
        proof {
            assert(code == spec_hex_value(input@, pos + 1, pos + 5)) by {
                reveal_with_fuel(spec_hex_value, 5);
            }
        }
        if 0xD800 <= code && code <= 0xDFFF {
            Ok(('\u{fffd}', pos + 5))
        } else {
            match char::from_u32(code) {
                Some(ch) => Ok((ch, pos + 5)),
                None => {
                    proof {
                        assert(false);
                    }
                    Err(ParseError { pos, expected: "unicode scalar value" })
                },
            }
        }
    } else {
        Err(ParseError { pos, expected: "escape sequence" })
    }
}

/// Prepend a prefix to the text of a pending body parse.
pub open spec fn opt_prepend(prefix: Seq<char>, o: Option<(Seq<char>, int)>) -> Option<
    (Seq<char>, int),
> {
    match o {
        Some((t, p)) => Some((prefix + t, p)),
        None => None,
    }
}

/// Parse a text block into its decoded text.
#[verifier::loop_isolation(false)]
pub fn parse_text(input: &[char], pos: usize) -> (r: Result<(String, usize), ParseError>)
    requires
        pos <= input@.len(),
    ensures
        r matches Ok((v, p2)) ==> spec_parse_text(input@, pos as int) == Some((v@, p2 as int))
            && pos < p2 <= input@.len(),
        r is Err ==> spec_parse_text(input@, pos as int) is None,
{
    proof {
        lemma_parse_text_advances(input@, pos as int);
        reveal_strlit("#text {");
    }
    let n = input.len();
    let p = skip_ws(input, pos);
    if !match_at(input, p, "#text {") {
        return Err(ParseError { pos: p, expected: "text block" });
    }
    let ghost start = p + 7 as int;
    let mut i = p + 7;
    let mut out: Vec<char> = Vec::new();
    loop
        invariant
            p + 7 <= i <= input@.len(),
            opt_prepend(out@, spec_text_body(input@, i as int)) == spec_text_body(input@, start),
        decreases input@.len() - i,
    {
        if i >= n {
            return Err(ParseError { pos: i, expected: "closing brace" });
        }
        let c = input[i];
        if c == '}' {
            proof {
                assert(out@ + Seq::<char>::empty() =~= out@);
            }
            let p2 = skip_ws(input, i + 1);
            let v = chars_to_string(&out);
            return Ok((v, p2));
        }
        if c == '\\' {
            let (ch, next) = match parse_escape(input, i + 1) {
                Ok(r) => r,
                Err(e) => {
                    return Err(e);
                },
            };
            let ghost out_pre = out@;
            let ghost body_next = spec_text_body(input@, next as int);
            out.push(ch);
            proof {
                match body_next {
                    Some((t, p3)) => {
                        assert(out@ + t =~= out_pre + (seq![ch] + t));
                    },
                    None => {},
                }
            }
            i = next;
        } else {
            let ghost out_pre = out@;
            let ghost body_next = spec_text_body(input@, i + 1 as int);
            out.push(c);
            proof {
                match body_next {
                    Some((t, p3)) => {
                        assert(out@ + t =~= out_pre + (seq![c] + t));
                    },
                    None => {},
                }
            }
            i = i + 1;
        }
    }
}

} // verus!
