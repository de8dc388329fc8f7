use vstd::prelude::*;
use vstd::string::StrSliceExecFns;
use crate::enums::{
    seq_view, EmbedAuthorComponent, EmbedComponent, EmbedFieldComponent, EmbedFooterComponent,
    Expr, SpecAuthorComponent, SpecComponent, SpecExpr, SpecFieldComponent, SpecFooterComponent,
};
use crate::errors::ParseError;
use crate::parsers::decimal::{int32, int64, lemma_parse_dec_advances, spec_parse_dec};
use crate::parsers::hexadecimal::{hexadecimal, lemma_parse_hex_advances, spec_parse_hex};
use crate::parsers::primitives::{
    lemma_skip_ws_bounds, match_at, skip_ws, spec_match_at, spec_skip_ws,
};
use crate::parsers::string::{lemma_parse_string_advances, parse_string, spec_parse_string};

verus! {

/// A string-valued leaf field: its tag, a string literal, and the mandatory
/// trailing comma.
pub open spec fn spec_string_field(s: Seq<char>, pos: int, tag: Seq<char>) -> Option<
    (Seq<char>, int),
> {
    if spec_match_at(s, pos, tag) {
        match spec_parse_string(s, pos + tag.len()) {
            Some((t, p1)) => if p1 < s.len() && s[p1] == ',' {
                Some((t, p1 + 1))
            } else {
                None
            },
            None => None,
        }
    } else {
        None
    }
}

/// A parsed string field advances the position and stays within the input.
pub proof fn lemma_string_field_advances(s: Seq<char>, pos: int, tag: Seq<char>)
    requires
        0 <= pos <= s.len(),
    ensures
        spec_string_field(s, pos, tag) matches Some((t, p2)) ==> pos < p2 <= s.len(),
{
    if spec_match_at(s, pos, tag) {
        lemma_parse_string_advances(s, pos + tag.len());
    }
}

/// Parse a string-valued leaf field with the given tag.
pub fn parse_string_field(input: &[char], pos: usize, tag: &str) -> (r: Result<
    (String, usize),
    ParseError,
>)
    requires
        pos <= input@.len(),
    ensures
        r matches Ok((t, p2)) ==> spec_string_field(input@, pos as int, tag@) == Some(
            (t@, p2 as int),
        ) && pos < p2 <= input@.len(),
        r is Err ==> spec_string_field(input@, pos as int, tag@) is None,
{
    proof {
        lemma_string_field_advances(input@, pos as int, tag@);
    }
    let n = input.len();
    if !match_at(input, pos, tag) {
        return Err(ParseError { pos, expected: "field tag" });
    }
    let tl = tag.unicode_len();
    let (t, p1) = match parse_string(input, pos + tl) {
        Ok(r) => r,
        Err(e) => {
            return Err(e);
        },
    };
    if p1 < n && input[p1] == ',' {
        Ok((t, p1 + 1))
    } else {
        Err(ParseError { pos: p1, expected: "comma" })
    }
}

/// An embed author component: a name, url or icon url leaf field.
pub open spec fn spec_parse_author_component(s: Seq<char>, pos: int) -> Option<
    (SpecAuthorComponent, int),
> {
    let p = spec_skip_ws(s, pos);
    if spec_match_at(s, p, "#name:"@) {
        match spec_string_field(s, p, "#name:"@) {
            Some((t, p2)) => Some((SpecAuthorComponent::Name(t), p2)),
            None => None,
        }
    } else if spec_match_at(s, p, "#url:"@) {
        match spec_string_field(s, p, "#url:"@) {
            Some((t, p2)) => Some((SpecAuthorComponent::Url(t), p2)),
            None => None,
        }
    } else if spec_match_at(s, p, "#icon_url:"@) {
        match spec_string_field(s, p, "#icon_url:"@) {
            Some((t, p2)) => Some((SpecAuthorComponent::IconUrl(t), p2)),
            None => None,
        }
    } else {
        None
    }
}

/// A parsed author component advances the position.
pub proof fn lemma_author_component_advances(s: Seq<char>, pos: int)
    requires
        0 <= pos <= s.len(),
    ensures
        spec_parse_author_component(s, pos) matches Some((c, p2)) ==> pos < p2 <= s.len(),
{
    lemma_skip_ws_bounds(s, pos);
    let p = spec_skip_ws(s, pos);
    lemma_string_field_advances(s, p, "#name:"@);
    lemma_string_field_advances(s, p, "#url:"@);
    lemma_string_field_advances(s, p, "#icon_url:"@);
}

/// Parse one embed author component.
pub fn parse_embed_author_component(input: &[char], pos: usize) -> (r: Result<
    (EmbedAuthorComponent, usize),
    ParseError,
>)
    requires
        pos <= input@.len(),
    ensures
        r matches Ok((c, p2)) ==> spec_parse_author_component(input@, pos as int) == Some(
            (c@, p2 as int),
        ) && pos < p2 <= input@.len(),
        r is Err ==> spec_parse_author_component(input@, pos as int) is None,
{
    proof {
        lemma_author_component_advances(input@, pos as int);
    }
    let p = skip_ws(input, pos);
    if match_at(input, p, "#name:") {
        match parse_embed_author_name(input, p) {
            Ok(r) => Ok(r),
            Err(e) => Err(e),
        }
    } else if match_at(input, p, "#url:") {
        match parse_embed_author_url(input, p) {
            Ok(r) => Ok(r),
            Err(e) => Err(e),
        }
    } else if match_at(input, p, "#icon_url:") {
        match parse_embed_author_icon_url(input, p) {
            Ok(r) => Ok(r),
            Err(e) => Err(e),
        }
    } else {
        Err(ParseError { pos: p, expected: "author component" })
    }
}

/// Parse a string field for an embed author.
pub fn parse_author_string_field(input: &[char], pos: usize, tag: &str) -> (r: Result<
    (String, usize),
    ParseError,
>)
    requires
        pos <= input@.len(),
    ensures
        r matches Ok((t, p2)) ==> spec_string_field(input@, pos as int, tag@) == Some(
            (t@, p2 as int),
        ) && pos < p2 <= input@.len(),
        r is Err ==> spec_string_field(input@, pos as int, tag@) is None,
{
    parse_string_field(input, pos, tag)
}

/// Parse an embed author's name.
pub fn parse_embed_author_name(input: &[char], pos: usize) -> (r: Result<
    (EmbedAuthorComponent, usize),
    ParseError,
>)
    requires
        pos <= input@.len(),
    ensures
        r matches Ok((c, p2)) ==> (spec_string_field(input@, pos as int, "#name:"@) matches Some(
            (t, pp),
        ) && pp == p2 as int && c@ == SpecAuthorComponent::Name(t) && pos < p2 <= input@.len()),
        r is Err ==> spec_string_field(input@, pos as int, "#name:"@) is None,
{
    match parse_author_string_field(input, pos, "#name:") {
        Ok((t, p2)) => Ok((EmbedAuthorComponent::Name(t), p2)),
        Err(e) => Err(e),
    }
}

/// Parse an embed author's url.
pub fn parse_embed_author_url(input: &[char], pos: usize) -> (r: Result<
    (EmbedAuthorComponent, usize),
    ParseError,
>)
    requires
        pos <= input@.len(),
    ensures
        r matches Ok((c, p2)) ==> (spec_string_field(input@, pos as int, "#url:"@) matches Some(
            (t, pp),
        ) && pp == p2 as int && c@ == SpecAuthorComponent::Url(t) && pos < p2 <= input@.len()),
        r is Err ==> spec_string_field(input@, pos as int, "#url:"@) is None,
{
    match parse_author_string_field(input, pos, "#url:") {
        Ok((t, p2)) => Ok((EmbedAuthorComponent::Url(t), p2)),
        Err(e) => Err(e),
    }
}

/// Parse an embed author's icon url.
pub fn parse_embed_author_icon_url(input: &[char], pos: usize) -> (r: Result<
    (EmbedAuthorComponent, usize),
    ParseError,
>)
    requires
        pos <= input@.len(),
    ensures
        r matches Ok((c, p2)) ==> (spec_string_field(input@, pos as int, "#icon_url:"@)
            matches Some((t, pp)) && pp == p2 as int && c@ == SpecAuthorComponent::IconUrl(t) && pos
            < p2 <= input@.len()),
        r is Err ==> spec_string_field(input@, pos as int, "#icon_url:"@) is None,
{
    match parse_author_string_field(input, pos, "#icon_url:") {
        Ok((t, p2)) => Ok((EmbedAuthorComponent::IconUrl(t), p2)),
        Err(e) => Err(e),
    }
}

/// The components of an author block from `pos` on, up to the closing brace.
pub open spec fn spec_author_components(
    s: Seq<char>,
    pos: int,
    acc: Seq<SpecAuthorComponent>,
) -> Option<(Seq<SpecAuthorComponent>, int)>
    decreases s.len() - pos,
{
    if pos < 0 || pos > s.len() {
        None
    } else {
        let p = spec_skip_ws(s, pos);
        if p < s.len() && s[p] == '}' {
            Some((acc, p + 1))
        } else {
            match spec_parse_author_component(s, pos) {
                None => None,
                Some((c, p2)) => if p2 <= pos || p2 > s.len() {
                    None
                } else {
                    spec_author_components(s, p2, acc.push(c))
                },
            }
        }
    }
}

/// Parsed author components end within the input, after where they began.
pub proof fn lemma_author_components_bounds(s: Seq<char>, pos: int, acc: Seq<SpecAuthorComponent>)
    ensures
        spec_author_components(s, pos, acc) matches Some((cs, p2)) ==> pos < p2 <= s.len(),
    decreases s.len() - pos,
{
    if 0 <= pos <= s.len() {
        lemma_skip_ws_bounds(s, pos);
        let p = spec_skip_ws(s, pos);
        if !(p < s.len() && s[p] == '}') {
            match spec_parse_author_component(s, pos) {
                None => {},
                Some((c, p2)) => {
                    if pos < p2 <= s.len() {
                        lemma_author_components_bounds(s, p2, acc.push(c));
                    }
                },
            }
        }
    }
}

/// An author block: the opening `#author {`, components, a closing brace,
/// and trailing whitespace.
pub open spec fn spec_parse_author_raw(s: Seq<char>, pos: int) -> Option<
    (Seq<SpecAuthorComponent>, int),
> {
    let p = spec_skip_ws(s, pos);
    if spec_match_at(s, p, "#author {"@) {
        match spec_author_components(s, p + 9, Seq::empty()) {
            Some((cs, p2)) => Some((cs, spec_skip_ws(s, p2))),
            None => None,
        }
    } else {
        None
    }
}

/// A parsed author block advances the position.
pub proof fn lemma_parse_author_raw_advances(s: Seq<char>, pos: int)
    requires
        0 <= pos <= s.len(),
    ensures
        spec_parse_author_raw(s, pos) matches Some((cs, p2)) ==> pos < p2 <= s.len(),
{
    reveal_strlit("#author {");
    lemma_skip_ws_bounds(s, pos);
    let p = spec_skip_ws(s, pos);
    if spec_match_at(s, p, "#author {"@) {
        lemma_author_components_bounds(s, p + 9, Seq::empty());
        match spec_author_components(s, p + 9, Seq::empty()) {
            Some((cs, p2)) => {
                lemma_skip_ws_bounds(s, p2);
            },
            None => {},
        }
    }
}

/// Parse an embed author block into a vector of author components.
#[verifier::loop_isolation(false)]
pub fn parse_embed_author_raw(input: &[char], pos: usize) -> (r: Result<
    (Vec<EmbedAuthorComponent>, usize),
    ParseError,
>)
    requires
        pos <= input@.len(),
    ensures
        r matches Ok((cs, p2)) ==> spec_parse_author_raw(input@, pos as int) == Some(
            (seq_view(cs@), p2 as int),
        ) && pos < p2 <= input@.len(),
        r is Err ==> spec_parse_author_raw(input@, pos as int) is None,
{
    proof {
        lemma_parse_author_raw_advances(input@, pos as int);
        reveal_strlit("#author {");
    }
    let n = input.len();
    let p = skip_ws(input, pos);
    if !match_at(input, p, "#author {") {
        return Err(ParseError { pos: p, expected: "author block" });
    }
    let mut cs: Vec<EmbedAuthorComponent> = Vec::new();
    let mut cur = p + 9;
    proof {
        assert(seq_view(cs@) =~= Seq::<SpecAuthorComponent>::empty());
    }
    loop
        invariant
            cur <= input@.len(),
            spec_author_components(input@, cur as int, seq_view(cs@)) == spec_author_components(
                input@,
                p + 9 as int,
                Seq::empty(),
            ),
        decreases input@.len() - cur,
    {
        let q = skip_ws(input, cur);
        if q < n && input[q] == '}' {
            let p2 = skip_ws(input, q + 1);
            return Ok((cs, p2));
        }
        proof {
            lemma_author_component_advances(input@, cur as int);
        }
        let (c, p2) = match parse_embed_author_component(input, cur) {
            Ok(r) => r,
            Err(e) => {
                return Err(e);
            },
        };
        let ghost cs_pre = seq_view(cs@);
        let ghost cv = c@;
        cs.push(c);
        proof {
            assert(seq_view(cs@) =~= cs_pre.push(cv));
        }
        cur = p2;
    }
}

/// An embed footer component: a text or icon url leaf field.
pub open spec fn spec_parse_footer_component(s: Seq<char>, pos: int) -> Option<
    (SpecFooterComponent, int),
> {
    let p = spec_skip_ws(s, pos);
    if spec_match_at(s, p, "#text:"@) {
        match spec_string_field(s, p, "#text:"@) {
            Some((t, p2)) => Some((SpecFooterComponent::Text(t), p2)),
            None => None,
        }
    } else if spec_match_at(s, p, "#icon_url:"@) {
        match spec_string_field(s, p, "#icon_url:"@) {
            Some((t, p2)) => Some((SpecFooterComponent::IconUrl(t), p2)),
            None => None,
        }
    } else {
        None
    }
}

/// A parsed footer component advances the position.
pub proof fn lemma_footer_component_advances(s: Seq<char>, pos: int)
    requires
        0 <= pos <= s.len(),
    ensures
        spec_parse_footer_component(s, pos) matches Some((c, p2)) ==> pos < p2 <= s.len(),
{
    lemma_skip_ws_bounds(s, pos);
    let p = spec_skip_ws(s, pos);
    lemma_string_field_advances(s, p, "#text:"@);
    lemma_string_field_advances(s, p, "#icon_url:"@);
}

/// Parse a string field for an embed footer.
pub fn parse_footer_string_field(input: &[char], pos: usize, tag: &str) -> (r: Result<
    (String, usize),
    ParseError,
>)
    requires
        pos <= input@.len(),
    ensures
        r matches Ok((t, p2)) ==> spec_string_field(input@, pos as int, tag@) == Some(
            (t@, p2 as int),
        ) && pos < p2 <= input@.len(),
        r is Err ==> spec_string_field(input@, pos as int, tag@) is None,
{
    parse_string_field(input, pos, tag)
}

/// Parse an embed footer's text.
pub fn parse_embed_footer_text(input: &[char], pos: usize) -> (r: Result<
    (EmbedFooterComponent, usize),
    ParseError,
>)
    requires
        pos <= input@.len(),
    ensures
        r matches Ok((c, p2)) ==> (spec_string_field(input@, pos as int, "#text:"@) matches Some(
            (t, pp),
        ) && pp == p2 as int && c@ == SpecFooterComponent::Text(t) && pos < p2 <= input@.len()),
        r is Err ==> spec_string_field(input@, pos as int, "#text:"@) is None,
{
    match parse_footer_string_field(input, pos, "#text:") {
        Ok((t, p2)) => Ok((EmbedFooterComponent::Text(t), p2)),
        Err(e) => Err(e),
    }
}

/// Parse an embed footer's icon url.
pub fn parse_embed_footer_icon_url(input: &[char], pos: usize) -> (r: Result<
    (EmbedFooterComponent, usize),
    ParseError,
>)
    requires
        pos <= input@.len(),
    ensures
        r matches Ok((c, p2)) ==> (spec_string_field(input@, pos as int, "#icon_url:"@)
            matches Some((t, pp)) && pp == p2 as int && c@ == SpecFooterComponent::IconUrl(t) && pos
            < p2 <= input@.len()),
        r is Err ==> spec_string_field(input@, pos as int, "#icon_url:"@) is None,
{
    match parse_footer_string_field(input, pos, "#icon_url:") {
        Ok((t, p2)) => Ok((EmbedFooterComponent::IconUrl(t), p2)),
        Err(e) => Err(e),
    }
}

/// Parse one embed footer component.
pub fn parse_embed_footer_component(input: &[char], pos: usize) -> (r: Result<
    (EmbedFooterComponent, usize),
    ParseError,
>)
    requires
        pos <= input@.len(),
    ensures
        r matches Ok((c, p2)) ==> spec_parse_footer_component(input@, pos as int) == Some(
            (c@, p2 as int),
        ) && pos < p2 <= input@.len(),
        r is Err ==> spec_parse_footer_component(input@, pos as int) is None,
{
    proof {
        lemma_footer_component_advances(input@, pos as int);
    }
    let p = skip_ws(input, pos);
    if match_at(input, p, "#text:") {
        match parse_embed_footer_text(input, p) {
            Ok(r) => Ok(r),
            Err(e) => Err(e),
        }
    } else if match_at(input, p, "#icon_url:") {
        match parse_embed_footer_icon_url(input, p) {
            Ok(r) => Ok(r),
            Err(e) => Err(e),
        }
    } else {
        Err(ParseError { pos: p, expected: "footer component" })
    }
}

/// The components of a footer block from `pos` on, up to the closing brace.
pub open spec fn spec_footer_components(
    s: Seq<char>,
    pos: int,
    acc: Seq<SpecFooterComponent>,
) -> Option<(Seq<SpecFooterComponent>, int)>
    decreases s.len() - pos,
{
    if pos < 0 || pos > s.len() {
        None
    } else {
        let p = spec_skip_ws(s, pos);
        if p < s.len() && s[p] == '}' {
            Some((acc, p + 1))
        } else {
            match spec_parse_footer_component(s, pos) {
                None => None,
                Some((c, p2)) => if p2 <= pos || p2 > s.len() {
                    None
                } else {
                    spec_footer_components(s, p2, acc.push(c))
                },
            }
        }
    }
}

/// Parsed footer components end within the input, after where they began.
pub proof fn lemma_footer_components_bounds(s: Seq<char>, pos: int, acc: Seq<SpecFooterComponent>)
    ensures
        spec_footer_components(s, pos, acc) matches Some((cs, p2)) ==> pos < p2 <= s.len(),
    decreases s.len() - pos,
{
    if 0 <= pos <= s.len() {
        lemma_skip_ws_bounds(s, pos);
        let p = spec_skip_ws(s, pos);
        if !(p < s.len() && s[p] == '}') {
            match spec_parse_footer_component(s, pos) {
                None => {},
                Some((c, p2)) => {
                    if pos < p2 <= s.len() {
                        lemma_footer_components_bounds(s, p2, acc.push(c));
                    }
                },
            }
        }
    }
}

/// A footer block: the opening `#footer {`, components, a closing brace,
/// and trailing whitespace.
pub open spec fn spec_parse_footer_raw(s: Seq<char>, pos: int) -> Option<
    (Seq<SpecFooterComponent>, int),
> {
    let p = spec_skip_ws(s, pos);
    if spec_match_at(s, p, "#footer {"@) {
        match spec_footer_components(s, p + 9, Seq::empty()) {
            Some((cs, p2)) => Some((cs, spec_skip_ws(s, p2))),
            None => None,
        }
    } else {
        None
    }
}

/// A parsed footer block advances the position.
pub proof fn lemma_parse_footer_raw_advances(s: Seq<char>, pos: int)
    requires
        0 <= pos <= s.len(),
    ensures
        spec_parse_footer_raw(s, pos) matches Some((cs, p2)) ==> pos < p2 <= s.len(),
{
    reveal_strlit("#footer {");
    lemma_skip_ws_bounds(s, pos);
    let p = spec_skip_ws(s, pos);
    if spec_match_at(s, p, "#footer {"@) {
        lemma_footer_components_bounds(s, p + 9, Seq::empty());
        match spec_footer_components(s, p + 9, Seq::empty()) {
            Some((cs, p2)) => {
                lemma_skip_ws_bounds(s, p2);
            },
            None => {},
        }
    }
}

/// Parse an embed footer block into a vector of footer components.
#[verifier::loop_isolation(false)]
pub fn parse_embed_footer_raw(input: &[char], pos: usize) -> (r: Result<
    (Vec<EmbedFooterComponent>, usize),
    ParseError,
>)
    requires
        pos <= input@.len(),
    ensures
        r matches Ok((cs, p2)) ==> spec_parse_footer_raw(input@, pos as int) == Some(
            (seq_view(cs@), p2 as int),
        ) && pos < p2 <= input@.len(),
        r is Err ==> spec_parse_footer_raw(input@, pos as int) is None,
{
    proof {
        lemma_parse_footer_raw_advances(input@, pos as int);
        reveal_strlit("#footer {");
    }
    let n = input.len();
    let p = skip_ws(input, pos);
    if !match_at(input, p, "#footer {") {
        return Err(ParseError { pos: p, expected: "footer block" });
    }
    let mut cs: Vec<EmbedFooterComponent> = Vec::new();
    let mut cur = p + 9;
    proof {
        assert(seq_view(cs@) =~= Seq::<SpecFooterComponent>::empty());
    }
    loop
        invariant
            cur <= input@.len(),
            spec_footer_components(input@, cur as int, seq_view(cs@)) == spec_footer_components(
                input@,
                p + 9 as int,
                Seq::empty(),
            ),
        decreases input@.len() - cur,
    {
        let q = skip_ws(input, cur);
        if q < n && input[q] == '}' {
            let p2 = skip_ws(input, q + 1);
            return Ok((cs, p2));
        }
        proof {
            lemma_footer_component_advances(input@, cur as int);
        }
        let (c, p2) = match parse_embed_footer_component(input, cur) {
            Ok(r) => r,
            Err(e) => {
                return Err(e);
            },
        };
        let ghost cs_pre = seq_view(cs@);
        let ghost cv = c@;
        cs.push(c);
        proof {
            assert(seq_view(cs@) =~= cs_pre.push(cv));
        }
        cur = p2;
    }
}

/// An embed field component: a name, value or inline leaf field.
pub open spec fn spec_parse_field_component(s: Seq<char>, pos: int) -> Option<
    (SpecFieldComponent, int),
> {
    let p = spec_skip_ws(s, pos);
    if spec_match_at(s, p, "#name:"@) {
        match spec_string_field(s, p, "#name:"@) {
            Some((t, p2)) => Some((SpecFieldComponent::Name(t), p2)),
            None => None,
        }
    } else if spec_match_at(s, p, "#value:"@) {
        match spec_string_field(s, p, "#value:"@) {
            Some((t, p2)) => Some((SpecFieldComponent::Value(t), p2)),
            None => None,
        }
    } else if spec_match_at(s, p, "#inline:"@) {
        spec_inline_field(s, p)
    } else {
        None
    }
}

/// A boolean-valued inline leaf field: its tag, a boolean literal, and the
/// mandatory trailing comma.
pub open spec fn spec_inline_field(s: Seq<char>, pos: int) -> Option<(SpecFieldComponent, int)> {
    if spec_match_at(s, pos, "#inline:"@) {
        match crate::parsers::boolean::spec_parse_bool(s, pos + 8) {
            Some((b, p1)) => if p1 < s.len() && s[p1] == ',' {
                Some((SpecFieldComponent::Inline(b), p1 + 1))
            } else {
                None
            },
            None => None,
        }
    } else {
        None
    }
}

/// A parsed field component advances the position.
pub proof fn lemma_field_component_advances(s: Seq<char>, pos: int)
    requires
        0 <= pos <= s.len(),
    ensures
        spec_parse_field_component(s, pos) matches Some((c, p2)) ==> pos < p2 <= s.len(),
{
    reveal_strlit("#inline:");
    lemma_skip_ws_bounds(s, pos);
    let p = spec_skip_ws(s, pos);
    lemma_string_field_advances(s, p, "#name:"@);
    lemma_string_field_advances(s, p, "#value:"@);
    if spec_match_at(s, p, "#inline:"@) {
        crate::parsers::boolean::lemma_parse_bool_advances(s, p + 8);
    }
}

/// Parse a string field for an embed field.
pub fn parse_field_string_field(input: &[char], pos: usize, tag: &str) -> (r: Result<
    (String, usize),
    ParseError,
>)
    requires
        pos <= input@.len(),
    ensures
        r matches Ok((t, p2)) ==> spec_string_field(input@, pos as int, tag@) == Some(
            (t@, p2 as int),
        ) && pos < p2 <= input@.len(),
        r is Err ==> spec_string_field(input@, pos as int, tag@) is None,
{
    parse_string_field(input, pos, tag)
}

/// Parse an embed field's name.
pub fn parse_embed_field_name(input: &[char], pos: usize) -> (r: Result<
    (EmbedFieldComponent, usize),
    ParseError,
>)
    requires
        pos <= input@.len(),
    ensures
        r matches Ok((c, p2)) ==> (spec_string_field(input@, pos as int, "#name:"@) matches Some(
            (t, pp),
        ) && pp == p2 as int && c@ == SpecFieldComponent::Name(t) && pos < p2 <= input@.len()),
        r is Err ==> spec_string_field(input@, pos as int, "#name:"@) is None,
{
    match parse_field_string_field(input, pos, "#name:") {
        Ok((t, p2)) => Ok((EmbedFieldComponent::Name(t), p2)),
        Err(e) => Err(e),
    }
}

/// Parse an embed field's value.
pub fn parse_embed_field_value(input: &[char], pos: usize) -> (r: Result<
    (EmbedFieldComponent, usize),
    ParseError,
>)
    requires
        pos <= input@.len(),
    ensures
        r matches Ok((c, p2)) ==> (spec_string_field(input@, pos as int, "#value:"@) matches Some(
            (t, pp),
        ) && pp == p2 as int && c@ == SpecFieldComponent::Value(t) && pos < p2 <= input@.len()),
        r is Err ==> spec_string_field(input@, pos as int, "#value:"@) is None,
{
    match parse_field_string_field(input, pos, "#value:") {
        Ok((t, p2)) => Ok((EmbedFieldComponent::Value(t), p2)),
        Err(e) => Err(e),
    }
}

/// Parse an embed field's inline setting.
pub fn parse_embed_field_inline(input: &[char], pos: usize) -> (r: Result<
    (EmbedFieldComponent, usize),
    ParseError,
>)
    requires
        pos <= input@.len(),
    ensures
        r matches Ok((c, p2)) ==> spec_inline_field(input@, pos as int) == Some((c@, p2 as int))
            && pos < p2 <= input@.len(),
        r is Err ==> spec_inline_field(input@, pos as int) is None,
{
    proof {
        reveal_strlit("#inline:");
    }
    let n = input.len();
    if !match_at(input, pos, "#inline:") {
        return Err(ParseError { pos, expected: "inline field" });
    }
    proof {
        crate::parsers::boolean::lemma_parse_bool_advances(input@, pos + 8 as int);
    }
    let (b, p1) = match crate::parsers::boolean::parse_bool(input, pos + 8) {
        Ok(r) => r,
        Err(e) => {
            return Err(e);
        },
    };
    if p1 < n && input[p1] == ',' {
        Ok((EmbedFieldComponent::Inline(b), p1 + 1))
    } else {
        Err(ParseError { pos: p1, expected: "comma" })
    }
}

/// Parse one embed field component.
pub fn parse_embed_field_component(input: &[char], pos: usize) -> (r: Result<
    (EmbedFieldComponent, usize),
    ParseError,
>)
    requires
        pos <= input@.len(),
    ensures
        r matches Ok((c, p2)) ==> spec_parse_field_component(input@, pos as int) == Some(
            (c@, p2 as int),
        ) && pos < p2 <= input@.len(),
        r is Err ==> spec_parse_field_component(input@, pos as int) is None,
{
    proof {
        lemma_field_component_advances(input@, pos as int);
    }
    let p = skip_ws(input, pos);
    if match_at(input, p, "#name:") {
        match parse_embed_field_name(input, p) {
            Ok(r) => Ok(r),
            Err(e) => Err(e),
        }
    } else if match_at(input, p, "#value:") {
        match parse_embed_field_value(input, p) {
            Ok(r) => Ok(r),
            Err(e) => Err(e),
        }
    } else if match_at(input, p, "#inline:") {
        match parse_embed_field_inline(input, p) {
            Ok(r) => Ok(r),
            Err(e) => Err(e),
        }
    } else {
        Err(ParseError { pos: p, expected: "field component" })
    }
}

/// The components of one field block from `pos` on, up to the closing brace.
pub open spec fn spec_field_components(
    s: Seq<char>,
    pos: int,
    acc: Seq<SpecFieldComponent>,
) -> Option<(Seq<SpecFieldComponent>, int)>
    decreases s.len() - pos,
{
    if pos < 0 || pos > s.len() {
        None
    } else {
        let p = spec_skip_ws(s, pos);
        if p < s.len() && s[p] == '}' {
            Some((acc, p + 1))
        } else {
            match spec_parse_field_component(s, pos) {
                None => None,
                Some((c, p2)) => if p2 <= pos || p2 > s.len() {
                    None
                } else {
                    spec_field_components(s, p2, acc.push(c))
                },
            }
        }
    }
}

/// Parsed field components end within the input, after where they began.
pub proof fn lemma_field_components_bounds(s: Seq<char>, pos: int, acc: Seq<SpecFieldComponent>)
    ensures
        spec_field_components(s, pos, acc) matches Some((cs, p2)) ==> pos < p2 <= s.len(),
    decreases s.len() - pos,
{
    if 0 <= pos <= s.len() {
        lemma_skip_ws_bounds(s, pos);
        let p = spec_skip_ws(s, pos);
        if !(p < s.len() && s[p] == '}') {
            match spec_parse_field_component(s, pos) {
                None => {},
                Some((c, p2)) => {
                    if pos < p2 <= s.len() {
                        lemma_field_components_bounds(s, p2, acc.push(c));
                    }
                },
            }
        }
    }
}

/// One field block: the opening `#field {`, components, a closing brace,
/// and trailing whitespace.
pub open spec fn spec_parse_field_block(s: Seq<char>, pos: int) -> Option<
    (Seq<SpecFieldComponent>, int),
> {
    let p = spec_skip_ws(s, pos);
    if spec_match_at(s, p, "#field {"@) {
        match spec_field_components(s, p + 8, Seq::empty()) {
            Some((cs, p2)) => Some((cs, spec_skip_ws(s, p2))),
            None => None,
        }
    } else {
        None
    }
}

/// A parsed field block advances the position.
pub proof fn lemma_parse_field_block_advances(s: Seq<char>, pos: int)
    requires
        0 <= pos <= s.len(),
    ensures
        spec_parse_field_block(s, pos) matches Some((cs, p2)) ==> pos < p2 <= s.len(),
{
    reveal_strlit("#field {");
    lemma_skip_ws_bounds(s, pos);
    let p = spec_skip_ws(s, pos);
    if spec_match_at(s, p, "#field {"@) {
        lemma_field_components_bounds(s, p + 8, Seq::empty());
        match spec_field_components(s, p + 8, Seq::empty()) {
            Some((cs, p2)) => {
                lemma_skip_ws_bounds(s, p2);
            },
            None => {},
        }
    }
}

/// Parse one embed field block into a vector of field components.
#[verifier::loop_isolation(false)]
pub fn parse_embed_field(input: &[char], pos: usize) -> (r: Result<
    (Vec<EmbedFieldComponent>, usize),
    ParseError,
>)
    requires
        pos <= input@.len(),
    ensures
        r matches Ok((cs, p2)) ==> spec_parse_field_block(input@, pos as int) == Some(
            (seq_view(cs@), p2 as int),
        ) && pos < p2 <= input@.len(),
        r is Err ==> spec_parse_field_block(input@, pos as int) is None,
{
    proof {
        lemma_parse_field_block_advances(input@, pos as int);
        reveal_strlit("#field {");
    }
    let n = input.len();
    let p = skip_ws(input, pos);
    if !match_at(input, p, "#field {") {
        return Err(ParseError { pos: p, expected: "field block" });
    }
    let mut cs: Vec<EmbedFieldComponent> = Vec::new();
    let mut cur = p + 8;
    proof {
        assert(seq_view(cs@) =~= Seq::<SpecFieldComponent>::empty());
    }
    loop
        invariant
            cur <= input@.len(),
            spec_field_components(input@, cur as int, seq_view(cs@)) == spec_field_components(
                input@,
                p + 8 as int,
                Seq::empty(),
            ),
        decreases input@.len() - cur,
    {
        let q = skip_ws(input, cur);
        if q < n && input[q] == '}' {
            let p2 = skip_ws(input, q + 1);
            return Ok((cs, p2));
        }
        proof {
            lemma_field_component_advances(input@, cur as int);
        }
        let (c, p2) = match parse_embed_field_component(input, cur) {
            Ok(r) => r,
            Err(e) => {
                return Err(e);
            },
        };
        let ghost cs_pre = seq_view(cs@);
        let ghost cv = c@;
        cs.push(c);
        proof {
            assert(seq_view(cs@) =~= cs_pre.push(cv));
        }
        cur = p2;
    }
}

/// The field blocks of a fields block from `pos` on, up to the closing brace.
pub open spec fn spec_field_lists(
    s: Seq<char>,
    pos: int,
    acc: Seq<Seq<SpecFieldComponent>>,
) -> Option<(Seq<Seq<SpecFieldComponent>>, int)>
    decreases s.len() - pos,
{
    if pos < 0 || pos > s.len() {
        None
    } else {
        let p = spec_skip_ws(s, pos);
        if p < s.len() && s[p] == '}' {
            Some((acc, p + 1))
        } else {
            match spec_parse_field_block(s, pos) {
                None => None,
                Some((cs, p2)) => if p2 <= pos || p2 > s.len() {
                    None
                } else {
                    spec_field_lists(s, p2, acc.push(cs))
                },
            }
        }
    }
}

/// Parsed field lists end within the input, after where they began.
pub proof fn lemma_field_lists_bounds(s: Seq<char>, pos: int, acc: Seq<Seq<SpecFieldComponent>>)
    ensures
        spec_field_lists(s, pos, acc) matches Some((cs, p2)) ==> pos < p2 <= s.len(),
    decreases s.len() - pos,
{
    if 0 <= pos <= s.len() {
        lemma_skip_ws_bounds(s, pos);
        let p = spec_skip_ws(s, pos);
        if !(p < s.len() && s[p] == '}') {
            match spec_parse_field_block(s, pos) {
                None => {},
                Some((cs, p2)) => {
                    if pos < p2 <= s.len() {
                        lemma_field_lists_bounds(s, p2, acc.push(cs));
                    }
                },
            }
        }
    }
}

/// A fields block: the opening `#fields {`, field blocks, a closing brace,
/// and trailing whitespace.
pub open spec fn spec_parse_fields_raw(s: Seq<char>, pos: int) -> Option<
    (Seq<Seq<SpecFieldComponent>>, int),
> {
    let p = spec_skip_ws(s, pos);
    if spec_match_at(s, p, "#fields {"@) {
        match spec_field_lists(s, p + 9, Seq::empty()) {
            Some((cs, p2)) => Some((cs, spec_skip_ws(s, p2))),
            None => None,
        }
    } else {
        None
    }
}

/// A parsed fields block advances the position.
pub proof fn lemma_parse_fields_raw_advances(s: Seq<char>, pos: int)
    requires
        0 <= pos <= s.len(),
    ensures
        spec_parse_fields_raw(s, pos) matches Some((cs, p2)) ==> pos < p2 <= s.len(),
{
    reveal_strlit("#fields {");
    lemma_skip_ws_bounds(s, pos);
    let p = spec_skip_ws(s, pos);
    if spec_match_at(s, p, "#fields {"@) {
        lemma_field_lists_bounds(s, p + 9, Seq::empty());
        match spec_field_lists(s, p + 9, Seq::empty()) {
            Some((cs, p2)) => {
                lemma_skip_ws_bounds(s, p2);
            },
            None => {},
        }
    }
}

/// Parse an embed's fields block into a vector of vectors of field
/// components.
#[verifier::loop_isolation(false)]
pub fn parse_embed_fields_raw(input: &[char], pos: usize) -> (r: Result<
    (Vec<Vec<EmbedFieldComponent>>, usize),
    ParseError,
>)
    requires
        pos <= input@.len(),
    ensures
        r matches Ok((cs, p2)) ==> spec_parse_fields_raw(input@, pos as int) == Some(
            (crate::enums::field_lists_view(cs@), p2 as int),
        ) && pos < p2 <= input@.len(),
        r is Err ==> spec_parse_fields_raw(input@, pos as int) is None,
{
    proof {
        lemma_parse_fields_raw_advances(input@, pos as int);
        reveal_strlit("#fields {");
    }
    let n = input.len();
    let p = skip_ws(input, pos);
    if !match_at(input, p, "#fields {") {
        return Err(ParseError { pos: p, expected: "fields block" });
    }
    let mut cs: Vec<Vec<EmbedFieldComponent>> = Vec::new();
    let mut cur = p + 9;
    proof {
        assert(crate::enums::field_lists_view(cs@) =~= Seq::<Seq<SpecFieldComponent>>::empty());
    }
    loop
        invariant
            cur <= input@.len(),
            spec_field_lists(input@, cur as int, crate::enums::field_lists_view(cs@))
                == spec_field_lists(input@, p + 9 as int, Seq::empty()),
        decreases input@.len() - cur,
    {
        let q = skip_ws(input, cur);
        if q < n && input[q] == '}' {
            let p2 = skip_ws(input, q + 1);
            return Ok((cs, p2));
        }
        proof {
            lemma_parse_field_block_advances(input@, cur as int);
        }
        let (c, p2) = match parse_embed_field(input, cur) {
            Ok(r) => r,
            Err(e) => {
                return Err(e);
            },
        };
        let ghost cs_pre = crate::enums::field_lists_view(cs@);
        let ghost cv = seq_view(c@);
        cs.push(c);
        proof {
            assert(crate::enums::field_lists_view(cs@) =~= cs_pre.push(cv));
        }
        cur = p2;
    }
}

/// An integer-valued timestamp leaf field: its tag, a 64-bit decimal
/// integer, and the mandatory trailing comma.
pub open spec fn spec_timestamp_field(s: Seq<char>, pos: int) -> Option<(SpecComponent, int)> {
    if spec_match_at(s, pos, "#timestamp:"@) {
        match spec_parse_dec(s, pos + 11, i64::MAX as int) {
            Some((v, p1)) => if p1 < s.len() && s[p1] == ',' {
                Some((SpecComponent::Timestamp(v), p1 + 1))
            } else {
                None
            },
            None => None,
        }
    } else {
        None
    }
}

/// A parsed timestamp field advances the position.
pub proof fn lemma_timestamp_field_advances(s: Seq<char>, pos: int)
    requires
        0 <= pos <= s.len(),
    ensures
        spec_timestamp_field(s, pos) matches Some((c, p2)) ==> pos < p2 <= s.len(),
{
    reveal_strlit("#timestamp:");
    if spec_match_at(s, pos, "#timestamp:"@) {
        lemma_parse_dec_advances(s, pos + 11, i64::MAX as int);
    }
}

/// Parse an embed timestamp field.
pub fn parse_embed_timestamp(input: &[char], pos: usize) -> (r: Result<
    (EmbedComponent, usize),
    ParseError,
>)
    requires
        pos <= input@.len(),
    ensures
        r matches Ok((c, p2)) ==> spec_timestamp_field(input@, pos as int) == Some(
            (c@, p2 as int),
        ) && pos < p2 <= input@.len(),
        r is Err ==> spec_timestamp_field(input@, pos as int) is None,
{
    proof {
        lemma_timestamp_field_advances(input@, pos as int);
        reveal_strlit("#timestamp:");
    }
    let n = input.len();
    if !match_at(input, pos, "#timestamp:") {
        return Err(ParseError { pos, expected: "timestamp field" });
    }
    let (v, p1) = match int64(input, pos + 11) {
        Ok(r) => r,
        Err(e) => {
            return Err(e);
        },
    };
    if p1 < n && input[p1] == ',' {
        Ok((EmbedComponent::Timestamp(v), p1 + 1))
    } else {
        Err(ParseError { pos: p1, expected: "comma" })
    }
}

/// A colour leaf field: its tag, a hexadecimal or decimal 32-bit value, and
/// the mandatory trailing comma.
pub open spec fn spec_colour_field(s: Seq<char>, pos: int) -> Option<(SpecComponent, int)> {
    if spec_match_at(s, pos, "#colour:"@) {
        let q = spec_skip_ws(s, pos + 8);
        let value = match spec_parse_hex(s, q) {
            Some((v, p1)) => Some((v, p1)),
            None => spec_parse_dec(s, q, i32::MAX as int),
        };
        match value {
            Some((v, p1)) => {
                let r = spec_skip_ws(s, p1);
                if r < s.len() && s[r] == ',' {
                    Some((SpecComponent::Colour(v), r + 1))
                } else {
                    None
                }
            },
            None => None,
        }
    } else {
        None
    }
}

/// A parsed colour field advances the position.
pub proof fn lemma_colour_field_advances(s: Seq<char>, pos: int)
    requires
        0 <= pos <= s.len(),
    ensures
        spec_colour_field(s, pos) matches Some((c, p2)) ==> pos < p2 <= s.len(),
{
    reveal_strlit("#colour:");
    if spec_match_at(s, pos, "#colour:"@) {
        lemma_skip_ws_bounds(s, pos + 8);
        let q = spec_skip_ws(s, pos + 8);
        lemma_parse_hex_advances(s, q);
        lemma_parse_dec_advances(s, q, i32::MAX as int);
        let value = match spec_parse_hex(s, q) {
            Some((v, p1)) => Some((v, p1)),
            None => spec_parse_dec(s, q, i32::MAX as int),
        };
        match value {
            Some((v, p1)) => {
                lemma_skip_ws_bounds(s, p1);
            },
            None => {},
        }
    }
}

/// Parse an embed colour field, accepting hexadecimal or decimal form.
pub fn parse_embed_colour(input: &[char], pos: usize) -> (r: Result<
    (EmbedComponent, usize),
    ParseError,
>)
    requires
        pos <= input@.len(),
    ensures
        r matches Ok((c, p2)) ==> spec_colour_field(input@, pos as int) == Some((c@, p2 as int))
            && pos < p2 <= input@.len(),
        r is Err ==> spec_colour_field(input@, pos as int) is None,
{
    proof {
        lemma_colour_field_advances(input@, pos as int);
        reveal_strlit("#colour:");
    }
    let n = input.len();
    if !match_at(input, pos, "#colour:") {
        return Err(ParseError { pos, expected: "colour field" });
    }
    let q = skip_ws(input, pos + 8);
    let (v, p1) = match hexadecimal(input, q) {
        Ok(r) => r,
        Err(_) => match int32(input, q) {
            Ok(r) => r,
            Err(e) => {
                return Err(e);
            },
        },
    };
    let r2 = skip_ws(input, p1);
    if r2 < n && input[r2] == ',' {
        Ok((EmbedComponent::Colour(v), r2 + 1))
    } else {
        Err(ParseError { pos: r2, expected: "comma" })
    }
}

/// Parse an embed title field.
pub fn parse_embed_title(input: &[char], pos: usize) -> (r: Result<
    (EmbedComponent, usize),
    ParseError,
>)
    requires
        pos <= input@.len(),
    ensures
        r matches Ok((c, p2)) ==> (spec_string_field(input@, pos as int, "#title:"@) matches Some(
            (t, pp),
        ) && pp == p2 as int && c@ == SpecComponent::Title(t) && pos < p2 <= input@.len()),
        r is Err ==> spec_string_field(input@, pos as int, "#title:"@) is None,
{
    match parse_string_field(input, pos, "#title:") {
        Ok((t, p2)) => Ok((EmbedComponent::Title(t), p2)),
        Err(e) => Err(e),
    }
}

/// Parse an embed description field.
pub fn parse_embed_description(input: &[char], pos: usize) -> (r: Result<
    (EmbedComponent, usize),
    ParseError,
>)
    requires
        pos <= input@.len(),
    ensures
        r matches Ok((c, p2)) ==> (spec_string_field(input@, pos as int, "#description:"@)
            matches Some((t, pp)) && pp == p2 as int && c@ == SpecComponent::Description(t) && pos
            < p2 <= input@.len()),
        r is Err ==> spec_string_field(input@, pos as int, "#description:"@) is None,
{
    match parse_string_field(input, pos, "#description:") {
        Ok((t, p2)) => Ok((EmbedComponent::Description(t), p2)),
        Err(e) => Err(e),
    }
}

/// Parse an embed image field.
pub fn parse_embed_image(input: &[char], pos: usize) -> (r: Result<
    (EmbedComponent, usize),
    ParseError,
>)
    requires
        pos <= input@.len(),
    ensures
        r matches Ok((c, p2)) ==> (spec_string_field(input@, pos as int, "#image:"@) matches Some(
            (t, pp),
        ) && pp == p2 as int && c@ == SpecComponent::Image(t) && pos < p2 <= input@.len()),
        r is Err ==> spec_string_field(input@, pos as int, "#image:"@) is None,
{
    match parse_string_field(input, pos, "#image:") {
        Ok((t, p2)) => Ok((EmbedComponent::Image(t), p2)),
        Err(e) => Err(e),
    }
}

/// Parse an embed thumbnail field.
pub fn parse_embed_thumbnail(input: &[char], pos: usize) -> (r: Result<
    (EmbedComponent, usize),
    ParseError,
>)
    requires
        pos <= input@.len(),
    ensures
        r matches Ok((c, p2)) ==> (spec_string_field(input@, pos as int, "#thumbnail:"@)
            matches Some((t, pp)) && pp == p2 as int && c@ == SpecComponent::Thumbnail(t) && pos
            < p2 <= input@.len()),
        r is Err ==> spec_string_field(input@, pos as int, "#thumbnail:"@) is None,
{
    match parse_string_field(input, pos, "#thumbnail:") {
        Ok((t, p2)) => Ok((EmbedComponent::Thumbnail(t), p2)),
        Err(e) => Err(e),
    }
}

/// Parse an embed url field.
pub fn parse_embed_url(input: &[char], pos: usize) -> (r: Result<
    (EmbedComponent, usize),
    ParseError,
>)
    requires
        pos <= input@.len(),
    ensures
        r matches Ok((c, p2)) ==> (spec_string_field(input@, pos as int, "#url:"@) matches Some(
            (t, pp),
        ) && pp == p2 as int && c@ == SpecComponent::Url(t) && pos < p2 <= input@.len()),
        r is Err ==> spec_string_field(input@, pos as int, "#url:"@) is None,
{
    match parse_string_field(input, pos, "#url:") {
        Ok((t, p2)) => Ok((EmbedComponent::Url(t), p2)),
        Err(e) => Err(e),
    }
}

/// Parse an embed author block into an embed component.
pub fn parse_embed_author(input: &[char], pos: usize) -> (r: Result<
    (EmbedComponent, usize),
    ParseError,
>)
    requires
        pos <= input@.len(),
    ensures
        r matches Ok((c, p2)) ==> (spec_parse_author_raw(input@, pos as int) matches Some(
            (cs, pp),
        ) && pp == p2 as int && c@ == SpecComponent::Author(cs) && pos < p2 <= input@.len()),
        r is Err ==> spec_parse_author_raw(input@, pos as int) is None,
{
    match parse_embed_author_raw(input, pos) {
        Ok((cs, p2)) => Ok((EmbedComponent::Author(cs), p2)),
        Err(e) => Err(e),
    }
}

/// Parse an embed footer block into an embed component.
pub fn parse_embed_footer(input: &[char], pos: usize) -> (r: Result<
    (EmbedComponent, usize),
    ParseError,
>)
    requires
        pos <= input@.len(),
    ensures
        r matches Ok((c, p2)) ==> (spec_parse_footer_raw(input@, pos as int) matches Some(
            (cs, pp),
        ) && pp == p2 as int && c@ == SpecComponent::Footer(cs) && pos < p2 <= input@.len()),
        r is Err ==> spec_parse_footer_raw(input@, pos as int) is None,
{
    match parse_embed_footer_raw(input, pos) {
        Ok((cs, p2)) => Ok((EmbedComponent::Footer(cs), p2)),
        Err(e) => Err(e),
    }
}

/// Parse an embed fields block into an embed component.
pub fn parse_embed_fields(input: &[char], pos: usize) -> (r: Result<
    (EmbedComponent, usize),
    ParseError,
>)
    requires
        pos <= input@.len(),
    ensures
        r matches Ok((c, p2)) ==> (spec_parse_fields_raw(input@, pos as int) matches Some(
            (cs, pp),
        ) && pp == p2 as int && c@ == SpecComponent::Fields(cs) && pos < p2 <= input@.len()),
        r is Err ==> spec_parse_fields_raw(input@, pos as int) is None,
{
    match parse_embed_fields_raw(input, pos) {
        Ok((cs, p2)) => Ok((EmbedComponent::Fields(cs), p2)),
        Err(e) => Err(e),
    }
}

/// An embed component: one of the leaf fields or nested blocks, tried by
/// its tag.
pub open spec fn spec_parse_embed_component(s: Seq<char>, pos: int) -> Option<
    (SpecComponent, int),
> {
    let p = spec_skip_ws(s, pos);
    if spec_match_at(s, p, "#title:"@) {
        match spec_string_field(s, p, "#title:"@) {
            Some((t, p2)) => Some((SpecComponent::Title(t), p2)),
            None => None,
        }
    } else if spec_match_at(s, p, "#description:"@) {
        match spec_string_field(s, p, "#description:"@) {
            Some((t, p2)) => Some((SpecComponent::Description(t), p2)),
            None => None,
        }
    } else if spec_match_at(s, p, "#colour:"@) {
        spec_colour_field(s, p)
    } else if spec_match_at(s, p, "#image:"@) {
        match spec_string_field(s, p, "#image:"@) {
            Some((t, p2)) => Some((SpecComponent::Image(t), p2)),
            None => None,
        }
    } else if spec_match_at(s, p, "#thumbnail:"@) {
        match spec_string_field(s, p, "#thumbnail:"@) {
            Some((t, p2)) => Some((SpecComponent::Thumbnail(t), p2)),
            None => None,
        }
    } else if spec_match_at(s, p, "#url:"@) {
        match spec_string_field(s, p, "#url:"@) {
            Some((t, p2)) => Some((SpecComponent::Url(t), p2)),
            None => None,
        }
    } else if spec_match_at(s, p, "#author {"@) {
        match spec_parse_author_raw(s, p) {
            Some((cs, p2)) => Some((SpecComponent::Author(cs), p2)),
            None => None,
        }
    } else if spec_match_at(s, p, "#footer {"@) {
        match spec_parse_footer_raw(s, p) {
            Some((cs, p2)) => Some((SpecComponent::Footer(cs), p2)),
            None => None,
        }
    } else if spec_match_at(s, p, "#timestamp:"@) {
        spec_timestamp_field(s, p)
    } else if spec_match_at(s, p, "#fields {"@) {
        match spec_parse_fields_raw(s, p) {
            Some((cs, p2)) => Some((SpecComponent::Fields(cs), p2)),
            None => None,
        }
    } else {
        None
    }
}

/// A parsed embed component advances the position.
pub proof fn lemma_embed_component_advances(s: Seq<char>, pos: int)
    requires
        0 <= pos <= s.len(),
    ensures
        spec_parse_embed_component(s, pos) matches Some((c, p2)) ==> pos < p2 <= s.len(),
{
    lemma_skip_ws_bounds(s, pos);
    let p = spec_skip_ws(s, pos);
    lemma_string_field_advances(s, p, "#title:"@);
    lemma_string_field_advances(s, p, "#description:"@);
    lemma_colour_field_advances(s, p);
    lemma_string_field_advances(s, p, "#image:"@);
    lemma_string_field_advances(s, p, "#thumbnail:"@);
    lemma_string_field_advances(s, p, "#url:"@);
    lemma_parse_author_raw_advances(s, p);
    lemma_parse_footer_raw_advances(s, p);
    lemma_timestamp_field_advances(s, p);
    lemma_parse_fields_raw_advances(s, p);
}

/// Parse one embed component.
pub fn parse_embed_component(input: &[char], pos: usize) -> (r: Result<
    (EmbedComponent, usize),
    ParseError,
>)
    requires
        pos <= input@.len(),
    ensures
        r matches Ok((c, p2)) ==> spec_parse_embed_component(input@, pos as int) == Some(
            (c@, p2 as int),
        ) && pos < p2 <= input@.len(),
        r is Err ==> spec_parse_embed_component(input@, pos as int) is None,
{
    proof {
        lemma_embed_component_advances(input@, pos as int);
    }
    let p = skip_ws(input, pos);
    if match_at(input, p, "#title:") {
        match parse_embed_title(input, p) {
            Ok(r) => Ok(r),
            Err(e) => Err(e),
        }
    } else if match_at(input, p, "#description:") {
        match parse_embed_description(input, p) {
            Ok(r) => Ok(r),
            Err(e) => Err(e),
        }
    } else if match_at(input, p, "#colour:") {
        match parse_embed_colour(input, p) {
            Ok(r) => Ok(r),
            Err(e) => Err(e),
        }
    } else if match_at(input, p, "#image:") {
        match parse_embed_image(input, p) {
            Ok(r) => Ok(r),
            Err(e) => Err(e),
        }
    } else if match_at(input, p, "#thumbnail:") {
        match parse_embed_thumbnail(input, p) {
            Ok(r) => Ok(r),
            Err(e) => Err(e),
        }
    } else if match_at(input, p, "#url:") {
        match parse_embed_url(input, p) {
            Ok(r) => Ok(r),
            Err(e) => Err(e),
        }
    } else if match_at(input, p, "#author {") {
        match parse_embed_author(input, p) {
            Ok(r) => Ok(r),
            Err(e) => Err(e),
        }
    } else if match_at(input, p, "#footer {") {
        match parse_embed_footer(input, p) {
            Ok(r) => Ok(r),
            Err(e) => Err(e),
        }
    } else if match_at(input, p, "#timestamp:") {
        match parse_embed_timestamp(input, p) {
            Ok(r) => Ok(r),
            Err(e) => Err(e),
        }
    } else if match_at(input, p, "#fields {") {
        match parse_embed_fields(input, p) {
            Ok(r) => Ok(r),
            Err(e) => Err(e),
        }
    } else {
        Err(ParseError { pos: p, expected: "embed component" })
    }
}

/// The components of an embed block from `pos` on, up to the closing brace.
pub open spec fn spec_embed_components(s: Seq<char>, pos: int, acc: Seq<SpecComponent>) -> Option<
    (Seq<SpecComponent>, int),
>
    decreases s.len() - pos,
{
    if pos < 0 || pos > s.len() {
        None
    } else {
        let p = spec_skip_ws(s, pos);
        if p < s.len() && s[p] == '}' {
            Some((acc, p + 1))
        } else {
            match spec_parse_embed_component(s, pos) {
                None => None,
                Some((c, p2)) => if p2 <= pos || p2 > s.len() {
                    None
                } else {
                    spec_embed_components(s, p2, acc.push(c))
                },
            }
        }
    }
}

/// Parsed embed components end within the input, after where they began.
pub proof fn lemma_embed_components_bounds(s: Seq<char>, pos: int, acc: Seq<SpecComponent>)
    ensures
        spec_embed_components(s, pos, acc) matches Some((cs, p2)) ==> pos < p2 <= s.len(),
    decreases s.len() - pos,
{
    if 0 <= pos <= s.len() {
        lemma_skip_ws_bounds(s, pos);
        let p = spec_skip_ws(s, pos);
        if !(p < s.len() && s[p] == '}') {
            match spec_parse_embed_component(s, pos) {
                None => {},
                Some((c, p2)) => {
                    if pos < p2 <= s.len() {
                        lemma_embed_components_bounds(s, p2, acc.push(c));
                    }
                },
            }
        }
    }
}

/// An embed block: surrounding whitespace, the opening `#embed {`,
/// components, and the closing brace.
pub open spec fn spec_parse_embed_raw(s: Seq<char>, pos: int) -> Option<(Seq<SpecComponent>, int)> {
    let p = spec_skip_ws(s, pos);
    if spec_match_at(s, p, "#embed {"@) {
        match spec_embed_components(s, p + 8, Seq::empty()) {
            Some((cs, p2)) => Some((cs, spec_skip_ws(s, p2))),
            None => None,
        }
    } else {
        None
    }
}

/// A parsed embed block advances the position.
pub proof fn lemma_parse_embed_raw_advances(s: Seq<char>, pos: int)
    requires
        0 <= pos <= s.len(),
    ensures
        spec_parse_embed_raw(s, pos) matches Some((cs, p2)) ==> pos < p2 <= s.len(),
{
    reveal_strlit("#embed {");
    lemma_skip_ws_bounds(s, pos);
    let p = spec_skip_ws(s, pos);
    if spec_match_at(s, p, "#embed {"@) {
        lemma_embed_components_bounds(s, p + 8, Seq::empty());
        match spec_embed_components(s, p + 8, Seq::empty()) {
            Some((cs, p2)) => {
                lemma_skip_ws_bounds(s, p2);
            },
            None => {},
        }
    }
}

/// Parse an embed block into a vector of embed components.
#[verifier::loop_isolation(false)]
pub fn parse_embed_raw(input: &[char], pos: usize) -> (r: Result<
    (Vec<EmbedComponent>, usize),
    ParseError,
>)
    requires
        pos <= input@.len(),
    ensures
        r matches Ok((cs, p2)) ==> spec_parse_embed_raw(input@, pos as int) == Some(
            (seq_view(cs@), p2 as int),
        ) && pos < p2 <= input@.len(),
        r is Err ==> spec_parse_embed_raw(input@, pos as int) is None,
{
    proof {
        lemma_parse_embed_raw_advances(input@, pos as int);
        reveal_strlit("#embed {");
    }
    let n = input.len();
    let p = skip_ws(input, pos);
    if !match_at(input, p, "#embed {") {
        return Err(ParseError { pos: p, expected: "embed block" });
    }
    let mut cs: Vec<EmbedComponent> = Vec::new();
    let mut cur = p + 8;
    proof {
        assert(seq_view(cs@) =~= Seq::<SpecComponent>::empty());
    }
    loop
        invariant
            cur <= input@.len(),
            spec_embed_components(input@, cur as int, seq_view(cs@)) == spec_embed_components(
                input@,
                p + 8 as int,
                Seq::empty(),
            ),
        decreases input@.len() - cur,
    {
        let q = skip_ws(input, cur);
        if q < n && input[q] == '}' {
            let p2 = skip_ws(input, q + 1);
            return Ok((cs, p2));
        }
        proof {
            lemma_embed_component_advances(input@, cur as int);
        }
        let (c, p2) = match parse_embed_component(input, cur) {
            Ok(r) => r,
            Err(e) => {
                return Err(e);
            },
        };
        let ghost cs_pre = seq_view(cs@);
        let ghost cv = c@;
        cs.push(c);
        proof {
            assert(seq_view(cs@) =~= cs_pre.push(cv));
        }
        cur = p2;
    }
}

/// Parse an embed block into an embed expression.
pub fn parse_embed(input: &[char], pos: usize) -> (r: Result<(Expr, usize), ParseError>)
    requires
        pos <= input@.len(),
    ensures
        r matches Ok((e, p2)) ==> (spec_parse_embed_raw(input@, pos as int) matches Some((cs, pp))
            && pp == p2 as int && e@ == SpecExpr::Embed(cs) && pos < p2 <= input@.len()),
        r is Err ==> spec_parse_embed_raw(input@, pos as int) is None,
{
    match parse_embed_raw(input, pos) {
        Ok((cs, p2)) => Ok((Expr::Embed(cs), p2)),
        Err(e) => Err(e),
    }
}

} // verus!
