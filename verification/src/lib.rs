pub mod enums;
pub mod builders;
pub mod errors;
pub mod helpers;
pub mod parsers;
pub mod render;
pub mod runners;
pub mod structs;

pub use enums::{
    EmbedAuthorComponent, EmbedComponent, EmbedFieldComponent, EmbedFooterComponent, Expr, MathExpr,
};
pub use structs::{StoredEmbed, StoredEmbedAuthor, StoredEmbedField, StoredEmbedFooter};

use vstd::prelude::*;
use vstd::string::StringExecFns;
use crate::enums::{seq_view, SpecExpr};
use crate::errors::{BuildError, ParseError, SpecBuildError};
use crate::parsers::embed::spec_parse_embed_raw;
use crate::parsers::math::spec_parse_math;
use crate::parsers::primitives::{
    lemma_skip_ws_bounds, match_at, skip_ws, spec_match_at, spec_skip_ws,
};
use crate::parsers::random::spec_parse_random;
use crate::parsers::text::spec_parse_text;
use crate::runners::{spec_eval, spec_render_rational};
use crate::structs::SpecEmbed;

verus! {

/// The output of one compilation run: the assembled text and the built
/// embeds, in order.
#[derive(Debug)]
pub struct VeaScriptOutput {
    /// The content produced by a script.
    pub content: String,
    /// The embeds produced by a script.
    pub embeds: Vec<StoredEmbed>,
}

/// The mathematical model of a script output.
#[verifier::ext_equal]
pub struct SpecOutput {
    pub content: Seq<char>,
    pub embeds: Seq<SpecEmbed>,
}

impl View for VeaScriptOutput {
    type V = SpecOutput;

    open spec fn view(&self) -> SpecOutput {
        SpecOutput {
            content: self.content@,
            embeds: self.embeds@.map_values(|e: StoredEmbed| e@),
        }
    }
}

/// The output with nothing in it.
pub open spec fn spec_empty_output() -> SpecOutput {
    SpecOutput { content: Seq::empty(), embeds: Seq::empty() }
}

impl VeaScriptOutput {
    /// Create a new output struct.
    pub fn new() -> (o: Self)
        ensures
            o@ == spec_empty_output(),
    {
        let o = Self { content: String::new(), embeds: Vec::new() };
        proof {
            assert(o@ =~= spec_empty_output());
        }
        o
    }

    /// Push to the output's content.
    pub fn push_content(&mut self, content: &str)
        ensures
            final(self)@ == (SpecOutput {
                content: old(self)@.content + content@,
                ..old(self)@
            }),
    {
        self.content.append(content);
        proof {
            assert(self@ =~= (SpecOutput { content: old(self)@.content + content@, ..old(self)@ }));
        }
    }

    /// Add an embed to the output.
    pub fn push_embed(&mut self, embed: StoredEmbed)
        ensures
            final(self)@ == (SpecOutput {
                embeds: old(self)@.embeds.push(embed@),
                ..old(self)@
            }),
    {
        let ghost em = embed@;
        self.embeds.push(embed);
        proof {
            assert(self@ =~= (SpecOutput { embeds: old(self)@.embeds.push(em), ..old(self)@ }));
        }
    }
}

/// A math block: surrounding whitespace, the opening `#math {`, an
/// arithmetic expression, and the closing brace.
pub open spec fn spec_parse_math_block(s: Seq<char>, pos: int) -> Option<(SpecExpr, int)> {
    let p = spec_skip_ws(s, pos);
    if spec_match_at(s, p, "#math {"@) {
        match spec_parse_math(s, p + 7) {
            Some((m, p2)) => if 0 <= p2 < s.len() && s[p2] == '}' {
                Some((SpecExpr::Math(m), spec_skip_ws(s, p2 + 1)))
            } else {
                None
            },
            None => None,
        }
    } else {
        None
    }
}

/// One top-level expression: a random block, a math block, a text block or
/// an embed block, whichever tag stands at the next non-whitespace position.
pub open spec fn spec_parse_expr(s: Seq<char>, pos: int) -> Option<(SpecExpr, int)> {
    match spec_parse_random(s, pos) {
        Some((items, p2)) => Some((SpecExpr::Random(items), p2)),
        None => match spec_parse_math_block(s, pos) {
            Some(r) => Some(r),
            None => match spec_parse_text(s, pos) {
                Some((t, p2)) => Some((SpecExpr::Text(t), p2)),
                None => match spec_parse_embed_raw(s, pos) {
                    Some((cs, p2)) => Some((SpecExpr::Embed(cs), p2)),
                    None => None,
                },
            },
        },
    }
}

/// A parsed math block advances the position and stays within the input.
pub proof fn lemma_parse_math_block_advances(s: Seq<char>, pos: int)
    requires
        0 <= pos <= s.len(),
    ensures
        spec_parse_math_block(s, pos) matches Some((e, p2)) ==> pos < p2 <= s.len(),
{
    reveal_strlit("#math {");
    lemma_skip_ws_bounds(s, pos);
    let p = spec_skip_ws(s, pos);
    if spec_match_at(s, p, "#math {"@) {
        crate::parsers::math::lemma_math_sum_advances(s, p + 7);
        match spec_parse_math(s, p + 7) {
            Some((m, p2)) => {
                if 0 <= p2 < s.len() && s[p2] == '}' {
                    lemma_skip_ws_bounds(s, p2 + 1);
                }
            },
            None => {},
        }
    }
}

/// A parsed expression advances the position and stays within the input.
pub proof fn lemma_parse_expr_advances(s: Seq<char>, pos: int)
    requires
        0 <= pos <= s.len(),
    ensures
        spec_parse_expr(s, pos) matches Some((e, p2)) ==> pos < p2 <= s.len(),
{
    crate::parsers::random::lemma_parse_random_advances(s, pos);
    lemma_parse_math_block_advances(s, pos);
    crate::parsers::text::lemma_parse_text_advances(s, pos);
    crate::parsers::embed::lemma_parse_embed_raw_advances(s, pos);
}

/// The four top-level tags begin with different characters after `#`, so at
/// most one can stand at any one position.
proof fn lemma_expr_tags_disjoint(s: Seq<char>, p: int)
    ensures
        spec_match_at(s, p, "#random {"@) ==> !spec_match_at(s, p, "#math {"@) && !spec_match_at(
            s,
            p,
            "#text {"@,
        ) && !spec_match_at(s, p, "#embed {"@),
        spec_match_at(s, p, "#math {"@) ==> !spec_match_at(s, p, "#text {"@) && !spec_match_at(
            s,
            p,
            "#embed {"@,
        ),
        spec_match_at(s, p, "#text {"@) ==> !spec_match_at(s, p, "#embed {"@),
{
    reveal_strlit("#random {");
    reveal_strlit("#math {");
    reveal_strlit("#text {");
    reveal_strlit("#embed {");
    if spec_match_at(s, p, "#random {"@) {
        assert(s.subrange(p, p + 9)[1] == s[p + 1]);
    }
    if spec_match_at(s, p, "#math {"@) {
        assert(s.subrange(p, p + 7)[1] == s[p + 1]);
    }
    if spec_match_at(s, p, "#text {"@) {
        assert(s.subrange(p, p + 7)[1] == s[p + 1]);
    }
    if spec_match_at(s, p, "#embed {"@) {
        assert(s.subrange(p, p + 8)[1] == s[p + 1]);
    }
}

/// Parse one top-level expression.
fn parse_expr(input: &[char], pos: usize) -> (r: Result<(Expr, usize), ParseError>)
    requires
        pos <= input@.len(),
    ensures
        r matches Ok((e, p2)) ==> spec_parse_expr(input@, pos as int) == Some((e@, p2 as int))
            && pos < p2 <= input@.len(),
        r is Err ==> spec_parse_expr(input@, pos as int) is None,
{
    proof {
        lemma_parse_expr_advances(input@, pos as int);
        reveal_strlit("#math {");
    }
    let n = input.len();
    let p = skip_ws(input, pos);
    proof {
        lemma_expr_tags_disjoint(input@, p as int);
    }
    if match_at(input, p, "#random {") {
        match crate::parsers::random::parse_random(input, pos) {
            Ok(r) => Ok(r),
            Err(e) => Err(e),
        }
    } else if match_at(input, p, "#math {") {
        proof {
            crate::parsers::math::lemma_math_sum_advances(input@, p + 7 as int);
        }
        let (m, p2) = match crate::parsers::math::parse_math(input, p + 7) {
            Ok(r) => r,
            Err(e) => {
                return Err(e);
            },
        };
        if p2 < n && input[p2] == '}' {
            let p3 = skip_ws(input, p2 + 1);
            Ok((Expr::Math(m), p3))
        } else {
            Err(ParseError { pos: p2, expected: "closing brace" })
        }
    } else if match_at(input, p, "#text {") {
        match crate::parsers::text::parse_text(input, pos) {
            Ok((t, p2)) => Ok((Expr::Text(t), p2)),
            Err(e) => Err(e),
        }
    } else if match_at(input, p, "#embed {") {
        match crate::parsers::embed::parse_embed(input, pos) {
            Ok(r) => Ok(r),
            Err(e) => Err(e),
        }
    } else {
        Err(ParseError { pos: p, expected: "expression" })
    }
}

/// The top-level script grammar from `pos` on: expressions repeated until
/// the end of the input.
pub open spec fn spec_parse_script(s: Seq<char>, pos: int, acc: Seq<SpecExpr>) -> Option<
    Seq<SpecExpr>,
>
    decreases s.len() - pos,
{
    if pos < 0 || pos > s.len() {
        None
    } else {
        let p = spec_skip_ws(s, pos);
        if p == s.len() {
            Some(acc)
        } else {
            match spec_parse_expr(s, pos) {
                None => None,
                Some((e, p2)) => if p2 <= pos || p2 > s.len() {
                    None
                } else {
                    spec_parse_script(s, p2, acc.push(e))
                },
            }
        }
    }
}

/// A whole script: top-level expressions repeated to the end of the input.
pub open spec fn spec_parse_veascript(s: Seq<char>) -> Option<Seq<SpecExpr>> {
    spec_parse_script(s, 0, Seq::empty())
}

/// Parse a script into its expression list.
#[verifier::loop_isolation(false)]
pub fn parse_veascript(input: &[char]) -> (r: Result<Vec<Expr>, ParseError>)
    ensures
        r matches Ok(es) ==> spec_parse_veascript(input@) == Some(seq_view(es@)),
        r is Err ==> spec_parse_veascript(input@) is None,
{
    let n = input.len();
    let mut exprs: Vec<Expr> = Vec::new();
    let mut cur: usize = 0;
    proof {
        assert(seq_view(exprs@) =~= Seq::<SpecExpr>::empty());
    }
    loop
        invariant
            cur <= input@.len(),
            spec_parse_script(input@, cur as int, seq_view(exprs@)) == spec_parse_veascript(
                input@,
            ),
        decreases input@.len() - cur,
    {
        let p = skip_ws(input, cur);
        if p == n {
            return Ok(exprs);
        }
        proof {
            lemma_parse_expr_advances(input@, cur as int);
        }
        let (e, p2) = match parse_expr(input, cur) {
            Ok(r) => r,
            Err(err) => {
                return Err(err);
            },
        };
        let ghost pre = seq_view(exprs@);
        let ghost ev = e@;
        exprs.push(e);
        proof {
            assert(seq_view(exprs@) =~= pre.push(ev));
        }
        cur = p2;
    }
}

/// Parsing is a function of the input text alone: parsing the same script
/// twice yields structurally equal expression lists.
pub proof fn lemma_parse_idempotent(
    input: Seq<char>,
    r1: Option<Seq<SpecExpr>>,
    r2: Option<Seq<SpecExpr>>,
)
    requires
        r1 == spec_parse_veascript(input),
        r2 == spec_parse_veascript(input),
    ensures
        r1 == r2,
{
}

/// Relies on `rand::seq::SliceRandom::choose` with `rand::thread_rng`: it
/// returns `Some` of one element of the slice, or `None` exactly when the
/// slice is empty. Which element comes back is left open.
#[verifier::external_body]
fn choose_random(options: &Vec<String>) -> (r: Option<String>)
    ensures
        r is Some <==> options@.len() > 0,
        r matches Some(s) ==> exists|i: int|
            0 <= i < options@.len() && #[trigger] options@[i]@ == s@,
{
    rand::seq::SliceRandom::choose(options.as_slice(), &mut rand::thread_rng()).cloned()
}

/// How one expression list can evaluate to a result, building on an output
/// collected so far: text and math append to the content, a random block
/// appends one of its options (any of them), an embed block appends a built
/// embed, and the first failure is the whole result. An empty random block
/// is a build error.
pub open spec fn script_builds_to(
    es: Seq<SpecExpr>,
    acc: SpecOutput,
    r: Result<SpecOutput, SpecBuildError>,
) -> bool
    decreases es.len(),
{
    if es.len() == 0 {
        r == Ok::<SpecOutput, SpecBuildError>(acc)
    } else {
        let rest = es.drop_first();
        match es.first() {
            SpecExpr::Text(t) => script_builds_to(
                rest,
                SpecOutput { content: acc.content + t, ..acc },
                r,
            ),
            SpecExpr::Math(m) => match spec_eval(m) {
                Err(e) => r == Err::<SpecOutput, SpecBuildError>(e),
                Ok((p, q)) => script_builds_to(
                    rest,
                    SpecOutput { content: acc.content + spec_render_rational(p, q), ..acc },
                    r,
                ),
            },
            SpecExpr::Random(options) => if options.len() == 0 {
                r == Err::<SpecOutput, SpecBuildError>(SpecBuildError::EmptyRandom)
            } else {
                exists|i: int|
                    0 <= i < options.len() && script_builds_to(
                        rest,
                        SpecOutput { content: acc.content + #[trigger] options[i], ..acc },
                        r,
                    )
            },
            SpecExpr::Embed(cs) => match crate::builders::spec_build_embed(cs) {
                Err(e) => r == Err::<SpecOutput, SpecBuildError>(e),
                Ok(em) => script_builds_to(rest, SpecOutput { embeds: acc.embeds.push(em), ..acc },
                    r),
            },
        }
    }
}

/// Build script output from a vector of script expressions: evaluate each
/// expression in order, appending text and embeds, stopping at the first
/// build error.
#[verifier::loop_isolation(false)]
pub fn build_veascript(script: Vec<Expr>) -> (r: Result<VeaScriptOutput, BuildError>)
    ensures
        r matches Ok(o) ==> script_builds_to(seq_view(script@), spec_empty_output(), Ok(o@)),
        r matches Err(e) ==> script_builds_to(seq_view(script@), spec_empty_output(), Err(e@)),
{
    let ghost all = seq_view(script@);
    let mut script = script;
    let mut output = VeaScriptOutput::new();
    while script.len() > 0
        invariant
            forall|r: Result<SpecOutput, SpecBuildError>|
                #[trigger] script_builds_to(seq_view(script@), output@, r) ==> script_builds_to(
                    all,
                    spec_empty_output(),
                    r,
                ),
        decreases script@.len(),
    {
        let ghost pre = script@;
        let ghost out_pre = output@;
        let expression = script.remove(0);
        proof {
            assert(seq_view(pre).first() == expression@);
            assert(seq_view(script@) =~= seq_view(pre).drop_first());
        }
        match expression {
            Expr::Math(expression) => {
                let rat = match crate::runners::eval(&expression) {
                    Ok(rat) => rat,
                    Err(e) => {
                        proof {
                            assert(script_builds_to(seq_view(pre), out_pre, Err(e@)));
                        }
                        return Err(e);
                    },
                };
                let rendered = crate::runners::render_rational(&rat);
                output.push_content(rendered.as_str());
                proof {
                    assert forall|r: Result<SpecOutput, SpecBuildError>|
                        #[trigger] script_builds_to(seq_view(script@), output@, r) implies
                        script_builds_to(seq_view(pre), out_pre, r) by {
                        assert(output@ == (SpecOutput {
                            content: out_pre.content + spec_render_rational(
                                rat.num as int,
                                rat.den as int,
                            ),
                            ..out_pre
                        }));
                    }
                }
            },
            Expr::Random(options) => {
                if options.len() == 0 {
                    proof {
                        assert(script_builds_to(
                            seq_view(pre),
                            out_pre,
                            Err(SpecBuildError::EmptyRandom),
                        ));
                    }
                    return Err(BuildError::EmptyRandom);
                }
                let choice = match choose_random(&options) {
                    Some(s) => s,
                    None => {
                        proof {
                            assert(false);
                        }
                        return Err(BuildError::EmptyRandom);
                    },
                };
                output.push_content(choice.as_str());
                proof {
                    let ghost model = options@.map_values(|s: String| s@);
                    let i = choose|i: int| 0 <= i < options@.len() && options@[i]@ == choice@;
                    assert(model[i] == choice@);
                    assert forall|r: Result<SpecOutput, SpecBuildError>|
                        #[trigger] script_builds_to(seq_view(script@), output@, r) implies
                        script_builds_to(seq_view(pre), out_pre, r) by {
                        assert(output@ == (SpecOutput {
                            content: out_pre.content + model[i],
                            ..out_pre
                        }));
                    }
                }
            },
            Expr::Text(text) => {
                let ghost tv = text@;
                output.push_content(text.as_str());
                proof {
                    assert forall|r: Result<SpecOutput, SpecBuildError>|
                        #[trigger] script_builds_to(seq_view(script@), output@, r) implies
                        script_builds_to(seq_view(pre), out_pre, r) by {
                        assert(output@ == (SpecOutput { content: out_pre.content + tv, ..out_pre }));
                    }
                }
            },
            Expr::Embed(components) => {
                let embed = match crate::builders::build_embed(components) {
                    Ok(em) => em,
                    Err(e) => {
                        proof {
                            assert(script_builds_to(seq_view(pre), out_pre, Err(e@)));
                        }
                        return Err(e);
                    },
                };
                output.push_embed(embed);
                proof {
                    assert forall|r: Result<SpecOutput, SpecBuildError>|
                        #[trigger] script_builds_to(seq_view(script@), output@, r) implies
                        script_builds_to(seq_view(pre), out_pre, r) by {
                        assert(output@ == (SpecOutput {
                            embeds: out_pre.embeds.push(embed@),
                            ..out_pre
                        }));
                    }
                }
            },
        }
    }
    proof {
        assert(script_builds_to(seq_view(script@), output@, Ok(output@)));
    }
    Ok(output)
}

} // verus!
