use vstd::prelude::*;
use vstd::string::StringExecFns;
use crate::helpers::{chars_to_string, push_dec_digits, spec_dec_digits, spec_digit};
use crate::parsers::decimal::{dec_digit_val, is_dec_digit, spec_dec_value};
use crate::parsers::string::{spec_parse_string, spec_string_end};
use crate::parsers::primitives::spec_skip_ws;
use crate::enums::{SpecAuthorComponent, SpecComponent, SpecFieldComponent, SpecFooterComponent};
use crate::errors::SpecBuildError;
use crate::helpers::url_parse_ok;
use crate::structs::{
    spec_total_chars, SpecAuthor, SpecEmbed, SpecField, SpecFooter, StoredEmbed,
};

verus! {

/// The script form of one string-valued leaf field: the tag, the value in
/// quotes, and the mandatory trailing comma.
pub open spec fn spec_render_string_field(tag: Seq<char>, v: Seq<char>) -> Seq<char> {
    tag + " \""@ + v + "\", "@
}

/// The script form of an optional string-valued leaf field: nothing when
/// the field is unset.
pub open spec fn spec_render_opt_str(tag: Seq<char>, o: Option<Seq<char>>) -> Seq<char> {
    match o {
        Some(v) => spec_render_string_field(tag, v),
        None => Seq::empty(),
    }
}

/// The decimal digit string of a number, with negatives written as zero:
/// the script grammar has no sign, and validated embeds hold none.
pub open spec fn spec_nonneg_digits(n: int) -> Seq<char> {
    if n < 0 {
        spec_dec_digits(0)
    } else {
        spec_dec_digits(n)
    }
}

/// The script form of one embed field block.
pub open spec fn spec_render_field(f: SpecField) -> Seq<char> {
    "#field { "@ + spec_render_string_field("#name:"@, f.name) + spec_render_string_field(
        "#value:"@,
        f.value,
    ) + "#inline: "@ + (if f.inline {
        "true"@
    } else {
        "false"@
    }) + ", } "@
}

/// The script form of a list of embed field blocks, in order.
pub open spec fn spec_render_fields(fields: Seq<SpecField>) -> Seq<char>
    decreases fields.len(),
{
    if fields.len() == 0 {
        Seq::empty()
    } else {
        spec_render_fields(fields.drop_last()) + spec_render_field(fields.last())
    }
}

/// The script form of an embed author block.
pub open spec fn spec_render_author(a: SpecAuthor) -> Seq<char> {
    "#author { "@ + spec_render_string_field("#name:"@, a.name) + spec_render_opt_str(
        "#url:"@,
        a.url,
    ) + spec_render_opt_str("#icon_url:"@, a.icon_url) + "} "@
}

/// The script form of an embed footer block.
pub open spec fn spec_render_footer(f: SpecFooter) -> Seq<char> {
    "#footer { "@ + spec_render_string_field("#text:"@, f.text) + spec_render_opt_str(
        "#icon_url:"@,
        f.icon_url,
    ) + "} "@
}

/// The script form of a whole embed: every set field as a leaf or block of
/// the embed grammar. A value holding a quote or backslash cannot be
/// written in the string grammar, so only then does the form not re-parse.
pub open spec fn spec_render_embed(e: SpecEmbed) -> Seq<char> {
    "#embed { "@ + (match e.author {
        Some(a) => spec_render_author(a),
        None => Seq::empty(),
    }) + spec_render_opt_str("#title:"@, e.title) + spec_render_opt_str(
        "#description:"@,
        e.description,
    ) + "#colour: "@ + spec_nonneg_digits(e.colour) + ", "@ + spec_render_opt_str("#url:"@, e.url)
        + "#fields { "@ + spec_render_fields(e.fields) + "} "@ + spec_render_opt_str(
        "#image:"@,
        e.image_url,
    ) + spec_render_opt_str("#thumbnail:"@, e.thumbnail_url) + (match e.footer {
        Some(f) => spec_render_footer(f),
        None => Seq::empty(),
    }) + (match e.timestamp {
        Some(t) => "#timestamp: "@ + spec_nonneg_digits(t) + ", "@,
        None => Seq::empty(),
    }) + "}"@
}

/// Append one string-valued leaf field in script form.
fn append_string_field(out: &mut String, tag: &str, v: &str)
    ensures
        final(out)@ == old(out)@ + spec_render_string_field(tag@, v@),
{
    out.append(tag);
    out.append(" \"");
    out.append(v);
    out.append("\", ");
    proof {
        assert(out@ =~= old(out)@ + spec_render_string_field(tag@, v@));
    }
}

/// Append an optional string-valued leaf field in script form.
fn append_opt_str_field(out: &mut String, tag: &str, o: &Option<String>)
    ensures
        final(out)@ == old(out)@ + spec_render_opt_str(tag@, crate::structs::opt_str_view(*o)),
{
    match o {
        Some(v) => append_string_field(out, tag, v.as_str()),
        None => {
            proof {
                assert(out@ =~= old(out)@ + Seq::<char>::empty());
            }
        },
    }
}

/// Append a number's decimal digits, writing negatives as zero.
fn append_nonneg_digits(out: &mut String, n: i64)
    ensures
        final(out)@ == old(out)@ + spec_nonneg_digits(n as int),
{
    let mut digits: Vec<char> = Vec::new();
    if n < 0 {
        push_dec_digits(0, &mut digits);
    } else {
        push_dec_digits(n as u64, &mut digits);
    }
    let tail = chars_to_string(&digits);
    out.append(tail.as_str());
    proof {
        assert(out@ =~= old(out)@ + spec_nonneg_digits(n as int));
    }
}

/// Serialize a built embed back into script form: the text re-parses to the
/// same embed whenever none of its strings holds a quote or backslash.
#[verifier::loop_isolation(false)]
#[verifier::rlimit(100)]
#[verifier::spinoff_prover]
pub fn embed_to_script(embed: &StoredEmbed) -> (r: String)
    ensures
        r@ == spec_render_embed(embed@),
{
    let mut out = String::new();
    out.append("#embed { ");
    match &embed.author {
        Some(a) => {
            out.append("#author { ");
            append_string_field(&mut out, "#name:", a.name.as_str());
            append_opt_str_field(&mut out, "#url:", &a.url);
            append_opt_str_field(&mut out, "#icon_url:", &a.icon_url);
            out.append("} ");
            proof {
                assert(out@ =~= "#embed { "@ + spec_render_author(embed@.author->Some_0));
            }
        },
        None => {},
    }
    append_opt_str_field(&mut out, "#title:", &embed.title);
    append_opt_str_field(&mut out, "#description:", &embed.description);
    out.append("#colour: ");
    append_nonneg_digits(&mut out, embed.colour as i64);
    out.append(", ");
    append_opt_str_field(&mut out, "#url:", &embed.url);
    out.append("#fields { ");
    let ghost prefix = out@;
    let mut i: usize = 0;
    while i < embed.fields.len()
        invariant
            0 <= i <= embed.fields@.len(),
            embed@.fields.len() == embed.fields@.len(),
            out@ == prefix + spec_render_fields(embed@.fields.take(i as int)),
        decreases embed.fields@.len() - i,
    {
        let f = &embed.fields[i];
        let ghost out_pre = out@;
        out.append("#field { ");
        append_string_field(&mut out, "#name:", f.name.as_str());
        append_string_field(&mut out, "#value:", f.value.as_str());
        out.append("#inline: ");
        if f.inline {
            out.append("true");
        } else {
            out.append("false");
        }
        out.append(", } ");
        i = i + 1;
        proof {
            assert(embed@.fields.take(i as int).drop_last() =~= embed@.fields.take(i - 1));
            assert(embed@.fields.take(i as int).last() == embed@.fields[i - 1]);
            assert(out@ =~= out_pre + spec_render_field(embed@.fields[i - 1]));
            assert(out@ =~= prefix + spec_render_fields(embed@.fields.take(i as int)));
        }
    }
    proof {
        assert(embed@.fields.take(embed@.fields.len() as int) =~= embed@.fields);
    }
    out.append("} ");
    append_opt_str_field(&mut out, "#image:", &embed.image_url);
    append_opt_str_field(&mut out, "#thumbnail:", &embed.thumbnail_url);
    match &embed.footer {
        Some(f) => {
            let ghost out_pre = out@;
            out.append("#footer { ");
            append_string_field(&mut out, "#text:", f.text.as_str());
            append_opt_str_field(&mut out, "#icon_url:", &f.icon_url);
            out.append("} ");
            proof {
                assert(out@ =~= out_pre + spec_render_footer(embed@.footer->Some_0));
            }
        },
        None => {},
    }
    match &embed.timestamp {
        Some(t) => {
            out.append("#timestamp: ");
            append_nonneg_digits(&mut out, *t);
            out.append(", ");
        },
        None => {},
    }
    out.append("}");
    proof {
        assert(out@ =~= spec_render_embed(embed@));
    }
    out
}


/// A digit value between zero and nine renders as a decimal digit
/// character, and that character reads back as the value.
proof fn lemma_digit_char_inverse(d: int)
    requires
        0 <= d <= 9,
    ensures
        is_dec_digit(spec_digit(d)),
        dec_digit_val(spec_digit(d)) == d,
{
}

/// The decimal digit string of a non-negative number reads back as that
/// number: wherever the rendered digits stand in a text, the decimal value
/// function over that region gives the number back.
pub proof fn lemma_dec_digits_value(s: Seq<char>, a: int, n: int)
    requires
        0 <= n,
        0 <= a,
        a + spec_dec_digits(n).len() <= s.len(),
        s.subrange(a, a + spec_dec_digits(n).len()) == spec_dec_digits(n),
    ensures
        spec_dec_value(s, a, a + spec_dec_digits(n).len()) == n,
    decreases n,
{
    let d = spec_dec_digits(n);
    if n < 10 {
        lemma_digit_char_inverse(n);
        assert(s.subrange(a, a + d.len())[0] == s[a]);
        assert(d[0] == spec_digit(n));
        assert(s[a] == spec_digit(n));
        assert(d.len() == 1);
        assert(spec_dec_value(s, a, a) == 0);
        assert(spec_dec_value(s, a, a + 1) == spec_dec_value(s, a, a) * 10 + dec_digit_val(s[a]));
        assert(spec_dec_value(s, a, a + 1) == n);
    } else {
        let len = spec_dec_digits(n / 10).len();
        lemma_digit_char_inverse(n % 10);
        assert(s.subrange(a, a + d.len())[len as int] == s[a + len]);
        assert(d[len as int] == spec_digit(n % 10));
        assert(s[a + len] == spec_digit(n % 10));
        assert(s.subrange(a, a + len) =~= spec_dec_digits(n / 10)) by {
            assert(d.drop_last() =~= spec_dec_digits(n / 10));
            assert forall|i: int| 0 <= i < len implies #[trigger] s.subrange(a, a + len)[i]
                == spec_dec_digits(n / 10)[i] by {
                assert(s.subrange(a, a + d.len())[i] == s[a + i]);
                assert(s.subrange(a, a + len)[i] == s[a + i]);
            }
        }
        lemma_dec_digits_value(s, a, n / 10);
        vstd::arithmetic::div_mod::lemma_fundamental_div_mod(n, 10);
        assert(d.len() == len + 1);
        assert(spec_dec_value(s, a, a + len) == n / 10);
        assert(spec_dec_value(s, a, a + len + 1) == spec_dec_value(s, a, a + len) * 10
            + dec_digit_val(s[a + len]));
        assert(spec_dec_value(s, a, a + len + 1) == n);
    }
}

/// A run of plain characters before a closing quote ends the string body at
/// that quote.
proof fn lemma_string_end_at(s: Seq<char>, pos: int, end: int)
    requires
        0 <= pos <= end < s.len(),
        s[end] == '"',
        forall|i: int| pos <= i < end ==> s[i] != '"' && #[trigger] s[i] != '\\',
    ensures
        spec_string_end(s, pos) == Some(end),
    decreases end - pos,
{
    if pos < end {
        lemma_string_end_at(s, pos + 1, end);
    }
}

/// A quoted string whose body holds no quote or backslash reads back as
/// itself: the string parser yields exactly the body and stops after the
/// closing quote and any trailing whitespace.
pub proof fn lemma_string_literal_round_trip(s: Seq<char>, a: int, v: Seq<char>)
    requires
        0 <= a,
        a + v.len() + 2 <= s.len(),
        s[a] == '"',
        s[a + v.len() + 1] == '"',
        s.subrange(a + 1, a + 1 + v.len()) == v,
        forall|i: int| 0 <= i < v.len() ==> v[i] != '"' && #[trigger] v[i] != '\\',
    ensures
        spec_parse_string(s, a) == Some((v, spec_skip_ws(s, a + v.len() + 2))),
{
    assert(spec_skip_ws(s, a) == a);
    assert forall|i: int| a + 1 <= i < a + 1 + v.len() implies s[i] != '"' && #[trigger] s[i]
        != '\\' by {
        assert(s.subrange(a + 1, a + 1 + v.len())[i - (a + 1)] == s[i]);
    }
    lemma_string_end_at(s, a + 1, a + 1 + v.len());
}


/// The component list that the script form of an author block denotes.
pub open spec fn spec_author_components_of(a: SpecAuthor) -> Seq<SpecAuthorComponent> {
    seq![SpecAuthorComponent::Name(a.name)] + (match a.url {
        Some(u) => seq![SpecAuthorComponent::Url(u)],
        None => Seq::empty(),
    }) + (match a.icon_url {
        Some(u) => seq![SpecAuthorComponent::IconUrl(u)],
        None => Seq::empty(),
    })
}

/// The component list that the script form of a footer block denotes.
pub open spec fn spec_footer_components_of(f: SpecFooter) -> Seq<SpecFooterComponent> {
    seq![SpecFooterComponent::Text(f.text)] + (match f.icon_url {
        Some(u) => seq![SpecFooterComponent::IconUrl(u)],
        None => Seq::empty(),
    })
}

/// The component list that the script form of one field block denotes.
pub open spec fn spec_field_components_of(f: SpecField) -> Seq<SpecFieldComponent> {
    seq![
        SpecFieldComponent::Name(f.name),
        SpecFieldComponent::Value(f.value),
        SpecFieldComponent::Inline(f.inline),
    ]
}

/// The field block lists that the script form of a fields block denotes.
pub open spec fn spec_field_lists_of(fields: Seq<SpecField>) -> Seq<Seq<SpecFieldComponent>> {
    fields.map_values(|f: SpecField| spec_field_components_of(f))
}

/// The component list that the script form of a whole embed denotes, in
/// render order.
#[verifier::opaque]
pub open spec fn spec_components_of(e: SpecEmbed) -> Seq<SpecComponent> {
    (match e.author {
        Some(a) => seq![SpecComponent::Author(spec_author_components_of(a))],
        None => Seq::empty(),
    }) + ((match e.title {
        Some(t) => seq![SpecComponent::Title(t)],
        None => Seq::empty(),
    }) + ((match e.description {
        Some(d) => seq![SpecComponent::Description(d)],
        None => Seq::empty(),
    }) + (seq![SpecComponent::Colour(e.colour)] + ((match e.url {
        Some(u) => seq![SpecComponent::Url(u)],
        None => Seq::empty(),
    }) + (seq![SpecComponent::Fields(spec_field_lists_of(e.fields))] + ((match e.image_url {
        Some(u) => seq![SpecComponent::Image(u)],
        None => Seq::empty(),
    }) + ((match e.thumbnail_url {
        Some(u) => seq![SpecComponent::Thumbnail(u)],
        None => Seq::empty(),
    }) + ((match e.footer {
        Some(f) => seq![SpecComponent::Footer(spec_footer_components_of(f))],
        None => Seq::empty(),
    }) + (match e.timestamp {
        Some(t) => seq![SpecComponent::Timestamp(t)],
        None => Seq::empty(),
    })))))))))
}

/// What an embed must satisfy for its script form to rebuild: everything a
/// successful build guarantees, plus URLs that parse and non-empty author
/// and footer blocks where present.
#[verifier::opaque]
pub open spec fn spec_embed_rebuildable(e: SpecEmbed) -> bool {
    &&& crate::builders::spec_embed_state_ok(e)
    &&& spec_total_chars(e) <= 6000
    &&& (match e.url {
        Some(u) => url_parse_ok(u),
        None => true,
    })
    &&& (match e.image_url {
        Some(u) => url_parse_ok(u),
        None => true,
    })
    &&& (match e.thumbnail_url {
        Some(u) => url_parse_ok(u),
        None => true,
    })
    &&& (match e.author {
        Some(a) => {
            &&& (a.name.len() > 0 || a.url is Some || a.icon_url is Some)
            &&& (match a.url {
                Some(u) => url_parse_ok(u),
                None => true,
            })
            &&& (match a.icon_url {
                Some(u) => url_parse_ok(u),
                None => true,
            })
        },
        None => true,
    })
    &&& (match e.footer {
        Some(f) => {
            &&& (f.text.len() > 0 || f.icon_url is Some)
            &&& (match f.icon_url {
                Some(u) => url_parse_ok(u),
                None => true,
            })
        },
        None => true,
    })
}

/// An author block's denoted components rebuild exactly that author.
proof fn lemma_author_rebuilds(a: SpecAuthor)
    requires
        a.name.len() <= 256,
        a.name.len() > 0 || a.url is Some || a.icon_url is Some,
        a.url matches Some(u) ==> url_parse_ok(u),
        a.icon_url matches Some(u) ==> url_parse_ok(u),
    ensures
        crate::builders::spec_build_author(spec_author_components_of(a)) == Ok::<
            SpecAuthor,
            SpecBuildError,
        >(a),
{
    reveal_with_fuel(crate::builders::spec_build_author_rec, 5);
    let cs = spec_author_components_of(a);
    let a0 = SpecAuthor { name: Seq::empty(), url: None, icon_url: None };
    let a1 = SpecAuthor { name: a.name, url: None, icon_url: None };
    assert(cs.first() == SpecAuthorComponent::Name(a.name));
    match (a.url, a.icon_url) {
        (Some(u), Some(v)) => {
            assert(cs =~= seq![
                SpecAuthorComponent::Name(a.name),
                SpecAuthorComponent::Url(u),
                SpecAuthorComponent::IconUrl(v),
            ]);
            let c1 = cs.drop_first();
            let c2 = c1.drop_first();
            let c3 = c2.drop_first();
            assert(c1.first() == SpecAuthorComponent::Url(u));
            assert(c2.first() == SpecAuthorComponent::IconUrl(v));
            assert(c3.len() == 0);
            let a2 = SpecAuthor { name: a.name, url: Some(u), icon_url: None };
            let a3 = SpecAuthor { name: a.name, url: Some(u), icon_url: Some(v) };
            assert(a3 =~= a);
        },
        (Some(u), None) => {
            assert(cs =~= seq![SpecAuthorComponent::Name(a.name), SpecAuthorComponent::Url(u)]);
            let c1 = cs.drop_first();
            let c2 = c1.drop_first();
            assert(c1.first() == SpecAuthorComponent::Url(u));
            assert(c2.len() == 0);
            let a2 = SpecAuthor { name: a.name, url: Some(u), icon_url: None };
            assert(a2 =~= a);
        },
        (None, Some(v)) => {
            assert(cs =~= seq![SpecAuthorComponent::Name(a.name), SpecAuthorComponent::IconUrl(v)]);
            let c1 = cs.drop_first();
            let c2 = c1.drop_first();
            assert(c1.first() == SpecAuthorComponent::IconUrl(v));
            assert(c2.len() == 0);
            let a2 = SpecAuthor { name: a.name, url: None, icon_url: Some(v) };
            assert(a2 =~= a);
        },
        (None, None) => {
            assert(cs =~= seq![SpecAuthorComponent::Name(a.name)]);
            let c1 = cs.drop_first();
            assert(c1.len() == 0);
            assert(a1 =~= a);
        },
    }
}

/// A footer block's denoted components rebuild exactly that footer.
proof fn lemma_footer_rebuilds(f: SpecFooter)
    requires
        f.text.len() <= 2048,
        f.text.len() > 0 || f.icon_url is Some,
        f.icon_url matches Some(u) ==> url_parse_ok(u),
    ensures
        crate::builders::spec_build_footer(spec_footer_components_of(f)) == Ok::<
            SpecFooter,
            SpecBuildError,
        >(f),
{
    reveal_with_fuel(crate::builders::spec_build_footer_rec, 4);
    let cs = spec_footer_components_of(f);
    assert(cs.first() == SpecFooterComponent::Text(f.text));
    match f.icon_url {
        Some(u) => {
            assert(cs =~= seq![
                SpecFooterComponent::Text(f.text),
                SpecFooterComponent::IconUrl(u),
            ]);
            let c1 = cs.drop_first();
            let c2 = c1.drop_first();
            assert(c1.first() == SpecFooterComponent::IconUrl(u));
            assert(c2.len() == 0);
            let f2 = SpecFooter { text: f.text, icon_url: Some(u) };
            assert(f2 =~= f);
        },
        None => {
            assert(cs =~= seq![SpecFooterComponent::Text(f.text)]);
            let c1 = cs.drop_first();
            assert(c1.len() == 0);
            let f1 = SpecFooter { text: f.text, icon_url: None };
            assert(f1 =~= f);
        },
    }
}

/// One field block's denoted components rebuild exactly that field.
proof fn lemma_field_rebuilds(f: SpecField)
    requires
        0 < f.name.len() <= 256,
        0 < f.value.len() <= 1024,
    ensures
        crate::builders::spec_build_field(spec_field_components_of(f)) == Ok::<
            SpecField,
            SpecBuildError,
        >(f),
{
    reveal_with_fuel(crate::builders::spec_build_field_rec, 5);
    let cs = spec_field_components_of(f);
    let c1 = cs.drop_first();
    let c2 = c1.drop_first();
    let c3 = c2.drop_first();
    assert(cs.first() == SpecFieldComponent::Name(f.name));
    assert(c1.first() == SpecFieldComponent::Value(f.value));
    assert(c2.first() == SpecFieldComponent::Inline(f.inline));
    assert(c3.len() == 0);
    let built = SpecField { name: f.name, value: f.value, inline: f.inline };
    assert(built =~= f);
}

/// A list of field blocks' denoted components rebuild exactly those fields,
/// appended to what was built so far.
proof fn lemma_fields_rebuild(fields: Seq<SpecField>, built: Seq<SpecField>)
    requires
        forall|i: int|
            0 <= i < fields.len() ==> 0 < #[trigger] fields[i].name.len() <= 256 && 0
                < fields[i].value.len() <= 1024,
    ensures
        crate::builders::spec_build_fields_rec(spec_field_lists_of(fields), built) == Ok::<
            Seq<SpecField>,
            SpecBuildError,
        >(built + fields),
    decreases fields.len(),
{
    let lists = spec_field_lists_of(fields);
    if fields.len() == 0 {
        assert(lists.len() == 0);
        assert(built + fields =~= built);
    } else {
        let head = fields.first();
        assert(lists.first() == spec_field_components_of(head));
        lemma_field_rebuilds(head);
        assert(lists.drop_first() =~= spec_field_lists_of(fields.drop_first()));
        lemma_fields_rebuild(fields.drop_first(), built.push(head));
        assert(built.push(head) + fields.drop_first() =~= built + fields);
    }
}


/// Rebuilding an embed from the component list its script form denotes
/// gives back exactly that embed: serialization loses nothing. This holds
/// of every embed the builder can produce (and of any other embed meeting
/// the same ceilings, with parseable URLs and non-empty author and footer).
#[verifier::rlimit(100)]
pub proof fn lemma_components_rebuild_embed(e: SpecEmbed)
    requires
        spec_embed_rebuildable(e),
    ensures
        crate::builders::spec_build_embed(spec_components_of(e)) == Ok::<
            SpecEmbed,
            SpecBuildError,
        >(e),
{
    let seg_author: Seq<SpecComponent> = match e.author {
        Some(a) => seq![SpecComponent::Author(spec_author_components_of(a))],
        None => Seq::empty(),
    };
    let seg_title: Seq<SpecComponent> = match e.title {
        Some(t) => seq![SpecComponent::Title(t)],
        None => Seq::empty(),
    };
    let seg_desc: Seq<SpecComponent> = match e.description {
        Some(d) => seq![SpecComponent::Description(d)],
        None => Seq::empty(),
    };
    let seg_colour: Seq<SpecComponent> = seq![SpecComponent::Colour(e.colour)];
    let seg_url: Seq<SpecComponent> = match e.url {
        Some(u) => seq![SpecComponent::Url(u)],
        None => Seq::empty(),
    };
    let seg_fields: Seq<SpecComponent> = seq![
        SpecComponent::Fields(spec_field_lists_of(e.fields)),
    ];
    let seg_image: Seq<SpecComponent> = match e.image_url {
        Some(u) => seq![SpecComponent::Image(u)],
        None => Seq::empty(),
    };
    let seg_thumb: Seq<SpecComponent> = match e.thumbnail_url {
        Some(u) => seq![SpecComponent::Thumbnail(u)],
        None => Seq::empty(),
    };
    let seg_footer: Seq<SpecComponent> = match e.footer {
        Some(f) => seq![SpecComponent::Footer(spec_footer_components_of(f))],
        None => Seq::empty(),
    };
    let seg_ts: Seq<SpecComponent> = match e.timestamp {
        Some(t) => seq![SpecComponent::Timestamp(t)],
        None => Seq::empty(),
    };
    let s3 = seg_colour + (seg_url + (seg_fields + (seg_image + (seg_thumb + (seg_footer
        + seg_ts)))));
    let s2 = seg_desc + s3;
    let s1 = seg_title + s2;
    let s0 = seg_author + s1;
    assert(spec_components_of(e) == s0) by {
        reveal(spec_components_of);
    }
    let e0 = crate::builders::spec_empty_embed();
    let e1 = SpecEmbed { author: e.author, ..e0 };
    let e2 = SpecEmbed { title: e.title, ..e1 };
    let e3 = SpecEmbed { description: e.description, ..e2 };
    assert(e3 =~= (SpecEmbed {
        author: e.author,
        title: e.title,
        description: e.description,
        ..crate::builders::spec_empty_embed()
    }));
    assert(crate::builders::spec_build_embed_rec(s0, e0, false)
        == crate::builders::spec_build_embed_rec(s1, e1, false)) by {
        reveal(spec_embed_rebuildable);
        match e.author {
            Some(a) => {
                assert(s0.first() == SpecComponent::Author(spec_author_components_of(a)));
                assert(s0.drop_first() =~= s1);
                lemma_author_rebuilds(a);
                assert(e1 =~= (SpecEmbed { author: Some(a), ..e0 }));
            },
            None => {
                assert(s0 =~= s1);
                assert(e1 =~= e0);
            },
        }
    }
    assert(crate::builders::spec_build_embed_rec(s1, e1, false)
        == crate::builders::spec_build_embed_rec(s2, e2, false)) by {
        reveal(spec_embed_rebuildable);
        match e.title {
            Some(t) => {
                assert(s1.first() == SpecComponent::Title(t));
                assert(s1.drop_first() =~= s2);
                assert(e2 =~= (SpecEmbed { title: Some(t), ..e1 }));
            },
            None => {
                assert(s1 =~= s2);
                assert(e2 =~= e1);
            },
        }
    }
    assert(crate::builders::spec_build_embed_rec(s2, e2, false)
        == crate::builders::spec_build_embed_rec(s3, e3, false)) by {
        reveal(spec_embed_rebuildable);
        match e.description {
            Some(d) => {
                assert(s2.first() == SpecComponent::Description(d));
                assert(s2.drop_first() =~= s3);
                assert(e3 =~= (SpecEmbed { description: Some(d), ..e2 }));
            },
            None => {
                assert(s2 =~= s3);
                assert(e3 =~= e2);
            },
        }
    }
    lemma_rebuild_from_colour(e);
    assert(crate::builders::spec_build_embed_rec(s3, e3, false) == Ok::<
        SpecEmbed,
        SpecBuildError,
    >(e));
    assert(spec_total_chars(e) <= 6000) by {
        reveal(spec_embed_rebuildable);
    }
}

/// The middle of the rebuild: from the colour leaf on, the fold completes
/// the embed exactly.
#[verifier::rlimit(100)]
proof fn lemma_rebuild_from_colour(e: SpecEmbed)
    requires
        spec_embed_rebuildable(e),
    ensures
        ({
            let seg_colour: Seq<SpecComponent> = seq![SpecComponent::Colour(e.colour)];
            let seg_url: Seq<SpecComponent> = match e.url {
                Some(u) => seq![SpecComponent::Url(u)],
                None => Seq::empty(),
            };
            let seg_fields: Seq<SpecComponent> = seq![
                SpecComponent::Fields(spec_field_lists_of(e.fields)),
            ];
            let seg_image: Seq<SpecComponent> = match e.image_url {
                Some(u) => seq![SpecComponent::Image(u)],
                None => Seq::empty(),
            };
            let seg_thumb: Seq<SpecComponent> = match e.thumbnail_url {
                Some(u) => seq![SpecComponent::Thumbnail(u)],
                None => Seq::empty(),
            };
            let seg_footer: Seq<SpecComponent> = match e.footer {
                Some(f) => seq![SpecComponent::Footer(spec_footer_components_of(f))],
                None => Seq::empty(),
            };
            let seg_ts: Seq<SpecComponent> = match e.timestamp {
                Some(t) => seq![SpecComponent::Timestamp(t)],
                None => Seq::empty(),
            };
            let s3 = seg_colour + (seg_url + (seg_fields + (seg_image + (seg_thumb + (seg_footer
                + seg_ts)))));
            let e3 = SpecEmbed {
                author: e.author,
                title: e.title,
                description: e.description,
                ..crate::builders::spec_empty_embed()
            };
            crate::builders::spec_build_embed_rec(s3, e3, false) == Ok::<
                SpecEmbed,
                SpecBuildError,
            >(e)
        }),
{
    reveal(spec_embed_rebuildable);
    let seg_colour: Seq<SpecComponent> = seq![SpecComponent::Colour(e.colour)];
    let seg_url: Seq<SpecComponent> = match e.url {
        Some(u) => seq![SpecComponent::Url(u)],
        None => Seq::empty(),
    };
    let seg_fields: Seq<SpecComponent> = seq![
        SpecComponent::Fields(spec_field_lists_of(e.fields)),
    ];
    let seg_image: Seq<SpecComponent> = match e.image_url {
        Some(u) => seq![SpecComponent::Image(u)],
        None => Seq::empty(),
    };
    let seg_thumb: Seq<SpecComponent> = match e.thumbnail_url {
        Some(u) => seq![SpecComponent::Thumbnail(u)],
        None => Seq::empty(),
    };
    let seg_footer: Seq<SpecComponent> = match e.footer {
        Some(f) => seq![SpecComponent::Footer(spec_footer_components_of(f))],
        None => Seq::empty(),
    };
    let seg_ts: Seq<SpecComponent> = match e.timestamp {
        Some(t) => seq![SpecComponent::Timestamp(t)],
        None => Seq::empty(),
    };
    let s5 = seg_fields + (seg_image + (seg_thumb + (seg_footer + seg_ts)));
    let s4 = seg_url + s5;
    let s3 = seg_colour + s4;
    let e3 = SpecEmbed {
        author: e.author,
        title: e.title,
        description: e.description,
        ..crate::builders::spec_empty_embed()
    };
    let e4 = SpecEmbed { colour: e.colour, ..e3 };
    let e5 = SpecEmbed { url: e.url, ..e4 };
    assert(e5 =~= (SpecEmbed {
        author: e.author,
        title: e.title,
        description: e.description,
        colour: e.colour,
        url: e.url,
        ..crate::builders::spec_empty_embed()
    }));
    assert(crate::builders::spec_build_embed_rec(s3, e3, false)
        == crate::builders::spec_build_embed_rec(s4, e4, true)) by {
        assert(s3.first() == SpecComponent::Colour(e.colour));
        assert(s3.drop_first() =~= s4);
        assert(e4 =~= (SpecEmbed { colour: e.colour, ..e3 }));
    }
    assert(crate::builders::spec_build_embed_rec(s4, e4, true)
        == crate::builders::spec_build_embed_rec(s5, e5, true)) by {
        match e.url {
            Some(u) => {
                assert(s4.first() == SpecComponent::Url(u));
                assert(s4.drop_first() =~= s5);
                assert(e5 =~= (SpecEmbed { url: Some(u), ..e4 }));
            },
            None => {
                assert(s4 =~= s5);
                assert(e5 =~= e4);
            },
        }
    }
    lemma_rebuild_from_fields(e);
    assert(crate::builders::spec_build_embed_rec(s5, e5, true) == Ok::<
        SpecEmbed,
        SpecBuildError,
    >(e));
}

/// The back half of the rebuild: from the fields block on, the fold
/// completes the embed exactly.
#[verifier::rlimit(100)]
proof fn lemma_rebuild_from_fields(e: SpecEmbed)
    requires
        spec_embed_rebuildable(e),
    ensures
        ({
            let seg_fields: Seq<SpecComponent> = seq![
                SpecComponent::Fields(spec_field_lists_of(e.fields)),
            ];
            let seg_image: Seq<SpecComponent> = match e.image_url {
                Some(u) => seq![SpecComponent::Image(u)],
                None => Seq::empty(),
            };
            let seg_thumb: Seq<SpecComponent> = match e.thumbnail_url {
                Some(u) => seq![SpecComponent::Thumbnail(u)],
                None => Seq::empty(),
            };
            let seg_footer: Seq<SpecComponent> = match e.footer {
                Some(f) => seq![SpecComponent::Footer(spec_footer_components_of(f))],
                None => Seq::empty(),
            };
            let seg_ts: Seq<SpecComponent> = match e.timestamp {
                Some(t) => seq![SpecComponent::Timestamp(t)],
                None => Seq::empty(),
            };
            let s5 = seg_fields + (seg_image + (seg_thumb + (seg_footer + seg_ts)));
            let e5 = SpecEmbed {
                author: e.author,
                title: e.title,
                description: e.description,
                colour: e.colour,
                url: e.url,
                ..crate::builders::spec_empty_embed()
            };
            crate::builders::spec_build_embed_rec(s5, e5, true) == Ok::<
                SpecEmbed,
                SpecBuildError,
            >(e)
        }),
{
    reveal(spec_embed_rebuildable);
    let seg_fields: Seq<SpecComponent> = seq![
        SpecComponent::Fields(spec_field_lists_of(e.fields)),
    ];
    let seg_image: Seq<SpecComponent> = match e.image_url {
        Some(u) => seq![SpecComponent::Image(u)],
        None => Seq::empty(),
    };
    let seg_thumb: Seq<SpecComponent> = match e.thumbnail_url {
        Some(u) => seq![SpecComponent::Thumbnail(u)],
        None => Seq::empty(),
    };
    let seg_footer: Seq<SpecComponent> = match e.footer {
        Some(f) => seq![SpecComponent::Footer(spec_footer_components_of(f))],
        None => Seq::empty(),
    };
    let seg_ts: Seq<SpecComponent> = match e.timestamp {
        Some(t) => seq![SpecComponent::Timestamp(t)],
        None => Seq::empty(),
    };
    let s10 = Seq::<SpecComponent>::empty();
    let s9 = seg_ts;
    let s8 = seg_footer + s9;
    let s7 = seg_thumb + s8;
    let s6 = seg_image + s7;
    let s5 = seg_fields + s6;
    let e5 = SpecEmbed {
        author: e.author,
        title: e.title,
        description: e.description,
        colour: e.colour,
        url: e.url,
        ..crate::builders::spec_empty_embed()
    };
    let e6 = SpecEmbed { fields: e.fields, ..e5 };
    let e7 = SpecEmbed { image_url: e.image_url, ..e6 };
    let e8 = SpecEmbed { thumbnail_url: e.thumbnail_url, ..e7 };
    let e9 = SpecEmbed { footer: e.footer, ..e8 };
    let e10 = SpecEmbed { timestamp: e.timestamp, ..e9 };
    assert(e10 =~= e);
    assert(crate::builders::spec_build_embed_rec(s5, e5, true)
        == crate::builders::spec_build_embed_rec(s6, e6, true)) by {
        assert(s5.first() == SpecComponent::Fields(spec_field_lists_of(e.fields)));
        assert(s5.drop_first() =~= s6);
        lemma_fields_rebuild(e.fields, Seq::empty());
        assert(Seq::<SpecField>::empty() + e.fields =~= e.fields);
        assert(e6 =~= (SpecEmbed { fields: e5.fields + e.fields, ..e5 }));
    }

    assert(crate::builders::spec_build_embed_rec(s6, e6, true)
        == crate::builders::spec_build_embed_rec(s7, e7, true)) by {
        match e.image_url {
            Some(u) => {
                assert(s6.first() == SpecComponent::Image(u));
                assert(s6.drop_first() =~= s7);
                assert(e7 =~= (SpecEmbed { image_url: Some(u), ..e6 }));
            },
            None => {
                assert(s6 =~= s7);
                assert(e7 =~= e6);
            },
        }
    }
    assert(crate::builders::spec_build_embed_rec(s7, e7, true)
        == crate::builders::spec_build_embed_rec(s8, e8, true)) by {
        match e.thumbnail_url {
            Some(u) => {
                assert(s7.first() == SpecComponent::Thumbnail(u));
                assert(s7.drop_first() =~= s8);
                assert(e8 =~= (SpecEmbed { thumbnail_url: Some(u), ..e7 }));
            },
            None => {
                assert(s7 =~= s8);
                assert(e8 =~= e7);
            },
        }
    }
    assert(crate::builders::spec_build_embed_rec(s8, e8, true)
        == crate::builders::spec_build_embed_rec(s9, e9, true)) by {
        match e.footer {
            Some(f) => {
                assert(s8.first() == SpecComponent::Footer(spec_footer_components_of(f)));
                assert(s8.drop_first() =~= s9);
                lemma_footer_rebuilds(f);
                assert(e9 =~= (SpecEmbed { footer: Some(f), ..e8 }));
            },
            None => {
                assert(s8 =~= s9);
                assert(e9 =~= e8);
            },
        }
    }
    assert(crate::builders::spec_build_embed_rec(s9, e9, true)
        == crate::builders::spec_build_embed_rec(s10, e10, true)) by {
        match e.timestamp {
            Some(t) => {
                assert(s9.first() == SpecComponent::Timestamp(t));
                assert(s9.drop_first() =~= s10);
                assert(e10 =~= (SpecEmbed { timestamp: Some(t), ..e9 }));
            },
            None => {
                assert(s9 =~= s10);
                assert(e10 =~= e9);
            },
        }
    }
    assert(crate::builders::spec_build_embed_rec(s10, e10, true) == Ok::<
        SpecEmbed,
        SpecBuildError,
    >(e));
}


/// Every embed the builder accepts round-trips through its serialized
/// form: rebuilding from the component list the script form denotes gives
/// back exactly the same embed, with every set field preserved.
pub proof fn lemma_built_embed_round_trips(cs: Seq<SpecComponent>)
    ensures
        crate::builders::spec_build_embed(cs) matches Ok(e)
            ==> crate::builders::spec_build_embed(spec_components_of(e)) == Ok::<
            SpecEmbed,
            SpecBuildError,
        >(e),
{
    match crate::builders::spec_build_embed(cs) {
        Ok(e) => {
            crate::builders::lemma_build_embed_valid(cs);
            crate::builders::lemma_build_embed_links(cs);
            assert(spec_embed_rebuildable(e)) by {
                reveal(spec_embed_rebuildable);
            }
            lemma_components_rebuild_embed(e);
        },
        Err(_) => {},
    }
}

} // verus!
