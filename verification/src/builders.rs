use vstd::prelude::*;
use vstd::string::StrSliceExecFns;
use crate::enums::{
    field_lists_view, seq_view, EmbedAuthorComponent, EmbedComponent, EmbedFieldComponent,
    EmbedFooterComponent, SpecAuthorComponent, SpecComponent, SpecFieldComponent,
    SpecFooterComponent,
};
use crate::errors::{BuildError, SpecBuildError};
use crate::helpers::url_parse_ok;
use crate::structs::{
    lemma_caps_bound_total, spec_meets_caps, spec_total_chars, SpecAuthor, SpecEmbed, SpecField,
    SpecFooter, StoredEmbed, StoredEmbedAuthor, StoredEmbedField, StoredEmbedFooter,
};

verus! {

/// The embed with nothing set: the state the builder starts from.
pub open spec fn spec_empty_embed() -> SpecEmbed {
    SpecEmbed {
        author: None,
        colour: 0,
        title: None,
        url: None,
        description: None,
        fields: Seq::empty(),
        image_url: None,
        thumbnail_url: None,
        footer: None,
        timestamp: None,
    }
}

/// Fold one embed field's component list, carrying the field collected so
/// far and a set-flag per slot.
pub open spec fn spec_build_field_rec(
    cs: Seq<SpecFieldComponent>,
    name: Seq<char>,
    name_set: bool,
    value: Seq<char>,
    value_set: bool,
    inline: bool,
    inline_set: bool,
) -> Result<SpecField, SpecBuildError>
    decreases cs.len(),
{
    if cs.len() == 0 {
        if name.len() == 0 || value.len() == 0 {
            Err(SpecBuildError::FieldMissingNameOrValue)
        } else {
            Ok(SpecField { name, value, inline })
        }
    } else {
        match cs.first() {
            SpecFieldComponent::Name(n) => if name_set {
                Err(SpecBuildError::DuplicateFieldName)
            } else if n.len() > 256 {
                Err(SpecBuildError::FieldNameTooLong(n.len() as int))
            } else {
                spec_build_field_rec(cs.drop_first(), n, true, value, value_set, inline, inline_set)
            },
            SpecFieldComponent::Value(v) => if value_set {
                Err(SpecBuildError::DuplicateFieldValue)
            } else if v.len() > 1024 {
                Err(SpecBuildError::FieldValueTooLong(v.len() as int))
            } else {
                spec_build_field_rec(cs.drop_first(), name, name_set, v, true, inline, inline_set)
            },
            SpecFieldComponent::Inline(b) => if inline_set {
                Err(SpecBuildError::DuplicateFieldInline)
            } else {
                spec_build_field_rec(cs.drop_first(), name, name_set, value, value_set, b, true)
            },
        }
    }
}

/// Fold one embed field's component list into a validated field.
pub open spec fn spec_build_field(cs: Seq<SpecFieldComponent>) -> Result<SpecField, SpecBuildError> {
    spec_build_field_rec(cs, Seq::empty(), false, Seq::empty(), false, false, false)
}

/// Fold a list of field component lists into validated fields, in order.
pub open spec fn spec_build_fields_rec(
    fss: Seq<Seq<SpecFieldComponent>>,
    built: Seq<SpecField>,
) -> Result<Seq<SpecField>, SpecBuildError>
    decreases fss.len(),
{
    if fss.len() == 0 {
        Ok(built)
    } else {
        match spec_build_field(fss.first()) {
            Err(e) => Err(e),
            Ok(f) => spec_build_fields_rec(fss.drop_first(), built.push(f)),
        }
    }
}

/// Fold a list of field component lists into validated fields.
pub open spec fn spec_build_fields(fss: Seq<Seq<SpecFieldComponent>>) -> Result<
    Seq<SpecField>,
    SpecBuildError,
> {
    spec_build_fields_rec(fss, Seq::empty())
}

/// Fold an author component list, carrying the author collected so far.
pub open spec fn spec_build_author_rec(
    cs: Seq<SpecAuthorComponent>,
    a: SpecAuthor,
    name_set: bool,
) -> Result<SpecAuthor, SpecBuildError>
    decreases cs.len(),
{
    if cs.len() == 0 {
        if a.name.len() == 0 && a.url is None && a.icon_url is None {
            Err(SpecBuildError::EmptyAuthor)
        } else {
            Ok(a)
        }
    } else {
        match cs.first() {
            SpecAuthorComponent::Name(n) => if name_set {
                Err(SpecBuildError::DuplicateAuthorName)
            } else if n.len() > 256 {
                Err(SpecBuildError::AuthorNameTooLong(n.len() as int))
            } else {
                spec_build_author_rec(cs.drop_first(), SpecAuthor { name: n, ..a }, true)
            },
            SpecAuthorComponent::Url(u) => if !url_parse_ok(u) {
                Err(SpecBuildError::InvalidUrl { field: "Embed Author URL"@, url: u })
            } else if a.url is Some {
                Err(SpecBuildError::DuplicateAuthorUrl)
            } else {
                spec_build_author_rec(cs.drop_first(), SpecAuthor { url: Some(u), ..a }, name_set)
            },
            SpecAuthorComponent::IconUrl(u) => if !url_parse_ok(u) {
                Err(SpecBuildError::InvalidUrl { field: "Embed Author Icon URL"@, url: u })
            } else if a.icon_url is Some {
                Err(SpecBuildError::DuplicateAuthorIconUrl)
            } else {
                spec_build_author_rec(
                    cs.drop_first(),
                    SpecAuthor { icon_url: Some(u), ..a },
                    name_set,
                )
            },
        }
    }
}

/// Fold an author component list into a validated author.
pub open spec fn spec_build_author(cs: Seq<SpecAuthorComponent>) -> Result<
    SpecAuthor,
    SpecBuildError,
> {
    spec_build_author_rec(cs, SpecAuthor { name: Seq::empty(), url: None, icon_url: None }, false)
}

/// Fold a footer component list, carrying the footer collected so far.
pub open spec fn spec_build_footer_rec(
    cs: Seq<SpecFooterComponent>,
    f: SpecFooter,
    text_set: bool,
) -> Result<SpecFooter, SpecBuildError>
    decreases cs.len(),
{
    if cs.len() == 0 {
        if f.text.len() == 0 && f.icon_url is None {
            Err(SpecBuildError::EmptyFooter)
        } else {
            Ok(f)
        }
    } else {
        match cs.first() {
            SpecFooterComponent::Text(t) => if text_set {
                Err(SpecBuildError::DuplicateFooterText)
            } else if t.len() > 2048 {
                Err(SpecBuildError::FooterTextTooLong(t.len() as int))
            } else {
                spec_build_footer_rec(cs.drop_first(), SpecFooter { text: t, ..f }, true)
            },
            SpecFooterComponent::IconUrl(u) => if !url_parse_ok(u) {
                Err(SpecBuildError::InvalidUrl { field: "Embed Footer Icon URL"@, url: u })
            } else if f.icon_url is Some {
                Err(SpecBuildError::DuplicateFooterIconUrl)
            } else {
                spec_build_footer_rec(cs.drop_first(), SpecFooter { icon_url: Some(u), ..f },
                    text_set)
            },
        }
    }
}

/// Fold a footer component list into a validated footer.
pub open spec fn spec_build_footer(cs: Seq<SpecFooterComponent>) -> Result<
    SpecFooter,
    SpecBuildError,
> {
    spec_build_footer_rec(cs, SpecFooter { text: Seq::empty(), icon_url: None }, false)
}

/// Fold an embed component list, carrying the embed collected so far and
/// whether its colour was already set.
pub open spec fn spec_build_embed_rec(
    cs: Seq<SpecComponent>,
    e: SpecEmbed,
    colour_set: bool,
) -> Result<SpecEmbed, SpecBuildError>
    decreases cs.len(),
{
    if cs.len() == 0 {
        Ok(e)
    } else {
        let rest = cs.drop_first();
        match cs.first() {
            SpecComponent::Author(acs) => if e.author is Some {
                Err(SpecBuildError::DuplicateAuthor)
            } else {
                match spec_build_author(acs) {
                    Err(err) => Err(err),
                    Ok(a) => spec_build_embed_rec(rest, SpecEmbed { author: Some(a), ..e },
                        colour_set),
                }
            },
            SpecComponent::Title(t) => if e.title is Some {
                Err(SpecBuildError::DuplicateTitle)
            } else if t.len() > 256 {
                Err(SpecBuildError::TitleTooLong(t.len() as int))
            } else {
                spec_build_embed_rec(rest, SpecEmbed { title: Some(t), ..e }, colour_set)
            },
            SpecComponent::Description(d) => if e.description is Some {
                Err(SpecBuildError::DuplicateDescription)
            } else if d.len() > 4096 {
                Err(SpecBuildError::DescriptionTooLong(d.len() as int))
            } else {
                spec_build_embed_rec(rest, SpecEmbed { description: Some(d), ..e }, colour_set)
            },
            SpecComponent::Colour(c) => if colour_set {
                Err(SpecBuildError::DuplicateColour)
            } else if c > 0xFFFFFF {
                Err(SpecBuildError::ColourTooLarge(c))
            } else {
                spec_build_embed_rec(rest, SpecEmbed { colour: c, ..e }, true)
            },
            SpecComponent::Fields(fss) => match spec_build_fields(fss) {
                Err(err) => Err(err),
                Ok(batch) => if e.fields.len() + batch.len() > 25 {
                    Err(SpecBuildError::TooManyFields)
                } else {
                    spec_build_embed_rec(rest, SpecEmbed { fields: e.fields + batch, ..e },
                        colour_set)
                },
            },
            SpecComponent::Image(u) => if !url_parse_ok(u) {
                Err(SpecBuildError::InvalidUrl { field: "Image URL"@, url: u })
            } else if e.image_url is Some {
                Err(SpecBuildError::DuplicateImage)
            } else {
                spec_build_embed_rec(rest, SpecEmbed { image_url: Some(u), ..e }, colour_set)
            },
            SpecComponent::Thumbnail(u) => if !url_parse_ok(u) {
                Err(SpecBuildError::InvalidUrl { field: "Thumbnail URL"@, url: u })
            } else if e.thumbnail_url is Some {
                Err(SpecBuildError::DuplicateThumbnail)
            } else {
                spec_build_embed_rec(rest, SpecEmbed { thumbnail_url: Some(u), ..e }, colour_set)
            },
            SpecComponent::Url(u) => if !url_parse_ok(u) {
                Err(SpecBuildError::InvalidUrl { field: "Embed URL"@, url: u })
            } else if e.url is Some {
                Err(SpecBuildError::DuplicateUrl)
            } else {
                spec_build_embed_rec(rest, SpecEmbed { url: Some(u), ..e }, colour_set)
            },
            SpecComponent::Footer(fcs) => if e.footer is Some {
                Err(SpecBuildError::DuplicateFooter)
            } else {
                match spec_build_footer(fcs) {
                    Err(err) => Err(err),
                    Ok(f) => spec_build_embed_rec(rest, SpecEmbed { footer: Some(f), ..e },
                        colour_set),
                }
            },
            SpecComponent::Timestamp(t) => if e.timestamp is Some {
                Err(SpecBuildError::DuplicateTimestamp)
            } else if t >= 0 {
                spec_build_embed_rec(rest, SpecEmbed { timestamp: Some(t), ..e }, colour_set)
            } else {
                Err(SpecBuildError::NegativeTimestamp(t))
            },
        }
    }
}

/// Fold an embed component list into a validated embed: the component fold
/// followed by the aggregate character budget.
pub open spec fn spec_build_embed(cs: Seq<SpecComponent>) -> Result<SpecEmbed, SpecBuildError> {
    match spec_build_embed_rec(cs, spec_empty_embed(), false) {
        Err(e) => Err(e),
        Ok(e) => if spec_total_chars(e) > 6000 {
            Err(SpecBuildError::TotalTooLarge(spec_total_chars(e)))
        } else {
            Ok(e)
        },
    }
}

/// Dropping a sequence's first element commutes with taking views.
proof fn lemma_seq_view_drop_first<T: View>(s: Seq<T>)
    requires
        s.len() > 0,
    ensures
        seq_view(s.drop_first()) == seq_view(s).drop_first(),
{
    assert(seq_view(s.drop_first()) =~= seq_view(s).drop_first());
}

/// Build a stored embed field from one field component list.
#[verifier::loop_isolation(false)]
fn build_one_field(components: Vec<EmbedFieldComponent>) -> (r: Result<
    StoredEmbedField,
    BuildError,
>)
    ensures
        r matches Ok(f) ==> spec_build_field(seq_view(components@)) == Ok::<
            SpecField,
            SpecBuildError,
        >(f@),
        r matches Err(e) ==> spec_build_field(seq_view(components@)) == Err::<
            SpecField,
            SpecBuildError,
        >(e@),
{
    let ghost all = seq_view(components@);
    let mut components = components;
    let mut name = String::new();
    let mut name_set = false;
    let mut value = String::new();
    let mut value_set = false;
    let mut inline = false;
    let mut inline_set = false;
    while components.len() > 0
        invariant
            spec_build_field_rec(
                seq_view(components@),
                name@,
                name_set,
                value@,
                value_set,
                inline,
                inline_set,
            ) == spec_build_field(all),
        decreases components.len(),
    {
        let ghost pre = components@;
        let c = components.remove(0);
        proof {
            assert(seq_view(pre).first() == c@);
            lemma_seq_view_drop_first(pre);
            assert(seq_view(components@) == seq_view(pre).drop_first());
        }
        match c {
            EmbedFieldComponent::Name(n) => {
                if name_set {
                    return Err(BuildError::DuplicateFieldName);
                }
                let len = n.as_str().unicode_len();
                if len > 256 {
                    return Err(BuildError::FieldNameTooLong(len));
                }
                name = n;
                name_set = true;
            },
            EmbedFieldComponent::Value(v) => {
                if value_set {
                    return Err(BuildError::DuplicateFieldValue);
                }
                let len = v.as_str().unicode_len();
                if len > 1024 {
                    return Err(BuildError::FieldValueTooLong(len));
                }
                value = v;
                value_set = true;
            },
            EmbedFieldComponent::Inline(b) => {
                if inline_set {
                    return Err(BuildError::DuplicateFieldInline);
                }
                inline = b;
                inline_set = true;
            },
        }
    }
    if name.as_str().unicode_len() == 0 || value.as_str().unicode_len() == 0 {
        return Err(BuildError::FieldMissingNameOrValue);
    }
    Ok(StoredEmbedField { name, value, inline })
}

/// Build a vector of stored embed field structs using a vector of vectors of
/// embed field components: each inner list becomes one validated field.
#[verifier::loop_isolation(false)]
pub fn build_fields(fields: Vec<Vec<EmbedFieldComponent>>) -> (r: Result<
    Vec<StoredEmbedField>,
    BuildError,
>)
    ensures
        r matches Ok(v) ==> spec_build_fields(field_lists_view(fields@)) == Ok::<
            Seq<SpecField>,
            SpecBuildError,
        >(seq_view(v@)),
        r matches Err(e) ==> spec_build_fields(field_lists_view(fields@)) == Err::<
            Seq<SpecField>,
            SpecBuildError,
        >(e@),
{
    let ghost all = field_lists_view(fields@);
    let mut fields = fields;
    let mut built: Vec<StoredEmbedField> = Vec::new();
    proof {
        assert(seq_view(built@) =~= Seq::<SpecField>::empty());
    }
    while fields.len() > 0
        invariant
            spec_build_fields_rec(field_lists_view(fields@), seq_view(built@))
                == spec_build_fields(all),
        decreases fields.len(),
    {
        let ghost pre = fields@;
        let fcs = fields.remove(0);
        proof {
            assert(field_lists_view(pre).first() == seq_view(fcs@));
            assert(field_lists_view(fields@) =~= field_lists_view(pre).drop_first());
        }
        let field = match build_one_field(fcs) {
            Ok(f) => f,
            Err(e) => {
                return Err(e);
            },
        };
        let ghost built_pre = built@;
        built.push(field);
        proof {
            assert(seq_view(built@) =~= seq_view(built_pre).push(field@));
        }
    }
    Ok(built)
}

/// Build a stored embed author struct using a vector of embed author
/// components.
#[verifier::loop_isolation(false)]
pub fn build_author(components: Vec<EmbedAuthorComponent>) -> (r: Result<
    StoredEmbedAuthor,
    BuildError,
>)
    ensures
        r matches Ok(a) ==> spec_build_author(seq_view(components@)) == Ok::<
            SpecAuthor,
            SpecBuildError,
        >(a@),
        r matches Err(e) ==> spec_build_author(seq_view(components@)) == Err::<
            SpecAuthor,
            SpecBuildError,
        >(e@),
{
    let ghost all = seq_view(components@);
    let mut components = components;
    let mut author = StoredEmbedAuthor::new(String::new());
    let mut name_set = false;
    proof {
        assert(author@ =~= (SpecAuthor { name: Seq::empty(), url: None, icon_url: None }));
    }
    while components.len() > 0
        invariant
            spec_build_author_rec(seq_view(components@), author@, name_set)
                == spec_build_author(all),
        decreases components.len(),
    {
        let ghost pre = components@;
        let c = components.remove(0);
        proof {
            assert(seq_view(pre).first() == c@);
            lemma_seq_view_drop_first(pre);
            assert(seq_view(components@) == seq_view(pre).drop_first());
        }
        match c {
            EmbedAuthorComponent::Name(n) => {
                if name_set {
                    return Err(BuildError::DuplicateAuthorName);
                }
                let len = n.as_str().unicode_len();
                if len > 256 {
                    return Err(BuildError::AuthorNameTooLong(len));
                }
                author = author.name(n);
                name_set = true;
            },
            EmbedAuthorComponent::Url(u) => {
                match crate::helpers::url(u.as_str(), "Embed Author URL") {
                    Err(e) => {
                        return Err(e);
                    },
                    Ok(()) => {},
                }
                if author.url.is_some() {
                    return Err(BuildError::DuplicateAuthorUrl);
                }
                author = author.url(u);
            },
            EmbedAuthorComponent::IconUrl(u) => {
                match crate::helpers::url(u.as_str(), "Embed Author Icon URL") {
                    Err(e) => {
                        return Err(e);
                    },
                    Ok(()) => {},
                }
                if author.icon_url.is_some() {
                    return Err(BuildError::DuplicateAuthorIconUrl);
                }
                author = author.icon_url(u);
            },
        }
    }
    if author.name.as_str().unicode_len() == 0 && author.url.is_none() && author.icon_url.is_none()
    {
        return Err(BuildError::EmptyAuthor);
    }
    Ok(author)
}

/// Build a stored embed footer struct using a vector of embed footer
/// components.
#[verifier::loop_isolation(false)]
pub fn build_footer(components: Vec<EmbedFooterComponent>) -> (r: Result<
    StoredEmbedFooter,
    BuildError,
>)
    ensures
        r matches Ok(f) ==> spec_build_footer(seq_view(components@)) == Ok::<
            SpecFooter,
            SpecBuildError,
        >(f@),
        r matches Err(e) ==> spec_build_footer(seq_view(components@)) == Err::<
            SpecFooter,
            SpecBuildError,
        >(e@),
{
    let ghost all = seq_view(components@);
    let mut components = components;
    let mut footer = StoredEmbedFooter::new(String::new());
    let mut text_set = false;
    proof {
        assert(footer@ =~= (SpecFooter { text: Seq::empty(), icon_url: None }));
    }
    while components.len() > 0
        invariant
            spec_build_footer_rec(seq_view(components@), footer@, text_set)
                == spec_build_footer(all),
        decreases components.len(),
    {
        let ghost pre = components@;
        let c = components.remove(0);
        proof {
            assert(seq_view(pre).first() == c@);
            lemma_seq_view_drop_first(pre);
            assert(seq_view(components@) == seq_view(pre).drop_first());
        }
        match c {
            EmbedFooterComponent::Text(t) => {
                if text_set {
                    return Err(BuildError::DuplicateFooterText);
                }
                let len = t.as_str().unicode_len();
                if len > 2048 {
                    return Err(BuildError::FooterTextTooLong(len));
                }
                footer = footer.text(t);
                text_set = true;
            },
            EmbedFooterComponent::IconUrl(u) => {
                match crate::helpers::url(u.as_str(), "Embed Footer Icon URL") {
                    Err(e) => {
                        return Err(e);
                    },
                    Ok(()) => {},
                }
                if footer.icon_url.is_some() {
                    return Err(BuildError::DuplicateFooterIconUrl);
                }
                footer = footer.icon_url(u);
            },
        }
    }
    if footer.text.as_str().unicode_len() == 0 && footer.icon_url.is_none() {
        return Err(BuildError::EmptyFooter);
    }
    Ok(footer)
}

/// A successfully folded field meets the per-field caps and is non-empty,
/// provided the collected state already does.
proof fn lemma_build_field_rec_caps(
    cs: Seq<SpecFieldComponent>,
    name: Seq<char>,
    name_set: bool,
    value: Seq<char>,
    value_set: bool,
    inline: bool,
    inline_set: bool,
)
    requires
        name.len() <= 256,
        value.len() <= 1024,
    ensures
        spec_build_field_rec(cs, name, name_set, value, value_set, inline, inline_set) matches Ok(f)
            ==> 0 < f.name.len() <= 256 && 0 < f.value.len() <= 1024,
    decreases cs.len(),
{
    if cs.len() > 0 {
        match cs.first() {
            SpecFieldComponent::Name(n) => {
                if !name_set && n.len() <= 256 {
                    lemma_build_field_rec_caps(
                        cs.drop_first(),
                        n,
                        true,
                        value,
                        value_set,
                        inline,
                        inline_set,
                    );
                }
            },
            SpecFieldComponent::Value(v) => {
                if !value_set && v.len() <= 1024 {
                    lemma_build_field_rec_caps(
                        cs.drop_first(),
                        name,
                        name_set,
                        v,
                        true,
                        inline,
                        inline_set,
                    );
                }
            },
            SpecFieldComponent::Inline(b) => {
                if !inline_set {
                    lemma_build_field_rec_caps(
                        cs.drop_first(),
                        name,
                        name_set,
                        value,
                        value_set,
                        b,
                        true,
                    );
                }
            },
        }
    }
}

/// Successfully folded field batches meet the per-field caps, provided the
/// batch collected so far does.
proof fn lemma_build_fields_rec_caps(fss: Seq<Seq<SpecFieldComponent>>, built: Seq<SpecField>)
    requires
        forall|i: int|
            0 <= i < built.len() ==> 0 < #[trigger] built[i].name.len() <= 256 && 0 < built[i].value.len()
                <= 1024,
    ensures
        spec_build_fields_rec(fss, built) matches Ok(v) ==> (forall|i: int|
            0 <= i < v.len() ==> 0 < #[trigger] v[i].name.len() <= 256 && 0 < v[i].value.len()
                <= 1024),
    decreases fss.len(),
{
    if fss.len() > 0 {
        match spec_build_field(fss.first()) {
            Err(_) => {},
            Ok(f) => {
                lemma_build_field_rec_caps(fss.first(), Seq::empty(), false, Seq::empty(), false,
                    false, false);
                assert forall|i: int| 0 <= i < built.push(f).len() implies 0 < #[trigger] built.push(
                    f,
                )[i].name.len() <= 256 && 0 < built.push(f)[i].value.len() <= 1024 by {
                    if i < built.len() {
                        assert(built.push(f)[i] == built[i]);
                    } else {
                        assert(built.push(f)[i] == f);
                    }
                }
                lemma_build_fields_rec_caps(fss.drop_first(), built.push(f));
            },
        }
    }
}

/// A successfully folded author keeps the name cap, carries only URLs
/// that parse, and is not empty, provided the collected state obeys the
/// same bounds.
proof fn lemma_build_author_rec_caps(
    cs: Seq<SpecAuthorComponent>,
    a: SpecAuthor,
    name_set: bool,
)
    requires
        a.name.len() <= 256,
        a.url matches Some(u) ==> url_parse_ok(u),
        a.icon_url matches Some(u) ==> url_parse_ok(u),
    ensures
        spec_build_author_rec(cs, a, name_set) matches Ok(r) ==> r.name.len() <= 256 && (
        r.url matches Some(u) ==> url_parse_ok(u)) && (r.icon_url matches Some(u) ==> url_parse_ok(
            u,
        )) && (r.name.len() > 0 || r.url is Some || r.icon_url is Some),
    decreases cs.len(),
{
    if cs.len() > 0 {
        match cs.first() {
            SpecAuthorComponent::Name(n) => {
                if !name_set && n.len() <= 256 {
                    lemma_build_author_rec_caps(cs.drop_first(), SpecAuthor { name: n, ..a }, true);
                }
            },
            SpecAuthorComponent::Url(u) => {
                if url_parse_ok(u) && a.url is None {
                    lemma_build_author_rec_caps(
                        cs.drop_first(),
                        SpecAuthor { url: Some(u), ..a },
                        name_set,
                    );
                }
            },
            SpecAuthorComponent::IconUrl(u) => {
                if url_parse_ok(u) && a.icon_url is None {
                    lemma_build_author_rec_caps(
                        cs.drop_first(),
                        SpecAuthor { icon_url: Some(u), ..a },
                        name_set,
                    );
                }
            },
        }
    }
}

/// A successfully folded footer keeps the text cap, carries only an icon
/// URL that parses, and is not empty, provided the collected state obeys
/// the same bounds.
proof fn lemma_build_footer_rec_caps(
    cs: Seq<SpecFooterComponent>,
    f: SpecFooter,
    text_set: bool,
)
    requires
        f.text.len() <= 2048,
        f.icon_url matches Some(u) ==> url_parse_ok(u),
    ensures
        spec_build_footer_rec(cs, f, text_set) matches Ok(r) ==> r.text.len() <= 2048 && (
        r.icon_url matches Some(u) ==> url_parse_ok(u)) && (r.text.len() > 0 || r.icon_url
            is Some),
    decreases cs.len(),
{
    if cs.len() > 0 {
        match cs.first() {
            SpecFooterComponent::Text(t) => {
                if !text_set && t.len() <= 2048 {
                    lemma_build_footer_rec_caps(cs.drop_first(), SpecFooter { text: t, ..f }, true);
                }
            },
            SpecFooterComponent::IconUrl(u) => {
                if url_parse_ok(u) && f.icon_url is None {
                    lemma_build_footer_rec_caps(
                        cs.drop_first(),
                        SpecFooter { icon_url: Some(u), ..f },
                        text_set,
                    );
                }
            },
        }
    }
}

/// Build a stored embed struct using a vector of embed components: fold the
/// components in order, validating each, then enforce the aggregate
/// character budget.
#[verifier::loop_isolation(false)]
pub fn build_embed(components: Vec<EmbedComponent>) -> (r: Result<StoredEmbed, BuildError>)
    ensures
        r matches Ok(e) ==> spec_build_embed(seq_view(components@)) == Ok::<
            SpecEmbed,
            SpecBuildError,
        >(e@),
        r matches Err(e) ==> spec_build_embed(seq_view(components@)) == Err::<
            SpecEmbed,
            SpecBuildError,
        >(e@),
{
    let ghost all = seq_view(components@);
    let mut components = components;
    let mut embed = StoredEmbed::new();
    let mut colour_set = false;
    proof {
        assert(embed@ =~= spec_empty_embed());
    }
    while components.len() > 0
        invariant
            spec_build_embed_rec(seq_view(components@), embed@, colour_set)
                == spec_build_embed_rec(all, spec_empty_embed(), false),
            spec_meets_caps(embed@),
            embed.fields@.len() == embed@.fields.len(),
        decreases components.len(),
    {
        let ghost pre = components@;
        let c = components.remove(0);
        proof {
            assert(seq_view(pre).first() == c@);
            lemma_seq_view_drop_first(pre);
            assert(seq_view(components@) == seq_view(pre).drop_first());
        }
        match c {
            EmbedComponent::Author(acs) => {
                if embed.author.is_some() {
                    return Err(BuildError::DuplicateAuthor);
                }
                let a = match build_author(acs) {
                    Ok(a) => a,
                    Err(e) => {
                        return Err(e);
                    },
                };
                proof {
                    lemma_build_author_rec_caps(
                        seq_view(acs@),
                        SpecAuthor { name: Seq::empty(), url: None, icon_url: None },
                        false,
                    );
                    assert(a@.name.len() <= 256);
                }
                embed = embed.author(a);
            },
            EmbedComponent::Title(title) => {
                if embed.title.is_some() {
                    return Err(BuildError::DuplicateTitle);
                }
                let len = title.as_str().unicode_len();
                if len > 256 {
                    return Err(BuildError::TitleTooLong(len));
                }
                embed = embed.title(title);
            },
            EmbedComponent::Description(description) => {
                if embed.description.is_some() {
                    return Err(BuildError::DuplicateDescription);
                }
                let len = description.as_str().unicode_len();
                if len > 4096 {
                    return Err(BuildError::DescriptionTooLong(len));
                }
                embed = embed.description(description);
            },
            EmbedComponent::Colour(colour) => {
                if colour_set {
                    return Err(BuildError::DuplicateColour);
                }
                if colour > 0xFFFFFF {
                    return Err(BuildError::ColourTooLarge(colour));
                }
                embed = embed.colour(colour);
                colour_set = true;
            },
            EmbedComponent::Fields(fss) => {
                let ghost fss_view = field_lists_view(fss@);
                let mut batch = match build_fields(fss) {
                    Ok(v) => v,
                    Err(e) => {
                        return Err(e);
                    },
                };
                proof {
                    lemma_build_fields_rec_caps(fss_view, Seq::empty());
                }
                if batch.len() > 25 - embed.fields.len() {
                    return Err(BuildError::TooManyFields);
                }
                let ghost embed_pre = embed@;
                let ghost batch_view = seq_view(batch@);
                embed.fields.append(&mut batch);
                proof {
                    assert(embed@.fields =~= embed_pre.fields + batch_view);
                    assert(embed@ =~= (SpecEmbed {
                        fields: embed_pre.fields + batch_view,
                        ..embed_pre
                    }));
                }
            },
            EmbedComponent::Image(image_url) => {
                match crate::helpers::url(image_url.as_str(), "Image URL") {
                    Err(e) => {
                        return Err(e);
                    },
                    Ok(()) => {},
                }
                if embed.image_url.is_some() {
                    return Err(BuildError::DuplicateImage);
                }
                embed = embed.image(image_url);
            },
            EmbedComponent::Thumbnail(thumbnail_url) => {
                match crate::helpers::url(thumbnail_url.as_str(), "Thumbnail URL") {
                    Err(e) => {
                        return Err(e);
                    },
                    Ok(()) => {},
                }
                if embed.thumbnail_url.is_some() {
                    return Err(BuildError::DuplicateThumbnail);
                }
                embed = embed.thumbnail(thumbnail_url);
            },
            EmbedComponent::Url(embed_url) => {
                match crate::helpers::url(embed_url.as_str(), "Embed URL") {
                    Err(e) => {
                        return Err(e);
                    },
                    Ok(()) => {},
                }
                if embed.url.is_some() {
                    return Err(BuildError::DuplicateUrl);
                }
                embed = embed.url(embed_url);
            },
            EmbedComponent::Footer(fcs) => {
                if embed.footer.is_some() {
                    return Err(BuildError::DuplicateFooter);
                }
                let f = match build_footer(fcs) {
                    Ok(f) => f,
                    Err(e) => {
                        return Err(e);
                    },
                };
                proof {
                    lemma_build_footer_rec_caps(
                        seq_view(fcs@),
                        SpecFooter { text: Seq::empty(), icon_url: None },
                        false,
                    );
                    assert(f@.text.len() <= 2048);
                }
                embed = embed.footer(f);
            },
            EmbedComponent::Timestamp(stamp) => {
                if embed.timestamp.is_some() {
                    return Err(BuildError::DuplicateTimestamp);
                }
                if stamp >= 0 {
                    embed = embed.timestamp(stamp);
                } else {
                    return Err(BuildError::NegativeTimestamp(stamp));
                }
            },
        }
    }
    proof {
        lemma_caps_bound_total(embed@);
    }
    let total_chars = embed.total_chars();
    if total_chars > 6000 {
        Err(BuildError::TotalTooLarge(total_chars))
    } else {
        Ok(embed)
    }
}

/// What validation guarantees of a collected embed state: every ceiling
/// honoured, colour within the limit, timestamp non-negative, and every
/// field carrying a non-empty name and value.
pub open spec fn spec_embed_state_ok(e: SpecEmbed) -> bool {
    &&& spec_meets_caps(e)
    &&& e.colour <= 0xFFFFFF
    &&& (match e.timestamp {
        Some(t) => t >= 0,
        None => true,
    })
    &&& (forall|i: int|
        0 <= i < e.fields.len() ==> #[trigger] e.fields[i].name.len() > 0
            && e.fields[i].value.len() > 0)
}

/// The component fold keeps a well-formed state well-formed.
proof fn lemma_build_embed_rec_valid(cs: Seq<SpecComponent>, e: SpecEmbed, colour_set: bool)
    requires
        spec_embed_state_ok(e),
    ensures
        spec_build_embed_rec(cs, e, colour_set) matches Ok(e2) ==> spec_embed_state_ok(e2),
    decreases cs.len(),
{
    if cs.len() > 0 {
        let rest = cs.drop_first();
        match cs.first() {
            SpecComponent::Author(acs) => {
                if !(e.author is Some) {
                    match spec_build_author(acs) {
                        Err(_) => {},
                        Ok(a) => {
                            lemma_build_author_rec_caps(
                                acs,
                                SpecAuthor { name: Seq::empty(), url: None, icon_url: None },
                                false,
                            );
                            lemma_build_embed_rec_valid(rest, SpecEmbed { author: Some(a), ..e },
                                colour_set);
                        },
                    }
                }
            },
            SpecComponent::Title(t) => {
                if !(e.title is Some) && t.len() <= 256 {
                    lemma_build_embed_rec_valid(rest, SpecEmbed { title: Some(t), ..e },
                        colour_set);
                }
            },
            SpecComponent::Description(d) => {
                if !(e.description is Some) && d.len() <= 4096 {
                    lemma_build_embed_rec_valid(rest, SpecEmbed { description: Some(d), ..e },
                        colour_set);
                }
            },
            SpecComponent::Colour(c) => {
                if !colour_set && c <= 0xFFFFFF {
                    lemma_build_embed_rec_valid(rest, SpecEmbed { colour: c, ..e }, true);
                }
            },
            SpecComponent::Fields(fss) => {
                match spec_build_fields(fss) {
                    Err(_) => {},
                    Ok(batch) => {
                        if e.fields.len() + batch.len() <= 25 {
                            lemma_build_fields_rec_caps(fss, Seq::empty());
                            let e2 = SpecEmbed { fields: e.fields + batch, ..e };
                            assert forall|i: int|
                                #![trigger e2.fields[i]]
                                0 <= i < e2.fields.len() implies 0 < e2.fields[i].name.len() <= 256
                                && 0 < e2.fields[i].value.len() <= 1024 by {
                                if i < e.fields.len() {
                                    assert(e2.fields[i] == e.fields[i]);
                                } else {
                                    assert(e2.fields[i] == batch[i - e.fields.len()]);
                                }
                            }
                            assert(spec_embed_state_ok(e2));
                            lemma_build_embed_rec_valid(rest, e2, colour_set);
                        }
                    },
                }
            },
            SpecComponent::Image(u) => {
                if url_parse_ok(u) && !(e.image_url is Some) {
                    lemma_build_embed_rec_valid(rest, SpecEmbed { image_url: Some(u), ..e },
                        colour_set);
                }
            },
            SpecComponent::Thumbnail(u) => {
                if url_parse_ok(u) && !(e.thumbnail_url is Some) {
                    lemma_build_embed_rec_valid(rest, SpecEmbed { thumbnail_url: Some(u), ..e },
                        colour_set);
                }
            },
            SpecComponent::Url(u) => {
                if url_parse_ok(u) && !(e.url is Some) {
                    lemma_build_embed_rec_valid(rest, SpecEmbed { url: Some(u), ..e }, colour_set);
                }
            },
            SpecComponent::Footer(fcs) => {
                if !(e.footer is Some) {
                    match spec_build_footer(fcs) {
                        Err(_) => {},
                        Ok(f) => {
                            lemma_build_footer_rec_caps(
                                fcs,
                                SpecFooter { text: Seq::empty(), icon_url: None },
                                false,
                            );
                            lemma_build_embed_rec_valid(rest, SpecEmbed { footer: Some(f), ..e },
                                colour_set);
                        },
                    }
                }
            },
            SpecComponent::Timestamp(t) => {
                if !(e.timestamp is Some) && t >= 0 {
                    lemma_build_embed_rec_valid(rest, SpecEmbed { timestamp: Some(t), ..e },
                        colour_set);
                }
            },
        }
    }
}

/// Every embed the builder accepts is platform-ready: each single field
/// within its ceiling, at most 25 fields, each with a non-empty name and
/// value, colour within `0xFFFFFF`, a non-negative timestamp, and at most
/// 6000 characters over title, description, field names and values, footer
/// text and author name together.
pub proof fn lemma_build_embed_valid(cs: Seq<SpecComponent>)
    ensures
        spec_build_embed(cs) matches Ok(e) ==> spec_embed_state_ok(e) && spec_total_chars(e)
            <= 6000,
{
    assert(spec_embed_state_ok(spec_empty_embed()));
    lemma_build_embed_rec_valid(cs, spec_empty_embed(), false);
}


/// Once a title is set, a component list that still holds a title
/// component cannot fold to success.
proof fn lemma_title_set_then_title_fails(
    cs: Seq<SpecComponent>,
    e: SpecEmbed,
    colour_set: bool,
    k: int,
)
    requires
        e.title is Some,
        0 <= k < cs.len(),
        cs[k] is Title,
    ensures
        spec_build_embed_rec(cs, e, colour_set) is Err,
    decreases cs.len(),
{
    let rest = cs.drop_first();
    if k > 0 {
        assert(rest[k - 1] == cs[k]);
        match cs.first() {
            SpecComponent::Author(acs) => {
                if !(e.author is Some) {
                    match spec_build_author(acs) {
                        Err(_) => {},
                        Ok(a) => {
                            lemma_title_set_then_title_fails(
                                rest,
                                SpecEmbed { author: Some(a), ..e },
                                colour_set,
                                k - 1,
                            );
                        },
                    }
                }
            },
            SpecComponent::Title(t) => {},
            SpecComponent::Description(d) => {
                if !(e.description is Some) && d.len() <= 4096 {
                    lemma_title_set_then_title_fails(rest, SpecEmbed { description: Some(d), ..e },
                        colour_set, k - 1);
                }
            },
            SpecComponent::Colour(c) => {
                if !colour_set && c <= 0xFFFFFF {
                    lemma_title_set_then_title_fails(rest, SpecEmbed { colour: c, ..e }, true,
                        k - 1);
                }
            },
            SpecComponent::Fields(fss) => {
                match spec_build_fields(fss) {
                    Err(_) => {},
                    Ok(batch) => {
                        if e.fields.len() + batch.len() <= 25 {
                            lemma_title_set_then_title_fails(
                                rest,
                                SpecEmbed { fields: e.fields + batch, ..e },
                                colour_set,
                                k - 1,
                            );
                        }
                    },
                }
            },
            SpecComponent::Image(u) => {
                if url_parse_ok(u) && !(e.image_url is Some) {
                    lemma_title_set_then_title_fails(rest, SpecEmbed { image_url: Some(u), ..e },
                        colour_set, k - 1);
                }
            },
            SpecComponent::Thumbnail(u) => {
                if url_parse_ok(u) && !(e.thumbnail_url is Some) {
                    lemma_title_set_then_title_fails(
                        rest,
                        SpecEmbed { thumbnail_url: Some(u), ..e },
                        colour_set,
                        k - 1,
                    );
                }
            },
            SpecComponent::Url(u) => {
                if url_parse_ok(u) && !(e.url is Some) {
                    lemma_title_set_then_title_fails(rest, SpecEmbed { url: Some(u), ..e },
                        colour_set, k - 1);
                }
            },
            SpecComponent::Footer(fcs) => {
                if !(e.footer is Some) {
                    match spec_build_footer(fcs) {
                        Err(_) => {},
                        Ok(f) => {
                            lemma_title_set_then_title_fails(
                                rest,
                                SpecEmbed { footer: Some(f), ..e },
                                colour_set,
                                k - 1,
                            );
                        },
                    }
                }
            },
            SpecComponent::Timestamp(t) => {
                if !(e.timestamp is Some) && t >= 0 {
                    lemma_title_set_then_title_fails(rest, SpecEmbed { timestamp: Some(t), ..e },
                        colour_set, k - 1);
                }
            },
        }
    }
}

/// Two title components in one embed can never build: the second is
/// rejected, never silently overwriting the first. The same fold rejects
/// every other repeated singular field the same way.
pub proof fn lemma_two_titles_never_build(cs: Seq<SpecComponent>, i: int, j: int)
    requires
        0 <= i < j < cs.len(),
        cs[i] is Title,
        cs[j] is Title,
    ensures
        spec_build_embed(cs) is Err,
{
    lemma_two_titles_rec_fails(cs, spec_empty_embed(), false, i, j);
}

/// The fold with two pending title components always errs.
proof fn lemma_two_titles_rec_fails(
    cs: Seq<SpecComponent>,
    e: SpecEmbed,
    colour_set: bool,
    i: int,
    j: int,
)
    requires
        0 <= i < j < cs.len(),
        cs[i] is Title,
        cs[j] is Title,
    ensures
        spec_build_embed_rec(cs, e, colour_set) is Err,
    decreases cs.len(),
{
    let rest = cs.drop_first();
    if i == 0 {
        match cs.first() {
            SpecComponent::Title(t) => {
                if !(e.title is Some) && t.len() <= 256 {
                    assert(rest[j - 1] == cs[j]);
                    lemma_title_set_then_title_fails(rest, SpecEmbed { title: Some(t), ..e },
                        colour_set, j - 1);
                }
            },
            _ => {},
        }
    } else {
        assert(rest[i - 1] == cs[i]);
        assert(rest[j - 1] == cs[j]);
        match cs.first() {
            SpecComponent::Author(acs) => {
                if !(e.author is Some) {
                    match spec_build_author(acs) {
                        Err(_) => {},
                        Ok(a) => {
                            lemma_two_titles_rec_fails(rest, SpecEmbed { author: Some(a), ..e },
                                colour_set, i - 1, j - 1);
                        },
                    }
                }
            },
            SpecComponent::Title(t) => {
                if !(e.title is Some) && t.len() <= 256 {
                    lemma_title_set_then_title_fails(rest, SpecEmbed { title: Some(t), ..e },
                        colour_set, i - 1);
                }
            },
            SpecComponent::Description(d) => {
                if !(e.description is Some) && d.len() <= 4096 {
                    lemma_two_titles_rec_fails(rest, SpecEmbed { description: Some(d), ..e },
                        colour_set, i - 1, j - 1);
                }
            },
            SpecComponent::Colour(c) => {
                if !colour_set && c <= 0xFFFFFF {
                    lemma_two_titles_rec_fails(rest, SpecEmbed { colour: c, ..e }, true, i - 1,
                        j - 1);
                }
            },
            SpecComponent::Fields(fss) => {
                match spec_build_fields(fss) {
                    Err(_) => {},
                    Ok(batch) => {
                        if e.fields.len() + batch.len() <= 25 {
                            lemma_two_titles_rec_fails(
                                rest,
                                SpecEmbed { fields: e.fields + batch, ..e },
                                colour_set,
                                i - 1,
                                j - 1,
                            );
                        }
                    },
                }
            },
            SpecComponent::Image(u) => {
                if url_parse_ok(u) && !(e.image_url is Some) {
                    lemma_two_titles_rec_fails(rest, SpecEmbed { image_url: Some(u), ..e },
                        colour_set, i - 1, j - 1);
                }
            },
            SpecComponent::Thumbnail(u) => {
                if url_parse_ok(u) && !(e.thumbnail_url is Some) {
                    lemma_two_titles_rec_fails(
                        rest,
                        SpecEmbed { thumbnail_url: Some(u), ..e },
                        colour_set,
                        i - 1,
                        j - 1,
                    );
                }
            },
            SpecComponent::Url(u) => {
                if url_parse_ok(u) && !(e.url is Some) {
                    lemma_two_titles_rec_fails(rest, SpecEmbed { url: Some(u), ..e }, colour_set,
                        i - 1, j - 1);
                }
            },
            SpecComponent::Footer(fcs) => {
                if !(e.footer is Some) {
                    match spec_build_footer(fcs) {
                        Err(_) => {},
                        Ok(f) => {
                            lemma_two_titles_rec_fails(rest, SpecEmbed { footer: Some(f), ..e },
                                colour_set, i - 1, j - 1);
                        },
                    }
                }
            },
            SpecComponent::Timestamp(t) => {
                if !(e.timestamp is Some) && t >= 0 {
                    lemma_two_titles_rec_fails(rest, SpecEmbed { timestamp: Some(t), ..e },
                        colour_set, i - 1, j - 1);
                }
            },
        }
    }
}


/// The link facts a successful build keeps: every URL that is set parses,
/// and author and footer blocks are not empty.
pub open spec fn spec_embed_links_ok(e: SpecEmbed) -> bool {
    &&& (match e.url {
        Some(u) => url_parse_ok(u),
        None => true,
    })
    &&& (match e.image_url {
        Some(u) => url_parse_ok(u),
        None => true,
    })
    &&& (match e.thumbnail_url {
        Some(u) => url_parse_ok(u),
        None => true,
    })
    &&& (match e.author {
        Some(a) => {
            &&& (a.name.len() > 0 || a.url is Some || a.icon_url is Some)
            &&& (match a.url {
                Some(u) => url_parse_ok(u),
                None => true,
            })
            &&& (match a.icon_url {
                Some(u) => url_parse_ok(u),
                None => true,
            })
        },
        None => true,
    })
    &&& (match e.footer {
        Some(f) => {
            &&& (f.text.len() > 0 || f.icon_url is Some)
            &&& (match f.icon_url {
                Some(u) => url_parse_ok(u),
                None => true,
            })
        },
        None => true,
    })
}

/// The component fold keeps the link facts.
proof fn lemma_build_embed_rec_links(cs: Seq<SpecComponent>, e: SpecEmbed, colour_set: bool)
    requires
        spec_embed_links_ok(e),
    ensures
        spec_build_embed_rec(cs, e, colour_set) matches Ok(e2) ==> spec_embed_links_ok(e2),
    decreases cs.len(),
{
    if cs.len() > 0 {
        let rest = cs.drop_first();
        match cs.first() {
            SpecComponent::Author(acs) => {
                if !(e.author is Some) {
                    match spec_build_author(acs) {
                        Err(_) => {},
                        Ok(a) => {
                            lemma_build_author_rec_caps(
                                acs,
                                SpecAuthor { name: Seq::empty(), url: None, icon_url: None },
                                false,
                            );
                            lemma_build_embed_rec_links(rest, SpecEmbed { author: Some(a), ..e },
                                colour_set);
                        },
                    }
                }
            },
            SpecComponent::Title(t) => {
                if !(e.title is Some) && t.len() <= 256 {
                    lemma_build_embed_rec_links(rest, SpecEmbed { title: Some(t), ..e },
                        colour_set);
                }
            },
            SpecComponent::Description(d) => {
                if !(e.description is Some) && d.len() <= 4096 {
                    lemma_build_embed_rec_links(rest, SpecEmbed { description: Some(d), ..e },
                        colour_set);
                }
            },
            SpecComponent::Colour(c) => {
                if !colour_set && c <= 0xFFFFFF {
                    lemma_build_embed_rec_links(rest, SpecEmbed { colour: c, ..e }, true);
                }
            },
            SpecComponent::Fields(fss) => {
                match spec_build_fields(fss) {
                    Err(_) => {},
                    Ok(batch) => {
                        if e.fields.len() + batch.len() <= 25 {
                            lemma_build_embed_rec_links(
                                rest,
                                SpecEmbed { fields: e.fields + batch, ..e },
                                colour_set,
                            );
                        }
                    },
                }
            },
            SpecComponent::Image(u) => {
                if url_parse_ok(u) && !(e.image_url is Some) {
                    lemma_build_embed_rec_links(rest, SpecEmbed { image_url: Some(u), ..e },
                        colour_set);
                }
            },
            SpecComponent::Thumbnail(u) => {
                if url_parse_ok(u) && !(e.thumbnail_url is Some) {
                    lemma_build_embed_rec_links(rest, SpecEmbed { thumbnail_url: Some(u), ..e },
                        colour_set);
                }
            },
            SpecComponent::Url(u) => {
                if url_parse_ok(u) && !(e.url is Some) {
                    lemma_build_embed_rec_links(rest, SpecEmbed { url: Some(u), ..e }, colour_set);
                }
            },
            SpecComponent::Footer(fcs) => {
                if !(e.footer is Some) {
                    match spec_build_footer(fcs) {
                        Err(_) => {},
                        Ok(f) => {
                            lemma_build_footer_rec_caps(
                                fcs,
                                SpecFooter { text: Seq::empty(), icon_url: None },
                                false,
                            );
                            lemma_build_embed_rec_links(rest, SpecEmbed { footer: Some(f), ..e },
                                colour_set);
                        },
                    }
                }
            },
            SpecComponent::Timestamp(t) => {
                if !(e.timestamp is Some) && t >= 0 {
                    lemma_build_embed_rec_links(rest, SpecEmbed { timestamp: Some(t), ..e },
                        colour_set);
                }
            },
        }
    }
}

/// Every embed the builder accepts keeps the link facts: set URLs parse,
/// and author and footer blocks are not empty.
pub proof fn lemma_build_embed_links(cs: Seq<SpecComponent>)
    ensures
        spec_build_embed(cs) matches Ok(e) ==> spec_embed_links_ok(e),
{
    assert(spec_embed_links_ok(spec_empty_embed()));
    lemma_build_embed_rec_links(cs, spec_empty_embed(), false);
}

} // verus!
