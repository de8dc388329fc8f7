use veascript::builders::{build_author, build_embed, build_fields, build_footer};
use veascript::enums::{
    EmbedAuthorComponent, EmbedComponent, EmbedFieldComponent, EmbedFooterComponent,
};
use veascript::errors::BuildError;
use veascript::helpers::{hex_to_str, url};

fn field(name: &str, value: &str) -> Vec<EmbedFieldComponent> {
    vec![
        EmbedFieldComponent::Name(String::from(name)),
        EmbedFieldComponent::Value(String::from(value)),
    ]
}

#[test]
fn title_of_256_characters_accepted() {
    let title = "a".repeat(256);
    let embed = build_embed(vec![EmbedComponent::Title(title.clone())]).unwrap();
    assert_eq!(embed.title, Some(title));
}

#[test]
fn title_of_257_characters_rejected_citing_lengths() {
    let title = "a".repeat(257);
    let err = build_embed(vec![EmbedComponent::Title(title)]).unwrap_err();
    assert_eq!(err, BuildError::TitleTooLong(257));
    assert_eq!(
        err.message(),
        "The length of your title (257) is above the maximum of 256 characters."
    );
}

#[test]
fn second_title_rejected_not_overwritten() {
    let err = build_embed(vec![
        EmbedComponent::Title(String::from("first")),
        EmbedComponent::Title(String::from("second")),
    ])
    .unwrap_err();
    assert_eq!(err, BuildError::DuplicateTitle);
    assert_eq!(err.message(), "You can only have one title for an embed.");
}

#[test]
fn colour_ffffff_accepted() {
    let embed = build_embed(vec![EmbedComponent::Colour(0xFFFFFF)]).unwrap();
    assert_eq!(embed.colour, 0xFFFFFF);
}

#[test]
fn colour_1000000_rejected_citing_hex() {
    let err = build_embed(vec![EmbedComponent::Colour(0x1000000)]).unwrap_err();
    assert_eq!(err, BuildError::ColourTooLarge(0x1000000));
    assert_eq!(
        err.message(),
        "Your colour value (#1000000) is greater than the limit of #FFFFFF."
    );
}

#[test]
fn second_colour_rejected() {
    let err = build_embed(vec![EmbedComponent::Colour(1), EmbedComponent::Colour(2)]).unwrap_err();
    assert_eq!(err, BuildError::DuplicateColour);
}

#[test]
fn twenty_five_fields_accepted() {
    let fields: Vec<Vec<EmbedFieldComponent>> = (0..25).map(|_| field("n", "v")).collect();
    let embed = build_embed(vec![EmbedComponent::Fields(fields)]).unwrap();
    assert_eq!(embed.fields.len(), 25);
}

#[test]
fn twenty_sixth_field_rejected_citing_limit() {
    let fields: Vec<Vec<EmbedFieldComponent>> = (0..26).map(|_| field("n", "v")).collect();
    let err = build_embed(vec![EmbedComponent::Fields(fields)]).unwrap_err();
    assert_eq!(err, BuildError::TooManyFields);
    assert_eq!(err.message(), "An embed can only have a maximum of 25 fields.");
}

#[test]
fn fields_accumulate_across_batches() {
    let first: Vec<Vec<EmbedFieldComponent>> = (0..20).map(|_| field("n", "v")).collect();
    let second: Vec<Vec<EmbedFieldComponent>> = (0..6).map(|_| field("n", "v")).collect();
    let err = build_embed(vec![
        EmbedComponent::Fields(first),
        EmbedComponent::Fields(second),
    ])
    .unwrap_err();
    assert_eq!(err, BuildError::TooManyFields);
}

#[test]
fn aggregate_budget_rejected_even_when_parts_fit() {
    let description = "d".repeat(4096);
    let fields: Vec<Vec<EmbedFieldComponent>> = (0..25)
        .map(|_| field(&"n".repeat(256), &"v".repeat(1024)))
        .collect();
    let err = build_embed(vec![
        EmbedComponent::Description(description),
        EmbedComponent::Fields(fields),
    ])
    .unwrap_err();
    let total = 4096 + 25 * (256 + 1024);
    assert_eq!(err, BuildError::TotalTooLarge(total));
    assert_eq!(
        err.message(),
        format!(
            "Your embed has {} characters in total. An embed cannot exceed 6000 total characters.",
            total
        )
    );
}

#[test]
fn aggregate_budget_of_6000_accepted() {
    let description = "d".repeat(4096);
    let title = "t".repeat(256);
    let footer_text = "f".repeat(1648);
    let embed = build_embed(vec![
        EmbedComponent::Title(title),
        EmbedComponent::Description(description),
        EmbedComponent::Footer(vec![EmbedFooterComponent::Text(footer_text)]),
    ])
    .unwrap();
    assert_eq!(embed.total_chars(), 6000);
}

#[test]
fn description_cap_is_4096() {
    assert!(build_embed(vec![EmbedComponent::Description("d".repeat(4096))]).is_ok());
    let err = build_embed(vec![EmbedComponent::Description("d".repeat(4097))]).unwrap_err();
    assert_eq!(err, BuildError::DescriptionTooLong(4097));
}

#[test]
fn invalid_url_rejected_with_field_and_value() {
    let err = build_embed(vec![EmbedComponent::Image(String::from("not a url"))]).unwrap_err();
    assert_eq!(
        err,
        BuildError::InvalidUrl { field: String::from("Image URL"), url: String::from("not a url") }
    );
    assert_eq!(err.message(), "Invalid URL provided for Image URL: not a url.");
}

#[test]
fn valid_urls_accepted() {
    let embed = build_embed(vec![
        EmbedComponent::Image(String::from("https://example.com/a.png")),
        EmbedComponent::Thumbnail(String::from("https://example.com/b.png")),
        EmbedComponent::Url(String::from("https://example.com")),
    ])
    .unwrap();
    assert_eq!(embed.image_url, Some(String::from("https://example.com/a.png")));
    assert_eq!(embed.thumbnail_url, Some(String::from("https://example.com/b.png")));
    assert_eq!(embed.url, Some(String::from("https://example.com")));
}

#[test]
fn url_helper_distinguishes_valid_from_invalid() {
    assert!(url("https://example.com", "Embed URL").is_ok());
    assert!(url("://nope", "Embed URL").is_err());
}

#[test]
fn negative_timestamp_rejected() {
    let err = build_embed(vec![EmbedComponent::Timestamp(-5)]).unwrap_err();
    assert_eq!(err, BuildError::NegativeTimestamp(-5));
    assert_eq!(
        err.message(),
        "Invalid embed timestamp (-5) - the timestamp for an embed must be greater than 0."
    );
    let embed = build_embed(vec![EmbedComponent::Timestamp(0)]).unwrap();
    assert_eq!(embed.timestamp, Some(0));
}

#[test]
fn author_requires_some_field() {
    let err = build_author(vec![]).unwrap_err();
    assert_eq!(err, BuildError::EmptyAuthor);
    assert_eq!(err.message(), "An embed cannot have an empty author.");
    let author = build_author(vec![EmbedAuthorComponent::Name(String::from("n"))]).unwrap();
    assert_eq!(author.name, "n");
}

#[test]
fn author_name_cap_and_duplicates() {
    let err = build_author(vec![EmbedAuthorComponent::Name("a".repeat(257))]).unwrap_err();
    assert_eq!(err, BuildError::AuthorNameTooLong(257));
    let err = build_author(vec![
        EmbedAuthorComponent::Name(String::from("a")),
        EmbedAuthorComponent::Name(String::from("b")),
    ])
    .unwrap_err();
    assert_eq!(err, BuildError::DuplicateAuthorName);
}

#[test]
fn footer_requires_some_field() {
    let err = build_footer(vec![]).unwrap_err();
    assert_eq!(err, BuildError::EmptyFooter);
    let footer = build_footer(vec![EmbedFooterComponent::Text(String::from("t"))]).unwrap();
    assert_eq!(footer.text, "t");
}

#[test]
fn footer_text_cap_is_2048() {
    assert!(build_footer(vec![EmbedFooterComponent::Text("t".repeat(2048))]).is_ok());
    let err = build_footer(vec![EmbedFooterComponent::Text("t".repeat(2049))]).unwrap_err();
    assert_eq!(err, BuildError::FooterTextTooLong(2049));
}

#[test]
fn field_requires_name_and_value() {
    let err = build_fields(vec![vec![EmbedFieldComponent::Name(String::from("n"))]]).unwrap_err();
    assert_eq!(err, BuildError::FieldMissingNameOrValue);
    assert_eq!(
        err.message(),
        "All of your embed fields must have both a name and a value."
    );
}

#[test]
fn field_caps_and_duplicates() {
    let err = build_fields(vec![vec![
        EmbedFieldComponent::Name("n".repeat(257)),
        EmbedFieldComponent::Value(String::from("v")),
    ]])
    .unwrap_err();
    assert_eq!(err, BuildError::FieldNameTooLong(257));
    let err = build_fields(vec![vec![
        EmbedFieldComponent::Name(String::from("n")),
        EmbedFieldComponent::Value("v".repeat(1025)),
    ]])
    .unwrap_err();
    assert_eq!(err, BuildError::FieldValueTooLong(1025));
    let err = build_fields(vec![vec![
        EmbedFieldComponent::Name(String::from("n")),
        EmbedFieldComponent::Value(String::from("v")),
        EmbedFieldComponent::Inline(true),
        EmbedFieldComponent::Inline(false),
    ]])
    .unwrap_err();
    assert_eq!(err, BuildError::DuplicateFieldInline);
}

#[test]
fn fields_keep_declaration_order() {
    let built = build_fields(vec![field("a", "1"), field("b", "2")]).unwrap();
    assert_eq!(built.len(), 2);
    assert_eq!(built[0].name, "a");
    assert_eq!(built[0].value, "1");
    assert_eq!(built[0].inline, false);
    assert_eq!(built[1].name, "b");
}

#[test]
fn hex_to_str_pads_to_six_digits() {
    assert_eq!(hex_to_str(0), "000000");
    assert_eq!(hex_to_str(0xFF0000), "ff0000");
    assert_eq!(hex_to_str(0x1000000), "1000000");
    assert_eq!(hex_to_str(i32::MAX), "7fffffff");
    assert_eq!(hex_to_str(-1), "ffffffff");
}

#[test]
fn counted_lengths_are_characters_not_bytes() {
    let title = "é".repeat(256);
    let embed = build_embed(vec![EmbedComponent::Title(title.clone())]).unwrap();
    assert_eq!(embed.title, Some(title));
}

#[test]
fn second_author_footer_timestamp_rejected_not_overwritten() {
    let author = || EmbedComponent::Author(vec![EmbedAuthorComponent::Name(String::from("n"))]);
    let err = build_embed(vec![author(), author()]).unwrap_err();
    assert_eq!(err, BuildError::DuplicateAuthor);
    assert_eq!(err.message(), "You can only have one author for an embed.");
    let footer = || EmbedComponent::Footer(vec![EmbedFooterComponent::Text(String::from("t"))]);
    let err = build_embed(vec![footer(), footer()]).unwrap_err();
    assert_eq!(err, BuildError::DuplicateFooter);
    assert_eq!(err.message(), "You can only have one footer for an embed.");
    let err = build_embed(vec![
        EmbedComponent::Timestamp(1),
        EmbedComponent::Timestamp(2),
    ])
    .unwrap_err();
    assert_eq!(err, BuildError::DuplicateTimestamp);
    assert_eq!(err.message(), "You can only have one timestamp for an embed.");
}

#[test]
fn remaining_duplicate_checks_fire() {
    let err = build_embed(vec![
        EmbedComponent::Description(String::from("a")),
        EmbedComponent::Description(String::from("b")),
    ])
    .unwrap_err();
    assert_eq!(err, BuildError::DuplicateDescription);
    let image = || EmbedComponent::Image(String::from("https://example.com/i.png"));
    assert_eq!(build_embed(vec![image(), image()]).unwrap_err(), BuildError::DuplicateImage);
    let thumb = || EmbedComponent::Thumbnail(String::from("https://example.com/t.png"));
    assert_eq!(build_embed(vec![thumb(), thumb()]).unwrap_err(), BuildError::DuplicateThumbnail);
    let link = || EmbedComponent::Url(String::from("https://example.com"));
    assert_eq!(build_embed(vec![link(), link()]).unwrap_err(), BuildError::DuplicateUrl);
}

#[test]
fn duplicate_author_urls_rejected() {
    let author_url = || EmbedAuthorComponent::Url(String::from("https://example.com"));
    let err = build_author(vec![author_url(), author_url()]).unwrap_err();
    assert_eq!(err, BuildError::DuplicateAuthorUrl);
    let icon = || EmbedAuthorComponent::IconUrl(String::from("https://example.com/i.png"));
    let err = build_author(vec![icon(), icon()]).unwrap_err();
    assert_eq!(err, BuildError::DuplicateAuthorIconUrl);
}

#[test]
fn duplicate_footer_fields_rejected() {
    let text = || EmbedFooterComponent::Text(String::from("t"));
    assert_eq!(build_footer(vec![text(), text()]).unwrap_err(), BuildError::DuplicateFooterText);
    let icon = || EmbedFooterComponent::IconUrl(String::from("https://example.com/i.png"));
    assert_eq!(build_footer(vec![icon(), icon()]).unwrap_err(), BuildError::DuplicateFooterIconUrl);
}

#[test]
fn duplicate_field_name_and_value_rejected() {
    let err = build_fields(vec![vec![
        EmbedFieldComponent::Name(String::from("a")),
        EmbedFieldComponent::Name(String::from("b")),
    ]])
    .unwrap_err();
    assert_eq!(err, BuildError::DuplicateFieldName);
    let err = build_fields(vec![vec![
        EmbedFieldComponent::Value(String::from("a")),
        EmbedFieldComponent::Value(String::from("b")),
    ]])
    .unwrap_err();
    assert_eq!(err, BuildError::DuplicateFieldValue);
}
