use veascript::builders::build_embed;
use veascript::enums::{
    EmbedAuthorComponent, EmbedComponent, EmbedFieldComponent, EmbedFooterComponent, Expr,
};
use veascript::parse_veascript;
use veascript::render::embed_to_script;
use veascript::StoredEmbed;

fn reparse_and_rebuild(embed: &StoredEmbed) -> StoredEmbed {
    let script = embed_to_script(embed);
    let chars: Vec<char> = script.chars().collect();
    let exprs = parse_veascript(&chars).unwrap();
    assert_eq!(exprs.len(), 1);
    let components = match exprs.into_iter().next().unwrap() {
        Expr::Embed(cs) => cs,
        _ => panic!("expected an embed expression"),
    };
    build_embed(components).unwrap()
}

#[test]
fn round_trip_minimal_embed() {
    let embed = build_embed(vec![EmbedComponent::Title(String::from("Hi"))]).unwrap();
    assert_eq!(reparse_and_rebuild(&embed), embed);
}

#[test]
fn round_trip_empty_embed() {
    let embed = build_embed(vec![]).unwrap();
    assert_eq!(reparse_and_rebuild(&embed), embed);
}

#[test]
fn round_trip_preserves_every_set_field() {
    let embed = build_embed(vec![
        EmbedComponent::Author(vec![
            EmbedAuthorComponent::Name(String::from("author name")),
            EmbedAuthorComponent::Url(String::from("https://example.com/author")),
            EmbedAuthorComponent::IconUrl(String::from("https://example.com/icon.png")),
        ]),
        EmbedComponent::Title(String::from("a title")),
        EmbedComponent::Description(String::from("a description")),
        EmbedComponent::Colour(0xFF00AA),
        EmbedComponent::Url(String::from("https://example.com")),
        EmbedComponent::Fields(vec![
            vec![
                EmbedFieldComponent::Name(String::from("first")),
                EmbedFieldComponent::Value(String::from("1")),
                EmbedFieldComponent::Inline(true),
            ],
            vec![
                EmbedFieldComponent::Name(String::from("second")),
                EmbedFieldComponent::Value(String::from("2")),
            ],
        ]),
        EmbedComponent::Image(String::from("https://example.com/image.png")),
        EmbedComponent::Thumbnail(String::from("https://example.com/thumb.png")),
        EmbedComponent::Footer(vec![
            EmbedFooterComponent::Text(String::from("footer text")),
            EmbedFooterComponent::IconUrl(String::from("https://example.com/f.png")),
        ]),
        EmbedComponent::Timestamp(1700000000),
    ])
    .unwrap();
    assert_eq!(reparse_and_rebuild(&embed), embed);
}

#[test]
fn round_trip_from_parsed_script() {
    let src = "#embed {\n  #title: \"Hello\",\n  #colour: #00FF00,\n  #fields { #field { #name: \"k\", #value: \"v\", } }\n}";
    let chars: Vec<char> = src.chars().collect();
    let exprs = parse_veascript(&chars).unwrap();
    let components = match exprs.into_iter().next().unwrap() {
        Expr::Embed(cs) => cs,
        _ => panic!("expected an embed expression"),
    };
    let embed = build_embed(components).unwrap();
    assert_eq!(reparse_and_rebuild(&embed), embed);
}

#[test]
fn rendered_form_is_script_text() {
    let embed = build_embed(vec![EmbedComponent::Title(String::from("Hi"))]).unwrap();
    let script = embed_to_script(&embed);
    assert!(script.starts_with("#embed { "));
    assert!(script.contains("#title: \"Hi\", "));
    assert!(script.ends_with("}"));
}
