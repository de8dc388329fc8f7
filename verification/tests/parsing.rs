use veascript::enums::{
    EmbedAuthorComponent, EmbedComponent, EmbedFieldComponent, EmbedFooterComponent, Expr, MathExpr,
};
use veascript::parse_veascript;
use veascript::parsers::boolean::parse_bool;
use veascript::parsers::decimal::{int32, int64};
use veascript::parsers::hexadecimal::hexadecimal;
use veascript::parsers::math::parse_math;
use veascript::parsers::string::parse_string;
use veascript::parsers::text::parse_text;

fn chars(s: &str) -> Vec<char> {
    s.chars().collect()
}

#[test]
fn string_literal_verbatim() {
    let input = chars("  \"hello world\"  ");
    let (value, pos) = parse_string(&input, 0).unwrap();
    assert_eq!(value, "hello world");
    assert_eq!(pos, input.len());
}

#[test]
fn string_literal_rejects_backslash() {
    let input = chars("\"a\\b\"");
    assert!(parse_string(&input, 0).is_err());
}

#[test]
fn string_literal_requires_closing_quote() {
    let input = chars("\"abc");
    assert!(parse_string(&input, 0).is_err());
}

#[test]
fn boolean_literals() {
    assert_eq!(parse_bool(&chars(" true "), 0).unwrap().0, true);
    assert_eq!(parse_bool(&chars("false"), 0).unwrap().0, false);
    assert!(parse_bool(&chars("True"), 0).is_err());
}

#[test]
fn decimal_integers() {
    assert_eq!(int32(&chars(" 42 "), 0).unwrap().0, 42);
    assert_eq!(int64(&chars("123456789012"), 0).unwrap().0, 123456789012);
    assert_eq!(int32(&chars("007"), 0).unwrap().0, 7);
    assert_eq!(int32(&chars("2147483647"), 0).unwrap().0, i32::MAX);
    assert!(int32(&chars("2147483648"), 0).is_err());
    assert!(int32(&chars("x"), 0).is_err());
}

#[test]
fn hexadecimal_values() {
    assert_eq!(hexadecimal(&chars("0xFF"), 0).unwrap().0, 255);
    assert_eq!(hexadecimal(&chars("#ff00aa"), 0).unwrap().0, 0xff00aa);
    assert_eq!(hexadecimal(&chars("#FFFFFF"), 0).unwrap().0, 0xFFFFFF);
    assert_eq!(hexadecimal(&chars("#1000000"), 0).unwrap().0, 0x1000000);
    assert!(hexadecimal(&chars("ff"), 0).is_err());
    assert!(hexadecimal(&chars("#"), 0).is_err());
    assert!(hexadecimal(&chars("#FFFFFFFF"), 0).is_err());
}

#[test]
fn text_block_plain() {
    let input = chars("#text {Result: }");
    let (value, pos) = parse_text(&input, 0).unwrap();
    assert_eq!(value, "Result: ");
    assert_eq!(pos, input.len());
}

#[test]
fn text_block_escapes() {
    let input = chars("#text {a\\nb\\tc\\\\d\\\"e\\/f\\bg\\fh\\ri}");
    let (value, _) = parse_text(&input, 0).unwrap();
    assert_eq!(value, "a\nb\tc\\d\"e/f\u{8}g\u{c}h\ri");
}

#[test]
fn text_block_unicode_escape() {
    let input = chars("#text {\\u0041\\u00e9}");
    let (value, _) = parse_text(&input, 0).unwrap();
    assert_eq!(value, "Aé");
}

#[test]
fn text_block_surrogate_becomes_replacement() {
    let input = chars("#text {\\uD800}");
    let (value, _) = parse_text(&input, 0).unwrap();
    assert_eq!(value, "\u{FFFD}");
}

#[test]
fn text_block_bad_escape_fails() {
    assert!(parse_text(&chars("#text {\\q}"), 0).is_err());
    assert!(parse_text(&chars("#text {\\u12}"), 0).is_err());
    assert!(parse_text(&chars("#text {abc"), 0).is_err());
}

#[test]
fn math_precedence_tree() {
    let input = chars("2+3*4");
    let (expr, pos) = parse_math(&input, 0).unwrap();
    assert_eq!(pos, input.len());
    assert_eq!(
        expr,
        MathExpr::Add(
            Box::new(MathExpr::Num(2)),
            Box::new(MathExpr::Mul(Box::new(MathExpr::Num(3)), Box::new(MathExpr::Num(4)))),
        )
    );
}

#[test]
fn math_parentheses_and_negation() {
    let input = chars("-(2+3)");
    let (expr, _) = parse_math(&input, 0).unwrap();
    assert_eq!(
        expr,
        MathExpr::Neg(Box::new(MathExpr::Add(
            Box::new(MathExpr::Num(2)),
            Box::new(MathExpr::Num(3)),
        )))
    );
}

#[test]
fn math_left_associative_subtraction() {
    let input = chars("10-3-2");
    let (expr, _) = parse_math(&input, 0).unwrap();
    assert_eq!(
        expr,
        MathExpr::Sub(
            Box::new(MathExpr::Sub(Box::new(MathExpr::Num(10)), Box::new(MathExpr::Num(3)))),
            Box::new(MathExpr::Num(2)),
        )
    );
}

#[test]
fn math_unmatched_parenthesis_fails() {
    assert!(parse_math(&chars("(1+2"), 0).is_err());
}

#[test]
fn script_empty_input() {
    let exprs = parse_veascript(&chars("")).unwrap();
    assert!(exprs.is_empty());
    let exprs = parse_veascript(&chars("   \n\t ")).unwrap();
    assert!(exprs.is_empty());
}

#[test]
fn script_rejects_garbage() {
    assert!(parse_veascript(&chars("hello")).is_err());
    assert!(parse_veascript(&chars("#text {a} trailing")).is_err());
}

#[test]
fn script_random_block() {
    let exprs = parse_veascript(&chars("#random { \"a\", \"b\" }")).unwrap();
    assert_eq!(
        exprs,
        vec![Expr::Random(vec![String::from("a"), String::from("b")])]
    );
    let exprs = parse_veascript(&chars("#random {}")).unwrap();
    assert_eq!(exprs, vec![Expr::Random(vec![])]);
    assert!(parse_veascript(&chars("#random { \"a\", }")).is_err());
}

#[test]
fn script_embed_block() {
    let src = "#embed { #title: \"Hi\", #colour: #FF0000, }";
    let exprs = parse_veascript(&chars(src)).unwrap();
    assert_eq!(
        exprs,
        vec![Expr::Embed(vec![
            EmbedComponent::Title(String::from("Hi")),
            EmbedComponent::Colour(0xFF0000),
        ])]
    );
}

#[test]
fn script_embed_nested_blocks() {
    let src = "#embed {\n  #description: \"d\",\n  #author { #name: \"n\", #icon_url: \"https://example.com/i.png\", }\n  #footer { #text: \"f\", }\n  #fields { #field { #name: \"k\", #value: \"v\", #inline: true, } }\n  #timestamp: 12345,\n}";
    let exprs = parse_veascript(&chars(src)).unwrap();
    assert_eq!(
        exprs,
        vec![Expr::Embed(vec![
            EmbedComponent::Description(String::from("d")),
            EmbedComponent::Author(vec![
                EmbedAuthorComponent::Name(String::from("n")),
                EmbedAuthorComponent::IconUrl(String::from("https://example.com/i.png")),
            ]),
            EmbedComponent::Footer(vec![EmbedFooterComponent::Text(String::from("f"))]),
            EmbedComponent::Fields(vec![vec![
                EmbedFieldComponent::Name(String::from("k")),
                EmbedFieldComponent::Value(String::from("v")),
                EmbedFieldComponent::Inline(true),
            ]]),
            EmbedComponent::Timestamp(12345),
        ])]
    );
}

#[test]
fn script_leaf_requires_trailing_comma() {
    assert!(parse_veascript(&chars("#embed { #title: \"Hi\" }")).is_err());
}

#[test]
fn parsing_same_script_twice_gives_equal_asts() {
    let src = "#text {x}#math {1+2*3}#random { \"a\" }#embed { #title: \"t\", }";
    let first = parse_veascript(&chars(src)).unwrap();
    let second = parse_veascript(&chars(src)).unwrap();
    assert_eq!(first, second);
}

#[test]
fn mixed_script_order_preserved() {
    let exprs = parse_veascript(&chars("#text {a} #math {1} #text {b}")).unwrap();
    assert_eq!(exprs.len(), 3);
    assert_eq!(exprs[0], Expr::Text(String::from("a")));
    assert_eq!(exprs[1], Expr::Math(MathExpr::Num(1)));
    assert_eq!(exprs[2], Expr::Text(String::from("b")));
}
