use veascript::builders::build_embed;
use veascript::enums::{EmbedComponent, Expr, MathExpr};
use veascript::errors::BuildError;
use veascript::runners::{eval, render_rational, Rational};
use veascript::{build_veascript, parse_veascript};

fn chars(s: &str) -> Vec<char> {
    s.chars().collect()
}

fn run(src: &str) -> Result<veascript::VeaScriptOutput, BuildError> {
    let script = parse_veascript(&chars(src)).unwrap();
    build_veascript(script)
}

#[test]
fn text_and_math_produce_result_14() {
    let output = run("#text {Result: }#math {2+3*4}").unwrap();
    assert_eq!(output.content, "Result: 14");
    assert!(output.embeds.is_empty());
}

#[test]
fn embed_with_title_and_colour() {
    let output = run("#embed { #title: \"Hi\", #colour: #FF0000, }").unwrap();
    assert_eq!(output.content, "");
    assert_eq!(output.embeds.len(), 1);
    let embed = &output.embeds[0];
    assert_eq!(embed.title, Some(String::from("Hi")));
    assert_eq!(embed.colour, 16711680);
    assert_eq!(embed.author, None);
    assert_eq!(embed.url, None);
    assert_eq!(embed.description, None);
    assert!(embed.fields.is_empty());
    assert_eq!(embed.image_url, None);
    assert_eq!(embed.thumbnail_url, None);
    assert_eq!(embed.footer, None);
    assert_eq!(embed.timestamp, None);
}

#[test]
fn eval_standard_precedence() {
    let script = parse_veascript(&chars("#math {2+3*4}")).unwrap();
    let expr = match &script[0] {
        Expr::Math(m) => m,
        _ => panic!("expected a math expression"),
    };
    let rat = eval(expr).unwrap();
    assert_eq!(render_rational(&rat), "14");
}

#[test]
fn eval_negated_group() {
    let output = run("#math {-(2+3)}").unwrap();
    assert_eq!(output.content, "-5");
}

#[test]
fn eval_fractional_division() {
    let output = run("#math {10/4}").unwrap();
    assert_eq!(output.content, "2.5");
}

#[test]
fn eval_non_terminating_fraction_truncates() {
    let output = run("#math {1/3}").unwrap();
    assert_eq!(output.content, "0.3333333333333333");
}

#[test]
fn eval_division_by_zero_is_build_error() {
    let err = run("#math {1/0}").unwrap_err();
    assert_eq!(err, BuildError::DivisionByZero);
    assert_eq!(err.message(), "A math expression cannot divide by zero.");
}

#[test]
fn eval_double_negation() {
    let output = run("#math {--7}").unwrap();
    assert_eq!(output.content, "7");
}

#[test]
fn render_rational_forms() {
    assert_eq!(render_rational(&Rational { num: 0, den: 1 }), "0");
    assert_eq!(render_rational(&Rational { num: -1, den: 2 }), "-0.5");
    assert_eq!(render_rational(&Rational { num: 14, den: 1 }), "14");
    assert_eq!(render_rational(&Rational { num: 10, den: 4 }), "2.5");
}

#[test]
fn random_with_single_option_is_deterministic() {
    let output = run("#random { \"only\" }").unwrap();
    assert_eq!(output.content, "only");
}

#[test]
fn random_choice_is_one_of_the_options() {
    let output = run("#random { \"a\", \"b\", \"c\" }").unwrap();
    assert!(output.content == "a" || output.content == "b" || output.content == "c");
}

#[test]
fn empty_random_block_is_build_error() {
    let err = run("#random {}").unwrap_err();
    assert_eq!(err, BuildError::EmptyRandom);
    assert_eq!(err.message(), "A random block must contain at least one option.");
}

#[test]
fn script_output_order_is_source_order() {
    let output = run("#text {a}#math {1+1}#text {b}").unwrap();
    assert_eq!(output.content, "a2b");
}

#[test]
fn two_embeds_in_order() {
    let output = run("#embed { #title: \"one\", } #embed { #title: \"two\", }").unwrap();
    assert_eq!(output.embeds.len(), 2);
    assert_eq!(output.embeds[0].title, Some(String::from("one")));
    assert_eq!(output.embeds[1].title, Some(String::from("two")));
}

#[test]
fn embed_error_stops_whole_compilation() {
    let err = run("#text {ok} #embed { #title: \"a\", #title: \"b\", }").unwrap_err();
    assert_eq!(err, BuildError::DuplicateTitle);
}

#[test]
fn full_script_round() {
    let src = "#text {Welcome! }#math {(1+2)*3}#embed {\n  #title: \"Greetings\",\n  #description: \"hello\",\n  #colour: 255,\n  #url: \"https://example.com\",\n  #timestamp: 1700000000,\n}";
    let output = run(src).unwrap();
    assert_eq!(output.content, "Welcome! 9");
    assert_eq!(output.embeds.len(), 1);
    let embed = &output.embeds[0];
    assert_eq!(embed.title, Some(String::from("Greetings")));
    assert_eq!(embed.description, Some(String::from("hello")));
    assert_eq!(embed.colour, 255);
    assert_eq!(embed.url, Some(String::from("https://example.com")));
    assert_eq!(embed.timestamp, Some(1700000000));
}

#[test]
fn parsed_embed_components_build_like_direct_components() {
    let script = parse_veascript(&chars("#embed { #title: \"Hi\", #colour: #FF0000, }")).unwrap();
    let components = match script.into_iter().next().unwrap() {
        Expr::Embed(cs) => cs,
        _ => panic!("expected an embed expression"),
    };
    let from_script = build_embed(components).unwrap();
    let direct = build_embed(vec![
        EmbedComponent::Title(String::from("Hi")),
        EmbedComponent::Colour(0xFF0000),
    ])
    .unwrap();
    assert_eq!(from_script, direct);
}

#[test]
fn math_expr_structure_survives_evaluation() {
    let expr = MathExpr::Div(
        Box::new(MathExpr::Num(1)),
        Box::new(MathExpr::Neg(Box::new(MathExpr::Num(4)))),
    );
    let rat = eval(&expr).unwrap();
    assert!(rat.den > 0);
    assert_eq!(render_rational(&rat), "-0.25");
}

#[test]
fn eval_overflow_is_build_error() {
    let big = MathExpr::Num(i64::MAX);
    let square = MathExpr::Mul(Box::new(big), Box::new(MathExpr::Num(i64::MAX)));
    let cube = MathExpr::Mul(Box::new(square), Box::new(MathExpr::Num(i64::MAX)));
    let err = eval(&cube).unwrap_err();
    assert_eq!(err, BuildError::MathOverflow);
    assert_eq!(
        err.message(),
        "A math expression produced a number that is too large."
    );
}
