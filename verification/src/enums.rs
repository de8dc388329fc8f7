use vstd::prelude::*;

verus! {

/// A script expression: one top-level node of a parsed script.
#[derive(Debug, PartialEq)]
pub enum Expr {
    /// A literal text span.
    Text(String),
    /// An arithmetic expression.
    Math(MathExpr),
    /// A random-choice list of strings, in source order.
    Random(Vec<String>),
    /// An attachment block, as an ordered component list.
    Embed(Vec<EmbedComponent>),
}

/// An arithmetic expression tree.
#[derive(Debug, PartialEq)]
pub enum MathExpr {
    /// An integer literal.
    Num(i64),
    /// Unary negation of a sub-expression.
    Neg(Box<MathExpr>),
    /// Addition of two sub-expressions.
    Add(Box<MathExpr>, Box<MathExpr>),
    /// Subtraction of one sub-expression from another.
    Sub(Box<MathExpr>, Box<MathExpr>),
    /// Multiplication of two sub-expressions.
    Mul(Box<MathExpr>, Box<MathExpr>),
    /// Division of two sub-expressions.
    Div(Box<MathExpr>, Box<MathExpr>),
}

/// An embed component: one entry of an embed block.
#[derive(Debug, PartialEq)]
pub enum EmbedComponent {
    Author(Vec<EmbedAuthorComponent>),
    Title(String),
    Description(String),
    Colour(i32),
    Fields(Vec<Vec<EmbedFieldComponent>>),
    Image(String),
    Thumbnail(String),
    Url(String),
    Footer(Vec<EmbedFooterComponent>),
    Timestamp(i64),
}

/// An embed author component.
#[derive(Debug, PartialEq)]
pub enum EmbedAuthorComponent {
    Name(String),
    Url(String),
    IconUrl(String),
}

/// An embed footer component.
#[derive(Debug, PartialEq)]
pub enum EmbedFooterComponent {
    Text(String),
    IconUrl(String),
}

/// An embed field component.
#[derive(Debug, PartialEq)]
pub enum EmbedFieldComponent {
    Name(String),
    Value(String),
    Inline(bool),
}

/// The view of a sequence of viewable values: each element's view, in order.
pub open spec fn seq_view<T: View>(s: Seq<T>) -> Seq<T::V> {
    s.map_values(|t: T| t@)
}

/// The view of a list of field-component lists.
pub open spec fn field_lists_view(fss: Seq<Vec<EmbedFieldComponent>>) -> Seq<Seq<SpecFieldComponent>> {
    fss.map_values(|fs: Vec<EmbedFieldComponent>| seq_view(fs@))
}

/// The mathematical model of a script expression.
#[verifier::ext_equal]
pub enum SpecExpr {
    Text(Seq<char>),
    Math(MathExpr),
    Random(Seq<Seq<char>>),
    Embed(Seq<SpecComponent>),
}

/// The mathematical model of an embed component.
#[verifier::ext_equal]
pub enum SpecComponent {
    Author(Seq<SpecAuthorComponent>),
    Title(Seq<char>),
    Description(Seq<char>),
    Colour(int),
    Fields(Seq<Seq<SpecFieldComponent>>),
    Image(Seq<char>),
    Thumbnail(Seq<char>),
    Url(Seq<char>),
    Footer(Seq<SpecFooterComponent>),
    Timestamp(int),
}

/// The mathematical model of an embed author component.
#[verifier::ext_equal]
pub enum SpecAuthorComponent {
    Name(Seq<char>),
    Url(Seq<char>),
    IconUrl(Seq<char>),
}

/// The mathematical model of an embed footer component.
#[verifier::ext_equal]
pub enum SpecFooterComponent {
    Text(Seq<char>),
    IconUrl(Seq<char>),
}

/// The mathematical model of an embed field component.
#[verifier::ext_equal]
pub enum SpecFieldComponent {
    Name(Seq<char>),
    Value(Seq<char>),
    Inline(bool),
}

impl View for EmbedAuthorComponent {
    type V = SpecAuthorComponent;

    open spec fn view(&self) -> SpecAuthorComponent {
        match self {
            EmbedAuthorComponent::Name(s) => SpecAuthorComponent::Name(s@),
            EmbedAuthorComponent::Url(s) => SpecAuthorComponent::Url(s@),
            EmbedAuthorComponent::IconUrl(s) => SpecAuthorComponent::IconUrl(s@),
        }
    }
}

impl View for EmbedFooterComponent {
    type V = SpecFooterComponent;

    open spec fn view(&self) -> SpecFooterComponent {
        match self {
            EmbedFooterComponent::Text(s) => SpecFooterComponent::Text(s@),
            EmbedFooterComponent::IconUrl(s) => SpecFooterComponent::IconUrl(s@),
        }
    }
}

impl View for EmbedFieldComponent {
    type V = SpecFieldComponent;

    open spec fn view(&self) -> SpecFieldComponent {
        match self {
            EmbedFieldComponent::Name(s) => SpecFieldComponent::Name(s@),
            EmbedFieldComponent::Value(s) => SpecFieldComponent::Value(s@),
            EmbedFieldComponent::Inline(b) => SpecFieldComponent::Inline(*b),
        }
    }
}

impl View for EmbedComponent {
    type V = SpecComponent;

    open spec fn view(&self) -> SpecComponent {
        match self {
            EmbedComponent::Author(cs) => SpecComponent::Author(seq_view(cs@)),
            EmbedComponent::Title(s) => SpecComponent::Title(s@),
            EmbedComponent::Description(s) => SpecComponent::Description(s@),
            EmbedComponent::Colour(c) => SpecComponent::Colour(*c as int),
            EmbedComponent::Fields(fss) => SpecComponent::Fields(field_lists_view(fss@)),
            EmbedComponent::Image(s) => SpecComponent::Image(s@),
            EmbedComponent::Thumbnail(s) => SpecComponent::Thumbnail(s@),
            EmbedComponent::Url(s) => SpecComponent::Url(s@),
            EmbedComponent::Footer(cs) => SpecComponent::Footer(seq_view(cs@)),
            EmbedComponent::Timestamp(t) => SpecComponent::Timestamp(*t as int),
        }
    }
}

impl View for Expr {
    type V = SpecExpr;

    open spec fn view(&self) -> SpecExpr {
        match self {
            Expr::Text(s) => SpecExpr::Text(s@),
            Expr::Math(m) => SpecExpr::Math(*m),
            Expr::Random(options) => SpecExpr::Random(options@.map_values(|s: String| s@)),
            Expr::Embed(cs) => SpecExpr::Embed(seq_view(cs@)),
        }
    }
}

} // verus!
