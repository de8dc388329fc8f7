use vstd::prelude::*;
use vstd::string::StringExecFns;
use crate::helpers::{chars_to_string, push_dec_digits, spec_dec_digits, spec_hex6};

verus! {

/// A parse error: the input did not match the grammar.
#[derive(Debug, PartialEq)]
pub struct ParseError {
    /// The input position (in characters) where parsing failed.
    pub pos: usize,
    /// The construct that was expected at that position.
    pub expected: &'static str,
}

/// A build error: a parsed component list violates a semantic rule.
#[derive(Debug, PartialEq)]
pub enum BuildError {
    /// A second title in one embed.
    DuplicateTitle,
    /// A title above 256 characters; carries the observed length.
    TitleTooLong(usize),
    /// A second description in one embed.
    DuplicateDescription,
    /// A description above 4096 characters; carries the observed length.
    DescriptionTooLong(usize),
    /// A second colour in one embed.
    DuplicateColour,
    /// A colour above `0xFFFFFF`; carries the observed value.
    ColourTooLarge(i32),
    /// More than 25 fields in one embed.
    TooManyFields,
    /// A second image in one embed.
    DuplicateImage,
    /// A second thumbnail in one embed.
    DuplicateThumbnail,
    /// A second url in one embed.
    DuplicateUrl,
    /// A second author block in one embed.
    DuplicateAuthor,
    /// A second footer block in one embed.
    DuplicateFooter,
    /// A second timestamp in one embed.
    DuplicateTimestamp,
    /// A negative timestamp; carries the observed value.
    NegativeTimestamp(i64),
    /// A string that does not parse as a URL; carries the field name and the value.
    InvalidUrl { field: String, url: String },
    /// An embed whose total character count exceeds 6000; carries the count.
    TotalTooLarge(usize),
    /// A second author name in one embed author.
    DuplicateAuthorName,
    /// An author name above 256 characters; carries the observed length.
    AuthorNameTooLong(usize),
    /// A second url in one embed author.
    DuplicateAuthorUrl,
    /// A second icon url in one embed author.
    DuplicateAuthorIconUrl,
    /// An author block with no name, url or icon url set.
    EmptyAuthor,
    /// A second footer text in one embed footer.
    DuplicateFooterText,
    /// A footer text above 2048 characters; carries the observed length.
    FooterTextTooLong(usize),
    /// A second icon url in one embed footer.
    DuplicateFooterIconUrl,
    /// A footer block with neither text nor icon url set.
    EmptyFooter,
    /// A second name in one embed field.
    DuplicateFieldName,
    /// A field name above 256 characters; carries the observed length.
    FieldNameTooLong(usize),
    /// A second value in one embed field.
    DuplicateFieldValue,
    /// A field value above 1024 characters; carries the observed length.
    FieldValueTooLong(usize),
    /// A second inline flag in one embed field.
    DuplicateFieldInline,
    /// A field missing its name or its value.
    FieldMissingNameOrValue,
    /// A random block with no options.
    EmptyRandom,
    /// A math expression that divides by zero.
    DivisionByZero,
    /// A math expression whose exact value grew beyond what can be computed.
    MathOverflow,
}

/// The mathematical model of a build error.
#[verifier::ext_equal]
pub enum SpecBuildError {
    DuplicateTitle,
    TitleTooLong(int),
    DuplicateDescription,
    DescriptionTooLong(int),
    DuplicateColour,
    ColourTooLarge(int),
    TooManyFields,
    DuplicateImage,
    DuplicateThumbnail,
    DuplicateUrl,
    DuplicateAuthor,
    DuplicateFooter,
    DuplicateTimestamp,
    NegativeTimestamp(int),
    InvalidUrl { field: Seq<char>, url: Seq<char> },
    TotalTooLarge(int),
    DuplicateAuthorName,
    AuthorNameTooLong(int),
    DuplicateAuthorUrl,
    DuplicateAuthorIconUrl,
    EmptyAuthor,
    DuplicateFooterText,
    FooterTextTooLong(int),
    DuplicateFooterIconUrl,
    EmptyFooter,
    DuplicateFieldName,
    FieldNameTooLong(int),
    DuplicateFieldValue,
    FieldValueTooLong(int),
    DuplicateFieldInline,
    FieldMissingNameOrValue,
    EmptyRandom,
    DivisionByZero,
    MathOverflow,
}

impl View for BuildError {
    type V = SpecBuildError;

    open spec fn view(&self) -> SpecBuildError {
        match self {
            BuildError::DuplicateTitle => SpecBuildError::DuplicateTitle,
            BuildError::TitleTooLong(n) => SpecBuildError::TitleTooLong(*n as int),
            BuildError::DuplicateDescription => SpecBuildError::DuplicateDescription,
            BuildError::DescriptionTooLong(n) => SpecBuildError::DescriptionTooLong(*n as int),
            BuildError::DuplicateColour => SpecBuildError::DuplicateColour,
            BuildError::ColourTooLarge(c) => SpecBuildError::ColourTooLarge(*c as int),
            BuildError::TooManyFields => SpecBuildError::TooManyFields,
            BuildError::DuplicateImage => SpecBuildError::DuplicateImage,
            BuildError::DuplicateThumbnail => SpecBuildError::DuplicateThumbnail,
            BuildError::DuplicateUrl => SpecBuildError::DuplicateUrl,
            BuildError::DuplicateAuthor => SpecBuildError::DuplicateAuthor,
            BuildError::DuplicateFooter => SpecBuildError::DuplicateFooter,
            BuildError::DuplicateTimestamp => SpecBuildError::DuplicateTimestamp,
            BuildError::NegativeTimestamp(t) => SpecBuildError::NegativeTimestamp(*t as int),
            BuildError::InvalidUrl { field, url } => SpecBuildError::InvalidUrl {
                field: field@,
                url: url@,
            },
            BuildError::TotalTooLarge(n) => SpecBuildError::TotalTooLarge(*n as int),
            BuildError::DuplicateAuthorName => SpecBuildError::DuplicateAuthorName,
            BuildError::AuthorNameTooLong(n) => SpecBuildError::AuthorNameTooLong(*n as int),
            BuildError::DuplicateAuthorUrl => SpecBuildError::DuplicateAuthorUrl,
            BuildError::DuplicateAuthorIconUrl => SpecBuildError::DuplicateAuthorIconUrl,
            BuildError::EmptyAuthor => SpecBuildError::EmptyAuthor,
            BuildError::DuplicateFooterText => SpecBuildError::DuplicateFooterText,
            BuildError::FooterTextTooLong(n) => SpecBuildError::FooterTextTooLong(*n as int),
            BuildError::DuplicateFooterIconUrl => SpecBuildError::DuplicateFooterIconUrl,
            BuildError::EmptyFooter => SpecBuildError::EmptyFooter,
            BuildError::DuplicateFieldName => SpecBuildError::DuplicateFieldName,
            BuildError::FieldNameTooLong(n) => SpecBuildError::FieldNameTooLong(*n as int),
            BuildError::DuplicateFieldValue => SpecBuildError::DuplicateFieldValue,
            BuildError::FieldValueTooLong(n) => SpecBuildError::FieldValueTooLong(*n as int),
            BuildError::DuplicateFieldInline => SpecBuildError::DuplicateFieldInline,
            BuildError::FieldMissingNameOrValue => SpecBuildError::FieldMissingNameOrValue,
            BuildError::EmptyRandom => SpecBuildError::EmptyRandom,
            BuildError::DivisionByZero => SpecBuildError::DivisionByZero,
            BuildError::MathOverflow => SpecBuildError::MathOverflow,
        }
    }
}

/// The signed decimal digit string of a number.
pub open spec fn spec_int_digits(n: int) -> Seq<char> {
    if n < 0 {
        seq!['-'] + spec_dec_digits(-n)
    } else {
        spec_dec_digits(n)
    }
}

/// The human-readable sentence for a build error.
pub open spec fn spec_message(e: BuildError) -> Seq<char> {
    match e {
        BuildError::DuplicateTitle => "You can only have one title for an embed."@,
        BuildError::TitleTooLong(n) => "The length of your title ("@ + spec_dec_digits(n as int)
            + ") is above the maximum of 256 characters."@,
        BuildError::DuplicateDescription => "You can only have one description for an embed."@,
        BuildError::DescriptionTooLong(n) => "The length of your description ("@ + spec_dec_digits(
            n as int,
        ) + ") is above the maximum of 4096 characters."@,
        BuildError::DuplicateColour => "You can only set the colour for an embed once."@,
        BuildError::ColourTooLarge(c) => "Your colour value (#"@ + spec_hex6((c as u32) as int)
            + ") is greater than the limit of #FFFFFF."@,
        BuildError::TooManyFields => "An embed can only have a maximum of 25 fields."@,
        BuildError::DuplicateImage => "You can only have one image for an embed."@,
        BuildError::DuplicateThumbnail => "You can only have one thumbnail for an embed."@,
        BuildError::DuplicateUrl => "You can only have one url for an embed."@,
        BuildError::DuplicateAuthor => "You can only have one author for an embed."@,
        BuildError::DuplicateFooter => "You can only have one footer for an embed."@,
        BuildError::DuplicateTimestamp => "You can only have one timestamp for an embed."@,
        BuildError::NegativeTimestamp(t) => "Invalid embed timestamp ("@ + spec_int_digits(t as int)
            + ") - the timestamp for an embed must be greater than 0."@,
        BuildError::InvalidUrl { field, url } => "Invalid URL provided for "@ + field@ + ": "@
            + url@ + "."@,
        BuildError::TotalTooLarge(n) => "Your embed has "@ + spec_dec_digits(n as int)
            + " characters in total. An embed cannot exceed 6000 total characters."@,
        BuildError::DuplicateAuthorName => "You can only have one author name for an embed."@,
        BuildError::AuthorNameTooLong(n) => "The length of your author name ("@ + spec_dec_digits(
            n as int,
        ) + ") is above the maximum of 256 characters."@,
        BuildError::DuplicateAuthorUrl => "You can only have one url for an embed author."@,
        BuildError::DuplicateAuthorIconUrl => "You can only have one icon url for an embed author."@,
        BuildError::EmptyAuthor => "An embed cannot have an empty author."@,
        BuildError::DuplicateFooterText => "You can only have one footer text for an embed."@,
        BuildError::FooterTextTooLong(n) => "The length of your footer text ("@ + spec_dec_digits(
            n as int,
        ) + ") is above the maximum of 2048 characters."@,
        BuildError::DuplicateFooterIconUrl => "You can only have one icon url for an embed footer."@,
        BuildError::EmptyFooter => "An embed cannot have an empty footer."@,
        BuildError::DuplicateFieldName => "You can only have one field name per embed field."@,
        BuildError::FieldNameTooLong(n) => "The length of one of your field names ("@
            + spec_dec_digits(n as int) + ") is above the maximum of 256 characters."@,
        BuildError::DuplicateFieldValue => "You can only have one field value per embed field."@,
        BuildError::FieldValueTooLong(n) => "The length of one of your field values ("@
            + spec_dec_digits(n as int) + ") is above the maximum of 1024 characters."@,
        BuildError::DuplicateFieldInline => "You can only set inline once per embed field."@,
        BuildError::FieldMissingNameOrValue => "All of your embed fields must have both a name and a value."@,
        BuildError::EmptyRandom => "A random block must contain at least one option."@,
        BuildError::DivisionByZero => "A math expression cannot divide by zero."@,
        BuildError::MathOverflow => "A math expression produced a number that is too large."@,
    }
}

/// Append a number's signed decimal digit string to a string.
fn append_int_digits(s: &mut String, n: i64)
    ensures
        final(s)@ == old(s)@ + spec_int_digits(n as int),
{
    let mut digits: Vec<char> = Vec::new();
    if n < 0 {
        digits.push('-');
        let magnitude: u64 = ((-(n + 1)) as u64) + 1;
        proof {
            assert(digits@ =~= seq!['-']);
        }
        push_dec_digits(magnitude, &mut digits);
    } else {
        push_dec_digits(n as u64, &mut digits);
    }
    let tail = chars_to_string(&digits);
    s.append(tail.as_str());
    proof {
        assert(s@ =~= old(s)@ + spec_int_digits(n as int));
    }
}

/// Append a non-negative number's decimal digit string to a string.
fn append_dec_digits(s: &mut String, n: u64)
    ensures
        final(s)@ == old(s)@ + spec_dec_digits(n as int),
{
    let mut digits: Vec<char> = Vec::new();
    push_dec_digits(n, &mut digits);
    let tail = chars_to_string(&digits);
    s.append(tail.as_str());
}

impl BuildError {
    /// The human-readable sentence for this build error.
    pub fn message(&self) -> (r: String)
        ensures
            r@ == spec_message(*self),
    {
        let r: String = match self {
            BuildError::DuplicateTitle => String::from_str(
                "You can only have one title for an embed.",
            ),
            BuildError::TitleTooLong(n) => {
                let mut s = String::from_str("The length of your title (");
                append_dec_digits(&mut s, *n as u64);
                s.append(") is above the maximum of 256 characters.");
                s
            },
            BuildError::DuplicateDescription => String::from_str(
                "You can only have one description for an embed.",
            ),
            BuildError::DescriptionTooLong(n) => {
                let mut s = String::from_str("The length of your description (");
                append_dec_digits(&mut s, *n as u64);
                s.append(") is above the maximum of 4096 characters.");
                s
            },
            BuildError::DuplicateColour => String::from_str(
                "You can only set the colour for an embed once.",
            ),
            BuildError::ColourTooLarge(c) => {
                let mut s = String::from_str("Your colour value (#");
                let hex = crate::helpers::hex_to_str(*c);
                s.append(hex.as_str());
                s.append(") is greater than the limit of #FFFFFF.");
                s
            },
            BuildError::TooManyFields => String::from_str(
                "An embed can only have a maximum of 25 fields.",
            ),
            BuildError::DuplicateImage => String::from_str(
                "You can only have one image for an embed.",
            ),
            BuildError::DuplicateThumbnail => String::from_str(
                "You can only have one thumbnail for an embed.",
            ),
            BuildError::DuplicateUrl => String::from_str("You can only have one url for an embed."),
            BuildError::DuplicateAuthor => String::from_str(
                "You can only have one author for an embed.",
            ),
            BuildError::DuplicateFooter => String::from_str(
                "You can only have one footer for an embed.",
            ),
            BuildError::DuplicateTimestamp => String::from_str(
                "You can only have one timestamp for an embed.",
            ),
            BuildError::NegativeTimestamp(t) => {
                let mut s = String::from_str("Invalid embed timestamp (");
                append_int_digits(&mut s, *t);
                s.append(") - the timestamp for an embed must be greater than 0.");
                s
            },
            BuildError::InvalidUrl { field, url } => {
                let mut s = String::from_str("Invalid URL provided for ");
                s.append(field.as_str());
                s.append(": ");
                s.append(url.as_str());
                s.append(".");
                s
            },
            BuildError::TotalTooLarge(n) => {
                let mut s = String::from_str("Your embed has ");
                append_dec_digits(&mut s, *n as u64);
                s.append(" characters in total. An embed cannot exceed 6000 total characters.");
                s
            },
            BuildError::DuplicateAuthorName => String::from_str(
                "You can only have one author name for an embed.",
            ),
            BuildError::AuthorNameTooLong(n) => {
                let mut s = String::from_str("The length of your author name (");
                append_dec_digits(&mut s, *n as u64);
                s.append(") is above the maximum of 256 characters.");
                s
            },
            BuildError::DuplicateAuthorUrl => String::from_str(
                "You can only have one url for an embed author.",
            ),
            BuildError::DuplicateAuthorIconUrl => String::from_str(
                "You can only have one icon url for an embed author.",
            ),
            BuildError::EmptyAuthor => String::from_str("An embed cannot have an empty author."),
            BuildError::DuplicateFooterText => String::from_str(
                "You can only have one footer text for an embed.",
            ),
            BuildError::FooterTextTooLong(n) => {
                let mut s = String::from_str("The length of your footer text (");
                append_dec_digits(&mut s, *n as u64);
                s.append(") is above the maximum of 2048 characters.");
                s
            },
            BuildError::DuplicateFooterIconUrl => String::from_str(
                "You can only have one icon url for an embed footer.",
            ),
            BuildError::EmptyFooter => String::from_str("An embed cannot have an empty footer."),
            BuildError::DuplicateFieldName => String::from_str(
                "You can only have one field name per embed field.",
            ),
            BuildError::FieldNameTooLong(n) => {
                let mut s = String::from_str("The length of one of your field names (");
                append_dec_digits(&mut s, *n as u64);
                s.append(") is above the maximum of 256 characters.");
                s
            },
            BuildError::DuplicateFieldValue => String::from_str(
                "You can only have one field value per embed field.",
            ),
            BuildError::FieldValueTooLong(n) => {
                let mut s = String::from_str("The length of one of your field values (");
                append_dec_digits(&mut s, *n as u64);
                s.append(") is above the maximum of 1024 characters.");
                s
            },
            BuildError::DuplicateFieldInline => String::from_str(
                "You can only set inline once per embed field.",
            ),
            BuildError::FieldMissingNameOrValue => String::from_str(
                "All of your embed fields must have both a name and a value.",
            ),
            BuildError::EmptyRandom => String::from_str(
                "A random block must contain at least one option.",
            ),
            BuildError::DivisionByZero => String::from_str(
                "A math expression cannot divide by zero.",
            ),
            BuildError::MathOverflow => String::from_str(
                "A math expression produced a number that is too large.",
            ),
        };
        proof {
            assert(r@ =~= spec_message(*self));
        }
        r
    }
}

} // verus!
