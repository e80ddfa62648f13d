//! What can be wrong with the dictionary text of a header.

use vstd::prelude::*;

verus! {

/// `std::str::Utf8Error`, which says where a byte sequence stops being
/// UTF-8. Nothing is known of what it holds.
#[verifier::external_type_specification]
#[verifier::external_body]
pub struct ExUtf8Error(std::str::Utf8Error);

/// Why a piece of text is not the decimal numeral of a dimension.
#[derive(Debug, Clone, Copy, PartialEq, Eq, Structural)]
pub enum IntErrorKind {
    /// There is no text at all.
    Empty,
    /// A character that is not a digit, or a sign with nothing behind it.
    InvalidDigit,
    /// The digits count for more than a `usize` holds.
    PosOverflow,
}

/// A dimension that could not be read.
#[derive(Debug, Clone, Copy, PartialEq, Eq, Structural)]
pub struct ParseIntError {
    pub kind: IntErrorKind,
}

impl ParseIntError {
    /// Why the dimension could not be read.
    pub fn kind(&self) -> (kind: &IntErrorKind)
        ensures
            *kind == self.kind,
    {
        &self.kind
    }
}

/// Why a dictionary could not be read.
#[derive(Debug, PartialEq)]
pub enum ParseError {
    /// The bytes are no UTF-8 text.
    InvalidUTF8(std::str::Utf8Error),
    /// The key that no value was found for.
    MissingKeyValuePairs(String),
    /// The key that more than one value was found for.
    MultipleKeyValuePairs(String),
    /// The text that is the word for neither truth value.
    InvalidBoolFoundInString(String),
    /// A dimension of the shape is no numeral.
    ParseInt(ParseIntError),
}

/// A `ParseError` as contracts see it: texts by their characters, and of a
/// byte sequence that is not UTF-8 only that it is not.
pub enum ParseErrorView {
    InvalidUTF8,
    MissingKeyValuePairs(Seq<char>),
    MultipleKeyValuePairs(Seq<char>),
    InvalidBoolFoundInString(Seq<char>),
    ParseInt(IntErrorKind),
}

impl View for ParseError {
    type V = ParseErrorView;

    open spec fn view(&self) -> ParseErrorView {
        match self {
            ParseError::InvalidUTF8(_) => ParseErrorView::InvalidUTF8,
            ParseError::MissingKeyValuePairs(key) => ParseErrorView::MissingKeyValuePairs(key@),
            ParseError::MultipleKeyValuePairs(key) => ParseErrorView::MultipleKeyValuePairs(key@),
            ParseError::InvalidBoolFoundInString(text) => ParseErrorView::InvalidBoolFoundInString(
                text@,
            ),
            ParseError::ParseInt(error) => ParseErrorView::ParseInt(error.kind),
        }
    }
}

impl ParseError {
    /// The error of a key without a value.
    pub fn missing_key_value_pairs(key: &str) -> (error: Self)
        ensures
            error@ == ParseErrorView::MissingKeyValuePairs(key@),
    {
        ParseError::MissingKeyValuePairs(String::from_str(key))
    }

    /// The error of a key with more than one value.
    pub fn multiple_key_value_pairs(key: &str) -> (error: Self)
        ensures
            error@ == ParseErrorView::MultipleKeyValuePairs(key@),
    {
        ParseError::MultipleKeyValuePairs(String::from_str(key))
    }

    /// The error of a text that is the word for neither truth value.
    pub fn invalid_bool_found_in_string(invalid_value: &str) -> (error: Self)
        ensures
            error@ == ParseErrorView::InvalidBoolFoundInString(invalid_value@),
    {
        ParseError::InvalidBoolFoundInString(String::from_str(invalid_value))
    }
}

/// What a reader is told of a dimension that could not be read.
pub open spec fn int_error_message(kind: IntErrorKind) -> Seq<char> {
    match kind {
        IntErrorKind::Empty => "cannot parse integer from empty string"@,
        IntErrorKind::InvalidDigit => "invalid digit found in string"@,
        IntErrorKind::PosOverflow => "number too large to fit in target type"@,
    }
}

impl ParseIntError {
    /// The error in words.
    pub fn message(&self) -> (text: String)
        ensures
            text@ == int_error_message(self.kind),
    {
        match self.kind {
            IntErrorKind::Empty => String::from_str("cannot parse integer from empty string"),
            IntErrorKind::InvalidDigit => String::from_str("invalid digit found in string"),
            IntErrorKind::PosOverflow => String::from_str(
                "number too large to fit in target type",
            ),
        }
    }
}

/// What a reader is told of a `ParseError`. `detail` is what the error of
/// a byte sequence that is not UTF-8 says of itself; the others have none.
pub open spec fn parse_error_message(error: ParseErrorView, detail: Seq<char>) -> Seq<char> {
    match error {
        ParseErrorView::InvalidUTF8 => "Invalid utf-8 characters are found: '"@ + detail + "'"@,
        ParseErrorView::MissingKeyValuePairs(key) => "Key-value pair is missing: '"@ + key + "'"@,
        ParseErrorView::MultipleKeyValuePairs(key) => "Multiple key-value pairs are found: '"@
            + key + "'"@,
        ParseErrorView::InvalidBoolFoundInString(invalid_value) =>
            "Invalid boolean found in string: '"@ + invalid_value + "'"@,
        ParseErrorView::ParseInt(kind) => "Invalid integer found in string: "@
            + int_error_message(kind),
    }
}

impl ParseError {
    /// The error in words.
    pub fn message(&self) -> (text: String)
        ensures
            exists|detail: Seq<char>| text@ == parse_error_message(self@, detail),
    {
        match self {
            ParseError::InvalidUTF8(error) => {
                let detail = error.to_string();
                let mut text = String::from_str("Invalid utf-8 characters are found: '");
                text.append(detail.as_str());
                text.append("'");
                assert(text@ == parse_error_message(self@, detail@));
                text
            },
            ParseError::MissingKeyValuePairs(key) => {
                let mut text = String::from_str("Key-value pair is missing: '");
                text.append(key.as_str());
                text.append("'");
                assert(text@ == parse_error_message(self@, Seq::empty()));
                text
            },
            ParseError::MultipleKeyValuePairs(key) => {
                let mut text = String::from_str("Multiple key-value pairs are found: '");
                text.append(key.as_str());
                text.append("'");
                assert(text@ == parse_error_message(self@, Seq::empty()));
                text
            },
            ParseError::InvalidBoolFoundInString(invalid_value) => {
                let mut text = String::from_str("Invalid boolean found in string: '");
                text.append(invalid_value.as_str());
                text.append("'");
                assert(text@ == parse_error_message(self@, Seq::empty()));
                text
            },
            ParseError::ParseInt(error) => {
                let detail = error.message();
                let mut text = String::from_str("Invalid integer found in string: ");
                text.append(detail.as_str());
                assert(text@ == parse_error_message(self@, Seq::empty()));
                text
            },
        }
    }
}

} // verus!
