//! The two ways a header can fail: on the way in and on the way out.

use crate::consts::HEADER_BLOCK_SIZE;
use crate::reader::error::{parse_error_message, ParseError, ParseErrorView};
use crate::text::{decimal, list_text, push_decimal, push_list, widen, widened};
use crate::writer::error::{validation_error_message, ValidationError, ValidationErrorView};
use vstd::prelude::*;
use vstd::std_specs::convert::FromSpecImpl;

verus! {

/// `std::io::Error`, the failure of a byte source or sink. Nothing is known of what it holds.
#[verifier::external_type_specification]
#[verifier::external_body]
pub struct ExIoError(std::io::Error);

/// Why a header could not be read.
#[derive(Debug)]
pub enum ReadHeaderError {
    /// The byte source failed.
    Io(std::io::Error),
    /// The first six bytes, which are not the magic string.
    InvalidMagicString(Vec<u8>),
    /// The major version, which is none of 1, 2 and 3.
    InvalidMajorVersion(u8),
    /// The minor version, which is not 0.
    InvalidMinorVersion(u8),
    /// The size of the whole header, which is no whole number of blocks.
    InvalidHeaderSize(usize),
    /// The dictionary could not be read.
    ParseFailed(ParseError),
}

/// A `ReadHeaderError` as contracts see it. Of a failure of the byte source
/// they see only that it is one.
pub enum ReadHeaderErrorView {
    Io,
    InvalidMagicString(Seq<u8>),
    InvalidMajorVersion(u8),
    InvalidMinorVersion(u8),
    InvalidHeaderSize(usize),
    ParseFailed(ParseErrorView),
}

impl View for ReadHeaderError {
    type V = ReadHeaderErrorView;

    open spec fn view(&self) -> ReadHeaderErrorView {
        match self {
            ReadHeaderError::Io(_) => ReadHeaderErrorView::Io,
            ReadHeaderError::InvalidMagicString(bytes) => ReadHeaderErrorView::InvalidMagicString(
                bytes@,
            ),
            ReadHeaderError::InvalidMajorVersion(value) => ReadHeaderErrorView::InvalidMajorVersion(
                *value,
            ),
            ReadHeaderError::InvalidMinorVersion(value) => ReadHeaderErrorView::InvalidMinorVersion(
                *value,
            ),
            ReadHeaderError::InvalidHeaderSize(value) => ReadHeaderErrorView::InvalidHeaderSize(
                *value,
            ),
            ReadHeaderError::ParseFailed(error) => ReadHeaderErrorView::ParseFailed(error@),
        }
    }
}

impl From<std::io::Error> for ReadHeaderError {
    fn from(error: std::io::Error) -> (converted: Self) {
        ReadHeaderError::Io(error)
    }
}

impl FromSpecImpl<std::io::Error> for ReadHeaderError {
    open spec fn obeys_from_spec() -> bool {
        true
    }

    open spec fn from_spec(error: std::io::Error) -> Self {
        ReadHeaderError::Io(error)
    }
}

impl From<ParseError> for ReadHeaderError {
    fn from(error: ParseError) -> (converted: Self) {
        ReadHeaderError::ParseFailed(error)
    }
}

impl FromSpecImpl<ParseError> for ReadHeaderError {
    open spec fn obeys_from_spec() -> bool {
        true
    }

    open spec fn from_spec(error: ParseError) -> Self {
        ReadHeaderError::ParseFailed(error)
    }
}

/// Why a header could not be written.
#[derive(Debug)]
pub enum WriteHeaderError {
    /// The byte sink failed.
    Io(std::io::Error),
    /// The header holds a value that the dictionary cannot hold.
    ValidationFailed(ValidationError),
    /// The layout leaves no byte for the newline that ends a header.
    ZeroPaddingSize,
}

/// A `WriteHeaderError` as contracts see it.
pub enum WriteHeaderErrorView {
    Io,
    ValidationFailed(ValidationErrorView),
    ZeroPaddingSize,
}

impl View for WriteHeaderError {
    type V = WriteHeaderErrorView;

    open spec fn view(&self) -> WriteHeaderErrorView {
        match self {
            WriteHeaderError::Io(_) => WriteHeaderErrorView::Io,
            WriteHeaderError::ValidationFailed(error) => WriteHeaderErrorView::ValidationFailed(
                error@,
            ),
            WriteHeaderError::ZeroPaddingSize => WriteHeaderErrorView::ZeroPaddingSize,
        }
    }
}

impl From<std::io::Error> for WriteHeaderError {
    fn from(error: std::io::Error) -> (converted: Self) {
        WriteHeaderError::Io(error)
    }
}

impl FromSpecImpl<std::io::Error> for WriteHeaderError {
    open spec fn obeys_from_spec() -> bool {
        true
    }

    open spec fn from_spec(error: std::io::Error) -> Self {
        WriteHeaderError::Io(error)
    }
}

impl From<ValidationError> for WriteHeaderError {
    fn from(error: ValidationError) -> (converted: Self) {
        WriteHeaderError::ValidationFailed(error)
    }
}

impl FromSpecImpl<ValidationError> for WriteHeaderError {
    open spec fn obeys_from_spec() -> bool {
        true
    }

    open spec fn from_spec(error: ValidationError) -> Self {
        WriteHeaderError::ValidationFailed(error)
    }
}

/// What a reader is told of a `ReadHeaderError`. `detail` is what an error
/// from outside says of itself: that of the byte source, or that of a byte
/// sequence that is not UTF-8.
pub open spec fn read_error_message(error: ReadHeaderErrorView, detail: Seq<char>) -> Seq<char> {
    match error {
        ReadHeaderErrorView::Io => "Io error: "@ + detail,
        ReadHeaderErrorView::InvalidMagicString(bytes) => "Invalid magic string is found: '"@
            + list_text(widen(bytes)) + "'"@,
        ReadHeaderErrorView::InvalidMajorVersion(value) => "Invalid major version: '"@ + decimal(
            value as nat,
        ) + "'"@,
        ReadHeaderErrorView::InvalidMinorVersion(value) => "Invalid minor version: "@ + decimal(
            value as nat,
        ),
        ReadHeaderErrorView::InvalidHeaderSize(value) => "Invalid header size: "@ + decimal(
            value as nat,
        ) + ", which should be a multiple of "@ + decimal(HEADER_BLOCK_SIZE as nat),
        ReadHeaderErrorView::ParseFailed(error) => "Failed to parse dictionary: "@
            + parse_error_message(error, detail),
    }
}

impl ReadHeaderError {
    /// The error in words.
    pub fn message(&self) -> (text: String)
        ensures
            exists|detail: Seq<char>| text@ == read_error_message(self@, detail),
    {
        match self {
            ReadHeaderError::Io(error) => {
                let detail = error.to_string();
                let mut text = String::from_str("Io error: ");
                text.append(detail.as_str());
                assert(text@ == read_error_message(self@, detail@));
                text
            },
            ReadHeaderError::InvalidMagicString(bytes) => {
                let numbers = widened(bytes.as_slice());
                let mut text = String::from_str("Invalid magic string is found: '");
                push_list(&mut text, numbers.as_slice());
                text.append("'");
                assert(text@ == read_error_message(self@, Seq::empty()));
                text
            },
            ReadHeaderError::InvalidMajorVersion(value) => {
                let mut text = String::from_str("Invalid major version: '");
                push_decimal(&mut text, *value as usize);
                text.append("'");
                assert(text@ == read_error_message(self@, Seq::empty()));
                text
            },
            ReadHeaderError::InvalidMinorVersion(value) => {
                let mut text = String::from_str("Invalid minor version: ");
                push_decimal(&mut text, *value as usize);
                assert(text@ == read_error_message(self@, Seq::empty()));
                text
            },
            ReadHeaderError::InvalidHeaderSize(value) => {
                let mut text = String::from_str("Invalid header size: ");
                push_decimal(&mut text, *value);
                text.append(", which should be a multiple of ");
                push_decimal(&mut text, HEADER_BLOCK_SIZE);
                assert(text@ == read_error_message(self@, Seq::empty()));
                text
            },
            ReadHeaderError::ParseFailed(error) => {
                let inner = error.message();
                let ghost detail = choose|detail: Seq<char>|
                    inner@ == parse_error_message(error@, detail);
                let mut text = String::from_str("Failed to parse dictionary: ");
                text.append(inner.as_str());
                assert(text@ == read_error_message(self@, detail));
                text
            },
        }
    }
}

/// What a reader is told of a `WriteHeaderError`. `detail` is what the
/// error of the byte sink says of itself.
pub open spec fn write_error_message(error: WriteHeaderErrorView, detail: Seq<char>) -> Seq<char> {
    match error {
        WriteHeaderErrorView::Io => detail,
        WriteHeaderErrorView::ValidationFailed(error) => "Illegal argument: "@
            + validation_error_message(error),
        WriteHeaderErrorView::ZeroPaddingSize =>
            "Zero padding size is illegal: at least terminating 0x0a is necessary at the end of header"@,
    }
}

impl WriteHeaderError {
    /// The error in words.
    pub fn message(&self) -> (text: String)
        ensures
            exists|detail: Seq<char>| text@ == write_error_message(self@, detail),
    {
        match self {
            WriteHeaderError::Io(error) => {
                let text = error.to_string();
                assert(text@ == write_error_message(self@, text@));
                text
            },
            WriteHeaderError::ValidationFailed(error) => {
                let inner = error.message();
                let mut text = String::from_str("Illegal argument: ");
                text.append(inner.as_str());
                assert(text@ == write_error_message(self@, Seq::empty()));
                text
            },
            WriteHeaderError::ZeroPaddingSize => {
                let text = String::from_str(
                    "Zero padding size is illegal: at least terminating 0x0a is necessary at the end of header",
                );
                assert(text@ == write_error_message(self@, Seq::empty()));
                text
            },
        }
    }
}

} // verus!
