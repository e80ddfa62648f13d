//! What can be wrong with a header that is to be written.

use crate::text::{list_text, push_list};
use vstd::prelude::*;

verus! {

/// Why a header cannot be written as a dictionary.
#[derive(Debug, PartialEq)]
pub enum ValidationError {
    /// The type descriptor is empty.
    EmptyDescr,
    /// The type descriptor, which does not begin and end with the same quote.
    UnquotedDescr(String),
    /// The type descriptor, which is a single quote.
    NoEndianSpecifier(String),
    /// The type descriptor, whose second character is no endian specifier.
    UnexpectedEndianSpecifier(String),
    /// The shape, which holds a dimension of zero.
    NonPositiveShape(Vec<usize>),
}

/// A `ValidationError` as contracts see it.
pub enum ValidationErrorView {
    EmptyDescr,
    UnquotedDescr(Seq<char>),
    NoEndianSpecifier(Seq<char>),
    UnexpectedEndianSpecifier(Seq<char>),
    NonPositiveShape(Seq<usize>),
}

impl View for ValidationError {
    type V = ValidationErrorView;

    open spec fn view(&self) -> ValidationErrorView {
        match self {
            ValidationError::EmptyDescr => ValidationErrorView::EmptyDescr,
            ValidationError::UnquotedDescr(value) => ValidationErrorView::UnquotedDescr(value@),
            ValidationError::NoEndianSpecifier(value) => ValidationErrorView::NoEndianSpecifier(
                value@,
            ),
            ValidationError::UnexpectedEndianSpecifier(value) =>
                ValidationErrorView::UnexpectedEndianSpecifier(value@),
            ValidationError::NonPositiveShape(shape) => ValidationErrorView::NonPositiveShape(
                shape@,
            ),
        }
    }
}

impl ValidationError {
    /// The error of a type descriptor without quotes.
    pub fn unquoted_descr(value: &str) -> (error: Self)
        ensures
            error@ == ValidationErrorView::UnquotedDescr(value@),
    {
        ValidationError::UnquotedDescr(String::from_str(value))
    }

    /// The error of a type descriptor that ends behind its first quote.
    pub fn no_endian_specifier(value: &str) -> (error: Self)
        ensures
            error@ == ValidationErrorView::NoEndianSpecifier(value@),
    {
        ValidationError::NoEndianSpecifier(String::from_str(value))
    }

    /// The error of a type descriptor with another second character.
    pub fn unexpected_endian_specifier(value: &str) -> (error: Self)
        ensures
            error@ == ValidationErrorView::UnexpectedEndianSpecifier(value@),
    {
        ValidationError::UnexpectedEndianSpecifier(String::from_str(value))
    }
}

/// What a reader is told of a `ValidationError`.
pub open spec fn validation_error_message(error: ValidationErrorView) -> Seq<char> {
    match error {
        ValidationErrorView::EmptyDescr => "Value of 'descr' is empty"@,
        ValidationErrorView::UnquotedDescr(value) => "Value of 'descr' is not quoted: "@ + value,
        ValidationErrorView::NoEndianSpecifier(value) => "Endian is not specified: "@ + value,
        ValidationErrorView::UnexpectedEndianSpecifier(value) =>
            "An endian specifier other than [<,>,=,|] is found: "@ + value,
        ValidationErrorView::NonPositiveShape(shape) => "Non-positive item is found in shape: "@
            + list_text(shape),
    }
}

impl ValidationError {
    /// The error in words.
    pub fn message(&self) -> (text: String)
        ensures
            text@ == validation_error_message(self@),
    {
        match self {
            ValidationError::EmptyDescr => String::from_str("Value of 'descr' is empty"),
            ValidationError::UnquotedDescr(value) => {
                let mut text = String::from_str("Value of 'descr' is not quoted: ");
                text.append(value.as_str());
                text
            },
            ValidationError::NoEndianSpecifier(value) => {
                let mut text = String::from_str("Endian is not specified: ");
                text.append(value.as_str());
                text
            },
            ValidationError::UnexpectedEndianSpecifier(value) => {
                let mut text = String::from_str(
                    "An endian specifier other than [<,>,=,|] is found: ",
                );
                text.append(value.as_str());
                text
            },
            ValidationError::NonPositiveShape(shape) => {
                let mut text = String::from_str("Non-positive item is found in shape: ");
                push_list(&mut text, shape.as_slice());
                text
            },
        }
    }
}

} // verus!
