//! The three values of the dictionary, checked and written as text.

use crate::consts::is_endian_specifier;
use crate::text::{chars_of, join_decimals, push_joined, view_result};
use crate::writer::error::{ValidationError, ValidationErrorView};
use vstd::prelude::*;
use vstd::slice::slice_to_vec;

verus! {

/// Whether `text` begins and ends with the quote `q`.
pub open spec fn is_quoted(q: char, text: Seq<char>) -> bool {
    text.len() > 0 && text.first() == q && text.last() == q
}

/// A type descriptor as it goes into the dictionary: itself, where it is
/// quoted and an endian specifier follows the opening quote.
pub open spec fn prepare_descr_spec(descr: Seq<char>) -> Result<Seq<char>, ValidationErrorView> {
    if descr.len() == 0 {
        Err(ValidationErrorView::EmptyDescr)
    } else if !is_quoted('"', descr) && !is_quoted('\'', descr) {
        Err(ValidationErrorView::UnquotedDescr(descr))
    } else if descr.len() < 2 {
        Err(ValidationErrorView::NoEndianSpecifier(descr))
    } else if !is_endian_specifier(descr[1]) {
        Err(ValidationErrorView::UnexpectedEndianSpecifier(descr))
    } else {
        Ok(descr)
    }
}

/// Checks a type descriptor and hands it on as it is.
pub fn prepare_descr(descr: &str) -> (prepared: Result<String, ValidationError>)
    ensures
        view_result(prepared) == prepare_descr_spec(descr@),
{
    let chars = chars_of(descr);
    let len = chars.len();
    if len == 0 {
        return Err(ValidationError::EmptyDescr);
    }
    let first = chars[0];
    let last = chars[len - 1];
    if !(first == '"' && last == '"') && !(first == '\'' && last == '\'') {
        return Err(ValidationError::unquoted_descr(descr));
    }
    if len < 2 {
        return Err(ValidationError::no_endian_specifier(descr));
    }
    let second = chars[1];
    if !(second == '<' || second == '>' || second == '=' || second == '|') {
        return Err(ValidationError::unexpected_endian_specifier(descr));
    }
    Ok(String::from_str(descr))
}

/// The word for a truth value.
pub open spec fn fortran_order_text(fortran_order: bool) -> Seq<char> {
    if fortran_order {
        "True"@
    } else {
        "False"@
    }
}

/// Writes the word for a truth value.
pub fn prepare_fortran_order(fortran_order: bool) -> (prepared: Result<String, ValidationError>)
    ensures
        view_result(prepared) == Ok::<Seq<char>, ValidationErrorView>(
            fortran_order_text(fortran_order),
        ),
{
    let text = if fortran_order {
        String::from_str("True")
    } else {
        String::from_str("False")
    };
    Ok(text)
}

/// The dimensions of a shape as they stand between the brackets: their
/// numerals, with a comma between each two.
pub open spec fn dimensions_text(shape: Seq<usize>) -> Seq<char> {
    join_decimals(shape, ","@)
}

/// A shape as the dictionary holds it: no comma behind the last dimension.
pub open spec fn shape_text(shape: Seq<usize>) -> Seq<char> {
    "("@ + dimensions_text(shape) + ")"@
}

/// A shape as it goes into the dictionary: its text, where no dimension is zero.
pub open spec fn prepare_shape_spec(shape: Seq<usize>) -> Result<Seq<char>, ValidationErrorView> {
    if shape.contains(0usize) {
        Err(ValidationErrorView::NonPositiveShape(shape))
    } else {
        Ok(shape_text(shape))
    }
}

/// Checks a shape and writes it as a list in round brackets.
pub fn prepare_shape(shape: &[usize]) -> (prepared: Result<String, ValidationError>)
    ensures
        view_result(prepared) == prepare_shape_spec(shape@),
{
    let mut i: usize = 0;
    while i < shape.len()
        invariant
            i <= shape.len(),
            forall|j: int| 0 <= j < i ==> shape[j] != 0,
        decreases shape.len() - i,
    {
        if shape[i] == 0 {
            assert(shape@.contains(0usize));
            return Err(ValidationError::NonPositiveShape(slice_to_vec(shape)));
        }
        i += 1;
    }
    assert(!shape@.contains(0usize));
    let mut text = String::from_str("(");
    push_joined(&mut text, shape, ",");
    text.append(")");
    Ok(text)
}

} // verus!
