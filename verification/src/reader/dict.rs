//! The dictionary of a header, read from its text: each of the three keys
//! is searched for with a pattern, and its value read from what was found.

use crate::reader::error::{IntErrorKind, ParseError, ParseErrorView, ParseIntError};
use crate::reader::pattern::{captures, regex_captures};
use crate::text::{
    chars_of, parse_numeral, read_numeral, strip_whitespace, text_eq, view_result,
    without_whitespace,
};
use crate::{Header, HeaderView};
use vstd::prelude::*;
use vstd::utf8::{decode_utf8, valid_utf8};

verus! {

/// The key of the type descriptor.
pub const DESCR_KEY: &'static str = "descr";

/// The key of the memory layout flag.
pub const FORTRAN_ORDER_KEY: &'static str = "fortran_order";

/// The key of the shape.
pub const SHAPE_KEY: &'static str = "shape";

/// A quoted string, its quotes included: as short as a match allows.
pub const DESCR_VALUE: &'static str = "('.+?'|\".+?\")";

/// One of the two words for a truth value.
pub const FORTRAN_ORDER_VALUE: &'static str = "(True|False)";

/// What stands between a pair of round brackets.
pub const SHAPE_VALUE: &'static str = "\\(([^)]*)\\)";

/// In a pattern for a key and its value the key is the first capture group
/// and the value the second.
pub const VALUE_GROUP: usize = 2;

/// The pattern for `key` in quotes of either kind, a colon with any white
/// space around it, and a value that matches the pattern `value`.
pub open spec fn key_value_pattern(key: Seq<char>, value: Seq<char>) -> Seq<char> {
    "('"@ + key + "'|\""@ + key + "\")\\s*:\\s*"@ + value
}

/// The values among what a search captured, in their order.
pub open spec fn captured_values(groups: Seq<Option<Seq<char>>>) -> Seq<Seq<char>> {
    groups.filter_map(|group: Option<Seq<char>>| group)
}

/// The values that `pattern` captures in `haystack`. A pattern that cannot
/// be searched for captures none.
pub open spec fn found_values(pattern: Seq<char>, haystack: Seq<char>) -> Seq<Seq<char>> {
    match regex_captures(pattern, VALUE_GROUP, haystack) {
        Some(groups) => captured_values(groups),
        None => Seq::empty(),
    }
}

/// The one value of `key`, where exactly one was found.
pub open spec fn select_value_spec(key: Seq<char>, values: Seq<Seq<char>>) -> Result<
    Seq<char>,
    ParseErrorView,
> {
    if values.len() == 0 {
        Err(ParseErrorView::MissingKeyValuePairs(key))
    } else if values.len() == 1 {
        Ok(values[0])
    } else {
        Err(ParseErrorView::MultipleKeyValuePairs(key))
    }
}

/// The value of `key` in `haystack`, where `value` is the pattern of a value.
pub open spec fn find_value_spec(haystack: Seq<char>, key: Seq<char>, value: Seq<char>) -> Result<
    Seq<char>,
    ParseErrorView,
> {
    select_value_spec(key, found_values(key_value_pattern(key, value), haystack))
}

/// Picks the one value of `key` out of those that a search found.
pub fn select_value(key: &str, values: Vec<String>) -> (value: Result<String, ParseError>)
    ensures
        view_result(value) == select_value_spec(key@, values.deep_view()),
{
    let mut values = values;
    let found = values.len();
    match values.pop() {
        None => Err(ParseError::missing_key_value_pairs(key)),
        Some(value) => if found == 1 {
            Ok(value)
        } else {
            Err(ParseError::multiple_key_value_pairs(key))
        },
    }
}

/// The values among what a search captured.
fn collect_values(groups: Vec<Option<String>>) -> (values: Vec<String>)
    ensures
        values.deep_view() == captured_values(groups.deep_view()),
{
    let ghost all = groups.deep_view();
    let ghost keep = |group: Option<Seq<char>>| group;
    let mut values: Vec<String> = Vec::new();
    let mut i: usize = 0;
    while i < groups.len()
        invariant
            i <= groups.len(),
            all == groups.deep_view(),
            keep == |group: Option<Seq<char>>| group,
            values.deep_view() == all.take(i as int).filter_map(keep),
        decreases groups.len() - i,
    {
        let ghost before = values.deep_view();
        proof {
            all.lemma_filter_map_take_succ(keep, i as int);
        }
        match &groups[i] {
            Some(value) => {
                values.push(value.clone());
                assert(values.deep_view() =~= before + seq![value@]);
            },
            None => {},
        }
        i += 1;
    }
    assert(all.take(groups.len() as int) =~= all);
    values
}

/// Searches `haystack` for `key` with a value that matches the pattern
/// `value`, and gives the value where there is exactly one.
fn find_value(haystack: &str, key: &str, value: &str) -> (found: Result<String, ParseError>)
    ensures
        view_result(found) == find_value_spec(haystack@, key@, value@),
{
    let mut pattern = String::from_str("('");
    pattern.append(key);
    pattern.append("'|\"");
    pattern.append(key);
    pattern.append("\")\\s*:\\s*");
    pattern.append(value);
    let values = match captures(pattern.as_str(), VALUE_GROUP, haystack) {
        Ok(groups) => collect_values(groups),
        Err(_) => Vec::new(),
    };
    select_value(key, values)
}

/// The type descriptor that the dictionary text `buf` holds.
pub open spec fn fetch_descr_spec(buf: Seq<char>) -> Result<Seq<char>, ParseErrorView> {
    find_value_spec(buf, DESCR_KEY@, DESCR_VALUE@)
}

/// Finds the type descriptor in the dictionary text `buf`.
pub fn fetch_descr(buf: &str) -> (descr: Result<String, ParseError>)
    ensures
        view_result(descr) == fetch_descr_spec(buf@),
{
    find_value(buf, DESCR_KEY, DESCR_VALUE)
}

/// The truth value that `text` is the word for.
pub open spec fn parse_fortran_order_spec(text: Seq<char>) -> Result<bool, ParseErrorView> {
    if text == "True"@ {
        Ok(true)
    } else if text == "False"@ {
        Ok(false)
    } else {
        Err(ParseErrorView::InvalidBoolFoundInString(text))
    }
}

/// Reads the truth value that `text` is the word for.
pub fn parse_fortran_order(text: &str) -> (fortran_order: Result<bool, ParseError>)
    ensures
        view_result(fortran_order) == parse_fortran_order_spec(text@),
{
    if text_eq(text, "True") {
        Ok(true)
    } else if text_eq(text, "False") {
        Ok(false)
    } else {
        Err(ParseError::invalid_bool_found_in_string(text))
    }
}

/// The memory layout flag that the dictionary text `buf` holds.
pub open spec fn fetch_fortran_order_spec(buf: Seq<char>) -> Result<bool, ParseErrorView> {
    match find_value_spec(buf, FORTRAN_ORDER_KEY@, FORTRAN_ORDER_VALUE@) {
        Ok(text) => parse_fortran_order_spec(text),
        Err(error) => Err(error),
    }
}

/// Finds the memory layout flag in the dictionary text `buf`.
pub fn fetch_fortran_order(buf: &str) -> (fortran_order: Result<bool, ParseError>)
    ensures
        view_result(fortran_order) == fetch_fortran_order_spec(buf@),
{
    match find_value(buf, FORTRAN_ORDER_KEY, FORTRAN_ORDER_VALUE) {
        Ok(text) => parse_fortran_order(text.as_str()),
        Err(error) => Err(error),
    }
}

/// How many characters stand before the first comma of `text`.
pub open spec fn segment_len(text: Seq<char>) -> nat
    decreases text.len(),
{
    if text.len() > 0 && text[0] != ',' {
        1 + segment_len(text.drop_first())
    } else {
        0
    }
}

/// The pieces of `text` between its commas: one more than it has commas.
pub open spec fn split_commas(text: Seq<char>) -> Seq<Seq<char>>
    decreases text.len(),
{
    let len = segment_len(text) as int;
    if len >= text.len() {
        seq![text]
    } else {
        seq![text.take(len)] + split_commas(text.skip(len + 1))
    }
}

/// The dimensions that `segments` are the numerals of. The first segment
/// that is no numeral decides the error.
pub open spec fn parse_dimensions(segments: Seq<Seq<char>>) -> Result<Seq<usize>, IntErrorKind>
    decreases segments.len(),
{
    if segments.len() == 0 {
        Ok(Seq::empty())
    } else {
        match parse_numeral(segments[0]) {
            Err(kind) => Err(kind),
            Ok(dimension) => match parse_dimensions(segments.drop_first()) {
                Err(kind) => Err(kind),
                Ok(rest) => Ok(seq![dimension] + rest),
            },
        }
    }
}

/// The shape that `text`, taken from between the brackets, is the list of.
/// White space counts for nothing, nor does one comma at the end; nothing
/// at all is the shape of a scalar.
pub open spec fn parse_shape_spec(text: Seq<char>) -> Result<Seq<usize>, ParseErrorView> {
    let stripped = strip_whitespace(text);
    if stripped.len() == 0 {
        Ok(Seq::empty())
    } else {
        let list = if stripped.last() == ',' {
            stripped.drop_last()
        } else {
            stripped
        };
        match parse_dimensions(split_commas(list)) {
            Ok(shape) => Ok(shape),
            Err(kind) => Err(ParseErrorView::ParseInt(kind)),
        }
    }
}

/// The dimensions read so far, before what the rest of the list gives.
pub open spec fn prepend_dimensions(
    done: Seq<usize>,
    rest: Result<Seq<usize>, IntErrorKind>,
) -> Result<Seq<usize>, IntErrorKind> {
    match rest {
        Ok(dimensions) => Ok(done + dimensions),
        Err(kind) => Err(kind),
    }
}

/// A segment ends where the text does or its first comma stands.
pub proof fn lemma_segment_len(text: Seq<char>)
    ensures
        segment_len(text) <= text.len(),
        forall|i: int| 0 <= i < segment_len(text) ==> #[trigger] text[i] != ',',
        segment_len(text) < text.len() ==> text[segment_len(text) as int] == ',',
    decreases text.len(),
{
    if text.len() > 0 && text[0] != ',' {
        let rest = text.drop_first();
        lemma_segment_len(rest);
        assert forall|i: int| 0 <= i < segment_len(text) implies #[trigger] text[i] != ',' by {
            if i > 0 {
                assert(text[i] == rest[i - 1]);
            }
        }
        if segment_len(text) < text.len() {
            assert(text[segment_len(text) as int] == rest[segment_len(rest) as int]);
        }
    }
}

/// A text whose first `k` characters are no commas has a first segment of at least `k`.
pub proof fn lemma_segment_len_at_least(text: Seq<char>, k: int)
    requires
        0 <= k <= text.len(),
        forall|i: int| 0 <= i < k ==> #[trigger] text[i] != ',',
    ensures
        segment_len(text) >= k,
    decreases k,
{
    if k > 0 {
        assert(text[0] != ',');
        assert forall|i: int| 0 <= i < k - 1 implies #[trigger] text.drop_first()[i] != ',' by {
            assert(text.drop_first()[i] == text[i + 1]);
        }
        lemma_segment_len_at_least(text.drop_first(), k - 1);
    }
}

/// Reads the shape that `text`, taken from between the brackets, is the list of.
pub fn parse_shape(text: &str) -> (shape: Result<Vec<usize>, ParseError>)
    ensures
        view_result(shape) == parse_shape_spec(text@),
{
    let chars = chars_of(text);
    let stripped = without_whitespace(&chars);
    let len = stripped.len();
    if len == 0 {
        return Ok(Vec::new());
    }
    let end: usize = if stripped[len - 1] == ',' {
        len - 1
    } else {
        len
    };
    let ghost list = stripped@.take(end as int);
    assert(list =~= if stripped@.last() == ',' {
        stripped@.drop_last()
    } else {
        stripped@
    });
    let ghost whole = parse_dimensions(split_commas(list));
    let mut shape: Vec<usize> = Vec::new();
    let mut start: usize = 0;
    proof {
        assert(list.skip(0) =~= list);
        if let Ok(dimensions) = whole {
            assert(shape@ + dimensions =~= dimensions);
        }
    }
    loop
        invariant
            start <= end <= stripped.len(),
            list == stripped@.take(end as int),
            whole == parse_dimensions(split_commas(list)),
            parse_shape_spec(text@) == (match whole {
                Ok(dimensions) => Ok(dimensions),
                Err(kind) => Err(ParseErrorView::ParseInt(kind)),
            }),
            prepend_dimensions(shape@, parse_dimensions(split_commas(list.skip(start as int))))
                == whole,
        decreases end - start,
    {
        let ghost rest = list.skip(start as int);
        let mut stop: usize = start;
        while stop < end && stripped[stop] != ','
            invariant
                start <= stop <= end <= stripped.len(),
                list == stripped@.take(end as int),
                rest == list.skip(start as int),
                forall|i: int| 0 <= i < stop - start ==> #[trigger] rest[i] != ',',
            decreases end - stop,
        {
            assert(rest[stop - start] == stripped[stop as int]);
            stop += 1;
        }
        let ghost segment = rest.take(stop - start);
        proof {
            lemma_segment_len(rest);
            lemma_segment_len_at_least(rest, stop - start);
            if stop < end {
                assert(rest[stop - start] == stripped[stop as int]);
            }
            assert(segment_len(rest) == stop - start);
            assert(segment =~= stripped@.subrange(start as int, stop as int));
            reveal_with_fuel(parse_dimensions, 2);
            if stop < end {
                assert(rest.skip(stop - start + 1) =~= list.skip(stop + 1));
                assert((seq![segment] + split_commas(list.skip(stop + 1))).drop_first()
                    =~= split_commas(list.skip(stop + 1)));
            } else {
                assert(rest.take(stop - start) =~= rest);
                assert(seq![segment].drop_first() =~= Seq::<Seq<char>>::empty());
            }
        }
        let ghost before = shape@;
        match read_numeral(&stripped, start, stop) {
            Err(kind) => {
                return Err(ParseError::ParseInt(ParseIntError { kind }));
            },
            Ok(dimension) => {
                shape.push(dimension);
            },
        }
        if stop >= end {
            assert(shape@ =~= before + (seq![shape@.last()] + Seq::<usize>::empty()));
            return Ok(shape);
        }
        proof {
            match parse_dimensions(split_commas(list.skip(stop + 1))) {
                Ok(dimensions) => {
                    assert(shape@ + dimensions =~= before + (seq![shape@.last()] + dimensions));
                },
                Err(_) => {},
            }
        }
        start = stop + 1;
    }
}

/// The shape that the dictionary text `buf` holds.
pub open spec fn fetch_shape_spec(buf: Seq<char>) -> Result<Seq<usize>, ParseErrorView> {
    match find_value_spec(buf, SHAPE_KEY@, SHAPE_VALUE@) {
        Ok(text) => parse_shape_spec(text),
        Err(error) => Err(error),
    }
}

/// Finds the shape in the dictionary text `buf`.
pub fn fetch_shape(buf: &str) -> (shape: Result<Vec<usize>, ParseError>)
    ensures
        view_result(shape) == fetch_shape_spec(buf@),
{
    match find_value(buf, SHAPE_KEY, SHAPE_VALUE) {
        Ok(text) => parse_shape(text.as_str()),
        Err(error) => Err(error),
    }
}

/// The header that the text of a dictionary holds.
pub open spec fn parse_text_spec(text: Seq<char>) -> Result<HeaderView, ParseErrorView> {
    match fetch_descr_spec(text) {
        Err(error) => Err(error),
        Ok(descr) => match fetch_fortran_order_spec(text) {
            Err(error) => Err(error),
            Ok(fortran_order) => match fetch_shape_spec(text) {
                Err(error) => Err(error),
                Ok(shape) => Ok(HeaderView { descr, fortran_order, shape }),
            },
        },
    }
}

/// The header that the bytes of a dictionary, with what pads it, hold.
pub open spec fn parse_spec(buf: Seq<u8>) -> Result<HeaderView, ParseErrorView> {
    if valid_utf8(buf) {
        parse_text_spec(decode_utf8(buf))
    } else {
        Err(ParseErrorView::InvalidUTF8)
    }
}

/// `core::str::from_utf8` returns a text exactly for the byte sequences
/// that are UTF-8, and the text is the one that these bytes encode.
pub assume_specification[ core::str::from_utf8 ](v: &[u8]) -> (text: Result<
    &str,
    core::str::Utf8Error,
>)
    ensures
        text is Ok <==> valid_utf8(v@),
        text matches Ok(s) ==> s@ == decode_utf8(v@),
;

/// Reads a header from the bytes of a dictionary and what pads it.
pub fn parse(buf: &[u8]) -> (header: Result<Header, ParseError>)
    ensures
        view_result(header) == parse_spec(buf@),
{
    let text: &str = match core::str::from_utf8(buf) {
        Ok(text) => text,
        Err(error) => {
            return Err(ParseError::InvalidUTF8(error));
        },
    };
    let descr: String = match fetch_descr(text) {
        Ok(descr) => descr,
        Err(error) => {
            return Err(error);
        },
    };
    let fortran_order: bool = match fetch_fortran_order(text) {
        Ok(fortran_order) => fortran_order,
        Err(error) => {
            return Err(error);
        },
    };
    let shape: Vec<usize> = match fetch_shape(text) {
        Ok(shape) => shape,
        Err(error) => {
            return Err(error);
        },
    };
    Ok(Header { descr, fortran_order, shape })
}

} // verus!
