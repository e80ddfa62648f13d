//! What holds between writing and reading.

use crate::bytes::le_value;
use crate::consts::{size_header_len, MAGIC_STRING};
use crate::error::{ReadHeaderErrorView, WriteHeaderErrorView};
use crate::reader::dict::{
    found_values, key_value_pattern, lemma_segment_len, lemma_segment_len_at_least,
    parse_dimensions, parse_fortran_order_spec, parse_shape_spec, parse_spec, parse_text_spec,
    segment_len,
    split_commas, DESCR_KEY, DESCR_VALUE, FORTRAN_ORDER_KEY, FORTRAN_ORDER_VALUE, SHAPE_KEY,
    SHAPE_VALUE,
};
use crate::reader::error::{IntErrorKind, ParseErrorView};
use crate::reader::{
    check_magic_string_spec, check_minor_version_spec, fetch_header_len_spec,
    fetch_header_spec, fetch_major_version_spec, ReadStep,
};
use crate::text::{
    decimal, is_digit, is_whitespace, lemma_decimal, lemma_parse_decimal, strip_whitespace,
};
use crate::writer::dict::{dimensions_text, fortran_order_text};
use crate::writer::{
    buffer_info_spec, dictionary_start, dictionary_text, lemma_header_bytes, padding_bytes,
    prepare_dictionary_spec,
};
use crate::{
    announces_size_that_fits, dictionary_fits, read_dictionary_spec, read_header_spec,
    write_header_spec, HeaderView,
};
use vstd::prelude::*;
use vstd::utf8::{
    decode_utf8, encode_utf8, encode_utf8_decode_utf8, encode_utf8_valid_utf8,
    is_ascii_chars, is_ascii_chars_encode_utf8, valid_utf8, valid_utf8_concat,
};

verus! {

/// The word written for a truth value is read back as that value.
pub proof fn lemma_fortran_order_round_trip(fortran_order: bool)
    ensures
        parse_fortran_order_spec(fortran_order_text(fortran_order)) == Ok::<bool, ParseErrorView>(
            fortran_order,
        ),
{
    reveal_strlit("True");
    reveal_strlit("False");
    assert("True"@.len() != "False"@.len());
}

/// The list written for a shape holds digits and commas only, and where
/// the shape has a dimension it ends in a digit.
pub proof fn lemma_dimensions_text_chars(shape: Seq<usize>)
    ensures
        forall|i: int|
            0 <= i < dimensions_text(shape).len() ==> {
                let c = #[trigger] dimensions_text(shape)[i];
                is_digit(c) || c == ','
            },
        shape.len() > 0 ==> dimensions_text(shape).len() > 0 && is_digit(
            dimensions_text(shape).last(),
        ),
    decreases shape.len(),
{
    reveal_strlit(",");
    if shape.len() == 0 {
    } else if shape.len() == 1 {
        lemma_decimal(shape[0] as nat);
    } else {
        lemma_decimal(shape[0] as nat);
        lemma_dimensions_text_chars(shape.drop_first());
    }
}

/// A text without white space loses nothing when its white space is taken out.
pub proof fn lemma_strip_nothing(text: Seq<char>)
    requires
        forall|i: int| 0 <= i < text.len() ==> !is_whitespace(#[trigger] text[i]),
    ensures
        strip_whitespace(text) == text,
    decreases text.len(),
{
    reveal(Seq::filter);
    if text.len() > 0 {
        lemma_strip_nothing(text.drop_last());
        assert(text.drop_last().push(text.last()) =~= text);
    }
}

/// The numerals written for the dimensions of a shape, split at their
/// commas, are read back as these dimensions.
pub proof fn lemma_split_dimensions_text(shape: Seq<usize>)
    requires
        shape.len() > 0,
    ensures
        parse_dimensions(split_commas(dimensions_text(shape))) == Ok::<Seq<usize>, IntErrorKind>(
            shape,
        ),
    decreases shape.len(),
{
    reveal_strlit(",");
    let first = decimal(shape[0] as nat);
    let joined = dimensions_text(shape);
    lemma_decimal(shape[0] as nat);
    lemma_parse_decimal(shape[0]);
    lemma_segment_len(joined);
    reveal_with_fuel(parse_dimensions, 2);
    if shape.len() == 1 {
        lemma_segment_len_at_least(joined, joined.len() as int);
        assert(seq![joined].drop_first() =~= Seq::<Seq<char>>::empty());
        assert(seq![shape[0]] + Seq::<usize>::empty() =~= shape);
    } else {
        let rest = shape.drop_first();
        let tail = dimensions_text(rest);
        assert(joined == first + ","@ + tail);
        assert forall|i: int| 0 <= i < first.len() implies #[trigger] joined[i] != ',' by {
            assert(joined[i] == first[i]);
            assert(is_digit(first[i]));
        }
        lemma_segment_len_at_least(joined, first.len() as int);
        assert(joined[first.len() as int] == ',');
        assert(segment_len(joined) == first.len());
        assert(joined.take(first.len() as int) =~= first);
        assert(joined.skip(first.len() as int + 1) =~= tail);
        lemma_split_dimensions_text(rest);
        assert((seq![first] + split_commas(tail)).drop_first() =~= split_commas(tail));
        assert(seq![shape[0]] + rest =~= shape);
    }
}

/// The list written for a shape, as it stands between the brackets, is read
/// back as that shape.
pub proof fn lemma_shape_round_trip(shape: Seq<usize>)
    ensures
        parse_shape_spec(dimensions_text(shape)) == Ok::<Seq<usize>, ParseErrorView>(shape),
{
    let joined = dimensions_text(shape);
    lemma_dimensions_text_chars(shape);
    assert forall|i: int| 0 <= i < joined.len() implies !is_whitespace(#[trigger] joined[i]) by {
        let c = joined[i];
        assert(is_digit(c) || c == ',');
    }
    lemma_strip_nothing(joined);
    if shape.len() == 0 {
        assert(shape =~= Seq::<usize>::empty());
    } else {
        lemma_split_dimensions_text(shape);
    }
}

/// Padding is text: its bytes are UTF-8.
pub proof fn lemma_padding_is_text(padding_size: nat)
    requires
        padding_size > 0,
    ensures
        valid_utf8(padding_bytes(padding_size)),
{
    let padding = padding_bytes(padding_size);
    let chars = Seq::new(padding.len(), |i: int| padding[i] as char);
    assert(is_ascii_chars(chars));
    is_ascii_chars_encode_utf8(chars);
    assert(encode_utf8(chars) =~= padding);
    encode_utf8_valid_utf8(chars);
}

/// Reading a header that was written gets as far as its dictionary: the
/// fields before it pass, and what stands behind the length field, the
/// dictionary and its padding, is what the dictionary is read from.
pub proof fn lemma_read_written(header: HeaderView, bytes: Seq<u8>)
    requires
        dictionary_fits(header),
        write_header_spec(header) == Ok::<Seq<u8>, WriteHeaderErrorView>(bytes),
    ensures
        announces_size_that_fits(bytes),
        bytes.len() >= dictionary_start(bytes[6]),
        valid_utf8(bytes.skip(dictionary_start(bytes[6]) as int)),
        read_header_spec(bytes) == fetch_header_spec(
            bytes.skip(dictionary_start(bytes[6]) as int),
        ),
{
    let dict = prepare_dictionary_spec(header)->Ok_0;
    let text = dictionary_text(header)->Ok_0;
    let buffer_info = buffer_info_spec(dict.len());
    let padding = padding_bytes(buffer_info.padding_size);
    lemma_header_bytes(dict);
    let dict_at = dictionary_start(buffer_info.major_version) as int;
    let header_len = le_value(buffer_info.header_len);
    assert(bytes.subrange(dict_at, dict_at + header_len) =~= bytes.skip(dict_at));
    assert(bytes.skip(dict_at) =~= dict + padding);
    assert(bytes.take(6) =~= MAGIC_STRING@);
    assert(valid_utf8(dict + padding)) by {
        encode_utf8_valid_utf8(text);
        lemma_padding_is_text(buffer_info.padding_size);
        valid_utf8_concat(dict, padding);
    }
    assert(read_header_spec(bytes) == read_dictionary_spec(bytes, buffer_info.major_version));
}

/// Texts are encoded piece by piece.
pub proof fn lemma_encode_concat(first: Seq<char>, second: Seq<char>)
    ensures
        encode_utf8(first + second) == encode_utf8(first) + encode_utf8(second),
    decreases first.len(),
{
    if first.len() == 0 {
        assert(first + second =~= second);
        assert(encode_utf8(first) + encode_utf8(second) =~= encode_utf8(second));
    } else {
        lemma_encode_concat(first.drop_first(), second);
        assert((first + second).drop_first() =~= first.drop_first() + second);
        assert(encode_utf8(first + second) =~= encode_utf8(first) + encode_utf8(second));
    }
}

/// The padding of a header as text: spaces, and a newline at the end.
pub open spec fn padding_text(padding_size: nat) -> Seq<char>
    recommends
        padding_size > 0,
{
    Seq::new((padding_size - 1) as nat, |i: int| ' ').push('\n')
}

/// The text that the dictionary of a written header is read from: the text
/// of the dictionary as it was written, and the padding behind it.
pub open spec fn written_text(header: HeaderView) -> Seq<char>
    recommends
        write_header_spec(header) is Ok,
{
    let dict = prepare_dictionary_spec(header)->Ok_0;
    dictionary_text(header)->Ok_0 + padding_text(buffer_info_spec(dict.len()).padding_size)
}

/// What stands behind the length field of a written header is the text of
/// its dictionary and of its padding.
pub proof fn lemma_written_text(header: HeaderView, bytes: Seq<u8>)
    requires
        dictionary_fits(header),
        write_header_spec(header) == Ok::<Seq<u8>, WriteHeaderErrorView>(bytes),
    ensures
        bytes.len() >= dictionary_start(bytes[6]),
        bytes.skip(dictionary_start(bytes[6]) as int) == encode_utf8(written_text(header)),
        decode_utf8(bytes.skip(dictionary_start(bytes[6]) as int)) == written_text(header),
{
    let dict = prepare_dictionary_spec(header)->Ok_0;
    let text = dictionary_text(header)->Ok_0;
    let padding_size = buffer_info_spec(dict.len()).padding_size;
    let padding = padding_bytes(padding_size);
    lemma_header_bytes(dict);
    let dict_at = dictionary_start(bytes[6]) as int;
    assert(bytes.skip(dict_at) =~= dict + padding);
    let blank = padding_text(padding_size);
    assert(is_ascii_chars(blank));
    is_ascii_chars_encode_utf8(blank);
    assert(encode_utf8(blank) =~= padding);
    lemma_encode_concat(text, blank);
    encode_utf8_decode_utf8(text + blank);
}

/// Whether the search finds in `text` each of the three values of `header`
/// once, and as the dictionary of `header` holds it.
pub open spec fn finds_values_of(header: HeaderView, text: Seq<char>) -> bool {
    &&& found_values(key_value_pattern(DESCR_KEY@, DESCR_VALUE@), text) == seq![header.descr]
    &&& found_values(key_value_pattern(FORTRAN_ORDER_KEY@, FORTRAN_ORDER_VALUE@), text)
        == seq![fortran_order_text(header.fortran_order)]
    &&& found_values(key_value_pattern(SHAPE_KEY@, SHAPE_VALUE@), text) == seq![
        dimensions_text(header.shape),
    ]
}

/// A text in which the search finds the three values of `header` once and
/// as they were written is read as `header`.
pub proof fn lemma_parse_found_values(header: HeaderView, text: Seq<char>)
    requires
        finds_values_of(header, text),
    ensures
        parse_text_spec(text) == Ok::<HeaderView, ParseErrorView>(header),
{
    lemma_fortran_order_round_trip(header.fortran_order);
    lemma_shape_round_trip(header.shape);
}

/// A dictionary that was written is read back as the header it was
/// written from, wherever the search finds in its text each of the three
/// values once and as it was written.
pub proof fn lemma_dictionary_round_trip(header: HeaderView, dict: Seq<u8>)
    requires
        prepare_dictionary_spec(header) == Ok::<Seq<u8>, WriteHeaderErrorView>(dict),
        finds_values_of(header, dictionary_text(header)->Ok_0),
    ensures
        parse_spec(dict) == Ok::<HeaderView, ParseErrorView>(header),
{
    let text = dictionary_text(header)->Ok_0;
    encode_utf8_valid_utf8(text);
    encode_utf8_decode_utf8(text);
    lemma_parse_found_values(header, text);
}

/// A header that was written is read back as it was, wherever the search
/// finds in the written text each of its three values once and as it was
/// written. What the search finds is the `regex` crate's to say, so this
/// is as far as the round trip is proved.
pub proof fn lemma_round_trip(header: HeaderView, bytes: Seq<u8>)
    requires
        dictionary_fits(header),
        write_header_spec(header) == Ok::<Seq<u8>, WriteHeaderErrorView>(bytes),
        finds_values_of(header, written_text(header)),
    ensures
        read_header_spec(bytes) == Ok::<HeaderView, ReadHeaderErrorView>(header),
{
    lemma_read_written(header, bytes);
    lemma_written_text(header, bytes);
    lemma_parse_found_values(header, written_text(header));
}

/// Feeding the steps from the first one on with the bytes of a source reads
/// the header that the source begins with.
pub proof fn lemma_steps_read_header(source: Seq<u8>)
    ensures
        ReadStep::MagicString.run(source) == read_header_spec(source),
{
    reveal_with_fuel(ReadStep::run, 6);
    if source.len() >= 6 && check_magic_string_spec(source.take(6)) is Ok {
        let after_magic = source.skip(6);
        if after_magic.len() >= 1 {
            assert(after_magic.take(1)[0] == source[6]);
            if fetch_major_version_spec(source[6]) is Ok {
                let major_version = source[6];
                let after_major = after_magic.skip(1);
                if after_major.len() >= 1 {
                    assert(after_major.take(1)[0] == source[7]);
                    if check_minor_version_spec(source[7]) is Ok {
                        let after_minor = after_major.skip(1);
                        let width = size_header_len(major_version) as int;
                        if after_minor.len() >= width {
                            assert(after_minor.take(width) =~= source.subrange(8, 8 + width));
                            match fetch_header_len_spec(after_minor.take(width), major_version) {
                                Ok(header_len) => {
                                    let after_len = after_minor.skip(width);
                                    if after_len.len() >= header_len {
                                        assert(after_len.take(header_len as int)
                                            =~= source.subrange(
                                            8 + width,
                                            8 + width + header_len,
                                        ));
                                    }
                                },
                                Err(_) => {},
                            }
                        }
                    }
                }
            }
        }
    }
}

} // verus!
