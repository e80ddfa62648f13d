//! Reading and writing the header of an array file: a magic string, a
//! version, a length field, a dictionary text, and padding up to a block
//! boundary.

use crate::bytes::le_value;
use crate::consts::{size_header_len, MAGIC_STRING};
use crate::error::{ReadHeaderError, ReadHeaderErrorView, WriteHeaderError, WriteHeaderErrorView};
use crate::reader::{
    check_magic_string, check_magic_string_spec, check_minor_version, check_minor_version_spec,
    fetch_header, fetch_header_len, fetch_header_len_spec, fetch_header_spec,
    fetch_major_version, fetch_major_version_spec, header_size_of, ReadStep,
};
use crate::text::view_result;
use crate::writer::{
    buffer_info_spec, check_layout, dictionary_start, header_bytes, layout_fits,
    lemma_header_bytes,
    padding_spec, prepare_buffer_info, prepare_dictionary, prepare_dictionary_spec,
    prepare_padding, write_all,
};
use vstd::prelude::*;
use vstd::slice::slice_subrange;

pub mod bytes;
pub mod consts;
pub mod error;
pub mod laws;
pub mod reader;
pub mod text;
pub mod writer;

verus! {

/// What a header says of the array behind it.
#[derive(Debug, PartialEq)]
pub struct Header {
    /// The type descriptor, quotes included.
    pub descr: String,
    /// Whether the array is stored column by column.
    pub fortran_order: bool,
    /// The size of each dimension.
    pub shape: Vec<usize>,
}

/// A `Header` as contracts see it.
pub struct HeaderView {
    pub descr: Seq<char>,
    pub fortran_order: bool,
    pub shape: Seq<usize>,
}

impl View for Header {
    type V = HeaderView;

    open spec fn view(&self) -> HeaderView {
        HeaderView { descr: self.descr@, fortran_order: self.fortran_order, shape: self.shape@ }
    }
}

/// What a byte source says when it ends before the bytes asked for:
/// `std::io::Error::from` of `ErrorKind::UnexpectedEof`. Contracts see of it
/// only that it is an I/O error.
#[verifier::external_body]
fn unexpected_eof() -> (error: std::io::Error) {
    std::io::Error::from(std::io::ErrorKind::UnexpectedEof)
}

/// Takes `len` bytes of `source` from `pos` on, where it has that many.
fn read_exact(source: &[u8], pos: usize, len: usize) -> (bytes: Result<&[u8], ReadHeaderError>)
    requires
        pos <= source.len(),
    ensures
        match bytes {
            Ok(bytes) => pos + len <= source.len() && bytes@ == source@.subrange(
                pos as int,
                pos + len,
            ),
            Err(error) => pos + len > source.len() && error@ == ReadHeaderErrorView::Io,
        },
{
    if source.len() - pos < len {
        return Err(ReadHeaderError::Io(unexpected_eof()));
    }
    Ok(slice_subrange(source, pos, pos + len))
}

/// The header that `source` begins with. Each field is checked as soon as
/// its bytes are there; a source that ends inside a field fails as a byte
/// source that cannot give the bytes asked for.
pub open spec fn read_header_spec(source: Seq<u8>) -> Result<HeaderView, ReadHeaderErrorView> {
    if source.len() < 6 {
        Err(ReadHeaderErrorView::Io)
    } else {
        match check_magic_string_spec(source.take(6)) {
            Err(error) => Err(error),
            Ok(()) => if source.len() < 7 {
                Err(ReadHeaderErrorView::Io)
            } else {
                match fetch_major_version_spec(source[6]) {
                    Err(error) => Err(error),
                    Ok(major_version) => if source.len() < 8 {
                        Err(ReadHeaderErrorView::Io)
                    } else {
                        match check_minor_version_spec(source[7]) {
                            Err(error) => Err(error),
                            Ok(()) => read_dictionary_spec(source, major_version),
                        }
                    },
                }
            },
        }
    }
}

/// The header in a source whose first eight bytes have passed, from its length field on.
pub open spec fn read_dictionary_spec(source: Seq<u8>, major_version: u8) -> Result<
    HeaderView,
    ReadHeaderErrorView,
> {
    let dict_at = 8 + size_header_len(major_version);
    if source.len() < dict_at {
        Err(ReadHeaderErrorView::Io)
    } else {
        match fetch_header_len_spec(source.subrange(8, dict_at as int), major_version) {
            Err(error) => Err(error),
            Ok(header_len) => if source.len() < dict_at + header_len {
                Err(ReadHeaderErrorView::Io)
            } else {
                fetch_header_spec(source.subrange(dict_at as int, dict_at + header_len))
            },
        }
    }
}

/// Whether the size that `source` announces for its header fits a `usize`,
/// as far as `source` gets to announce one. It always does where a `usize`
/// has 64 bits.
pub open spec fn announces_size_that_fits(source: Seq<u8>) -> bool {
    source.len() >= 8 + size_header_len(source[6]) && source.take(6) == MAGIC_STRING@ && 1
        <= source[6] <= 3 && source[7] == 0 ==> header_size_of(
        source[6],
        le_value(source.subrange(8, 8 + size_header_len(source[6]) as int)),
    ) <= usize::MAX
}

/// Whether `read_header` can take `source`: the size that it announces for
/// its header fits a `usize`.
pub fn can_read_header(source: &[u8]) -> (fits: bool)
    ensures
        fits == announces_size_that_fits(source@),
{
    if source.len() < 10 {
        return true;
    }
    let major_version: u8 = source[6];
    let step = ReadStep::HeaderLen { major_version };
    let dict_at: usize = 8 + step.wanted();
    if source.len() < dict_at {
        return true;
    }
    let magic_string = slice_subrange(source, 0, 6);
    assert(source@.take(6) =~= magic_string@);
    if check_magic_string(magic_string).is_err() || fetch_major_version(
        major_version,
    ).is_err() || check_minor_version(source[7]).is_err() {
        return true;
    }
    step.can_take(slice_subrange(source, 8, dict_at))
}

/// Reads the header that `source` begins with. The size that `source`
/// announces for its header has to fit a `usize`, which it always does where
/// that has 64 bits: `can_read_header` tells.
pub fn read_header(source: &[u8]) -> (header: Result<Header, ReadHeaderError>)
    requires
        announces_size_that_fits(source@),
    ensures
        view_result(header) == read_header_spec(source@),
{
    let magic_string = match read_exact(source, 0, 6) {
        Ok(bytes) => bytes,
        Err(error) => {
            return Err(error);
        },
    };
    assert(magic_string@ =~= source@.take(6));
    match check_magic_string(magic_string) {
        Ok(()) => {},
        Err(error) => {
            return Err(error);
        },
    }
    let major_version: u8 = match read_exact(source, 6, 1) {
        Ok(bytes) => match fetch_major_version(bytes[0]) {
            Ok(major_version) => major_version,
            Err(error) => {
                return Err(error);
            },
        },
        Err(error) => {
            return Err(error);
        },
    };
    match read_exact(source, 7, 1) {
        Ok(bytes) => match check_minor_version(bytes[0]) {
            Ok(()) => {},
            Err(error) => {
                return Err(error);
            },
        },
        Err(error) => {
            return Err(error);
        },
    }
    let size_header_len: usize = if major_version == 1 {
        2
    } else {
        4
    };
    let header_len: usize = match read_exact(source, 8, size_header_len) {
        Ok(bytes) => match fetch_header_len(bytes, major_version) {
            Ok(header_len) => header_len,
            Err(error) => {
                return Err(error);
            },
        },
        Err(error) => {
            return Err(error);
        },
    };
    match read_exact(source, 8 + size_header_len, header_len) {
        Ok(bytes) => fetch_header(bytes),
        Err(error) => Err(error),
    }
}

/// The bytes of the header that says `header`.
pub open spec fn write_header_spec(header: HeaderView) -> Result<Seq<u8>, WriteHeaderErrorView> {
    match prepare_dictionary_spec(header) {
        Err(error) => Err(error),
        Ok(dict) => {
            let buffer_info = buffer_info_spec(dict.len());
            match padding_spec(buffer_info.padding_size) {
                Err(error) => Err(error),
                Ok(padding) => Ok(header_bytes(buffer_info, dict, padding)),
            }
        },
    }
}

/// Whether the dictionary of `header`, where it has one, can be laid out.
pub open spec fn dictionary_fits(header: HeaderView) -> bool {
    prepare_dictionary_spec(header) matches Ok(dict) ==> layout_fits(dict.len())
}

/// Whether `write_header` can take `header`: its dictionary, where it has
/// one, can be laid out.
pub fn can_write_header(header: &Header) -> (fits: bool)
    ensures
        fits == dictionary_fits(header@),
{
    match prepare_dictionary(header) {
        Ok(dict) => check_layout(dict.len()),
        Err(_) => true,
    }
}

/// Writes the header that says `header` into a buffer of its own. Its
/// dictionary has to leave room for the fields before it in the blocks that
/// its length asks for: `can_write_header` tells.
pub fn write_header(header: &Header) -> (bytes: Result<Vec<u8>, WriteHeaderError>)
    requires
        dictionary_fits(header@),
    ensures
        view_result(bytes) == write_header_spec(header@),
        bytes matches Ok(bytes) ==> prepare_dictionary_spec(header@) matches Ok(dict) && {
            let dict_at = dictionary_start(bytes[6]) as int;
            let padding_at = dict_at + dict.len();
            &&& bytes.len() % 64 == 0
            &&& padding_at + 1 <= bytes.len() < padding_at + 1 + 64
            &&& bytes[6] == (if bytes.len() <= 65535 {
                1u8
            } else {
                2u8
            })
            &&& dict_at + le_value(bytes@.subrange(8, dict_at)) == bytes.len()
            &&& bytes@.subrange(dict_at, padding_at) == dict
            &&& forall|i: int| padding_at <= i < bytes.len() - 1 ==> bytes[i] == 0x20
            &&& bytes[bytes.len() - 1] == 0x0a
        },
{
    let dict: Vec<u8> = match prepare_dictionary(header) {
        Ok(dict) => dict,
        Err(error) => {
            return Err(error);
        },
    };
    let buffer_info = prepare_buffer_info(dict.len());
    let padding: Vec<u8> = match prepare_padding(&buffer_info) {
        Ok(padding) => padding,
        Err(error) => {
            return Err(error);
        },
    };
    proof {
        lemma_header_bytes(dict@);
    }
    Ok(write_all(&buffer_info, dict.as_slice(), padding.as_slice()))
}

} // verus!
