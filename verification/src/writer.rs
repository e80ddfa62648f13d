//! The write path: the dictionary of a header, the layout of the buffer
//! that holds it, its padding, and the bytes of the whole.

pub mod dict;
pub mod error;

use crate::bytes::{le_bytes, le_limit, le_value, lemma_le_round_trip, to_le_bytes};
use crate::consts::{
    size_header_len, HEADER_BLOCK_SIZE, MAGIC_STRING, MAX_HEADER_SIZE_V1, MINOR_VERSION,
    SIZE_HEADER_LEN_V1, SIZE_HEADER_LEN_V2, SIZE_MAGIC_STRING, SIZE_MAJOR_VERSION,
    SIZE_MINOR_VERSION,
};
use crate::error::{WriteHeaderError, WriteHeaderErrorView};
use crate::text::view_result;
use crate::writer::dict::{
    fortran_order_text, prepare_descr, prepare_descr_spec, prepare_fortran_order, prepare_shape,
    prepare_shape_spec,
};
use crate::writer::error::ValidationErrorView;
use crate::{Header, HeaderView};
use vstd::prelude::*;
use vstd::utf8::encode_utf8;

verus! {

/// How the buffer of a header is laid out around its dictionary.
pub struct BufferInfo {
    major_version: u8,
    header_len: Vec<u8>,
    padding_size: usize,
}

/// A `BufferInfo` as contracts see it.
pub struct BufferInfoView {
    pub major_version: u8,
    /// The bytes of the length field.
    pub header_len: Seq<u8>,
    pub padding_size: nat,
}

impl BufferInfoView {
    /// What holds of every layout: its major version is one that is written,
    /// its length field has the width of that version, and what the field
    /// counts holds the padding.
    pub open spec fn wf(self) -> bool {
        &&& self.major_version == 1 || self.major_version == 2
        &&& self.header_len.len() == size_header_len(self.major_version)
        &&& self.padding_size <= le_value(self.header_len)
    }
}

impl View for BufferInfo {
    type V = BufferInfoView;

    closed spec fn view(&self) -> BufferInfoView {
        BufferInfoView {
            major_version: self.major_version,
            header_len: self.header_len@,
            padding_size: self.padding_size as nat,
        }
    }
}

impl BufferInfo {
    /// The major version that the layout chooses.
    pub fn major_version(&self) -> (major_version: u8)
        ensures
            major_version == self@.major_version,
    {
        self.major_version
    }

    /// The bytes of the length field.
    pub fn header_len(&self) -> (header_len: &Vec<u8>)
        ensures
            header_len@ == self@.header_len,
    {
        &self.header_len
    }

    /// How many bytes of padding follow the dictionary.
    pub fn padding_size(&self) -> (padding_size: usize)
        ensures
            padding_size == self@.padding_size,
    {
        self.padding_size
    }
}

/// The text of the dictionary: the three keys in their order, each with its
/// prepared value. The first value that is refused decides the error.
pub open spec fn dictionary_text(header: HeaderView) -> Result<Seq<char>, ValidationErrorView> {
    match prepare_descr_spec(header.descr) {
        Err(error) => Err(error),
        Ok(descr) => match prepare_shape_spec(header.shape) {
            Err(error) => Err(error),
            Ok(shape) => Ok(
                "{'descr':"@ + descr + ",'fortran_order':"@ + fortran_order_text(
                    header.fortran_order,
                ) + ",'shape':"@ + shape + "}"@,
            ),
        },
    }
}

/// The bytes of the dictionary: its text in UTF-8.
pub open spec fn prepare_dictionary_spec(header: HeaderView) -> Result<
    Seq<u8>,
    WriteHeaderErrorView,
> {
    match dictionary_text(header) {
        Err(error) => Err(WriteHeaderErrorView::ValidationFailed(error)),
        Ok(text) => Ok(encode_utf8(text)),
    }
}

/// Checks the values of `header` and writes its dictionary.
pub fn prepare_dictionary(header: &Header) -> (dict: Result<Vec<u8>, WriteHeaderError>)
    ensures
        view_result(dict) == prepare_dictionary_spec(header@),
{
    let descr = match prepare_descr(header.descr.as_str()) {
        Ok(descr) => descr,
        Err(error) => {
            return Err(WriteHeaderError::ValidationFailed(error));
        },
    };
    let fortran_order = match prepare_fortran_order(header.fortran_order) {
        Ok(fortran_order) => fortran_order,
        Err(error) => {
            return Err(WriteHeaderError::ValidationFailed(error));
        },
    };
    let shape = match prepare_shape(header.shape.as_slice()) {
        Ok(shape) => shape,
        Err(error) => {
            return Err(WriteHeaderError::ValidationFailed(error));
        },
    };
    let mut text = String::from_str("{'descr':");
    text.append(descr.as_str());
    text.append(",'fortran_order':");
    text.append(fortran_order.as_str());
    text.append(",'shape':");
    text.append(shape.as_str());
    text.append("}");
    Ok(text.as_str().as_bytes_vec())
}

/// The size of the whole header around a dictionary of `dict_len` bytes:
/// the smallest number of whole blocks that is greater than `dict_len`.
pub open spec fn header_size_for(dict_len: nat) -> nat {
    (dict_len / (HEADER_BLOCK_SIZE as nat) + 1) * (HEADER_BLOCK_SIZE as nat)
}

/// The major version for a header of `header_size` bytes: the first, where
/// its two-byte length field can hold it.
pub open spec fn major_version_for(header_size: nat) -> u8 {
    if header_size <= MAX_HEADER_SIZE_V1 {
        1
    } else {
        2
    }
}

/// What the length field says around a dictionary of `dict_len` bytes: the
/// size of the header without magic string, versions and the field itself.
pub open spec fn header_len_for(dict_len: nat) -> int {
    let header_size = header_size_for(dict_len);
    header_size - SIZE_MAGIC_STRING - SIZE_MAJOR_VERSION - SIZE_MINOR_VERSION - size_header_len(
        major_version_for(header_size),
    )
}

/// Whether a dictionary of `dict_len` bytes can be laid out: it leaves
/// room for the fields before it, and the numbers fit their fields.
pub open spec fn layout_fits(dict_len: nat) -> bool {
    &&& dict_len <= header_len_for(dict_len)
    &&& header_len_for(dict_len) <= u32::MAX
    &&& header_size_for(dict_len) <= usize::MAX
}

/// The layout around a dictionary of `dict_len` bytes.
pub open spec fn buffer_info_spec(dict_len: nat) -> BufferInfoView {
    let major_version = major_version_for(header_size_for(dict_len));
    BufferInfoView {
        major_version,
        header_len: le_bytes(header_len_for(dict_len) as nat, size_header_len(major_version)),
        padding_size: (header_len_for(dict_len) - dict_len) as nat,
    }
}

/// Whether a dictionary of `dict_len` bytes can be laid out.
pub fn check_layout(dict_len: usize) -> (fits: bool)
    ensures
        fits == layout_fits(dict_len as nat),
{
    if dict_len > 0xffff_ffff {
        assert(header_size_for(dict_len as nat) >= 0x1_0000_0040) by (nonlinear_arith)
            requires
                dict_len > 0xffff_ffff,
        ;
        return false;
    }
    let blocks: u64 = dict_len as u64 / 64 + 1;
    let header_size: u64 = blocks * 64;
    let width: u64 = if header_size <= 65535 {
        2
    } else {
        4
    };
    let header_len: u64 = header_size - 8 - width;
    dict_len as u64 <= header_len && header_len <= 0xffff_ffff && header_size <= usize::MAX as u64
}

/// What the layout around a dictionary of `dict_len` bytes comes to: whole
/// blocks, no more of them than `dict_len` asks for, the first major
/// version exactly where the size fits its length field, and a length
/// field that counts the dictionary and its padding.
pub proof fn lemma_layout(dict_len: nat)
    requires
        layout_fits(dict_len),
    ensures
        ({
            let buffer_info = buffer_info_spec(dict_len);
            let header_size = header_size_for(dict_len);
            let width = size_header_len(buffer_info.major_version);
            &&& header_size % 64 == 0
            &&& header_size - 64 <= dict_len < header_size
            &&& buffer_info.major_version == 1 <==> header_size <= 65535
            &&& buffer_info.major_version == 2 <==> header_size > 65535
            &&& buffer_info.header_len.len() == width
            &&& le_value(buffer_info.header_len) == dict_len + buffer_info.padding_size
            &&& 8 + width + dict_len + buffer_info.padding_size == header_size
        }),
{
    let header_size = header_size_for(dict_len);
    let major_version = major_version_for(header_size);
    assert(header_size % 64 == 0 && header_size - 64 <= dict_len < header_size)
        by (nonlinear_arith)
        requires
            header_size == (dict_len / 64 + 1) * 64,
    ;
    reveal_with_fuel(le_limit, 5);
    lemma_le_round_trip(header_len_for(dict_len) as nat, size_header_len(major_version));
}

/// Lays the buffer out around a dictionary of `dict_len` bytes. The
/// dictionary has to leave room for the fields before it in the blocks
/// that its length asks for: `check_layout` tells.
pub fn prepare_buffer_info(dict_len: usize) -> (buffer_info: BufferInfo)
    requires
        layout_fits(dict_len as nat),
    ensures
        buffer_info@ == buffer_info_spec(dict_len as nat),
        buffer_info@.wf(),
        buffer_info@.major_version == 1 <==> header_size_for(dict_len as nat) <= 65535,
        buffer_info@.major_version == 2 <==> header_size_for(dict_len as nat) > 65535,
        le_value(buffer_info@.header_len) == dict_len + buffer_info@.padding_size,
{
    proof {
        lemma_layout(dict_len as nat);
    }
    let mut header_size: usize = HEADER_BLOCK_SIZE;
    while header_size <= dict_len
        invariant
            header_size % 64 == 0,
            64 <= header_size <= header_size_for(dict_len as nat) <= usize::MAX,
        decreases header_size_for(dict_len as nat) - header_size,
    {
        assert(header_size + 64 <= header_size_for(dict_len as nat)) by (nonlinear_arith)
            requires
                header_size % 64 == 0,
                header_size <= dict_len,
        ;
        header_size += HEADER_BLOCK_SIZE;
    }
    assert(header_size == header_size_for(dict_len as nat)) by (nonlinear_arith)
        requires
            header_size % 64 == 0,
            dict_len < header_size <= header_size_for(dict_len as nat),
    ;
    let major_version: u8 = if header_size <= MAX_HEADER_SIZE_V1 {
        1
    } else {
        2
    };
    let size_header_len: usize = if major_version == 1 {
        SIZE_HEADER_LEN_V1
    } else {
        SIZE_HEADER_LEN_V2
    };
    let header_len: usize = header_size - SIZE_MAGIC_STRING - SIZE_MAJOR_VERSION
        - SIZE_MINOR_VERSION - size_header_len;
    let padding_size: usize = header_len - dict_len;
    let header_len_bytes: Vec<u8> = to_le_bytes(header_len, size_header_len);
    BufferInfo { major_version, header_len: header_len_bytes, padding_size }
}

/// Padding of `padding_size` bytes: spaces, and a newline at the end.
pub open spec fn padding_bytes(padding_size: nat) -> Seq<u8>
    recommends
        padding_size > 0,
{
    Seq::new((padding_size - 1) as nat, |i: int| 0x20u8).push(0x0au8)
}

/// The padding of a header: there is none of no bytes, for the newline has to stand.
pub open spec fn padding_spec(padding_size: nat) -> Result<Seq<u8>, WriteHeaderErrorView> {
    if padding_size == 0 {
        Err(WriteHeaderErrorView::ZeroPaddingSize)
    } else {
        Ok(padding_bytes(padding_size))
    }
}

/// Makes the padding that `buffer_info` asks for.
pub fn prepare_padding(buffer_info: &BufferInfo) -> (padding: Result<Vec<u8>, WriteHeaderError>)
    ensures
        view_result(padding) == padding_spec(buffer_info@.padding_size),
        padding matches Ok(padding) ==> {
            &&& padding.len() == buffer_info@.padding_size
            &&& forall|i: int| 0 <= i < padding.len() - 1 ==> padding[i] == 0x20
            &&& padding[padding.len() - 1] == 0x0a
        },
{
    let padding_size: usize = buffer_info.padding_size;
    if padding_size == 0 {
        return Err(WriteHeaderError::ZeroPaddingSize);
    }
    let mut buf: Vec<u8> = Vec::new();
    let mut i: usize = 0;
    while i < padding_size - 1
        invariant
            padding_size > 0,
            i <= padding_size - 1,
            buf@ == Seq::new(i as nat, |j: int| 0x20u8),
        decreases padding_size - 1 - i,
    {
        buf.push(0x20u8);
        assert(buf@ =~= Seq::new((i + 1) as nat, |j: int| 0x20u8));
        i += 1;
    }
    buf.push(0x0au8);
    Ok(buf)
}

/// The bytes of a header: magic string, versions, length field, dictionary, padding.
pub open spec fn header_bytes(buffer_info: BufferInfoView, dict: Seq<u8>, padding: Seq<u8>) -> Seq<
    u8,
> {
    MAGIC_STRING@ + seq![buffer_info.major_version] + seq![MINOR_VERSION] + buffer_info.header_len
        + dict + padding
}

/// Puts `bytes` behind what `buf` holds.
fn extend(buf: &mut Vec<u8>, bytes: &[u8])
    ensures
        final(buf)@ == old(buf)@ + bytes@,
{
    let mut i: usize = 0;
    while i < bytes.len()
        invariant
            i <= bytes.len(),
            buf@ == old(buf)@ + bytes@.take(i as int),
        decreases bytes.len() - i,
    {
        buf.push(bytes[i]);
        assert(buf@ =~= old(buf)@ + bytes@.take(i + 1));
        i += 1;
    }
    assert(bytes@.take(bytes.len() as int) =~= bytes@);
}

/// Lays the parts of a header out in one buffer, ready to be written at once.
pub fn write_all(buffer_info: &BufferInfo, dict: &[u8], padding: &[u8]) -> (buf: Vec<u8>)
    ensures
        buf@ == header_bytes(buffer_info@, dict@, padding@),
{
    let mut buf: Vec<u8> = Vec::new();
    extend(&mut buf, MAGIC_STRING.as_slice());
    buf.push(buffer_info.major_version);
    buf.push(MINOR_VERSION);
    extend(&mut buf, buffer_info.header_len.as_slice());
    extend(&mut buf, dict);
    extend(&mut buf, padding);
    assert(buf@ =~= header_bytes(buffer_info@, dict@, padding@));
    buf
}

/// Where the dictionary of a header begins, by its major version.
pub open spec fn dictionary_start(major_version: u8) -> nat {
    SIZE_MAGIC_STRING as nat + SIZE_MAJOR_VERSION as nat + SIZE_MINOR_VERSION as nat
        + size_header_len(major_version)
}

/// The header around the dictionary `dict`, field by field: its size is the
/// least number of whole blocks that holds the fields, the dictionary and
/// one byte of padding; its major version is the first exactly where that
/// size is at most 65535; its length field counts what follows it.
pub proof fn lemma_header_bytes(dict: Seq<u8>)
    requires
        layout_fits(dict.len()),
        buffer_info_spec(dict.len()).padding_size > 0,
    ensures
        ({
            let buffer_info = buffer_info_spec(dict.len());
            let padding = padding_bytes(buffer_info.padding_size);
            let bytes = header_bytes(buffer_info, dict, padding);
            let dict_at = dictionary_start(buffer_info.major_version) as int;
            &&& bytes.len() == header_size_for(dict.len())
            &&& bytes.len() % 64 == 0
            &&& dict_at + dict.len() + 1 <= bytes.len() < dict_at + dict.len() + 1 + 64
            &&& bytes.take(6) == MAGIC_STRING@
            &&& bytes[6] == buffer_info.major_version
            &&& bytes[6] == (if bytes.len() <= 65535 {
                1u8
            } else {
                2u8
            })
            &&& bytes[7] == MINOR_VERSION
            &&& bytes.subrange(8, dict_at) == buffer_info.header_len
            &&& dict_at + le_value(buffer_info.header_len) == bytes.len()
            &&& bytes.subrange(dict_at, dict_at + dict.len()) == dict
            &&& bytes.subrange(dict_at + dict.len(), bytes.len() as int) == padding
        }),
{
    lemma_layout(dict.len());
    let buffer_info = buffer_info_spec(dict.len());
    let padding = padding_bytes(buffer_info.padding_size);
    let bytes = header_bytes(buffer_info, dict, padding);
    let dict_at = dictionary_start(buffer_info.major_version) as int;
    assert(bytes.take(6) =~= MAGIC_STRING@);
    assert(bytes.subrange(8, dict_at) =~= buffer_info.header_len);
    assert(bytes.subrange(dict_at, dict_at + dict.len()) =~= dict);
    assert(bytes.subrange(dict_at + dict.len(), bytes.len() as int) =~= padding);
}

} // verus!
