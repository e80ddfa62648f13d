//! The fixed numbers of the header layout.

use vstd::prelude::*;

verus! {

/// The six bytes every header begins with.
pub const MAGIC_STRING: [u8; 6] = [0x93, 0x4e, 0x55, 0x4d, 0x50, 0x59];

/// The number of bytes of the magic string.
pub const SIZE_MAGIC_STRING: usize = 6;

/// The major version takes one byte.
pub const SIZE_MAJOR_VERSION: usize = 1;

/// The minor version takes one byte.
pub const SIZE_MINOR_VERSION: usize = 1;

/// The only minor version there is.
pub const MINOR_VERSION: u8 = 0;

/// The width of the length field under major version 1.
pub const SIZE_HEADER_LEN_V1: usize = 2;

/// The width of the length field under major versions 2 and 3.
pub const SIZE_HEADER_LEN_V2: usize = 4;

/// A header, from its magic string to its closing newline, fills whole blocks of this size.
pub const HEADER_BLOCK_SIZE: usize = 64;

/// The largest header that major version 1 is chosen for.
pub const MAX_HEADER_SIZE_V1: usize = 65535;

/// Whether `c` may follow the opening quote of a type descriptor.
pub open spec fn is_endian_specifier(c: char) -> bool {
    c == '<' || c == '>' || c == '=' || c == '|'
}

/// The width in bytes of the length field under `major_version`.
pub open spec fn size_header_len(major_version: u8) -> nat {
    if major_version == 1 {
        2
    } else {
        4
    }
}

} // verus!
