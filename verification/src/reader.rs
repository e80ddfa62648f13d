//! The read path: the fields before the dictionary, checked one by one as
//! their bytes come in, and the dictionary itself.

pub mod dict;
pub mod error;
pub mod pattern;

use crate::bytes::{from_le_bytes, le_limit, le_value, lemma_le_value_bound};
use crate::consts::{
    size_header_len, HEADER_BLOCK_SIZE, MAGIC_STRING, MINOR_VERSION, SIZE_HEADER_LEN_V1,
    SIZE_HEADER_LEN_V2, SIZE_MAGIC_STRING, SIZE_MAJOR_VERSION, SIZE_MINOR_VERSION,
};
use crate::error::{ReadHeaderError, ReadHeaderErrorView};
use crate::reader::dict::{parse, parse_spec};
use crate::text::view_result;
use crate::{Header, HeaderView};
use vstd::prelude::*;
use vstd::slice::slice_to_vec;

verus! {

/// The first six bytes of a header are the magic string.
pub open spec fn check_magic_string_spec(buf: Seq<u8>) -> Result<(), ReadHeaderErrorView> {
    if buf == MAGIC_STRING@ {
        Ok(())
    } else {
        Err(ReadHeaderErrorView::InvalidMagicString(buf))
    }
}

/// Checks the bytes that were read where the magic string stands.
pub fn check_magic_string(buf: &[u8]) -> (checked: Result<(), ReadHeaderError>)
    ensures
        view_result(checked) == check_magic_string_spec(buf@),
{
    let mut same: bool = buf.len() == SIZE_MAGIC_STRING;
    let mut i: usize = 0;
    while same && i < SIZE_MAGIC_STRING
        invariant
            i <= SIZE_MAGIC_STRING,
            same ==> buf.len() == SIZE_MAGIC_STRING,
            same ==> forall|j: int| 0 <= j < i ==> buf[j] == MAGIC_STRING[j],
            !same ==> buf@ != MAGIC_STRING@,
        decreases SIZE_MAGIC_STRING - i,
    {
        if buf[i] != MAGIC_STRING[i] {
            same = false;
        }
        i += 1;
    }
    if same {
        assert(buf@ =~= MAGIC_STRING@);
        Ok(())
    } else {
        Err(ReadHeaderError::InvalidMagicString(slice_to_vec(buf)))
    }
}

/// The major versions are 1, 2 and 3.
pub open spec fn fetch_major_version_spec(major_version: u8) -> Result<u8, ReadHeaderErrorView> {
    if 1 <= major_version <= 3 {
        Ok(major_version)
    } else {
        Err(ReadHeaderErrorView::InvalidMajorVersion(major_version))
    }
}

/// Checks the byte that was read where the major version stands.
pub fn fetch_major_version(major_version: u8) -> (fetched: Result<u8, ReadHeaderError>)
    ensures
        view_result(fetched) == fetch_major_version_spec(major_version),
{
    if !(1 <= major_version && major_version <= 3) {
        return Err(ReadHeaderError::InvalidMajorVersion(major_version));
    }
    Ok(major_version)
}

/// The minor version is 0.
pub open spec fn check_minor_version_spec(minor_version: u8) -> Result<(), ReadHeaderErrorView> {
    if minor_version == MINOR_VERSION {
        Ok(())
    } else {
        Err(ReadHeaderErrorView::InvalidMinorVersion(minor_version))
    }
}

/// Checks the byte that was read where the minor version stands.
pub fn check_minor_version(minor_version: u8) -> (checked: Result<(), ReadHeaderError>)
    ensures
        view_result(checked) == check_minor_version_spec(minor_version),
{
    if minor_version != MINOR_VERSION {
        return Err(ReadHeaderError::InvalidMinorVersion(minor_version));
    }
    Ok(())
}

/// The size of a whole header whose length field says `header_len`.
pub open spec fn header_size_of(major_version: u8, header_len: nat) -> nat {
    SIZE_MAGIC_STRING as nat + SIZE_MAJOR_VERSION as nat + SIZE_MINOR_VERSION as nat
        + size_header_len(major_version) + header_len
}

/// What the length field `buf` says, where the header it stands in fills whole blocks.
pub open spec fn fetch_header_len_spec(buf: Seq<u8>, major_version: u8) -> Result<
    usize,
    ReadHeaderErrorView,
> {
    let header_len = le_value(buf);
    let header_size = header_size_of(major_version, header_len);
    if !(1 <= major_version <= 3) {
        Err(ReadHeaderErrorView::InvalidMajorVersion(major_version))
    } else if header_size % (HEADER_BLOCK_SIZE as nat) != 0 {
        Err(ReadHeaderErrorView::InvalidHeaderSize(header_size as usize))
    } else {
        Ok(header_len as usize)
    }
}

/// Reads the bytes that were read where the length field stands: two under
/// major version 1 and four under any other. The size of the header has to
/// fit a `usize`, which it always does where that has 64 bits.
pub fn fetch_header_len(buf: &[u8], major_version: u8) -> (fetched: Result<
    usize,
    ReadHeaderError,
>)
    requires
        buf.len() == size_header_len(major_version),
        header_size_of(major_version, le_value(buf@)) <= usize::MAX,
    ensures
        view_result(fetched) == fetch_header_len_spec(buf@, major_version),
{
    let header_len: usize = from_le_bytes(buf);
    let header_size: usize = if major_version == 1 {
        SIZE_MAGIC_STRING + SIZE_MAJOR_VERSION + SIZE_MINOR_VERSION + SIZE_HEADER_LEN_V1
            + header_len
    } else if major_version == 2 || major_version == 3 {
        SIZE_MAGIC_STRING + SIZE_MAJOR_VERSION + SIZE_MINOR_VERSION + SIZE_HEADER_LEN_V2
            + header_len
    } else {
        return Err(ReadHeaderError::InvalidMajorVersion(major_version));
    };
    if header_size % HEADER_BLOCK_SIZE != 0 {
        return Err(ReadHeaderError::InvalidHeaderSize(header_size));
    }
    Ok(header_len)
}

/// The header in the bytes that the length field counts: the dictionary and its padding.
pub open spec fn fetch_header_spec(buf: Seq<u8>) -> Result<HeaderView, ReadHeaderErrorView> {
    match parse_spec(buf) {
        Ok(header) => Ok(header),
        Err(error) => Err(ReadHeaderErrorView::ParseFailed(error)),
    }
}

/// Reads the header from the bytes that the length field counts.
pub fn fetch_header(buf: &[u8]) -> (header: Result<Header, ReadHeaderError>)
    ensures
        view_result(header) == fetch_header_spec(buf@),
{
    match parse(buf) {
        Ok(header) => Ok(header),
        Err(error) => Err(ReadHeaderError::ParseFailed(error)),
    }
}

/// Where the reading of a header stands: the field whose bytes come next,
/// with what the fields before it have settled.
#[derive(Debug, Clone, Copy, PartialEq, Eq, Structural)]
pub enum ReadStep {
    MagicString,
    MajorVersion,
    MinorVersion { major_version: u8 },
    HeaderLen { major_version: u8 },
    Dictionary { header_len: usize },
}

/// What a step leads to: the next one, or the header.
#[derive(Debug, PartialEq)]
pub enum ReadProgress {
    Next(ReadStep),
    Done(Header),
}

/// A `ReadProgress` as contracts see it.
pub enum ReadProgressView {
    Next(ReadStep),
    Done(HeaderView),
}

impl View for ReadProgress {
    type V = ReadProgressView;

    open spec fn view(&self) -> ReadProgressView {
        match self {
            ReadProgress::Next(step) => ReadProgressView::Next(*step),
            ReadProgress::Done(header) => ReadProgressView::Done(header@),
        }
    }
}

impl ReadStep {
    /// How many bytes the step asks for.
    pub open spec fn wanted_spec(self) -> nat {
        match self {
            ReadStep::MagicString => SIZE_MAGIC_STRING as nat,
            ReadStep::MajorVersion => SIZE_MAJOR_VERSION as nat,
            ReadStep::MinorVersion { .. } => SIZE_MINOR_VERSION as nat,
            ReadStep::HeaderLen { major_version } => size_header_len(major_version),
            ReadStep::Dictionary { header_len } => header_len as nat,
        }
    }

    /// How many steps follow this one at most.
    pub open spec fn steps_left(self) -> nat {
        match self {
            ReadStep::MagicString => 4,
            ReadStep::MajorVersion => 3,
            ReadStep::MinorVersion { .. } => 2,
            ReadStep::HeaderLen { .. } => 1,
            ReadStep::Dictionary { .. } => 0,
        }
    }

    /// Whether `bytes` are bytes that the step can take: as many as it asks
    /// for, and a length field among them announces a size that fits a `usize`.
    pub open spec fn takes(self, bytes: Seq<u8>) -> bool {
        &&& bytes.len() == self.wanted_spec()
        &&& self matches ReadStep::HeaderLen { major_version } ==> header_size_of(
            major_version,
            le_value(bytes),
        ) <= usize::MAX
    }

    /// What the step makes of the bytes it asked for.
    pub open spec fn feed_spec(self, bytes: Seq<u8>) -> Result<
        ReadProgressView,
        ReadHeaderErrorView,
    > {
        match self {
            ReadStep::MagicString => match check_magic_string_spec(bytes) {
                Ok(()) => Ok(ReadProgressView::Next(ReadStep::MajorVersion)),
                Err(error) => Err(error),
            },
            ReadStep::MajorVersion => match fetch_major_version_spec(bytes[0]) {
                Ok(major_version) => Ok(
                    ReadProgressView::Next(ReadStep::MinorVersion { major_version }),
                ),
                Err(error) => Err(error),
            },
            ReadStep::MinorVersion { major_version } => match check_minor_version_spec(bytes[0]) {
                Ok(()) => Ok(ReadProgressView::Next(ReadStep::HeaderLen { major_version })),
                Err(error) => Err(error),
            },
            ReadStep::HeaderLen { major_version } => match fetch_header_len_spec(
                bytes,
                major_version,
            ) {
                Ok(header_len) => Ok(ReadProgressView::Next(ReadStep::Dictionary { header_len })),
                Err(error) => Err(error),
            },
            ReadStep::Dictionary { .. } => match fetch_header_spec(bytes) {
                Ok(header) => Ok(ReadProgressView::Done(header)),
                Err(error) => Err(error),
            },
        }
    }

    /// What the steps from this one on make of `source`, each taking from
    /// its front the bytes it asks for. A source that ends before them
    /// fails as a byte source does.
    pub open spec fn run(self, source: Seq<u8>) -> Result<HeaderView, ReadHeaderErrorView>
        decreases self.steps_left(),
    {
        let wanted = self.wanted_spec() as int;
        if source.len() < wanted {
            Err(ReadHeaderErrorView::Io)
        } else {
            match self.feed_spec(source.take(wanted)) {
                Err(error) => Err(error),
                Ok(ReadProgressView::Done(header)) => Ok(header),
                Ok(ReadProgressView::Next(next)) => next.run(source.skip(wanted)),
            }
        }
    }

    /// The step that the reading of a header begins with.
    pub fn first() -> (step: ReadStep)
        ensures
            step == ReadStep::MagicString,
    {
        ReadStep::MagicString
    }

    /// How many bytes to read from the source and hand to `feed`.
    pub fn wanted(&self) -> (wanted: usize)
        ensures
            wanted == self.wanted_spec(),
    {
        match self {
            ReadStep::MagicString => SIZE_MAGIC_STRING,
            ReadStep::MajorVersion => SIZE_MAJOR_VERSION,
            ReadStep::MinorVersion { .. } => SIZE_MINOR_VERSION,
            ReadStep::HeaderLen { major_version } => if *major_version == 1 {
                SIZE_HEADER_LEN_V1
            } else {
                SIZE_HEADER_LEN_V2
            },
            ReadStep::Dictionary { header_len } => *header_len,
        }
    }

    /// Whether the step can take `bytes`.
    pub fn can_take(&self, bytes: &[u8]) -> (takes: bool)
        ensures
            takes == self.takes(bytes@),
    {
        if bytes.len() != self.wanted() {
            return false;
        }
        match self {
            ReadStep::HeaderLen { major_version } => {
                let header_len: usize = from_le_bytes(bytes);
                proof {
                    lemma_le_value_bound(bytes@);
                    reveal_with_fuel(le_limit, 5);
                }
                header_len as u64 + 12 <= usize::MAX as u64
            },
            _ => true,
        }
    }

    /// Takes the bytes that the step asked for, and says what comes next.
    pub fn feed(self, bytes: &[u8]) -> (progress: Result<ReadProgress, ReadHeaderError>)
        requires
            self.takes(bytes@),
        ensures
            view_result(progress) == self.feed_spec(bytes@),
            progress matches Ok(ReadProgress::Next(next)) ==> next.steps_left()
                < self.steps_left(),
    {
        match self {
            ReadStep::MagicString => match check_magic_string(bytes) {
                Ok(()) => Ok(ReadProgress::Next(ReadStep::MajorVersion)),
                Err(error) => Err(error),
            },
            ReadStep::MajorVersion => match fetch_major_version(bytes[0]) {
                Ok(major_version) => Ok(
                    ReadProgress::Next(ReadStep::MinorVersion { major_version }),
                ),
                Err(error) => Err(error),
            },
            ReadStep::MinorVersion { major_version } => match check_minor_version(bytes[0]) {
                Ok(()) => Ok(ReadProgress::Next(ReadStep::HeaderLen { major_version })),
                Err(error) => Err(error),
            },
            ReadStep::HeaderLen { major_version } => match fetch_header_len(bytes, major_version) {
                Ok(header_len) => Ok(ReadProgress::Next(ReadStep::Dictionary { header_len })),
                Err(error) => Err(error),
            },
            ReadStep::Dictionary { .. } => match fetch_header(bytes) {
                Ok(header) => Ok(ReadProgress::Done(header)),
                Err(error) => Err(error),
            },
        }
    }
}

} // verus!
