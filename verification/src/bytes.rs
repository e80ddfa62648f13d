//! Little-endian numbers, as the length field of a header holds them.

use vstd::prelude::*;

verus! {

/// The `width` low bytes of `value`, least significant first.
pub open spec fn le_bytes(value: nat, width: nat) -> Seq<u8>
    decreases width,
{
    if width == 0 {
        Seq::empty()
    } else {
        seq![(value % 256) as u8] + le_bytes(value / 256, (width - 1) as nat)
    }
}

/// The number that `bytes` hold, least significant first.
pub open spec fn le_value(bytes: Seq<u8>) -> nat
    decreases bytes.len(),
{
    if bytes.len() == 0 {
        0
    } else {
        bytes[0] as nat + 256 * le_value(bytes.drop_first())
    }
}

/// 256 to the power of `width`, for the widths a length field can have.
pub open spec fn le_limit(width: nat) -> nat
    decreases width,
{
    if width == 0 {
        1
    } else {
        256 * le_limit((width - 1) as nat)
    }
}

/// `width` bytes hold a number below `le_limit(width)`.
pub proof fn lemma_le_value_bound(bytes: Seq<u8>)
    ensures
        le_value(bytes) < le_limit(bytes.len()),
    decreases bytes.len(),
{
    if bytes.len() > 0 {
        lemma_le_value_bound(bytes.drop_first());
    }
}

/// A number that fits into `width` bytes is read back from them.
pub proof fn lemma_le_round_trip(value: nat, width: nat)
    requires
        value < le_limit(width),
    ensures
        le_bytes(value, width).len() == width,
        le_value(le_bytes(value, width)) == value,
    decreases width,
{
    if width > 0 {
        lemma_le_round_trip(value / 256, (width - 1) as nat);
        assert(le_bytes(value, width).drop_first() =~= le_bytes(value / 256, (width - 1) as nat));
    }
}

/// Bytes are written back from the number read from them.
pub proof fn lemma_le_bytes_of_value(bytes: Seq<u8>)
    ensures
        le_bytes(le_value(bytes), bytes.len()) == bytes,
    decreases bytes.len(),
{
    if bytes.len() > 0 {
        let rest = bytes.drop_first();
        lemma_le_bytes_of_value(rest);
        let value = le_value(bytes);
        assert(value % 256 == bytes[0] as nat && value / 256 == le_value(rest)) by {
            let b = bytes[0] as nat;
            let r = le_value(rest);
            assert(b < 256);
            assert((b + 256 * r) % 256 == b && (b + 256 * r) / 256 == r) by (nonlinear_arith)
                requires
                    b < 256,
            ;
        }
        assert(le_bytes(value, bytes.len()) =~= bytes);
    }
}

/// Writes `value` into `width` bytes.
pub fn to_le_bytes(value: usize, width: usize) -> (bytes: Vec<u8>)
    ensures
        bytes@ == le_bytes(value as nat, width as nat),
{
    let mut bytes: Vec<u8> = Vec::new();
    let mut rest: usize = value;
    let mut i: usize = 0;
    while i < width
        invariant
            i <= width,
            bytes@ + le_bytes(rest as nat, (width - i) as nat) == le_bytes(
                value as nat,
                width as nat,
            ),
        decreases width - i,
    {
        let ghost before = bytes@;
        bytes.push((rest % 256) as u8);
        assert(bytes@ + le_bytes((rest / 256) as nat, (width - i - 1) as nat) =~= before
            + le_bytes(rest as nat, (width - i) as nat));
        rest = rest / 256;
        i += 1;
    }
    assert(bytes@ + le_bytes(rest as nat, 0) =~= bytes@);
    bytes
}

/// Reads the number that up to four bytes hold.
pub fn from_le_bytes(bytes: &[u8]) -> (value: usize)
    requires
        bytes.len() <= 4,
    ensures
        value == le_value(bytes@),
{
    let mut value: usize = 0;
    let mut i: usize = bytes.len();
    while i > 0
        invariant
            i <= bytes.len() <= 4,
            value == le_value(bytes@.skip(i as int)),
            value < le_limit((bytes.len() - i) as nat),
        decreases i,
    {
        i -= 1;
        let ghost tail = bytes@.skip(i as int);
        assert(tail.drop_first() =~= bytes@.skip(i + 1));
        proof {
            reveal_with_fuel(le_limit, 5);
        }
        value = bytes[i] as usize + 256 * value;
    }
    assert(bytes@.skip(0) =~= bytes@);
    value
}

} // verus!
