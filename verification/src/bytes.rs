//! Reading fixed-width integers out of byte buffers, in both byte orders.

use vstd::prelude::*;

verus! {

/// Big-endian 16-bit value at offset `i`.
pub open spec fn spec_be16(b: Seq<u8>, i: int) -> u16
    recommends
        0 <= i,
        i + 2 <= b.len(),
{
    (b[i] as u16 * 256 + b[i + 1] as u16) as u16
}

/// Little-endian 16-bit value at offset `i`.
pub open spec fn spec_le16(b: Seq<u8>, i: int) -> u16
    recommends
        0 <= i,
        i + 2 <= b.len(),
{
    (b[i + 1] as u16 * 256 + b[i] as u16) as u16
}

/// Read a little-endian 16-bit value.
pub fn le16(b: &[u8], i: usize) -> (r: u16)
    requires
        i + 2 <= b@.len(),
    ensures
        r == spec_le16(b@, i as int),
{
    proof {
        vstd::slice::axiom_spec_len(b);
    }
    b[i + 1] as u16 * 256 + b[i] as u16
}

/// Big-endian 32-bit value at offset `i`.
pub open spec fn spec_be32(b: Seq<u8>, i: int) -> u32
    recommends
        0 <= i,
        i + 4 <= b.len(),
{
    ((b[i] as nat) * 0x1000000 + (b[i + 1] as nat) * 0x10000 + (b[i + 2] as nat) * 0x100 + (b[i
        + 3] as nat)) as u32
}

/// Little-endian 32-bit value at offset `i`.
pub open spec fn spec_le32(b: Seq<u8>, i: int) -> u32
    recommends
        0 <= i,
        i + 4 <= b.len(),
{
    ((b[i + 3] as nat) * 0x1000000 + (b[i + 2] as nat) * 0x10000 + (b[i + 1] as nat) * 0x100 + (
    b[i] as nat)) as u32
}

/// Little-endian 64-bit value at offset `i`.
pub open spec fn spec_le64(b: Seq<u8>, i: int) -> u64
    recommends
        0 <= i,
        i + 8 <= b.len(),
{
    ((spec_le32(b, i + 4) as nat) * 0x1_0000_0000 + (spec_le32(b, i) as nat)) as u64
}

/// Read a little-endian 64-bit value.
pub fn le64(b: &[u8], i: usize) -> (r: u64)
    requires
        i + 8 <= b@.len(),
    ensures
        r == spec_le64(b@, i as int),
{
    proof {
        vstd::slice::axiom_spec_len(b);
    }
    let lo = le32(b, i);
    let hi = le32(b, i + 4);
    hi as u64 * 0x1_0000_0000 + lo as u64
}

/// Read a big-endian 16-bit value.
pub fn be16(b: &[u8], i: usize) -> (r: u16)
    requires
        i + 2 <= b@.len(),
    ensures
        r == spec_be16(b@, i as int),
{
    b[i] as u16 * 256 + b[i + 1] as u16
}

/// Read a big-endian 32-bit value.
pub fn be32(b: &[u8], i: usize) -> (r: u32)
    requires
        i + 4 <= b@.len(),
    ensures
        r == spec_be32(b@, i as int),
{
    b[i] as u32 * 0x1000000 + b[i + 1] as u32 * 0x10000 + b[i + 2] as u32 * 0x100 + b[i
        + 3] as u32
}

/// Read a little-endian 32-bit value.
pub fn le32(b: &[u8], i: usize) -> (r: u32)
    requires
        i + 4 <= b@.len(),
    ensures
        r == spec_le32(b@, i as int),
{
    proof {
        vstd::slice::axiom_spec_len(b);
    }
    b[i + 3] as u32 * 0x1000000 + b[i + 2] as u32 * 0x10000 + b[i + 1] as u32 * 0x100 + b[i] as u32
}

} // verus!
