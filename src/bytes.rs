//! Little-endian fields of on-disk records.
use vstd::prelude::*;

verus! {

/// The little-endian 16-bit value at `i`.
pub open spec fn le16(b: Seq<u8>, i: int) -> nat {
    (b[i] as nat) + 256 * (b[i + 1] as nat)
}

/// The little-endian 32-bit value at `i`.
pub open spec fn le32(b: Seq<u8>, i: int) -> nat {
    (b[i] as nat) + 256 * (b[i + 1] as nat) + 65536 * (b[i + 2] as nat) + 16777216 * (
    b[i + 3] as nat)
}

/// The first `n` bytes of `s`, or all of `s` when it is shorter.
pub open spec fn prefix_upto(s: Seq<u8>, n: nat) -> Seq<u8> {
    if s.len() <= n { s } else { s.take(n as int) }
}

pub fn read_u16(b: &Vec<u8>, i: usize) -> (r: u16)
    requires
        i + 2 <= b@.len(),
    ensures
        r as nat == le16(b@, i as int),
{
    assert(i + 2 <= b.len());
    let b0 = b[i] as u16;
    let b1 = b[i + 1] as u16;
    b0 + 256 * b1
}

pub fn read_u32(b: &Vec<u8>, i: usize) -> (r: u32)
    requires
        i + 4 <= b@.len(),
    ensures
        r as nat == le32(b@, i as int),
{
    assert(i + 4 <= b.len());
    let b0 = b[i] as u32;
    let b1 = b[i + 1] as u32;
    let b2 = b[i + 2] as u32;
    let b3 = b[i + 3] as u32;
    assert(b0 <= 255 && b1 <= 255 && b2 <= 255 && b3 <= 255);
    b0 + 256 * b1 + 65536 * b2 + 16777216 * b3
}

} // verus!
