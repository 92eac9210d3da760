//! Bounds-checked reads of sub-slices and little-endian integers.
//!
//! Every other module reaches into an image through these functions only, so
//! no offset taken from a file is ever used unchecked. Offsets are `u64`
//! wherever they appear: an offset computed from a file's contents can be
//! wider than the `usize` of a 32-bit machine.

use vstd::prelude::*;
use vstd::slice::slice_subrange;

verus! {

/// The `len` bytes of `s` that start at `offset`, where they all lie inside `s`.
pub open spec fn subslice(s: Seq<u8>, offset: int, len: int) -> Option<Seq<u8>> {
    if 0 <= offset && 0 <= len && offset + len <= s.len() {
        Some(s.subrange(offset, offset + len))
    } else {
        None
    }
}

/// Whether every byte of `b` is zero.
pub open spec fn is_zero_filled(b: Seq<u8>) -> bool {
    forall|i: int| 0 <= i < b.len() ==> b[i] == 0
}

/// The number that two bytes spell in little-endian order.
pub open spec fn le_u16(b: Seq<u8>) -> int {
    b[0] + 0x100 * b[1]
}

/// The number that four bytes spell in little-endian order.
pub open spec fn le_u32(b: Seq<u8>) -> int {
    b[0] + 0x100 * b[1] + 0x1_0000 * b[2] + 0x100_0000 * b[3]
}

/// The number that eight bytes spell in little-endian order.
pub open spec fn le_u64(b: Seq<u8>) -> int {
    b[0] + 0x100 * b[1] + 0x1_0000 * b[2] + 0x100_0000 * b[3] + 0x1_0000_0000 * b[4]
        + 0x100_0000_0000 * b[5] + 0x1_0000_0000_0000 * b[6] + 0x100_0000_0000_0000 * b[7]
}

/// The little-endian `u16` at `offset`, where two bytes can be read there.
pub open spec fn u16_at(s: Seq<u8>, offset: int) -> Option<u16> {
    match subslice(s, offset, 2) {
        Some(b) => Some(le_u16(b) as u16),
        None => None,
    }
}

/// The little-endian `u32` at `offset`, where four bytes can be read there.
pub open spec fn u32_at(s: Seq<u8>, offset: int) -> Option<u32> {
    match subslice(s, offset, 4) {
        Some(b) => Some(le_u32(b) as u32),
        None => None,
    }
}

/// The little-endian `u64` at `offset`, where eight bytes can be read there.
pub open spec fn u64_at(s: Seq<u8>, offset: int) -> Option<u64> {
    match subslice(s, offset, 8) {
        Some(b) => Some(le_u64(b) as u64),
        None => None,
    }
}

/// Borrows `len` bytes of `slice` starting at `offset`, or nothing where they
/// do not all lie inside it.
pub fn get_subslice(slice: &[u8], offset: u64, len: usize) -> (r: Option<&[u8]>)
    ensures
        match r {
            Some(bytes) => subslice(slice@, offset as int, len as int) == Some(bytes@),
            None => subslice(slice@, offset as int, len as int) is None,
        },
{
    if offset <= slice.len() as u64 && len <= slice.len() - offset as usize {
        let start = offset as usize;
        Some(slice_subrange(slice, start, start + len))
    } else {
        None
    }
}

/// Tells whether every byte of `bytes` is zero.
pub fn all_zero(bytes: &[u8]) -> (r: bool)
    ensures
        r == is_zero_filled(bytes@),
{
    let mut i: usize = 0;
    while i < bytes.len()
        invariant
            i <= bytes@.len(),
            forall|j: int| 0 <= j < i ==> bytes@[j] == 0,
        decreases bytes@.len() - i,
    {
        if bytes[i] != 0 {
            return false;
        }
        i += 1;
    }
    true
}

/// Borrows the `LEN` bytes of `slice` that start at `offset` as an array.
pub fn get_fixed_subslice<const LEN: usize>(slice: &[u8], offset: u64) -> (r: Option<&[u8; LEN]>)
    ensures
        match r {
            Some(bytes) => subslice(slice@, offset as int, LEN as int) == Some(bytes@),
            None => subslice(slice@, offset as int, LEN as int) is None,
        },
{
    match get_subslice(slice, offset, LEN) {
        Some(bytes) => Some(as_array::<LEN>(bytes)),
        None => None,
    }
}

/// `TryFrom<&[u8]>` for `&[u8; LEN]` of the standard library: it succeeds on a
/// slice of exactly `LEN` elements, and the array it borrows holds the same
/// elements.
#[verifier::external_body]
fn as_array<const LEN: usize>(bytes: &[u8]) -> (r: &[u8; LEN])
    requires
        bytes@.len() == LEN,
    ensures
        r@ == bytes@,
{
    bytes.try_into().unwrap()
}

/// Reads the little-endian `u16` at `offset`.
pub fn get_u16(slice: &[u8], offset: u64) -> (r: Option<u16>)
    ensures
        r == u16_at(slice@, offset as int),
{
    match get_subslice(slice, offset, 2) {
        Some(b) => Some(b[0] as u16 + 0x100 * (b[1] as u16)),
        None => None,
    }
}

/// Reads the little-endian `u32` at `offset`.
pub fn get_u32(slice: &[u8], offset: u64) -> (r: Option<u32>)
    ensures
        r == u32_at(slice@, offset as int),
{
    match get_subslice(slice, offset, 4) {
        Some(b) => Some(
            b[0] as u32 + 0x100 * (b[1] as u32) + 0x1_0000 * (b[2] as u32) + 0x100_0000 * (
            b[3] as u32),
        ),
        None => None,
    }
}

/// Reads the little-endian `u64` at `offset`.
pub fn get_u64(slice: &[u8], offset: u64) -> (r: Option<u64>)
    ensures
        r == u64_at(slice@, offset as int),
{
    match get_subslice(slice, offset, 8) {
        Some(b) => Some(
            b[0] as u64 + 0x100 * (b[1] as u64) + 0x1_0000 * (b[2] as u64) + 0x100_0000 * (
            b[3] as u64) + 0x1_0000_0000 * (b[4] as u64) + 0x100_0000_0000 * (b[5] as u64)
                + 0x1_0000_0000_0000 * (b[6] as u64) + 0x100_0000_0000_0000 * (b[7] as u64),
        ),
        None => None,
    }
}

} // verus!
