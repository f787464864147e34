//! Binary field codec: bounds-checked reads and appending writes of
//! fixed-width little-endian integers at a cursor position in a byte buffer.
//! Every multi-byte integer field of the NTLM wire formats is little-endian.

use vstd::prelude::*;

verus! {

use vstd::bytes::{
    spec_u16_from_le_bytes, spec_u16_to_le_bytes, spec_u32_from_le_bytes, spec_u32_to_le_bytes,
    spec_u64_from_le_bytes, spec_u64_to_le_bytes, u16_from_le_bytes, u16_to_le_bytes,
    u32_from_le_bytes, u32_to_le_bytes, u64_from_le_bytes, u64_to_le_bytes,
};
use vstd::slice::slice_subrange;

/// Reads the 16-bit little-endian integer at `*pos`, advancing the cursor
/// past it; fails without moving the cursor when fewer than 2 bytes remain.
pub fn read_u16(buffer: &Vec<u8>, pos: &mut usize) -> (r: Option<u16>)
    ensures
        r is Some <==> *old(pos) + 2 <= buffer@.len(),
        r matches Some(v) ==> {
            &&& *final(pos) == *old(pos) + 2
            &&& v == spec_u16_from_le_bytes(buffer@.subrange(*old(pos) as int, *old(pos) + 2))
        },
        r is None ==> *final(pos) == *old(pos),
{
    if *pos <= buffer.len() && buffer.len() - *pos >= 2 {
        let v = u16_from_le_bytes(slice_subrange(buffer.as_slice(), *pos, *pos + 2));
        *pos = *pos + 2;
        Some(v)
    } else {
        None
    }
}

/// Reads the 32-bit little-endian integer at `*pos`, advancing the cursor
/// past it; fails without moving the cursor when fewer than 4 bytes remain.
pub fn read_u32(buffer: &Vec<u8>, pos: &mut usize) -> (r: Option<u32>)
    ensures
        r is Some <==> *old(pos) + 4 <= buffer@.len(),
        r matches Some(v) ==> {
            &&& *final(pos) == *old(pos) + 4
            &&& v == spec_u32_from_le_bytes(buffer@.subrange(*old(pos) as int, *old(pos) + 4))
        },
        r is None ==> *final(pos) == *old(pos),
{
    if *pos <= buffer.len() && buffer.len() - *pos >= 4 {
        let v = u32_from_le_bytes(slice_subrange(buffer.as_slice(), *pos, *pos + 4));
        *pos = *pos + 4;
        Some(v)
    } else {
        None
    }
}

/// Reads the 64-bit little-endian integer at `*pos`, advancing the cursor
/// past it; fails without moving the cursor when fewer than 8 bytes remain.
pub fn read_u64(buffer: &Vec<u8>, pos: &mut usize) -> (r: Option<u64>)
    ensures
        r is Some <==> *old(pos) + 8 <= buffer@.len(),
        r matches Some(v) ==> {
            &&& *final(pos) == *old(pos) + 8
            &&& v == spec_u64_from_le_bytes(buffer@.subrange(*old(pos) as int, *old(pos) + 8))
        },
        r is None ==> *final(pos) == *old(pos),
{
    if *pos <= buffer.len() && buffer.len() - *pos >= 8 {
        let v = u64_from_le_bytes(slice_subrange(buffer.as_slice(), *pos, *pos + 8));
        *pos = *pos + 8;
        Some(v)
    } else {
        None
    }
}

/// Reads the 16-bit little-endian integer at a fixed offset known to be in
/// bounds.
pub fn get_u16(buffer: &Vec<u8>, pos: usize) -> (r: u16)
    requires
        pos + 2 <= buffer@.len(),
    ensures
        r == spec_u16_from_le_bytes(buffer@.subrange(pos as int, pos as int + 2)),
{
    let n = buffer.len();
    assert(pos + 2 <= n);
    u16_from_le_bytes(slice_subrange(buffer.as_slice(), pos, pos + 2))
}

/// Reads the 32-bit little-endian integer at a fixed offset known to be in
/// bounds.
pub fn get_u32(buffer: &Vec<u8>, pos: usize) -> (r: u32)
    requires
        pos + 4 <= buffer@.len(),
    ensures
        r == spec_u32_from_le_bytes(buffer@.subrange(pos as int, pos as int + 4)),
{
    let n = buffer.len();
    assert(pos + 4 <= n);
    u32_from_le_bytes(slice_subrange(buffer.as_slice(), pos, pos + 4))
}

/// Appends the 2-byte little-endian encoding of `v` to `out`.
pub fn write_u16(out: &mut Vec<u8>, v: u16)
    ensures
        final(out)@ == old(out)@ + spec_u16_to_le_bytes(v),
{
    let mut bytes = u16_to_le_bytes(v);
    out.append(&mut bytes);
}

/// Appends the 4-byte little-endian encoding of `v` to `out`.
pub fn write_u32(out: &mut Vec<u8>, v: u32)
    ensures
        final(out)@ == old(out)@ + spec_u32_to_le_bytes(v),
{
    let mut bytes = u32_to_le_bytes(v);
    out.append(&mut bytes);
}

/// Appends the 8-byte little-endian encoding of `v` to `out`.
pub fn write_u64(out: &mut Vec<u8>, v: u64)
    ensures
        final(out)@ == old(out)@ + spec_u64_to_le_bytes(v),
{
    let mut bytes = u64_to_le_bytes(v);
    out.append(&mut bytes);
}

} // verus!
