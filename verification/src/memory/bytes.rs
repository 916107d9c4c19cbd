//! Copying and filling runs of bytes.
//!
//! Both operations treat the first `size % 32` bytes one by one and the rest
//! in chunks of 32 bytes, which is what wide stores want.

use vstd::prelude::*;

verus! {

/// Width of a chunk in bytes.
pub const CHUNK: usize = 32;

/// Number of leading bytes that are handled one by one.
pub open spec fn head_len(size: usize) -> usize {
    (size % 32) as usize
}

/// Number of leading bytes that are handled one by one: the size masked by
/// the chunk width less one.
pub fn head(size: usize) -> (preset: usize)
    ensures
        preset == head_len(size),
        preset <= size,
        (size - preset) % 32 == 0,
{
    assert(size & 31 == size % 32) by (bit_vector);
    size & 31
}

/// Copies the first `size` bytes of `src` to the front of `dst`.
pub fn memcpy(dst: &mut [u8], src: &[u8], size: usize)
    requires
        size <= old(dst)@.len(),
        size <= src@.len(),
    ensures
        final(dst)@.len() == old(dst)@.len(),
        forall|i: int| 0 <= i < size ==> final(dst)@[i] == src@[i],
        forall|i: int| size <= i < old(dst)@.len() ==> final(dst)@[i] == old(dst)@[i],
{
    let preset: usize = head(size);
    let mut i: usize = 0;
    while i < preset
        invariant
            i <= preset <= size,
            size <= src@.len(),
            dst@.len() == old(dst)@.len(),
            size <= dst@.len(),
            forall|k: int| 0 <= k < i ==> dst@[k] == src@[k],
            forall|k: int| i <= k < dst@.len() ==> dst@[k] == old(dst)@[k],
        decreases preset - i,
    {
        dst[i] = src[i];
        i = i + 1;
    }
    let mut start: usize = preset;
    while start < size
        invariant
            preset <= start <= size,
            (size - start) % 32 == 0,
            size <= src@.len(),
            dst@.len() == old(dst)@.len(),
            size <= dst@.len(),
            forall|k: int| 0 <= k < start ==> dst@[k] == src@[k],
            forall|k: int| start <= k < dst@.len() ==> dst@[k] == old(dst)@[k],
        decreases size - start,
    {
        let mut j: usize = 0;
        while j < CHUNK
            invariant
                j <= CHUNK,
                start + CHUNK <= size,
                size <= src@.len(),
                dst@.len() == old(dst)@.len(),
                size <= dst@.len(),
                forall|k: int| 0 <= k < start + j ==> dst@[k] == src@[k],
                forall|k: int| start + j <= k < dst@.len() ==> dst@[k] == old(dst)@[k],
            decreases CHUNK - j,
        {
            dst[start + j] = src[start + j];
            j = j + 1;
        }
        start = start + CHUNK;
    }
}

/// The byte with the bit pattern of `value`.
pub open spec fn byte_of(value: i8) -> u8 {
    if value >= 0 {
        value as u8
    } else {
        (value + 256) as u8
    }
}

/// The byte with the bit pattern of `value`.
pub fn to_byte(value: i8) -> (byte: u8)
    ensures
        byte == byte_of(value),
{
    if value >= 0 {
        value as u8
    } else {
        (value as i16 + 256) as u8
    }
}

/// Fills the first `size` bytes of `dst`: the leading `size % 32` bytes with
/// zero, every chunk after them with `value`.
pub fn memset(dst: &mut [u8], value: i8, size: usize)
    requires
        size <= old(dst)@.len(),
    ensures
        final(dst)@.len() == old(dst)@.len(),
        forall|i: int| 0 <= i < head_len(size) ==> final(dst)@[i] == 0,
        forall|i: int| head_len(size) <= i < size ==> final(dst)@[i] == byte_of(value),
        forall|i: int| size <= i < old(dst)@.len() ==> final(dst)@[i] == old(dst)@[i],
{
    let preset: usize = head(size);
    let byte: u8 = to_byte(value);
    let mut i: usize = 0;
    while i < preset
        invariant
            i <= preset <= size,
            dst@.len() == old(dst)@.len(),
            size <= dst@.len(),
            forall|k: int| 0 <= k < i ==> dst@[k] == 0,
            forall|k: int| i <= k < dst@.len() ==> dst@[k] == old(dst)@[k],
        decreases preset - i,
    {
        dst[i] = 0;
        i = i + 1;
    }
    let mut start: usize = preset;
    while start < size
        invariant
            preset <= start <= size,
            (size - start) % 32 == 0,
            dst@.len() == old(dst)@.len(),
            size <= dst@.len(),
            forall|k: int| 0 <= k < preset ==> dst@[k] == 0,
            forall|k: int| preset <= k < start ==> dst@[k] == byte,
            forall|k: int| start <= k < dst@.len() ==> dst@[k] == old(dst)@[k],
        decreases size - start,
    {
        let mut j: usize = 0;
        while j < CHUNK
            invariant
                j <= CHUNK,
                preset <= start,
                start + CHUNK <= size,
                dst@.len() == old(dst)@.len(),
                size <= dst@.len(),
                forall|k: int| 0 <= k < preset ==> dst@[k] == 0,
                forall|k: int| preset <= k < start + j ==> dst@[k] == byte,
                forall|k: int| start + j <= k < dst@.len() ==> dst@[k] == old(dst)@[k],
            decreases CHUNK - j,
        {
            dst[start + j] = byte;
            j = j + 1;
        }
        start = start + CHUNK;
    }
}

} // verus!
