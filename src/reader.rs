//! Bounds-checked primitive reads at absolute offsets of an in-memory archive.
use vstd::prelude::*;
use crate::error::ReadError;

verus! {

/// Whether `width` bytes starting at `offset` lie inside a source of `len` bytes.
pub open spec fn in_bounds(len: nat, offset: int, width: int) -> bool {
    0 <= offset && offset + width <= len
}

/// Four bytes read as a little-endian unsigned integer.
pub open spec fn le32(s: Seq<u8>, at: int) -> u32 {
    (s[at] as int + 0x100 * s[at + 1] + 0x1_0000 * s[at + 2] + 0x100_0000 * s[at + 3]) as u32
}

/// Four bytes read as a big-endian unsigned integer.
pub open spec fn be32(s: Seq<u8>, at: int) -> u32 {
    (0x100_0000 * s[at] + 0x1_0000 * s[at + 1] + 0x100 * s[at + 2] + s[at + 3] as int) as u32
}

/// Two bytes read as a little-endian unsigned integer.
pub open spec fn le16(s: Seq<u8>, at: int) -> u16 {
    (s[at] as int + 0x100 * s[at + 1]) as u16
}

/// The little-endian word at index `i`, which the caller has checked.
pub(crate) fn le32_at(src: &[u8], i: usize) -> (w: u32)
    requires
        i + 4 <= src@.len(),
    ensures
        w == le32(src@, i as int),
{
    src[i] as u32 + (src[i + 1] as u32) * 0x100 + (src[i + 2] as u32) * 0x1_0000
        + (src[i + 3] as u32) * 0x100_0000
}

/// Checks that `width` bytes at `offset` exist in `src`.
/// On success, gives `offset` as an index into `src`.
pub(crate) fn check_bounds(src: &[u8], offset: u64, width: u64) -> (r: Result<usize, ReadError>)
    ensures
        match r {
            Ok(i) => in_bounds(src@.len(), offset as int, width as int) && i == offset,
            Err(e) => !in_bounds(src@.len(), offset as int, width as int)
                && e == (ReadError { offset, width }),
        },
{
    let len = src.len();
    if offset > len as u64 || width > len as u64 - offset {
        Err(ReadError { offset, width })
    } else {
        Ok(offset as usize)
    }
}

/// The byte at `offset`.
pub fn read_byte(src: &[u8], offset: u64) -> (r: Result<u8, ReadError>)
    ensures
        match r {
            Ok(b) => in_bounds(src@.len(), offset as int, 1) && b == src@[offset as int],
            Err(e) => !in_bounds(src@.len(), offset as int, 1) && e == (ReadError { offset, width: 1 }),
        },
{
    let i = match check_bounds(src, offset, 1) {
        Ok(i) => i,
        Err(e) => return Err(e),
    };
    Ok(src[i])
}

/// `size` bytes starting at `offset`.
pub fn read_bytes(src: &[u8], offset: u64, size: u32) -> (r: Result<Vec<u8>, ReadError>)
    ensures
        match r {
            Ok(v) => in_bounds(src@.len(), offset as int, size as int)
                && v@ == src@.subrange(offset as int, offset + size),
            Err(e) => !in_bounds(src@.len(), offset as int, size as int)
                && e == (ReadError { offset, width: size as u64 }),
        },
{
    let i = match check_bounds(src, offset, size as u64) {
        Ok(i) => i,
        Err(e) => return Err(e),
    };
    let start = i;
    let n = src.len();
    assert(start + size <= n);
    let end = start + size as usize;
    let mut out: Vec<u8> = Vec::new();
    let mut i: usize = start;
    while i < end
        invariant
            start <= i <= end <= src@.len(),
            start == offset,
            end == offset + size,
            out@ == src@.subrange(start as int, i as int),
        decreases end - i,
    {
        out.push(src[i]);
        i += 1;
        assert(out@ =~= src@.subrange(start as int, i as int));
    }
    Ok(out)
}

/// The big-endian 32-bit word at `offset`.
pub fn read_word(src: &[u8], offset: u64) -> (r: Result<u32, ReadError>)
    ensures
        match r {
            Ok(w) => in_bounds(src@.len(), offset as int, 4) && w == be32(src@, offset as int),
            Err(e) => !in_bounds(src@.len(), offset as int, 4) && e == (ReadError { offset, width: 4 }),
        },
{
    let i = match check_bounds(src, offset, 4) {
        Ok(i) => i,
        Err(e) => return Err(e),
    };
    let w = (src[i] as u32) * 0x100_0000 + (src[i + 1] as u32) * 0x1_0000
        + (src[i + 2] as u32) * 0x100 + src[i + 3] as u32;
    Ok(w)
}

/// The little-endian 32-bit word at `offset`.
pub fn read_word_le(src: &[u8], offset: u64) -> (r: Result<u32, ReadError>)
    ensures
        match r {
            Ok(w) => in_bounds(src@.len(), offset as int, 4) && w == le32(src@, offset as int),
            Err(e) => !in_bounds(src@.len(), offset as int, 4) && e == (ReadError { offset, width: 4 }),
        },
{
    let i = match check_bounds(src, offset, 4) {
        Ok(i) => i,
        Err(e) => return Err(e),
    };
    Ok(le32_at(src, i))
}

/// The little-endian 16-bit value at `offset`.
pub fn read_short_le(src: &[u8], offset: u64) -> (r: Result<u16, ReadError>)
    ensures
        match r {
            Ok(h) => in_bounds(src@.len(), offset as int, 2) && h == le16(src@, offset as int),
            Err(e) => !in_bounds(src@.len(), offset as int, 2) && e == (ReadError { offset, width: 2 }),
        },
{
    let i = match check_bounds(src, offset, 2) {
        Ok(i) => i,
        Err(e) => return Err(e),
    };
    Ok(src[i] as u16 + (src[i + 1] as u16) * 0x100)
}

} // verus!
