//! Decoding of one 16-byte directory slot.
use vstd::prelude::*;
use crate::error::ReadError;
use crate::reader::{check_bounds, in_bounds, le32, le32_at};

verus! {

/// Size in bytes of one directory slot.
pub const SLOT_SIZE: u64 = 16;

/// One directory record, as stored in its slot.
#[derive(Debug, Clone, Copy, PartialEq, Eq, Structural)]
pub struct FileEntry {
    /// Identifier that the hash table maps to a name.
    pub path_hash: u32,
    /// Payload offset as stored, before correction and alignment.
    pub declared_offset: u32,
    /// Adjustment assembled from three separately stored bytes.
    pub correction: u32,
    /// A byte of unknown meaning, kept as read.
    pub flag_byte: u8,
    /// Payload length in bytes.
    pub data_size: u32,
}

/// The correction field: `b2` in bits 16-23, `b1` in bits 8-15, `b0` in bits 0-7.
pub open spec fn correction_of(b0: u8, b1: u8, b2: u8) -> u32 {
    ((b2 as u32) << 16u32) | ((b1 as u32) << 8u32) | (b0 as u32)
}

/// The entry that the slot starting at `at` describes.
pub open spec fn entry_at(s: Seq<u8>, at: int) -> FileEntry {
    FileEntry {
        path_hash: le32(s, at),
        declared_offset: le32(s, at + 4),
        correction: correction_of(s[at + 8], s[at + 9], s[at + 10]),
        flag_byte: s[at + 11],
        data_size: le32(s, at + 12),
    }
}

/// The three correction bytes make a 24-bit value whose bytes, low to high,
/// are the bytes at +0x8, +0x9 and +0xA; it is their plain positional sum.
pub proof fn lemma_correction_bytes(b0: u8, b1: u8, b2: u8)
    ensures
        correction_of(b0, b1, b2) < 0x100_0000,
        correction_of(b0, b1, b2) & 0xff == b0,
        (correction_of(b0, b1, b2) >> 8u32) & 0xff == b1,
        correction_of(b0, b1, b2) >> 16u32 == b2,
        correction_of(b0, b1, b2) == b0 + 0x100 * b1 + 0x1_0000 * b2,
{
    let c = correction_of(b0, b1, b2);
    assert(c == ((b2 as u32) << 16u32) | ((b1 as u32) << 8u32) | (b0 as u32));
    assert(c < 0x100_0000 && c & 0xff == b0 && (c >> 8u32) & 0xff == b1 && c >> 16u32 == b2
        && c == b0 + 0x100 * b1 + 0x1_0000 * b2) by (bit_vector)
        requires
            c == ((b2 as u32) << 16u32) | ((b1 as u32) << 8u32) | (b0 as u32),
    ;
}

/// Decodes the directory slot that starts at `offset`.
pub fn read_file_entry(src: &[u8], offset: u64) -> (r: Result<FileEntry, ReadError>)
    ensures
        match r {
            Ok(e) => in_bounds(src@.len(), offset as int, SLOT_SIZE as int)
                && e == entry_at(src@, offset as int),
            Err(e) => !in_bounds(src@.len(), offset as int, SLOT_SIZE as int)
                && e == (ReadError { offset, width: SLOT_SIZE }),
        },
{
    let i = match check_bounds(src, offset, SLOT_SIZE) {
        Ok(i) => i,
        Err(e) => return Err(e),
    };
    let n = src.len();
    assert(i + SLOT_SIZE <= n);
    let cor0 = src[i + 8] as u32;
    let cor1 = src[i + 9] as u32;
    let cor2 = src[i + 10] as u32;
    let correction = (cor2 << 16u32) | (cor1 << 8u32) | cor0;
    Ok(FileEntry {
        path_hash: le32_at(src, i),
        declared_offset: le32_at(src, i + 4),
        correction,
        flag_byte: src[i + 11],
        data_size: le32_at(src, i + 12),
    })
}

} // verus!
