//! The archive as a whole: its header, and each entry's name and payload.
use vstd::prelude::*;
use crate::entry::{entry_at, read_file_entry, FileEntry, SLOT_SIZE};
use crate::error::{ExtractError, ReadError};
use crate::offset::{payload_offset, resolve_offset};
use crate::reader::{in_bounds, le16, le32, read_bytes, read_short_le, read_word_le};
use crate::table::{json_members, resolve_name, table_name};

verus! {

/// Offset of the 16-bit little-endian alignment unit in the header.
pub const ALIGNMENT_AT: u64 = 6;

/// Offset of the 32-bit little-endian entry count in the header.
pub const COUNT_AT: u64 = 8;

/// The fields of the archive header.
#[derive(Debug, Clone, Copy, PartialEq, Eq, Structural)]
pub struct ArchiveHeader {
    /// Byte boundary to which payload offsets are rounded.
    pub file_alignment: u16,
    /// Number of directory slots after the header.
    pub entry_count: u32,
}

/// One extracted file: its name and its payload.
pub struct Extracted {
    pub name: String,
    pub bytes: Vec<u8>,
}

/// The header of archive `s`, or the read that fails.
pub open spec fn header_of(s: Seq<u8>) -> Result<ArchiveHeader, ReadError> {
    if !in_bounds(s.len(), ALIGNMENT_AT as int, 2) {
        Err(ReadError { offset: ALIGNMENT_AT, width: 2 })
    } else if !in_bounds(s.len(), COUNT_AT as int, 4) {
        Err(ReadError { offset: COUNT_AT, width: 4 })
    } else {
        Ok(
            ArchiveHeader {
                file_alignment: le16(s, ALIGNMENT_AT as int),
                entry_count: le32(s, COUNT_AT as int),
            },
        )
    }
}

/// Where the directory slot of entry `index` starts.
pub open spec fn slot_offset(index: nat) -> int {
    (index + 1) * SLOT_SIZE
}

/// The name and payload of entry `index` of archive `s`, whose alignment unit
/// is `alignment` and whose hash table has `members`; or why there are none.
#[verifier::opaque]
pub open spec fn entry_outcome(
    s: Seq<u8>,
    alignment: u16,
    members: Map<Seq<char>, Option<Seq<char>>>,
    index: nat,
) -> Result<(Seq<char>, Seq<u8>), ExtractError> {
    let at = slot_offset(index);
    if !in_bounds(s.len(), at, SLOT_SIZE as int) {
        Err(ExtractError::Read(ReadError { offset: at as u64, width: SLOT_SIZE }))
    } else {
        let e = entry_at(s, at);
        match table_name(members, e.path_hash, index) {
            Err(err) => Err(err),
            Ok(name) => {
                let off = payload_offset(e.declared_offset, e.correction, alignment);
                if !in_bounds(s.len(), off as int, e.data_size as int) {
                    Err(
                        ExtractError::Read(
                            ReadError { offset: off as u64, width: e.data_size as u64 },
                        ),
                    )
                } else {
                    Ok((name, s.subrange(off as int, off + e.data_size)))
                }
            },
        }
    }
}

/// Whether `x` is the outcome `o` when it is a success.
pub open spec fn is_outcome(o: Result<(Seq<char>, Seq<u8>), ExtractError>, x: Extracted) -> bool {
    o == Ok::<(Seq<char>, Seq<u8>), ExtractError>((x.name@, x.bytes@))
}

/// Reads the alignment unit and the entry count from the header.
pub fn read_header(src: &[u8]) -> (r: Result<ArchiveHeader, ReadError>)
    ensures
        r == header_of(src@),
{
    let file_alignment = match read_short_le(src, ALIGNMENT_AT) {
        Ok(a) => a,
        Err(e) => return Err(e),
    };
    let entry_count = match read_word_le(src, COUNT_AT) {
        Ok(c) => c,
        Err(e) => return Err(e),
    };
    Ok(ArchiveHeader { file_alignment, entry_count })
}

/// Decodes entry `index`, names it through `table`, and reads its payload.
pub fn extract_entry(src: &[u8], header: &ArchiveHeader, table: &serde_json::Value, index: u32) -> (r:
    Result<Extracted, ExtractError>)
    ensures
        match r {
            Ok(x) => is_outcome(
                entry_outcome(src@, header.file_alignment, json_members(*table), index as nat),
                x,
            ),
            Err(e) => entry_outcome(src@, header.file_alignment, json_members(*table), index as nat)
                == Err::<(Seq<char>, Seq<u8>), ExtractError>(e),
        },
{
    reveal(entry_outcome);
    let at: u64 = (index as u64 + 1) * SLOT_SIZE;
    let entry: FileEntry = match read_file_entry(src, at) {
        Ok(e) => e,
        Err(e) => return Err(ExtractError::Read(e)),
    };
    let name = match resolve_name(table, entry.path_hash, index) {
        Ok(n) => n,
        Err(e) => return Err(e),
    };
    let offset = resolve_offset(entry.declared_offset, entry.correction, header.file_alignment);
    let bytes = match read_bytes(src, offset as u64, entry.data_size) {
        Ok(b) => b,
        Err(e) => return Err(ExtractError::Read(e)),
    };
    Ok(Extracted { name, bytes })
}

/// Extracts every entry in directory order, stopping at the first failure.
pub fn extract_all(src: &[u8], table: &serde_json::Value) -> (r: Result<Vec<Extracted>, ExtractError>)
    ensures
        match r {
            Ok(v) => header_of(src@) is Ok && v@.len() == header_of(src@)->Ok_0.entry_count
                && forall|i: int|
                0 <= i < v@.len() ==> is_outcome(
                    #[trigger] entry_outcome(
                        src@,
                        header_of(src@)->Ok_0.file_alignment,
                        json_members(*table),
                        i as nat,
                    ),
                    v@[i],
                ),
            Err(e) => match header_of(src@) {
                Err(h) => e == ExtractError::Read(h),
                Ok(h) => exists|k: nat|
                    k < h.entry_count && (forall|i: nat|
                        i < k ==> (#[trigger] entry_outcome(
                            src@,
                            h.file_alignment,
                            json_members(*table),
                            i,
                        )) is Ok) && #[trigger] entry_outcome(
                        src@,
                        h.file_alignment,
                        json_members(*table),
                        k,
                    ) == Err::<(Seq<char>, Seq<u8>), ExtractError>(e),
            },
        },
{
    let header = match read_header(src) {
        Ok(h) => h,
        Err(e) => return Err(ExtractError::Read(e)),
    };
    let mut out: Vec<Extracted> = Vec::new();
    let mut i: u32 = 0;
    while i < header.entry_count
        invariant
            header_of(src@) == Ok::<ArchiveHeader, ReadError>(header),
            i <= header.entry_count,
            out@.len() == i,
            forall|j: int|
                0 <= j < i ==> is_outcome(
                    #[trigger] entry_outcome(
                        src@,
                        header.file_alignment,
                        json_members(*table),
                        j as nat,
                    ),
                    out@[j],
                ),
        decreases header.entry_count - i,
    {
        match extract_entry(src, &header, table, i) {
            Ok(x) => out.push(x),
            Err(e) => {
                assert forall|j: nat| j < i implies (#[trigger] entry_outcome(
                    src@,
                    header.file_alignment,
                    json_members(*table),
                    j,
                )) is Ok by {
                    let k = j as int;
                    assert(is_outcome(
                        entry_outcome(src@, header.file_alignment, json_members(*table), k as nat),
                        out@[k],
                    ));
                }
                return Err(e);
            },
        }
        i += 1;
    }
    Ok(out)
}

} // verus!
