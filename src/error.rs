use vstd::prelude::*;

verus! {

/// A positioned read that would run past the end of the archive.
#[derive(Debug, Clone, Copy, PartialEq, Eq, Structural)]
pub struct ReadError {
    /// Absolute offset of the failed read.
    pub offset: u64,
    /// Number of bytes the read asked for.
    pub width: u64,
}

/// Why extracting an entry failed.
#[derive(Debug, Clone, Copy, PartialEq, Eq, Structural)]
pub enum ExtractError {
    /// A read of the header, of a directory slot or of a payload ran past the end.
    Read(ReadError),
    /// The hash table maps the entry's key to something other than a string.
    MalformedName { path_hash: u32 },
}

} // verus!
