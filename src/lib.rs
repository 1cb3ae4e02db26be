//! Extraction of the files packed in a game asset bundle: the header and
//! directory decoder, the payload offset arithmetic and the naming policy.
//!
//! The archive is handed over as bytes. Its header holds the alignment unit
//! and the entry count; 16-byte directory slots follow it; each entry's name
//! comes from a JSON hash table, or from its index where the table has none.
pub mod entry;
pub mod error;
pub mod extract;
pub mod names;
pub mod offset;
pub mod reader;
pub mod table;
