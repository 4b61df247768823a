//! Decoder for the on-disk page format of a SQLite database file: the
//! 100-byte file header, the 1-9 byte varint encoding, the per-page B-tree
//! headers, and the record/serial-type encoding inside table leaf cells.

pub mod be;
pub mod driver;
pub mod errors;
pub mod header;
pub mod page;
pub mod record;
pub mod text;
pub mod types;
pub mod varint;
