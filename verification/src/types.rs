use vstd::prelude::*;

verus! {

/// The text encoding declared by the file header, decoded from a single byte
/// with values 1, 2 and 3 respectively.
#[derive(Debug, Clone, Copy, PartialEq, Eq, Structural)]
pub enum Encoding {
    UTF8,
    UTF16LE,
    UTF16BE,
}

/// The decoded 100-byte database file header.
#[derive(Debug, Clone, PartialEq)]
pub struct DBHeader {
    /// The 15-byte magic string at the start of the file, informational.
    pub header: String,
    /// Page size in bytes, resolved from the raw 16-bit field: the sentinel
    /// raw value 1 means 65536 bytes, any other raw value is taken as is.
    pub page_size: usize,
    /// Number of pages in the file, including the first.
    pub size_in_pages: u32,
    /// Text encoding of the database.
    pub encoding: Encoding,
    /// Schema/file-change version, informational.
    pub version_num: u32,
}

/// The 8-byte page header embedded in every B-tree page, directly after the
/// 1-byte page-type tag.
#[derive(Debug, Clone, Copy, PartialEq, Eq, Structural)]
pub struct InteriorPageHeader {
    /// Offset of the first freeblock on the page, 0 if none.
    pub freeblock_start: u16,
    /// Number of cells on the page.
    pub num_cells: u16,
    /// Offset of the start of the cell content area, 0 standing for 65536.
    pub cell_content_start: u16,
    /// Number of fragmented free bytes in the cell content area.
    pub fragmented_bytes: u8,
}

/// The 12-byte page header of the leaf decode path: the embedded interior
/// header plus a 4-byte rightmost-pointer field. This decoder reads the
/// rightmost-pointer field for every leaf-variant header, although the real
/// format gives the field a meaning only on interior pages; the asymmetry is
/// kept as documented behaviour.
#[derive(Debug, Clone, Copy, PartialEq, Eq, Structural)]
pub struct LeafPageHeader {
    pub interior_page_header: InteriorPageHeader,
    pub rightmost_pointer: u32,
}

/// A B-tree page classified by its 1-byte tag: 2, 5, 10 and 13 stand for
/// interior index, interior table, leaf index and leaf table pages.
#[derive(Debug, Clone, Copy, PartialEq, Eq, Structural)]
pub enum BTreePage {
    InteriorTable(InteriorPageHeader),
    InteriorIndex(InteriorPageHeader),
    LeafTable(LeafPageHeader),
    LeafIndex(LeafPageHeader),
}

/// One typed column value of a record. Fixed-width integer columns are
/// decoded as unsigned magnitudes, and a float column keeps its raw
/// big-endian bit pattern: both deviations from the canonical column
/// semantics are kept as documented behaviour.
#[derive(Debug, Clone, PartialEq)]
pub enum Value {
    /// Serial type 0.
    Null,
    /// Serial types 1 to 6 (unsigned magnitude), and the constants of serial
    /// types 8 and 9.
    Int(u64),
    /// Serial type 7: the 8 payload bytes read as a big-endian integer.
    FloatBits(u64),
    /// Even serial types from 12 up.
    Blob(Vec<u8>),
    /// Odd serial types from 13 up; the bytes must be valid UTF-8.
    Text(String),
}

/// A decoded table-leaf record: the declared header size, one serial type
/// per column, and one value per serial type.
#[derive(Debug, Clone, PartialEq)]
pub struct Record {
    pub header_size: u64,
    pub serial_types: Vec<u64>,
    pub values: Vec<Value>,
}

/// Mathematical model of a `Value`.
pub enum ValueModel {
    Null,
    Int(u64),
    FloatBits(u64),
    Blob(Seq<u8>),
    Text(Seq<char>),
}

/// Mathematical model of a `Record`.
pub struct RecordModel {
    pub header_size: u64,
    pub serial_types: Seq<u64>,
    pub values: Seq<ValueModel>,
}

/// Mathematical model of a `DBHeader`.
pub struct HeaderModel {
    pub magic: Seq<char>,
    pub page_size: nat,
    pub size_in_pages: nat,
    pub encoding: Encoding,
    pub version_num: nat,
}

pub open spec fn value_view(v: Value) -> ValueModel {
    match v {
        Value::Null => ValueModel::Null,
        Value::Int(n) => ValueModel::Int(n),
        Value::FloatBits(n) => ValueModel::FloatBits(n),
        Value::Blob(b) => ValueModel::Blob(b@),
        Value::Text(s) => ValueModel::Text(s@),
    }
}

pub open spec fn record_view(r: Record) -> RecordModel {
    RecordModel {
        header_size: r.header_size,
        serial_types: r.serial_types@,
        values: r.values@.map_values(|v: Value| value_view(v)),
    }
}

pub open spec fn header_view(h: DBHeader) -> HeaderModel {
    HeaderModel {
        magic: h.header@,
        page_size: h.page_size as nat,
        size_in_pages: h.size_in_pages as nat,
        encoding: h.encoding,
        version_num: h.version_num as nat,
    }
}

} // verus!
