use sqlite_parser::driver::parse_db;
use sqlite_parser::errors::DecodeError;
use sqlite_parser::types::{BTreePage, Value};

const PAGE_SIZE: usize = 4096;

fn file_header(page_count: u32) -> Vec<u8> {
    let mut h = vec![0u8; 100];
    h[0..15].copy_from_slice(b"SQLite format 3");
    h[16..18].copy_from_slice(&(PAGE_SIZE as u16).to_be_bytes());
    h[28..32].copy_from_slice(&page_count.to_be_bytes());
    h[59] = 1;
    h
}

/// A leaf table page with three one-column records of serial type 1 holding
/// the byte values 5, 0xff and 127, at rowids 1, 2 and 3.
fn leaf_table_page() -> Vec<u8> {
    let mut p = vec![0u8; PAGE_SIZE];
    p[0] = 13;
    p[3..5].copy_from_slice(&3u16.to_be_bytes()); // cell count
    p[5..7].copy_from_slice(&100u16.to_be_bytes()); // cell content start
    let cells: [(u8, u8); 3] = [(1, 0x05), (2, 0xff), (3, 0x7f)];
    let mut at = 100;
    for (rowid, value) in cells {
        p[at] = 3; // payload size
        p[at + 1] = rowid;
        p[at + 2] = 2; // record header size
        p[at + 3] = 1; // serial type: 8-bit integer
        p[at + 4] = value;
        at += 5;
    }
    p
}

fn scenario_a_file() -> Vec<u8> {
    let mut f = file_header(2);
    f.extend_from_slice(&vec![0u8; PAGE_SIZE - 100]); // rest of page 1
    f.extend_from_slice(&leaf_table_page());
    f
}

#[test]
fn scenario_a_three_cells() {
    let out = parse_db(&scenario_a_file()).unwrap();
    assert_eq!(out.header.page_size, PAGE_SIZE);
    assert_eq!(out.header.size_in_pages, 2);
    assert!(!out.truncated);
    assert_eq!(out.pages.len(), 1);
    let page = out.pages[0].as_ref().unwrap();
    assert!(matches!(page.page, BTreePage::LeafTable(_)));
    assert_eq!(page.cells.len(), 3);
    // The stored byte 0xff comes back as the unsigned magnitude 255: sign
    // is not reconstructed, a kept limitation.
    let expected = [(1u64, 5u64), (2, 255), (3, 127)];
    for (cell, (rowid, value)) in page.cells.iter().zip(expected) {
        let (rid, rec) = cell.as_ref().unwrap();
        assert_eq!(*rid, rowid);
        assert_eq!(rec.serial_types, vec![1]);
        assert_eq!(rec.values, vec![Value::Int(value)]);
    }
}

#[test]
fn scenario_b_truncated_last_page() {
    // Three declared pages, but the last one is 10 bytes short: the header
    // and the complete page still decode, and the walk stops cleanly.
    let mut f = file_header(3);
    f.extend_from_slice(&vec![0u8; PAGE_SIZE - 100]);
    f.extend_from_slice(&leaf_table_page());
    f.extend_from_slice(&vec![13u8; PAGE_SIZE - 10]);
    let out = parse_db(&f).unwrap();
    assert!(out.truncated);
    assert_eq!(out.pages.len(), 1);
    assert!(out.pages[0].is_ok());
}

#[test]
fn decoding_twice_is_identical() {
    let f = scenario_a_file();
    let first = parse_db(&f).unwrap();
    let second = parse_db(&f).unwrap();
    assert_eq!(first, second);
}

#[test]
fn file_shorter_than_header_is_truncation() {
    assert_eq!(parse_db(&[0u8; 99]), Err(DecodeError::IoTruncation));
    assert_eq!(parse_db(&[]), Err(DecodeError::IoTruncation));
}

#[test]
fn page_size_smaller_than_header_is_malformed() {
    let mut f = file_header(2);
    f[16..18].copy_from_slice(&64u16.to_be_bytes());
    f.extend_from_slice(&vec![0u8; 4096]);
    assert_eq!(parse_db(&f), Err(DecodeError::MalformedHeader));
}

#[test]
fn truncated_root_page_keeps_header() {
    // Enough bytes for the file header but not for the rest of page 1.
    let out = parse_db(&file_header(2)).unwrap();
    assert!(out.truncated);
    assert!(out.pages.is_empty());
    assert_eq!(out.header.size_in_pages, 2);
}

#[test]
fn unknown_page_does_not_stop_siblings() {
    // Page 2 has an unknown tag; page 3 is a fine leaf table page and is
    // still decoded.
    let mut bad_page = vec![0u8; PAGE_SIZE];
    bad_page[0] = 7;
    let mut f = file_header(3);
    f.extend_from_slice(&vec![0u8; PAGE_SIZE - 100]);
    f.extend_from_slice(&bad_page);
    f.extend_from_slice(&leaf_table_page());
    let out = parse_db(&f).unwrap();
    assert!(!out.truncated);
    assert_eq!(out.pages.len(), 2);
    assert_eq!(out.pages[0], Err(DecodeError::UnknownPageType));
    let page = out.pages[1].as_ref().unwrap();
    assert_eq!(page.cells.len(), 3);
}

#[test]
fn cell_running_past_page_stops_that_page() {
    // The first cell's payload-size varint sits on the last byte of the
    // page with its continuation bit set, so the cell walk records
    // OutOfBounds and stops; the declared second cell is never reached.
    let mut p = vec![0u8; PAGE_SIZE];
    p[0] = 13;
    p[3..5].copy_from_slice(&2u16.to_be_bytes());
    p[5..7].copy_from_slice(&((PAGE_SIZE - 1) as u16).to_be_bytes());
    p[PAGE_SIZE - 1] = 0x80;
    let mut f = file_header(2);
    f.extend_from_slice(&vec![0u8; PAGE_SIZE - 100]);
    f.extend_from_slice(&p);
    let out = parse_db(&f).unwrap();
    let page = out.pages[0].as_ref().unwrap();
    assert_eq!(page.cells, vec![Err(DecodeError::OutOfBounds)]);
}

#[test]
fn corrupt_record_does_not_stop_next_cell() {
    // Two cells: the first record's header size is smaller than its own
    // varint, the second is fine. The walk records the error and goes on.
    let mut p = vec![0u8; PAGE_SIZE];
    p[0] = 13;
    p[3..5].copy_from_slice(&2u16.to_be_bytes());
    p[5..7].copy_from_slice(&100u16.to_be_bytes());
    // First cell: payload size 1, rowid 9, payload [0x00] (corrupt header).
    p[100] = 1;
    p[101] = 9;
    p[102] = 0x00;
    // Second cell: payload size 3, rowid 10, record [2, 1, 0x2a].
    p[103] = 3;
    p[104] = 10;
    p[105] = 2;
    p[106] = 1;
    p[107] = 0x2a;
    let mut f = file_header(2);
    f.extend_from_slice(&vec![0u8; PAGE_SIZE - 100]);
    f.extend_from_slice(&p);
    let out = parse_db(&f).unwrap();
    let page = out.pages[0].as_ref().unwrap();
    assert_eq!(page.cells.len(), 2);
    assert_eq!(page.cells[0], Err(DecodeError::CorruptRecordHeader));
    let (rowid, rec) = page.cells[1].as_ref().unwrap();
    assert_eq!(*rowid, 10);
    assert_eq!(rec.values, vec![Value::Int(42)]);
}

#[test]
fn interior_pages_classified_but_not_walked() {
    let mut p = vec![0u8; PAGE_SIZE];
    p[0] = 5;
    p[3..5].copy_from_slice(&4u16.to_be_bytes());
    let mut f = file_header(2);
    f.extend_from_slice(&vec![0u8; PAGE_SIZE - 100]);
    f.extend_from_slice(&p);
    let out = parse_db(&f).unwrap();
    let page = out.pages[0].as_ref().unwrap();
    match &page.page {
        BTreePage::InteriorTable(h) => assert_eq!(h.num_cells, 4),
        other => panic!("expected an interior table page, got {:?}", other),
    }
    assert!(page.cells.is_empty());
}
