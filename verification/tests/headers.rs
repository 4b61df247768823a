use sqlite_parser::errors::DecodeError;
use sqlite_parser::header::parse_db_header;
use sqlite_parser::page::{parse_btree_page, parse_interior_page_header, parse_leaf_page_header};
use sqlite_parser::types::{BTreePage, Encoding};

fn header_bytes(raw_page_size: u16, page_count: u32, encoding: u8, version: u32) -> Vec<u8> {
    let mut h = vec![0u8; 100];
    h[0..15].copy_from_slice(b"SQLite format 3");
    h[16..18].copy_from_slice(&raw_page_size.to_be_bytes());
    h[28..32].copy_from_slice(&page_count.to_be_bytes());
    h[59] = encoding;
    h[96..100].copy_from_slice(&version.to_be_bytes());
    h
}

#[test]
fn header_fields_decoded() {
    let h = parse_db_header(&header_bytes(4096, 7, 2, 9)).unwrap();
    assert_eq!(h.header, "SQLite format 3");
    assert_eq!(h.page_size, 4096);
    assert_eq!(h.size_in_pages, 7);
    assert_eq!(h.encoding, Encoding::UTF16LE);
    assert_eq!(h.version_num, 9);
}

#[test]
fn page_size_sentinel_one_means_65536() {
    let h = parse_db_header(&header_bytes(1, 2, 1, 0)).unwrap();
    assert_eq!(h.page_size, 65536);
}

#[test]
fn page_size_other_values_kept() {
    assert_eq!(parse_db_header(&header_bytes(512, 2, 1, 0)).unwrap().page_size, 512);
    assert_eq!(parse_db_header(&header_bytes(2, 2, 1, 0)).unwrap().page_size, 2);
    assert_eq!(parse_db_header(&header_bytes(65535, 2, 1, 0)).unwrap().page_size, 65535);
}

#[test]
fn encoding_bytes_one_two_three() {
    assert_eq!(parse_db_header(&header_bytes(512, 1, 1, 0)).unwrap().encoding, Encoding::UTF8);
    assert_eq!(parse_db_header(&header_bytes(512, 1, 2, 0)).unwrap().encoding, Encoding::UTF16LE);
    assert_eq!(parse_db_header(&header_bytes(512, 1, 3, 0)).unwrap().encoding, Encoding::UTF16BE);
}

#[test]
fn encoding_byte_four_unsupported() {
    assert_eq!(
        parse_db_header(&header_bytes(512, 1, 4, 0)),
        Err(DecodeError::UnsupportedEncoding)
    );
}

#[test]
fn encoding_byte_zero_and_high_unsupported() {
    assert_eq!(
        parse_db_header(&header_bytes(512, 1, 0, 0)),
        Err(DecodeError::UnsupportedEncoding)
    );
    assert_eq!(
        parse_db_header(&header_bytes(512, 1, 255, 0)),
        Err(DecodeError::UnsupportedEncoding)
    );
}

#[test]
fn invalid_magic_is_malformed() {
    let mut bytes = header_bytes(4096, 1, 1, 0);
    bytes[0] = 0xff;
    bytes[1] = 0xfe;
    assert_eq!(parse_db_header(&bytes), Err(DecodeError::MalformedHeader));
}

fn page_with_tag(tag: u8) -> Vec<u8> {
    let mut p = vec![0u8; 512];
    p[0] = tag;
    p[1..3].copy_from_slice(&10u16.to_be_bytes()); // freeblock start
    p[3..5].copy_from_slice(&3u16.to_be_bytes()); // cell count
    p[5..7].copy_from_slice(&200u16.to_be_bytes()); // cell content start
    p[7] = 4; // fragmented bytes
    p[8..12].copy_from_slice(&77u32.to_be_bytes()); // rightmost pointer
    p
}

#[test]
fn interior_page_header_fields() {
    let h = parse_interior_page_header(&page_with_tag(5));
    assert_eq!(h.freeblock_start, 10);
    assert_eq!(h.num_cells, 3);
    assert_eq!(h.cell_content_start, 200);
    assert_eq!(h.fragmented_bytes, 4);
}

#[test]
fn leaf_page_header_fields() {
    let h = parse_leaf_page_header(&page_with_tag(13));
    assert_eq!(h.interior_page_header.num_cells, 3);
    assert_eq!(h.rightmost_pointer, 77);
}

#[test]
fn page_tags_classified() {
    assert!(matches!(parse_btree_page(&page_with_tag(2)), Ok(BTreePage::InteriorIndex(_))));
    assert!(matches!(parse_btree_page(&page_with_tag(5)), Ok(BTreePage::InteriorTable(_))));
    assert!(matches!(parse_btree_page(&page_with_tag(10)), Ok(BTreePage::LeafIndex(_))));
    assert!(matches!(parse_btree_page(&page_with_tag(13)), Ok(BTreePage::LeafTable(_))));
}

#[test]
fn page_tag_seven_unknown() {
    assert_eq!(parse_btree_page(&page_with_tag(7)), Err(DecodeError::UnknownPageType));
}

#[test]
fn page_tags_outside_table_unknown() {
    for tag in [0u8, 1, 3, 4, 6, 11, 12, 14, 255] {
        assert_eq!(parse_btree_page(&page_with_tag(tag)), Err(DecodeError::UnknownPageType));
    }
}
