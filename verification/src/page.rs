use crate::be::{be_parser, be_val};
use crate::errors::DecodeError;
use crate::types::{BTreePage, InteriorPageHeader, LeafPageHeader};
use vstd::prelude::*;
use vstd::slice::slice_subrange;

verus! {

/// The interior page header held in bytes 1 to 7 of a page: freeblock start
/// at 1 to 2, cell count at 3 to 4, cell content start at 5 to 6, and the
/// fragmented-free-bytes count at 7, all big-endian.
pub open spec fn spec_interior_header(s: Seq<u8>) -> InteriorPageHeader {
    InteriorPageHeader {
        freeblock_start: be_val(s.subrange(1, 3)) as u16,
        num_cells: be_val(s.subrange(3, 5)) as u16,
        cell_content_start: be_val(s.subrange(5, 7)) as u16,
        fragmented_bytes: s[7],
    }
}

/// The leaf-path page header: the embedded interior header plus the 4-byte
/// rightmost-pointer field at bytes 8 to 11.
pub open spec fn spec_leaf_header(s: Seq<u8>) -> LeafPageHeader {
    LeafPageHeader {
        interior_page_header: spec_interior_header(s),
        rightmost_pointer: be_val(s.subrange(8, 12)) as u32,
    }
}

/// The page classified by the tag in its first byte: 2, 5, 10 and 13 name
/// the four page kinds; every other tag is `UnknownPageType`.
pub open spec fn spec_btree_page(s: Seq<u8>) -> Result<BTreePage, DecodeError> {
    if s[0] == 2 {
        Ok(BTreePage::InteriorIndex(spec_interior_header(s)))
    } else if s[0] == 5 {
        Ok(BTreePage::InteriorTable(spec_interior_header(s)))
    } else if s[0] == 10 {
        Ok(BTreePage::LeafIndex(spec_leaf_header(s)))
    } else if s[0] == 13 {
        Ok(BTreePage::LeafTable(spec_leaf_header(s)))
    } else {
        Err(DecodeError::UnknownPageType)
    }
}

/// Reads the four fixed fields of the 8-byte interior page header. Offset 0
/// holds the page-type tag and is consumed by the caller.
pub fn parse_interior_page_header(page: &[u8]) -> (h: InteriorPageHeader)
    requires
        page@.len() >= 8,
    ensures
        h == spec_interior_header(page@),
{
    InteriorPageHeader {
        freeblock_start: be_parser(slice_subrange(page, 1, 3)) as u16,
        num_cells: be_parser(slice_subrange(page, 3, 5)) as u16,
        cell_content_start: be_parser(slice_subrange(page, 5, 7)) as u16,
        fragmented_bytes: page[7],
    }
}

/// Reads the interior header and the rightmost-pointer field behind it.
pub fn parse_leaf_page_header(page: &[u8]) -> (h: LeafPageHeader)
    requires
        page@.len() >= 12,
    ensures
        h == spec_leaf_header(page@),
{
    LeafPageHeader {
        interior_page_header: parse_interior_page_header(page),
        rightmost_pointer: be_parser(slice_subrange(page, 8, 12)) as u32,
    }
}

/// Classifies a page by the tag in its first byte and decodes its header.
/// Every tag outside 2, 5, 10 and 13 yields `UnknownPageType`.
pub fn parse_btree_page(page: &[u8]) -> (r: Result<BTreePage, DecodeError>)
    requires
        page@.len() >= 12,
    ensures
        r == spec_btree_page(page@),
{
    match page[0] {
        2 => Ok(BTreePage::InteriorIndex(parse_interior_page_header(page))),
        5 => Ok(BTreePage::InteriorTable(parse_interior_page_header(page))),
        10 => Ok(BTreePage::LeafIndex(parse_leaf_page_header(page))),
        13 => Ok(BTreePage::LeafTable(parse_leaf_page_header(page))),
        _ => Err(DecodeError::UnknownPageType),
    }
}

} // verus!
