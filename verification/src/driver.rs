use crate::errors::DecodeError;
use crate::header::{parse_db_header, spec_db_header};
use crate::page::{parse_btree_page, spec_btree_page};
use crate::record::{parse_record, spec_record};
use crate::types::{
    header_view, record_view, BTreePage, DBHeader, HeaderModel, LeafPageHeader, Record,
    RecordModel,
};
use crate::varint::{varint_at, varint_parser};
use vstd::prelude::*;
use vstd::slice::slice_subrange;

verus! {

/// One page's decoded form: its classified header and, for a leaf table
/// page, the outcome of each cell walked in order. Cells of other page kinds
/// are not decoded.
#[derive(Debug, Clone, PartialEq)]
pub struct ParsedPage {
    pub page: BTreePage,
    pub cells: Vec<Result<(u64, Record), DecodeError>>,
}

/// Everything decoded from one file: the header, one outcome per page after
/// the first, and whether the file ended before its declared page count.
#[derive(Debug, Clone, PartialEq)]
pub struct ParseOutcome {
    pub header: DBHeader,
    pub pages: Vec<Result<ParsedPage, DecodeError>>,
    pub truncated: bool,
}

/// Mathematical model of a `ParsedPage`.
pub struct PageModel {
    pub page: BTreePage,
    pub cells: Seq<Result<(u64, RecordModel), DecodeError>>,
}

/// Mathematical model of a `ParseOutcome`.
pub struct OutcomeModel {
    pub header: HeaderModel,
    pub pages: Seq<Result<PageModel, DecodeError>>,
    pub truncated: bool,
}

pub open spec fn cell_view(c: Result<(u64, Record), DecodeError>) -> Result<
    (u64, RecordModel),
    DecodeError,
> {
    match c {
        Ok(p) => Ok((p.0, record_view(p.1))),
        Err(e) => Err(e),
    }
}

pub open spec fn parsed_page_view(p: ParsedPage) -> PageModel {
    PageModel { page: p.page, cells: p.cells@.map_values(|c| cell_view(c)) }
}

pub open spec fn page_result_view(r: Result<ParsedPage, DecodeError>) -> Result<
    PageModel,
    DecodeError,
> {
    match r {
        Ok(p) => Ok(parsed_page_view(p)),
        Err(e) => Err(e),
    }
}

pub open spec fn outcome_view(o: ParseOutcome) -> OutcomeModel {
    OutcomeModel {
        header: header_view(o.header),
        pages: o.pages@.map_values(|r| page_result_view(r)),
        truncated: o.truncated,
    }
}

/// The outcomes of walking `n` cells from `pos` on: for each cell a payload
/// size and a rowid, both varints, then the payload itself, handed to the
/// record decoder. A varint or payload running past the page is fatal for
/// the page: the walk records `OutOfBounds` and stops. A record that fails
/// internally is fatal only for that cell: the walk records its error and
/// goes on at the next cell.
pub open spec fn spec_cells(page: Seq<u8>, pos: int, n: nat) -> Seq<
    Result<(u64, RecordModel), DecodeError>,
>
    decreases n,
{
    if n == 0 {
        Seq::empty()
    } else {
        match varint_at(page, pos) {
            None => seq![Err(DecodeError::OutOfBounds)],
            Some(sz) => match varint_at(page, pos + sz.1) {
                None => seq![Err(DecodeError::OutOfBounds)],
                Some(rid) => {
                    let pstart = pos + sz.1 + rid.1;
                    if pstart + sz.0 > page.len() {
                        seq![Err(DecodeError::OutOfBounds)]
                    } else {
                        let payload = page.subrange(pstart, pstart + sz.0);
                        let cell = match spec_record(payload) {
                            Ok(m) => Ok((rid.0 as u64, m)),
                            Err(e) => Err(e),
                        };
                        seq![cell] + spec_cells(page, pstart + sz.0, (n - 1) as nat)
                    }
                },
            },
        }
    }
}

/// One page decoded: classified by its tag, and walked cell by cell when it
/// is a leaf table page, starting at the header's cell-content-start offset.
pub open spec fn spec_page(page: Seq<u8>) -> Result<PageModel, DecodeError> {
    match spec_btree_page(page) {
        Err(e) => Err(e),
        Ok(bt) => Ok(
            PageModel {
                page: bt,
                cells: match bt {
                    BTreePage::LeafTable(h) => spec_cells(
                        page,
                        h.interior_page_header.cell_content_start as int,
                        h.interior_page_header.num_cells as nat,
                    ),
                    _ => Seq::empty(),
                },
            },
        ),
    }
}

/// The outcomes of reading `count` pages of `psize` bytes each from `off`
/// on, and whether the stream ended short of the declared count.
pub open spec fn spec_pages(s: Seq<u8>, off: int, psize: nat, count: nat) -> (Seq<
    Result<PageModel, DecodeError>,
>, bool)
    decreases count,
{
    if count == 0 {
        (Seq::empty(), false)
    } else if off + psize > s.len() {
        (Seq::empty(), true)
    } else {
        let rest = spec_pages(s, off + psize, psize, (count - 1) as nat);
        (seq![spec_page(s.subrange(off, off + psize))] + rest.0, rest.1)
    }
}

/// The whole file decoded: the 100-byte header first, then the rest of page
/// 1 skipped (its body is never classified, a kept limitation), then one
/// page per remaining declared page. A file too short for the header is
/// `IoTruncation`; a resolved page size too small to contain the header is
/// `MalformedHeader`; a file ending inside a page stops the walk with the
/// truncation flag set and everything already decoded preserved.
pub open spec fn spec_parse_db(s: Seq<u8>) -> Result<OutcomeModel, DecodeError> {
    if s.len() < 100 {
        Err(DecodeError::IoTruncation)
    } else {
        match spec_db_header(s.subrange(0, 100)) {
            Err(e) => Err(e),
            Ok(h) => {
                if h.page_size < 100 {
                    Err(DecodeError::MalformedHeader)
                } else if s.len() < h.page_size {
                    Ok(OutcomeModel { header: h, pages: Seq::empty(), truncated: true })
                } else {
                    let count: nat = if h.size_in_pages == 0 {
                        0
                    } else {
                        (h.size_in_pages - 1) as nat
                    };
                    let pr = spec_pages(s, h.page_size as int, h.page_size, count);
                    Ok(OutcomeModel { header: h, pages: pr.0, truncated: pr.1 })
                }
            },
        }
    }
}

/// Law: decoding is a pure function of the input bytes, with no hidden
/// mutable state: equal buffers decode to equal outcomes, so decoding the
/// same buffer twice yields identical results.
pub proof fn lemma_decode_idempotent(s1: Seq<u8>, s2: Seq<u8>)
    requires
        s1 == s2,
    ensures
        spec_parse_db(s1) == spec_parse_db(s2),
{
}

/// Walks the cells of a leaf table page in order, pairing each record with
/// its rowid.
#[verifier::loop_isolation(false)]
pub fn parse_leaf_table_page(page: &[u8], header: LeafPageHeader) -> (cells: Vec<
    Result<(u64, Record), DecodeError>,
>)
    ensures
        cells@.map_values(|c| cell_view(c)) == spec_cells(
            page@,
            header.interior_page_header.cell_content_start as int,
            header.interior_page_header.num_cells as nat,
        ),
{
    let ghost s = page@;
    let plen = page.len();
    let n = header.interior_page_header.num_cells;
    let ghost pos0 = header.interior_page_header.cell_content_start as int;
    let mut cells: Vec<Result<(u64, Record), DecodeError>> = Vec::new();
    let mut cursor: usize = header.interior_page_header.cell_content_start as usize;
    let mut i: u16 = 0;
    while i < n
        invariant
            i <= n,
            spec_cells(s, pos0, n as nat) == cells@.map_values(|c| cell_view(c)) + spec_cells(
                s,
                cursor as int,
                (n - i) as nat,
            ),
        decreases n - i,
    {
        let ghost oc = cursor as int;
        let ghost done = cells@.map_values(|c| cell_view(c));
        let (payload_size, l1) = match varint_parser(page, cursor) {
            Ok(p) => p,
            Err(e) => {
                cells.push(Err(e));
                proof {
                    assert(cells@.map_values(|c| cell_view(c)) =~= done.push(
                        Err(DecodeError::OutOfBounds),
                    ));
                    assert(done + seq![Err::<(u64, RecordModel), DecodeError>(
                        DecodeError::OutOfBounds,
                    )] =~= done.push(Err(DecodeError::OutOfBounds)));
                }
                return cells;
            },
        };
        let (rowid, l2) = match varint_parser(page, cursor + l1) {
            Ok(p) => p,
            Err(e) => {
                cells.push(Err(e));
                proof {
                    assert(cells@.map_values(|c| cell_view(c)) =~= done.push(
                        Err(DecodeError::OutOfBounds),
                    ));
                    assert(done + seq![Err::<(u64, RecordModel), DecodeError>(
                        DecodeError::OutOfBounds,
                    )] =~= done.push(Err(DecodeError::OutOfBounds)));
                }
                return cells;
            },
        };
        let pstart = cursor + l1 + l2;
        if payload_size > (plen - pstart) as u64 {
            cells.push(Err(DecodeError::OutOfBounds));
            proof {
                assert(cells@.map_values(|c| cell_view(c)) =~= done.push(
                    Err(DecodeError::OutOfBounds),
                ));
                assert(done + seq![Err::<(u64, RecordModel), DecodeError>(
                    DecodeError::OutOfBounds,
                )] =~= done.push(Err(DecodeError::OutOfBounds)));
            }
            return cells;
        }
        let w = payload_size as usize;
        let payload = slice_subrange(page, pstart, pstart + w);
        let cell: Result<(u64, Record), DecodeError> = match parse_record(payload) {
            Ok(rec) => Ok((rowid, rec)),
            Err(e) => Err(e),
        };
        cells.push(cell);
        cursor = pstart + w;
        i = i + 1;
        proof {
            assert(cells@.map_values(|c| cell_view(c)) =~= done.push(cell_view(cell)));
            assert(done + (seq![cell_view(cell)] + spec_cells(s, cursor as int, (n - i) as nat))
                =~= done.push(cell_view(cell)) + spec_cells(s, cursor as int, (n - i) as nat));
        }
    }
    proof {
        assert(cells@.map_values(|c| cell_view(c)) + Seq::<
            Result<(u64, RecordModel), DecodeError>,
        >::empty() =~= cells@.map_values(|c| cell_view(c)));
    }
    cells
}

/// Decodes a whole database file held in memory: the 100-byte header, then
/// each declared page in order. Per-page and per-record failures are
/// collected in place and never stop their siblings; a short read stops the
/// walk with the truncation flag set.
#[verifier::loop_isolation(false)]
pub fn parse_db(bytes: &[u8]) -> (r: Result<ParseOutcome, DecodeError>)
    ensures
        match r {
            Ok(o) => spec_parse_db(bytes@) == Ok::<OutcomeModel, DecodeError>(outcome_view(o)),
            Err(e) => spec_parse_db(bytes@) == Err::<OutcomeModel, DecodeError>(e),
        },
{
    let ghost s = bytes@;
    let plen = bytes.len();
    if plen < 100 {
        return Err(DecodeError::IoTruncation);
    }
    let header = match parse_db_header(slice_subrange(bytes, 0, 100)) {
        Ok(h) => h,
        Err(e) => {
            return Err(e);
        },
    };
    let page_size = header.page_size;
    if page_size < 100 {
        return Err(DecodeError::MalformedHeader);
    }
    if plen < page_size {
        let o = ParseOutcome { header, pages: Vec::new(), truncated: true };
        proof {
            assert(o.pages@.map_values(|r: Result<ParsedPage, DecodeError>| page_result_view(r))
                =~= Seq::<Result<PageModel, DecodeError>>::empty());
        }
        return Ok(o);
    }
    let count: u32 = if header.size_in_pages == 0 {
        0
    } else {
        header.size_in_pages - 1
    };
    let mut pages: Vec<Result<ParsedPage, DecodeError>> = Vec::new();
    let mut off: usize = page_size;
    let mut k: u32 = 0;
    while k < count
        invariant
            k <= count,
            off <= plen,
            spec_pages(s, page_size as int, page_size as nat, count as nat).0 == pages@.map_values(
                |r: Result<ParsedPage, DecodeError>| page_result_view(r),
            ) + spec_pages(s, off as int, page_size as nat, (count - k) as nat).0,
            spec_pages(s, page_size as int, page_size as nat, count as nat).1 == spec_pages(
                s,
                off as int,
                page_size as nat,
                (count - k) as nat,
            ).1,
        decreases count - k,
    {
        let ghost done = pages@.map_values(|r: Result<ParsedPage, DecodeError>| page_result_view(r));
        if page_size > plen - off {
            let o = ParseOutcome { header, pages, truncated: true };
            proof {
                assert(done + Seq::<Result<PageModel, DecodeError>>::empty() =~= done);
            }
            return Ok(o);
        }
        let pg = slice_subrange(bytes, off, off + page_size);
        let entry: Result<ParsedPage, DecodeError> = match parse_btree_page(pg) {
            Err(e) => Err(e),
            Ok(bt) => {
                let cells: Vec<Result<(u64, Record), DecodeError>> = match &bt {
                    BTreePage::LeafTable(h) => parse_leaf_table_page(pg, *h),
                    _ => Vec::new(),
                };
                proof {
                    if !(bt is LeafTable) {
                        assert(cells@.map_values(|c: Result<(u64, Record), DecodeError>|
                            cell_view(c)) =~= Seq::<Result<(u64, RecordModel), DecodeError>>::empty());
                    }
                }
                Ok(ParsedPage { page: bt, cells })
            },
        };
        pages.push(entry);
        off = off + page_size;
        k = k + 1;
        proof {
            assert(pages@.map_values(|r: Result<ParsedPage, DecodeError>| page_result_view(r))
                =~= done.push(page_result_view(entry)));
            assert(done + (seq![page_result_view(entry)] + spec_pages(
                s,
                off as int,
                page_size as nat,
                (count - k) as nat,
            ).0) =~= done.push(page_result_view(entry)) + spec_pages(
                s,
                off as int,
                page_size as nat,
                (count - k) as nat,
            ).0);
        }
    }
    let o = ParseOutcome { header, pages, truncated: false };
    proof {
        assert(o.pages@.map_values(|r: Result<ParsedPage, DecodeError>| page_result_view(r))
            + Seq::<Result<PageModel, DecodeError>>::empty() =~= o.pages@.map_values(
            |r: Result<ParsedPage, DecodeError>| page_result_view(r),
        ));
    }
    Ok(o)
}

} // verus!
