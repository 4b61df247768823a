use crate::be::{be_parser, be_val, lemma_be_val_bound, pow256};
use crate::errors::DecodeError;
use crate::text::{bytes_to_string, utf8_decode};
use crate::types::{header_view, DBHeader, Encoding, HeaderModel};
use vstd::prelude::*;
use vstd::slice::{slice_subrange, slice_to_vec};

verus! {

/// The resolved page size: the raw 16-bit header value, except that the
/// sentinel raw value 1 stands for 65536.
pub open spec fn spec_page_size(raw: nat) -> nat {
    if raw == 1 {
        65536
    } else {
        raw
    }
}

/// The text encoding a header byte declares; 1, 2 and 3 are the only
/// supported values.
pub open spec fn spec_encoding(b: u8) -> Option<Encoding> {
    if b == 1 {
        Some(Encoding::UTF8)
    } else if b == 2 {
        Some(Encoding::UTF16LE)
    } else if b == 3 {
        Some(Encoding::UTF16BE)
    } else {
        None
    }
}

/// The file header decoded from a 100-byte buffer: magic text at bytes
/// 0 to 14, raw page size at 16 to 17 under the 65536-sentinel rule, page
/// count at 28 to 31, text-encoding byte at 59, and schema version at 96 to
/// 99, all big-endian. `MalformedHeader` when the magic bytes are not valid
/// text, `UnsupportedEncoding` when the encoding byte is not 1, 2 or 3.
pub open spec fn spec_db_header(s: Seq<u8>) -> Result<HeaderModel, DecodeError> {
    match utf8_decode(s.subrange(0, 15)) {
        None => Err(DecodeError::MalformedHeader),
        Some(magic) => match spec_encoding(s[59]) {
            None => Err(DecodeError::UnsupportedEncoding),
            Some(enc) => Ok(
                HeaderModel {
                    magic,
                    page_size: spec_page_size(be_val(s.subrange(16, 18))),
                    size_in_pages: be_val(s.subrange(28, 32)),
                    encoding: enc,
                    version_num: be_val(s.subrange(96, 100)),
                },
            ),
        },
    }
}

/// Decodes the 100-byte database file header, called once per session
/// before any page is read.
pub fn parse_db_header(bytes: &[u8]) -> (r: Result<DBHeader, DecodeError>)
    requires
        bytes@.len() == 100,
    ensures
        match r {
            Ok(h) => spec_db_header(bytes@) == Ok::<HeaderModel, DecodeError>(header_view(h)),
            Err(e) => spec_db_header(bytes@) == Err::<HeaderModel, DecodeError>(e),
        },
{
    let magic_bytes = slice_to_vec(slice_subrange(bytes, 0, 15));
    let magic = match bytes_to_string(magic_bytes) {
        Some(s) => s,
        None => {
            return Err(DecodeError::MalformedHeader);
        },
    };
    let encoding = if bytes[59] == 1 {
        Encoding::UTF8
    } else if bytes[59] == 2 {
        Encoding::UTF16LE
    } else if bytes[59] == 3 {
        Encoding::UTF16BE
    } else {
        return Err(DecodeError::UnsupportedEncoding);
    };
    proof {
        lemma_be_val_bound(bytes@.subrange(16, 18));
        lemma_be_val_bound(bytes@.subrange(28, 32));
        lemma_be_val_bound(bytes@.subrange(96, 100));
        assert(pow256(2) == 0x1_0000 && pow256(4) == 0x1_0000_0000) by {
            reveal_with_fuel(pow256, 5);
        }
    }
    let raw_size = be_parser(slice_subrange(bytes, 16, 18));
    let page_size: usize = if raw_size == 1 {
        65536
    } else {
        raw_size as usize
    };
    let size_in_pages = be_parser(slice_subrange(bytes, 28, 32)) as u32;
    let version_num = be_parser(slice_subrange(bytes, 96, 100)) as u32;
    Ok(DBHeader { header: magic, page_size, size_in_pages, encoding, version_num })
}

} // verus!
