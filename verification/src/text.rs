use vstd::prelude::*;

verus! {

/// The characters that a byte sequence decodes to under UTF-8, or `None`
/// when the bytes are not valid UTF-8. The decoding is a function of the
/// bytes alone; its definition is left to the standard library.
pub uninterp spec fn utf8_decode(bytes: Seq<u8>) -> Option<Seq<char>>;

/// Relies on `String::from_utf8`: it returns `Ok` exactly on valid UTF-8
/// input, and then the returned string holds the decoded characters.
#[verifier::external_body]
pub fn bytes_to_string(bytes: Vec<u8>) -> (r: Option<String>)
    ensures
        match r {
            Some(s) => utf8_decode(bytes@) == Some(s@),
            None => utf8_decode(bytes@) is None,
        },
{
    match String::from_utf8(bytes) {
        Ok(s) => Some(s),
        Err(_) => None,
    }
}

} // verus!
