//! Small string helpers: key comparison and byte-to-string conversion.

use vstd::prelude::*;
use vstd::utf8::{decode_utf8, valid_utf8};

verus! {

/// Whether a parsed key equals the given field name.
pub(crate) fn key_is(k: &String, lit: &str) -> (r: bool)
    ensures
        r == (k@ == lit@),
{
    let other = lit.to_owned();
    *k == other
}

/// Relies on String::from_utf8: it succeeds exactly on byte sequences that
/// are valid UTF-8, and the resulting string holds the decoded scalars.
#[verifier::external_body]
pub(crate) fn bytes_to_string(v: Vec<u8>) -> (r: Option<String>)
    ensures
        match r {
            Some(s) => valid_utf8(v@) && s@ == decode_utf8(v@),
            None => !valid_utf8(v@),
        },
{
    String::from_utf8(v).ok()
}

} // verus!
