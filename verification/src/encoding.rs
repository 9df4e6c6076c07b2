//! Decoding of source bytes: the exports use the legacy single-byte
//! Western code page, not UTF-8.

use vstd::prelude::*;

verus! {

/// The text that decoding a byte buffer as windows-1252 yields.  The
/// decoder replaces malformed input rather than failing, so every buffer
/// decodes to some text, and the text depends on the bytes alone.
pub uninterp spec fn win1252_decode(bytes: Seq<u8>) -> Seq<char>;

/// Whether decoding the buffer needed lossy replacement; a function of
/// the bytes alone, recorded so the caller can log it without failing.
pub uninterp spec fn win1252_lossy(bytes: Seq<u8>) -> bool;

/// Relies on encoding_rs::WINDOWS_1252.decode: decodes the whole buffer,
/// with malformed sequences replaced by the replacement character, and
/// reports whether any replacement happened; both results are functions
/// of the bytes alone.
#[verifier::external_body]
pub(crate) fn decode_windows_1252(bytes: &Vec<u8>) -> (r: (String, bool))
    ensures
        r.0@ == win1252_decode(bytes@),
        r.1 == win1252_lossy(bytes@),
{
    let (cow, _, had_errors) = encoding_rs::WINDOWS_1252.decode(bytes.as_slice());
    (cow.into_owned(), had_errors)
}

} // verus!
