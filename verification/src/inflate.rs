//! Decompression of raw-DEFLATE block payloads, through flate2.

use vstd::prelude::*;

verus! {

/// What decoding a raw DEFLATE stream yields: the decoded bytes, or
/// nothing when the stream is malformed. Decoding is a function of the
/// input bytes alone.
pub uninterp spec fn inflate_of(s: Seq<u8>) -> Option<Seq<u8>>;

/// Relies on flate2's `read::DeflateDecoder` (with `Read::read_to_end`):
/// it decodes a raw DEFLATE stream, a pure function of the input bytes,
/// and reports an error exactly when the stream is malformed.
#[verifier::external_body]
pub(crate) fn inflate(input: &[u8]) -> (r: Option<Vec<u8>>)
    ensures
        r is Some <==> inflate_of(input@) is Some,
        r is Some ==> r->0@ == inflate_of(input@)->0,
{
    let mut decoder = flate2::read::DeflateDecoder::new(input);
    let mut out = Vec::new();
    match std::io::Read::read_to_end(&mut decoder, &mut out) {
        Ok(_) => Some(out),
        Err(_) => None,
    }
}

} // verus!
