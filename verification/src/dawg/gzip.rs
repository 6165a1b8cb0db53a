//! Decompression of the gzip wrapping in which dictionaries are stored.

use flate2::read::GzDecoder;
use std::io::Read;
use vstd::prelude::*;

verus! {

/// What the gzip decoder makes of `data`: the decompressed bytes of its
/// first member, or `None` where the decoder reports an error, because the
/// header, the compressed data or the checksum and length behind them are
/// not as the format demands, or because `data` ends too early.
pub uninterp spec fn spec_gunzip(data: Seq<u8>) -> Option<Seq<u8>>;

/// Runs `flate2::read::GzDecoder` over `data` and reads it to its end with
/// `read_to_end`. Nothing is proved of the decoder. The contract claims
/// only that its outcome is a function of `data`, and calls that function
/// [`spec_gunzip`]: the bytes read where reading succeeds, `None` where it
/// fails.
#[verifier::external_body]
pub(crate) fn gunzip(data: &[u8]) -> (out: Option<Vec<u8>>)
    ensures
        match out {
            Some(bytes) => spec_gunzip(data@) == Some(bytes@),
            None => spec_gunzip(data@) is None,
        },
{
    let mut bytes: Vec<u8> = Vec::new();
    match GzDecoder::new(data).read_to_end(&mut bytes) {
        Ok(_) => Some(bytes),
        Err(_) => None,
    }
}

} // verus!
