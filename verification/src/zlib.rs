//! The zlib stream under the Base45 text.

use std::io::Read;
use vstd::prelude::*;
use crate::error::FormatError;

verus! {

/// What the zlib stream at the start of `data` inflates to, or `None` where
/// `data` is no complete, intact zlib stream.
pub uninterp spec fn inflated(data: Seq<u8>) -> Option<Seq<u8>>;

/// `std::io::Error`, which is told from success and then dropped.
#[verifier::external_type_specification]
#[verifier::external_body]
pub struct ExIoError(std::io::Error);

/// `flate2::read::ZlibDecoder` over `data`, read to its end.
///
/// The decoder inflates with no state but its input, so its outcome is a
/// function of `data`: the inflated bytes, or an error on a corrupt stream, a
/// wrong checksum or an input that ends before the stream does.
#[verifier::external_body]
fn zlib_decode(data: &[u8]) -> (r: Result<Vec<u8>, std::io::Error>)
    ensures
        match r {
            Ok(out) => inflated(data@) == Some(out@),
            Err(_) => inflated(data@) is None,
        },
{
    let mut out = Vec::new();
    match flate2::read::ZlibDecoder::new(data).read_to_end(&mut out) {
        Ok(_) => Ok(out),
        Err(e) => Err(e),
    }
}

/// Inflates the zlib stream in `data`.
///
/// Fails with [`FormatError::DecompressionFailed`] exactly where [`inflated`]
/// is `None`.
pub fn inflate(data: &[u8]) -> (r: Result<Vec<u8>, FormatError>)
    ensures
        match r {
            Ok(out) => inflated(data@) == Some(out@),
            Err(e) => e == FormatError::DecompressionFailed && inflated(data@) is None,
        },
{
    match zlib_decode(data) {
        Ok(out) => Ok(out),
        Err(_) => Err(FormatError::DecompressionFailed),
    }
}

} // verus!
