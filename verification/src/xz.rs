//! Decompression of XZ-compressed images.
//!
//! A flash whose source name carries the `.xz` suffix first decodes
//! the image and then proceeds on the decoded bytes.  The decoder is
//! the `lzma` crate; a malformed stream is a reported
//! `DecompressionFailed`, never partial output and never a process
//! abort.

use vstd::prelude::*;
use vstd::string::StrSliceExecFns;
use crate::errors::ImagingError;

verus! {

/// Outcome of XZ-decoding a byte sequence: the decoded bytes for a
/// well-formed single-stream input, nothing for a malformed one.  The
/// value is fixed by the XZ format alone and is not restated here.
pub uninterp spec fn xz_decoded(data: Seq<u8>) -> Option<Seq<u8>>;

#[verifier::external_type_specification]
#[verifier::external_body]
pub struct ExLzmaError(lzma::LzmaError);

/// Relies on `lzma::decompress`: one-shot XZ decoding of a byte
/// buffer, whose outcome — success and the decoded bytes, or an error
/// for a malformed stream — depends on the input bytes alone.
#[verifier::external_body]
fn lzma_decompress(data: &[u8]) -> (r: Result<Vec<u8>, lzma::LzmaError>)
    ensures
        r is Ok <==> xz_decoded(data@) is Some,
        r is Ok ==> r.unwrap()@ == xz_decoded(data@).unwrap(),
{
    lzma::decompress(data)
}

/// Decode a compressed image in full.  A well-formed stream yields
/// exactly its decoded bytes; a malformed one yields
/// `DecompressionFailed` and no output at all.
pub fn decompress_image(data: &[u8]) -> (r: Result<Vec<u8>, ImagingError>)
    ensures
        match r {
            Ok(out) => xz_decoded(data@) is Some && out@ == xz_decoded(data@).unwrap(),
            Err(e) => xz_decoded(data@) is None && e == ImagingError::DecompressionFailed,
        },
{
    match lzma_decompress(data) {
        Ok(out) => Ok(out),
        Err(_) => Err(ImagingError::DecompressionFailed),
    }
}

/// Whether a file name marks an XZ-compressed image, by the `.xz`
/// suffix.
pub open spec fn has_xz_suffix(name: Seq<char>) -> bool {
    &&& name.len() >= 3
    &&& name[name.len() - 3] == '.'
    &&& name[name.len() - 2] == 'x'
    &&& name[name.len() - 1] == 'z'
}

/// Decide from its name whether an image must be decompressed before
/// flashing.
pub fn is_xz_name(name: &str) -> (r: bool)
    ensures
        r == has_xz_suffix(name@),
{
    let n = name.unicode_len();
    if n < 3 {
        return false;
    }
    let dot = name.get_char(n - 3);
    let x = name.get_char(n - 2);
    let z = name.get_char(n - 1);
    dot == '.' && x == 'x' && z == 'z'
}

} // verus!
