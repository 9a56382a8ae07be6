use crate::errors::ReportError;
use vstd::prelude::*;

verus! {

/// What zlib decompression recovers from a byte stream: `None` when the
/// stream is corrupt or truncated, otherwise the original bytes.  The
/// result is a function of the input bytes alone.
pub uninterp spec fn zlib_inflate(data: Seq<u8>) -> Option<Seq<u8>>;

/// `std::io::Error`, carried through unread so the caller can map it.
#[verifier::external_type_specification]
#[verifier::external_body]
pub struct ExIoError(std::io::Error);

/// Relies on `flate2::read::ZlibDecoder` with `Read::read_to_end`: the
/// whole stream is inflated, any corruption or truncation fails with no
/// partial data, and the outcome depends on the input bytes alone.
#[verifier::external_body]
pub fn decompress_data(data: &[u8]) -> (r: Result<Vec<u8>, std::io::Error>)
    ensures
        r matches Ok(v) ==> zlib_inflate(data@) == Some(v@),
        r is Err ==> zlib_inflate(data@) is None,
{
    let mut decoder = flate2::read::ZlibDecoder::new(data);
    let mut extracted = Vec::new();
    std::io::Read::read_to_end(&mut decoder, &mut extracted)?;
    Ok(extracted)
}

/// Relies on `flate2::read::ZlibEncoder`: zlib compression is lossless,
/// so whatever the encoder emits inflates back to its input.
#[verifier::external_body]
fn compress_data(data: &[u8]) -> (r: Vec<u8>)
    ensures
        zlib_inflate(r@) == Some(data@),
{
    let mut encoder = flate2::read::ZlibEncoder::new(data, flate2::Compression::default());
    let mut out = Vec::new();
    std::io::Read::read_to_end(&mut encoder, &mut out).unwrap();
    out
}

/// Inflate a compressed upload into the container payload, mapping any
/// stream corruption to `DecompressionFailure`.
pub fn decompress(data: &[u8]) -> (r: Result<Vec<u8>, ReportError>)
    ensures
        r matches Ok(v) ==> zlib_inflate(data@) == Some(v@),
        r matches Err(e) ==> e == ReportError::DecompressionFailure && zlib_inflate(data@) is None,
{
    match decompress_data(data) {
        Ok(v) => Ok(v),
        Err(_) => Err(ReportError::DecompressionFailure),
    }
}

/// Law: decompression undoes compression.  For every byte buffer, deflating
/// it and inflating the result returns the original bytes.
pub fn compress_round_trip(data: &[u8]) -> (r: Vec<u8>)
    ensures
        r@ == data@,
{
    let compressed = compress_data(data);
    match decompress(compressed.as_slice()) {
        Ok(v) => v,
        Err(_) => {
            proof {
                assert(false);
            }
            unreached()
        },
    }
}

} // verus!
