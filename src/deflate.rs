//! Gzip compression of payloads, through flate2.

use vstd::prelude::*;
use std::io::{Read, Write};
use flate2::read::GzDecoder;
use flate2::write::GzEncoder;
use flate2::Compression;

verus! {

#[verifier::external_type_specification]
#[verifier::external_body]
pub struct ExIoError(std::io::Error);

/// The gzip stream that flate2's `GzEncoder` writes for `data` at the default
/// level (no file name, modification time zero).
pub uninterp spec fn gzip_of(data: Seq<u8>) -> Seq<u8>;

/// What flate2's `GzDecoder` inflates `data` to, or `None` where it reports an error.
pub uninterp spec fn gunzip_of(data: Seq<u8>) -> Option<Seq<u8>>;

/// Relies on `flate2::write::GzEncoder` over a `Vec` at `Compression::default()`,
/// with `write_all` and `finish`: the stream it produces is the gzip encoding of
/// `data`, which `GzDecoder` inflates back to `data`.
#[verifier::external_body]
pub(crate) fn gzip(data: &[u8]) -> (r: Result<Vec<u8>, std::io::Error>)
    ensures
        r matches Ok(z) ==> z@ == gzip_of(data@) && gunzip_of(z@) == Some(data@),
{
    let mut encoder = GzEncoder::new(Vec::new(), Compression::default());
    encoder.write_all(data)?;
    encoder.finish()
}

/// Relies on `flate2::read::GzDecoder` over a slice, read with `read_to_end`:
/// on an in-memory source its outcome depends on `data` alone.
#[verifier::external_body]
pub(crate) fn gunzip(data: &[u8]) -> (r: Result<Vec<u8>, std::io::Error>)
    ensures
        r matches Ok(v) ==> gunzip_of(data@) == Some(v@),
        r is Err ==> gunzip_of(data@) is None,
{
    let mut decoder = GzDecoder::new(data);
    let mut out = Vec::new();
    decoder.read_to_end(&mut out)?;
    Ok(out)
}

} // verus!
