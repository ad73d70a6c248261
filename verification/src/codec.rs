//! The outside computations the document store rests on: the MD5 digest of
//! the `md5` crate and the gzip encoder and decoder of `flate2`. Nothing here
//! is proved; each contract says what is taken on trust.

use std::io::Read;
use std::io::Write;
use vstd::prelude::*;

verus! {

/// The MD5 digest of `data`, as `md5::compute` gives it.
pub uninterp spec fn md5_digest(data: Seq<u8>) -> Seq<u8>;

/// The gzip stream that `flate2`'s `GzEncoder`, at the best compression level
/// and with its default header, makes of `data`.
pub uninterp spec fn gzip_best(data: Seq<u8>) -> Seq<u8>;

/// What `flate2`'s `GzDecoder` reads out of the stream `data`: the decoded
/// bytes, or nothing where the stream is refused.
pub uninterp spec fn gzip_decoded(data: Seq<u8>) -> Option<Seq<u8>>;

/// Calls `md5::compute` and hands back the sixteen bytes of its `Digest`.
/// Trusted: they depend on the bytes given and on nothing else.
#[verifier::external_body]
pub(crate) fn md5_of(data: &[u8]) -> (digest: [u8; 16])
    ensures
        digest@ == md5_digest(data@),
{
    md5::compute(data).0
}

/// Writes `data` through `flate2::write::GzEncoder` made with
/// `Compression::best()` and hands back the finished stream. Trusted: the
/// stream depends on `data` alone (the header carries no time and no name),
/// and the decoder of the same crate reads `data` back out of it.
#[verifier::external_body]
pub(crate) fn gzip_best_of(data: &[u8]) -> (stream: Vec<u8>)
    ensures
        stream@ == gzip_best(data@),
        gzip_decoded(stream@) == Some(data@),
{
    let sink = Vec::with_capacity(data.len());
    let mut encoder = flate2::write::GzEncoder::new(sink, flate2::Compression::best());
    encoder.write_all(data).unwrap();
    encoder.finish().unwrap()
}

/// Reads `data` to its end through `flate2::read::GzDecoder`. Trusted: the
/// outcome depends on `data` alone; a stream the decoder refuses gives `None`.
#[verifier::external_body]
pub(crate) fn gzip_decode(data: &[u8]) -> (decoded: Option<Vec<u8>>)
    ensures
        match decoded {
            Some(bytes) => gzip_decoded(data@) == Some(bytes@),
            None => gzip_decoded(data@) is None,
        },
{
    let mut bytes = Vec::new();
    match flate2::read::GzDecoder::new(data).read_to_end(&mut bytes) {
        Ok(_) => Some(bytes),
        Err(_) => None,
    }
}

} // verus!
