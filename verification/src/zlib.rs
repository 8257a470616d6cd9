//! The whole-payload compression pass: a thin seam over miniz_oxide's
//! zlib deflate and inflate.

use vstd::prelude::*;

verus! {

/// Compression setting of one write.
#[derive(Debug, Clone, Copy, PartialEq, Eq, Structural)]
pub enum CompressionLevel {
    /// Store the payload verbatim; the file's compression flag stays 0.
    NoCompression,
    /// Fast compression.
    BestSpeed,
    /// Default compromise between speed and compression.
    DefaultLevel,
    /// Slow, high compression.
    BestCompression,
    /// Even more checks; can be very slow.
    UberCompression,
}

impl CompressionLevel {
    /// The numeric zlib level this setting stands for.
    pub open spec fn spec_level(self) -> u8 {
        match self {
            CompressionLevel::NoCompression => 0,
            CompressionLevel::BestSpeed => 1,
            CompressionLevel::DefaultLevel => 6,
            CompressionLevel::BestCompression => 9,
            CompressionLevel::UberCompression => 10,
        }
    }

    /// The numeric zlib level this setting stands for.
    pub fn level(self) -> (r: u8)
        ensures
            r == self.spec_level(),
    {
        match self {
            CompressionLevel::NoCompression => 0,
            CompressionLevel::BestSpeed => 1,
            CompressionLevel::DefaultLevel => 6,
            CompressionLevel::BestCompression => 9,
            CompressionLevel::UberCompression => 10,
        }
    }
}

/// The zlib stream that deflating these bytes at this level produces.
pub uninterp spec fn zlib_deflate(data: Seq<u8>, level: u8) -> Seq<u8>;

/// The bytes that inflating this zlib stream produces, or nothing when the
/// stream is not one whole well-formed zlib stream.
pub uninterp spec fn zlib_inflate(data: Seq<u8>) -> Option<Seq<u8>>;

/// Relies on miniz_oxide::deflate::compress_to_vec_zlib: the result is a
/// function of the input bytes and the level alone, and
/// miniz_oxide::inflate::decompress_to_vec_zlib losslessly inverts it.
#[verifier::external_body]
pub(crate) fn deflate_zlib(data: &Vec<u8>, level: u8) -> (r: Vec<u8>)
    ensures
        r@ == zlib_deflate(data@, level),
        zlib_inflate(r@) == Some(data@),
{
    miniz_oxide::deflate::compress_to_vec_zlib(data.as_slice(), level)
}

/// Relies on miniz_oxide::inflate::decompress_to_vec_zlib: success and the
/// decompressed bytes are a function of the input bytes alone.
#[verifier::external_body]
pub(crate) fn inflate_zlib(data: &[u8]) -> (r: Result<Vec<u8>, ()>)
    ensures
        match r {
            Ok(v) => zlib_inflate(data@) == Some(v@),
            Err(_) => zlib_inflate(data@) is None,
        },
{
    match miniz_oxide::inflate::decompress_to_vec_zlib(data) {
        Ok(v) => Ok(v),
        Err(_) => Err(()),
    }
}

} // verus!
