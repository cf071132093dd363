//! LZ4 compression of inline stub content.
use vstd::prelude::*;
use vstd::string::StringExecFns;

use crate::ext_lz4::{
    lz4_compress_prepend_size, lz4_compressed, lz4_decompress_size_prepended,
    lz4_decompressed, lz4_error_text,
};
use crate::decimal::{decimal, usize_to_decimal};

verus! {

/// Errors of compression and decompression.
#[derive(Debug)]
pub enum CompressionError {
    DecompressFailed(String),
    TooLarge { max: usize, got: usize },
}

impl CompressionError {
    /// The text of the error.
    pub open spec fn spec_message(&self) -> Seq<char> {
        match self {
            CompressionError::DecompressFailed(s) => "decompression failed: "@ + s@,
            CompressionError::TooLarge { max, got } => "compressed output exceeds max size of "@
                + decimal(*max as nat) + " bytes (got "@ + decimal(*got as nat) + ")"@,
        }
    }

    /// The text of the error.
    pub fn message(&self) -> (r: String)
        ensures
            r@ == self.spec_message(),
    {
        match self {
            CompressionError::DecompressFailed(s) => {
                let mut r = String::from_str("decompression failed: ");
                r.append(s.as_str());
                r
            },
            CompressionError::TooLarge { max, got } => {
                let mut r = String::from_str("compressed output exceeds max size of ");
                r.append(usize_to_decimal(*max).as_str());
                r.append(" bytes (got ");
                r.append(usize_to_decimal(*got).as_str());
                r.append(")");
                r
            },
        }
    }
}

/// What `decompress` gives for the given bytes: `None` for an error. With
/// nothing after the 4-byte size, LZ4 finds no block token, which is an
/// error; otherwise it is what LZ4 decompression gives.
pub open spec fn decompressed(data: Seq<u8>) -> Option<Seq<u8>> {
    if data.len() <= 4 {
        None
    } else {
        lz4_decompressed(data)
    }
}

/// LZ4-compresses content, with its length prepended as a 32-bit number;
/// `decompress` gives back content of up to `u32::MAX` bytes.
pub fn compress(data: &[u8]) -> (r: Vec<u8>)
    ensures
        r@ == lz4_compressed(data@),
        data@.len() <= u32::MAX ==> decompressed(r@) == Some(data@),
        r@.len() > 4,
{
    lz4_compress_prepend_size(data)
}

/// Decompresses content that `compress` produced. Input that holds nothing
/// after the 4-byte size cannot hold a block; it is refused before LZ4
/// would allocate the declared size.
pub fn decompress(data: &[u8]) -> (r: Result<Vec<u8>, CompressionError>)
    ensures
        match decompressed(data@) {
            Some(d) => r matches Ok(v) && v@ == d,
            None => r matches Err(CompressionError::DecompressFailed(_)),
        },
{
    if data.len() <= 4 {
        return Err(
            CompressionError::DecompressFailed(String::from_str("expected another byte, found none")),
        );
    }
    match lz4_decompress_size_prepended(data) {
        Ok(v) => Ok(v),
        Err(e) => Err(CompressionError::DecompressFailed(lz4_error_text(&e))),
    }
}

} // verus!
