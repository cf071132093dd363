//! Assumed contracts of the calls into `lz4_flex`, the block compressor that stub content
//! goes through.
use vstd::prelude::*;

verus! {

/// What `lz4_flex::compress_prepend_size` returns for the given bytes.
pub uninterp spec fn lz4_compressed(data: Seq<u8>) -> Seq<u8>;

/// What `lz4_flex::decompress_size_prepended` returns for the given bytes:
/// `None` where it returns an error.
pub uninterp spec fn lz4_decompressed(data: Seq<u8>) -> Option<Seq<u8>>;

#[verifier::external_type_specification]
#[verifier::external_body]
pub struct ExDecompressError(lz4_flex::block::DecompressError);

/// Calls `lz4_flex::compress_prepend_size`. Claims: the result is the
/// named result for the input; after the 4-byte length prefix it holds at
/// least one byte, the token that `handle_last_literals` always writes; the
/// crate documents it for use with `decompress_size_prepended`, which gives
/// the input back where its length fits the prefix. The prefix is the
/// length as a `u32`, so for inputs of 4 GiB or more it wraps, and nothing
/// is claimed of decompressing those.
#[verifier::external_body]
pub(crate) fn lz4_compress_prepend_size(data: &[u8]) -> (r: Vec<u8>)
    ensures
        r@ == lz4_compressed(data@),
        data@.len() <= u32::MAX ==> lz4_decompressed(r@) == Some(data@),
        r@.len() > 4,
{
    lz4_flex::compress_prepend_size(data)
}

/// Calls `lz4_flex::decompress_size_prepended`. Claims: it succeeds exactly
/// where the named result is `Some`, with that content; an input shorter
/// than the 4-byte length prefix is refused (`uncompressed_size` reads the
/// prefix with `get(..4)`).
#[verifier::external_body]
pub(crate) fn lz4_decompress_size_prepended(data: &[u8]) -> (r: Result<
    Vec<u8>,
    lz4_flex::block::DecompressError,
>)
    ensures
        r is Ok <==> lz4_decompressed(data@) is Some,
        r matches Ok(v) ==> lz4_decompressed(data@) == Some(v@),
        data@.len() < 4 ==> r is Err,
{
    lz4_flex::decompress_size_prepended(data)
}

/// Calls the `Display` impl of `lz4_flex::block::DecompressError`; nothing
/// is claimed of the text.
#[verifier::external_body]
pub(crate) fn lz4_error_text(e: &lz4_flex::block::DecompressError) -> String {
    format!("{}", e)
}

} // verus!
