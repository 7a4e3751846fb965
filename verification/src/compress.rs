//! bzip2 compression of the exported metadata JSON.
use vstd::prelude::*;
use crate::errors::FicDataError;
use crate::metadata::opt_view;

verus! {

/// What `bzip2::write::BzEncoder` at `bzip2::Compression::best()` writes for
/// the UTF-8 bytes of `text`.
pub uninterp spec fn bzip2_compressed(text: Seq<char>) -> Seq<u8>;

/// What reading `data` through `bzip2::read::BzDecoder` into a string gives:
/// the decompressed text, or none when `data` is not a bzip2 stream of UTF-8 text.
pub uninterp spec fn bzip2_decompressed_text(data: Seq<u8>) -> Option<Seq<char>>;

/// Compresses the UTF-8 bytes of `text` with `bzip2::write::BzEncoder` at the
/// best compression level (`write_all`, then `finish`).
/// Claimed: it succeeds (the encoder's only I/O errors come from writing to
/// its output, here a `Vec`, which never fails), its result is
/// `bzip2_compressed(text)`, and decompressing it gives `text` back (bzip2 is
/// lossless).
#[verifier::external_body]
fn bzip2_compress(text: &str) -> (r: Result<Vec<u8>, std::io::Error>)
    ensures
        r is Ok,
        r matches Ok(b) ==> b@ == bzip2_compressed(text@),
        r matches Ok(b) ==> bzip2_decompressed_text(b@) == Some(text@),
{
    let mut encoder = bzip2::write::BzEncoder::new(Vec::new(), bzip2::Compression::best());
    std::io::Write::write_all(&mut encoder, text.as_bytes())?;
    encoder.finish()
}

/// Reads `data` through `bzip2::read::BzDecoder` into a string
/// (`std::io::Read::read_to_string`); none when that fails.
/// Claimed: the result is `bzip2_decompressed_text(data)`.
#[verifier::external_body]
fn bzip2_decompress_text(data: &[u8]) -> (r: Option<String>)
    ensures
        opt_view(r) == bzip2_decompressed_text(data@),
{
    let mut decoder = bzip2::read::BzDecoder::new(data);
    let mut content = String::new();
    std::io::Read::read_to_string(&mut decoder, &mut content).ok()?;
    Some(content)
}

/// The bzip2 compression (best level) of the exported JSON text `json`; it
/// always succeeds, and the result decompresses back to `json`.
pub fn compress_export(json: &str) -> (r: Result<Vec<u8>, FicDataError>)
    ensures
        r is Ok,
        match r {
            Ok(b) => b@ == bzip2_compressed(json@) && bzip2_decompressed_text(b@) == Some(json@),
            Err(e) => e is IoError,
        },
{
    match bzip2_compress(json) {
        Ok(b) => Ok(b),
        Err(e) => Err(FicDataError::IoError(e)),
    }
}

/// The exported JSON text that the bzip2 data `data` holds; none when `data`
/// is not a bzip2 stream of UTF-8 text.
pub fn decompress_export(data: &[u8]) -> (r: Option<String>)
    ensures
        opt_view(r) == bzip2_decompressed_text(data@),
{
    bzip2_decompress_text(data)
}

} // verus!
