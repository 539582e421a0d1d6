//! Thumbnails of photos: where they go, when a picture is scaled down, and how
//! a batch is tallied.
//!
//! A thumbnail is stored as `<thumb_dir>/<blake3 hex of its bytes>.webp`; the
//! name is derived from the content, so writing it again is harmless.

use vstd::prelude::*;
use crate::paths::{join, path_join};
use crate::log_watcher::file_identity::{blake3_digest, blake3_hash};
use crate::log_watcher::hex::{hex_encode, hex_text, lemma_hex_text_len};

verus! {

/// Settings of the thumbnail writer.
#[derive(Debug, Clone, PartialEq, Eq)]
pub struct ThumbWriterConfig {
    /// Where thumbnails are written (the caller sets it).
    pub thumb_dir: String,
    /// Longest side of a thumbnail, in pixels.
    pub max_dim: u32,
    /// Photos taken per batch.
    pub batch_size: i64,
    /// Wait after an empty batch, in milliseconds.
    pub poll_interval_ms: u64,
}

impl Default for ThumbWriterConfig {
    /// No directory, 320 pixels, batches of 16, a five-second poll.
    fn default() -> (r: Self)
        ensures
            r.thumb_dir@.len() == 0,
            r.max_dim == 320,
            r.batch_size == 16,
            r.poll_interval_ms == 5000,
    {
        ThumbWriterConfig { thumb_dir: String::new(), max_dim: 320, batch_size: 16, poll_interval_ms: 5000 }
    }
}

/// The width and height of the picture the bytes hold, its format read from the leading
/// bytes; `None` when they do not decode.
pub uninterp spec fn picture_size(bytes: Seq<u8>) -> Option<(u32, u32)>;

/// The lossless WebP encoding of the picture the bytes hold, at its own size; `None` when
/// the bytes do not decode or the encoding fails.
pub uninterp spec fn webp_same_size(bytes: Seq<u8>) -> Option<Seq<u8>>;

/// The lossless WebP encoding of the picture the bytes hold, scaled with the triangle
/// filter, keeping its aspect ratio, to the largest size within `max_dim` on both sides;
/// `None` when the bytes do not decode or the encoding fails.
pub uninterp spec fn webp_fit(bytes: Seq<u8>, max_dim: u32) -> Option<Seq<u8>>;

/// `ImageReader::new(..).with_guessed_format()` then `decode`, read back through
/// `DynamicImage::width` and `height`. The size is named `picture_size`; the error is
/// given as its text.
#[verifier::external_body]
fn decode_size(bytes: &[u8]) -> (r: Result<(u32, u32), String>)
    ensures
        match r {
            Ok(d) => picture_size(bytes@) == Some(d),
            Err(_) => picture_size(bytes@) is None,
        },
{
    match image::ImageReader::new(std::io::Cursor::new(bytes)).with_guessed_format() {
        Ok(reader) => match reader.decode() {
            Ok(img) => Ok((img.width(), img.height())),
            Err(e) => Err(e.to_string()),
        },
        Err(e) => Err(e.to_string()),
    }
}

/// `ImageReader::new(..).with_guessed_format()`, `decode`, then
/// `DynamicImage::write_to(.., ImageFormat::WebP)` into memory. The bytes are named
/// `webp_same_size`; a result means the bytes decoded. The error is given as its text.
#[verifier::external_body]
fn encode_webp_same_size(bytes: &[u8]) -> (r: Result<Vec<u8>, String>)
    ensures
        match r {
            Ok(b) => webp_same_size(bytes@) == Some(b@),
            Err(_) => webp_same_size(bytes@) is None,
        },
        r is Ok ==> picture_size(bytes@) is Some,
{
    let reader = image::ImageReader::new(std::io::Cursor::new(bytes)).with_guessed_format().map_err(|e| e.to_string())?;
    let img = reader.decode().map_err(|e| e.to_string())?;
    let mut buf: Vec<u8> = Vec::new();
    img.write_to(&mut std::io::Cursor::new(&mut buf), image::ImageFormat::WebP).map_err(|e| e.to_string())?;
    Ok(buf)
}

/// As `encode_webp_same_size`, with `DynamicImage::resize(max_dim, max_dim, Triangle)`
/// between decoding and encoding. The bytes are named `webp_fit`.
#[verifier::external_body]
fn encode_webp_fit(bytes: &[u8], max_dim: u32) -> (r: Result<Vec<u8>, String>)
    ensures
        match r {
            Ok(b) => webp_fit(bytes@, max_dim) == Some(b@),
            Err(_) => webp_fit(bytes@, max_dim) is None,
        },
        r is Ok ==> picture_size(bytes@) is Some,
{
    let reader = image::ImageReader::new(std::io::Cursor::new(bytes)).with_guessed_format().map_err(|e| e.to_string())?;
    let img = reader.decode().map_err(|e| e.to_string())?.resize(max_dim, max_dim, image::imageops::FilterType::Triangle);
    let mut buf: Vec<u8> = Vec::new();
    img.write_to(&mut std::io::Cursor::new(&mut buf), image::ImageFormat::WebP).map_err(|e| e.to_string())?;
    Ok(buf)
}

/// The thumbnail's bytes for a picture of `size` held in `bytes`: scaled down when a side
/// exceeds `max_dim`, else at its own size.
pub open spec fn thumb_bytes(bytes: Seq<u8>, size: (u32, u32), max_dim: u32) -> Option<Seq<u8>> {
    if size.0 > max_dim || size.1 > max_dim {
        webp_fit(bytes, max_dim)
    } else {
        webp_same_size(bytes)
    }
}

/// Why a thumbnail could not be made.
#[derive(Debug, Clone, PartialEq, Eq)]
pub enum ThumbRenderError {
    /// The photo could not be read: its path and the reason.
    Open(String, String),
    Decode(String),
    Encode(String),
}

impl ThumbRenderError {
    /// The message shown for the error.
    pub fn message(&self) -> (r: String)
        ensures
            r@ == match self {
                ThumbRenderError::Open(p, m) => "could not open image file "@ + p@ + ": "@ + m@,
                ThumbRenderError::Decode(m) => "could not decode image: "@ + m@,
                ThumbRenderError::Encode(m) => "could not encode webp: "@ + m@,
            },
    {
        match self {
            ThumbRenderError::Open(p, m) => {
                let mut s = String::from_str("could not open image file ");
                s.append(p.as_str());
                s.append(": ");
                s.append(m.as_str());
                s
            },
            ThumbRenderError::Decode(m) => {
                let mut s = String::from_str("could not decode image: ");
                s.append(m.as_str());
                s
            },
            ThumbRenderError::Encode(m) => {
                let mut s = String::from_str("could not encode webp: ");
                s.append(m.as_str());
                s
            },
        }
    }
}

/// The WebP thumbnail of the photo read from `input_path` (its bytes, or why they could not
/// be read) and the BLAKE3 hex of the thumbnail's bytes. A picture larger than `max_dim`
/// on a side is scaled down keeping its aspect ratio; a smaller one keeps its size. The
/// format is read from the leading bytes.
pub fn render_thumb_to_webp(input_path: &str, file_bytes: Result<Vec<u8>, String>, max_dim: u32) -> (r:
    Result<(Vec<u8>, String), ThumbRenderError>)
    ensures
        match file_bytes {
            Err(m) => r matches Err(ThumbRenderError::Open(p, m2)) && p@ == input_path@ && m2 == m,
            Ok(bytes) => match picture_size(bytes@) {
                None => r is Err && r->Err_0 is Decode,
                Some(size) => match thumb_bytes(bytes@, size, max_dim) {
                    None => r is Err && r->Err_0 is Encode,
                    Some(b) => r matches Ok((out, sha)) && out@ == b && sha@ == hex_text(
                        blake3_digest(b),
                    ) && sha@.len() == 64,
                },
            },
        },
{
    let bytes = match file_bytes {
        Ok(b) => b,
        Err(m) => return Err(ThumbRenderError::Open(String::from_str(input_path), m)),
    };
    let (w, h) = match decode_size(bytes.as_slice()) {
        Ok(d) => d,
        Err(m) => return Err(ThumbRenderError::Decode(m)),
    };
    let encoded = if needs_downscale(w, h, max_dim) {
        encode_webp_fit(bytes.as_slice(), max_dim)
    } else {
        encode_webp_same_size(bytes.as_slice())
    };
    let buf = match encoded {
        Ok(b) => b,
        Err(m) => return Err(ThumbRenderError::Encode(m)),
    };
    let digest = blake3_hash(buf.as_slice());
    proof {
        lemma_hex_text_len(digest@);
    }
    let sha = hex_encode(&digest);
    Ok((buf, sha))
}

/// Counts of one batch.
#[derive(Debug, Clone, Copy, PartialEq, Eq)]
pub struct BatchOutcome {
    /// Photos without a thumbnail that were taken up.
    pub considered: usize,
    /// Of those, thumbnails written and recorded.
    pub succeeded: usize,
    /// Of those, failures (logged and left for a later batch).
    pub failed: usize,
}

/// The file a thumbnail with digest `sha` is written to.
pub fn thumb_target(thumb_dir: &str, sha: &str) -> (r: String)
    ensures
        r@ == path_join(thumb_dir@, sha@ + ".webp"@),
{
    let mut name = String::from_str(sha);
    name.append(".webp");
    join(thumb_dir, name.as_str())
}

/// A picture is scaled down only when a side exceeds `max_dim`; smaller ones keep their size.
pub fn needs_downscale(width: u32, height: u32, max_dim: u32) -> (r: bool)
    ensures
        r == (width > max_dim || height > max_dim),
{
    width > max_dim || height > max_dim
}

pub open spec fn count_true(s: Seq<bool>) -> nat
    decreases s.len(),
{
    if s.len() == 0 {
        0
    } else {
        count_true(s.drop_last()) + if s.last() {
            1nat
        } else {
            0nat
        }
    }
}

/// Tallies a batch from whether each photo succeeded.
pub fn tally_thumb_batch(results: &[bool]) -> (r: BatchOutcome)
    ensures
        r.considered == results@.len(),
        r.succeeded == count_true(results@),
        r.failed == results@.len() - count_true(results@),
{
    let mut ok: usize = 0;
    let mut i: usize = 0;
    while i < results.len()
        invariant
            i <= results@.len(),
            ok == count_true(results@.take(i as int)),
            ok <= i,
        decreases results@.len() - i,
    {
        assert(results@.take(i + 1).drop_last() =~= results@.take(i as int));
        if results[i] {
            ok = ok + 1;
        }
        i = i + 1;
    }
    assert(results@.take(results@.len() as int) =~= results@);
    BatchOutcome { considered: results.len(), succeeded: ok, failed: results.len() - ok }
}

} // verus!
