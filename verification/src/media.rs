//! Media metadata: content hashes, MIME types and image dimensions.

use vstd::prelude::*;

use crate::paths::{path_extension, spec_extension};
use crate::sigv4::{hex_encode, hex_lower};
use crate::text::{lower, opt_view, own, str_eq, to_lower};

verus! {

/// Why metadata could not be read.
#[derive(Debug)]
pub enum DetectError {
    UnknownMime,
    /// The decoder's message.
    Dimension(String),
}

impl DetectError {
    /// The message the error shows.
    pub fn message(&self) -> (r: String)
        ensures
            r@ == match *self {
                DetectError::UnknownMime => "could not detect MIME type from content"@,
                DetectError::Dimension(m) => "could not read image dimensions: "@ + m@,
            },
    {
        match self {
            DetectError::UnknownMime => own("could not detect MIME type from content"),
            DetectError::Dimension(m) => {
                let mut v = crate::text::chars_of("could not read image dimensions: ");
                crate::text::push_str(&mut v, m.as_str());
                crate::text::string_of(&v)
            },
        }
    }
}

/// The BLAKE3 digest of a byte string.
pub uninterp spec fn spec_blake3(bytes: Seq<u8>) -> Seq<u8>;

/// The full BLAKE3 hash of the bytes.
///
/// Feeds the bytes to a `blake3::Hasher` and finalizes it. The digest is
/// named: it depends on the bytes alone, and has 32 bytes as the type says.
#[verifier::external_body]
pub fn content_hash(bytes: &[u8]) -> (r: [u8; 32])
    ensures
        r@ == spec_blake3(bytes@),
{
    let mut hasher = blake3::Hasher::new();
    hasher.update(bytes);
    *hasher.finalize().as_bytes()
}

/// The hash in lower-case hex (64 characters).
pub fn content_hash_hex(bytes: &[u8]) -> (r: String)
    ensures
        r@ == hex_lower(spec_blake3(bytes@)),
{
    let h = content_hash(bytes);
    hex_encode(&h)
}

/// The first `n` hex characters of the hash (all of it when `n` is larger).
pub fn short_hash(bytes: &[u8], n: usize) -> (r: String)
    ensures
        r@ == if n <= hex_lower(spec_blake3(bytes@)).len() {
            hex_lower(spec_blake3(bytes@)).subrange(0, n as int)
        } else {
            hex_lower(spec_blake3(bytes@))
        },
{
    let hex = content_hash_hex(bytes);
    let c = crate::text::chars_of(hex.as_str());
    if n <= c.len() {
        crate::text::string_of(&crate::text::slice_chars(&c, 0, n))
    } else {
        hex
    }
}

/// The MIME type `infer` reads from a file's magic bytes.
pub uninterp spec fn spec_infer_mime(bytes: Seq<u8>) -> Option<Seq<char>>;

/// Calls `infer::get` and reads the type's `mime_type`. The answer depends
/// on the bytes alone (the matcher table is fixed), so it is named.
#[verifier::external_body]
fn infer_mime(bytes: &[u8]) -> (r: Option<String>)
    ensures
        match r {
            Some(m) => spec_infer_mime(bytes@) == Some(m@),
            None => spec_infer_mime(bytes@) is None,
        },
{
    infer::get(bytes).map(|kind| kind.mime_type().to_string())
}

/// The MIME type a lower-cased extension stands for.
pub open spec fn spec_mime_for_ext(ext: Seq<char>) -> Option<Seq<char>> {
    if ext == "png"@ {
        Some("image/png"@)
    } else if ext == "jpg"@ || ext == "jpeg"@ {
        Some("image/jpeg"@)
    } else if ext == "gif"@ {
        Some("image/gif"@)
    } else if ext == "webp"@ {
        Some("image/webp"@)
    } else if ext == "bmp"@ {
        Some("image/bmp"@)
    } else if ext == "svg"@ {
        Some("image/svg+xml"@)
    } else if ext == "tiff"@ || ext == "tif"@ {
        Some("image/tiff"@)
    } else if ext == "heic"@ {
        Some("image/heic"@)
    } else if ext == "avif"@ {
        Some("image/avif"@)
    } else {
        None
    }
}

/// The MIME type a path's extension suggests (compared lower-cased; the
/// table is ASCII, so ASCII case folding decides the same).
pub open spec fn spec_mime_guess(path: Seq<char>) -> Option<Seq<char>> {
    match spec_extension(path) {
        Some(e) => spec_mime_for_ext(lower(e)),
        None => None,
    }
}

/// The MIME type a path's extension suggests.
pub fn mime_guess_fallback(path: &str) -> (r: Option<String>)
    ensures
        match r {
            Some(m) => spec_mime_guess(path@) == Some(m@),
            None => spec_mime_guess(path@) is None,
        },
{
    let ext = match path_extension(path) {
        Some(e) => to_lower(e.as_str()),
        None => return None,
    };
    let e = ext.as_str();
    let m = if str_eq(e, "png") {
        "image/png"
    } else if str_eq(e, "jpg") || str_eq(e, "jpeg") {
        "image/jpeg"
    } else if str_eq(e, "gif") {
        "image/gif"
    } else if str_eq(e, "webp") {
        "image/webp"
    } else if str_eq(e, "bmp") {
        "image/bmp"
    } else if str_eq(e, "svg") {
        "image/svg+xml"
    } else if str_eq(e, "tiff") || str_eq(e, "tif") {
        "image/tiff"
    } else if str_eq(e, "heic") {
        "image/heic"
    } else if str_eq(e, "avif") {
        "image/avif"
    } else {
        return None;
    };
    Some(own(m))
}

/// The MIME type of a file given what its content says (if anything):
/// that, else what its extension suggests, else
/// `application/octet-stream`.
pub open spec fn spec_mime_from(inferred: Option<Seq<char>>, path: Option<Seq<char>>) -> Seq<char> {
    match inferred {
        Some(m) => m,
        None => match path {
            Some(p) => match spec_mime_guess(p) {
                Some(m) => m,
                None => "application/octet-stream"@,
            },
            None => "application/octet-stream"@,
        },
    }
}

/// The MIME type of a file: from its content first, then from its
/// extension, else `application/octet-stream`.
pub open spec fn spec_detect_mime(bytes: Seq<u8>, path: Option<Seq<char>>) -> Seq<char> {
    spec_mime_from(spec_infer_mime(bytes), path)
}

/// The MIME type of a file given what its content says, as
/// `spec_mime_from` states it.
pub fn mime_from(inferred: Option<String>, path: Option<&str>) -> (r: String)
    ensures
        r@ == spec_mime_from(
            opt_view(inferred),
            match path {
                Some(p) => Some(p@),
                None => None,
            },
        ),
{
    match inferred {
        Some(m) => return m,
        None => {},
    }
    match path {
        Some(p) => match mime_guess_fallback(p) {
            Some(g) => return g,
            None => {},
        },
        None => {},
    }
    own("application/octet-stream")
}

/// The MIME type of a file, as `spec_detect_mime` states it.
pub fn detect_mime(bytes: &[u8], path: Option<&str>) -> (r: String)
    ensures
        r@ == spec_detect_mime(
            bytes@,
            match path {
                Some(p) => Some(p@),
                None => None,
            },
        ),
{
    mime_from(infer_mime(bytes), path)
}

/// The width and height `image` reads from an encoded image, when it
/// recognizes the format.
pub uninterp spec fn spec_dimensions(bytes: Seq<u8>) -> Option<(u32, u32)>;

/// Reads an image's dimensions with `image::ImageReader`: the format is
/// guessed from the first bytes and the decoder reports the size. A format
/// it cannot decode gives none. The answer depends on the bytes alone, so
/// it is named; the error case carries the reader's message.
#[verifier::external_body]
fn image_dimensions(bytes: &[u8]) -> (r: Result<Option<(u32, u32)>, String>)
    ensures
        r matches Ok(d) ==> d == spec_dimensions(bytes@),
{
    let reader = match image::ImageReader::new(std::io::Cursor::new(bytes)).with_guessed_format() {
        Ok(r) => r,
        Err(e) => return Err(e.to_string()),
    };
    match reader.into_dimensions() {
        Ok((w, h)) => Ok(Some((w, h))),
        Err(_) => Ok(None),
    }
}

/// The dimensions of a raster image; none for formats without them (SVG)
/// or that the decoder does not know.
pub fn read_dimensions(bytes: &[u8]) -> (r: Result<Option<(u32, u32)>, DetectError>)
    ensures
        match r {
            Ok(d) => d == spec_dimensions(bytes@),
            Err(e) => e is Dimension,
        },
{
    match image_dimensions(bytes) {
        Ok(d) => Ok(d),
        Err(m) => Err(DetectError::Dimension(m)),
    }
}

} // verus!
