//! Uploaded image handling: validate, re-encode and address by content.
//!
//! Bytes are never trusted by their declared type or extension: the format is
//! detected from content, the image is decoded under strict size limits (a
//! decompression-bomb guard), and it is re-encoded into a normalized raster
//! format, which strips all metadata and defeats polyglot files. Stored images
//! are content-addressed by the hash of the re-encoded bytes.

use vstd::prelude::*;

use image::ImageFormat;

use crate::auth::AuthSession;
use crate::crypto::{sha256, sha256_digest};
use crate::raster::{
    decode_within_limits, decoded_alpha, decoded_height, decoded_width, decodes_within,
    encode_jpeg, encode_png, jpeg_encoding, png_encoding, thumbnail, thumbnail_size,
};
use crate::text::{chars_of, hex_encode, hex_spec, push_char, push_str, string_of};

verus! {

/// Largest accepted upload per image (before decoding).
pub const MAX_IMAGE_BYTES: usize = 5 * 1024 * 1024;

/// Whole-request body cap for the submission form (a few images plus fields).
pub const MAX_UPLOAD_BODY: usize = 24 * 1024 * 1024;

/// Reject images whose dimensions exceed this, before allocating for decode.
pub const MAX_DIMENSION: u32 = 6000;

/// Cap on memory the decoder may allocate, another decompression-bomb guard.
pub const MAX_ALLOC: u64 = 256 * 1024 * 1024;

/// Re-encoded images are scaled to fit within this on the longest side.
pub const OUTPUT_MAX_DIM: u32 = 1600;

/// Why an upload was not stored. `Rejected` carries a message safe to show the
/// user (a bad or oversized image); `Io` is an internal failure, described for
/// the log.
#[derive(Debug)]
pub enum AssetError {
    Rejected(String),
    Io(String),
}

/// An image format as content detection reports it.
#[derive(Debug, PartialEq, Eq, Structural, Clone, Copy)]
pub enum ImageKind {
    Png,
    Jpeg,
    WebP,
    /// A format this site does not accept.
    Other,
}

/// The format `image::guess_format` detects from the leading bytes of `bytes`
/// (a table of magic numbers), `None` when none matches.
pub uninterp spec fn detected_format(bytes: Seq<u8>) -> Option<ImageKind>;

/// `image::guess_format`: the format named by the magic bytes at the start of
/// `bytes`, with every format other than PNG, JPEG and WebP reported as `Other`.
/// The crate tries its table of signatures in order; the first three stated
/// here come before any entry that could also match them: the PNG signature,
/// `FF D8 FF` for JPEG, and `RIFF`, four bytes of size, `WEBP` for WebP.
#[verifier::external_body]
fn guess_format(bytes: &[u8]) -> (r: Option<ImageKind>)
    ensures
        r == detected_format(bytes@),
        bytes@.len() >= 8 && bytes@.subrange(0, 8) == seq![
            0x89u8, 0x50u8, 0x4eu8, 0x47u8, 0x0du8, 0x0au8, 0x1au8, 0x0au8,
        ] ==> r == Some(ImageKind::Png),
        bytes@.len() >= 3 && bytes@.subrange(0, 3) == seq![0xffu8, 0xd8u8, 0xffu8] ==> r == Some(
            ImageKind::Jpeg,
        ),
        bytes@.len() >= 12 && bytes@.subrange(0, 4) == seq![0x52u8, 0x49u8, 0x46u8, 0x46u8]
            && bytes@.subrange(8, 12) == seq![0x57u8, 0x45u8, 0x42u8, 0x50u8] ==> r == Some(
            ImageKind::WebP,
        ),
{
    match image::guess_format(bytes) {
        Ok(ImageFormat::Png) => Some(ImageKind::Png),
        Ok(ImageFormat::Jpeg) => Some(ImageKind::Jpeg),
        Ok(ImageFormat::WebP) => Some(ImageKind::WebP),
        Ok(_) => Some(ImageKind::Other),
        Err(_) => None,
    }
}

/// The result of processing an upload, ready to store.
pub struct Processed {
    pub bytes: Vec<u8>,
    pub mime: &'static str,
    pub width: i32,
    pub height: i32,
    pub sha: String,
}

/// `Rejected` with `msg`.
pub open spec fn rejected_with(r: AssetError, msg: Seq<char>) -> bool {
    r matches AssetError::Rejected(m) && m@ == msg
}

/// A refusal with `msg`.
pub open spec fn refused<T>(r: Result<T, AssetError>, msg: Seq<char>) -> bool {
    r matches Err(e) && rejected_with(e, msg)
}

fn reject(msg: &str) -> (r: AssetError)
    ensures
        rejected_with(r, msg@),
{
    let mut m = String::new();
    push_str(&mut m, msg);
    AssetError::Rejected(m)
}

/// Check an upload's size before anything reads it: an empty upload and one
/// over [`MAX_IMAGE_BYTES`] are refused with a message for the user.
pub fn check_upload_size(len: usize) -> (r: Result<(), AssetError>)
    ensures
        len == 0 ==> refused(r, "the image was empty"@),
        len > MAX_IMAGE_BYTES ==> refused(r, "the image is too large (5 MB maximum)"@),
        0 < len <= MAX_IMAGE_BYTES ==> r is Ok,
{
    if len == 0 {
        return Err(reject("the image was empty"));
    }
    if len > MAX_IMAGE_BYTES {
        return Err(reject("the image is too large (5 MB maximum)"));
    }
    Ok(())
}

/// Whether the decoded image is scaled down: either side is over
/// [`OUTPUT_MAX_DIM`]. Images are only ever shrunk, never enlarged.
pub open spec fn needs_scaling(bytes: Seq<u8>, k: ImageKind) -> bool {
    decoded_width(bytes, k) > OUTPUT_MAX_DIM || decoded_height(bytes, k) > OUTPUT_MAX_DIM
}

/// The size the decoded image is scaled to fit, when it is scaled.
pub open spec fn output_scale(bytes: Seq<u8>, k: ImageKind) -> Option<u32> {
    if needs_scaling(bytes, k) {
        Some(OUTPUT_MAX_DIM)
    } else {
        None
    }
}

/// The width and height of the stored image: the thumbnail's size when the
/// decoded image is scaled, else the decoded size.
pub open spec fn output_size(bytes: Seq<u8>, k: ImageKind) -> (u32, u32) {
    if needs_scaling(bytes, k) {
        thumbnail_size(decoded_width(bytes, k), decoded_height(bytes, k), OUTPUT_MAX_DIM)
    } else {
        (decoded_width(bytes, k), decoded_height(bytes, k))
    }
}

/// What processing bytes of an accepted format `k` comes to: a refusal to read
/// them when they do not decode within the limits; otherwise, for an image
/// with transparency, its PNG encoding (refused for a zero-sized image), and
/// for one without, its JPEG encoding, which succeeds exactly when the stored
/// size is not zero. The stored width and height are the output size.
pub open spec fn processed_as(bytes: Seq<u8>, k: ImageKind, r: Result<Processed, AssetError>) -> bool {
    let w = output_size(bytes, k).0;
    let h = output_size(bytes, k).1;
    let alpha = decoded_alpha(bytes, k);
    &&& !decodes_within(bytes, k, MAX_DIMENSION, MAX_ALLOC) ==> refused(
        r,
        "the image could not be read, or is too large"@,
    )
    &&& decodes_within(bytes, k, MAX_DIMENSION, MAX_ALLOC) ==> {
        &&& r is Err ==> refused(r, "the image could not be processed"@)
        &&& alpha && (w == 0 || h == 0) ==> r is Err
        &&& !alpha ==> (r is Ok <==> (w >= 1 && h >= 1))
        &&& r matches Ok(p) ==> {
            &&& p.width as int == w as int
            &&& p.height as int == h as int
            &&& alpha ==> p.mime@ == "image/png"@ && p.bytes@ == png_encoding(
                bytes,
                k,
                output_scale(bytes, k),
            )
            &&& !alpha ==> p.mime@ == "image/jpeg"@ && p.bytes@ == jpeg_encoding(
                bytes,
                k,
                output_scale(bytes, k),
                82,
            )
        }
    }
}

/// Decode under limits, downscale, and re-encode: PNG when the image carries
/// transparency, JPEG otherwise; the name is the hex SHA-256 of the re-encoded
/// bytes. Only PNG, JPEG and WebP input is accepted; every failure is a
/// rejection the user can be shown.
pub fn process(bytes: &[u8]) -> (r: Result<Processed, AssetError>)
    ensures
        detected_format(bytes@) is None ==> refused(r, "the file is not a recognized image"@),
        detected_format(bytes@) == Some(ImageKind::Other) ==> refused(
            r,
            "only PNG, JPEG, or WebP images are accepted"@,
        ),
        r matches Err(e) ==> e is Rejected,
        match detected_format(bytes@) {
            Some(k) => k != ImageKind::Other ==> processed_as(bytes@, k, r),
            None => true,
        },
        r matches Ok(p) ==> {
            &&& detected_format(bytes@) matches Some(k) && k != ImageKind::Other
            &&& p.sha@ == hex_spec(sha256(p.bytes@))
            &&& p.sha@.len() == 64
            &&& valid_sha(p.sha@)
            &&& p.mime@ == "image/png"@ || p.mime@ == "image/jpeg"@
        },
{
    let format = match guess_format(bytes) {
        Some(f) => f,
        None => return Err(reject("the file is not a recognized image")),
    };
    if format == ImageKind::Other {
        return Err(reject("only PNG, JPEG, or WebP images are accepted"));
    }
    let decoded = match decode_within_limits(bytes, format, MAX_DIMENSION, MAX_ALLOC) {
        Some(i) => i,
        None => return Err(reject("the image could not be read, or is too large")),
    };
    let img = if decoded.width() > OUTPUT_MAX_DIM || decoded.height() > OUTPUT_MAX_DIM {
        thumbnail(&decoded, OUTPUT_MAX_DIM)
    } else {
        decoded
    };
    let (out, mime) = if img.alpha() {
        match encode_png(&img) {
            Some(b) => (b, "image/png"),
            None => return Err(reject("the image could not be processed")),
        }
    } else {
        match encode_jpeg(&img, 82) {
            Some(b) => (b, "image/jpeg"),
            None => return Err(reject("the image could not be processed")),
        }
    };
    let digest = sha256_digest(out.as_slice());
    let sha = hex_encode(digest.as_slice());
    proof {
        crate::text::lemma_hex_len(digest@);
        crate::text::lemma_hex_chars(digest@);
        assert forall|k: int| 0 <= k < sha@.len() implies ascii_hexdigit(#[trigger] sha@[k]) by {
            assert(crate::text::is_hex_char(sha@[k]));
        }
    }
    let width = img.width();
    let height = img.height();
    Ok(Processed { bytes: out, mime, width: width as i32, height: height as i32, sha })
}

/// An ASCII hexadecimal digit, either case (`u8::is_ascii_hexdigit`).
pub open spec fn ascii_hexdigit(c: char) -> bool {
    ('0' <= c <= '9') || ('a' <= c <= 'f') || ('A' <= c <= 'F')
}

/// Whether a text names an asset: exactly 64 hexadecimal characters.
pub open spec fn valid_sha(sha: Seq<char>) -> bool {
    sha.len() == 64 && forall|k: int| 0 <= k < sha.len() ==> ascii_hexdigit(#[trigger] sha[k])
}

/// Whether a requested name can be an asset's (checked before any lookup, so
/// it can never traverse the store).
pub fn is_valid_sha(sha: &str) -> (r: bool)
    ensures
        r == valid_sha(sha@),
{
    let v = chars_of(sha);
    if v.len() != 64 {
        return false;
    }
    let mut k: usize = 0;
    while k < v.len()
        invariant
            k <= v@.len(),
            v@ == sha@,
            forall|m: int| 0 <= m < k ==> ascii_hexdigit(#[trigger] v@[m]),
        decreases v.len() - k,
    {
        let c = v[k];
        if !(('0' <= c && c <= '9') || ('a' <= c && c <= 'f') || ('A' <= c && c <= 'F')) {
            assert(!ascii_hexdigit(v@[k as int]));
            return false;
        }
        k = k + 1;
    }
    true
}

/// The on-disk path of an asset, sharded by the first two characters of its
/// name to keep any one directory small: `dir/ab/abcdef...`.
pub open spec fn asset_path_spec(dir: Seq<char>, sha: Seq<char>) -> Seq<char> {
    let sep = if dir.len() == 0 || dir.last() == '/' {
        Seq::<char>::empty()
    } else {
        seq!['/']
    };
    dir + sep + sha.subrange(0, 2) + seq!['/'] + sha
}

/// The on-disk path for an asset named `sha` under `dir`.
pub fn asset_path(dir: &str, sha: &str) -> (r: String)
    requires
        sha@.len() >= 2,
    ensures
        r@ == asset_path_spec(dir@, sha@),
{
    let d = chars_of(dir);
    let v = chars_of(sha);
    let mut s = String::new();
    push_str(&mut s, dir);
    if d.len() > 0 && d[d.len() - 1] != '/' {
        push_char(&mut s, '/');
    }
    let shard = string_of(&v, 0, 2);
    push_str(&mut s, shard.as_str());
    push_char(&mut s, '/');
    push_str(&mut s, sha);
    assert(s@ =~= asset_path_spec(dir@, sha@));
    s
}

/// Whether `viewer` may see an asset: a published one is public; an
/// unpublished one only its uploader or an admin may see.
pub open spec fn may_view_spec(published: bool, uploaded_by: i64, viewer: Option<AuthSession>) -> bool {
    published || match viewer {
        Some(s) => s.is_admin || s.user_id == uploaded_by,
        None => false,
    }
}

/// Whether an asset may be served to `viewer`; to anyone else an unpublished
/// asset is indistinguishable from one that does not exist.
pub fn may_view(published: bool, uploaded_by: i64, viewer: Option<&AuthSession>) -> (r: bool)
    ensures
        r == may_view_spec(
            published,
            uploaded_by,
            match viewer {
                Some(s) => Some(*s),
                None => None,
            },
        ),
{
    if published {
        return true;
    }
    match viewer {
        Some(s) => s.is_admin || s.user_id == uploaded_by,
        None => false,
    }
}

/// The response headers of a served asset that depend on it.
pub struct AssetHeaders {
    /// `Cache-Control`: long-lived and public when published, never stored
    /// otherwise.
    pub cache_control: &'static str,
    /// `Content-Disposition`: inline, named by the hash with the format's
    /// extension.
    pub disposition: String,
}

/// The file extension of a stored asset's type.
pub open spec fn extension_spec(mime: Seq<char>) -> Seq<char> {
    if mime == "image/png"@ {
        "png"@
    } else {
        "jpg"@
    }
}

/// The headers for serving asset `sha` of type `mime`.
pub fn asset_headers(published: bool, mime: &str, sha: &str) -> (r: AssetHeaders)
    ensures
        r.cache_control@ == if published {
            "public, max-age=31536000, immutable"@
        } else {
            "private, no-store"@
        },
        r.disposition@ == "inline; filename=\""@ + sha@ + seq!['.'] + extension_spec(mime@)
            + seq!['"'],
{
    let png = crate::text::str_eq(mime, "image/png");
    let ext = if png {
        "png"
    } else {
        "jpg"
    };
    let cache = if published {
        "public, max-age=31536000, immutable"
    } else {
        "private, no-store"
    };
    let mut d = String::new();
    push_str(&mut d, "inline; filename=\"");
    push_str(&mut d, sha);
    push_char(&mut d, '.');
    push_str(&mut d, ext);
    push_char(&mut d, '"');
    AssetHeaders { cache_control: cache, disposition: d }
}

} // verus!
