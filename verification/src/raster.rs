//! A decoded upload, held with what its re-encoding reads of it (its width,
//! its height, whether its pixels carry transparency) and with where its
//! pixels came from: the uploaded bytes, their format, and the size they were
//! scaled to, if any. Only the calls into the `image` crate below make one, so
//! its pixels are always those of its source.

use vstd::prelude::*;

use std::io::Cursor;

use image::{DynamicImage, ImageFormat};

use crate::media::ImageKind;

verus! {

#[verifier::external_type_specification]
#[verifier::external_body]
pub struct ExDynamicImage(DynamicImage);

/// Whether `image::ImageReader::decode` succeeds on `bytes` read as `format`,
/// with the reader's width and height limited to `max_dim` and its allocation
/// to `max_alloc`.
pub uninterp spec fn decodes_within(bytes: Seq<u8>, format: ImageKind, max_dim: u32, max_alloc: u64) -> bool;

/// `DynamicImage::width` of the image decoded from `bytes` as `format`.
pub uninterp spec fn decoded_width(bytes: Seq<u8>, format: ImageKind) -> u32;

/// `DynamicImage::height` of the image decoded from `bytes` as `format`.
pub uninterp spec fn decoded_height(bytes: Seq<u8>, format: ImageKind) -> u32;

/// `ColorType::has_alpha` of the color type of the image decoded from
/// `bytes` as `format`.
pub uninterp spec fn decoded_alpha(bytes: Seq<u8>, format: ImageKind) -> bool;

/// The size `DynamicImage::thumbnail(max, max)` gives an image of `width` by
/// `height`: the aspect ratio kept, fitted within `max` by `max`.
pub uninterp spec fn thumbnail_size(width: u32, height: u32, max: u32) -> (u32, u32);

/// The PNG bytes `DynamicImage::write_to` writes for the image decoded from
/// `bytes` as `format`, thumbnailed to `scaled` when that is set.
pub uninterp spec fn png_encoding(bytes: Seq<u8>, format: ImageKind, scaled: Option<u32>) -> Seq<u8>;

/// The JPEG bytes `JpegEncoder::encode_image` writes at `quality` for the RGB8
/// pixels of the image decoded from `bytes` as `format`, thumbnailed to
/// `scaled` when that is set.
pub uninterp spec fn jpeg_encoding(
    bytes: Seq<u8>,
    format: ImageKind,
    scaled: Option<u32>,
    quality: u8,
) -> Seq<u8>;

/// A decoded image and what is read of it.
pub struct Raster<'a> {
    image: DynamicImage,
    width: u32,
    height: u32,
    alpha: bool,
    source: &'a [u8],
    format: ImageKind,
    scaled: Option<u32>,
}

impl<'a> Raster<'a> {
    /// The width in pixels.
    pub closed spec fn px_width(&self) -> u32 {
        self.width
    }

    /// The height in pixels.
    pub closed spec fn px_height(&self) -> u32 {
        self.height
    }

    /// Whether the pixels carry transparency.
    pub closed spec fn has_transparency(&self) -> bool {
        self.alpha
    }

    /// The uploaded bytes the pixels were decoded from.
    pub closed spec fn source_bytes(&self) -> Seq<u8> {
        self.source@
    }

    /// The format they were decoded as.
    pub closed spec fn source_format(&self) -> ImageKind {
        self.format
    }

    /// The size they were scaled to fit, if they were.
    pub closed spec fn scale(&self) -> Option<u32> {
        self.scaled
    }

    /// The width in pixels.
    pub fn width(&self) -> (r: u32)
        ensures
            r == self.px_width(),
    {
        self.width
    }

    /// The height in pixels.
    pub fn height(&self) -> (r: u32)
        ensures
            r == self.px_height(),
    {
        self.height
    }

    /// Whether the pixels carry transparency.
    pub fn alpha(&self) -> (r: bool)
        ensures
            r == self.has_transparency(),
    {
        self.alpha
    }
}

/// `image::ImageReader::decode` with the format set and the reader's limits on
/// width, height and allocation, then `width`, `height` and
/// `color().has_alpha()` of the result. The limits are checked against the
/// decoder's dimensions before anything is decoded, so a decoded image is
/// within `max_dim` both ways. `None` when decoding fails or a limit is
/// exceeded.
#[verifier::external_body]
pub(crate) fn decode_within_limits<'a>(bytes: &'a [u8], format: ImageKind, max_dim: u32, max_alloc: u64) -> (r:
    Option<Raster<'a>>)
    requires
        format != ImageKind::Other,
    ensures
        r is Some <==> decodes_within(bytes@, format, max_dim, max_alloc),
        r matches Some(x) ==> {
            &&& x.px_width() == decoded_width(bytes@, format)
            &&& x.px_height() == decoded_height(bytes@, format)
            &&& x.has_transparency() == decoded_alpha(bytes@, format)
            &&& x.px_width() <= max_dim && x.px_height() <= max_dim
            &&& x.source_bytes() == bytes@ && x.source_format() == format && x.scale() is None
        },
{
    let mut reader = image::ImageReader::new(Cursor::new(bytes));
    reader.set_format(match format {
        ImageKind::Png => ImageFormat::Png,
        ImageKind::Jpeg => ImageFormat::Jpeg,
        _ => ImageFormat::WebP,
    });
    let mut limits = image::Limits::default();
    limits.max_image_width = Some(max_dim);
    limits.max_image_height = Some(max_dim);
    limits.max_alloc = Some(max_alloc);
    reader.limits(limits);
    let image = reader.decode().ok()?;
    let (width, height, alpha) = (image.width(), image.height(), image.color().has_alpha());
    Some(Raster { image, width, height, alpha, source: bytes, format, scaled: None })
}

/// `DynamicImage::thumbnail(max, max)`: the image scaled, aspect ratio kept,
/// to fit within `max` by `max` (`resize_dimensions` keeps each side at least
/// one pixel and, the ratio being the smaller of the two, at most `max`). The
/// scaled image keeps its pixel type, so its transparency is unchanged.
#[verifier::external_body]
pub(crate) fn thumbnail<'a>(img: &Raster<'a>, max: u32) -> (r: Raster<'a>)
    requires
        img.scale() is None,
        max >= 1,
    ensures
        (r.px_width(), r.px_height()) == thumbnail_size(img.px_width(), img.px_height(), max),
        1 <= r.px_width() <= max,
        1 <= r.px_height() <= max,
        r.has_transparency() == img.has_transparency(),
        r.source_bytes() == img.source_bytes(),
        r.source_format() == img.source_format(),
        r.scale() == Some(max),
{
    let image = img.image.thumbnail(max, max);
    let (width, height, alpha) = (image.width(), image.height(), image.color().has_alpha());
    Raster { image, width, height, alpha, source: img.source, format: img.format, scaled: Some(max) }
}

/// `DynamicImage::write_to` in PNG format, into memory; `None` when encoding
/// fails. The PNG encoder refuses a zero width or height. Success on other
/// images is not stated: for pixels of 16 bits per channel the encoder first
/// makes a fallible allocation, whose outcome depends on the machine.
#[verifier::external_body]
pub(crate) fn encode_png(img: &Raster) -> (r: Option<Vec<u8>>)
    ensures
        r matches Some(b) ==> b@ == png_encoding(img.source_bytes(), img.source_format(), img.scale()),
        img.px_width() == 0 || img.px_height() == 0 ==> r is None,
{
    let mut buf = Vec::new();
    img.image.write_to(&mut Cursor::new(&mut buf), ImageFormat::Png).ok()?;
    Some(buf)
}

/// `JpegEncoder::new_with_quality` and `encode_image` on the image's RGB8
/// pixels, into memory; `None` when encoding fails. Writing to memory cannot
/// fail, so the encoder's only refusal is a width or height outside 1 to
/// 65535.
#[verifier::external_body]
pub(crate) fn encode_jpeg(img: &Raster, quality: u8) -> (r: Option<Vec<u8>>)
    ensures
        r is Some <==> (1 <= img.px_width() <= 65535 && 1 <= img.px_height() <= 65535),
        r matches Some(b) ==> b@ == jpeg_encoding(
            img.source_bytes(),
            img.source_format(),
            img.scale(),
            quality,
        ),
{
    let rgb = img.image.to_rgb8();
    let mut buf = Vec::new();
    let mut encoder = image::codecs::jpeg::JpegEncoder::new_with_quality(&mut buf, quality);
    encoder.encode_image(&rgb).ok()?;
    Some(buf)
}

} // verus!
