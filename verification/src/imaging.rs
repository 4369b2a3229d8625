//! Smaller renditions of a picture, made with the crate `image`.

use vstd::prelude::*;
use crate::http::HttpError;
use crate::params::Dimensions;
use crate::server::PhotoServer;

verus! {

/// A decoded picture, as the crate `image` holds it.
#[verifier::external_type_specification]
#[verifier::external_body]
pub struct ExDynamicImage(image::DynamicImage);

/// The error of the crate `image`.
#[verifier::external_type_specification]
#[verifier::external_body]
pub struct ExImageError(image::ImageError);

/// The quality at which renditions are encoded, of 100.
pub const JPEG_QUALITY: u8 = 85;

/// The width and the height of a picture, as `image::DynamicImage::width`
/// and `height` give them.
pub uninterp spec fn picture_size(picture: image::DynamicImage) -> (u32, u32);

/// The largest width and the largest height that a JPEG file can declare.
pub const MAX_JPEG_SIDE: u32 = 65535;

/// Whether `image::load_from_memory_with_format`, asked for a JPEG file,
/// makes a picture of these bytes.
pub uninterp spec fn jpeg_readable(file: Seq<u8>) -> bool;

/// The width and the height that `image::ImageReader::into_dimensions`, its
/// format set to JPEG, reads off the head of a file; `None` where it reads
/// none.
pub uninterp spec fn jpeg_frame_size(file: Seq<u8>) -> Option<(u32, u32)>;

/// A side of a box as it is used: a side of no pixel counts as one of one
/// pixel.
pub open spec fn box_side(side: u32) -> u32 {
    if side < 1 {
        1
    } else {
        side
    }
}

/// A file declares a picture of at least one pixel that lies within the box
/// of the given size.
pub open spec fn fits(declared: Option<(u32, u32)>, size: Dimensions) -> bool {
    declared matches Some((width, height)) && 1 <= width <= box_side(size.w) && 1 <= height
        <= box_side(size.h)
}

/// A picture of this size has at least one pixel on each side.
pub open spec fn has_pixels(size: (u32, u32)) -> bool {
    1 <= size.0 && 1 <= size.1
}

/// A picture of this size has sides that a JPEG file can declare.
pub open spec fn encodable(size: (u32, u32)) -> bool {
    1 <= size.0 <= MAX_JPEG_SIDE && 1 <= size.1 <= MAX_JPEG_SIDE
}

/// Decodes the bytes of a JPEG file with
/// `image::load_from_memory_with_format`. Whether there is a picture
/// depends on the bytes alone, and a picture that was decoded has at least
/// one pixel on each side: the decoder refuses a file that declares none.
#[verifier::external_body]
fn decode_jpeg(source: &[u8]) -> (r: Result<image::DynamicImage, image::ImageError>)
    ensures
        r is Ok <==> jpeg_readable(source@),
        r matches Ok(picture) ==> has_pixels(picture_size(picture)),
{
    image::load_from_memory_with_format(source, image::ImageFormat::Jpeg)
}

/// Scales a picture with `image::DynamicImage::resize` and its filter
/// `Lanczos3`, which keeps the proportions of the picture and makes it as
/// large as fits in the given width and height, with no side of less than
/// one pixel. Of the pixels nothing is claimed.
#[verifier::external_body]
fn fit(picture: &image::DynamicImage, width: u32, height: u32) -> (smaller: image::DynamicImage)
    requires
        1 <= width,
        1 <= height,
        has_pixels(picture_size(*picture)),
    ensures
        has_pixels(picture_size(smaller)),
        picture_size(smaller).0 <= width,
        picture_size(smaller).1 <= height,
{
    picture.resize(width, height, image::imageops::FilterType::Lanczos3)
}

/// Encodes a picture as a JPEG file with
/// `image::codecs::jpeg::JpegEncoder::encode_image`, the encoder made by
/// `new_with_quality`. The encoder refuses a picture exactly where a side
/// of it is none or more than a JPEG file can declare, and the file that it
/// makes declares the sides of the picture.
#[verifier::external_body]
fn encode_jpeg(picture: &image::DynamicImage, quality: u8) -> (r: Result<Vec<u8>, image::ImageError>)
    ensures
        r is Ok <==> encodable(picture_size(*picture)),
        r matches Ok(file) ==> jpeg_frame_size(file@) == Some(picture_size(*picture)),
{
    let mut encoded = Vec::new();
    image::codecs::jpeg::JpegEncoder::new_with_quality(&mut encoded, quality).encode_image(picture)?;
    Ok(encoded)
}

/// Reads the width and the height off the head of a JPEG file with
/// `image::ImageReader::into_dimensions`. The contract only names the
/// result.
#[verifier::external_body]
fn frame_size(file: &[u8]) -> (declared: Option<(u32, u32)>)
    ensures
        declared == jpeg_frame_size(file@),
{
    let reader = image::ImageReader::with_format(std::io::Cursor::new(file), image::ImageFormat::Jpeg);
    reader.into_dimensions().ok()
}

/// What the crate `image` says of its error. Nothing is claimed of the text.
#[verifier::external_body]
fn describe(e: &image::ImageError) -> String {
    format!("{}", e)
}

fn at_least_one(side: u32) -> (used: u32)
    ensures
        used == box_side(side),
{
    if side < 1 {
        1
    } else {
        side
    }
}

/// The rendition to serve, given the file that was made for the box of size
/// `size` and the width and height that the file declares: the file where
/// it declares a picture that fits in the box, a failure of the server
/// where it does not.
pub fn rendition(file: Vec<u8>, declared: Option<(u32, u32)>, size: Dimensions) -> (r: Result<
    Vec<u8>,
    HttpError,
>)
    ensures
        r is Ok <==> fits(declared, size),
        r matches Ok(served) ==> served == file,
        r matches Err(e) ==> e matches HttpError::Error(detail) && detail@
            == "The rendition does not fit in its box"@,
{
    match declared {
        Some((width, height)) => {
            if 1 <= width && width <= at_least_one(size.w) && 1 <= height && height
                <= at_least_one(size.h) {
                return Ok(file);
            }
        },
        None => {},
    }
    Err(HttpError::new("The rendition does not fit in its box".to_owned()))
}

impl PhotoServer {
    /// Serve a resized JPEG file: given the bytes of a JPEG file, the bytes
    /// of a JPEG file with the same picture, scaled to fit in the box of
    /// size `size` with its proportions kept. A side of no pixel is taken
    /// as one of one pixel.
    ///
    /// A rendition is made of every source that the crate `image` can read,
    /// as long as the box is one that a JPEG file can declare; what it
    /// cannot read comes back as a failure of the server, with its words as
    /// the detail. What is served is a file that declares a picture within
    /// the box: the file is looked at before it is handed out.
    ///
    /// The decoder is built to return an error for any bytes, but it does
    /// not promise never to panic on a damaged file. A caller that must
    /// outlive every file runs this function behind a guard.
    pub fn rescale(source: &[u8], size: Dimensions) -> (r: Result<Vec<u8>, HttpError>)
        ensures
            box_side(size.w) <= MAX_JPEG_SIDE && box_side(size.h) <= MAX_JPEG_SIDE ==> (r is Ok
                <==> jpeg_readable(source@)),
            r matches Ok(file) ==> jpeg_readable(source@) && fits(jpeg_frame_size(file@), size),
            r matches Err(e) ==> e is Error,
    {
        let picture = match decode_jpeg(source) {
            Ok(picture) => picture,
            Err(e) => {
                return Err(HttpError::new(describe(&e)));
            },
        };
        let smaller = fit(&picture, at_least_one(size.w), at_least_one(size.h));
        let file = match encode_jpeg(&smaller, JPEG_QUALITY) {
            Ok(file) => file,
            Err(e) => {
                return Err(HttpError::new(describe(&e)));
            },
        };
        let declared = frame_size(file.as_slice());
        rendition(file, declared, size)
    }
}

} // verus!
