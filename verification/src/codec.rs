//! Decoding and resampling by the `image` crate. Their work is not verified
//! here; each function below states what the library relies on.

use crate::extension::SourceFormat;
use vstd::prelude::*;

verus! {

/// The largest side, in pixels, that a WebP picture can have.
pub const MAX_SIDE: u32 = 16383;

/// `image::DynamicImage`, a decoded image of any pixel layout. The library
/// carries it from the decoder to the encoder and never looks inside.
#[verifier::external_type_specification]
#[verifier::external_body]
pub struct ExDynamicImage(image::DynamicImage);

/// A decoded picture together with its size in pixels. Only the codecs make
/// one, so the size is always that of the image held.
pub struct Picture {
    image: image::DynamicImage,
    width: u32,
    height: u32,
}

impl Picture {
    /// Width and height in pixels.
    pub closed spec fn size(&self) -> (u32, u32) {
        (self.width, self.height)
    }

    /// The width in pixels.
    pub fn width(&self) -> (w: u32)
        ensures
            w == self.size().0,
    {
        self.width
    }

    /// The height in pixels.
    pub fn height(&self) -> (h: u32)
        ensures
            h == self.size().1,
    {
        self.height
    }

    /// The decoded image that the picture holds.
    pub closed spec fn held(&self) -> image::DynamicImage {
        self.image
    }

    /// The decoded image, for the encoder: the very image that the picture
    /// holds, as the decoder or the last resize left it.
    pub fn image(&self) -> (image: &image::DynamicImage)
        ensures
            *image == self.held(),
    {
        &self.image
    }
}

/// What decoding `bytes` as `format` gives: the size of the decoded picture,
/// or the decoder's message.
pub uninterp spec fn decode_outcome(bytes: Seq<u8>, format: SourceFormat) -> Result<
    (u32, u32),
    Seq<char>,
>;

/// `image::ImageReader::with_format(..).decode()` on an in-memory buffer. The
/// format is the one given; the content is not sniffed. Decoding depends on
/// the bytes and the format alone, so its outcome has a name:
/// `decode_outcome`. Nothing is claimed about which bytes decode.
#[verifier::external_body]
pub(crate) fn decode_picture(bytes: &[u8], format: SourceFormat) -> (r: Result<Picture, String>)
    ensures
        match r {
            Ok(picture) => decode_outcome(bytes@, format) == Ok::<(u32, u32), Seq<char>>(
                picture.size(),
            ),
            Err(message) => decode_outcome(bytes@, format) == Err::<(u32, u32), Seq<char>>(
                message@,
            ),
        },
{
    let kind = match format {
        SourceFormat::Jpeg => image::ImageFormat::Jpeg,
        SourceFormat::Png => image::ImageFormat::Png,
        SourceFormat::Bmp => image::ImageFormat::Bmp,
        SourceFormat::Tiff => image::ImageFormat::Tiff,
    };
    match image::ImageReader::with_format(std::io::Cursor::new(bytes), kind).decode() {
        Ok(image) => Ok(Picture { width: image.width(), height: image.height(), image }),
        Err(e) => Err(e.to_string()),
    }
}

/// `image::DynamicImage::resize_exact` with the Lanczos3 filter: each axis is
/// scaled on its own, and the result has the width and height asked for. The
/// sides are held within what a WebP picture can have, which also keeps the
/// buffers that the resampling allocates within reach.
#[verifier::external_body]
pub(crate) fn resize_exact(picture: &Picture, width: u32, height: u32) -> (r: Picture)
    requires
        1 <= width <= MAX_SIDE,
        1 <= height <= MAX_SIDE,
    ensures
        r.size() == (width, height),
{
    let image = picture.image.resize_exact(width, height, image::imageops::FilterType::Lanczos3);
    Picture { width: image.width(), height: image.height(), image }
}

/// The size that filling a box of `width` by `height` gives a picture of the
/// given size: the size asked for, except where scaling the picture to cover
/// the box would take a side past the largest `u32`, which the resampling
/// cuts short.
pub uninterp spec fn fill_size(size: (u32, u32), width: u32, height: u32) -> (u32, u32);

/// `image::DynamicImage::resize_to_fill` with the Lanczos3 filter: the picture
/// is scaled with its aspect ratio kept until it covers the box asked for,
/// then cropped about its centre to fit within it. An empty picture has no
/// aspect ratio and is left out. The size of the result depends on the size
/// of the picture and the sides asked for alone, so it has a name:
/// `fill_size`. Of that size the contract claims only that it fits within
/// the box.
#[verifier::external_body]
pub(crate) fn resize_to_fill(picture: &Picture, width: u32, height: u32) -> (r: Picture)
    requires
        picture.size().0 >= 1,
        picture.size().1 >= 1,
        1 <= width <= MAX_SIDE,
        1 <= height <= MAX_SIDE,
    ensures
        r.size() == fill_size(picture.size(), width, height),
        r.size().0 <= width,
        r.size().1 <= height,
{
    let image = picture.image.resize_to_fill(width, height, image::imageops::FilterType::Lanczos3);
    Picture { width: image.width(), height: image.height(), image }
}

} // verus!
