//! Conversion of one image held in memory, up to the encoder: decode, resize
//! where asked, and hand over what is to be encoded. The WebP encoder takes
//! its quality as a floating-point number and is called outside the library;
//! its answer comes back through `encoded_or_error`.

use crate::codec::{
    decode_outcome, decode_picture, fill_size, resize_exact, resize_to_fill, Picture, MAX_SIDE,
};
use crate::error::{ConvertError, ConvertErrorView};
use crate::extension::{format_from_hint, format_of, SourceFormat};
use crate::options::{quality_of, Resize, WebpOptions};
use vstd::prelude::*;

verus! {

/// A side that a WebP picture can have.
pub open spec fn valid_side(side: u32) -> bool {
    1 <= side <= MAX_SIDE
}

/// The size a resize asks for, if it asks for one.
pub open spec fn requested_size(resize: Resize) -> Option<(u32, u32)> {
    match resize {
        Resize::Keep => None,
        Resize::Exact { width, height } => Some((width, height)),
        Resize::Fill { width, height } => Some((width, height)),
    }
}

/// Whether a resize can be attempted on a picture of the given size: the
/// sides asked for are ones a WebP picture can have, and a picture that is to
/// fill them is not empty.
pub open spec fn resizable(size: (u32, u32), resize: Resize) -> bool {
    match resize {
        Resize::Keep => true,
        Resize::Exact { width, height } => valid_side(width) && valid_side(height),
        Resize::Fill { width, height } => valid_side(width) && valid_side(height) && size.0 >= 1
            && size.1 >= 1,
    }
}

/// Whether a resize of a picture of the given size succeeds: it can be
/// attempted and, for a fill, the resampled picture comes out at exactly the
/// size asked for.
pub open spec fn resize_succeeds(size: (u32, u32), resize: Resize) -> bool {
    resizable(size, resize) && match resize {
        Resize::Fill { width, height } => fill_size(size, width, height) == (width, height),
        _ => true,
    }
}

/// A failure for the dimensions that `resize` asks for.
pub open spec fn refused_for_dimensions<T>(r: Result<T, ConvertError>, resize: Resize) -> bool {
    match (r, requested_size(resize)) {
        (Err(e), Some((width, height))) => e@ == ConvertErrorView::Dimensions { width, height },
        _ => false,
    }
}

/// A picture ready for the encoder, and the quality to encode it at.
pub struct EncodeJob {
    pub picture: Picture,
    pub quality: u8,
}

/// The size a picture of the given size has after a resize.
pub open spec fn resized_size(size: (u32, u32), resize: Resize) -> (u32, u32) {
    match requested_size(resize) {
        Some(asked) => asked,
        None => size,
    }
}

/// What preparing a conversion returns for a decoding outcome, a resize and
/// a quality. A decoding failure is returned with the decoder's message. A
/// resize that does not succeed is refused for its dimensions. Otherwise the
/// picture handed over has the size the resize asks for, or its own where
/// none is asked, and goes with the quality given.
pub open spec fn preparation_outcome(
    decoded: Result<(u32, u32), Seq<char>>,
    resize: Resize,
    quality: u8,
    r: Result<EncodeJob, ConvertError>,
) -> bool {
    match decoded {
        Err(cause) => r is Err && r->Err_0@ == ConvertErrorView::Decode(cause),
        Ok(size) => if resize_succeeds(size, resize) {
            r is Ok && r->Ok_0.quality == quality && r->Ok_0.picture.size() == resized_size(
                size,
                resize,
            )
        } else {
            refused_for_dimensions(r, resize)
        },
    }
}

/// Decodes `contents` as `format`. The format is taken as given; the bytes
/// are not examined for another.
pub fn decode_image(contents: &[u8], format: SourceFormat) -> (r: Result<Picture, ConvertError>)
    ensures
        match r {
            Ok(picture) => decode_outcome(contents@, format) == Ok::<(u32, u32), Seq<char>>(
                picture.size(),
            ),
            Err(e) => e is Decode && decode_outcome(contents@, format) == Err::<
                (u32, u32),
                Seq<char>,
            >(e->Decode_0@),
        },
{
    match decode_picture(contents, format) {
        Ok(picture) => Ok(picture),
        Err(cause) => Err(ConvertError::Decode(cause)),
    }
}

/// Accepts a resampled picture if it has exactly the size asked for.
pub fn accept_resized(picture: Picture, width: u32, height: u32) -> (r: Result<
    Picture,
    ConvertError,
>)
    ensures
        match r {
            Ok(p) => p == picture && picture.size() == (width, height),
            Err(e) => e@ == (ConvertErrorView::Dimensions { width, height }) && picture.size() != (
                width,
                height,
            ),
        },
{
    if picture.width() == width && picture.height() == height {
        Ok(picture)
    } else {
        Err(ConvertError::Dimensions { width, height })
    }
}

/// Resizes a picture. Without a resize the picture comes back as it is. An
/// exact resize succeeds whenever the sides asked for are valid. A fill
/// succeeds when the sides are valid, the picture is not empty and the
/// resampled picture comes out at exactly the size asked for. On success the
/// picture has the size asked for; every failure is a refusal for the
/// dimensions asked for.
pub fn resize_picture(picture: Picture, resize: Resize) -> (r: Result<Picture, ConvertError>)
    ensures
        r is Ok <==> resize_succeeds(picture.size(), resize),
        resize is Keep ==> r == Ok::<Picture, ConvertError>(picture),
        r is Ok ==> r->Ok_0.size() == resized_size(picture.size(), resize),
        r is Err ==> refused_for_dimensions(r, resize),
{
    match resize {
        Resize::Keep => Ok(picture),
        Resize::Exact { width, height } => {
            if 1 <= width && width <= MAX_SIDE && 1 <= height && height <= MAX_SIDE {
                Ok(resize_exact(&picture, width, height))
            } else {
                Err(ConvertError::Dimensions { width, height })
            }
        },
        Resize::Fill { width, height } => {
            if 1 <= width && width <= MAX_SIDE && 1 <= height && height <= MAX_SIDE
                && picture.width() >= 1 && picture.height() >= 1 {
                accept_resized(resize_to_fill(&picture, width, height), width, height)
            } else {
                Err(ConvertError::Dimensions { width, height })
            }
        },
    }
}

/// Turns the encoder's answer into the library's: the bytes as they are, a
/// refusal as an encoding error with the encoder's message.
pub fn encoded_or_error(encoded: Result<Vec<u8>, String>) -> (r: Result<Vec<u8>, ConvertError>)
    ensures
        match encoded {
            Ok(bytes) => r == Ok::<Vec<u8>, ConvertError>(bytes),
            Err(cause) => r is Err && r->Err_0@ == ConvertErrorView::Encode(cause@),
        },
{
    match encoded {
        Ok(bytes) => Ok(bytes),
        Err(cause) => Err(ConvertError::Encode(cause)),
    }
}

/// Finishes the preparation from the decoder's answer: a decoding failure is
/// returned as such; a decoded picture is resized as asked and handed over
/// with the quality.
pub fn prepare_decoded(decoded: Result<Picture, String>, resize: Resize, quality: u8) -> (r: Result<
    EncodeJob,
    ConvertError,
>)
    ensures
        preparation_outcome(
            match decoded {
                Ok(picture) => Ok(picture.size()),
                Err(cause) => Err(cause@),
            },
            resize,
            quality,
            r,
        ),
        decoded is Ok && resize is Keep ==> r is Ok && r->Ok_0.picture == decoded->Ok_0,
{
    match decoded {
        Err(cause) => Err(ConvertError::Decode(cause)),
        Ok(picture) => match resize_picture(picture, resize) {
            Ok(resized) => Ok(EncodeJob { picture: resized, quality }),
            Err(e) => Err(e),
        },
    }
}

/// Decodes `contents` as `format` and resizes as asked.
pub fn prepare(contents: &[u8], format: SourceFormat, resize: Resize, quality: u8) -> (r: Result<
    EncodeJob,
    ConvertError,
>)
    ensures
        preparation_outcome(decode_outcome(contents@, format), resize, quality, r),
{
    prepare_decoded(decode_picture(contents, format), resize, quality)
}

/// Prepares the contents of one image file for encoding at the given
/// quality, without resizing.
pub fn convert_image(contents: &[u8], format: SourceFormat, quality: u8) -> (r: Result<
    EncodeJob,
    ConvertError,
>)
    ensures
        preparation_outcome(decode_outcome(contents@, format), Resize::Keep, quality, r),
{
    prepare(contents, format, Resize::Keep, quality)
}

/// Prepares a buffer holding an image for encoding to WebP. The format is
/// the one the hint names, not one guessed from the bytes. A hint that names
/// none fails at once, before anything is decoded. Otherwise the image is
/// decoded, resized where the options give dimensions, and handed over with
/// the quality of the options, or the default.
pub fn convert_to_webp(buffer: Vec<u8>, extension: String, options: WebpOptions) -> (r: Result<
    EncodeJob,
    ConvertError,
>)
    ensures
        match format_of(extension@) {
            None => r is Err && r->Err_0@ == ConvertErrorView::UnsupportedFormat,
            Some(format) => preparation_outcome(
                decode_outcome(buffer@, format),
                options.resize(),
                quality_of(options.quality),
                r,
            ),
        },
{
    match format_from_hint(extension.as_str()) {
        None => Err(ConvertError::UnsupportedFormat),
        Some(format) => prepare(
            buffer.as_slice(),
            format,
            options.resize_mode(),
            options.effective_quality(),
        ),
    }
}

} // verus!
