//! The options of a buffer conversion.

use vstd::prelude::*;

verus! {

/// The quality used where a caller names none.
pub const DEFAULT_QUALITY: u8 = 100;

/// Options for converting an image to WebP.
#[derive(Debug, Clone, Copy)]
pub struct WebpOptions {
    /// Quality of the WebP image, 0 to 100.
    pub quality: Option<u8>,
    /// Desired dimensions, width then height.
    pub dimensions: Option<(u32, u32)>,
    /// Whether to keep the aspect ratio when resizing.
    pub maintain_aspect_ratio: Option<bool>,
}

/// How a picture is resized before it is encoded.
#[derive(Debug, Clone, Copy, PartialEq, Eq, Structural)]
pub enum Resize {
    /// The picture keeps its size.
    Keep,
    /// Each axis is scaled on its own to the size asked for.
    Exact { width: u32, height: u32 },
    /// The picture is scaled, its aspect ratio kept, to cover the size asked
    /// for, and the excess is cropped.
    Fill { width: u32, height: u32 },
}

/// The quality asked for, or the default.
pub open spec fn quality_of(quality: Option<u8>) -> u8 {
    match quality {
        Some(q) => q,
        None => DEFAULT_QUALITY,
    }
}

impl WebpOptions {
    /// The resize these options ask for: none without dimensions; with them,
    /// a fill where the aspect ratio is to be kept and an exact resize where
    /// it is not, or where nothing is said of it.
    pub open spec fn resize(self) -> Resize {
        match self.dimensions {
            None => Resize::Keep,
            Some((width, height)) => if self.maintain_aspect_ratio == Some(true) {
                Resize::Fill { width, height }
            } else {
                Resize::Exact { width, height }
            },
        }
    }

    /// The resize these options ask for.
    pub fn resize_mode(&self) -> (r: Resize)
        ensures
            r == self.resize(),
    {
        match self.dimensions {
            None => Resize::Keep,
            Some((width, height)) => {
                let fill = match self.maintain_aspect_ratio {
                    Some(keep) => keep,
                    None => false,
                };
                if fill {
                    Resize::Fill { width, height }
                } else {
                    Resize::Exact { width, height }
                }
            },
        }
    }

    /// The quality these options ask for, or the default.
    pub fn effective_quality(&self) -> (q: u8)
        ensures
            q == quality_of(self.quality),
    {
        quality_or_default(self.quality)
    }
}

/// The quality to encode with: the one asked for, or the default.
pub fn quality_or_default(quality: Option<u8>) -> (q: u8)
    ensures
        q == quality_of(quality),
{
    match quality {
        Some(v) => v,
        None => DEFAULT_QUALITY,
    }
}

} // verus!
