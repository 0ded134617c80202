//! Batch conversion of raster images (JPEG, PNG, BMP, TIFF) to WebP: which
//! files of a directory are converted and where the results go, and the
//! conversion of one image held in memory.

pub mod codec;
pub mod convert;
pub mod error;
pub mod extension;
pub mod naming;
pub mod options;
pub mod plan;
pub mod walk;

pub use crate::convert::convert_to_webp;
pub use crate::error::ConvertError;
pub use crate::options::WebpOptions;
pub use crate::walk::{process_directory, process_directory_destructive};
