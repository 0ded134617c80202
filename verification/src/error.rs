//! The errors of a conversion.

use vstd::prelude::*;

verus! {

/// An operation on the file system that a conversion depends on.
#[derive(Debug, Clone, Copy, PartialEq, Eq, Structural)]
pub enum FileOperation {
    ReadDirectory,
    ReadFile,
    WriteFile,
    Rename,
}

/// Why a conversion failed.
#[derive(Debug, Clone, PartialEq, Eq)]
pub enum ConvertError {
    /// The format hint names none of the formats the library reads.
    UnsupportedFormat,
    /// The decoder refused the bytes; its message.
    Decode(String),
    /// The dimensions asked for cannot be had: a side is zero or longer than a
    /// WebP picture can be, or the picture could not be brought to them.
    Dimensions { width: u32, height: u32 },
    /// The encoder refused the picture; its message.
    Encode(String),
    /// The file system refused an operation; the cause it gave.
    Filesystem { operation: FileOperation, cause: String },
}

/// A `ConvertError` with its message as a sequence of characters.
pub enum ConvertErrorView {
    UnsupportedFormat,
    Decode(Seq<char>),
    Dimensions { width: u32, height: u32 },
    Encode(Seq<char>),
    Filesystem { operation: FileOperation, cause: Seq<char> },
}

impl View for ConvertError {
    type V = ConvertErrorView;

    open spec fn view(&self) -> ConvertErrorView {
        match self {
            ConvertError::UnsupportedFormat => ConvertErrorView::UnsupportedFormat,
            ConvertError::Decode(message) => ConvertErrorView::Decode(message@),
            ConvertError::Dimensions { width, height } => ConvertErrorView::Dimensions {
                width: *width,
                height: *height,
            },
            ConvertError::Encode(message) => ConvertErrorView::Encode(message@),
            ConvertError::Filesystem { operation, cause } => ConvertErrorView::Filesystem {
                operation: *operation,
                cause: cause@,
            },
        }
    }
}

/// The name of a file-system operation in an error's description.
pub open spec fn operation_name(operation: FileOperation) -> Seq<char> {
    match operation {
        FileOperation::ReadDirectory => "read directory: "@,
        FileOperation::ReadFile => "read file: "@,
        FileOperation::WriteFile => "write file: "@,
        FileOperation::Rename => "rename: "@,
    }
}

/// The description of an error: the operation that failed, followed by the
/// cause where a codec or the file system gave one.
pub open spec fn description(error: ConvertErrorView) -> Seq<char> {
    match error {
        ConvertErrorView::UnsupportedFormat => "Unsupported image format"@,
        ConvertErrorView::Decode(cause) => "decode: "@ + cause,
        ConvertErrorView::Dimensions { .. } => "resize: dimensions out of range"@,
        ConvertErrorView::Encode(cause) => "encode: "@ + cause,
        ConvertErrorView::Filesystem { operation, cause } => operation_name(operation) + cause,
    }
}

impl ConvertError {
    /// A human-readable description of the error.
    pub fn message(&self) -> (text: String)
        ensures
            text@ == description(self@),
    {
        match self {
            ConvertError::UnsupportedFormat => String::from_str("Unsupported image format"),
            ConvertError::Decode(cause) => String::from_str("decode: ").concat(cause.as_str()),
            ConvertError::Dimensions { .. } => String::from_str("resize: dimensions out of range"),
            ConvertError::Encode(cause) => String::from_str("encode: ").concat(cause.as_str()),
            ConvertError::Filesystem { operation, cause } => {
                let name = match operation {
                    FileOperation::ReadDirectory => "read directory: ",
                    FileOperation::ReadFile => "read file: ",
                    FileOperation::WriteFile => "write file: ",
                    FileOperation::Rename => "rename: ",
                };
                String::from_str(name).concat(cause.as_str())
            },
        }
    }
}

} // verus!
