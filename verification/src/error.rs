//! Everything that can go wrong while a document's resources are imported.
use vstd::prelude::*;

verus! {

/// `std::io::Error`, carried through from whoever reads a file.
#[verifier::external_type_specification]
#[verifier::external_body]
pub struct ExIoError(std::io::Error);

/// `image::ImageError`, carried through from the image decoder.
#[verifier::external_type_specification]
#[verifier::external_body]
pub struct ExImageError(::image::ImageError);

/// `url::ParseError`, carried through from the URL parser.
#[verifier::external_type_specification]
#[verifier::external_body]
pub struct ExParseError(::url::ParseError);

/// Why a string is not a URL.
#[derive(Debug)]
pub enum UriError {
    /// The string has no scheme, so it means something only next to a base URL.
    RelativeUrlWithoutBase,
    /// The string is malformed in this way.
    Invalid(::url::ParseError),
}

/// Why a string is not Base64.
#[derive(Debug, Clone, Copy, PartialEq, Eq, Structural)]
pub enum Base64Error {
    /// The byte at this offset is not in the alphabet.
    InvalidByte(usize, u8),
    /// No encoding has this length.
    InvalidLength,
    /// The symbol at this offset, the last one, holds bits that belong to no byte.
    InvalidLastSymbol(usize, u8),
}

/// The error of every fallible function of this crate.
#[derive(Debug)]
pub enum Error {
    /// A data URL does not hold valid Base64.
    Base64(Base64Error),
    /// A buffer's data is shorter than the document declares.
    BufferLength {
        /// The index of the buffer.
        buffer: usize,
        /// The declared length.
        expected: usize,
        /// The length of the data.
        actual: usize,
    },
    /// The document itself could not be read; the message says why.
    Document(String),
    /// A relative reference was met, and there is nothing it could be relative to.
    ExternalReferenceInSliceImport,
    /// The image decoder failed.
    Image(::image::ImageError),
    /// A file could not be read.
    Io(std::io::Error),
    /// A buffer refers to the binary section, and there is none, or none any more.
    MissingBlob,
    /// No image format is known for an image's media type and content.
    UnsupportedImageEncoding,
    /// An image's pixels are laid out in a way that has no format here.
    UnsupportedImageFormat,
    /// A URL has a scheme that cannot be opened.
    UnsupportedScheme,
    /// A reference is not a valid URL.
    Uri(UriError),
    /// An image refers to bytes that its buffer does not have.
    ViewOutOfBounds {
        /// The index of the image.
        image: usize,
    },
}

/// The plain value of an [`Error`].
pub enum ErrorView {
    Base64(Base64Error),
    BufferLength { buffer: usize, expected: usize, actual: usize },
    Document(Seq<char>),
    ExternalReferenceInSliceImport,
    Image(::image::ImageError),
    Io(std::io::Error),
    MissingBlob,
    UnsupportedImageEncoding,
    UnsupportedImageFormat,
    UnsupportedScheme,
    Uri(UriError),
    ViewOutOfBounds { image: usize },
}

impl View for Error {
    type V = ErrorView;

    open spec fn view(&self) -> ErrorView {
        match *self {
            Error::Base64(error) => ErrorView::Base64(error),
            Error::BufferLength { buffer, expected, actual } => {
                ErrorView::BufferLength { buffer, expected, actual }
            },
            Error::Document(message) => ErrorView::Document(message@),
            Error::ExternalReferenceInSliceImport => ErrorView::ExternalReferenceInSliceImport,
            Error::Image(error) => ErrorView::Image(error),
            Error::Io(error) => ErrorView::Io(error),
            Error::MissingBlob => ErrorView::MissingBlob,
            Error::UnsupportedImageEncoding => ErrorView::UnsupportedImageEncoding,
            Error::UnsupportedImageFormat => ErrorView::UnsupportedImageFormat,
            Error::UnsupportedScheme => ErrorView::UnsupportedScheme,
            Error::Uri(error) => ErrorView::Uri(error),
            Error::ViewOutOfBounds { image } => ErrorView::ViewOutOfBounds { image },
        }
    }
}

/// The plain value of a fallible function's result.
pub open spec fn outcome<T: View>(result: Result<T, Error>) -> Result<T::V, ErrorView> {
    match result {
        Ok(value) => Ok(value@),
        Err(error) => Err(error@),
    }
}

/// The plain value of an optional string.
pub open spec fn opt_chars(text: Option<&str>) -> Option<Seq<char>> {
    match text {
        Some(chars) => Some(chars@),
        None => None,
    }
}

} // verus!
