//! Images: where their encoded bytes come from, and their pixels.
use crate::buffer;
use crate::error::{opt_chars, outcome, Error, ErrorView};
use crate::features::Features;
use crate::importer::{load_outcome, DefaultImporter, Importer, Loaded};
use crate::path::{dir_view, directory_to_uri, opt_uri_outcome, path_uri_outcome, path_view};
use crate::resource::{as_deref, opt_string, Resource};
use crate::stream::{Read, Seek};
use crate::text::str_eq;
use crate::uri::{base_view, resolve, resolved, FilePath, Uri, UriView};
use vstd::prelude::*;
use vstd::slice::*;

verus! {

/// Some of the bytes of a buffer.
#[derive(Debug, Clone, Copy, PartialEq, Eq, Structural)]
pub struct BufferView {
    /// The index of the buffer.
    pub buffer: usize,
    /// Where the bytes start in the buffer.
    pub offset: usize,
    /// How many they are.
    pub length: usize,
}

/// Where the encoded bytes of an image come from.
#[allow(inconsistent_fields)]
#[derive(Debug)]
pub enum Source {
    /// The resource that a reference names.
    Uri {
        uri: String,
        /// The media type that the document gives, for a resource that reports none.
        mime_type: Option<String>,
    },
    /// Bytes of a buffer.
    View {
        view: BufferView,
        mime_type: String,
    },
}

/// An image as the document declares it.
#[derive(Debug)]
pub struct Image {
    pub source: Source,
}

/// The formats that an image may be encoded in.
#[derive(Debug, Clone, Copy, PartialEq, Eq, Structural)]
pub enum ImageFormat {
    Png,
    Jpeg,
    WebP,
}

/// How the channels of a pixel follow one another in memory.
#[derive(Debug, Clone, Copy, PartialEq, Eq, Structural)]
pub enum Format {
    /// One channel of 8 bits.
    R8,
    /// Two channels of 8 bits.
    R8G8,
    /// Three channels of 8 bits.
    R8G8B8,
    /// Four channels of 8 bits.
    R8G8B8A8,
    /// One channel of 16 bits.
    R16,
    /// Two channels of 16 bits.
    R16G16,
    /// Three channels of 16 bits.
    R16G16B16,
    /// Four channels of 16 bits.
    R16G16B16A16,
    /// Three channels of 32 bits, floating point.
    R32G32B32FLOAT,
    /// Four channels of 32 bits, floating point.
    R32G32B32A32FLOAT,
}

/// An image as the decoder gives it.
#[derive(Debug)]
pub struct DecodedImage {
    /// How many channels a pixel has.
    pub channels: u8,
    /// How many bytes a pixel takes.
    pub bytes_per_pixel: u8,
    pub width: u32,
    pub height: u32,
    pub pixels: Vec<u8>,
}

/// The plain value of a [`DecodedImage`].
pub struct DecodedImageView {
    pub channels: u8,
    pub bytes_per_pixel: u8,
    pub width: u32,
    pub height: u32,
    pub pixels: Seq<u8>,
}

impl View for DecodedImage {
    type V = DecodedImageView;

    open spec fn view(&self) -> DecodedImageView {
        DecodedImageView {
            channels: self.channels,
            bytes_per_pixel: self.bytes_per_pixel,
            width: self.width,
            height: self.height,
            pixels: self.pixels@,
        }
    }
}

/// The pixels of an image.
#[derive(Debug)]
pub struct Data {
    pub pixels: Vec<u8>,
    pub format: Format,
    pub width: u32,
    pub height: u32,
}

/// The plain value of image [`Data`].
pub struct DataView {
    pub pixels: Seq<u8>,
    pub format: Format,
    pub width: u32,
    pub height: u32,
}

impl View for Data {
    type V = DataView;

    open spec fn view(&self) -> DataView {
        DataView {
            pixels: self.pixels@,
            format: self.format,
            width: self.width,
            height: self.height,
        }
    }
}

/// The plain value of several images.
pub open spec fn data_views(images: Seq<Data>) -> Seq<DataView> {
    images.map_values(|data: Data| data@)
}

/// `bytes` start with `prefix`.
pub open spec fn starts_with(bytes: Seq<u8>, prefix: Seq<u8>) -> bool {
    prefix.len() <= bytes.len() && bytes.take(prefix.len() as int) == prefix
}

/// The format that the first bytes of an encoded image show, as far as it is one of
/// [`ImageFormat`].
pub open spec fn guessed_format(encoded: Seq<u8>) -> Option<ImageFormat> {
    if starts_with(encoded, seq![0x89u8, 0x50, 0x4e, 0x47, 0x0d, 0x0a, 0x1a, 0x0a]) {
        Some(ImageFormat::Png)
    } else if starts_with(encoded, seq![0xffu8, 0xd8, 0xff]) {
        Some(ImageFormat::Jpeg)
    } else if starts_with(encoded, seq![0x52u8, 0x49, 0x46, 0x46]) && encoded.len() >= 12
        && encoded.subrange(8, 12) == seq![0x57u8, 0x45, 0x42, 0x50] {
        Some(ImageFormat::WebP)
    } else {
        None
    }
}

/// `image::guess_format`: PNG for the eight bytes of its signature, JPEG for `ff d8 ff`, WebP for
/// `RIFF`, any four bytes and `WEBP`; `None` stands for any other format and for none.
#[verifier::external_body]
fn guess_format(encoded: &[u8]) -> (format: Option<ImageFormat>)
    ensures
        format == guessed_format(encoded@),
{
    match ::image::guess_format(encoded) {
        Ok(::image::ImageFormat::Png) => Some(ImageFormat::Png),
        Ok(::image::ImageFormat::Jpeg) => Some(ImageFormat::Jpeg),
        Ok(::image::ImageFormat::WebP) => Some(ImageFormat::WebP),
        _ => None,
    }
}

/// The format of an encoded image: its media type decides where it names an accepted format, and
/// else its first bytes do, where guessing is asked for.
pub open spec fn chosen_format(
    features: Features,
    mime_type: Option<Seq<char>>,
    encoded: Seq<u8>,
) -> Option<ImageFormat> {
    if mime_type == Some("image/png"@) {
        Some(ImageFormat::Png)
    } else if mime_type == Some("image/jpeg"@) {
        Some(ImageFormat::Jpeg)
    } else if features.ext_texture_webp && mime_type == Some("image/webp"@) {
        Some(ImageFormat::WebP)
    } else if !features.guess_mime_type {
        None
    } else if !features.ext_texture_webp && guessed_format(encoded) == Some(ImageFormat::WebP) {
        None
    } else {
        guessed_format(encoded)
    }
}

/// Whether an optional media type is `wanted`.
fn is_type(mime_type: Option<&str>, wanted: &str) -> (equal: bool)
    ensures
        equal == (opt_chars(mime_type) == Some(wanted@)),
{
    match mime_type {
        Some(mime_type) => str_eq(mime_type, wanted),
        None => false,
    }
}

/// The format of an encoded image with this media type.
pub fn choose_format(features: Features, mime_type: Option<&str>, encoded: &[u8]) -> (format: Result<
    ImageFormat,
    Error,
>)
    ensures
        match chosen_format(features, opt_chars(mime_type), encoded@) {
            Some(chosen) => format == Ok::<_, Error>(chosen),
            None => format == Err::<ImageFormat, _>(Error::UnsupportedImageEncoding),
        },
{
    if is_type(mime_type, "image/png") {
        return Ok(ImageFormat::Png);
    }
    if is_type(mime_type, "image/jpeg") {
        return Ok(ImageFormat::Jpeg);
    }
    if features.ext_texture_webp && is_type(mime_type, "image/webp") {
        return Ok(ImageFormat::WebP);
    }
    if !features.guess_mime_type {
        return Err(Error::UnsupportedImageEncoding);
    }
    match guess_format(encoded) {
        Some(ImageFormat::Png) => Ok(ImageFormat::Png),
        Some(ImageFormat::Jpeg) => Ok(ImageFormat::Jpeg),
        Some(ImageFormat::WebP) => if features.ext_texture_webp {
            Ok(ImageFormat::WebP)
        } else {
            Err(Error::UnsupportedImageEncoding)
        },
        None => Err(Error::UnsupportedImageEncoding),
    }
}

/// `decoded` is what the decoder makes of `encoded`: an image, or why there is none. Decoders use
/// the instructions that the machine has, so there may be several.
pub uninterp spec fn decode_outcome(
    encoded: Seq<u8>,
    format: ImageFormat,
    decoded: Result<DecodedImageView, ::image::ImageError>,
) -> bool;

/// The pixels of a decoded image are as many bytes as its size and its pixels take.
pub open spec fn fills_its_size(image: DecodedImageView) -> bool {
    image.pixels.len() == image.width * image.height * image.bytes_per_pixel
}

/// `image::load_from_memory_with_format`: the image that `encoded` holds in `format`, row by row,
/// without gaps, or why it holds none. What comes back depends on the arguments and on the
/// machine, related by [`decode_outcome`].
#[verifier::external_body]
fn load_from_memory_with_format(encoded: &[u8], format: ImageFormat) -> (decoded: Result<
    DecodedImage,
    ::image::ImageError,
>)
    ensures
        match decoded {
            Ok(image) => decode_outcome(encoded@, format, Ok(image@)) && fills_its_size(image@),
            Err(error) => decode_outcome(encoded@, format, Err(error)),
        },
{
    let format = match format {
        ImageFormat::Png => ::image::ImageFormat::Png,
        ImageFormat::Jpeg => ::image::ImageFormat::Jpeg,
        ImageFormat::WebP => ::image::ImageFormat::WebP,
    };
    let image = ::image::load_from_memory_with_format(encoded, format)?;
    Ok(DecodedImage {
        channels: image.color().channel_count(),
        bytes_per_pixel: image.color().bytes_per_pixel(),
        width: image.width(),
        height: image.height(),
        pixels: image.into_bytes(),
    })
}

/// The format of pixels with this many channels and bytes.
pub open spec fn pixel_format(channels: u8, bytes_per_pixel: u8) -> Option<Format> {
    match (channels, bytes_per_pixel) {
        (1, 1) => Some(Format::R8),
        (2, 2) => Some(Format::R8G8),
        (3, 3) => Some(Format::R8G8B8),
        (4, 4) => Some(Format::R8G8B8A8),
        (1, 2) => Some(Format::R16),
        (2, 4) => Some(Format::R16G16),
        (3, 6) => Some(Format::R16G16B16),
        (4, 8) => Some(Format::R16G16B16A16),
        (3, 12) => Some(Format::R32G32B32FLOAT),
        (4, 16) => Some(Format::R32G32B32A32FLOAT),
        _ => None,
    }
}

/// How many bytes a pixel of this format takes.
pub open spec fn pixel_size(format: Format) -> nat {
    match format {
        Format::R8 => 1,
        Format::R8G8 => 2,
        Format::R8G8B8 => 3,
        Format::R8G8B8A8 => 4,
        Format::R16 => 2,
        Format::R16G16 => 4,
        Format::R16G16B16 => 6,
        Format::R16G16B16A16 => 8,
        Format::R32G32B32FLOAT => 12,
        Format::R32G32B32A32FLOAT => 16,
    }
}

/// What a decoded image is as image data.
pub open spec fn image_data(decoded: DecodedImageView) -> Result<DataView, ErrorView> {
    match pixel_format(decoded.channels, decoded.bytes_per_pixel) {
        Some(format) => Ok(
            DataView {
                pixels: decoded.pixels,
                format,
                width: decoded.width,
                height: decoded.height,
            },
        ),
        None => Err(ErrorView::UnsupportedImageFormat),
    }
}

/// `data` is what `encoded` may be decoded to from `format`.
pub open spec fn decoded_data_outcome(
    encoded: Seq<u8>,
    format: ImageFormat,
    data: Result<DataView, ErrorView>,
) -> bool {
    ||| exists|error: ::image::ImageError|
        #[trigger] decode_outcome(encoded, format, Err(error)) && data == Err::<DataView, _>(
            ErrorView::Image(error),
        )
    ||| exists|decoded: DecodedImageView|
        #[trigger] decode_outcome(encoded, format, Ok(decoded)) && fills_its_size(decoded)
            && data == image_data(decoded)
}

/// `data` is what an encoded image with this media type may be decoded to.
pub open spec fn encoded_outcome(
    features: Features,
    mime_type: Option<Seq<char>>,
    encoded: Seq<u8>,
    data: Result<DataView, ErrorView>,
) -> bool {
    match chosen_format(features, mime_type, encoded) {
        Some(format) => decoded_data_outcome(encoded, format, data),
        None => data == Err::<DataView, _>(ErrorView::UnsupportedImageEncoding),
    }
}

/// The first of two optional values that is there.
pub open spec fn first_of<T>(first: Option<T>, second: Option<T>) -> Option<T> {
    match first {
        Some(value) => Some(value),
        None => second,
    }
}

/// `data` is what an image may come to be once its resource was opened and read, or could not be.
/// The media type that the resource reports comes before the one that the document gives.
pub open spec fn loaded_image_outcome(
    features: Features,
    mime_type: Option<Seq<char>>,
    loaded: Result<Loaded, ErrorView>,
    data: Result<DataView, ErrorView>,
) -> bool {
    match loaded {
        Err(error) => data == Err::<DataView, _>(error),
        Ok(loaded) => match loaded.content {
            Err(error) => data == Err::<DataView, _>(ErrorView::Io(error)),
            Ok(bytes) => encoded_outcome(
                features,
                first_of(loaded.media_type, mime_type),
                bytes,
                data,
            ),
        },
    }
}

/// The view lies inside its buffer.
pub open spec fn fits(view: BufferView, buffers: Seq<Seq<u8>>) -> bool {
    view.buffer < buffers.len() && view.offset + view.length <= buffers[view.buffer as int].len()
}

/// The bytes of a view.
pub open spec fn view_bytes(view: BufferView, buffers: Seq<Seq<u8>>) -> Seq<u8> {
    buffers[view.buffer as int].subrange(view.offset as int, view.offset + view.length)
}

/// An image from `source`, in a document at `base` with these buffers, may come to be `data`.
pub open spec fn source_outcome<I: Importer>(
    importer: I,
    source: Source,
    base: Option<UriView>,
    buffers: Seq<Seq<u8>>,
    data: Result<DataView, ErrorView>,
) -> bool {
    match source {
        Source::Uri { uri, mime_type } => match resolved(uri@, base) {
            Err(error) => data == Err::<DataView, _>(error),
            Ok(target) => exists|loaded: Result<Loaded, ErrorView>|
                #[trigger] load_outcome(importer, target, loaded) && loaded_image_outcome(
                    importer.accepts(),
                    opt_string(mime_type),
                    loaded,
                    data,
                ),
        },
        Source::View { view, mime_type } => encoded_outcome(
            importer.accepts(),
            Some(mime_type@),
            view_bytes(view, buffers),
            data,
        ),
    }
}

/// An image from `source`, with references resolved in the directory `dir`, may come to be `data`.
/// Where the directory has no URL, nothing is imported.
pub open spec fn directory_source_outcome<I: Importer>(
    importer: I,
    source: Source,
    dir: Option<Seq<u8>>,
    current_dir: Result<Seq<u8>, std::io::Error>,
    buffers: Seq<Seq<u8>>,
    data: Result<DataView, ErrorView>,
) -> bool {
    exists|base: Result<Option<UriView>, ErrorView>|
        #[trigger] path_uri_outcome(dir, true, current_dir, base) && match base {
            Err(error) => data == Err::<DataView, _>(error),
            Ok(base) => source_outcome(importer, source, base, buffers, data),
        }
}

/// The source is not a view, or one that lies inside its buffer.
pub open spec fn source_fits(source: Source, buffers: Seq<Seq<u8>>) -> bool {
    match source {
        Source::Uri { .. } => true,
        Source::View { view, .. } => fits(view, buffers),
    }
}

/// `data` is what comes of opening a resource with the result `opened`.
pub open spec fn opened_image_outcome<R: Resource>(
    features: Features,
    mime_type: Option<Seq<char>>,
    opened: Result<R, Error>,
    data: Result<DataView, ErrorView>,
) -> bool {
    match opened {
        Err(error) => data == Err::<DataView, _>(error@),
        Ok(resource) => exists|content: Result<Seq<u8>, std::io::Error>|
            #[trigger] resource.may_yield(content) && loaded_image_outcome(
                features,
                mime_type,
                Ok(Loaded { media_type: resource.reports(), content }),
                data,
            ),
    }
}

/// Opening a resource and then reading it is loading it.
proof fn lemma_opened_image<I: Importer>(
    importer: I,
    uri: UriView,
    mime_type: Option<Seq<char>>,
    opened: Result<I::Opened, Error>,
    data: Result<DataView, ErrorView>,
)
    requires
        importer.may_open(uri, opened),
        opened_image_outcome(importer.accepts(), mime_type, opened, data),
    ensures
        exists|loaded: Result<Loaded, ErrorView>|
            #[trigger] load_outcome(importer, uri, loaded) && loaded_image_outcome(
                importer.accepts(),
                mime_type,
                loaded,
                data,
            ),
{
    let loaded: Result<Loaded, ErrorView> = match opened {
        Err(error) => Err(error@),
        Ok(resource) => {
            let content = choose|content: Result<Seq<u8>, std::io::Error>|
                #[trigger] resource.may_yield(content) && loaded_image_outcome(
                    importer.accepts(),
                    mime_type,
                    Ok(Loaded { media_type: resource.reports(), content }),
                    data,
                );
            Ok(Loaded { media_type: resource.reports(), content })
        },
    };
    assert(load_outcome(importer, uri, loaded));
}

impl Data {
    /// The pixels of a decoded image, in a format that goes by their channels and bytes.
    pub fn new(decoded: DecodedImage) -> (data: Result<Data, Error>)
        ensures
            outcome(data) == image_data(decoded@),
    {
        let format = match (decoded.channels, decoded.bytes_per_pixel) {
            (1, 1) => Format::R8,
            (2, 2) => Format::R8G8,
            (3, 3) => Format::R8G8B8,
            (4, 4) => Format::R8G8B8A8,
            (1, 2) => Format::R16,
            (2, 4) => Format::R16G16,
            (3, 6) => Format::R16G16B16,
            (4, 8) => Format::R16G16B16A16,
            (3, 12) => Format::R32G32B32FLOAT,
            (4, 16) => Format::R32G32B32A32FLOAT,
            _ => return Err(Error::UnsupportedImageFormat),
        };
        Ok(
            Data {
                pixels: decoded.pixels,
                format,
                width: decoded.width,
                height: decoded.height,
            },
        )
    }

    /// The pixels of a decoded image, or the decoder's error.
    pub fn from_decoded(decoded: Result<DecodedImage, ::image::ImageError>) -> (data: Result<
        Data,
        Error,
    >)
        ensures
            outcome(data) == match decoded {
                Ok(image) => image_data(image@),
                Err(error) => Err(ErrorView::Image(error)),
            },
    {
        match decoded {
            Ok(image) => Data::new(image),
            Err(error) => Err(Error::Image(error)),
        }
    }

    /// Decodes an image with this media type.
    pub fn from_encoded(features: Features, mime_type: Option<&str>, encoded: &[u8]) -> (data: Result<
        Data,
        Error,
    >)
        ensures
            encoded_outcome(features, opt_chars(mime_type), encoded@, outcome(data)),
    {
        let format = match choose_format(features, mime_type, encoded) {
            Ok(format) => format,
            Err(error) => return Err(error),
        };
        let ghost chosen = chosen_format(features, opt_chars(mime_type), encoded@)->0;
        assert(chosen == format);
        let decoded = load_from_memory_with_format(encoded, format);
        assert(decoded matches Ok(image) ==> decode_outcome(encoded@, chosen, Ok(image@)));
        assert(decoded matches Err(error) ==> decode_outcome(encoded@, chosen, Err(error)));
        Data::from_decoded(decoded)
    }

    /// Decodes an image from an opened resource. `mime_type` counts where that reports none.
    pub fn from_opened<R: Resource>(
        features: Features,
        mime_type: Option<&str>,
        opened: Result<R, Error>,
    ) -> (data: Result<Data, Error>)
        ensures
            opened_image_outcome(features, opt_chars(mime_type), opened, outcome(data)),
    {
        let resource = match opened {
            Ok(resource) => resource,
            Err(error) => return Err(error),
        };
        let media_type = match resource.media_type() {
            Some(media_type) => Some(media_type.to_owned()),
            None => match mime_type {
                Some(mime_type) => Some(mime_type.to_owned()),
                None => None,
            },
        };
        let ghost reported = resource.reports();
        assert(opt_string(media_type) == first_of(reported, opt_chars(mime_type)));
        match resource.into_bytes() {
            Ok(bytes) => {
                assert(resource.may_yield(Ok(bytes@)));
                Data::from_encoded(features, as_deref(&media_type), bytes.as_slice())
            },
            Err(error) => {
                assert(resource.may_yield(Err(error)));
                Err(Error::Io(error))
            },
        }
    }

    /// Imports an image from `source`, in a document at `base` with these buffers.
    pub fn import_from_source<I: Importer>(
        importer: &I,
        source: &Source,
        base: Option<&Uri>,
        buffer_data: &[buffer::Data],
    ) -> (data: Result<Data, Error>)
        requires
            importer.ready(),
            source_fits(*source, buffer::data_views(buffer_data@)),
        ensures
            source_outcome(
                *importer,
                *source,
                base_view(base),
                buffer::data_views(buffer_data@),
                outcome(data),
            ),
    {
        match source {
            Source::Uri { uri: reference, mime_type } => {
                let uri = match resolve(reference.as_str(), base) {
                    Ok(uri) => uri,
                    Err(error) => return Err(error),
                };
                let opened = importer.open(&uri);
                let data = Data::from_opened(importer.features(), as_deref(mime_type), opened);
                proof {
                    let target = resolved(reference@, base_view(base))->Ok_0;
                    lemma_opened_image(
                        *importer,
                        target,
                        opt_string(*mime_type),
                        opened,
                        outcome(data),
                    );
                }
                data
            },
            Source::View { view, mime_type } => {
                let parent: &[u8] = buffer_data[view.buffer].0.as_slice();
                assert(parent@ == buffer::data_views(buffer_data@)[view.buffer as int]);
                assert(view.offset + view.length <= parent.len());
                let begin: usize = view.offset;
                let end: usize = begin + view.length;
                let encoded = slice_subrange(parent, begin, end);
                assert(encoded@ == view_bytes(*view, buffer::data_views(buffer_data@)));
                Data::from_encoded(importer.features(), Some(mime_type.as_str()), encoded)
            },
        }
    }

    /// Imports an image from `source`, in a document with these buffers. If `base` is given,
    /// references are resolved from this directory.
    pub fn from_source<
        H: Read + Seek,
        O: Fn(Vec<u8>) -> Result<H, std::io::Error>,
    >(
        source: &Source,
        base: Option<&FilePath>,
        buffer_data: &[buffer::Data],
        importer: &DefaultImporter<O>,
        current_dir: Result<FilePath, std::io::Error>,
    ) -> (data: Result<Data, Error>)
        requires
            importer.opens_any_path(),
            source_fits(*source, buffer::data_views(buffer_data@)),
        ensures
            directory_source_outcome(
                *importer,
                *source,
                path_view(base),
                dir_view(current_dir),
                buffer::data_views(buffer_data@),
                outcome(data),
            ),
    {
        let located = directory_to_uri(base, current_dir);
        let ghost found = opt_uri_outcome(located);
        assert(path_uri_outcome(path_view(base), true, dir_view(current_dir), found));
        match located {
            Err(error) => Err(error),
            Ok(uri) => {
                let uri = uri.as_ref();
                assert(base_view(uri) == found->Ok_0);
                Data::import_from_source(importer, source, uri, buffer_data)
            },
        }
    }
}

} // verus!
