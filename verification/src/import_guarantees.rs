//! What importing buffers, images and documents owes its caller, said of what goes in and what comes
//! out.
use crate::buffer;
use crate::buffer::{padded, Buffer};
use crate::document::Gltf;
use crate::error::{Error, ErrorView, UriError};
use crate::features::Features;
use crate::image::{
    chosen_format, decode_outcome, encoded_outcome, image_data, pixel_size, DataView,
    DecodedImageView, Format, Image, ImageFormat,
};
use crate::import::{
    blob_before, buffer_fails, buffer_imported, buffers_imported, buffers_outcome, image_fails,
    image_imported, images_imported, images_outcome, import_outcome, import_path_outcome,
    import_slice_outcome, parse_outcome, path_buffers_outcome, path_images_outcome,
    read_import_outcome, resources_outcome, ImportView,
};
use crate::importer::{load_outcome, read_outcome, DefaultImporter, Importer, Loaded};
use crate::path::{path_uri_outcome, slice_base_outcome};
use crate::resource::{
    data_parts, decoded_base64, opt_string, DefaultResource, Resource,
};
use crate::stream::{Read, Seek};
use crate::uri::{
    absolute_outcome, directory_uri_outcome, file_name_outcome, file_path_outcome, file_uri_outcome,
    joined_path_outcome, joined_uri, opt_bytes, parsed_uri, resolved, UriView,
};
use vstd::prelude::*;

verus! {

/// No path has no URL. An absolute path has its own, and a relative one that of what it is once it is
/// joined to the current directory; a path that has none is not supported, and without a current
/// directory a relative one fails for want of it.
pub proof fn law_urls_of_paths(
    path: Option<Seq<u8>>,
    directory: bool,
    current_dir: Result<Seq<u8>, std::io::Error>,
    uri: Result<Option<UriView>, ErrorView>,
)
    requires
        path_uri_outcome(path, directory, current_dir, uri),
    ensures
        path is None ==> uri == Ok::<Option<UriView>, ErrorView>(None),
        path is Some ==> ({
            ||| absolute_outcome(path->0, true) && came_of_path(path->0, directory, uri)
            ||| absolute_outcome(path->0, false) && match current_dir {
                Err(error) => uri == Err::<Option<UriView>, _>(ErrorView::Io(error)),
                Ok(dir) => exists|full: Seq<u8>| #[trigger]
                    joined_path_outcome(dir, path->0, full) && came_of_path(full, directory, uri),
            }
        }),
{
    if path is Some {
        let full = choose|full: Result<Seq<u8>, ErrorView>|
            #[trigger] crate::path::absolute_path_outcome(path->0, current_dir, full)
                && crate::path::absolute_uri_outcome(full, directory, uri);
        if full is Ok {
            assert(came_of_path(full->Ok_0, directory, uri));
        }
    }
}

/// `uri` came of asking the `url` crate for the URL of `path`, that of a directory or that of a file.
pub open spec fn came_of_path(
    path: Seq<u8>,
    directory: bool,
    uri: Result<Option<UriView>, ErrorView>,
) -> bool {
    match uri {
        Ok(None) => false,
        Ok(Some(found)) => {
            &&& found.scheme == "file"@
            &&& directory ==> directory_uri_outcome(path, Some(found)) && found.text.len() > 0
                && found.text.last() == '/'
            &&& !directory ==> file_uri_outcome(path, Some(found))
        },
        Err(error) => {
            &&& error == ErrorView::UnsupportedScheme
            &&& directory ==> directory_uri_outcome(path, None)
            &&& !directory ==> file_uri_outcome(path, None)
        },
    }
}

/// A path is made absolute by joining it to the current directory, unless it is absolute already; the
/// current directory is asked for in the first case only.
pub proof fn law_paths_are_made_absolute(
    path: Seq<u8>,
    current_dir: Result<Seq<u8>, std::io::Error>,
    joined: Result<Option<crate::uri::FilePath>, Error>,
)
    requires
        crate::path::absolute_path_outcome(
            path,
            current_dir,
            crate::path::full_view(path, joined),
        ),
    ensures
        joined matches Err(error) ==> absolute_outcome(path, false) && current_dir is Err && error@
            == ErrorView::Io(current_dir->Err_0),
        joined matches Ok(None) ==> absolute_outcome(path, true) || (absolute_outcome(path, false)
            && current_dir is Ok && joined_path_outcome(current_dir->Ok_0, path, path)),
        joined matches Ok(Some(full)) ==> (absolute_outcome(path, true) && full@ == path) || (
        absolute_outcome(path, false) && current_dir is Ok && joined_path_outcome(
            current_dir->Ok_0,
            path,
            full@,
        )),
{
}

/// References of a document that came from nowhere are relative to the current directory, where that
/// is known, and to nothing where it is not.
pub proof fn law_base_of_a_slice(
    current_dir: Result<Seq<u8>, std::io::Error>,
    base: Option<UriView>,
)
    requires
        slice_base_outcome(current_dir, base),
    ensures
        current_dir matches Ok(dir) ==> directory_uri_outcome(dir, base),
        current_dir is Ok && base is Some ==> base->0.scheme == "file"@ && base->0.text.len() > 0
            && base->0.text.last() == '/',
        current_dir is Err ==> base is None,
{
}

/// A buffer is the bytes it was made of, with zeros after them up to the next multiple of four.
pub proof fn law_buffers_hold_their_bytes(bytes: Seq<u8>, more: nat)
    ensures
        (bytes.len() + more) % 4 == 0 && more < 4 ==> padded(bytes) == bytes + Seq::new(
            more,
            |i: int| 0u8,
        ),
{
    crate::laws::law_padding(bytes);
    if (bytes.len() + more) % 4 == 0 && more < 4 {
        assert(padded(bytes).len() == bytes.len() + more);
        assert(padded(bytes).take(bytes.len() as int) == bytes);
        assert forall|i: int| 0 <= i < bytes.len() implies padded(bytes)[i] == bytes[i] by {
            assert(padded(bytes)[i] == padded(bytes).take(bytes.len() as int)[i]);
        }
        assert(padded(bytes) =~= bytes + Seq::new(more, |i: int| 0u8));
    }
}

/// A buffer from the binary section holds that section, however long it is, and takes it. It is
/// missing only where there is none.
pub proof fn law_the_binary_section_is_owed<I: Importer>(
    importer: I,
    base: Option<UriView>,
    bytes: Seq<u8>,
    data: Result<Seq<u8>, ErrorView>,
    missing: Result<Seq<u8>, ErrorView>,
)
    requires
        buffer::source_outcome(importer, buffer::Source::Bin, base, Some(bytes), data),
        buffer::source_outcome(importer, buffer::Source::Bin, base, None, missing),
    ensures
        data is Ok,
        data->Ok_0.len() >= bytes.len(),
        data->Ok_0.len() < bytes.len() + 4,
        data->Ok_0.len() % 4 == 0,
        forall|i: int| 0 <= i < bytes.len() ==> #[trigger] data->Ok_0[i] == bytes[i],
        forall|i: int| bytes.len() <= i < data->Ok_0.len() ==> #[trigger] data->Ok_0[i] == 0,
        missing == Err::<Seq<u8>, _>(ErrorView::MissingBlob),
{
}

/// The binary section is gone after a buffer took it, and stays where a buffer comes from a reference.
pub proof fn law_the_binary_section_is_taken<B>(reference: String, blob: Option<B>)
    ensures
        buffer::blob_after(buffer::Source::Bin, blob) is None,
        buffer::blob_after(buffer::Source::Uri(reference), blob) == blob,
{
}

/// A buffer from a reference holds, padded, all the bytes that the importer opens the reference as.
/// It fails only where the reference cannot be resolved, opened or read, and for that reason.
pub proof fn law_references_are_owed<I: Importer>(
    importer: I,
    reference: String,
    base: Option<UriView>,
    blob: Option<Seq<u8>>,
    data: Result<Seq<u8>, ErrorView>,
)
    requires
        buffer::source_outcome(importer, buffer::Source::Uri(reference), base, blob, data),
    ensures
        match resolved(reference@, base) {
            Err(error) => data == Err::<Seq<u8>, _>(error),
            Ok(uri) => exists|opened: Result<I::Opened, Error>| #[trigger]
                importer.may_open(uri, opened) && match opened {
                    Err(error) => data == Err::<Seq<u8>, _>(error@),
                    Ok(resource) => exists|content: Result<Seq<u8>, std::io::Error>| #[trigger]
                        resource.may_yield(content) && match content {
                            Ok(bytes) => data == Ok::<_, ErrorView>(padded(bytes)),
                            Err(error) => data == Err::<Seq<u8>, _>(ErrorView::Io(error)),
                        },
                },
        },
{
    if let Ok(uri) = resolved(reference@, base) {
        let loaded = choose|loaded: Result<Loaded, ErrorView>|
            #[trigger] load_outcome(importer, uri, loaded) && data == buffer::loaded_data(loaded);
        let opened = choose|opened: Result<I::Opened, Error>|
            #[trigger] importer.may_open(uri, opened) && crate::importer::opened_as(opened, loaded);
        if let Ok(resource) = opened {
            assert(resource.may_yield(loaded->Ok_0.content));
        }
    }
}

/// Through the default importer, a buffer with a `data` URL holds, padded, every byte that the Base64
/// text in the URL encodes, and fails with the decoder's error where it encodes none.
pub proof fn law_data_url_buffers_hold_every_byte<
    H: Read + Seek,
    O: Fn(Vec<u8>) -> Result<H, std::io::Error>,
>(
    importer: DefaultImporter<O>,
    reference: String,
    base: Option<UriView>,
    blob: Option<Seq<u8>>,
    data: Result<Seq<u8>, ErrorView>,
)
    requires
        resolved(reference@, base) matches Ok(uri) && uri.scheme == "data"@,
        buffer::source_outcome(importer, buffer::Source::Uri(reference), base, blob, data),
    ensures
        match decoded_base64(data_parts(resolved(reference@, base)->Ok_0.path).1) {
            Ok(bytes) => data == Ok::<_, ErrorView>(padded(bytes)),
            Err(error) => data == Err::<Seq<u8>, _>(ErrorView::Base64(error)),
        },
{
    let uri = resolved(reference@, base)->Ok_0;
    law_references_are_owed(importer, reference, base, blob, data);
    let opened = choose|opened: Result<DefaultResource<H>, Error>| #[trigger]
        importer.may_open(uri, opened) && match opened {
            Err(error) => data == Err::<Seq<u8>, _>(error@),
            Ok(resource) => exists|content: Result<Seq<u8>, std::io::Error>| #[trigger]
                resource.may_yield(content) && match content {
                    Ok(bytes) => data == Ok::<_, ErrorView>(padded(bytes)),
                    Err(error) => data == Err::<Seq<u8>, _>(ErrorView::Io(error)),
                },
        };
    crate::guarantees::law_default_importer(importer, uri, opened);
}

/// Through the default importer, a buffer with a `file` URL holds, padded, everything that is read to
/// the end of the file at the path of the URL.
pub proof fn law_file_url_buffers_hold_the_file<
    H: Read + Seek,
    O: Fn(Vec<u8>) -> Result<H, std::io::Error>,
>(
    importer: DefaultImporter<O>,
    reference: String,
    base: Option<UriView>,
    blob: Option<Seq<u8>>,
    data: Seq<u8>,
)
    requires
        resolved(reference@, base) matches Ok(uri) && uri.scheme == "file"@,
        buffer::source_outcome(importer, buffer::Source::Uri(reference), base, blob, Ok(data)),
    ensures
        exists|argument: Vec<u8>, file: H, content: Seq<u8>, left: H|
            {
                &&& file_path_outcome(resolved(reference@, base)->Ok_0.text, Some(argument@))
                &&& #[trigger] call_ensures(importer.open_file, (argument,), Ok(file))
                &&& #[trigger] file.may_read_to_end(Ok(content), left)
                &&& data == padded(content)
            },
{
    let uri = resolved(reference@, base)->Ok_0;
    law_references_are_owed(importer, reference, base, blob, Ok(data));
    let opened = choose|opened: Result<DefaultResource<H>, Error>| #[trigger]
        importer.may_open(uri, opened) && match opened {
            Err(error) => Ok::<_, ErrorView>(data) == Err::<Seq<u8>, _>(error@),
            Ok(resource) => exists|content: Result<Seq<u8>, std::io::Error>| #[trigger]
                resource.may_yield(content) && match content {
                    Ok(bytes) => Ok::<_, ErrorView>(data) == Ok::<_, ErrorView>(padded(bytes)),
                    Err(error) => Ok::<_, ErrorView>(data) == Err::<Seq<u8>, _>(
                        ErrorView::Io(error),
                    ),
                },
        };
    crate::guarantees::law_default_importer(importer, uri, opened);
    let resource = opened->Ok_0;
    let content = choose|content: Result<Seq<u8>, std::io::Error>| #[trigger]
        resource.may_yield(content) && match content {
            Ok(bytes) => Ok::<_, ErrorView>(data) == Ok::<_, ErrorView>(padded(bytes)),
            Err(error) => Ok::<_, ErrorView>(data) == Err::<Seq<u8>, _>(ErrorView::Io(error)),
        };
    let handle = resource->File_0@.file;
    let left = choose|left: H| #[trigger] handle.may_read_to_end(content, left);
    let (argument, name, file) = choose|
        argument: Vec<u8>,
        name: Option<Seq<u8>>,
        file: Result<H, std::io::Error>,
    |
        {
            &&& file_path_outcome(uri.text, Some(argument@))
            &&& #[trigger] file_name_outcome(argument@, name)
            &&& #[trigger] call_ensures(importer.open_file, (argument,), file)
            &&& file is Ok && file->Ok_0 == handle
        };
    assert(call_ensures(importer.open_file, (argument,), Ok(file->Ok_0)));
    assert(handle.may_read_to_end(Ok(content->Ok_0), left));
}

/// A buffer of an opened resource holds, padded, all that the resource yields.
pub proof fn law_opened_buffers<R: Resource>(
    opened: Result<R, Error>,
    data: Result<Seq<u8>, ErrorView>,
)
    requires
        buffer::opened_data_outcome(opened, data),
    ensures
        match opened {
            Err(error) => data == Err::<Seq<u8>, _>(error@),
            Ok(resource) => exists|content: Result<Seq<u8>, std::io::Error>| #[trigger]
                resource.may_yield(content) && match content {
                    Ok(bytes) => data == Ok::<_, ErrorView>(padded(bytes)),
                    Err(error) => data == Err::<Seq<u8>, _>(ErrorView::Io(error)),
                },
        },
{
}

/// A single buffer has its references resolved against the URL of the directory that is given, or
/// against nothing where none is. Where the directory has no URL the buffer fails for that, and the
/// binary section stays.
pub proof fn law_single_buffers<I: Importer>(
    importer: I,
    source: buffer::Source,
    dir: Option<Seq<u8>>,
    current_dir: Result<Seq<u8>, std::io::Error>,
    blob: Option<Vec<u8>>,
    left: Option<Vec<u8>>,
    data: Result<Seq<u8>, ErrorView>,
)
    requires
        buffer::directory_source_outcome(importer, source, dir, current_dir, blob, left, data),
    ensures
        exists|base: Result<Option<UriView>, ErrorView>| #[trigger]
            path_uri_outcome(dir, true, current_dir, base) && match base {
                Err(error) => data == Err::<Seq<u8>, _>(error) && left == blob,
                Ok(place) => {
                    &&& buffer::source_outcome(importer, source, place, opt_bytes(blob), data)
                    &&& source is Bin ==> left is None
                    &&& source is Uri ==> left == blob
                },
            },
{
}

/// A media type that names an accepted format decides the format. Any other leaves it to the first
/// bytes, where guessing is asked for: the signatures of PNG, of JPEG and, where it is accepted, of
/// WebP, and nothing else.
pub proof fn law_formats(
    features: Features,
    mime_type: Option<Seq<char>>,
    encoded: Seq<u8>,
    size: Seq<u8>,
    rest: Seq<u8>,
)
    requires
        mime_type != Some("image/png"@),
        mime_type != Some("image/jpeg"@),
        mime_type != Some("image/webp"@) || !features.ext_texture_webp,
        size.len() == 4,
    ensures
        chosen_format(features, Some("image/png"@), encoded) == Some(ImageFormat::Png),
        chosen_format(features, Some("image/jpeg"@), encoded) == Some(ImageFormat::Jpeg),
        features.ext_texture_webp ==> chosen_format(features, Some("image/webp"@), encoded) == Some(
            ImageFormat::WebP,
        ),
        !features.guess_mime_type ==> chosen_format(features, mime_type, encoded) is None,
        features.guess_mime_type ==> chosen_format(
            features,
            mime_type,
            seq![0x89u8, 0x50, 0x4e, 0x47, 0x0d, 0x0a, 0x1a, 0x0a] + rest,
        ) == Some(ImageFormat::Png),
        features.guess_mime_type ==> chosen_format(
            features,
            mime_type,
            seq![0xffu8, 0xd8, 0xff] + rest,
        ) == Some(ImageFormat::Jpeg),
        features.guess_mime_type ==> chosen_format(
            features,
            mime_type,
            seq![0x52u8, 0x49, 0x46, 0x46] + size + seq![0x57u8, 0x45, 0x42, 0x50] + rest,
        ) == if features.ext_texture_webp {
            Some(ImageFormat::WebP)
        } else {
            None
        },
        match chosen_format(features, mime_type, encoded) {
            Some(ImageFormat::Png) => encoded.len() >= 8 && encoded.take(8) == seq![
                0x89u8,
                0x50,
                0x4e,
                0x47,
                0x0d,
                0x0a,
                0x1a,
                0x0a,
            ],
            Some(ImageFormat::Jpeg) => encoded.len() >= 3 && encoded.take(3) == seq![
                0xffu8,
                0xd8,
                0xff,
            ],
            Some(ImageFormat::WebP) => features.ext_texture_webp && encoded.len() >= 12
                && encoded.take(4) == seq![0x52u8, 0x49, 0x46, 0x46] && encoded.subrange(8, 12)
                == seq![0x57u8, 0x45, 0x42, 0x50],
            None => true,
        },
{
    crate::laws::law_media_type_decides(features, encoded);
    let png = seq![0x89u8, 0x50, 0x4e, 0x47, 0x0d, 0x0a, 0x1a, 0x0a];
    let jpeg = seq![0xffu8, 0xd8, 0xff];
    let riff = seq![0x52u8, 0x49, 0x46, 0x46];
    let webp = seq![0x57u8, 0x45, 0x42, 0x50];
    assert((png + rest).take(8) =~= png);
    assert((jpeg + rest).take(3) =~= jpeg);
    assert((jpeg + rest).len() >= 8 ==> (jpeg + rest).take(8)[0] == 0xffu8);
    let whole = riff + size + webp + rest;
    assert(whole.take(4) =~= riff);
    assert(whole.subrange(8, 12) =~= webp);
    assert(whole.take(8)[0] == 0x52u8);
    assert(whole.take(3)[0] == 0x52u8);
    assert(png[0] == 0x89u8);
    assert(jpeg[0] == 0xffu8);
}

/// A decoded image becomes image data with its pixels, its width and its height as they are, in the
/// format that has as many channels and bytes. An image for which there is no such format is refused.
pub proof fn law_decoded_images_are_kept(decoded: DecodedImageView)
    ensures
        match image_data(decoded) {
            Ok(data) => {
                &&& data.pixels == decoded.pixels
                &&& data.width == decoded.width
                &&& data.height == decoded.height
                &&& decoded.bytes_per_pixel == pixel_size(data.format)
                &&& match data.format {
                    Format::R8 => decoded.channels == 1 && decoded.bytes_per_pixel == 1,
                    Format::R8G8 => decoded.channels == 2 && decoded.bytes_per_pixel == 2,
                    Format::R8G8B8 => decoded.channels == 3 && decoded.bytes_per_pixel == 3,
                    Format::R8G8B8A8 => decoded.channels == 4 && decoded.bytes_per_pixel == 4,
                    Format::R16 => decoded.channels == 1 && decoded.bytes_per_pixel == 2,
                    Format::R16G16 => decoded.channels == 2 && decoded.bytes_per_pixel == 4,
                    Format::R16G16B16 => decoded.channels == 3 && decoded.bytes_per_pixel == 6,
                    Format::R16G16B16A16 => decoded.channels == 4 && decoded.bytes_per_pixel == 8,
                    Format::R32G32B32FLOAT => decoded.channels == 3 && decoded.bytes_per_pixel
                        == 12,
                    Format::R32G32B32A32FLOAT => decoded.channels == 4 && decoded.bytes_per_pixel
                        == 16,
                }
            },
            Err(error) => {
                &&& error == ErrorView::UnsupportedImageFormat
                &&& !(1 <= decoded.channels <= 4 && decoded.bytes_per_pixel == decoded.channels)
                &&& !(1 <= decoded.channels <= 4 && decoded.bytes_per_pixel == 2 * decoded.channels)
                &&& !(3 <= decoded.channels <= 4 && decoded.bytes_per_pixel == 4 * decoded.channels)
            },
        },
{
}

/// What an encoded image comes to is what the decoder gave of its bytes in the format chosen: the same
/// pixels and the same size, or the decoder's own error. It fails otherwise only where no format is
/// chosen, or where the decoded image has channels for which there is no pixel format.
pub proof fn law_images_show_what_was_decoded(
    features: Features,
    mime_type: Option<Seq<char>>,
    encoded: Seq<u8>,
    data: Result<DataView, ErrorView>,
)
    requires
        encoded_outcome(features, mime_type, encoded, data),
    ensures
        match chosen_format(features, mime_type, encoded) {
            None => data == Err::<DataView, _>(ErrorView::UnsupportedImageEncoding),
            Some(format) => match data {
                Ok(shown) => exists|decoded: DecodedImageView|
                    {
                        &&& #[trigger] decode_outcome(encoded, format, Ok(decoded))
                        &&& shown.pixels == decoded.pixels
                        &&& shown.width == decoded.width
                        &&& shown.height == decoded.height
                        &&& shown.pixels.len() == decoded.width * decoded.height
                            * decoded.bytes_per_pixel
                        &&& decoded.bytes_per_pixel == pixel_size(shown.format)
                        &&& decoded.channels == match shown.format {
                            Format::R8 | Format::R16 => 1u8,
                            Format::R8G8 | Format::R16G16 => 2u8,
                            Format::R8G8B8 | Format::R16G16B16 | Format::R32G32B32FLOAT => 3u8,
                            _ => 4u8,
                        }
                    },
                Err(error) => {
                    ||| error is Image && decode_outcome(encoded, format, Err(error->Image_0))
                    ||| error == ErrorView::UnsupportedImageFormat && exists|
                        decoded: DecodedImageView,
                    |
                        {
                            &&& #[trigger] decode_outcome(encoded, format, Ok(decoded))
                            &&& !(1 <= decoded.channels <= 4 && decoded.bytes_per_pixel
                                == decoded.channels)
                            &&& !(1 <= decoded.channels <= 4 && decoded.bytes_per_pixel == 2
                                * decoded.channels)
                            &&& !(3 <= decoded.channels <= 4 && decoded.bytes_per_pixel == 4
                                * decoded.channels)
                        }
                },
            },
        },
{
    if let Some(format) = chosen_format(features, mime_type, encoded) {
        assert(crate::image::decoded_data_outcome(encoded, format, data));
        if !(exists|error: ::image::ImageError|
            #[trigger] decode_outcome(encoded, format, Err(error)) && data == Err::<DataView, _>(
                ErrorView::Image(error),
            )) {
            let decoded = choose|decoded: DecodedImageView|
                #[trigger] decode_outcome(encoded, format, Ok(decoded))
                    && crate::image::fills_its_size(decoded) && data == image_data(decoded);
            law_decoded_images_are_kept(decoded);
        }
    }
}

/// As many bytes as a pixel of each format takes.
pub proof fn law_pixel_sizes()
    ensures
        pixel_size(Format::R8) == 1,
        pixel_size(Format::R8G8) == 2,
        pixel_size(Format::R8G8B8) == 3,
        pixel_size(Format::R8G8B8A8) == 4,
        pixel_size(Format::R16) == 2,
        pixel_size(Format::R16G16) == 4,
        pixel_size(Format::R16G16B16) == 6,
        pixel_size(Format::R16G16B16A16) == 8,
        pixel_size(Format::R32G32B32FLOAT) == 12,
        pixel_size(Format::R32G32B32A32FLOAT) == 16,
{
}

/// An image from a view is made of the bytes in the view alone: wherever they stand in their buffer,
/// it comes to what they come to by themselves.
pub proof fn law_views_show_their_bytes<I: Importer>(
    importer: I,
    view: crate::image::BufferView,
    mime_type: String,
    base: Option<UriView>,
    buffers: Seq<Seq<u8>>,
    prefix: Seq<u8>,
    encoded: Seq<u8>,
    suffix: Seq<u8>,
    data: Result<DataView, ErrorView>,
)
    requires
        view.buffer < buffers.len(),
        buffers[view.buffer as int] == prefix + encoded + suffix,
        view.offset == prefix.len(),
        view.length == encoded.len(),
    ensures
        crate::image::source_fits(crate::image::Source::View { view, mime_type }, buffers),
        crate::image::source_outcome(
            importer,
            crate::image::Source::View { view, mime_type },
            base,
            buffers,
            data,
        ) == encoded_outcome(importer.accepts(), Some(mime_type@), encoded, data),
{
    assert(crate::image::view_bytes(view, buffers) =~= encoded);
}

/// A view fits where its buffer is there and has all of its bytes. A reference always fits.
pub proof fn law_fitting(source: crate::image::Source, buffers: Seq<Seq<u8>>)
    ensures
        match source {
            crate::image::Source::Uri { uri, mime_type } => crate::image::source_fits(
                source,
                buffers,
            ),
            crate::image::Source::View { view, mime_type } => crate::image::source_fits(
                source,
                buffers,
            ) <==> view.buffer < buffers.len() && view.offset + view.length
                <= buffers[view.buffer as int].len(),
        },
{
}

/// An image from a reference is made of all the bytes that the importer opens the reference as, with
/// the media type that is reported, and else the one that is given. It fails only where the reference
/// cannot be resolved, opened, read or decoded, and for that reason.
pub proof fn law_image_references_are_owed<I: Importer>(
    importer: I,
    reference: String,
    mime_type: Option<String>,
    base: Option<UriView>,
    buffers: Seq<Seq<u8>>,
    data: Result<DataView, ErrorView>,
)
    requires
        crate::image::source_outcome(
            importer,
            crate::image::Source::Uri { uri: reference, mime_type },
            base,
            buffers,
            data,
        ),
    ensures
        match resolved(reference@, base) {
            Err(error) => data == Err::<DataView, _>(error),
            Ok(uri) => exists|opened: Result<I::Opened, Error>| #[trigger]
                importer.may_open(uri, opened) && match opened {
                    Err(error) => data == Err::<DataView, _>(error@),
                    Ok(resource) => exists|content: Result<Seq<u8>, std::io::Error>| #[trigger]
                        resource.may_yield(content) && match content {
                            Err(error) => data == Err::<DataView, _>(ErrorView::Io(error)),
                            Ok(bytes) => encoded_outcome(
                                importer.accepts(),
                                if resource.reports() is Some {
                                    resource.reports()
                                } else {
                                    opt_string(mime_type)
                                },
                                bytes,
                                data,
                            ),
                        },
                },
        },
{
    if let Ok(uri) = resolved(reference@, base) {
        let loaded = choose|loaded: Result<Loaded, ErrorView>|
            #[trigger] load_outcome(importer, uri, loaded)
                && crate::image::loaded_image_outcome(
                importer.accepts(),
                opt_string(mime_type),
                loaded,
                data,
            );
        let opened = choose|opened: Result<I::Opened, Error>|
            #[trigger] importer.may_open(uri, opened) && crate::importer::opened_as(opened, loaded);
        if let Ok(resource) = opened {
            assert(resource.may_yield(loaded->Ok_0.content));
        }
    }
}

/// An image of an opened resource is made of all that the resource yields, with the media type that it
/// reports, and else the one that is given.
pub proof fn law_opened_images<R: Resource>(
    features: Features,
    mime_type: Option<Seq<char>>,
    opened: Result<R, Error>,
    data: Result<DataView, ErrorView>,
)
    requires
        crate::image::opened_image_outcome(features, mime_type, opened, data),
    ensures
        match opened {
            Err(error) => data == Err::<DataView, _>(error@),
            Ok(resource) => exists|content: Result<Seq<u8>, std::io::Error>| #[trigger]
                resource.may_yield(content) && match content {
                    Err(error) => data == Err::<DataView, _>(ErrorView::Io(error)),
                    Ok(bytes) => encoded_outcome(
                        features,
                        if resource.reports() is Some {
                            resource.reports()
                        } else {
                            mime_type
                        },
                        bytes,
                        data,
                    ),
                },
        },
{
}

/// A single image has its reference resolved against the URL of the directory that is given, or
/// against nothing where none is. Where the directory has no URL the image fails for that.
pub proof fn law_single_images<I: Importer>(
    importer: I,
    source: crate::image::Source,
    dir: Option<Seq<u8>>,
    current_dir: Result<Seq<u8>, std::io::Error>,
    buffers: Seq<Seq<u8>>,
    data: Result<DataView, ErrorView>,
)
    requires
        crate::image::directory_source_outcome(importer, source, dir, current_dir, buffers, data),
    ensures
        exists|base: Result<Option<UriView>, ErrorView>| #[trigger]
            path_uri_outcome(dir, true, current_dir, base) && match base {
                Err(error) => data == Err::<DataView, _>(error),
                Ok(place) => crate::image::source_outcome(importer, source, place, buffers, data),
            },
{
}

/// The plain values of buffers and images are those of each, in order.
pub proof fn law_data_are_seen(
    buffers: Seq<buffer::Data>,
    images: Seq<crate::image::Data>,
    decoded: crate::image::DecodedImage,
)
    ensures
        buffer::data_views(buffers).len() == buffers.len(),
        forall|i: int|
            0 <= i < buffers.len() ==> #[trigger] buffer::data_views(buffers)[i] == buffers[i].0@,
        crate::image::data_views(images).len() == images.len(),
        forall|i: int|
            0 <= i < images.len() ==> {
                let seen = #[trigger] crate::image::data_views(images)[i];
                &&& seen.pixels == images[i].pixels@
                &&& seen.format == images[i].format
                &&& seen.width == images[i].width
                &&& seen.height == images[i].height
            },
        decoded@.pixels == decoded.pixels@,
        decoded@.width == decoded.width,
        decoded@.height == decoded.height,
        decoded@.channels == decoded.channels,
        decoded@.bytes_per_pixel == decoded.bytes_per_pixel,
{
}

/// What was imported is seen as it is.
pub proof fn law_imports_are_seen<D>(
    buffers: Result<Vec<buffer::Data>, Error>,
    images: Result<Vec<crate::image::Data>, Error>,
    import: Result<crate::import::Import<D>, Error>,
)
    ensures
        match buffers {
            Ok(data) => crate::import::buffers_view(buffers) == Ok::<_, ErrorView>(
                buffer::data_views(data@),
            ),
            Err(error) => crate::import::buffers_view(buffers) == Err::<Seq<Seq<u8>>, _>(error@),
        },
        match images {
            Ok(data) => crate::import::images_view(images) == Ok::<_, ErrorView>(
                crate::image::data_views(data@),
            ),
            Err(error) => crate::import::images_view(images) == Err::<Seq<DataView>, _>(error@),
        },
        match import {
            Ok((document, data, pictures)) => {
                let seen = crate::import::import_view(import);
                &&& seen is Ok
                &&& seen->Ok_0.document == document
                &&& seen->Ok_0.buffers == buffer::data_views(data@)
                &&& seen->Ok_0.images == crate::image::data_views(pictures@)
            },
            Err(error) => crate::import::import_view(import) == Err::<ImportView<D>, _>(error@),
        },
{
}

/// Buffer `at` of a document may hold `data`, and is as long as declared: the binary section, which no
/// buffer before it refers to, or what its reference comes to.
pub open spec fn buffer_may_hold<I: Importer>(
    importer: I,
    buffers: Seq<Buffer>,
    base: Option<UriView>,
    blob: Option<Seq<u8>>,
    at: int,
    data: Seq<u8>,
) -> bool {
    &&& data.len() >= buffers[at].length
    &&& buffers[at].source is Bin ==> blob is Some && data == padded(blob->0) && forall|i: int|
        0 <= i < at ==> (#[trigger] buffers[i]).source is Uri
    &&& buffers[at].source is Uri ==> buffer::source_outcome(
        importer,
        buffers[at].source,
        base,
        None,
        Ok(data),
    )
}

/// Buffer `at` of a document may be what `error` is about: it refers to a binary section that is not
/// there or was taken before, its reference fails with that very error, or what it comes to is shorter
/// than declared, which the error says.
pub open spec fn buffer_may_fail<I: Importer>(
    importer: I,
    buffers: Seq<Buffer>,
    base: Option<UriView>,
    blob: Option<Seq<u8>>,
    at: int,
    error: ErrorView,
) -> bool {
    let taken = exists|i: int| 0 <= i < at && (#[trigger] buffers[i]).source is Bin;
    match buffers[at].source {
        buffer::Source::Bin => if blob is None || taken {
            error == ErrorView::MissingBlob
        } else {
            &&& padded(blob->0).len() < buffers[at].length
            &&& error is BufferLength
            &&& error->buffer == at as usize
            &&& error->expected == buffers[at].length
            &&& error->actual == padded(blob->0).len() as usize
        },
        buffer::Source::Uri(reference) => {
            ||| buffer::source_outcome(importer, buffers[at].source, base, None, Err(error))
            ||| exists|data: Seq<u8>|
                {
                    &&& #[trigger] buffer::source_outcome(
                        importer,
                        buffers[at].source,
                        base,
                        None,
                        Ok(data),
                    )
                    &&& data.len() < buffers[at].length
                    &&& error is BufferLength
                    &&& error->buffer == at as usize
                    &&& error->expected == buffers[at].length
                    &&& error->actual == data.len() as usize
                }
        },
    }
}

proof fn lemma_blob(buffers: Seq<Buffer>, at: int, blob: Option<Seq<u8>>)
    requires
        0 <= at <= buffers.len(),
    ensures
        (exists|i: int| 0 <= i < at && (#[trigger] buffers[i]).source is Bin) ==> blob_before(
            buffers,
            at,
            blob,
        ) is None,
        !(exists|i: int| 0 <= i < at && (#[trigger] buffers[i]).source is Bin) ==> blob_before(
            buffers,
            at,
            blob,
        ) == blob,
    decreases at,
{
    if at > 0 {
        lemma_blob(buffers, at - 1, blob);
        let last = buffers[at - 1];
        if exists|i: int| 0 <= i < at - 1 && (#[trigger] buffers[i]).source is Bin {
            let i = choose|i: int| 0 <= i < at - 1 && (#[trigger] buffers[i]).source is Bin;
            assert(buffers[i].source is Bin);
        }
    }
}

proof fn lemma_may_hold<I: Importer>(
    importer: I,
    buffers: Seq<Buffer>,
    base: Option<UriView>,
    blob: Option<Seq<u8>>,
    at: int,
    data: Seq<u8>,
)
    requires
        0 <= at < buffers.len(),
        buffer_imported(importer, buffers[at], base, blob_before(buffers, at, blob), data),
    ensures
        buffer_may_hold(importer, buffers, base, blob, at, data),
{
    lemma_blob(buffers, at, blob);
}

/// Importing the buffers of a document gives every one of them, in order, each what its source comes
/// to and at least as long as declared; or it gives the error of the first that fails, after those
/// before it came to be what they are.
pub proof fn law_buffers_of_a_document<I: Importer>(
    importer: I,
    buffers: Seq<Buffer>,
    base: Option<UriView>,
    blob: Option<Seq<u8>>,
    result: Result<Seq<Seq<u8>>, ErrorView>,
)
    requires
        buffers_outcome(importer, buffers, base, blob, result),
    ensures
        match result {
            Ok(imported) => {
                &&& imported.len() == buffers.len()
                &&& forall|i: int|
                    0 <= i < buffers.len() ==> buffer_may_hold(
                        importer,
                        buffers,
                        base,
                        blob,
                        i,
                        #[trigger] imported[i],
                    )
            },
            Err(error) => exists|imported: Seq<Seq<u8>>|
                {
                    &&& imported.len() < buffers.len()
                    &&& #[trigger] buffer_may_fail(
                        importer,
                        buffers,
                        base,
                        blob,
                        imported.len() as int,
                        error,
                    )
                    &&& forall|i: int|
                        0 <= i < imported.len() ==> buffer_may_hold(
                            importer,
                            buffers,
                            base,
                            blob,
                            i,
                            #[trigger] imported[i],
                        )
                },
        },
{
    match result {
        Ok(imported) => {
            assert forall|i: int| 0 <= i < buffers.len() implies buffer_may_hold(
                importer,
                buffers,
                base,
                blob,
                i,
                #[trigger] imported[i],
            ) by {
                lemma_may_hold(importer, buffers, base, blob, i, imported[i]);
            }
        },
        Err(error) => {
            let imported = choose|imported: Seq<Seq<u8>>|
                {
                    &&& #[trigger] buffers_imported(importer, buffers, base, blob, imported)
                    &&& imported.len() < buffers.len()
                    &&& buffer_fails(importer, buffers, base, blob, imported.len() as int, error)
                };
            let at = imported.len() as int;
            lemma_blob(buffers, at, blob);
            assert forall|i: int| 0 <= i < imported.len() implies buffer_may_hold(
                importer,
                buffers,
                base,
                blob,
                i,
                #[trigger] imported[i],
            ) by {
                lemma_may_hold(importer, buffers, base, blob, i, imported[i]);
            }
            let source = buffers[at].source;
            let rest = blob_before(buffers, at, blob);
            if !buffer::source_outcome(importer, source, base, rest, Err(error)) {
                let data = choose|data: Seq<u8>|
                    {
                        &&& #[trigger] buffer::source_outcome(importer, source, base, rest, Ok(data))
                        &&& data.len() < buffers[at].length
                        &&& error == ErrorView::BufferLength {
                            buffer: at as usize,
                            expected: buffers[at].length,
                            actual: data.len() as usize,
                        }
                    };
                if source is Uri {
                    assert(buffer::source_outcome(importer, source, base, None, Ok(data)));
                }
            }
            assert(buffer_may_fail(importer, buffers, base, blob, at, error));
        },
    }
}

/// Every imported buffer holds what its source says, and no fewer bytes than declared: the binary
/// section from its first byte on, with zeros up to a multiple of four, or what its reference comes to
/// in a document at `base`.
pub proof fn law_imported_buffers_hold_their_sources<I: Importer>(
    importer: I,
    buffers: Seq<Buffer>,
    base: Option<UriView>,
    blob: Option<Seq<u8>>,
    imported: Seq<Seq<u8>>,
    at: int,
)
    requires
        buffers_outcome(importer, buffers, base, blob, Ok(imported)),
        0 <= at < buffers.len(),
    ensures
        imported.len() == buffers.len(),
        imported[at].len() >= buffers[at].length,
        buffers[at].source is Bin ==> {
            &&& blob is Some
            &&& blob->0.len() <= imported[at].len() < blob->0.len() + 4
            &&& imported[at].len() % 4 == 0
            &&& forall|i: int| 0 <= i < blob->0.len() ==> #[trigger] imported[at][i] == blob->0[i]
            &&& forall|i: int|
                blob->0.len() <= i < imported[at].len() ==> #[trigger] imported[at][i] == 0
        },
        buffers[at].source matches buffer::Source::Uri(reference) ==> {
            &&& resolved(reference@, base) is Ok
            &&& exists|loaded: Loaded|
                {
                    &&& #[trigger] load_outcome(
                        importer,
                        resolved(reference@, base)->Ok_0,
                        Ok(loaded),
                    )
                    &&& loaded.content is Ok
                    &&& imported[at] == padded(loaded.content->Ok_0)
                }
        },
{
    law_buffers_of_a_document(importer, buffers, base, blob, Ok(imported));
    assert(buffer_may_hold(importer, buffers, base, blob, at, imported[at]));
    if let buffer::Source::Uri(reference) = buffers[at].source {
        let target = resolved(reference@, base)->Ok_0;
        let loaded = choose|loaded: Result<Loaded, ErrorView>|
            #[trigger] load_outcome(importer, target, loaded) && Ok::<_, ErrorView>(imported[at])
                == buffer::loaded_data(loaded);
        assert(load_outcome(importer, target, Ok(loaded->Ok_0)));
    }
}

/// The binary section is missing only where a buffer refers to it and there is none, where two buffers
/// refer to it, or where the importer says so of itself.
pub proof fn law_missing_binary_sections<I: Importer>(
    importer: I,
    buffers: Seq<Buffer>,
    base: Option<UriView>,
    blob: Option<Seq<u8>>,
)
    requires
        buffers_outcome(importer, buffers, base, blob, Err(ErrorView::MissingBlob)),
    ensures
        ({
            ||| blob is None && exists|i: int|
                0 <= i < buffers.len() && (#[trigger] buffers[i]).source is Bin
            ||| exists|i: int, j: int|
                0 <= i < j < buffers.len() && (#[trigger] buffers[i]).source is Bin && (
                #[trigger] buffers[j]).source is Bin
            ||| exists|uri: UriView, opened: Result<I::Opened, Error>| #[trigger]
                importer.may_open(uri, opened) && opened is Err && opened->Err_0 is MissingBlob
        }),
{
    law_buffers_of_a_document(importer, buffers, base, blob, Err(ErrorView::MissingBlob));
    let imported = choose|imported: Seq<Seq<u8>>|
        {
            &&& imported.len() < buffers.len()
            &&& #[trigger] buffer_may_fail(
                importer,
                buffers,
                base,
                blob,
                imported.len() as int,
                ErrorView::MissingBlob,
            )
        };
    let at = imported.len() as int;
    match buffers[at].source {
        buffer::Source::Bin => {
            assert(buffers[at].source is Bin);
        },
        buffer::Source::Uri(reference) => {
            law_references_are_owed(
                importer,
                reference,
                base,
                None,
                Err(ErrorView::MissingBlob),
            );
            crate::guarantees::law_references(reference@, base);
        },
    }
}

/// A buffer that refers to the binary section does not fail, if that is there, is long enough, and no
/// other buffer refers to it: whatever fails is another buffer. Where it is the only buffer, the
/// import succeeds with the padded section.
pub proof fn law_the_binary_section_suffices<I: Importer>(
    importer: I,
    buffers: Seq<Buffer>,
    base: Option<UriView>,
    bytes: Seq<u8>,
    at: int,
    result: Result<Seq<Seq<u8>>, ErrorView>,
)
    requires
        0 <= at < buffers.len(),
        buffers[at].source is Bin,
        forall|i: int| 0 <= i < buffers.len() && i != at ==> (#[trigger] buffers[i]).source is Uri,
        bytes.len() >= buffers[at].length,
        buffers_outcome(importer, buffers, base, Some(bytes), result),
    ensures
        result matches Ok(imported) ==> imported.len() == buffers.len() && imported[at] == padded(
            bytes,
        ),
        result matches Err(error) ==> exists|other: int|
            0 <= other < buffers.len() && other != at && #[trigger] buffer_may_fail(
                importer,
                buffers,
                base,
                Some(bytes),
                other,
                error,
            ),
        buffers.len() == 1 ==> result == Ok::<_, ErrorView>(seq![padded(bytes)]),
{
    law_buffers_of_a_document(importer, buffers, base, Some(bytes), result);
    crate::laws::law_padding(bytes);
    match result {
        Ok(imported) => {
            assert(buffer_may_hold(importer, buffers, base, Some(bytes), at, imported[at]));
            if buffers.len() == 1 {
                assert(imported =~= seq![padded(bytes)]);
            }
        },
        Err(error) => {
            let imported = choose|imported: Seq<Seq<u8>>|
                {
                    &&& imported.len() < buffers.len()
                    &&& #[trigger] buffer_may_fail(
                        importer,
                        buffers,
                        base,
                        Some(bytes),
                        imported.len() as int,
                        error,
                    )
                    &&& forall|i: int|
                        0 <= i < imported.len() ==> buffer_may_hold(
                            importer,
                            buffers,
                            base,
                            Some(bytes),
                            i,
                            #[trigger] imported[i],
                        )
                };
            assert(imported.len() as int != at);
        },
    }
}

/// Image `at` of a document may be what `error` is about: a view that does not fit, or a source that
/// fails with that very error.
pub open spec fn image_may_fail<I: Importer>(
    importer: I,
    images: Seq<Image>,
    base: Option<UriView>,
    buffers: Seq<Seq<u8>>,
    at: int,
    error: ErrorView,
) -> bool {
    match images[at].source {
        crate::image::Source::View { view, mime_type } if !(view.buffer < buffers.len()
            && view.offset + view.length <= buffers[view.buffer as int].len()) => {
            error is ViewOutOfBounds && error->image == at as usize
        },
        _ => crate::image::source_outcome(importer, images[at].source, base, buffers, Err(error)),
    }
}

/// Importing the images of a document gives every one of them, in order, each what its source comes
/// to, with every view inside its buffer; or it gives the error of the first that fails, after those
/// before it came to be what they are.
pub proof fn law_images_of_a_document<I: Importer>(
    importer: I,
    images: Seq<Image>,
    base: Option<UriView>,
    buffers: Seq<Seq<u8>>,
    result: Result<Seq<DataView>, ErrorView>,
)
    requires
        images_outcome(importer, images, base, buffers, result),
    ensures
        match result {
            Ok(imported) => {
                &&& imported.len() == images.len()
                &&& forall|i: int|
                    0 <= i < images.len() ==> crate::image::source_outcome(
                        importer,
                        images[i].source,
                        base,
                        buffers,
                        Ok(#[trigger] imported[i]),
                    ) && crate::image::source_fits(images[i].source, buffers)
            },
            Err(error) => exists|imported: Seq<DataView>|
                {
                    &&& imported.len() < images.len()
                    &&& #[trigger] image_may_fail(
                        importer,
                        images,
                        base,
                        buffers,
                        imported.len() as int,
                        error,
                    )
                    &&& forall|i: int|
                        0 <= i < imported.len() ==> crate::image::source_outcome(
                            importer,
                            images[i].source,
                            base,
                            buffers,
                            Ok(#[trigger] imported[i]),
                        ) && crate::image::source_fits(images[i].source, buffers)
                },
        },
{
    match result {
        Ok(imported) => {
            assert forall|i: int| 0 <= i < images.len() implies crate::image::source_outcome(
                importer,
                images[i].source,
                base,
                buffers,
                Ok(#[trigger] imported[i]),
            ) && crate::image::source_fits(images[i].source, buffers) by {
                assert(image_imported(importer, images[i].source, base, buffers, imported[i]));
            }
        },
        Err(error) => {
            let imported = choose|imported: Seq<DataView>|
                {
                    &&& #[trigger] images_imported(importer, images, base, buffers, imported)
                    &&& imported.len() < images.len()
                    &&& image_fails(importer, images, base, buffers, imported.len() as int, error)
                };
            assert forall|i: int| 0 <= i < imported.len() implies crate::image::source_outcome(
                importer,
                images[i].source,
                base,
                buffers,
                Ok(#[trigger] imported[i]),
            ) && crate::image::source_fits(images[i].source, buffers) by {
                assert(image_imported(importer, images[i].source, base, buffers, imported[i]));
            }
            assert(image_may_fail(
                importer,
                images,
                base,
                buffers,
                imported.len() as int,
                error,
            ));
        },
    }
}

/// Importing the resources of a document gives back the document with its buffers and its images, the
/// images made with these very buffers; or it gives the error of the buffers, and else that of the
/// images.
pub proof fn law_resources_of_a_document<I: Importer, D>(
    importer: I,
    gltf: Gltf<D>,
    base: Option<UriView>,
    import: Result<ImportView<D>, ErrorView>,
)
    requires
        resources_outcome(importer, gltf, base, import),
    ensures
        match import {
            Ok(view) => {
                &&& view.document == gltf.document
                &&& buffers_outcome(
                    importer,
                    gltf.document.buffers@,
                    base,
                    opt_bytes(gltf.blob),
                    Ok(view.buffers),
                )
                &&& images_outcome(
                    importer,
                    gltf.document.images@,
                    base,
                    view.buffers,
                    Ok(view.images),
                )
            },
            Err(error) => {
                ||| buffers_outcome(
                    importer,
                    gltf.document.buffers@,
                    base,
                    opt_bytes(gltf.blob),
                    Err(error),
                )
                ||| exists|imported: Seq<Seq<u8>>|
                    {
                        &&& #[trigger] buffers_outcome(
                            importer,
                            gltf.document.buffers@,
                            base,
                            opt_bytes(gltf.blob),
                            Ok(imported),
                        )
                        &&& images_outcome(
                            importer,
                            gltf.document.images@,
                            base,
                            imported,
                            Err(error),
                        )
                    }
            },
        },
{
}

/// A document comes of its bytes, all of them and as they are: what the parser makes of them has its
/// resources imported at `base`, and what it refuses is refused for the parser's reason.
pub proof fn law_parsed_documents<I: Importer, D, P: Fn(Vec<u8>) -> Result<Gltf<D>, Error>>(
    importer: I,
    parse: P,
    bytes: Seq<u8>,
    base: Option<UriView>,
    import: Result<ImportView<D>, ErrorView>,
)
    requires
        parse_outcome(importer, parse, bytes, base, import),
    ensures
        exists|argument: Vec<u8>, parsed: Result<Gltf<D>, Error>|
            argument@ == bytes && #[trigger] call_ensures(parse, (argument,), parsed)
                && match parsed {
                Ok(gltf) => resources_outcome(importer, gltf, base, import),
                Err(error) => import == Err::<ImportView<D>, _>(error@),
            },
{
}

/// A document at a URL is read through that URL, whatever it holds, and what the parser makes of its
/// bytes has its resources imported with that URL as their base.
pub proof fn law_documents_by_url<I: Importer, D, P: Fn(Vec<u8>) -> Result<Gltf<D>, Error>>(
    importer: I,
    parse: P,
    uri: UriView,
    import: Result<ImportView<D>, ErrorView>,
)
    requires
        import_outcome(importer, parse, uri, import),
    ensures
        exists|bytes: Result<Seq<u8>, ErrorView>| #[trigger]
            read_outcome(importer, uri, bytes) && match bytes {
                Err(error) => import == Err::<ImportView<D>, _>(error),
                Ok(read) => exists|argument: Vec<u8>, parsed: Result<Gltf<D>, Error>|
                    argument@ == read && #[trigger] call_ensures(parse, (argument,), parsed)
                        && match parsed {
                        Ok(gltf) => resources_outcome(importer, gltf, Some(uri), import),
                        Err(error) => import == Err::<ImportView<D>, _>(error@),
                    },
            },
{
}

/// A relative reference in a document at a URL is resolved against that URL, however long the document
/// is: a buffer holds, padded, what the joined URL loads as, and an image is made of that.
pub proof fn law_relative_references_in_a_document<
    I: Importer,
    D,
    P: Fn(Vec<u8>) -> Result<Gltf<D>, Error>,
>(importer: I, parse: P, uri: UriView, view: ImportView<D>, at: int, reference: String)
    requires
        import_outcome(importer, parse, uri, Ok(view)),
        parsed_uri(reference@) == Err::<UriView, _>(UriError::RelativeUrlWithoutBase),
    ensures
        0 <= at < view.document.buffers@.len() && view.document.buffers@[at].source
            == buffer::Source::Uri(reference) ==> joined_uri(uri.text, reference@) is Ok && exists|
            loaded: Loaded,
        |
            {
                &&& #[trigger] load_outcome(
                    importer,
                    joined_uri(uri.text, reference@)->Ok_0,
                    Ok(loaded),
                )
                &&& loaded.content is Ok
                &&& view.buffers[at] == padded(loaded.content->Ok_0)
            },
        0 <= at < view.document.images@.len() && (view.document.images@[at].source
            matches crate::image::Source::Uri { uri: named, mime_type } && named == reference)
            ==> joined_uri(uri.text, reference@) is Ok && exists|loaded: Loaded|
            {
                &&& #[trigger] load_outcome(
                    importer,
                    joined_uri(uri.text, reference@)->Ok_0,
                    Ok(loaded),
                )
                &&& loaded.content is Ok
                &&& encoded_outcome(
                    importer.accepts(),
                    if loaded.media_type is Some {
                        loaded.media_type
                    } else {
                        opt_string(view.document.images@[at].source->Uri_mime_type)
                    },
                    loaded.content->Ok_0,
                    Ok(view.images[at]),
                )
            },
{
    law_documents_by_url(importer, parse, uri, Ok(view));
    let gltf = choose|gltf: Gltf<D>|
        #[trigger] resources_outcome(importer, gltf, Some(uri), Ok(view));
    assert(exists|gltf: Gltf<D>|
        #[trigger] resources_outcome(importer, gltf, Some(uri), Ok(view)));
    let base = Some(uri);
    let buffers = gltf.document.buffers@;
    let images = gltf.document.images@;
    let blob = opt_bytes(gltf.blob);
    if 0 <= at < buffers.len() && buffers[at].source == buffer::Source::Uri(reference) {
        law_buffers_of_a_document(importer, buffers, base, blob, Ok(view.buffers));
        assert(buffer_may_hold(importer, buffers, base, blob, at, view.buffers[at]));
        let target = resolved(reference@, base)->Ok_0;
        let loaded = choose|loaded: Result<Loaded, ErrorView>|
            #[trigger] load_outcome(importer, target, loaded) && Ok::<_, ErrorView>(
                view.buffers[at],
            ) == buffer::loaded_data(loaded);
        assert(load_outcome(importer, target, Ok(loaded->Ok_0)));
    }
    if 0 <= at < images.len() && (images[at].source matches crate::image::Source::Uri {
        uri: named,
        mime_type,
    } && named == reference) {
        law_images_of_a_document(importer, images, base, view.buffers, Ok(view.images));
        assert(crate::image::source_outcome(
            importer,
            images[at].source,
            base,
            view.buffers,
            Ok(view.images[at]),
        ));
        let given = opt_string(images[at].source->Uri_mime_type);
        let target = resolved(reference@, base)->Ok_0;
        let loaded = choose|loaded: Result<Loaded, ErrorView>|
            #[trigger] load_outcome(importer, target, loaded)
                && crate::image::loaded_image_outcome(
                importer.accepts(),
                given,
                loaded,
                Ok(view.images[at]),
            );
        assert(load_outcome(importer, target, Ok(loaded->Ok_0)));
    }
}

/// The importer and the parser do not themselves speak of references without a base.
pub open spec fn speaks_of_no_slice<I: Importer, D, P: Fn(Vec<u8>) -> Result<Gltf<D>, Error>>(
    importer: I,
    parse: P,
) -> bool {
    &&& forall|uri: UriView, opened: Result<I::Opened, Error>| #[trigger]
        importer.may_open(uri, opened) && opened is Err ==> !(opened->Err_0
            is ExternalReferenceInSliceImport)
    &&& forall|uri: UriView, opened: Result<I::Seekable, Error>| #[trigger]
        importer.may_open_seekable(uri, opened) && opened is Err ==> !(opened->Err_0
            is ExternalReferenceInSliceImport)
    &&& forall|argument: Vec<u8>, parsed: Result<Gltf<D>, Error>| #[trigger]
        call_ensures(parse, (argument,), parsed) && parsed is Err ==> !(parsed->Err_0
            is ExternalReferenceInSliceImport)
}

/// In a document that was imported by its URL, no reference is refused for want of a base, unless the
/// importer or the parser says so of itself.
pub proof fn law_documents_have_a_base<I: Importer, D, P: Fn(Vec<u8>) -> Result<Gltf<D>, Error>>(
    importer: I,
    parse: P,
    uri: UriView,
    error: ErrorView,
)
    requires
        speaks_of_no_slice(importer, parse),
        import_outcome(importer, parse, uri, Err(error)),
    ensures
        !(error is ExternalReferenceInSliceImport),
{
    law_documents_by_url(importer, parse, uri, Err(error));
    let bytes = choose|bytes: Result<Seq<u8>, ErrorView>| #[trigger]
        read_outcome(importer, uri, bytes) && read_import_outcome(
            importer,
            parse,
            uri,
            bytes,
            Err(error),
        );
    match bytes {
        Err(_) => {
            crate::guarantees::law_reading_documents(importer, uri, bytes);
        },
        Ok(read) => {
            let (argument, parsed) = choose|argument: Vec<u8>, parsed: Result<Gltf<D>, Error>|
                argument@ == read && #[trigger] call_ensures(parse, (argument,), parsed)
                    && match parsed {
                    Ok(gltf) => resources_outcome(importer, gltf, Some(uri), Err(error)),
                    Err(refusal) => Err::<ImportView<D>, _>(error) == Err::<ImportView<D>, _>(
                        refusal@,
                    ),
                };
            if let Ok(gltf) = parsed {
                lemma_resources_have_a_base(importer, parse, gltf, uri, error);
            }
        },
    }
}

proof fn lemma_resources_have_a_base<
    I: Importer,
    D,
    P: Fn(Vec<u8>) -> Result<Gltf<D>, Error>,
>(importer: I, parse: P, gltf: Gltf<D>, uri: UriView, error: ErrorView)
    requires
        speaks_of_no_slice(importer, parse),
        resources_outcome(importer, gltf, Some(uri), Err(error)),
    ensures
        !(error is ExternalReferenceInSliceImport),
{
    let base = Some(uri);
    let buffers = gltf.document.buffers@;
    let images = gltf.document.images@;
    let blob = opt_bytes(gltf.blob);
    if buffers_outcome(importer, buffers, base, blob, Err(error)) {
        law_buffers_of_a_document(importer, buffers, base, blob, Err(error));
        let imported = choose|imported: Seq<Seq<u8>>|
            {
                &&& imported.len() < buffers.len()
                &&& #[trigger] buffer_may_fail(
                    importer,
                    buffers,
                    base,
                    blob,
                    imported.len() as int,
                    error,
                )
            };
        let at = imported.len() as int;
        if let buffer::Source::Uri(reference) = buffers[at].source {
            if buffer::source_outcome(importer, buffers[at].source, base, None, Err(error)) {
                law_references_are_owed(importer, reference, base, None, Err(error));
                crate::guarantees::law_references(reference@, base);
            }
        }
    } else {
        let data = choose|imported: Seq<Seq<u8>>|
            {
                &&& #[trigger] buffers_outcome(importer, buffers, base, blob, Ok(imported))
                &&& images_outcome(importer, images, base, imported, Err(error))
            };
        law_images_of_a_document(importer, images, base, data, Err(error));
        let imported = choose|imported: Seq<DataView>|
            {
                &&& imported.len() < images.len()
                &&& #[trigger] image_may_fail(
                    importer,
                    images,
                    base,
                    data,
                    imported.len() as int,
                    error,
                )
            };
        let at = imported.len() as int;
        if crate::image::source_outcome(importer, images[at].source, base, data, Err(error)) {
            match images[at].source {
                crate::image::Source::Uri { uri: reference, mime_type } => {
                    law_image_references_are_owed(
                        importer,
                        reference,
                        mime_type,
                        base,
                        data,
                        Err(error),
                    );
                    crate::guarantees::law_references(reference@, base);
                },
                crate::image::Source::View { view, mime_type } => {},
            }
        }
    }
}

/// A document at a path is the document at the path's URL, and where the path has none the import
/// fails for that.
pub proof fn law_documents_by_path<I: Importer, D, P: Fn(Vec<u8>) -> Result<Gltf<D>, Error>>(
    importer: I,
    parse: P,
    path: Seq<u8>,
    current_dir: Result<Seq<u8>, std::io::Error>,
    import: Result<ImportView<D>, ErrorView>,
)
    requires
        import_path_outcome(importer, parse, path, current_dir, import),
    ensures
        ({
            ||| exists|uri: UriView| #[trigger]
                path_uri_outcome(Some(path), false, current_dir, Ok(Some(uri))) && import_outcome(
                    importer,
                    parse,
                    uri,
                    import,
                )
            ||| exists|error: ErrorView| #[trigger]
                path_uri_outcome(Some(path), false, current_dir, Err(error)) && import == Err::<
                    ImportView<D>,
                    _,
                >(error)
        }),
{
    let uri = choose|uri: Result<Option<UriView>, ErrorView>|
        #[trigger] path_uri_outcome(Some(path), false, current_dir, uri) && match uri {
            Ok(uri) => import_outcome(importer, parse, uri->0, import),
            Err(error) => import == Err::<ImportView<D>, _>(error),
        };
    match uri {
        Ok(found) => {
            law_urls_of_paths(Some(path), false, current_dir, uri);
            assert(path_uri_outcome(Some(path), false, current_dir, Ok(Some(found->0))));
        },
        Err(error) => {
            assert(path_uri_outcome(Some(path), false, current_dir, Err(error)));
        },
    }
}

/// A document from a slice comes of the bytes of the slice, with the URL of the current directory as
/// its base where there is one.
pub proof fn law_documents_by_slice<I: Importer, D, P: Fn(Vec<u8>) -> Result<Gltf<D>, Error>>(
    importer: I,
    parse: P,
    slice: Seq<u8>,
    current_dir: Result<Seq<u8>, std::io::Error>,
    import: Result<ImportView<D>, ErrorView>,
)
    requires
        import_slice_outcome(importer, parse, slice, current_dir, import),
    ensures
        exists|base: Option<UriView>, argument: Vec<u8>, parsed: Result<Gltf<D>, Error>|
            {
                &&& #[trigger] slice_base_outcome(current_dir, base)
                &&& argument@ == slice
                &&& #[trigger] call_ensures(parse, (argument,), parsed)
                &&& match parsed {
                    Ok(gltf) => resources_outcome(importer, gltf, base, import),
                    Err(error) => import == Err::<ImportView<D>, _>(error@),
                }
            },
{
}

/// The buffers of a document with its file at a path have the path's URL as their base.
pub proof fn law_buffers_by_path<I: Importer>(
    importer: I,
    buffers: Seq<Buffer>,
    base: Option<Seq<u8>>,
    current_dir: Result<Seq<u8>, std::io::Error>,
    blob: Option<Seq<u8>>,
    result: Result<Seq<Seq<u8>>, ErrorView>,
)
    requires
        path_buffers_outcome(importer, buffers, base, current_dir, blob, result),
    ensures
        exists|uri: Result<Option<UriView>, ErrorView>| #[trigger]
            path_uri_outcome(base, false, current_dir, uri) && match uri {
                Err(error) => result == Err::<Seq<Seq<u8>>, _>(error),
                Ok(place) => buffers_outcome(importer, buffers, place, blob, result),
            },
{
}

/// The images of a document with its file at a path have the path's URL as their base.
pub proof fn law_images_by_path<I: Importer>(
    importer: I,
    images: Seq<Image>,
    base: Option<Seq<u8>>,
    current_dir: Result<Seq<u8>, std::io::Error>,
    buffers: Seq<Seq<u8>>,
    result: Result<Seq<DataView>, ErrorView>,
)
    requires
        path_images_outcome(importer, images, base, current_dir, buffers, result),
    ensures
        exists|uri: Result<Option<UriView>, ErrorView>| #[trigger]
            path_uri_outcome(base, false, current_dir, uri) && match uri {
                Err(error) => result == Err::<Seq<DataView>, _>(error),
                Ok(place) => images_outcome(importer, images, place, buffers, result),
            },
{
}

} // verus!
