//! What holds of importing as a whole.
use crate::buffer;
use crate::buffer::{loaded_data, padded, Buffer};
use crate::cursor::{CursorView, SeekFrom};
use crate::document::{Document, Gltf};
use crate::error::{outcome, Error, ErrorView, UriError};
use crate::features::Features;
use crate::image::{
    chosen_format, decode_outcome, decoded_data_outcome, encoded_outcome, first_of,
    loaded_image_outcome, pixel_size, DataView, DecodedImageView, Image, ImageFormat,
};
use crate::import::{
    blob_before, buffer_fails, buffer_imported, buffers_imported, buffers_outcome, image_fails,
    image_imported, images_imported, images_outcome, import_path_outcome, import_slice_outcome,
    parse_outcome, path_buffers_outcome, path_images_outcome, read_import_outcome,
    resources_outcome, ImportView,
};
use crate::importer::{
    default_outcome, load_outcome, opened_as, read_outcome, DefaultImporter, Importer, Loaded,
};
use crate::path::{
    absolute_path_outcome, absolute_uri_outcome, after_last, name_extension, path_uri_outcome,
    slice_base_outcome, DOT, SEPARATOR,
};
use crate::resource::{
    data_parts, data_resource, file_outcome, file_resource, may_open_file, name_media_type,
    opt_string, wrap_outcome, DataResource, DefaultResource, DefaultResourceView, FileView,
    Resource, ResourceView, SeekableWrapper,
};
use crate::stream::{Read, Seek};
use crate::text::{first_occurrence, lemma_split_at_first, occurs_at};
use crate::uri::{
    absolute_outcome, file_name_outcome, file_path_outcome, is_relative, joined_path_outcome,
    joined_uri, names_no_host, opt_bytes, parsed_uri, plain_path, resolved, same_path, turns_back,
    UriView,
};
use vstd::prelude::*;
use vstd::utf8::*;

verus! {

/// Padding keeps the bytes, adds at most three zeros, and makes the length a multiple of four.
/// Bytes that have such a length already, padded ones among them, are kept as they are.
pub proof fn law_padding(bytes: Seq<u8>)
    ensures
        padded(bytes).len() % 4 == 0,
        bytes.len() <= padded(bytes).len() < bytes.len() + 4,
        padded(bytes).take(bytes.len() as int) == bytes,
        forall|i: int| bytes.len() <= i < padded(bytes).len() ==> padded(bytes)[i] == 0,
        bytes.len() % 4 == 0 ==> padded(bytes) == bytes,
        padded(padded(bytes)) == padded(bytes),
{
    assert(padded(bytes).take(bytes.len() as int) =~= bytes);
    assert(bytes.len() % 4 == 0 ==> padded(bytes) =~= bytes);
    assert(padded(padded(bytes)) =~= padded(bytes));
}

/// Whatever a buffer comes from, what it comes to hold was padded.
proof fn lemma_source_is_padded<I: Importer>(
    importer: I,
    source: buffer::Source,
    base: Option<UriView>,
    blob: Option<Seq<u8>>,
    data: Seq<u8>,
)
    requires
        buffer::source_outcome(importer, source, base, blob, Ok(data)),
    ensures
        data.len() % 4 == 0,
{
    match source {
        buffer::Source::Bin => {
            law_padding(blob->0);
        },
        buffer::Source::Uri(reference) => {
            let uri = resolved(reference@, base)->Ok_0;
            let loaded = choose|loaded: Result<Loaded, ErrorView>|
                #[trigger] load_outcome(importer, uri, loaded) && Ok::<_, ErrorView>(data)
                    == loaded_data(loaded);
            law_padding(loaded->Ok_0.content->Ok_0);
        },
    }
}

/// Where the buffers of a document could be imported, there is one for each that the document
/// declares, in the same order, at least as long as declared, and its length is a multiple of
/// four.
pub proof fn law_imported_buffers<I: Importer>(
    importer: I,
    buffers: Seq<Buffer>,
    base: Option<UriView>,
    blob: Option<Seq<u8>>,
    imported: Seq<Seq<u8>>,
)
    requires
        buffers_outcome(importer, buffers, base, blob, Ok(imported)),
    ensures
        imported.len() == buffers.len(),
        forall|i: int|
            0 <= i < imported.len() ==> (#[trigger] imported[i]).len() % 4 == 0 && imported[i].len()
                >= buffers[i].length,
{
    assert forall|i: int| 0 <= i < imported.len() implies (#[trigger] imported[i]).len() % 4 == 0
        && imported[i].len() >= buffers[i].length by {
        assert(buffer_imported(
            importer,
            buffers[i],
            base,
            blob_before(buffers, i, blob),
            imported[i],
        ));
        lemma_source_is_padded(
            importer,
            buffers[i].source,
            base,
            blob_before(buffers, i, blob),
            imported[i],
        );
    }
}

/// The binary section stays until a buffer takes it, and is gone after that.
proof fn lemma_blob_before<B>(buffers: Seq<Buffer>, at: int, blob: Option<B>)
    requires
        0 <= at <= buffers.len(),
    ensures
        blob_before(buffers, at, blob) == if exists|i: int|
            0 <= i < at && (#[trigger] buffers[i]).source is Bin {
            None
        } else {
            blob
        },
    decreases at,
{
    if at > 0 {
        lemma_blob_before(buffers, at - 1, blob);
        let last = buffers[at - 1];
        if exists|i: int| 0 <= i < at - 1 && (#[trigger] buffers[i]).source is Bin {
            let i = choose|i: int| 0 <= i < at - 1 && (#[trigger] buffers[i]).source is Bin;
            assert(buffers[i].source is Bin);
        }
    }
}

/// The binary section fills one buffer only. Where the buffers of a document could be imported, a
/// buffer that refers to the binary section holds it, padded, and no other buffer refers to it.
pub proof fn law_blob_fills_one_buffer<I: Importer>(
    importer: I,
    buffers: Seq<Buffer>,
    base: Option<UriView>,
    blob: Option<Seq<u8>>,
    imported: Seq<Seq<u8>>,
    at: int,
)
    requires
        buffers_outcome(importer, buffers, base, blob, Ok(imported)),
        0 <= at < buffers.len(),
        buffers[at].source is Bin,
    ensures
        blob is Some,
        imported[at] == padded(blob->0),
        forall|i: int| 0 <= i < buffers.len() && i != at ==> (#[trigger] buffers[i]).source is Uri,
{
    assert(buffer_imported(
        importer,
        buffers[at],
        base,
        blob_before(buffers, at, blob),
        imported[at],
    ));
    lemma_blob_before(buffers, at, blob);
    assert forall|i: int| 0 <= i < buffers.len() && i != at implies (
    #[trigger] buffers[i]).source is Uri by {
        if buffers[i].source is Bin && i > at {
            lemma_blob_before(buffers, i, blob);
            assert(buffer_imported(
                importer,
                buffers[i],
                base,
                blob_before(buffers, i, blob),
                imported[i],
            ));
        }
    }
}

/// An absolute reference means the same in every document.
pub proof fn law_absolute_references_ignore_the_base(
    uri: Seq<char>,
    base: Option<UriView>,
    other: Option<UriView>,
)
    requires
        parsed_uri(uri) is Ok,
    ensures
        resolved(uri, base) == resolved(uri, other),
        resolved(uri, base)->Ok_0 == parsed_uri(uri)->Ok_0,
        resolved(uri, base) is Ok,
{
}

/// A relative reference goes by the text of its base, and means nothing without one.
pub proof fn law_relative_references_need_a_base(uri: Seq<char>, base: UriView)
    requires
        parsed_uri(uri) == Err::<UriView, _>(UriError::RelativeUrlWithoutBase),
    ensures
        resolved(uri, None) == Err::<UriView, _>(ErrorView::ExternalReferenceInSliceImport),
        match joined_uri(base.text, uri) {
            Ok(joined) => resolved(uri, Some(base)) == Ok::<_, ErrorView>(joined),
            Err(error) => resolved(uri, Some(base)) == Err::<UriView, _>(ErrorView::Uri(error)),
        },
{
}

/// A document without a place of its own can be imported only where all its references are
/// absolute.
pub proof fn law_slice_import_needs_absolute_references<
    I: Importer,
    D,
    P: Fn(Vec<u8>) -> Result<Gltf<D>, Error>,
>(importer: I, parse: P, bytes: Seq<u8>, view: ImportView<D>)
    requires
        parse_outcome(importer, parse, bytes, None, Ok(view)),
    ensures
        forall|i: int|
            0 <= i < view.document.buffers@.len() ==> ((
            #[trigger] view.document.buffers@[i]).source matches buffer::Source::Uri(reference)
                ==> parsed_uri(reference@) is Ok),
        forall|i: int|
            0 <= i < view.document.images@.len() ==> ((
            #[trigger] view.document.images@[i]).source matches crate::image::Source::Uri {
                uri,
                mime_type,
            } ==> parsed_uri(uri@) is Ok),
{
    assert forall|i: int| 0 <= i < view.document.buffers@.len() implies ((
    #[trigger] view.document.buffers@[i]).source matches buffer::Source::Uri(reference)
        ==> parsed_uri(reference@) is Ok) by {
        assert(exists|blob: Option<Seq<u8>>|
            buffer_imported(importer, view.document.buffers@[i], None, blob, view.buffers[i])) by {
            let (argument, parsed) = choose|argument: Vec<u8>, parsed: Result<Gltf<D>, Error>|
                argument@ == bytes && #[trigger] call_ensures(parse, (argument,), parsed)
                    && match parsed {
                    Ok(gltf) => resources_outcome(importer, gltf, None, Ok(view)),
                    Err(error) => Ok::<_, ErrorView>(view) == Err::<ImportView<D>, _>(error@),
                };
            let blob = opt_bytes(parsed->Ok_0.blob);
            assert(buffer_imported(
                importer,
                view.document.buffers@[i],
                None,
                blob_before(view.document.buffers@, i, blob),
                view.buffers[i],
            ));
        }
    }
    assert forall|i: int| 0 <= i < view.document.images@.len() implies ((
    #[trigger] view.document.images@[i]).source matches crate::image::Source::Uri { uri, mime_type }
        ==> parsed_uri(uri@) is Ok) by {
        assert(image_imported(
            importer,
            view.document.images@[i].source,
            None,
            view.buffers,
            view.images[i],
        ));
    }
}

/// A document without a place of its own is refused for a relative reference as soon as that is
/// met: where its first buffer is one, nothing else comes back.
pub proof fn law_slice_import_refuses_a_relative_reference<I: Importer, D>(
    importer: I,
    gltf: Gltf<D>,
    reference: String,
    import: Result<ImportView<D>, ErrorView>,
)
    requires
        gltf.document.buffers@.len() > 0,
        gltf.document.buffers@[0].source == buffer::Source::Uri(reference),
        parsed_uri(reference@) == Err::<UriView, _>(UriError::RelativeUrlWithoutBase),
        resources_outcome(importer, gltf, None, import),
    ensures
        import == Err::<ImportView<D>, _>(ErrorView::ExternalReferenceInSliceImport),
{
    let buffers = gltf.document.buffers@;
    let blob = opt_bytes(gltf.blob);
    assert forall|imported: Seq<Seq<u8>>|
        #[trigger] buffers_imported(importer, buffers, None, blob, imported) implies imported.len()
        == 0 by {
        if imported.len() > 0 {
            assert(buffer_imported(
                importer,
                buffers[0],
                None,
                blob_before(buffers, 0, blob),
                imported[0],
            ));
        }
    }
}

/// A default importer that can try to open any path can be asked to open any URL.
pub proof fn law_default_importer_is_ready<
    H: Read + Seek,
    O: Fn(Vec<u8>) -> Result<H, std::io::Error>,
>(
    importer: DefaultImporter<O>,
)
    requires
        importer.opens_any_path(),
    ensures
        importer.ready(),
{
}

/// The default importer decodes a `data` URL and opens no file.
pub proof fn law_data_urls_are_decoded<
    H: Read + Seek,
    O: Fn(Vec<u8>) -> Result<H, std::io::Error>,
>(
    importer: DefaultImporter<O>,
    uri: UriView,
    loaded: Result<Loaded, ErrorView>,
)
    requires
        uri.scheme == "data"@,
        load_outcome(importer, uri, loaded),
    ensures
        loaded == match data_resource(uri.path) {
            Ok(resource) => Ok(
                Loaded { media_type: resource.media_type, content: Ok(resource.data.bytes) },
            ),
            Err(error) => Err(error),
        },
{
    let opened = choose|opened: Result<DefaultResource<H>, Error>|
        #[trigger] importer.may_open(uri, opened) && opened_as(opened, loaded);
    assert(default_outcome(importer, uri, outcome(opened)));
}

/// The default importer opens the path of a `file` URL, reads the file to the end, and takes the
/// media type from the extension of its name.
pub proof fn law_file_urls_are_read<
    H: Read + Seek,
    O: Fn(Vec<u8>) -> Result<H, std::io::Error>,
>(importer: DefaultImporter<O>, uri: UriView, loaded: Result<Loaded, ErrorView>)
    requires
        uri.scheme == "file"@,
        load_outcome(importer, uri, loaded),
    ensures
        ({
            ||| file_path_outcome(uri.text, None) && loaded == Err::<Loaded, _>(
                ErrorView::UnsupportedScheme,
            )
            ||| exists|path: Seq<u8>, name: Option<Seq<u8>>, opened: Result<H, std::io::Error>|
                {
                    &&& file_path_outcome(uri.text, Some(path))
                    &&& #[trigger] file_name_outcome(path, name)
                    &&& #[trigger] may_open_file(importer.open_file, path, opened)
                    &&& file_loaded(name, importer.features, opened, loaded)
                }
        }),
{
    reveal_strlit("data");
    reveal_strlit("file");
    assert("data"@[0] != "file"@[0]);
    let first = choose|first: Result<DefaultResource<H>, Error>|
        #[trigger] importer.may_open(uri, first) && opened_as(first, loaded);
    assert(default_outcome(importer, uri, outcome(first)));
    let resource = choose|resource: Result<FileView<H>, ErrorView>|
        #[trigger] file_outcome(uri, importer.features, importer.open_file, resource) && outcome(
            first,
        ) == match resource {
            Ok(resource) => Ok(DefaultResourceView::File(resource)),
            Err(error) => Err(error),
        };
    if !(file_path_outcome(uri.text, None) && resource == Err::<FileView<H>, _>(
        ErrorView::UnsupportedScheme,
    )) {
        let (path, name, opened) = choose|
            path: Seq<u8>,
            name: Option<Seq<u8>>,
            opened: Result<H, std::io::Error>,
        |
            {
                &&& file_path_outcome(uri.text, Some(path))
                &&& #[trigger] file_name_outcome(path, name)
                &&& #[trigger] may_open_file(importer.open_file, path, opened)
                &&& resource == file_resource(name, importer.features, opened)
            };
        assert(file_loaded(name, importer.features, opened, loaded)) by {
            if let Ok(file) = opened {
                let content = loaded->Ok_0.content;
                assert(first->Ok_0->File_0.may_yield(content));
            }
        }
    }
}

/// `loaded` is what comes of a file with this name, once it was opened or could not be.
pub open spec fn file_loaded<H: Read>(
    name: Option<Seq<u8>>,
    features: Features,
    opened: Result<H, std::io::Error>,
    loaded: Result<Loaded, ErrorView>,
) -> bool {
    match opened {
        Err(error) => loaded == Err::<Loaded, _>(ErrorView::Io(error)),
        Ok(file) => match loaded {
            Err(_) => false,
            Ok(loaded) => {
                &&& loaded.media_type == name_media_type(name, features)
                &&& exists|left: H| #[trigger] file.may_read_to_end(loaded.content, left)
            },
        },
    }
}

/// The default importer opens nothing but `data` and `file` URLs.
pub proof fn law_other_schemes_are_unsupported<
    H: Read + Seek,
    O: Fn(Vec<u8>) -> Result<H, std::io::Error>,
>(importer: DefaultImporter<O>, uri: UriView, loaded: Result<Loaded, ErrorView>)
    requires
        uri.scheme != "data"@,
        uri.scheme != "file"@,
        load_outcome(importer, uri, loaded),
    ensures
        loaded == Err::<Loaded, _>(ErrorView::UnsupportedScheme),
{
    let opened = choose|opened: Result<DefaultResource<H>, Error>|
        #[trigger] importer.may_open(uri, opened) && opened_as(opened, loaded);
    assert(default_outcome(importer, uri, outcome(opened)));
}

/// What a buffer with a `data` URL comes to hold through the default importer is fixed: the decoded
/// bytes, padded, or the decoding error.
pub proof fn law_data_url_buffers<
    H: Read + Seek,
    O: Fn(Vec<u8>) -> Result<H, std::io::Error>,
>(
    importer: DefaultImporter<O>,
    reference: String,
    base: Option<UriView>,
    blob: Option<Seq<u8>>,
    data: Result<Seq<u8>, ErrorView>,
)
    requires
        resolved(reference@, base) matches Ok(uri) && uri.scheme == "data"@,
        buffer::source_outcome(importer, buffer::Source::Uri(reference), base, blob, data),
    ensures
        data == match data_resource(resolved(reference@, base)->Ok_0.path) {
            Ok(resource) => Ok(padded(resource.data.bytes)),
            Err(error) => Err(error),
        },
{
    let uri = resolved(reference@, base)->Ok_0;
    let loaded = choose|loaded: Result<Loaded, ErrorView>|
        #[trigger] load_outcome(importer, uri, loaded) && data == loaded_data(loaded);
    law_data_urls_are_decoded(importer, uri, loaded);
}

/// An image with a `data` URL is decoded from the bytes in it, by the media type in it where it has
/// one.
pub proof fn law_data_url_images<
    H: Read + Seek,
    O: Fn(Vec<u8>) -> Result<H, std::io::Error>,
>(
    importer: DefaultImporter<O>,
    reference: String,
    mime_type: Option<String>,
    base: Option<UriView>,
    buffers: Seq<Seq<u8>>,
    data: Result<DataView, ErrorView>,
)
    requires
        resolved(reference@, base) matches Ok(uri) && uri.scheme == "data"@,
        crate::image::source_outcome(
            importer,
            crate::image::Source::Uri { uri: reference, mime_type },
            base,
            buffers,
            data,
        ),
    ensures
        match data_resource(resolved(reference@, base)->Ok_0.path) {
            Ok(resource) => encoded_outcome(
                importer.features,
                first_of(resource.media_type, opt_string(mime_type)),
                resource.data.bytes,
                data,
            ),
            Err(error) => data == Err::<DataView, _>(error),
        },
{
    let uri = resolved(reference@, base)->Ok_0;
    let loaded = choose|loaded: Result<Loaded, ErrorView>|
        #[trigger] load_outcome(importer, uri, loaded) && loaded_image_outcome(
            importer.features,
            opt_string(mime_type),
            loaded,
            data,
        );
    law_data_urls_are_decoded(importer, uri, loaded);
}

/// Only `file` URLs depend on what opening a file gives: any other URL comes to the same through
/// every default importer.
pub proof fn law_only_file_urls_are_read<
    H: Read + Seek,
    O: Fn(Vec<u8>) -> Result<H, std::io::Error>,
    K: Read + Seek,
    Q: Fn(Vec<u8>) -> Result<K, std::io::Error>,
>(
    importer: DefaultImporter<O>,
    other: DefaultImporter<Q>,
    uri: UriView,
    loaded: Result<Loaded, ErrorView>,
)
    requires
        uri.scheme != "file"@,
        load_outcome(importer, uri, loaded),
    ensures
        load_outcome(other, uri, loaded),
{
    let opened = choose|opened: Result<DefaultResource<H>, Error>|
        #[trigger] importer.may_open(uri, opened) && opened_as(opened, loaded);
    assert(default_outcome(importer, uri, outcome(opened)));
    let same: Result<DefaultResource<K>, Error> = match opened {
        Ok(resource) => Ok(DefaultResource::<K>::Data(resource->Data_0)),
        Err(error) => Err(error),
    };
    assert(default_outcome(other, uri, outcome(same)));
    assert(other.may_open(uri, same));
    assert(opened_as(same, loaded));
}

/// The media type that a resource reports comes before the one that the document gives.
pub proof fn law_reported_media_type_comes_first(
    features: Features,
    media_type: Seq<char>,
    content: Result<Seq<u8>, std::io::Error>,
    given: Option<Seq<char>>,
    other: Option<Seq<char>>,
    data: Result<DataView, ErrorView>,
)
    ensures
        ({
            let loaded = Loaded { media_type: Some(media_type), content };
            loaded_image_outcome(features, given, Ok(loaded), data) == loaded_image_outcome(
                features,
                other,
                Ok(loaded),
                data,
            )
        }),
{
}

/// A media type that names PNG or JPEG decides the format, whatever the bytes are.
pub proof fn law_media_type_decides(features: Features, encoded: Seq<u8>)
    ensures
        chosen_format(features, Some("image/png"@), encoded) == Some(ImageFormat::Png),
        chosen_format(features, Some("image/jpeg"@), encoded) == Some(ImageFormat::Jpeg),
        features.ext_texture_webp ==> chosen_format(features, Some("image/webp"@), encoded) == Some(
            ImageFormat::WebP,
        ),
{
    reveal_strlit("image/png");
    reveal_strlit("image/jpeg");
    reveal_strlit("image/webp");
    assert("image/png"@[6] != "image/jpeg"@[6]);
    assert("image/png"@[6] != "image/webp"@[6]);
    assert("image/jpeg"@[6] != "image/webp"@[6]);
}

/// WebP is never chosen unless it is asked for.
pub proof fn law_webp_is_optional(
    features: Features,
    mime_type: Option<Seq<char>>,
    encoded: Seq<u8>,
)
    requires
        !features.ext_texture_webp,
    ensures
        chosen_format(features, mime_type, encoded) != Some(ImageFormat::WebP),
{
}

/// Unless guessing is asked for, the bytes have no say in the format.
pub proof fn law_guessing_is_optional(
    features: Features,
    mime_type: Option<Seq<char>>,
    encoded: Seq<u8>,
    other: Seq<u8>,
)
    requires
        !features.guess_mime_type,
    ensures
        chosen_format(features, mime_type, encoded) == chosen_format(features, mime_type, other),
{
}

/// The pixels of a decoded image are as many bytes as its size and its format take.
pub proof fn law_pixels_fill_the_image(
    features: Features,
    mime_type: Option<Seq<char>>,
    encoded: Seq<u8>,
    data: DataView,
)
    requires
        encoded_outcome(features, mime_type, encoded, Ok(data)),
    ensures
        data.pixels.len() == data.width * data.height * pixel_size(data.format),
{
    let format = chosen_format(features, mime_type, encoded)->0;
    assert(decoded_data_outcome(encoded, format, Ok(data)));
}

/// Where the images of a document could be imported, there is one for each that the document
/// declares, in the same order, with as many bytes as its size and its format take.
pub proof fn law_imported_images<I: Importer>(
    importer: I,
    images: Seq<Image>,
    base: Option<UriView>,
    buffers: Seq<Seq<u8>>,
    imported: Seq<DataView>,
)
    requires
        images_outcome(importer, images, base, buffers, Ok(imported)),
    ensures
        imported.len() == images.len(),
        forall|i: int|
            0 <= i < imported.len() ==> (#[trigger] imported[i]).pixels.len() == imported[i].width
                * imported[i].height * pixel_size(imported[i].format),
{
    assert forall|i: int| 0 <= i < imported.len() implies (#[trigger] imported[i]).pixels.len()
        == imported[i].width * imported[i].height * pixel_size(imported[i].format) by {
        let data = imported[i];
        assert(image_imported(importer, images[i].source, base, buffers, data));
        match images[i].source {
            crate::image::Source::Uri { uri, mime_type } => {
                let target = resolved(uri@, base)->Ok_0;
                let loaded = choose|loaded: Result<Loaded, ErrorView>|
                    #[trigger] load_outcome(importer, target, loaded) && loaded_image_outcome(
                        importer.accepts(),
                        opt_string(mime_type),
                        loaded,
                        Ok(data),
                    );
                let found = loaded->Ok_0;
                law_pixels_fill_the_image(
                    importer.accepts(),
                    first_of(found.media_type, opt_string(mime_type)),
                    found.content->Ok_0,
                    data,
                );
            },
            crate::image::Source::View { view, mime_type } => {
                law_pixels_fill_the_image(
                    importer.accepts(),
                    Some(mime_type@),
                    crate::image::view_bytes(view, buffers),
                    data,
                );
            },
        }
    }
}

/// An import that succeeds is complete: it gives back the document, every buffer that it declares,
/// long enough and padded, and every image that it declares, with all its pixels.
pub proof fn law_import_is_complete<I: Importer, D>(
    importer: I,
    gltf: Gltf<D>,
    base: Option<UriView>,
    view: ImportView<D>,
)
    requires
        resources_outcome(importer, gltf, base, Ok(view)),
    ensures
        view.document == gltf.document,
        view.buffers.len() == gltf.document.buffers@.len(),
        forall|i: int|
            0 <= i < view.buffers.len() ==> (#[trigger] view.buffers[i]).len() % 4 == 0
                && view.buffers[i].len() >= gltf.document.buffers@[i].length,
        view.images.len() == gltf.document.images@.len(),
        forall|i: int|
            0 <= i < view.images.len() ==> (#[trigger] view.images[i]).pixels.len()
                == view.images[i].width * view.images[i].height * pixel_size(view.images[i].format),
{
    law_imported_buffers(
        importer,
        gltf.document.buffers@,
        base,
        opt_bytes(gltf.blob),
        view.buffers,
    );
    law_imported_images(importer, gltf.document.images@, base, view.buffers, view.images);
}

/// Without a binary section, no buffer comes of a reference to it.
pub proof fn law_bin_needs_a_blob<I: Importer>(
    importer: I,
    dir: Option<Seq<u8>>,
    current_dir: Result<Seq<u8>, std::io::Error>,
    left: Option<Vec<u8>>,
    data: Result<Seq<u8>, ErrorView>,
)
    requires
        buffer::directory_source_outcome(
            importer,
            buffer::Source::Bin,
            dir,
            current_dir,
            None,
            left,
            data,
        ),
    ensures
        left is None,
        data is Err,
        dir is None ==> data == Err::<Seq<u8>, _>(ErrorView::MissingBlob),
{
}

/// A resource in memory keeps its media type and its bytes when it is read into memory again, and
/// its position does not matter for that.
pub proof fn law_reading_into_memory_keeps_the_contents(
    data: DataResource,
    again: SeekableWrapper,
    wrapped: Result<ResourceView, ErrorView>,
    rewrapped: Result<ResourceView, ErrorView>,
)
    requires
        wrap_outcome(data, wrapped),
        wrap_outcome(again, rewrapped),
    ensures
        wrapped == Ok::<_, ErrorView>(
            ResourceView {
                media_type: data@.media_type,
                data: CursorView::at_start(data@.data.bytes),
            },
        ),
        rewrapped == Ok::<_, ErrorView>(
            ResourceView {
                media_type: again@.media_type,
                data: CursorView::at_start(again@.data.bytes),
            },
        ),
{
}

/// Two reads give what one read of both lengths gives.
pub proof fn law_reads_follow_one_another(cursor: CursorView, first: nat, second: nat)
    ensures
        ({
            let count = cursor.read_len(first);
            let next = CursorView { bytes: cursor.bytes, pos: cursor.pos + count };
            let more = next.read_len(second);
            &&& count + more == cursor.read_len(first + second)
            &&& cursor.remaining().take(count as int) + next.remaining().take(more as int)
                == cursor.remaining().take((count + more) as int)
        }),
{
    let count = cursor.read_len(first);
    let next = CursorView { bytes: cursor.bytes, pos: cursor.pos + count };
    let more = next.read_len(second);
    if cursor.pos <= cursor.bytes.len() {
        assert(next.remaining() =~= cursor.remaining().skip(count as int));
    } else {
        assert(next.remaining() =~= Seq::<u8>::empty());
    }
    assert(cursor.remaining().take(count as int) + next.remaining().take(more as int)
        =~= cursor.remaining().take((count + more) as int));
}

/// After going back to the start, all the bytes are left to read.
pub proof fn law_rewinding(cursor: CursorView)
    ensures
        cursor.target(SeekFrom::Start(0)) == 0,
        CursorView::at_start(cursor.bytes).remaining() == cursor.bytes,
{
    assert(cursor.bytes.skip(0) =~= cursor.bytes);
}

/// The URL of a directory has the scheme `file` and ends in a slash, so that references joined to
/// it are looked for in the directory; the URL of a file has the scheme `file`.
pub proof fn law_base_urls(
    path: Option<Seq<u8>>,
    directory: bool,
    current_dir: Result<Seq<u8>, std::io::Error>,
    uri: UriView,
)
    requires
        path_uri_outcome(path, directory, current_dir, Ok(Some(uri))),
    ensures
        path is Some,
        uri.scheme == "file"@,
        directory ==> uri.text.len() > 0 && uri.text.last() == '/',
{
}

/// A `data` URL holds what was written into it: a media type before the mark and Base64 text after
/// it, as long as neither holds a mark itself.
pub proof fn law_data_url_holds_its_parts(media_type: Seq<char>, encoded: Seq<char>)
    requires
        forall|i: int| !occurs_at(media_type, ";base64,"@, i),
        forall|i: int| !occurs_at(encoded, ";base64,"@, i),
    ensures
        data_parts(media_type + ";base64,"@ + encoded) == (Some(media_type), encoded),
        data_parts(encoded) == (None::<Seq<char>>, encoded),
{
    let mark = ";base64,"@;
    let path = media_type + mark + encoded;
    let at = media_type.len() as int;
    reveal_strlit(";base64,");
    assert(path.subrange(at, at + mark.len()) =~= mark);
    assert forall|i: int| 0 <= i < at implies !occurs_at(path, mark, i) by {
        if occurs_at(path, mark, i) {
            if i + mark.len() <= at {
                assert(media_type.subrange(i, i + mark.len()) =~= path.subrange(
                    i,
                    i + mark.len(),
                ));
                assert(occurs_at(media_type, mark, i));
            } else {
                // The mark's first character would have to be one of its others.
                assert(path[at] == path.subrange(i, i + mark.len())[at - i]);
                assert(path[at] == mark[0]);
                assert(mark[at - i] == mark[0]);
            }
        }
    }
    lemma_split_at_first(path, mark, at);
    assert(path.take(at) =~= media_type);
    assert(path.skip(at + mark.len()) =~= encoded);
    assert(forall|i: int| !first_occurrence(encoded, mark, i));
}

proof fn lemma_after_mark(before: Seq<u8>, mark: u8, after: Seq<u8>)
    requires
        forall|i: int| 0 <= i < after.len() ==> after[i] != mark,
    ensures
        after_last(before.push(mark) + after, mark) == after,
    decreases after.len(),
{
    let whole = before.push(mark) + after;
    if after.len() == 0 {
        assert(whole.last() == mark);
        assert(after =~= Seq::empty());
    } else {
        assert(whole.last() == after.last());
        assert(whole.drop_last() =~= before.push(mark) + after.drop_last());
        lemma_after_mark(before, mark, after.drop_last());
        assert(after.drop_last().push(after.last()) =~= after);
    }
}

/// A file named `stem.extension` has that extension.
pub proof fn law_extension_of_a_file(stem: Seq<u8>, extension: Seq<u8>)
    requires
        stem.len() > 0,
        forall|i: int| 0 <= i < extension.len() ==> extension[i] != DOT,
    ensures
        name_extension(stem.push(DOT) + extension) == Some(extension),
{
    lemma_after_mark(stem, DOT, extension);
}

/// The default importer itself never calls a buffer too short.
proof fn lemma_source_error_is_not_of_length<
    H: Read + Seek,
    O: Fn(Vec<u8>) -> Result<H, std::io::Error>,
>(
    importer: DefaultImporter<O>,
    source: buffer::Source,
    base: Option<UriView>,
    blob: Option<Seq<u8>>,
    error: ErrorView,
)
    requires
        buffer::source_outcome(importer, source, base, blob, Err(error)),
    ensures
        !(error is BufferLength),
{
    if let buffer::Source::Uri(reference) = source {
        if resolved(reference@, base) is Ok {
            let uri = resolved(reference@, base)->Ok_0;
            let loaded = choose|loaded: Result<Loaded, ErrorView>|
                #[trigger] load_outcome(importer, uri, loaded) && Err::<Seq<u8>, _>(error)
                    == loaded_data(loaded);
            if uri.scheme == "data"@ {
                law_data_urls_are_decoded(importer, uri, loaded);
            } else if uri.scheme == "file"@ {
                law_file_urls_are_read(importer, uri, loaded);
            } else {
                law_other_schemes_are_unsupported(importer, uri, loaded);
            }
        }
    }
}

/// A buffer that is called too short is one that the document declares, with the length that is
/// declared for it, and its padded data has fewer bytes.
pub proof fn law_short_buffer<
    H: Read + Seek,
    O: Fn(Vec<u8>) -> Result<H, std::io::Error>,
>(
    importer: DefaultImporter<O>,
    buffers: Seq<Buffer>,
    base: Option<UriView>,
    blob: Option<Seq<u8>>,
    buffer: usize,
    expected: usize,
    actual: usize,
)
    requires
        buffers.len() <= usize::MAX,
        buffers_outcome(
            importer,
            buffers,
            base,
            blob,
            Err(ErrorView::BufferLength { buffer, expected, actual }),
        ),
    ensures
        buffer < buffers.len(),
        expected == buffers[buffer as int].length,
        actual < expected,
        actual % 4 == 0,
{
    let error = ErrorView::BufferLength { buffer, expected, actual };
    let imported = choose|imported: Seq<Seq<u8>>|
        {
            &&& #[trigger] buffers_imported(importer, buffers, base, blob, imported)
            &&& imported.len() < buffers.len()
            &&& buffer_fails(importer, buffers, base, blob, imported.len() as int, error)
        };
    let at = imported.len() as int;
    let source = buffers[at].source;
    let left = blob_before(buffers, at, blob);
    if buffer::source_outcome(importer, source, base, left, Err(error)) {
        lemma_source_error_is_not_of_length(importer, source, base, left, error);
    }
    let data = choose|data: Seq<u8>|
        {
            &&& #[trigger] buffer::source_outcome(importer, source, base, left, Ok(data))
            &&& data.len() < buffers[at].length
            &&& error == ErrorView::BufferLength {
                buffer: at as usize,
                expected: buffers[at].length,
                actual: data.len() as usize,
            }
        };
    lemma_source_is_padded(importer, source, base, left, data);
}

/// An image from a view depends on its buffer and on what the importer accepts alone: through every
/// importer that accepts the same, in documents wherever they are, it may come to the same.
pub proof fn law_views_ignore_importer_and_base<I: Importer, J: Importer>(
    importer: I,
    other: J,
    view: crate::image::BufferView,
    mime_type: String,
    base: Option<UriView>,
    other_base: Option<UriView>,
    buffers: Seq<Seq<u8>>,
    data: Result<DataView, ErrorView>,
)
    requires
        importer.accepts() == other.accepts(),
    ensures
        ({
            let source = crate::image::Source::View { view, mime_type };
            crate::image::source_outcome(importer, source, base, buffers, data)
                == crate::image::source_outcome(other, source, other_base, buffers, data)
        }),
{
}

/// A reference that is not relative means the same, or is wrong in the same way, in every document.
pub proof fn law_only_relative_references_use_the_base(
    uri: Seq<char>,
    base: Option<UriView>,
    other: Option<UriView>,
)
    requires
        !is_relative(uri),
    ensures
        resolved(uri, base) == resolved(uri, other),
{
}

/// A buffer comes from the binary section, or from a reference that is not relative.
pub open spec fn buffer_stands_alone(source: buffer::Source) -> bool {
    source matches buffer::Source::Uri(reference) ==> !is_relative(reference@)
}

/// An image comes from a view, or from a reference that is not relative.
pub open spec fn image_stands_alone(source: crate::image::Source) -> bool {
    source matches crate::image::Source::Uri { uri, mime_type } ==> !is_relative(uri@)
}

/// No reference of the document is relative.
pub open spec fn self_contained<D>(document: Document<D>) -> bool {
    &&& forall|i: int|
        0 <= i < document.buffers@.len() ==> buffer_stands_alone(
            (#[trigger] document.buffers@[i]).source,
        )
    &&& forall|i: int|
        0 <= i < document.images@.len() ==> image_stands_alone(
            (#[trigger] document.images@[i]).source,
        )
}

/// A directory to resolve references from makes no difference to a buffer that stands alone: if it
/// has a URL, then whatever the buffer may come to without it, it may come to with it, and the other
/// way round if it cannot but have one.
pub proof fn law_directory_of_a_buffer_that_stands_alone<I: Importer>(
    importer: I,
    source: buffer::Source,
    dir: Seq<u8>,
    current_dir: Result<Seq<u8>, std::io::Error>,
    uri: UriView,
    blob: Option<Vec<u8>>,
    left: Option<Vec<u8>>,
    data: Result<Seq<u8>, ErrorView>,
)
    requires
        buffer_stands_alone(source),
        path_uri_outcome(Some(dir), true, current_dir, Ok(Some(uri))),
    ensures
        buffer::directory_source_outcome(importer, source, None, current_dir, blob, left, data)
            ==> buffer::directory_source_outcome(
            importer,
            source,
            Some(dir),
            current_dir,
            blob,
            left,
            data,
        ),
        (forall|error: ErrorView| !path_uri_outcome(Some(dir), true, current_dir, Err(error))) ==> (
        buffer::directory_source_outcome(importer, source, Some(dir), current_dir, blob, left, data)
            ==> buffer::directory_source_outcome(
            importer,
            source,
            None,
            current_dir,
            blob,
            left,
            data,
        )),
{
    let none: Result<Option<UriView>, ErrorView> = Ok(None);
    assert(path_uri_outcome(None, true, current_dir, none));
    assert forall|base: Option<UriView>, other: Option<UriView>|
        #[trigger] buffer::source_outcome(importer, source, base, opt_bytes(blob), data)
        == #[trigger] buffer::source_outcome(importer, source, other, opt_bytes(blob), data) by {}
    if (forall|error: ErrorView| !path_uri_outcome(Some(dir), true, current_dir, Err(error)))
        && buffer::directory_source_outcome(
        importer,
        source,
        Some(dir),
        current_dir,
        blob,
        left,
        data,
    ) {
        let base = choose|base: Result<Option<UriView>, ErrorView>|
            #[trigger] path_uri_outcome(Some(dir), true, current_dir, base) && match base {
                Err(error) => data == Err::<Seq<u8>, _>(error) && left == blob,
                Ok(base) => buffer::source_outcome(importer, source, base, opt_bytes(blob), data)
                    && left == buffer::blob_after(source, blob),
            };
        if let Err(error) = base {
            assert(path_uri_outcome(Some(dir), true, current_dir, Err(error)));
        }
        assert(buffer::source_outcome(importer, source, base->Ok_0, opt_bytes(blob), data));
        assert(buffer::source_outcome(importer, source, None, opt_bytes(blob), data));
    }
}

/// A directory to resolve references from makes no difference to an image that stands alone: if it
/// has a URL, then whatever the image may come to without it, it may come to with it, and the other
/// way round if it cannot but have one.
pub proof fn law_directory_of_an_image_that_stands_alone<I: Importer>(
    importer: I,
    source: crate::image::Source,
    dir: Seq<u8>,
    current_dir: Result<Seq<u8>, std::io::Error>,
    uri: UriView,
    buffers: Seq<Seq<u8>>,
    data: Result<DataView, ErrorView>,
)
    requires
        image_stands_alone(source),
        path_uri_outcome(Some(dir), true, current_dir, Ok(Some(uri))),
    ensures
        crate::image::directory_source_outcome(importer, source, None, current_dir, buffers, data)
            ==> crate::image::directory_source_outcome(
            importer,
            source,
            Some(dir),
            current_dir,
            buffers,
            data,
        ),
        (forall|error: ErrorView| !path_uri_outcome(Some(dir), true, current_dir, Err(error))) ==> (
        crate::image::directory_source_outcome(
            importer,
            source,
            Some(dir),
            current_dir,
            buffers,
            data,
        ) ==> crate::image::directory_source_outcome(
            importer,
            source,
            None,
            current_dir,
            buffers,
            data,
        )),
{
    let none: Result<Option<UriView>, ErrorView> = Ok(None);
    assert(path_uri_outcome(None, true, current_dir, none));
    assert forall|base: Option<UriView>, other: Option<UriView>|
        #[trigger] crate::image::source_outcome(importer, source, base, buffers, data)
        == #[trigger] crate::image::source_outcome(importer, source, other, buffers, data) by {}
    if (forall|error: ErrorView| !path_uri_outcome(Some(dir), true, current_dir, Err(error)))
        && crate::image::directory_source_outcome(
        importer,
        source,
        Some(dir),
        current_dir,
        buffers,
        data,
    ) {
        let base = choose|base: Result<Option<UriView>, ErrorView>|
            #[trigger] path_uri_outcome(Some(dir), true, current_dir, base) && match base {
                Err(error) => data == Err::<DataView, _>(error),
                Ok(base) => crate::image::source_outcome(importer, source, base, buffers, data),
            };
        if let Err(error) = base {
            assert(path_uri_outcome(Some(dir), true, current_dir, Err(error)));
        }
        assert(crate::image::source_outcome(importer, source, base->Ok_0, buffers, data));
        assert(crate::image::source_outcome(importer, source, None, buffers, data));
    }
}

/// Importing all the buffers of a document is importing each by itself: a buffer that comes from a
/// reference holds what it may come to hold without the others. Where a base is given, that is said
/// of references that are not relative, since a document's base is a file and a single buffer's is a
/// directory.
pub proof fn law_buffers_one_by_one<I: Importer>(
    importer: I,
    buffers: Seq<Buffer>,
    base: Option<Seq<u8>>,
    current_dir: Result<Seq<u8>, std::io::Error>,
    blob: Option<Seq<u8>>,
    imported: Seq<Seq<u8>>,
    at: int,
)
    requires
        path_buffers_outcome(importer, buffers, base, current_dir, blob, Ok(imported)),
        0 <= at < buffers.len(),
        buffers[at].source is Uri,
        base is Some ==> buffer_stands_alone(buffers[at].source) && exists|uri: UriView|
            path_uri_outcome(base, true, current_dir, Ok(Some(uri))),
    ensures
        imported.len() == buffers.len(),
        buffer::directory_source_outcome(
            importer,
            buffers[at].source,
            base,
            current_dir,
            None,
            None,
            Ok(imported[at]),
        ),
{
    let source = buffers[at].source;
    let uri = choose|uri: Result<Option<UriView>, ErrorView>|
        #[trigger] path_uri_outcome(base, false, current_dir, uri) && match uri {
            Err(error) => Ok::<_, ErrorView>(imported) == Err::<Seq<Seq<u8>>, _>(error),
            Ok(uri) => buffers_outcome(importer, buffers, uri, blob, Ok(imported)),
        };
    let place = uri->Ok_0;
    assert(buffers_outcome(importer, buffers, place, blob, Ok(imported)));
    let rest = blob_before(buffers, at, blob);
    assert(buffer_imported(importer, buffers[at], place, rest, imported[at]));
    let without = opt_bytes(None);
    let dir: Result<Option<UriView>, ErrorView> = if base is Some {
        Ok(Some(choose|uri: UriView| path_uri_outcome(base, true, current_dir, Ok(Some(uri)))))
    } else {
        Ok(None)
    };
    assert(path_uri_outcome(base, true, current_dir, dir));
    assert(buffer::source_outcome(importer, source, dir->Ok_0, without, Ok(imported[at])));
}

/// Importing all the images of a document is importing each by itself: an image is what it may come
/// to be without the others. Where a base is given, that is said of images that stand alone, since a
/// document's base is a file and a single image's is a directory.
pub proof fn law_images_one_by_one<I: Importer>(
    importer: I,
    images: Seq<Image>,
    base: Option<Seq<u8>>,
    current_dir: Result<Seq<u8>, std::io::Error>,
    buffers: Seq<Seq<u8>>,
    imported: Seq<DataView>,
    at: int,
)
    requires
        path_images_outcome(importer, images, base, current_dir, buffers, Ok(imported)),
        0 <= at < images.len(),
        base is Some ==> image_stands_alone(images[at].source) && exists|uri: UriView|
            path_uri_outcome(base, true, current_dir, Ok(Some(uri))),
    ensures
        imported.len() == images.len(),
        crate::image::source_fits(images[at].source, buffers),
        crate::image::directory_source_outcome(
            importer,
            images[at].source,
            base,
            current_dir,
            buffers,
            Ok(imported[at]),
        ),
{
    let source = images[at].source;
    let uri = choose|uri: Result<Option<UriView>, ErrorView>|
        #[trigger] path_uri_outcome(base, false, current_dir, uri) && match uri {
            Err(error) => Ok::<_, ErrorView>(imported) == Err::<Seq<DataView>, _>(error),
            Ok(uri) => images_outcome(importer, images, uri, buffers, Ok(imported)),
        };
    let place = uri->Ok_0;
    assert(images_outcome(importer, images, place, buffers, Ok(imported)));
    assert(image_imported(importer, source, place, buffers, imported[at]));
    let dir: Result<Option<UriView>, ErrorView> = if base is Some {
        Ok(Some(choose|uri: UriView| path_uri_outcome(base, true, current_dir, Ok(Some(uri)))))
    } else {
        Ok(None)
    };
    assert(path_uri_outcome(base, true, current_dir, dir));
    assert(crate::image::source_outcome(importer, source, dir->Ok_0, buffers, Ok(imported[at])));
}

/// There is no URL without a path, and no path without a URL or an error.
pub proof fn law_no_url_without_a_path(
    path: Option<Seq<u8>>,
    directory: bool,
    current_dir: Result<Seq<u8>, std::io::Error>,
    uri: Result<Option<UriView>, ErrorView>,
)
    requires
        path_uri_outcome(path, directory, current_dir, uri),
    ensures
        uri == Ok::<Option<UriView>, ErrorView>(None) <==> path is None,
{
}

/// An absolute path has the same URL whatever directory is current.
pub proof fn law_absolute_paths(
    path: Seq<u8>,
    directory: bool,
    current_dir: Result<Seq<u8>, std::io::Error>,
    uri: Result<Option<UriView>, ErrorView>,
)
    requires
        absolute_outcome(path, true),
        absolute_uri_outcome(Ok(path), directory, uri),
    ensures
        path_uri_outcome(Some(path), directory, current_dir, uri),
{
    let full: Result<Seq<u8>, ErrorView> = Ok(path);
    let given = Some(path);
    assert(absolute_path_outcome(given->0, current_dir, full));
    assert(path_uri_outcome(given, directory, current_dir, uri));
}

/// The URL of a relative path is the URL of that path joined to the current directory: the URL that
/// the joined path has as an absolute one comes of either, whatever directory is current for the
/// joined path.
pub proof fn law_relative_paths_are_joined(
    path: Seq<u8>,
    directory: bool,
    dir: Seq<u8>,
    joined: Seq<u8>,
    elsewhere: Result<Seq<u8>, std::io::Error>,
    uri: Result<Option<UriView>, ErrorView>,
)
    requires
        absolute_outcome(path, false),
        joined_path_outcome(dir, path, joined),
        absolute_outcome(joined, true),
        absolute_uri_outcome(Ok(joined), directory, uri),
    ensures
        path_uri_outcome(Some(path), directory, Ok(dir), uri),
        path_uri_outcome(Some(joined), directory, elsewhere, uri),
{
    let full: Result<Seq<u8>, ErrorView> = Ok(joined);
    let here: Result<Seq<u8>, std::io::Error> = Ok(dir);
    let given = Some(path);
    assert(absolute_path_outcome(given->0, here, full));
    assert(path_uri_outcome(given, directory, here, uri));
    law_absolute_paths(joined, directory, elsewhere, uri);
}

/// Where it is settled that a path is relative and that it is absolute once it is joined to the
/// current directory, nothing comes of the one that does not come of the other.
pub proof fn law_relative_paths(
    path: Seq<u8>,
    directory: bool,
    dir: Seq<u8>,
    elsewhere: Result<Seq<u8>, std::io::Error>,
    uri: Result<Option<UriView>, ErrorView>,
)
    requires
        !absolute_outcome(path, true),
        absolute_outcome(path, false),
        forall|joined: Seq<u8>| #[trigger]
            joined_path_outcome(dir, path, joined) ==> absolute_outcome(joined, true)
                && !absolute_outcome(joined, false),
    ensures
        path_uri_outcome(Some(path), directory, Ok(dir), uri) <==> exists|joined: Seq<u8>|
            #[trigger] joined_path_outcome(dir, path, joined) && path_uri_outcome(
                Some(joined),
                directory,
                elsewhere,
                uri,
            ),
{
    let here: Result<Seq<u8>, std::io::Error> = Ok(dir);
    if path_uri_outcome(Some(path), directory, here, uri) {
        let full = choose|full: Result<Seq<u8>, ErrorView>|
            #[trigger] absolute_path_outcome(path, here, full) && absolute_uri_outcome(
                full,
                directory,
                uri,
            );
        let joined = full->Ok_0;
        assert(joined_path_outcome(dir, path, joined));
        let found = Some(joined);
        assert(absolute_path_outcome(found->0, elsewhere, full));
        assert(path_uri_outcome(found, directory, elsewhere, uri));
    }
    if exists|joined: Seq<u8>| #[trigger]
        joined_path_outcome(dir, path, joined) && path_uri_outcome(
            Some(joined),
            directory,
            elsewhere,
            uri,
        ) {
        let joined = choose|joined: Seq<u8>| #[trigger]
            joined_path_outcome(dir, path, joined) && path_uri_outcome(
                Some(joined),
                directory,
                elsewhere,
                uri,
            );
        let full = choose|full: Result<Seq<u8>, ErrorView>|
            #[trigger] absolute_path_outcome(joined, elsewhere, full) && absolute_uri_outcome(
                full,
                directory,
                uri,
            );
        assert(full == Ok::<_, ErrorView>(joined));
        let given = Some(path);
        assert(absolute_path_outcome(given->0, here, full));
        assert(path_uri_outcome(given, directory, here, uri));
    }
}

/// The URL of a file turns back into its path, made absolute, if that is text: into the very same
/// bytes if they are written plainly, and else, unless the URL names a host, into a path from the
/// root with the same components.
pub proof fn law_file_urls_turn_back(
    path: Seq<u8>,
    current_dir: Result<Seq<u8>, std::io::Error>,
    uri: UriView,
)
    requires
        path_uri_outcome(Some(path), false, current_dir, Ok(Some(uri))),
    ensures
        uri.scheme == "file"@,
        exists|full: Seq<u8>|
            {
                &&& #[trigger] absolute_path_outcome(path, current_dir, Ok(full))
                &&& valid_utf8(full) && plain_path(full) ==> file_path_outcome(uri.text, Some(full))
                &&& valid_utf8(full) && full.len() > 0 && full[0] == SEPARATOR && names_no_host(
                    uri.text,
                ) ==> exists|back: Seq<u8>|
                    #[trigger] file_path_outcome(uri.text, Some(back)) && same_path(back, full)
            },
{
    let found: Result<Option<UriView>, ErrorView> = Ok(Some(uri));
    let made = choose|full: Result<Seq<u8>, ErrorView>|
        #[trigger] absolute_path_outcome(path, current_dir, full) && absolute_uri_outcome(
            full,
            false,
            found,
        );
    let full = made->Ok_0;
    assert(absolute_path_outcome(path, current_dir, Ok(full)));
    assert(turns_back(full, uri.text));
}

proof fn lemma_self_contained<I: Importer, D>(
    importer: I,
    gltf: Gltf<D>,
    base: Option<UriView>,
    other: Option<UriView>,
    import: Result<ImportView<D>, ErrorView>,
)
    requires
        self_contained(gltf.document),
        resources_outcome(importer, gltf, base, import),
    ensures
        resources_outcome(importer, gltf, other, import),
{
    let buffers = gltf.document.buffers@;
    let images = gltf.document.images@;
    let blob = opt_bytes(gltf.blob);
    assert forall|result: Result<Seq<Seq<u8>>, ErrorView>|
        #[trigger] buffers_outcome(importer, buffers, base, blob, result) implies buffers_outcome(
        importer,
        buffers,
        other,
        blob,
        result,
    ) by {
        assert forall|imported: Seq<Seq<u8>>|
            #[trigger] buffers_imported(importer, buffers, base, blob, imported) implies
            buffers_imported(importer, buffers, other, blob, imported) by {
            assert forall|i: int| 0 <= i < imported.len() implies buffer_imported(
                importer,
                buffers[i],
                other,
                blob_before(buffers, i, blob),
                #[trigger] imported[i],
            ) by {
                assert(buffer_stands_alone(buffers[i].source));
                assert(buffer_imported(
                    importer,
                    buffers[i],
                    base,
                    blob_before(buffers, i, blob),
                    imported[i],
                ));
            }
        }
        if let Err(error) = result {
            let imported = choose|imported: Seq<Seq<u8>>|
                {
                    &&& #[trigger] buffers_imported(importer, buffers, base, blob, imported)
                    &&& imported.len() < buffers.len()
                    &&& buffer_fails(
                        importer,
                        buffers,
                        base,
                        blob,
                        imported.len() as int,
                        error,
                    )
                };
            let at = imported.len() as int;
            assert(buffer_stands_alone(buffers[at].source));
            lemma_buffer_fails_alone(importer, buffers, base, other, blob, at, error);
            assert(buffers_imported(importer, buffers, other, blob, imported));
        }
    }
    assert forall|data: Seq<Seq<u8>>, result: Result<Seq<DataView>, ErrorView>|
        #[trigger] images_outcome(importer, images, base, data, result) implies images_outcome(
        importer,
        images,
        other,
        data,
        result,
    ) by {
        assert forall|imported: Seq<DataView>|
            #[trigger] images_imported(importer, images, base, data, imported) implies
            images_imported(importer, images, other, data, imported) by {
            assert forall|i: int| 0 <= i < imported.len() implies image_imported(
                importer,
                images[i].source,
                other,
                data,
                #[trigger] imported[i],
            ) by {
                assert(image_stands_alone(images[i].source));
                assert(image_imported(importer, images[i].source, base, data, imported[i]));
            }
        }
        if let Err(error) = result {
            let imported = choose|imported: Seq<DataView>|
                {
                    &&& #[trigger] images_imported(importer, images, base, data, imported)
                    &&& imported.len() < images.len()
                    &&& image_fails(
                        importer,
                        images,
                        base,
                        data,
                        imported.len() as int,
                        error,
                    )
                };
            let at = imported.len() as int;
            assert(image_stands_alone(images[at].source));
            assert(image_fails(importer, images, other, data, at, error));
            assert(images_imported(importer, images, other, data, imported));
        }
    }
    if let Err(error) = import {
        if buffers_outcome(importer, buffers, base, blob, Err(error)) {
            assert(buffers_outcome(importer, buffers, other, blob, Err(error)));
        } else {
            let imported = choose|imported: Seq<Seq<u8>>|
                {
                    &&& #[trigger] buffers_outcome(importer, buffers, base, blob, Ok(imported))
                    &&& images_outcome(importer, images, base, imported, Err(error))
                };
            assert(buffers_outcome(importer, buffers, other, blob, Ok(imported)));
        }
    }
}

proof fn lemma_buffer_fails_alone<I: Importer>(
    importer: I,
    buffers: Seq<Buffer>,
    base: Option<UriView>,
    other: Option<UriView>,
    blob: Option<Seq<u8>>,
    at: int,
    error: ErrorView,
)
    requires
        buffer_stands_alone(buffers[at].source),
        buffer_fails(importer, buffers, base, blob, at, error),
    ensures
        buffer_fails(importer, buffers, other, blob, at, error),
{
    let source = buffers[at].source;
    let rest = blob_before(buffers, at, blob);
    if !buffer::source_outcome(importer, source, base, rest, Err(error)) {
        let data = choose|data: Seq<u8>|
            {
                &&& #[trigger] buffer::source_outcome(importer, source, base, rest, Ok(data))
                &&& data.len() < buffers[at].length
                &&& error == ErrorView::BufferLength {
                    buffer: at as usize,
                    expected: buffers[at].length,
                    actual: data.len() as usize,
                }
            };
        assert(buffer::source_outcome(importer, source, other, rest, Ok(data)));
    }
}

/// A document whose references are all absolute comes to the same wherever it is.
pub proof fn law_self_contained_documents<I: Importer, D>(
    importer: I,
    gltf: Gltf<D>,
    base: Option<UriView>,
    other: Option<UriView>,
    import: Result<ImportView<D>, ErrorView>,
)
    requires
        self_contained(gltf.document),
    ensures
        resources_outcome(importer, gltf, base, import) == resources_outcome(
            importer,
            gltf,
            other,
            import,
        ),
{
    if resources_outcome(importer, gltf, base, import) {
        lemma_self_contained(importer, gltf, base, other, import);
    }
    if resources_outcome(importer, gltf, other, import) {
        lemma_self_contained(importer, gltf, other, base, import);
    }
}

/// A document whose references are all absolute imports from its bytes as it does from its file:
/// what comes of the file at `path`, which holds `content`, may come of `content` as a slice, with
/// the current directory to resolve references from and without one.
pub proof fn law_slice_and_file_agree<
    I: Importer,
    D,
    P: Fn(Vec<u8>) -> Result<Gltf<D>, Error>,
>(
    importer: I,
    parse: P,
    path: Seq<u8>,
    current_dir: Result<Seq<u8>, std::io::Error>,
    content: Seq<u8>,
    slice_dir: Result<Seq<u8>, std::io::Error>,
    base: Option<UriView>,
    view: ImportView<D>,
)
    requires
        import_path_outcome(importer, parse, path, current_dir, Ok(view)),
        self_contained(view.document),
        forall|uri: UriView, bytes: Seq<u8>|
            path_uri_outcome(Some(path), false, current_dir, Ok(Some(uri))) && #[trigger]
                read_outcome(importer, uri, Ok(bytes)) ==> bytes == content,
        slice_base_outcome(slice_dir, base),
    ensures
        import_slice_outcome(importer, parse, content, slice_dir, Ok(view)),
        parse_outcome(importer, parse, content, None, Ok(view)),
{
    let uri = choose|uri: Result<Option<UriView>, ErrorView>|
        #[trigger] path_uri_outcome(Some(path), false, current_dir, uri) && match uri {
            Ok(uri) => crate::import::import_outcome(importer, parse, uri->0, Ok(view)),
            Err(error) => Ok::<_, ErrorView>(view) == Err::<ImportView<D>, _>(error),
        };
    let place = uri->Ok_0->0;
    assert(path_uri_outcome(Some(path), false, current_dir, Ok(Some(place))));
    let read = choose|bytes: Result<Seq<u8>, ErrorView>|
        #[trigger] read_outcome(importer, place, bytes) && read_import_outcome(
            importer,
            parse,
            place,
            bytes,
            Ok(view),
        );
    assert(read_outcome(importer, place, Ok(read->Ok_0)));
    assert(parse_outcome(importer, parse, content, Some(place), Ok(view)));
    let (argument, parsed) = choose|argument: Vec<u8>, parsed: Result<Gltf<D>, Error>|
        argument@ == content && #[trigger] call_ensures(parse, (argument,), parsed) && match parsed {
            Ok(gltf) => resources_outcome(importer, gltf, Some(place), Ok(view)),
            Err(error) => Ok::<_, ErrorView>(view) == Err::<ImportView<D>, _>(error@),
        };
    let gltf = parsed->Ok_0;
    lemma_self_contained(importer, gltf, Some(place), base, Ok(view));
    lemma_self_contained(importer, gltf, Some(place), None, Ok(view));
    assert(parse_outcome(importer, parse, content, base, Ok(view)));
}

/// The decoder makes one thing only of `encoded`.
pub open spec fn decodes_one_way(encoded: Seq<u8>, format: ImageFormat) -> bool {
    forall|
        first: Result<DecodedImageView, ::image::ImageError>,
        second: Result<DecodedImageView, ::image::ImageError>,
    |
        #[trigger] decode_outcome(encoded, format, first) && #[trigger] decode_outcome(
            encoded,
            format,
            second,
        ) ==> first == second
}

/// What an encoded image comes to is fixed by its bytes, its media type and the features, if the
/// decoder makes one thing only of the bytes: the same pixels, or the same error.
pub proof fn law_encoded_images_are_fixed(
    features: Features,
    mime_type: Option<Seq<char>>,
    encoded: Seq<u8>,
    first: Result<DataView, ErrorView>,
    second: Result<DataView, ErrorView>,
)
    requires
        chosen_format(features, mime_type, encoded) matches Some(format) ==> decodes_one_way(
            encoded,
            format,
        ),
        encoded_outcome(features, mime_type, encoded, first),
        encoded_outcome(features, mime_type, encoded, second),
    ensures
        first == second,
{
}

/// An image from a view comes to the same through every importer that accepts the same, wherever
/// the document is, if the decoder makes one thing only of its bytes.
pub proof fn law_views_are_fixed<I: Importer, J: Importer>(
    importer: I,
    other: J,
    view: crate::image::BufferView,
    mime_type: String,
    base: Option<UriView>,
    other_base: Option<UriView>,
    buffers: Seq<Seq<u8>>,
    first: Result<DataView, ErrorView>,
    second: Result<DataView, ErrorView>,
)
    requires
        importer.accepts() == other.accepts(),
        chosen_format(
            importer.accepts(),
            Some(mime_type@),
            crate::image::view_bytes(view, buffers),
        ) matches Some(format) ==> decodes_one_way(
            crate::image::view_bytes(view, buffers),
            format,
        ),
        crate::image::source_outcome(
            importer,
            crate::image::Source::View { view, mime_type },
            base,
            buffers,
            first,
        ),
        crate::image::source_outcome(
            other,
            crate::image::Source::View { view, mime_type },
            other_base,
            buffers,
            second,
        ),
    ensures
        first == second,
{
    law_encoded_images_are_fixed(
        importer.accepts(),
        Some(mime_type@),
        crate::image::view_bytes(view, buffers),
        first,
        second,
    );
}

/// In a document without a place of its own, the buffer comes to one thing only.
pub open spec fn buffer_is_settled<I: Importer>(
    importer: I,
    source: buffer::Source,
    blob: Option<Seq<u8>>,
) -> bool {
    forall|first: Result<Seq<u8>, ErrorView>, second: Result<Seq<u8>, ErrorView>|
        #[trigger] buffer::source_outcome(importer, source, None, blob, first)
            && #[trigger] buffer::source_outcome(importer, source, None, blob, second) ==> first
            == second
}

/// In a document without a place of its own, the image comes to one thing only.
pub open spec fn image_is_settled<I: Importer>(
    importer: I,
    source: crate::image::Source,
    buffers: Seq<Seq<u8>>,
) -> bool {
    forall|first: Result<DataView, ErrorView>, second: Result<DataView, ErrorView>|
        #[trigger] crate::image::source_outcome(importer, source, None, buffers, first)
            && #[trigger] crate::image::source_outcome(importer, source, None, buffers, second)
            ==> first == second
}

/// Through the default importer, a buffer that does not come from a `file` URL is settled.
pub proof fn law_settled_buffers<H: Read + Seek, O: Fn(Vec<u8>) -> Result<H, std::io::Error>>(
    importer: DefaultImporter<O>,
    source: buffer::Source,
    blob: Option<Seq<u8>>,
)
    requires
        source matches buffer::Source::Uri(reference) ==> (resolved(reference@, None) matches Ok(uri)
            ==> uri.scheme != "file"@),
    ensures
        buffer_is_settled(importer, source, blob),
{
    assert forall|first: Result<Seq<u8>, ErrorView>, second: Result<Seq<u8>, ErrorView>|
        #[trigger] buffer::source_outcome(importer, source, None, blob, first)
            && #[trigger] buffer::source_outcome(importer, source, None, blob, second) implies first
        == second by {
        if let buffer::Source::Uri(reference) = source {
            if let Ok(uri) = resolved(reference@, None) {
                let one = choose|loaded: Result<Loaded, ErrorView>|
                    #[trigger] load_outcome(importer, uri, loaded) && first == loaded_data(loaded);
                let two = choose|loaded: Result<Loaded, ErrorView>|
                    #[trigger] load_outcome(importer, uri, loaded) && second == loaded_data(loaded);
                lemma_loaded_once(importer, uri, one, two);
            }
        }
    }
}

/// Through the default importer, an image that does not come from a `file` URL is settled, if the
/// decoder makes one thing only of any bytes.
pub proof fn law_settled_images<H: Read + Seek, O: Fn(Vec<u8>) -> Result<H, std::io::Error>>(
    importer: DefaultImporter<O>,
    source: crate::image::Source,
    buffers: Seq<Seq<u8>>,
)
    requires
        source matches crate::image::Source::Uri { uri, mime_type } ==> (resolved(
            uri@,
            None,
        ) matches Ok(target) ==> target.scheme != "file"@),
        forall|encoded: Seq<u8>, format: ImageFormat| #[trigger] decodes_one_way(encoded, format),
    ensures
        image_is_settled(importer, source, buffers),
{
    assert forall|first: Result<DataView, ErrorView>, second: Result<DataView, ErrorView>|
        #[trigger] crate::image::source_outcome(importer, source, None, buffers, first)
            && #[trigger] crate::image::source_outcome(importer, source, None, buffers, second)
        implies first == second by {
        match source {
            crate::image::Source::View { view, mime_type } => {
                let encoded = crate::image::view_bytes(view, buffers);
                assert(chosen_format(importer.features, Some(mime_type@), encoded) matches Some(
                    format,
                ) ==> decodes_one_way(encoded, format));
                law_encoded_images_are_fixed(
                    importer.features,
                    Some(mime_type@),
                    encoded,
                    first,
                    second,
                );
            },
            crate::image::Source::Uri { uri, mime_type } => {
                if let Ok(target) = resolved(uri@, None) {
                    let given = opt_string(mime_type);
                    let one = choose|loaded: Result<Loaded, ErrorView>|
                        #[trigger] load_outcome(importer, target, loaded) && loaded_image_outcome(
                            importer.features,
                            given,
                            loaded,
                            first,
                        );
                    let two = choose|loaded: Result<Loaded, ErrorView>|
                        #[trigger] load_outcome(importer, target, loaded) && loaded_image_outcome(
                            importer.features,
                            given,
                            loaded,
                            second,
                        );
                    lemma_loaded_once(importer, target, one, two);
                    if let Ok(loaded) = one {
                        if let Ok(encoded) = loaded.content {
                            let known = first_of(loaded.media_type, given);
                            assert(chosen_format(importer.features, known, encoded) matches Some(
                                format,
                            ) ==> decodes_one_way(encoded, format));
                            law_encoded_images_are_fixed(
                                importer.features,
                                known,
                                encoded,
                                first,
                                second,
                            );
                        }
                    }
                }
            },
        }
    }
}

proof fn lemma_loaded_once<H: Read + Seek, O: Fn(Vec<u8>) -> Result<H, std::io::Error>>(
    importer: DefaultImporter<O>,
    uri: UriView,
    first: Result<Loaded, ErrorView>,
    second: Result<Loaded, ErrorView>,
)
    requires
        uri.scheme != "file"@,
        load_outcome(importer, uri, first),
        load_outcome(importer, uri, second),
    ensures
        first == second,
{
    if uri.scheme == "data"@ {
        law_data_urls_are_decoded(importer, uri, first);
        law_data_urls_are_decoded(importer, uri, second);
    } else {
        law_other_schemes_are_unsupported(importer, uri, first);
        law_other_schemes_are_unsupported(importer, uri, second);
    }
}

/// The directory, if there is one, cannot but have a URL.
pub open spec fn has_a_url(
    dir: Option<Seq<u8>>,
    current_dir: Result<Seq<u8>, std::io::Error>,
) -> bool {
    forall|error: ErrorView| !#[trigger] path_uri_outcome(dir, true, current_dir, Err(error))
}

proof fn lemma_buffer_without_a_place<I: Importer>(
    importer: I,
    source: buffer::Source,
    dir: Option<Seq<u8>>,
    current_dir: Result<Seq<u8>, std::io::Error>,
    blob: Option<Vec<u8>>,
    left: Option<Vec<u8>>,
    data: Result<Seq<u8>, ErrorView>,
)
    requires
        dir is Some ==> buffer_stands_alone(source),
        has_a_url(dir, current_dir),
        buffer::directory_source_outcome(importer, source, dir, current_dir, blob, left, data),
    ensures
        buffer::source_outcome(importer, source, None, opt_bytes(blob), data),
        left == buffer::blob_after(source, blob),
{
    let base = choose|base: Result<Option<UriView>, ErrorView>|
        #[trigger] path_uri_outcome(dir, true, current_dir, base) && match base {
            Err(error) => data == Err::<Seq<u8>, _>(error) && left == blob,
            Ok(base) => buffer::source_outcome(importer, source, base, opt_bytes(blob), data)
                && left == buffer::blob_after(source, blob),
        };
    if let Err(error) = base {
        assert(path_uri_outcome(dir, true, current_dir, Err(error)));
    }
}

proof fn lemma_image_without_a_place<I: Importer>(
    importer: I,
    source: crate::image::Source,
    dir: Option<Seq<u8>>,
    current_dir: Result<Seq<u8>, std::io::Error>,
    buffers: Seq<Seq<u8>>,
    data: Result<DataView, ErrorView>,
)
    requires
        dir is Some ==> image_stands_alone(source),
        has_a_url(dir, current_dir),
        crate::image::directory_source_outcome(importer, source, dir, current_dir, buffers, data),
    ensures
        crate::image::source_outcome(importer, source, None, buffers, data),
{
    let base = choose|base: Result<Option<UriView>, ErrorView>|
        #[trigger] path_uri_outcome(dir, true, current_dir, base) && match base {
            Err(error) => data == Err::<DataView, _>(error),
            Ok(base) => crate::image::source_outcome(importer, source, base, buffers, data),
        };
    if let Err(error) = base {
        assert(path_uri_outcome(dir, true, current_dir, Err(error)));
    }
}

/// A buffer that stands alone and is settled is the same with a directory to resolve references
/// from and without one, and leaves the same of the binary section.
pub proof fn law_buffers_that_stand_alone_are_fixed<I: Importer>(
    importer: I,
    source: buffer::Source,
    dir: Seq<u8>,
    current_dir: Result<Seq<u8>, std::io::Error>,
    blob: Option<Vec<u8>>,
    left: Option<Vec<u8>>,
    first: Result<Seq<u8>, ErrorView>,
    other_left: Option<Vec<u8>>,
    second: Result<Seq<u8>, ErrorView>,
)
    requires
        buffer_stands_alone(source),
        buffer_is_settled(importer, source, opt_bytes(blob)),
        has_a_url(Some(dir), current_dir),
        buffer::directory_source_outcome(importer, source, None, current_dir, blob, left, first),
        buffer::directory_source_outcome(
            importer,
            source,
            Some(dir),
            current_dir,
            blob,
            other_left,
            second,
        ),
    ensures
        first == second,
        left == other_left,
{
    lemma_buffer_without_a_place(importer, source, None, current_dir, blob, left, first);
    lemma_buffer_without_a_place(
        importer,
        source,
        Some(dir),
        current_dir,
        blob,
        other_left,
        second,
    );
}

/// An image that stands alone and is settled is the same with a directory to resolve references from
/// and without one.
pub proof fn law_images_that_stand_alone_are_fixed<I: Importer>(
    importer: I,
    source: crate::image::Source,
    dir: Seq<u8>,
    current_dir: Result<Seq<u8>, std::io::Error>,
    buffers: Seq<Seq<u8>>,
    first: Result<DataView, ErrorView>,
    second: Result<DataView, ErrorView>,
)
    requires
        image_stands_alone(source),
        image_is_settled(importer, source, buffers),
        has_a_url(Some(dir), current_dir),
        crate::image::directory_source_outcome(
            importer,
            source,
            None,
            current_dir,
            buffers,
            first,
        ),
        crate::image::directory_source_outcome(
            importer,
            source,
            Some(dir),
            current_dir,
            buffers,
            second,
        ),
    ensures
        first == second,
{
    lemma_image_without_a_place(importer, source, None, current_dir, buffers, first);
    lemma_image_without_a_place(importer, source, Some(dir), current_dir, buffers, second);
}

/// A buffer that comes from a reference and is settled is the same among all the buffers of its
/// document and by itself. Where a base is given, the reference must not be relative.
pub proof fn law_each_buffer_is_fixed<I: Importer>(
    importer: I,
    buffers: Seq<Buffer>,
    base: Option<Seq<u8>>,
    current_dir: Result<Seq<u8>, std::io::Error>,
    blob: Option<Seq<u8>>,
    imported: Seq<Seq<u8>>,
    at: int,
    left: Option<Vec<u8>>,
    single: Result<Seq<u8>, ErrorView>,
)
    requires
        path_buffers_outcome(importer, buffers, base, current_dir, blob, Ok(imported)),
        0 <= at < buffers.len(),
        buffers[at].source is Uri,
        base is Some ==> buffer_stands_alone(buffers[at].source),
        buffer_is_settled(importer, buffers[at].source, None),
        has_a_url(base, current_dir),
        buffer::directory_source_outcome(
            importer,
            buffers[at].source,
            base,
            current_dir,
            None,
            left,
            single,
        ),
    ensures
        single == Ok::<_, ErrorView>(imported[at]),
        left is None,
{
    let source = buffers[at].source;
    let uri = choose|uri: Result<Option<UriView>, ErrorView>|
        #[trigger] path_uri_outcome(base, false, current_dir, uri) && match uri {
            Err(error) => Ok::<_, ErrorView>(imported) == Err::<Seq<Seq<u8>>, _>(error),
            Ok(uri) => buffers_outcome(importer, buffers, uri, blob, Ok(imported)),
        };
    let place = uri->Ok_0;
    let rest = blob_before(buffers, at, blob);
    assert(buffer_imported(importer, buffers[at], place, rest, imported[at]));
    assert(buffer::source_outcome(importer, source, None, None, Ok(imported[at])));
    lemma_buffer_without_a_place(importer, source, base, current_dir, None, left, single);
}

/// An image that is settled is the same among all the images of its document and by itself. Where a
/// base is given, the image must stand alone.
pub proof fn law_each_image_is_fixed<I: Importer>(
    importer: I,
    images: Seq<Image>,
    base: Option<Seq<u8>>,
    current_dir: Result<Seq<u8>, std::io::Error>,
    buffers: Seq<Seq<u8>>,
    imported: Seq<DataView>,
    at: int,
    single: Result<DataView, ErrorView>,
)
    requires
        path_images_outcome(importer, images, base, current_dir, buffers, Ok(imported)),
        0 <= at < images.len(),
        base is Some ==> image_stands_alone(images[at].source),
        image_is_settled(importer, images[at].source, buffers),
        has_a_url(base, current_dir),
        crate::image::directory_source_outcome(
            importer,
            images[at].source,
            base,
            current_dir,
            buffers,
            single,
        ),
    ensures
        single == Ok::<_, ErrorView>(imported[at]),
{
    let source = images[at].source;
    let uri = choose|uri: Result<Option<UriView>, ErrorView>|
        #[trigger] path_uri_outcome(base, false, current_dir, uri) && match uri {
            Err(error) => Ok::<_, ErrorView>(imported) == Err::<Seq<DataView>, _>(error),
            Ok(uri) => images_outcome(importer, images, uri, buffers, Ok(imported)),
        };
    let place = uri->Ok_0;
    assert(image_imported(importer, source, place, buffers, imported[at]));
    assert(crate::image::source_outcome(importer, source, None, buffers, Ok(imported[at])));
    lemma_image_without_a_place(importer, source, base, current_dir, buffers, single);
}

/// A relative path and that path joined to the current directory have the same URL, where it is
/// settled which of them is absolute, what they are joined to and which URL the joined path has.
pub proof fn law_relative_paths_are_fixed(
    path: Seq<u8>,
    directory: bool,
    dir: Seq<u8>,
    joined: Seq<u8>,
    elsewhere: Result<Seq<u8>, std::io::Error>,
    first: Result<Option<UriView>, ErrorView>,
    second: Result<Option<UriView>, ErrorView>,
)
    requires
        !absolute_outcome(path, true),
        absolute_outcome(path, false),
        absolute_outcome(joined, true),
        !absolute_outcome(joined, false),
        forall|other: Seq<u8>| #[trigger] joined_path_outcome(dir, path, other) <==> other == joined,
        forall|a: Result<Option<UriView>, ErrorView>, b: Result<Option<UriView>, ErrorView>|
            #[trigger] path_uri_outcome(Some(joined), directory, elsewhere, a)
                && #[trigger] path_uri_outcome(Some(joined), directory, elsewhere, b) ==> a == b,
        path_uri_outcome(Some(path), directory, Ok(dir), first),
        path_uri_outcome(Some(joined), directory, elsewhere, second),
    ensures
        first == second,
{
    law_relative_paths(path, directory, dir, elsewhere, first);
    assert(path_uri_outcome(Some(joined), directory, elsewhere, first));
}

/// A document whose references are all absolute comes to the same from its bytes as a slice as from
/// its file, if the bytes are parsed in one way only and its resources are settled.
pub proof fn law_slice_and_file_are_fixed<
    I: Importer,
    D,
    P: Fn(Vec<u8>) -> Result<Gltf<D>, Error>,
>(
    importer: I,
    parse: P,
    path: Seq<u8>,
    current_dir: Result<Seq<u8>, std::io::Error>,
    content: Seq<u8>,
    slice_dir: Result<Seq<u8>, std::io::Error>,
    gltf: Gltf<D>,
    view: ImportView<D>,
    sliced: Result<ImportView<D>, ErrorView>,
)
    requires
        self_contained(gltf.document),
        forall|argument: Vec<u8>, parsed: Result<Gltf<D>, Error>|
            argument@ == content && #[trigger] call_ensures(parse, (argument,), parsed) ==> parsed
                == Ok::<_, Error>(gltf),
        forall|
            first: Result<ImportView<D>, ErrorView>,
            second: Result<ImportView<D>, ErrorView>,
        |
            #[trigger] resources_outcome(importer, gltf, None, first)
                && #[trigger] resources_outcome(importer, gltf, None, second) ==> first == second,
        forall|uri: UriView, bytes: Seq<u8>|
            path_uri_outcome(Some(path), false, current_dir, Ok(Some(uri))) && #[trigger]
                read_outcome(importer, uri, Ok(bytes)) ==> bytes == content,
        import_path_outcome(importer, parse, path, current_dir, Ok(view)),
        import_slice_outcome(importer, parse, content, slice_dir, sliced),
    ensures
        sliced == Ok::<_, ErrorView>(view),
{
    let uri = choose|uri: Result<Option<UriView>, ErrorView>|
        #[trigger] path_uri_outcome(Some(path), false, current_dir, uri) && match uri {
            Ok(uri) => crate::import::import_outcome(importer, parse, uri->0, Ok(view)),
            Err(error) => Ok::<_, ErrorView>(view) == Err::<ImportView<D>, _>(error),
        };
    let place = uri->Ok_0->0;
    assert(path_uri_outcome(Some(path), false, current_dir, Ok(Some(place))));
    let read = choose|bytes: Result<Seq<u8>, ErrorView>|
        #[trigger] read_outcome(importer, place, bytes) && read_import_outcome(
            importer,
            parse,
            place,
            bytes,
            Ok(view),
        );
    assert(read_outcome(importer, place, Ok(read->Ok_0)));
    assert(parse_outcome(importer, parse, content, Some(place), Ok(view)));
    assert(resources_outcome(importer, gltf, Some(place), Ok(view)));
    lemma_self_contained(importer, gltf, Some(place), None, Ok(view));
    let base = choose|base: Option<UriView>|
        #[trigger] slice_base_outcome(slice_dir, base) && parse_outcome(
            importer,
            parse,
            content,
            base,
            sliced,
        );
    assert(resources_outcome(importer, gltf, base, sliced));
    lemma_self_contained(importer, gltf, base, None, sliced);
}

} // verus!
