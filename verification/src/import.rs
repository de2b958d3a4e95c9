//! Importing the resources of a document.
use crate::buffer;
use crate::buffer::{blob_after, Buffer};
use crate::document::{Document, Gltf};
use crate::error::{opt_chars, outcome, Error, ErrorView};
use crate::image::Image;
use crate::importer::{read_as, read_outcome, DefaultImporter, Importer};
use crate::path::{
    current_dir_to_uri, dir_view, opt_uri_outcome, path_to_uri, path_uri_outcome, path_view,
    slice_base_outcome,
};
use crate::stream::{Read, Seek};
use crate::uri::{base_view, opt_bytes, resolve, resolved, FilePath, Uri, UriView};
use vstd::prelude::*;
use vstd::slice::*;

verus! {

/// A document with the bytes of its buffers and the pixels of its images.
pub type Import<D> = (Document<D>, Vec<buffer::Data>, Vec<crate::image::Data>);

/// The plain value of an [`Import`].
pub struct ImportView<D> {
    pub document: Document<D>,
    pub buffers: Seq<Seq<u8>>,
    pub images: Seq<crate::image::DataView>,
}

/// The plain value of imported buffers.
pub open spec fn buffers_view(buffers: Result<Vec<buffer::Data>, Error>) -> Result<
    Seq<Seq<u8>>,
    ErrorView,
> {
    match buffers {
        Ok(buffers) => Ok(buffer::data_views(buffers@)),
        Err(error) => Err(error@),
    }
}

/// The plain value of imported images.
pub open spec fn images_view(images: Result<Vec<crate::image::Data>, Error>) -> Result<
    Seq<crate::image::DataView>,
    ErrorView,
> {
    match images {
        Ok(images) => Ok(crate::image::data_views(images@)),
        Err(error) => Err(error@),
    }
}

/// The plain value of an import.
pub open spec fn import_view<D>(import: Result<Import<D>, Error>) -> Result<
    ImportView<D>,
    ErrorView,
> {
    match import {
        Ok((document, buffers, images)) => Ok(
            ImportView {
                document,
                buffers: buffer::data_views(buffers@),
                images: crate::image::data_views(images@),
            },
        ),
        Err(error) => Err(error@),
    }
}

/// What is left of the binary section before buffer `at` is imported: a buffer that refers to it
/// takes it.
pub open spec fn blob_before<B>(buffers: Seq<Buffer>, at: int, blob: Option<B>) -> Option<B>
    decreases at,
{
    if at <= 0 {
        blob
    } else {
        blob_after(buffers[at - 1].source, blob_before(buffers, at - 1, blob))
    }
}

/// A buffer may come to hold `data`, which is at least as long as declared.
pub open spec fn buffer_imported<I: Importer>(
    importer: I,
    declared: Buffer,
    base: Option<UriView>,
    blob: Option<Seq<u8>>,
    data: Seq<u8>,
) -> bool {
    &&& buffer::source_outcome(importer, declared.source, base, blob, Ok(data))
    &&& data.len() >= declared.length
}

/// The first buffers of a document may come to hold `imported`.
pub open spec fn buffers_imported<I: Importer>(
    importer: I,
    buffers: Seq<Buffer>,
    base: Option<UriView>,
    blob: Option<Seq<u8>>,
    imported: Seq<Seq<u8>>,
) -> bool {
    &&& imported.len() <= buffers.len()
    &&& forall|i: int|
        0 <= i < imported.len() ==> buffer_imported(
            importer,
            buffers[i],
            base,
            blob_before(buffers, i, blob),
            #[trigger] imported[i],
        )
}

/// Buffer `at` may fail with `error`: it cannot be had, or it is shorter than declared.
pub open spec fn buffer_fails<I: Importer>(
    importer: I,
    buffers: Seq<Buffer>,
    base: Option<UriView>,
    blob: Option<Seq<u8>>,
    at: int,
    error: ErrorView,
) -> bool {
    let source = buffers[at].source;
    let blob = blob_before(buffers, at, blob);
    ||| buffer::source_outcome(importer, source, base, blob, Err(error))
    ||| exists|data: Seq<u8>|
        {
            &&& #[trigger] buffer::source_outcome(importer, source, base, blob, Ok(data))
            &&& data.len() < buffers[at].length
            &&& error == ErrorView::BufferLength {
                buffer: at as usize,
                expected: buffers[at].length,
                actual: data.len() as usize,
            }
        }
}

/// The buffers of a document may come to `result`: all of them in order, or the error of the first
/// that fails.
pub open spec fn buffers_outcome<I: Importer>(
    importer: I,
    buffers: Seq<Buffer>,
    base: Option<UriView>,
    blob: Option<Seq<u8>>,
    result: Result<Seq<Seq<u8>>, ErrorView>,
) -> bool {
    match result {
        Ok(imported) => {
            &&& imported.len() == buffers.len()
            &&& buffers_imported(importer, buffers, base, blob, imported)
        },
        Err(error) => exists|imported: Seq<Seq<u8>>|
            {
                &&& #[trigger] buffers_imported(importer, buffers, base, blob, imported)
                &&& imported.len() < buffers.len()
                &&& buffer_fails(
                    importer,
                    buffers,
                    base,
                    blob,
                    imported.len() as int,
                    error,
                )
            },
    }
}

/// An image from `source` may come to be `data`, and lies inside its buffer if it is a view.
pub open spec fn image_imported<I: Importer>(
    importer: I,
    source: crate::image::Source,
    base: Option<UriView>,
    buffers: Seq<Seq<u8>>,
    data: crate::image::DataView,
) -> bool {
    &&& crate::image::source_fits(source, buffers)
    &&& crate::image::source_outcome(importer, source, base, buffers, Ok(data))
}

/// The first images of a document may come to be `imported`.
pub open spec fn images_imported<I: Importer>(
    importer: I,
    images: Seq<Image>,
    base: Option<UriView>,
    buffers: Seq<Seq<u8>>,
    imported: Seq<crate::image::DataView>,
) -> bool {
    &&& imported.len() <= images.len()
    &&& forall|i: int|
        0 <= i < imported.len() ==> image_imported(
            importer,
            images[i].source,
            base,
            buffers,
            #[trigger] imported[i],
        )
}

/// Image `at` may fail with `error`: it cannot be had, or refers to bytes that its buffer lacks.
pub open spec fn image_fails<I: Importer>(
    importer: I,
    images: Seq<Image>,
    base: Option<UriView>,
    buffers: Seq<Seq<u8>>,
    at: int,
    error: ErrorView,
) -> bool {
    if crate::image::source_fits(images[at].source, buffers) {
        crate::image::source_outcome(importer, images[at].source, base, buffers, Err(error))
    } else {
        error == ErrorView::ViewOutOfBounds { image: at as usize }
    }
}

/// The images of a document may come to `result`: all of them in order, or the error of the first
/// that fails.
pub open spec fn images_outcome<I: Importer>(
    importer: I,
    images: Seq<Image>,
    base: Option<UriView>,
    buffers: Seq<Seq<u8>>,
    result: Result<Seq<crate::image::DataView>, ErrorView>,
) -> bool {
    match result {
        Ok(imported) => {
            &&& imported.len() == images.len()
            &&& images_imported(importer, images, base, buffers, imported)
        },
        Err(error) => exists|imported: Seq<crate::image::DataView>|
            {
                &&& #[trigger] images_imported(importer, images, base, buffers, imported)
                &&& imported.len() < images.len()
                &&& image_fails(
                    importer,
                    images,
                    base,
                    buffers,
                    imported.len() as int,
                    error,
                )
            },
    }
}

/// The resources of a document may come to `import`: first the buffers, and then the images, which
/// may refer to them.
pub open spec fn resources_outcome<I: Importer, D>(
    importer: I,
    gltf: Gltf<D>,
    base: Option<UriView>,
    import: Result<ImportView<D>, ErrorView>,
) -> bool {
    let buffers = gltf.document.buffers@;
    let images = gltf.document.images@;
    let blob = opt_bytes(gltf.blob);
    match import {
        Ok(view) => {
            &&& view.document == gltf.document
            &&& buffers_outcome(importer, buffers, base, blob, Ok(view.buffers))
            &&& images_outcome(importer, images, base, view.buffers, Ok(view.images))
        },
        Err(error) => {
            ||| buffers_outcome(importer, buffers, base, blob, Err(error))
            ||| exists|imported: Seq<Seq<u8>>|
                {
                    &&& #[trigger] buffers_outcome(importer, buffers, base, blob, Ok(imported))
                    &&& images_outcome(importer, images, base, imported, Err(error))
                }
        },
    }
}

/// `import` is what the bytes of a document at `base` may come to: they are parsed, and then the
/// resources of the document are imported.
pub open spec fn parse_outcome<I: Importer, D, P: Fn(Vec<u8>) -> Result<Gltf<D>, Error>>(
    importer: I,
    parse: P,
    bytes: Seq<u8>,
    base: Option<UriView>,
    import: Result<ImportView<D>, ErrorView>,
) -> bool {
    exists|argument: Vec<u8>, parsed: Result<Gltf<D>, Error>|
        argument@ == bytes && #[trigger] call_ensures(parse, (argument,), parsed) && match parsed {
            Ok(gltf) => resources_outcome(importer, gltf, base, import),
            Err(error) => import == Err::<ImportView<D>, _>(error@),
        }
}

/// `import` is what the document at `uri` may come to, once its bytes were read or could not be.
pub open spec fn read_import_outcome<I: Importer, D, P: Fn(Vec<u8>) -> Result<Gltf<D>, Error>>(
    importer: I,
    parse: P,
    uri: UriView,
    bytes: Result<Seq<u8>, ErrorView>,
    import: Result<ImportView<D>, ErrorView>,
) -> bool {
    match bytes {
        Err(error) => import == Err::<ImportView<D>, _>(error),
        Ok(bytes) => parse_outcome(importer, parse, bytes, Some(uri), import),
    }
}

/// `import` is what the document at `uri` may come to. Its references are relative to `uri`.
pub open spec fn import_outcome<I: Importer, D, P: Fn(Vec<u8>) -> Result<Gltf<D>, Error>>(
    importer: I,
    parse: P,
    uri: UriView,
    import: Result<ImportView<D>, ErrorView>,
) -> bool {
    exists|bytes: Result<Seq<u8>, ErrorView>|
        #[trigger] read_outcome(importer, uri, bytes) && read_import_outcome(
            importer,
            parse,
            uri,
            bytes,
            import,
        )
}

/// `import` is what the document in the file at `path` may come to.
pub open spec fn import_path_outcome<I: Importer, D, P: Fn(Vec<u8>) -> Result<Gltf<D>, Error>>(
    importer: I,
    parse: P,
    path: Seq<u8>,
    current_dir: Result<Seq<u8>, std::io::Error>,
    import: Result<ImportView<D>, ErrorView>,
) -> bool {
    exists|uri: Result<Option<UriView>, ErrorView>|
        #[trigger] path_uri_outcome(Some(path), false, current_dir, uri) && match uri {
            Ok(uri) => import_outcome(importer, parse, uri->0, import),
            Err(error) => import == Err::<ImportView<D>, _>(error),
        }
}

/// The document can be parsed whatever its bytes are.
pub open spec fn parses_any<D, P: Fn(Vec<u8>) -> Result<Gltf<D>, Error>>(parse: P) -> bool {
    forall|bytes: Vec<u8>| #[trigger] call_requires(parse, (bytes,))
}

/// Imports the resources of documents through an [`Importer`].
pub trait ImporterExt: Importer {
    /// Resolves the reference `uri` in a document at `base`.
    fn resolve(&self, uri: &str, base: Option<&Uri>) -> (resolution: Result<Uri, Error>)
        ensures
            outcome(resolution) == resolved(uri@, base_view(base)),
    {
        resolve(uri, base)
    }

    /// Imports the buffers of a document at `base`, with the binary section `blob`.
    fn import_buffers<D>(
        &self,
        document: &Document<D>,
        base: Option<&Uri>,
        blob: Option<Vec<u8>>,
    ) -> (buffers: Result<Vec<buffer::Data>, Error>)
        requires
            self.ready(),
        ensures
            buffers_outcome(
                *self,
                document.buffers@,
                base_view(base),
                opt_bytes(blob),
                buffers_view(buffers),
            ),
    {
        let ghost given = opt_bytes(blob);
        let ghost from = base_view(base);
        let mut rest = blob;
        let mut buffers: Vec<buffer::Data> = Vec::new();
        let mut i: usize = 0;
        assert(buffer::data_views(buffers@) =~= Seq::empty());
        while i < document.buffers.len()
            invariant
                self.ready(),
                from == base_view(base),
                0 <= i <= document.buffers.len(),
                buffers@.len() == i,
                given == opt_bytes(blob),
                opt_bytes(rest) == blob_before(document.buffers@, i as int, given),
                buffers_imported(
                    *self,
                    document.buffers@,
                    from,
                    given,
                    buffer::data_views(buffers@),
                ),
            decreases document.buffers.len() - i,
        {
            let declared = &document.buffers[i];
            let ghost before = buffer::data_views(buffers@);
            let data = match buffer::Data::import_from_source_and_blob(
                self,
                &declared.source,
                base,
                &mut rest,
            ) {
                Ok(data) => data,
                Err(error) => {
                    assert(buffer_fails(
                        *self,
                        document.buffers@,
                        from,
                        given,
                        before.len() as int,
                        error@,
                    ));
                    return Err(error);
                },
            };
            if data.0.len() < declared.length {
                let ghost error = ErrorView::BufferLength {
                    buffer: i,
                    expected: declared.length,
                    actual: data@.len() as usize,
                };
                assert(buffer::source_outcome(
                    *self,
                    declared.source,
                    from,
                    blob_before(document.buffers@, i as int, given),
                    Ok(data@),
                ));
                assert(buffer_fails(
                    *self,
                    document.buffers@,
                    from,
                    given,
                    before.len() as int,
                    error,
                ));
                return Err(
                    Error::BufferLength {
                        buffer: i,
                        expected: declared.length,
                        actual: data.0.len(),
                    },
                );
            }
            assert(buffer_imported(
                *self,
                *declared,
                from,
                blob_before(document.buffers@, i as int, given),
                data@,
            ));
            buffers.push(data);
            assert(buffer::data_views(buffers@) =~= before.push(data@));
            i += 1;
        }
        Ok(buffers)
    }

    /// Imports the images of a document at `base`, with these buffers.
    fn import_images<D>(
        &self,
        document: &Document<D>,
        base: Option<&Uri>,
        buffer_data: &[buffer::Data],
    ) -> (images: Result<Vec<crate::image::Data>, Error>)
        requires
            self.ready(),
        ensures
            images_outcome(
                *self,
                document.images@,
                base_view(base),
                buffer::data_views(buffer_data@),
                images_view(images),
            ),
    {
        let ghost from = base_view(base);
        let ghost buffers = buffer::data_views(buffer_data@);
        let mut images: Vec<crate::image::Data> = Vec::new();
        let mut i: usize = 0;
        assert(crate::image::data_views(images@) =~= Seq::empty());
        while i < document.images.len()
            invariant
                self.ready(),
                from == base_view(base),
                buffers == buffer::data_views(buffer_data@),
                0 <= i <= document.images.len(),
                images@.len() == i,
                images_imported(
                    *self,
                    document.images@,
                    from,
                    buffers,
                    crate::image::data_views(images@),
                ),
            decreases document.images.len() - i,
        {
            let source = &document.images[i].source;
            let ghost before = crate::image::data_views(images@);
            if !check_fits(source, buffer_data) {
                assert(image_fails(
                    *self,
                    document.images@,
                    from,
                    buffers,
                    before.len() as int,
                    ErrorView::ViewOutOfBounds { image: i },
                ));
                return Err(Error::ViewOutOfBounds { image: i });
            }
            match crate::image::Data::import_from_source(self, source, base, buffer_data) {
                Ok(data) => {
                    images.push(data);
                    let ghost after = crate::image::data_views(images@);
                    assert(after =~= before.push(data@));
                    assert(image_imported(*self, *source, from, buffers, data@));
                },
                Err(error) => {
                    assert(image_fails(
                        *self,
                        document.images@,
                        from,
                        buffers,
                        before.len() as int,
                        error@,
                    ));
                    return Err(error);
                },
            }
            i += 1;
        }
        Ok(images)
    }

    /// Imports the buffers of a document at `base`, and then its images.
    fn import_resources<D>(&self, gltf: Gltf<D>, base: Option<&Uri>) -> (import: Result<
        Import<D>,
        Error,
    >)
        requires
            self.ready(),
        ensures
            resources_outcome(*self, gltf, base_view(base), import_view(import)),
    {
        let Gltf { document, blob } = gltf;
        let buffer_data = match self.import_buffers(&document, base, blob) {
            Ok(buffer_data) => buffer_data,
            Err(error) => return Err(error),
        };
        let image_data = match self.import_images(&document, base, buffer_data.as_slice()) {
            Ok(image_data) => image_data,
            Err(error) => {
                assert(buffers_outcome(
                    *self,
                    gltf.document.buffers@,
                    base_view(base),
                    opt_bytes(gltf.blob),
                    Ok(buffer::data_views(buffer_data@)),
                ));
                return Err(error);
            },
        };
        Ok((document, buffer_data, image_data))
    }

    /// Imports the document at `uri`, which `parse` makes of its bytes.
    fn import<D, P: Fn(Vec<u8>) -> Result<Gltf<D>, Error>>(&self, uri: &Uri, parse: P) -> (import:
        Result<Import<D>, Error>)
        requires
            self.ready(),
            parses_any(parse),
        ensures
            import_outcome(*self, parse, uri@, import_view(import)),
    {
        let opened = self.open_seekable(uri);
        let ghost first = opened;
        match opened {
            Err(error) => {
                assert(read_as(first, Err(error@)));
                assert(read_outcome(*self, uri@, Err(error@)));
                Err(error)
            },
            Ok(resource) => {
                let mut reader = resource;
                match reader.read_to_end() {
                    Err(error) => {
                        assert(resource.may_read_to_end(Err(error), reader));
                        assert(read_as(first, Err(ErrorView::Io(error))));
                        assert(read_outcome(*self, uri@, Err(ErrorView::Io(error))));
                        Err(Error::Io(error))
                    },
                    Ok(bytes) => {
                        assert(resource.may_read_to_end(Ok(bytes@), reader));
                        assert(read_as(first, Ok(bytes@)));
                        assert(read_outcome(*self, uri@, Ok(bytes@)));
                        let parsed = parse(bytes);
                        assert(call_ensures(parse, (bytes,), parsed));
                        match parsed {
                            Ok(gltf) => self.import_resources(gltf, Some(uri)),
                            Err(error) => Err(error),
                        }
                    },
                }
            },
        }
    }

    /// Imports the document in the file at `path`, which is taken from `current_dir` on unless it
    /// is absolute.
    fn import_path<D, P: Fn(Vec<u8>) -> Result<Gltf<D>, Error>>(
        &self,
        path: &FilePath,
        current_dir: Result<FilePath, std::io::Error>,
        parse: P,
    ) -> (import: Result<Import<D>, Error>)
        requires
            self.ready(),
            parses_any(parse),
        ensures
            import_path_outcome(*self, parse, path@, dir_view(current_dir), import_view(import)),
    {
        let located = path_to_uri(Some(path), current_dir);
        match located {
            Err(error) => Err(error),
            Ok(uri) => self.import(&uri.unwrap(), parse),
        }
    }

    /// Imports the document that `parse` makes of `slice`. It has no place of its own, so a
    /// relative reference in it is an error.
    fn import_slice<D, P: Fn(Vec<u8>) -> Result<Gltf<D>, Error>>(
        &self,
        slice: &[u8],
        parse: P,
    ) -> (import: Result<Import<D>, Error>)
        requires
            self.ready(),
            parses_any(parse),
        ensures
            parse_outcome(*self, parse, slice@, None, import_view(import)),
    {
        let bytes = slice_to_vec(slice);
        let parsed = parse(bytes);
        assert(call_ensures(parse, (bytes,), parsed));
        match parsed {
            Ok(gltf) => self.import_resources(gltf, None),
            Err(error) => Err(error),
        }
    }
}

/// Whether `source` is not a view, or one that lies inside its buffer.
pub fn check_fits(source: &crate::image::Source, buffer_data: &[buffer::Data]) -> (fit: bool)
    ensures
        fit == crate::image::source_fits(*source, buffer::data_views(buffer_data@)),
{
    match source {
        crate::image::Source::Uri { .. } => true,
        crate::image::Source::View { view, .. } => {
            if view.buffer >= buffer_data.len() {
                return false;
            }
            let bytes: &[u8] = buffer_data[view.buffer].0.as_slice();
            assert(bytes@ == buffer::data_views(buffer_data@)[view.buffer as int]);
            view.offset <= bytes.len() && view.length <= bytes.len() - view.offset
        },
    }
}

impl<T: Importer> ImporterExt for T {

}

/// The buffers of a document whose references are relative to the file at `base` may come to
/// `result`.
pub open spec fn path_buffers_outcome<I: Importer>(
    importer: I,
    buffers: Seq<Buffer>,
    base: Option<Seq<u8>>,
    current_dir: Result<Seq<u8>, std::io::Error>,
    blob: Option<Seq<u8>>,
    result: Result<Seq<Seq<u8>>, ErrorView>,
) -> bool {
    exists|uri: Result<Option<UriView>, ErrorView>|
        #[trigger] path_uri_outcome(base, false, current_dir, uri) && match uri {
            Err(error) => result == Err::<Seq<Seq<u8>>, _>(error),
            Ok(uri) => buffers_outcome(importer, buffers, uri, blob, result),
        }
}

/// The images of a document whose references are relative to the file at `base` may come to
/// `result`.
pub open spec fn path_images_outcome<I: Importer>(
    importer: I,
    images: Seq<Image>,
    base: Option<Seq<u8>>,
    current_dir: Result<Seq<u8>, std::io::Error>,
    buffers: Seq<Seq<u8>>,
    result: Result<Seq<crate::image::DataView>, ErrorView>,
) -> bool {
    exists|uri: Result<Option<UriView>, ErrorView>|
        #[trigger] path_uri_outcome(base, false, current_dir, uri) && match uri {
            Err(error) => result == Err::<Seq<crate::image::DataView>, _>(error),
            Ok(uri) => images_outcome(importer, images, uri, buffers, result),
        }
}

/// Imports the buffers of a document, without its images. References are relative to the file at
/// `base`, which is taken from `current_dir` on unless it is absolute.
pub fn import_buffers<H: Read + Seek, O: Fn(Vec<u8>) -> Result<H, std::io::Error>, D>(
    document: &Document<D>,
    base: Option<&FilePath>,
    blob: Option<Vec<u8>>,
    importer: &DefaultImporter<O>,
    current_dir: Result<FilePath, std::io::Error>,
) -> (buffers: Result<Vec<buffer::Data>, Error>)
    requires
        importer.opens_any_path(),
    ensures
        path_buffers_outcome(
            *importer,
            document.buffers@,
            path_view(base),
            dir_view(current_dir),
            opt_bytes(blob),
            buffers_view(buffers),
        ),
{
    let located = path_to_uri(base, current_dir);
    let ghost found = opt_uri_outcome(located);
    assert(path_uri_outcome(path_view(base), false, dir_view(current_dir), found));
    match located {
        Err(error) => Err(error),
        Ok(uri) => {
            let uri = uri.as_ref();
            assert(base_view(uri) == found->Ok_0);
            importer.import_buffers(document, uri, blob)
        },
    }
}

/// Imports the images of a document, given the bytes of its buffers. References are relative to
/// the file at `base`, which is taken from `current_dir` on unless it is absolute.
pub fn import_images<H: Read + Seek, O: Fn(Vec<u8>) -> Result<H, std::io::Error>, D>(
    document: &Document<D>,
    base: Option<&FilePath>,
    buffer_data: &[buffer::Data],
    importer: &DefaultImporter<O>,
    current_dir: Result<FilePath, std::io::Error>,
) -> (images: Result<Vec<crate::image::Data>, Error>)
    requires
        importer.opens_any_path(),
    ensures
        path_images_outcome(
            *importer,
            document.images@,
            path_view(base),
            dir_view(current_dir),
            buffer::data_views(buffer_data@),
            images_view(images),
        ),
{
    let located = path_to_uri(base, current_dir);
    let ghost found = opt_uri_outcome(located);
    assert(path_uri_outcome(path_view(base), false, dir_view(current_dir), found));
    match located {
        Err(error) => Err(error),
        Ok(uri) => {
            let uri = uri.as_ref();
            assert(base_view(uri) == found->Ok_0);
            importer.import_images(document, uri, buffer_data)
        },
    }
}

/// Imports the document in the file at `path`, which is taken from `current_dir` on unless it is
/// absolute, with the resources that it refers to.
pub fn import<
    H: Read + Seek,
    O: Fn(Vec<u8>) -> Result<H, std::io::Error>,
    D,
    P: Fn(Vec<u8>) -> Result<Gltf<D>, Error>,
>(
    path: &FilePath,
    importer: &DefaultImporter<O>,
    current_dir: Result<FilePath, std::io::Error>,
    parse: P,
) -> (import: Result<Import<D>, Error>)
    requires
        importer.opens_any_path(),
        parses_any(parse),
    ensures
        import_path_outcome(*importer, parse, path@, dir_view(current_dir), import_view(import)),
{
    importer.import_path(path, current_dir, parse)
}

/// `import` is what a document in memory may come to, with references relative to the current
/// directory.
pub open spec fn import_slice_outcome<I: Importer, D, P: Fn(Vec<u8>) -> Result<Gltf<D>, Error>>(
    importer: I,
    parse: P,
    slice: Seq<u8>,
    current_dir: Result<Seq<u8>, std::io::Error>,
    import: Result<ImportView<D>, ErrorView>,
) -> bool {
    exists|base: Option<UriView>|
        #[trigger] slice_base_outcome(current_dir, base) && parse_outcome(
            importer,
            parse,
            slice,
            base,
            import,
        )
}

/// Imports the document that `parse` makes of `slice`, with the resources that it refers to. File
/// paths in it are taken to be relative to the current directory; where that is not known, such a
/// path is an error.
pub fn import_slice<
    H: Read + Seek,
    O: Fn(Vec<u8>) -> Result<H, std::io::Error>,
    D,
    P: Fn(Vec<u8>) -> Result<Gltf<D>, Error>,
>(
    slice: &[u8],
    importer: &DefaultImporter<O>,
    current_dir: Result<FilePath, std::io::Error>,
    parse: P,
) -> (import: Result<Import<D>, Error>)
    requires
        importer.opens_any_path(),
        parses_any(parse),
    ensures
        import_slice_outcome(
            *importer,
            parse,
            slice@,
            dir_view(current_dir),
            import_view(import),
        ),
{
    let base = current_dir_to_uri(current_dir);
    let base = base.as_ref();
    assert(slice_base_outcome(dir_view(current_dir), base_view(base)));
    let bytes = slice_to_vec(slice);
    let parsed = parse(bytes);
    assert(call_ensures(parse, (bytes,), parsed));
    match parsed {
        Ok(gltf) => importer.import_resources(gltf, base),
        Err(error) => Err(error),
    }
}

} // verus!
