//! Buffers: where their bytes come from, and the bytes.
use crate::error::{opt_chars, outcome, Error, ErrorView};
use crate::importer::{load_outcome, DefaultImporter, Importer, Loaded};
use crate::path::{dir_view, directory_to_uri, opt_uri_outcome, path_uri_outcome, path_view};
use crate::resource::Resource;
use crate::stream::{Read, Seek};
use crate::uri::{base_view, opt_bytes, resolve, resolved, FilePath, Uri, UriView};
use vstd::prelude::*;

verus! {

/// Where the bytes of a buffer come from.
#[derive(Debug)]
pub enum Source {
    /// The resource that this reference names.
    Uri(String),
    /// The binary section of the file that the document came in.
    Bin,
}

/// A buffer as the document declares it.
#[derive(Debug)]
pub struct Buffer {
    pub source: Source,
    /// How many bytes the buffer has at least.
    pub length: usize,
}

/// The bytes of a buffer.
#[derive(Debug)]
pub struct Data(pub Vec<u8>);

impl View for Data {
    type V = Seq<u8>;

    open spec fn view(&self) -> Seq<u8> {
        self.0@
    }
}

/// The plain value of the bytes of several buffers.
pub open spec fn data_views(buffers: Seq<Data>) -> Seq<Seq<u8>> {
    buffers.map_values(|data: Data| data@)
}

/// How many zeros `len` bytes lack to a multiple of four.
pub open spec fn padding(len: nat) -> nat {
    ((4 - len % 4) % 4) as nat
}

/// `bytes`, with as few zeros at the end as make their number a multiple of four.
pub open spec fn padded(bytes: Seq<u8>) -> Seq<u8> {
    bytes + Seq::new(padding(bytes.len()), |i: int| 0u8)
}

/// What a buffer holds once its resource was opened and read, or could not be.
pub open spec fn loaded_data(loaded: Result<Loaded, ErrorView>) -> Result<Seq<u8>, ErrorView> {
    match loaded {
        Err(error) => Err(error),
        Ok(loaded) => match loaded.content {
            Err(error) => Err(ErrorView::Io(error)),
            Ok(bytes) => Ok(padded(bytes)),
        },
    }
}

/// What a buffer that refers to the binary section holds.
pub open spec fn blob_data(blob: Option<Seq<u8>>) -> Result<Seq<u8>, ErrorView> {
    match blob {
        Some(bytes) => Ok(padded(bytes)),
        None => Err(ErrorView::MissingBlob),
    }
}

/// A buffer from `source`, in a document at `base` with the binary section `blob`, may come to
/// hold `data`.
pub open spec fn source_outcome<I: Importer>(
    importer: I,
    source: Source,
    base: Option<UriView>,
    blob: Option<Seq<u8>>,
    data: Result<Seq<u8>, ErrorView>,
) -> bool {
    match source {
        Source::Bin => data == blob_data(blob),
        Source::Uri(reference) => match resolved(reference@, base) {
            Err(error) => data == Err::<Seq<u8>, _>(error),
            Ok(uri) => exists|loaded: Result<Loaded, ErrorView>|
                #[trigger] load_outcome(importer, uri, loaded) && data == loaded_data(loaded),
        },
    }
}

/// What is left of the binary section after a buffer from `source` was imported.
pub open spec fn blob_after<B>(source: Source, blob: Option<B>) -> Option<B> {
    match source {
        Source::Bin => None,
        Source::Uri(_) => blob,
    }
}

/// `data` is what comes of opening a resource with the result `opened`.
pub open spec fn opened_data_outcome<R: Resource>(
    opened: Result<R, Error>,
    data: Result<Seq<u8>, ErrorView>,
) -> bool {
    match opened {
        Err(error) => data == Err::<Seq<u8>, _>(error@),
        Ok(resource) => exists|content: Result<Seq<u8>, std::io::Error>|
            #[trigger] resource.may_yield(content) && data == loaded_data(
                Ok(Loaded { media_type: resource.reports(), content }),
            ),
    }
}

/// Opening a resource and then reading it is loading it.
proof fn lemma_opened_data<I: Importer>(
    importer: I,
    uri: UriView,
    opened: Result<I::Opened, Error>,
    data: Result<Seq<u8>, ErrorView>,
)
    requires
        importer.may_open(uri, opened),
        opened_data_outcome(opened, data),
    ensures
        exists|loaded: Result<Loaded, ErrorView>|
            #[trigger] load_outcome(importer, uri, loaded) && data == loaded_data(loaded),
{
    let loaded: Result<Loaded, ErrorView> = match opened {
        Err(error) => Err(error@),
        Ok(resource) => {
            let content = choose|content: Result<Seq<u8>, std::io::Error>|
                #[trigger] resource.may_yield(content) && data == loaded_data(
                    Ok(Loaded { media_type: resource.reports(), content }),
                );
            Ok(Loaded { media_type: resource.reports(), content })
        },
    };
    assert(load_outcome(importer, uri, loaded));
}

/// A buffer from `source`, with references resolved in the directory `dir`, may come to hold
/// `data`, and the binary section then is `left`. Where the directory has no URL, nothing is
/// imported and the binary section stays.
pub open spec fn directory_source_outcome<I: Importer>(
    importer: I,
    source: Source,
    dir: Option<Seq<u8>>,
    current_dir: Result<Seq<u8>, std::io::Error>,
    blob: Option<Vec<u8>>,
    left: Option<Vec<u8>>,
    data: Result<Seq<u8>, ErrorView>,
) -> bool {
    exists|base: Result<Option<UriView>, ErrorView>|
        #[trigger] path_uri_outcome(dir, true, current_dir, base) && match base {
            Err(error) => data == Err::<Seq<u8>, _>(error) && left == blob,
            Ok(base) => source_outcome(importer, source, base, opt_bytes(blob), data) && left
                == blob_after(source, blob),
        }
}

impl Data {
    /// The bytes of a buffer, padded with zeros to a multiple of four.
    pub fn from_bytes(bytes: Vec<u8>) -> (data: Data)
        ensures
            data@ == padded(bytes@),
    {
        let ghost given = bytes@;
        let mut data = bytes;
        while data.len() % 4 != 0
            invariant
                data@.len() >= given.len(),
                data@ == given + Seq::new((data@.len() - given.len()) as nat, |i: int| 0u8),
                data@.len() + padding(data@.len()) == given.len() + padding(given.len()),
            decreases padding(data@.len()),
        {
            data.push(0);
            assert(data@ =~= given + Seq::new((data@.len() - given.len()) as nat, |i: int| 0u8));
        }
        Data(data)
    }

    /// The bytes of a buffer from an opened resource.
    pub fn from_opened<R: Resource>(opened: Result<R, Error>) -> (data: Result<Data, Error>)
        ensures
            opened_data_outcome(opened, outcome(data)),
    {
        match opened {
            Err(error) => Err(error),
            Ok(resource) => {
                match resource.into_bytes() {
                    Ok(bytes) => {
                        assert(resource.may_yield(Ok(bytes@)));
                        Ok(Data::from_bytes(bytes))
                    },
                    Err(error) => {
                        assert(resource.may_yield(Err(error)));
                        Err(Error::Io(error))
                    },
                }
            },
        }
    }

    /// Imports a buffer from `source`, in a document at `base`. `blob` is the binary section, and
    /// is taken where `source` refers to it.
    pub fn import_from_source_and_blob<I: Importer>(
        importer: &I,
        source: &Source,
        base: Option<&Uri>,
        blob: &mut Option<Vec<u8>>,
    ) -> (data: Result<Data, Error>)
        requires
            importer.ready(),
        ensures
            source_outcome(*importer, *source, base_view(base), opt_bytes(*old(blob)), outcome(data)),
            *final(blob) == blob_after(*source, *old(blob)),
    {
        match source {
            Source::Bin => match blob.take() {
                Some(bytes) => Ok(Data::from_bytes(bytes)),
                None => Err(Error::MissingBlob),
            },
            Source::Uri(reference) => {
                let uri = match resolve(reference.as_str(), base) {
                    Ok(uri) => uri,
                    Err(error) => return Err(error),
                };
                let opened = importer.open(&uri);
                let data = Data::from_opened(opened);
                proof {
                    let target = resolved(reference@, base_view(base))->Ok_0;
                    lemma_opened_data(*importer, target, opened, outcome(data));
                }
                data
            },
        }
    }

    /// Imports a buffer from `source`. If `base` is given, references are resolved from this
    /// directory. `blob` is the binary section, and is taken where `source` refers to it.
    pub fn from_source_and_blob<
        H: Read + Seek,
        O: Fn(Vec<u8>) -> Result<H, std::io::Error>,
    >(
        source: &Source,
        base: Option<&FilePath>,
        blob: &mut Option<Vec<u8>>,
        importer: &DefaultImporter<O>,
        current_dir: Result<FilePath, std::io::Error>,
    ) -> (data: Result<Data, Error>)
        requires
            importer.opens_any_path(),
        ensures
            directory_source_outcome(
                *importer,
                *source,
                path_view(base),
                dir_view(current_dir),
                *old(blob),
                *final(blob),
                outcome(data),
            ),
    {
        let located = directory_to_uri(base, current_dir);
        let ghost found = opt_uri_outcome(located);
        assert(path_uri_outcome(path_view(base), true, dir_view(current_dir), found));
        match located {
            Err(error) => Err(error),
            Ok(uri) => {
                let uri = uri.as_ref();
                assert(base_view(uri) == found->Ok_0);
                Data::import_from_source_and_blob(importer, source, uri, blob)
            },
        }
    }

    /// Imports a buffer from `source`, without a binary section. If `base` is given, references
    /// are resolved from this directory.
    pub fn from_source<
        H: Read + Seek,
        O: Fn(Vec<u8>) -> Result<H, std::io::Error>,
    >(
        source: &Source,
        base: Option<&FilePath>,
        importer: &DefaultImporter<O>,
        current_dir: Result<FilePath, std::io::Error>,
    ) -> (data: Result<Data, Error>)
        requires
            importer.opens_any_path(),
        ensures
            directory_source_outcome(
                *importer,
                *source,
                path_view(base),
                dir_view(current_dir),
                None,
                None,
                outcome(data),
            ),
    {
        let mut blob: Option<Vec<u8>> = None;
        Data::from_source_and_blob(source, base, &mut blob, importer, current_dir)
    }
}

} // verus!
