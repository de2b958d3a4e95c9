//! Opening resources by URL.
use crate::error::{outcome, Error, ErrorView};
use crate::features::Features;
use crate::resource::{
    data_resource, file_outcome, wrap_outcome, DataResource, DefaultResource, DefaultResourceView,
    FileResource, FileView, Resource, ResourceView, SeekableWrapper,
};
use crate::stream::{Read, Seek};
use crate::text::str_eq;
use crate::uri::{Uri, UriView};
use vstd::prelude::*;

verus! {

/// Opens URLs.
///
/// An impl says in `accepts` which optional behaviour it asks for, and in `may_open` and
/// `may_open_seekable` what it may open a URL as. By default it is ready for any URL and may open
/// it as anything, and what it asks for is one choice that is not said; an impl that is to be
/// verified says which.
pub trait Importer: Sized {
    /// What URLs are opened as.
    type Opened: Resource;

    /// What URLs are opened as where their bytes are to be read in any order.
    type Seekable: Resource + Seek;

    /// The importer can be asked to open any URL.
    open spec fn ready(&self) -> bool {
        true
    }

    /// The optional behaviour that the importer asks for.
    open spec fn accepts(&self) -> Features {
        arbitrary()
    }

    /// Opening `uri` may give `opened`.
    open spec fn may_open(&self, uri: UriView, opened: Result<Self::Opened, Error>) -> bool {
        true
    }

    /// Opening `uri` for reading in any order may give `opened`.
    open spec fn may_open_seekable(
        &self,
        uri: UriView,
        opened: Result<Self::Seekable, Error>,
    ) -> bool {
        true
    }

    /// The optional behaviour that the importer asks for.
    fn features(&self) -> (features: Features)
        ensures
            features == self.accepts(),
    ;

    /// Opens `uri`.
    fn open(&self, uri: &Uri) -> (opened: Result<Self::Opened, Error>)
        requires
            self.ready(),
        ensures
            self.may_open(uri@, opened),
    ;

    /// Opens `uri` so that its bytes can be read in any order. An importer that has no other way
    /// answers with what [`open_in_memory`](Importer::open_in_memory) gives.
    fn open_seekable(&self, uri: &Uri) -> (opened: Result<Self::Seekable, Error>)
        requires
            self.ready(),
        ensures
            self.may_open_seekable(uri@, opened),
    ;

    /// Opens `uri` and reads all of it into memory.
    fn open_in_memory(&self, uri: &Uri) -> (opened: Result<SeekableWrapper, Error>)
        requires
            self.ready(),
        ensures
            exists|first: Result<Self::Opened, Error>|
                #[trigger] self.may_open(uri@, first) && match first {
                    Ok(resource) => wrap_outcome(resource, outcome(opened)),
                    Err(error) => outcome(opened) == Err::<ResourceView, _>(error@),
                },
    {
        match self.open(uri) {
            Ok(resource) => {
                assert(self.may_open(uri@, Ok(resource)));
                SeekableWrapper::new(resource)
            },
            Err(error) => {
                assert(self.may_open(uri@, Err(error)));
                Err(error)
            },
        }
    }
}

/// The media type of a resource and its bytes, or the failure to read them.
pub struct Loaded {
    pub media_type: Option<Seq<char>>,
    pub content: Result<Seq<u8>, std::io::Error>,
}

/// Reading all of what was opened may come to `loaded`.
pub open spec fn opened_as<R: Resource>(
    opened: Result<R, Error>,
    loaded: Result<Loaded, ErrorView>,
) -> bool {
    match loaded {
        Err(error) => opened matches Err(refused) && error == refused@,
        Ok(loaded) => opened matches Ok(resource) && loaded.media_type == resource.reports()
            && resource.may_yield(loaded.content),
    }
}

/// Opening `uri` and reading all of it may come to `loaded`.
pub open spec fn load_outcome<I: Importer>(
    importer: I,
    uri: UriView,
    loaded: Result<Loaded, ErrorView>,
) -> bool {
    exists|opened: Result<I::Opened, Error>|
        #[trigger] importer.may_open(uri, opened) && opened_as(opened, loaded)
}

/// Reading what is left of what was opened may give `bytes`.
pub open spec fn read_as<R: Read>(
    opened: Result<R, Error>,
    bytes: Result<Seq<u8>, ErrorView>,
) -> bool {
    match opened {
        Err(error) => bytes == Err::<Seq<u8>, _>(error@),
        Ok(reader) => exists|content: Result<Seq<u8>, std::io::Error>, left: R|
            #[trigger] reader.may_read_to_end(content, left) && bytes == match content {
                Ok(bytes) => Ok(bytes),
                Err(error) => Err(ErrorView::Io(error)),
            },
    }
}

/// Opening `uri` for reading in any order and reading it to the end may give `bytes`.
pub open spec fn read_outcome<I: Importer>(
    importer: I,
    uri: UriView,
    bytes: Result<Seq<u8>, ErrorView>,
) -> bool {
    exists|opened: Result<I::Seekable, Error>|
        #[trigger] importer.may_open_seekable(uri, opened) && read_as(opened, bytes)
}

/// Opens `data` URLs by decoding them, and `file` URLs through a function that opens files.
#[derive(Debug, Clone)]
pub struct DefaultImporter<O> {
    /// Opens the file at the path with these bytes.
    pub open_file: O,
    /// The optional behaviour to ask for.
    pub features: Features,
}

/// What the default importer may open `uri` as: `data` URLs are decoded, `file` URLs are opened,
/// and no other scheme is supported.
pub open spec fn default_outcome<H, O: Fn(Vec<u8>) -> Result<H, std::io::Error>>(
    importer: DefaultImporter<O>,
    uri: UriView,
    opened: Result<DefaultResourceView<H>, ErrorView>,
) -> bool {
    if uri.scheme == "data"@ {
        opened == match data_resource(uri.path) {
            Ok(resource) => Ok(DefaultResourceView::<H>::Data(resource)),
            Err(error) => Err(error),
        }
    } else if uri.scheme == "file"@ {
        exists|resource: Result<FileView<H>, ErrorView>|
            #[trigger] file_outcome(uri, importer.features, importer.open_file, resource)
                && opened == match resource {
                Ok(resource) => Ok(DefaultResourceView::File(resource)),
                Err(error) => Err(error),
            }
    } else {
        opened == Err::<DefaultResourceView<H>, _>(ErrorView::UnsupportedScheme)
    }
}

impl<H, O: Fn(Vec<u8>) -> Result<H, std::io::Error>> DefaultImporter<O> {
    /// Any path can be tried to be opened.
    pub open spec fn opens_any_path(&self) -> bool {
        forall|path: Vec<u8>| #[trigger] call_requires(self.open_file, (path,))
    }

    /// Opens `uri` by its scheme.
    pub fn open_by_scheme(&self, uri: &Uri) -> (opened: Result<DefaultResource<H>, Error>)
        requires
            self.opens_any_path(),
        ensures
            default_outcome(*self, uri@, outcome(opened)),
    {
        if str_eq(uri.scheme(), "data") {
            match DataResource::try_from(uri) {
                Ok(data) => Ok(DefaultResource::Data(data)),
                Err(error) => Err(error),
            }
        } else if str_eq(uri.scheme(), "file") {
            match FileResource::try_from(uri, self.features, &self.open_file) {
                Ok(file) => Ok(DefaultResource::File(file)),
                Err(error) => Err(error),
            }
        } else {
            Err(Error::UnsupportedScheme)
        }
    }
}

impl<H: Read + Seek, O: Fn(Vec<u8>) -> Result<H, std::io::Error>> Importer for DefaultImporter<O> {
    type Opened = DefaultResource<H>;

    type Seekable = DefaultResource<H>;

    open spec fn ready(&self) -> bool {
        self.opens_any_path()
    }

    open spec fn accepts(&self) -> Features {
        self.features
    }

    open spec fn may_open(&self, uri: UriView, opened: Result<DefaultResource<H>, Error>) -> bool {
        default_outcome(*self, uri, outcome(opened))
    }

    open spec fn may_open_seekable(
        &self,
        uri: UriView,
        opened: Result<DefaultResource<H>, Error>,
    ) -> bool {
        default_outcome(*self, uri, outcome(opened))
    }

    fn features(&self) -> (features: Features) {
        self.features
    }

    fn open(&self, uri: &Uri) -> (opened: Result<DefaultResource<H>, Error>) {
        self.open_seekable(uri)
    }

    fn open_seekable(&self, uri: &Uri) -> (opened: Result<DefaultResource<H>, Error>) {
        let opened = self.open_by_scheme(uri);
        assert(default_outcome(*self, uri@, outcome(opened)));
        assert(self.may_open_seekable(uri@, opened));
        opened
    }
}

} // verus!
