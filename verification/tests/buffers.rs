use gltf_import::cursor::Cursor;
use gltf_import::buffer::{Buffer, Data, Source};
use gltf_import::document::Document;
use gltf_import::error::{Base64Error, Error};
use gltf_import::features::Features;
use gltf_import::import::{import_buffers, ImporterExt};
use gltf_import::importer::{DefaultImporter, Importer};
use gltf_import::resource::{Resource, SeekableWrapper};
use gltf_import::stream::Read;
use gltf_import::uri::{FilePath, Uri};

/// Opens what `read` gives as a file in memory.
fn opening<F>(read: F) -> impl Fn(Vec<u8>) -> std::io::Result<Cursor>
where
    F: Fn(Vec<u8>) -> std::io::Result<Vec<u8>>,
{
    move |path| read(path).map(Cursor::new)
}

fn here() -> std::io::Result<FilePath> {
    Ok(path("/work"))
}

fn path(text: &str) -> FilePath {
    FilePath::from_text(text)
}

fn nowhere() -> std::io::Result<FilePath> {
    Err(std::io::ErrorKind::NotFound.into())
}

/// Every file holds its own path.
fn echo(path: Vec<u8>) -> std::io::Result<Vec<u8>> {
    Ok(path)
}

fn missing(_: Vec<u8>) -> std::io::Result<Vec<u8>> {
    Err(std::io::ErrorKind::NotFound.into())
}

fn off() -> Features {
    Features::default()
}

fn at(uri: &str) -> Source {
    Source::Uri(String::from(uri))
}

fn document(buffers: Vec<Buffer>) -> Document<()> {
    Document { buffers, images: vec![], rest: () }
}

#[test]
fn data_is_padded_to_a_multiple_of_four() {
    assert_eq!(Data::from_bytes(vec![]).0, Vec::<u8>::new());
    assert_eq!(Data::from_bytes(vec![1]).0, vec![1, 0, 0, 0]);
    assert_eq!(Data::from_bytes(vec![1, 2]).0, vec![1, 2, 0, 0]);
    assert_eq!(Data::from_bytes(vec![1, 2, 3]).0, vec![1, 2, 3, 0]);
    assert_eq!(Data::from_bytes(vec![1, 2, 3, 4]).0, vec![1, 2, 3, 4]);
    assert_eq!(Data::from_bytes(vec![1, 2, 3, 4, 5]).0, vec![1, 2, 3, 4, 5, 0, 0, 0]);
}

#[test]
fn the_binary_section_fills_one_buffer() {
    let importer = DefaultImporter { open_file: opening(echo), features: off() };
    let mut blob = Some(vec![1, 2, 3, 4, 5]);
    let data = Data::import_from_source_and_blob(&importer, &Source::Bin, None, &mut blob).unwrap();
    assert_eq!(data.0, vec![1, 2, 3, 4, 5, 0, 0, 0]);
    assert_eq!(blob, None);
    assert!(matches!(
        Data::import_from_source_and_blob(&importer, &Source::Bin, None, &mut blob),
        Err(Error::MissingBlob)
    ));
    let twice = document(vec![
        Buffer { source: Source::Bin, length: 1 },
        Buffer { source: Source::Bin, length: 1 },
    ]);
    assert!(matches!(
        importer.import_buffers(&twice, None, Some(vec![1])),
        Err(Error::MissingBlob)
    ));
}

#[test]
fn a_reference_leaves_the_binary_section_alone() {
    let importer = DefaultImporter { open_file: opening(echo), features: off() };
    let mut blob = Some(vec![1]);
    let source = at("data:;base64,AAECAw==");
    let data = Data::import_from_source_and_blob(&importer, &source, None, &mut blob).unwrap();
    assert_eq!(data.0, vec![0, 1, 2, 3]);
    assert_eq!(blob, Some(vec![1]));
}

#[test]
fn a_data_url_buffer_is_decoded_and_padded() {
    let importer = DefaultImporter { open_file: opening(missing), features: off() };
    let source = at("data:application/octet-stream;base64,AAECAwQ=");
    let data = Data::from_source(&source, None, &importer, nowhere()).unwrap();
    assert_eq!(data.0, vec![0, 1, 2, 3, 4, 0, 0, 0]);
}

#[test]
fn external_references_are_resolved_from_the_base_directory() {
    let importer = DefaultImporter { open_file: opening(echo), features: off() };
    let data = Data::from_source(&at("a.bin"), Some(&path("/models")), &importer, nowhere()).unwrap();
    assert_eq!(data.0, b"/models/a.bin\0\0\0".to_vec());
    let data = Data::from_source(&at("a.bin"), Some(&path("models")), &importer, here()).unwrap();
    assert_eq!(data.0, b"/work/models/a.bin\0\0".to_vec());
    let mut blob = Some(vec![7]);
    let source = at("../a.bin");
    let data =
        Data::from_source_and_blob(&source, Some(&path("/m/n")), &mut blob, &importer, nowhere()).unwrap();
    assert_eq!(data.0, b"/m/a.bin".to_vec());
    assert_eq!(blob, Some(vec![7]));
    let data =
        Data::from_source_and_blob(&Source::Bin, None, &mut blob, &importer, nowhere()).unwrap();
    assert_eq!(data.0, vec![7, 0, 0, 0]);
    assert_eq!(blob, None);
}

#[test]
fn a_source_that_cannot_be_had_is_an_error() {
    let importer = DefaultImporter { open_file: opening(missing), features: off() };
    let failure = |source: &Source, base: Option<&FilePath>| {
        Data::from_source(source, base, &importer, nowhere()).unwrap_err()
    };
    assert!(matches!(failure(&Source::Bin, None), Error::MissingBlob));
    assert!(matches!(failure(&at("a.bin"), None), Error::ExternalReferenceInSliceImport));
    assert!(matches!(failure(&at("a.bin"), Some(&path("models"))), Error::Io(_)));
    assert!(matches!(failure(&at("a.bin"), Some(&path("/models"))), Error::Io(_)));
    assert!(matches!(failure(&at("http://a/b.bin"), None), Error::UnsupportedScheme));
    assert!(matches!(failure(&at("file://elsewhere/b.bin"), None), Error::UnsupportedScheme));
    assert!(matches!(failure(&at("http://[::1"), None), Error::Uri(_)));
    assert!(matches!(
        failure(&at("data:;base64,AAAAA"), None),
        Error::Base64(Base64Error::InvalidLength)
    ));
}

#[test]
fn an_unusable_base_leaves_the_binary_section_alone() {
    let importer = DefaultImporter { open_file: opening(missing), features: off() };
    let mut blob = Some(vec![1]);
    let data =
        Data::from_source_and_blob(&Source::Bin, Some(&path("models")), &mut blob, &importer, nowhere());
    assert!(matches!(data, Err(Error::Io(_))));
    assert_eq!(blob, Some(vec![1]));
}

#[test]
fn every_buffer_is_imported_in_order() {
    let importer = DefaultImporter { open_file: opening(echo), features: off() };
    let buffers = document(vec![
        Buffer { source: at("b.bin"), length: 13 },
        Buffer { source: Source::Bin, length: 2 },
        Buffer { source: at("data:;base64,AAECAw=="), length: 4 },
        Buffer { source: at("file:///c.bin"), length: 0 },
    ]);
    let data =
        import_buffers(&buffers, Some(&path("/models/a.gltf")), Some(vec![9, 9]), &importer, nowhere())
            .unwrap();
    let data: Vec<Vec<u8>> = data.into_iter().map(|data| data.0).collect();
    assert_eq!(
        data,
        vec![
            b"/models/b.bin\0\0\0".to_vec(),
            vec![9, 9, 0, 0],
            vec![0, 1, 2, 3],
            b"/c.bin\0\0".to_vec()
        ]
    );
}

#[test]
fn a_buffer_shorter_than_declared_is_refused() {
    let importer = DefaultImporter { open_file: opening(echo), features: off() };
    let short = |length: usize| {
        document(vec![
            Buffer { source: at("data:;base64,AAECAw=="), length: 4 },
            Buffer { source: Source::Bin, length },
            Buffer { source: at("nonsense://"), length: 0 },
        ])
    };
    match importer.import_buffers(&short(9), None, Some(vec![1, 2, 3, 4, 5])) {
        Err(Error::BufferLength { buffer, expected, actual }) => {
            assert_eq!((buffer, expected, actual), (1, 9, 8))
        }
        other => panic!("{other:?}"),
    }
    assert!(matches!(
        importer.import_buffers(&short(8), None, Some(vec![1, 2, 3, 4, 5])),
        Err(Error::UnsupportedScheme)
    ));
}

#[test]
fn a_document_without_buffers_needs_none() {
    let importer = DefaultImporter { open_file: opening(missing), features: off() };
    let none = import_buffers(&document(vec![]), None, None, &importer, nowhere()).unwrap();
    assert!(none.is_empty());
    assert!(matches!(
        import_buffers(&document(vec![]), Some(&path("a.gltf")), None, &importer, nowhere()),
        Err(Error::Io(_))
    ));
}

#[test]
fn what_opening_gave_decides_the_data() {
    let failed: Result<Held, Error> = Err(Error::UnsupportedScheme);
    assert!(matches!(Data::from_opened(failed), Err(Error::UnsupportedScheme)));
    assert_eq!(Data::from_opened(Ok(Held(vec![5]))).unwrap().0, vec![5, 0, 0, 0]);
    assert!(matches!(Data::from_opened(Ok(Held(vec![]))), Err(Error::Io(_))));
}

/// Bytes in memory; where there are none, they cannot be read.
struct Held(Vec<u8>);

impl Read for Held {
    fn read(&mut self, buf: &mut [u8]) -> std::io::Result<usize> {
        Cursor::new(self.0.clone()).read(buf)
    }

    fn read_to_end(&mut self) -> std::io::Result<Vec<u8>> {
        Ok(std::mem::take(&mut self.0))
    }
}

impl Resource for Held {
    fn media_type(&self) -> Option<&str> {
        None
    }

    fn into_bytes(self) -> std::io::Result<Vec<u8>> {
        if self.0.is_empty() {
            Err(std::io::ErrorKind::UnexpectedEof.into())
        } else {
            Ok(self.0)
        }
    }
}

/// Opens `memory` URLs as the bytes of their paths.
struct Memory;

impl Importer for Memory {
    type Opened = Held;
    type Seekable = SeekableWrapper;

    fn features(&self) -> Features {
        Features::default()
    }

    fn open(&self, uri: &Uri) -> Result<Held, Error> {
        if uri.scheme() == "memory" {
            Ok(Held(uri.path().as_bytes().to_vec()))
        } else {
            Err(Error::UnsupportedScheme)
        }
    }

    fn open_seekable(&self, uri: &Uri) -> Result<SeekableWrapper, Error> {
        self.open_in_memory(uri)
    }
}

#[test]
fn an_importer_can_open_urls_of_its_own() {
    let base = Uri::parse("memory:///a/scene.gltf").unwrap();
    let buffers = document(vec![Buffer { source: at("b.bin"), length: 8 }]);
    let data = Memory.import_buffers(&buffers, Some(&base), None).unwrap();
    assert_eq!(data[0].0, b"/a/b.bin".to_vec());
    let buffers = document(vec![Buffer { source: at("data:AAAA"), length: 3 }]);
    assert!(matches!(
        Memory.import_buffers(&buffers, Some(&base), None),
        Err(Error::UnsupportedScheme)
    ));
    let buffers = document(vec![Buffer { source: at("memory:"), length: 0 }]);
    assert!(matches!(Memory.import_buffers(&buffers, None, None), Err(Error::Io(_))));
}

#[test]
fn what_an_importer_opens_can_be_read_into_memory() {
    let uri = Uri::parse("memory:abc").unwrap();
    let mut opened = Memory.open_seekable(&uri).unwrap();
    let mut buf = [0u8; 2];
    assert_eq!(opened.read(&mut buf).unwrap(), 2);
    assert_eq!(&buf, b"ab");
    assert_eq!(opened.into_bytes().unwrap(), b"abc".to_vec());
    assert!(matches!(
        Memory.open_seekable(&Uri::parse("memory:").unwrap()),
        Err(Error::Io(_))
    ));
    assert!(matches!(
        Memory.open_seekable(&Uri::parse("data:AAAA").unwrap()),
        Err(Error::UnsupportedScheme)
    ));
}

#[test]
fn buffers_are_imported_as_each_is_by_itself() {
    let importer = DefaultImporter { open_file: opening(echo), features: off() };
    for base in [None, Some(&path("/m"))] {
        let buffers = document(vec![
            Buffer { source: at("file:///a.bin"), length: 1 },
            Buffer { source: at("data:AAECAwQ"), length: 1 },
        ]);
        let all = import_buffers(&buffers, base, None, &importer, nowhere()).unwrap();
        for (data, buffer) in all.iter().zip(&buffers.buffers) {
            let one = Data::from_source(&buffer.source, base, &importer, nowhere()).unwrap();
            assert_eq!(data.0, one.0);
        }
        assert_eq!(all[0].0, b"/a.bin\0\0".to_vec());
        assert_eq!(all[1].0, vec![0, 1, 2, 3, 4, 0, 0, 0]);
    }
}
