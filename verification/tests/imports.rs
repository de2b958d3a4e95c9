use gltf_import::cursor::Cursor;
use gltf_import::buffer::{Buffer, Source};
use gltf_import::document::{Document, Gltf};
use gltf_import::error::Error;
use gltf_import::features::Features;
use gltf_import::image::{BufferView, Format, Image};
use gltf_import::import::{import, import_slice, ImporterExt};
use gltf_import::importer::{DefaultImporter, Importer};
use gltf_import::resource::{DataResource, SeekableWrapper};
use gltf_import::uri::{FilePath, Uri};

/// Opens what `read` gives as a file in memory.
fn opening<F>(read: F) -> impl Fn(Vec<u8>) -> std::io::Result<Cursor>
where
    F: Fn(Vec<u8>) -> std::io::Result<Vec<u8>>,
{
    move |path| read(path).map(Cursor::new)
}

fn off() -> Features {
    Features::default()
}

fn here() -> std::io::Result<FilePath> {
    Ok(path("/work"))
}

fn path(text: &str) -> FilePath {
    FilePath::from_text(text)
}

fn nowhere() -> std::io::Result<FilePath> {
    Err(std::io::ErrorKind::NotFound.into())
}

fn png() -> Vec<u8> {
    let mut encoded = std::io::Cursor::new(vec![]);
    let gray = image::GrayImage::from_raw(1, 1, vec![5]).unwrap();
    image::DynamicImage::ImageLuma8(gray).write_to(&mut encoded, image::ImageFormat::Png).unwrap();
    encoded.into_inner()
}

/// A document whose bytes are the reference of its only buffer.
fn one_buffer(bytes: Vec<u8>) -> Result<Gltf<&'static str>, Error> {
    let uri = String::from_utf8(bytes).map_err(|_| Error::Document(String::from("not text")))?;
    let buffers = vec![Buffer { source: Source::Uri(uri), length: 4 }];
    Ok(Gltf { document: Document { buffers, images: vec![], rest: "one buffer" }, blob: None })
}

/// A document whose bytes are its binary section, which holds an image.
fn one_image(bytes: Vec<u8>) -> Result<Gltf<&'static str>, Error> {
    let length = bytes.len();
    let source = gltf_import::image::Source::View {
        view: BufferView { buffer: 0, offset: 0, length },
        mime_type: String::from("image/png"),
    };
    let document = Document {
        buffers: vec![Buffer { source: Source::Bin, length }],
        images: vec![Image { source }],
        rest: "one image",
    };
    Ok(Gltf { document, blob: Some(bytes) })
}

#[test]
fn a_document_is_imported_from_a_file() {
    let importer = DefaultImporter {
        open_file: opening(|path: Vec<u8>| -> std::io::Result<Vec<u8>> {
            if path == b"/work/scene.gltf" {
                Ok(b"a.bin".to_vec())
            } else {
                Ok(path)
            }
        }),
        features: off(),
    };
    let (document, buffers, images) = import(&path("scene.gltf"), &importer, here(), one_buffer).unwrap();
    assert_eq!(document.buffers.len(), 1);
    assert_eq!(document.buffers[0].length, 4);
    assert_eq!(document.rest, "one buffer");
    assert_eq!(buffers.len(), 1);
    assert_eq!(buffers[0].0, b"/work/a.bin\0".to_vec());
    assert!(images.is_empty());
    let (_, buffers, _) = import(&path("/work/scene.gltf"), &importer, nowhere(), one_buffer).unwrap();
    assert_eq!(buffers[0].0, b"/work/a.bin\0".to_vec());
}

#[test]
fn a_document_is_imported_with_its_buffers_and_images() {
    let importer = DefaultImporter {
        open_file: opening(|_: Vec<u8>| -> std::io::Result<Vec<u8>> { Ok(png()) }),
        features: off(),
    };
    let (document, buffers, images) = import(&path("/a.glb"), &importer, nowhere(), one_image).unwrap();
    assert_eq!((document.buffers.len(), document.images.len()), (1, 1));
    assert_eq!((buffers.len(), images.len()), (1, 1));
    assert_eq!(buffers[0].0.len() % 4, 0);
    assert!(buffers[0].0.starts_with(&png()));
    assert_eq!(images[0].format, Format::R8);
    assert_eq!(images[0].pixels, vec![5]);
}

#[test]
fn a_document_that_cannot_be_had_is_an_error() {
    let importer = DefaultImporter {
        open_file: opening(|_: Vec<u8>| -> std::io::Result<Vec<u8>> {
            Err(std::io::ErrorKind::PermissionDenied.into())
        }),
        features: off(),
    };
    match import(&path("/a.gltf"), &importer, nowhere(), one_buffer) {
        Err(Error::Io(error)) => assert_eq!(error.kind(), std::io::ErrorKind::PermissionDenied),
        other => panic!("{other:?}"),
    }
    match import(&path("a.gltf"), &importer, nowhere(), one_buffer) {
        Err(Error::Io(error)) => assert_eq!(error.kind(), std::io::ErrorKind::NotFound),
        other => panic!("{other:?}"),
    }
    let relative = Ok(path("not/absolute"));
    assert!(matches!(
        import(&path("a.gltf"), &importer, relative, one_buffer),
        Err(Error::UnsupportedScheme)
    ));
    let web = Uri::parse("http://a/b.gltf").unwrap();
    assert!(matches!(importer.import(&web, one_buffer), Err(Error::UnsupportedScheme)));
}

#[test]
fn a_document_that_cannot_be_parsed_is_an_error() {
    let importer = DefaultImporter {
        open_file: opening(|_: Vec<u8>| -> std::io::Result<Vec<u8>> { Ok(vec![0xff]) }),
        features: off(),
    };
    match import(&path("/a.gltf"), &importer, nowhere(), one_buffer) {
        Err(Error::Document(message)) => assert_eq!(message, "not text"),
        other => panic!("{other:?}"),
    }
    assert!(matches!(
        import_slice(&[0xff], &importer, here(), one_buffer),
        Err(Error::Document(_))
    ));
}

#[test]
fn a_failing_buffer_comes_before_a_failing_image() {
    let importer = DefaultImporter {
        open_file: opening(|path: Vec<u8>| -> std::io::Result<Vec<u8>> { Ok(path) }),
        features: off(),
    };
    let gltf = |blob: Option<Vec<u8>>| {
        let mut gltf = one_image(vec![1, 2, 3, 4]).unwrap();
        gltf.blob = blob;
        gltf
    };
    assert!(matches!(importer.import_resources(gltf(None), None), Err(Error::MissingBlob)));
    assert!(matches!(
        importer.import_resources(gltf(Some(vec![])), None),
        Err(Error::BufferLength { buffer: 0, expected: 4, actual: 0 })
    ));
    assert!(matches!(
        importer.import_resources(gltf(Some(vec![1, 2, 3, 4])), None),
        Err(Error::Image(_))
    ));
}

#[test]
fn paths_in_a_slice_are_relative_to_the_current_directory() {
    let importer = DefaultImporter {
        open_file: opening(|path: Vec<u8>| -> std::io::Result<Vec<u8>> { Ok(path) }),
        features: off(),
    };
    let (_, buffers, _) = import_slice(b"a.bin", &importer, here(), one_buffer).unwrap();
    assert_eq!(buffers[0].0, b"/work/a.bin\0".to_vec());
    let (_, buffers, _) = import_slice(b"file:///a.bin", &importer, here(), one_buffer).unwrap();
    assert_eq!(buffers[0].0, b"/a.bin\0\0".to_vec());
}

#[test]
fn a_slice_without_relative_references_needs_no_directory() {
    let importer = DefaultImporter {
        open_file: opening(|path: Vec<u8>| -> std::io::Result<Vec<u8>> { Ok(path) }),
        features: off(),
    };
    let (_, buffers, _) = import_slice(b"data:AAECAw", &importer, nowhere(), one_buffer).unwrap();
    assert_eq!(buffers[0].0, vec![0, 1, 2, 3]);
    assert!(matches!(
        import_slice(b"a.bin", &importer, nowhere(), one_buffer),
        Err(Error::ExternalReferenceInSliceImport)
    ));
}

#[test]
fn an_importer_refuses_relative_references_in_a_slice() {
    let importer = DefaultImporter {
        open_file: opening(|path: Vec<u8>| -> std::io::Result<Vec<u8>> { Ok(path) }),
        features: off(),
    };
    assert!(matches!(
        importer.import_slice(b"a.bin", one_buffer),
        Err(Error::ExternalReferenceInSliceImport)
    ));
    let (_, buffers, _) = importer.import_slice(b"file:///a.bin", one_buffer).unwrap();
    assert_eq!(buffers[0].0, b"/a.bin\0\0".to_vec());
}

#[test]
fn a_document_is_imported_by_its_url() {
    let importer = DefaultImporter {
        open_file: opening(|path: Vec<u8>| -> std::io::Result<Vec<u8>> {
            if path == b"/m/scene.gltf" {
                Ok(b"../a.bin".to_vec())
            } else {
                Ok(path)
            }
        }),
        features: off(),
    };
    let uri = Uri::parse("file:///m/scene.gltf").unwrap();
    let (_, buffers, _) = importer.import(&uri, one_buffer).unwrap();
    assert_eq!(buffers[0].0, b"/a.bin\0\0".to_vec());
    let (_, buffers, _) = importer.import_path(&path("/m/scene.gltf"), nowhere(), one_buffer).unwrap();
    assert_eq!(buffers[0].0, b"/a.bin\0\0".to_vec());
    let data = Uri::parse(&format!("data:;base64,{}", base64::encode("data:AAECAw"))).unwrap();
    let (_, buffers, _) = importer.import(&data, one_buffer).unwrap();
    assert_eq!(buffers[0].0, vec![0, 1, 2, 3]);
}

#[test]
fn a_self_contained_document_imports_the_same_from_a_slice_as_from_its_file() {
    let importer = DefaultImporter {
        open_file: opening(|path: Vec<u8>| {
            if path == b"/m/scene.gltf" {
                Ok(b"file:///a.bin".to_vec())
            } else {
                Ok(path)
            }
        }),
        features: off(),
    };
    let (_, buffers, _) = import(&path("/m/scene.gltf"), &importer, here(), one_buffer).unwrap();
    for dir in [here(), nowhere()] {
        let (_, same, _) = import_slice(b"file:///a.bin", &importer, dir, one_buffer).unwrap();
        assert_eq!(same[0].0, buffers[0].0);
    }
    let glb = DefaultImporter { open_file: opening(|_: Vec<u8>| Ok(png())), features: off() };
    let (_, buffers, images) = import(&path("/a.glb"), &glb, nowhere(), one_image).unwrap();
    let (_, same, pixels) = import_slice(&png(), &glb, nowhere(), one_image).unwrap();
    assert_eq!(same[0].0, buffers[0].0);
    assert_eq!(pixels[0].pixels, images[0].pixels);
}

/// Opens every URL as the bytes 0 to 3, and for reading in any order as a reference to itself.
struct TwoFaced;

impl Importer for TwoFaced {
    type Opened = DataResource;
    type Seekable = SeekableWrapper;

    fn features(&self) -> Features {
        off()
    }

    fn open(&self, _: &Uri) -> Result<DataResource, Error> {
        DataResource::from_decoded(None, Ok(vec![0, 1, 2, 3]))
    }

    fn open_seekable(&self, _: &Uri) -> Result<SeekableWrapper, Error> {
        SeekableWrapper::new(DataResource::from_decoded(None, Ok(b"b.bin".to_vec()))?)
    }
}

#[test]
fn a_document_is_opened_for_reading_in_any_order_and_its_resources_are_not() {
    let uri = Uri::parse("any://a/b.gltf").unwrap();
    let (_, buffers, _) = TwoFaced.import(&uri, one_buffer).unwrap();
    assert_eq!(buffers[0].0, vec![0, 1, 2, 3]);
}
