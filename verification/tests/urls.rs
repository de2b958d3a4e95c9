use gltf_import::cursor::Cursor;
use gltf_import::error::{Error, UriError};
use gltf_import::features::Features;
use gltf_import::import::ImporterExt;
use gltf_import::importer::{DefaultImporter, Importer};
use gltf_import::path::{current_dir_to_uri, directory_to_uri, make_absolute, path_to_uri};
use gltf_import::resource::Resource;
use gltf_import::uri::{resolve, resolve_joined, resolve_parsed, FilePath, Uri};

/// Opens what `read` gives as a file in memory.
fn opening<F>(read: F) -> impl Fn(Vec<u8>) -> std::io::Result<Cursor>
where
    F: Fn(Vec<u8>) -> std::io::Result<Vec<u8>>,
{
    move |path| read(path).map(Cursor::new)
}

fn uri(text: &str) -> Uri {
    Uri::parse(text).unwrap()
}

fn here() -> std::io::Result<FilePath> {
    Ok(path("/work"))
}

fn path(text: &str) -> FilePath {
    FilePath::from_text(text)
}

fn nowhere() -> std::io::Result<FilePath> {
    Err(std::io::ErrorKind::NotFound.into())
}

#[test]
fn a_url_is_taken_apart() {
    let parsed = uri("HTTP://example.com/a/../b c?d#e");
    assert_eq!(parsed.as_str(), "http://example.com/b%20c?d#e");
    assert_eq!(parsed.scheme(), "http");
    assert_eq!(parsed.path(), "/b%20c");
    let data = uri("data:image/png;base64,AA==");
    assert_eq!(data.scheme(), "data");
    assert_eq!(data.path(), "image/png;base64,AA==");
}

#[test]
fn a_relative_reference_is_no_url() {
    assert!(matches!(Uri::parse("a.bin"), Err(UriError::RelativeUrlWithoutBase)));
    match Uri::parse("http://[::1") {
        Err(UriError::Invalid(cause)) => assert_eq!(cause, url::ParseError::InvalidIpv6Address),
        other => panic!("{other:?}"),
    }
}

#[test]
fn a_relative_reference_is_joined_to_the_base() {
    let base = uri("file:///models/scene.gltf");
    assert_eq!(resolve("a.bin", Some(&base)).unwrap().as_str(), "file:///models/a.bin");
    assert_eq!(resolve("../a.bin", Some(&base)).unwrap().as_str(), "file:///a.bin");
    assert_eq!(resolve("t x/a.png", Some(&base)).unwrap().as_str(), "file:///models/t%20x/a.png");
    let directory = uri("file:///models/");
    assert_eq!(resolve("a.bin", Some(&directory)).unwrap().as_str(), "file:///models/a.bin");
}

#[test]
fn an_absolute_reference_ignores_the_base() {
    let base = uri("file:///models/scene.gltf");
    assert_eq!(resolve("http://a/b.bin", Some(&base)).unwrap().as_str(), "http://a/b.bin");
    assert_eq!(resolve("http://a/b.bin", None).unwrap().as_str(), "http://a/b.bin");
}

#[test]
fn a_relative_reference_without_a_base_is_refused() {
    assert!(matches!(resolve("a.bin", None), Err(Error::ExternalReferenceInSliceImport)));
    assert!(matches!(resolve("", None), Err(Error::ExternalReferenceInSliceImport)));
}

#[test]
fn a_malformed_reference_is_refused() {
    let base = uri("file:///models/scene.gltf");
    for given in [None, Some(&base)] {
        match resolve("http://[::1", given) {
            Err(Error::Uri(UriError::Invalid(cause))) => {
                assert_eq!(cause, url::ParseError::InvalidIpv6Address)
            },
            other => panic!("{other:?}"),
        }
    }
}

#[test]
fn a_base_that_cannot_be_joined_to_is_refused() {
    let base = uri("mailto:someone@example.com");
    match resolve("a.bin", Some(&base)) {
        Err(Error::Uri(UriError::Invalid(cause))) => {
            assert_eq!(cause, url::ParseError::RelativeUrlWithCannotBeABaseBase)
        }
        other => panic!("{other:?}"),
    }
}

#[test]
fn what_parsing_gave_decides_the_resolution() {
    let base = uri("file:///models/scene.gltf");
    let absolute = resolve_parsed(Ok(uri("http://a/b")), "ignored", Some(&base)).unwrap();
    assert_eq!(absolute.as_str(), "http://a/b");
    let relative =
        resolve_parsed(Err(UriError::RelativeUrlWithoutBase), "a.bin", Some(&base)).unwrap();
    assert_eq!(relative.as_str(), "file:///models/a.bin");
    assert!(matches!(
        resolve_parsed(Err(UriError::RelativeUrlWithoutBase), "a.bin", None),
        Err(Error::ExternalReferenceInSliceImport)
    ));
    assert!(matches!(
        resolve_parsed(Err(UriError::Invalid(url::ParseError::EmptyHost)), "a.bin", Some(&base)),
        Err(Error::Uri(UriError::Invalid(_)))
    ));
    assert_eq!(resolve_joined(Ok(uri("http://a/b"))).unwrap().as_str(), "http://a/b");
    assert!(matches!(
        resolve_joined(Err(UriError::Invalid(url::ParseError::EmptyHost))),
        Err(Error::Uri(UriError::Invalid(_)))
    ));
}

#[test]
fn an_importer_resolves_references() {
    let importer = DefaultImporter {
        open_file: opening(|path: Vec<u8>| -> std::io::Result<Vec<u8>> { Ok(path) }),
        features: Features::default(),
    };
    let base = uri("http://a/b/c");
    assert_eq!(importer.resolve("d", Some(&base)).unwrap().as_str(), "http://a/b/d");
    assert!(matches!(importer.resolve("d", None), Err(Error::ExternalReferenceInSliceImport)));
}

#[test]
fn a_path_is_made_absolute_by_the_current_directory() {
    let joined = make_absolute(&path("a/b.gltf"), here()).unwrap().unwrap();
    assert_eq!(joined.as_bytes(), b"/work/a/b.gltf");
    assert!(make_absolute(&path("/a/b.gltf"), here()).unwrap().is_none());
    assert!(make_absolute(&path("/a/b.gltf"), nowhere()).unwrap().is_none());
    match make_absolute(&path("a/b.gltf"), nowhere()) {
        Err(Error::Io(error)) => assert_eq!(error.kind(), std::io::ErrorKind::NotFound),
        other => panic!("{other:?}"),
    }
}

#[test]
fn a_path_is_encoded_as_its_text() {
    assert_eq!(path("/a/ż.png").as_bytes(), "/a/ż.png".as_bytes());
    assert_eq!(FilePath::new(std::path::PathBuf::from("/a b")).as_bytes(), b"/a b");
}

#[test]
fn a_path_has_a_file_url() {
    let url = path_to_uri(Some(&path("/a b/c.gltf")), nowhere()).unwrap().unwrap();
    assert_eq!(url.as_str(), "file:///a%20b/c.gltf");
    assert_eq!(url.scheme(), "file");
    let url = path_to_uri(Some(&path("c.gltf")), here()).unwrap().unwrap();
    assert_eq!(url.as_str(), "file:///work/c.gltf");
    assert!(path_to_uri(None, nowhere()).unwrap().is_none());
    assert!(matches!(path_to_uri(Some(&path("c.gltf")), nowhere()), Err(Error::Io(_))));
}

#[test]
fn a_path_without_a_file_url_is_refused() {
    let relative = Ok(path("not/absolute"));
    assert!(matches!(path_to_uri(Some(&path("c.gltf")), relative), Err(Error::UnsupportedScheme)));
    let relative = Ok(path("not/absolute"));
    assert!(matches!(directory_to_uri(Some(&path("c")), relative), Err(Error::UnsupportedScheme)));
}

#[test]
fn the_url_of_a_directory_ends_in_a_slash() {
    let url = directory_to_uri(Some(&path("/models")), nowhere()).unwrap().unwrap();
    assert_eq!(url.as_str(), "file:///models/");
    let url = directory_to_uri(Some(&path("models/")), here()).unwrap().unwrap();
    assert_eq!(url.as_str(), "file:///work/models/");
    assert!(directory_to_uri(None, nowhere()).unwrap().is_none());
    assert!(matches!(directory_to_uri(Some(&path("models")), nowhere()), Err(Error::Io(_))));
}

#[test]
fn the_current_directory_has_a_url_where_it_is_known() {
    assert_eq!(current_dir_to_uri(here()).unwrap().as_str(), "file:///work/");
    assert!(current_dir_to_uri(nowhere()).is_none());
    assert!(current_dir_to_uri(Ok(path("work"))).is_none());
}

#[test]
fn a_relative_path_has_the_url_of_the_joined_path() {
    for text in ["a.gltf", "a b/c.gltf", "./a.gltf", "../a.gltf"] {
        let joined = path(&format!("/work/{text}"));
        let relative = path_to_uri(Some(&path(text)), here()).unwrap().unwrap();
        let absolute = path_to_uri(Some(&joined), nowhere()).unwrap().unwrap();
        assert_eq!(relative.as_str(), absolute.as_str());
        let relative = directory_to_uri(Some(&path(text)), here()).unwrap().unwrap();
        let absolute = directory_to_uri(Some(&joined), nowhere()).unwrap().unwrap();
        assert_eq!(relative.as_str(), absolute.as_str());
    }
}

#[test]
fn the_url_of_a_path_turns_back_into_it() {
    let importer = DefaultImporter { open_file: opening(Ok), features: Features::default() };
    let back = |text: &str| {
        let url = path_to_uri(Some(&path(text)), nowhere()).unwrap().unwrap();
        assert!(url.as_str().starts_with("file:///"));
        importer.open(&url).unwrap().into_bytes().unwrap()
    };
    for text in ["/a.gltf", "/a b/c", "/50%/#1?.png", "/a/../b", "/ż/{x}|y", "/...", "/a\\b"] {
        assert_eq!(back(text), text.as_bytes());
    }
    assert_eq!(back("/"), b"/");
    assert_eq!(back("/."), b"/");
    assert_eq!(back("//a"), b"/a");
    assert_eq!(back("/a//b/./c/"), b"/a/b/c");
    assert_eq!(back("/C:"), b"/C:/");
    assert_eq!(back("/a/b|"), b"/a/b|/");
    for text in ["/", "/.", "//a", "/a//b/./c/", "/C:", "/a/b|"] {
        let bytes = String::from_utf8(back(text)).unwrap();
        assert_eq!(std::path::Path::new(&bytes), std::path::Path::new(text));
    }
}
