use gltf_import::cursor::{Cursor, SeekFrom};
use gltf_import::error::{Base64Error, Error};
use gltf_import::features::Features;
use gltf_import::importer::{DefaultImporter, Importer};
use gltf_import::resource::{
    media_type_of, split_data, DataResource, DefaultResource, FileResource, Resource, SeekableWrapper,
};
use gltf_import::stream::{Read, Seek, SeekError};
use gltf_import::uri::Uri;

/// Opens what `read` gives as a file in memory.
fn opening<F>(read: F) -> impl Fn(Vec<u8>) -> std::io::Result<Cursor>
where
    F: Fn(Vec<u8>) -> std::io::Result<Vec<u8>>,
{
    move |path| read(path).map(Cursor::new)
}

fn uri(text: &str) -> Uri {
    Uri::parse(text).unwrap()
}

fn off() -> Features {
    Features::default()
}

#[test]
fn a_cursor_reads_one_piece_after_another() {
    let mut cursor = Cursor::new(vec![1, 2, 3, 4, 5]);
    let mut buf = [9u8; 2];
    assert_eq!(cursor.read(&mut buf).unwrap(), 2);
    assert_eq!(buf, [1, 2]);
    let mut rest = [9u8; 5];
    assert_eq!(cursor.read(&mut rest).unwrap(), 3);
    assert_eq!(rest, [3, 4, 5, 9, 9]);
    assert_eq!(cursor.read(&mut rest).unwrap(), 0);
    assert_eq!(rest, [3, 4, 5, 9, 9]);
    assert_eq!(cursor.read(&mut []).unwrap(), 0);
    assert_eq!(cursor.into_inner(), vec![1, 2, 3, 4, 5]);
}

#[test]
fn two_reads_are_one_longer_read() {
    let mut first = Cursor::new(vec![1, 2, 3, 4, 5]);
    let mut second = Cursor::new(vec![1, 2, 3, 4, 5]);
    let mut pieces = [0u8; 4];
    let (left, right) = pieces.split_at_mut(1);
    assert_eq!(first.read(left).unwrap() + first.read(right).unwrap(), 4);
    let mut whole = [0u8; 4];
    assert_eq!(second.read(&mut whole).unwrap(), 4);
    assert_eq!(pieces, whole);
}

#[test]
fn a_cursor_seeks_from_anywhere() {
    let mut cursor = Cursor::new(vec![1, 2, 3, 4, 5]);
    assert_eq!(cursor.seek(SeekFrom::End(-2)).unwrap(), 3);
    assert_eq!(cursor.seek(SeekFrom::Current(1)).unwrap(), 4);
    assert!(matches!(cursor.seek(SeekFrom::Current(-5)), Err(SeekError::OutOfRange)));
    let mut buf = [0u8; 8];
    assert_eq!(cursor.read(&mut buf).unwrap(), 1);
    assert_eq!(buf[0], 5);
    assert_eq!(cursor.seek(SeekFrom::Start(u64::MAX)).unwrap(), u64::MAX);
    assert!(matches!(cursor.seek(SeekFrom::Current(1)), Err(SeekError::OutOfRange)));
    assert_eq!(cursor.read(&mut buf).unwrap(), 0);
    assert!(matches!(cursor.seek(SeekFrom::End(i64::MIN)), Err(SeekError::OutOfRange)));
    assert_eq!(cursor.seek(SeekFrom::Start(0)).unwrap(), 0);
    assert_eq!(cursor.read(&mut buf).unwrap(), 5);
    assert_eq!(&buf[..5], &[1, 2, 3, 4, 5]);
}

#[test]
fn a_cursor_seeks_as_the_standard_cursor_does() {
    let moves = [
        (SeekFrom::Start(3), std::io::SeekFrom::Start(3)),
        (SeekFrom::Current(-3), std::io::SeekFrom::Current(-3)),
        (SeekFrom::Current(-1), std::io::SeekFrom::Current(-1)),
        (SeekFrom::End(7), std::io::SeekFrom::End(7)),
        (SeekFrom::End(-6), std::io::SeekFrom::End(-6)),
        (SeekFrom::Current(i64::MAX), std::io::SeekFrom::Current(i64::MAX)),
        (SeekFrom::Start(u64::MAX), std::io::SeekFrom::Start(u64::MAX)),
        (SeekFrom::Current(1), std::io::SeekFrom::Current(1)),
        (SeekFrom::Current(i64::MIN), std::io::SeekFrom::Current(i64::MIN)),
    ];
    let mut cursor = Cursor::new(vec![1, 2, 3, 4, 5]);
    let mut standard = std::io::Cursor::new(vec![1u8, 2, 3, 4, 5]);
    for (ours, theirs) in moves {
        assert_eq!(cursor.seek(ours).ok(), std::io::Seek::seek(&mut standard, theirs).ok());
    }
}

#[test]
fn what_is_left_of_a_cursor_starts_at_its_position() {
    let mut cursor = Cursor::new(vec![1, 2, 3]);
    cursor.seek(SeekFrom::Start(1)).unwrap();
    assert_eq!(cursor.read_to_end().unwrap(), vec![2, 3]);
    assert_eq!(cursor.read_to_end().unwrap(), Vec::<u8>::new());
    assert_eq!(cursor.seek(SeekFrom::Current(0)).unwrap(), 3);
    cursor.seek(SeekFrom::Start(4)).unwrap();
    assert_eq!(cursor.read_to_end().unwrap(), Vec::<u8>::new());
    assert_eq!(cursor.seek(SeekFrom::Current(0)).unwrap(), 4);
    assert_eq!(cursor.into_inner(), vec![1, 2, 3]);
}

#[test]
fn the_path_of_a_data_url_is_split_at_its_marks() {
    assert_eq!(split_data("image/png;base64,AAAA"), (Some("image/png"), "AAAA"));
    assert_eq!(split_data(";base64,AAAA"), (Some(""), "AAAA"));
    assert_eq!(split_data("AAAA"), (None, "AAAA"));
    assert_eq!(split_data("a;base64,b;base64,c"), (Some("a"), "b"));
    assert_eq!(split_data("text/plain,hello"), (None, "text/plain,hello"));
}

#[test]
fn a_data_url_is_decoded() {
    let resource = DataResource::try_from(&uri("data:image/png;base64,AAECAw==")).unwrap();
    assert_eq!(resource.media_type(), Some("image/png"));
    assert_eq!(resource.into_bytes().unwrap(), vec![0, 1, 2, 3]);
    let resource = DataResource::try_from(&uri("data:AAECAw")).unwrap();
    assert_eq!(resource.media_type(), None);
    assert_eq!(resource.into_bytes().unwrap(), vec![0, 1, 2, 3]);
}

#[test]
fn a_data_url_holds_what_was_encoded_into_it() {
    let bytes: Vec<u8> = (0..=255).collect();
    let text = format!("data:application/octet-stream;base64,{}", base64::encode(&bytes));
    let resource = DataResource::try_from(&uri(&text)).unwrap();
    assert_eq!(resource.media_type(), Some("application/octet-stream"));
    assert_eq!(resource.into_bytes().unwrap(), bytes);
}

#[test]
fn text_that_is_not_base64_is_refused() {
    let refused = |text: &str| match DataResource::try_from(&uri(text)) {
        Err(Error::Base64(error)) => error,
        other => panic!("{other:?}"),
    };
    assert_eq!(refused("data:;base64,A?AA"), Base64Error::InvalidLength);
    assert_eq!(refused("data:text/plain,hello"), Base64Error::InvalidByte(10, b','));
    assert_eq!(refused("data:;base64,AAAAA"), Base64Error::InvalidLength);
    assert_eq!(refused("data:;base64,AB=="), Base64Error::InvalidLastSymbol(1, b'B'));
}

#[test]
fn decoding_failures_are_passed_on() {
    assert!(matches!(
        DataResource::from_decoded(Some("a/b"), Err(Base64Error::InvalidLength)),
        Err(Error::Base64(Base64Error::InvalidLength))
    ));
    let resource = DataResource::from_decoded(Some("a/b"), Ok(vec![7])).unwrap();
    assert_eq!(resource.media_type(), Some("a/b"));
    assert_eq!(resource.into_bytes().unwrap(), vec![7]);
}

#[test]
fn a_data_resource_gives_all_its_bytes_wherever_it_was_read_to() {
    let mut resource = DataResource::try_from(&uri("data:;base64,AAECAw==")).unwrap();
    let mut buf = [9u8; 3];
    assert_eq!(resource.read(&mut buf).unwrap(), 3);
    assert_eq!(buf, [0, 1, 2]);
    assert_eq!(resource.seek(SeekFrom::Current(-1)).unwrap(), 2);
    assert_eq!(resource.read(&mut buf).unwrap(), 2);
    assert_eq!(buf, [2, 3, 2]);
    assert_eq!(resource.into_bytes().unwrap(), vec![0, 1, 2, 3]);
}

#[test]
fn a_file_resource_gives_the_bytes_that_are_left() {
    let open = |name: &[u8]| {
        FileResource::from_opened(Some(name), off(), Ok(Cursor::new(vec![1, 2, 3]))).unwrap()
    };
    let mut resource = open(b"a.png");
    assert_eq!(resource.media_type(), Some("image/png"));
    let mut buf = [0u8; 1];
    assert_eq!(resource.read(&mut buf).unwrap(), 1);
    assert_eq!(buf, [1]);
    assert_eq!(resource.into_bytes().unwrap(), vec![2, 3]);
    let mut resource = open(b"a");
    assert_eq!(resource.media_type(), None);
    assert_eq!(resource.seek(SeekFrom::End(-1)).unwrap(), 2);
    assert_eq!(resource.read_to_end().unwrap(), vec![3]);
    assert_eq!(resource.into_bytes().unwrap(), Vec::<u8>::new());
}

#[test]
fn the_media_type_of_a_file_goes_by_its_extension() {
    let webp = Features { guess_mime_type: false, ext_texture_webp: true };
    assert_eq!(media_type_of(Some(b"a.jpg"), off()), Some("image/jpeg"));
    assert_eq!(media_type_of(Some(b"a.jpeg"), off()), Some("image/jpeg"));
    assert_eq!(media_type_of(Some(b"a.png"), off()), Some("image/png"));
    assert_eq!(media_type_of(Some(b"a.PNG"), off()), None);
    assert_eq!(media_type_of(Some(b"a.bin"), off()), None);
    assert_eq!(media_type_of(Some(b"png"), off()), None);
    assert_eq!(media_type_of(Some(b".png"), off()), None);
    assert_eq!(media_type_of(None, off()), None);
    assert_eq!(media_type_of(Some(b"a.webp"), off()), None);
    assert_eq!(media_type_of(Some(b"a.webp"), webp), Some("image/webp"));
}

#[test]
fn a_file_url_is_opened_by_its_path() {
    let echo = opening(|path: Vec<u8>| Ok(path));
    let open = |text: &str| FileResource::try_from(&uri(text), off(), &echo);
    let resource = open("file:///a%20b/c.jpeg").unwrap();
    assert_eq!(resource.media_type(), Some("image/jpeg"));
    assert_eq!(resource.into_bytes().unwrap(), b"/a b/c.jpeg".to_vec());
    let resource = open("file:///%FF.png").unwrap();
    assert_eq!(resource.media_type(), Some("image/png"));
    assert_eq!(resource.into_bytes().unwrap(), b"/\xff.png".to_vec());
    assert!(matches!(open("file://elsewhere/a.png"), Err(Error::UnsupportedScheme)));
}

#[test]
fn the_media_type_of_a_file_url_goes_by_its_last_component() {
    let echo = opening(|path: Vec<u8>| Ok(path));
    let media_type = |text: &str| {
        FileResource::try_from(&uri(text), off(), &echo).unwrap().media_type().map(String::from)
    };
    assert_eq!(media_type("file:///a/b.png").as_deref(), Some("image/png"));
    assert_eq!(media_type("file:///a/b.png/").as_deref(), Some("image/png"));
    assert_eq!(media_type("file:///a.png/b"), None);
    assert_eq!(media_type("file:///a.png/.png"), None);
    assert_eq!(media_type("file:///"), None);
}

#[test]
fn a_file_that_cannot_be_opened_is_an_io_error() {
    let open = |_: Vec<u8>| -> std::io::Result<Cursor> { Err(std::io::ErrorKind::NotFound.into()) };
    match FileResource::try_from(&uri("file:///a.png"), off(), &open) {
        Err(Error::Io(error)) => assert_eq!(error.kind(), std::io::ErrorKind::NotFound),
        other => panic!("{other:?}"),
    }
}

/// Can be opened, but neither read nor sought.
#[derive(Debug)]
struct Directory;

impl Read for Directory {
    fn read(&mut self, _: &mut [u8]) -> std::io::Result<usize> {
        Err(std::io::ErrorKind::IsADirectory.into())
    }

    fn read_to_end(&mut self) -> std::io::Result<Vec<u8>> {
        Err(std::io::ErrorKind::IsADirectory.into())
    }
}

impl Seek for Directory {
    fn seek(&mut self, _: SeekFrom) -> Result<u64, SeekError> {
        Err(SeekError::Io(std::io::ErrorKind::InvalidInput.into()))
    }
}

#[test]
fn a_file_fails_when_it_is_read_and_not_before() {
    let importer = DefaultImporter {
        open_file: |_: Vec<u8>| -> std::io::Result<Directory> { Ok(Directory) },
        features: off(),
    };
    let mut opened = importer.open(&uri("file:///a.png")).unwrap();
    assert_eq!(opened.media_type(), Some("image/png"));
    assert!(opened.read(&mut [0]).is_err());
    assert!(opened.read_to_end().is_err());
    assert!(matches!(opened.seek(SeekFrom::Start(u64::MAX)), Err(SeekError::Io(_))));
    assert!(opened.into_bytes().is_err());
    let opened = importer.open(&uri("file:///a.png")).unwrap();
    assert!(matches!(SeekableWrapper::new(opened), Err(Error::Io(_))));
}

#[test]
fn the_default_importer_goes_by_the_scheme() {
    let importer = DefaultImporter {
        open_file: opening(|path: Vec<u8>| -> std::io::Result<Vec<u8>> { Ok(path) }),
        features: off(),
    };
    assert_eq!(importer.features(), off());
    assert!(matches!(importer.open(&uri("data:;base64,AAAA")), Ok(DefaultResource::Data(_))));
    assert!(matches!(importer.open(&uri("file:///a.bin")), Ok(DefaultResource::File(_))));
    assert!(matches!(importer.open(&uri("http://a/b.bin")), Err(Error::UnsupportedScheme)));
    assert!(matches!(importer.open(&uri("data:!")), Err(Error::Base64(_))));
}

#[test]
fn what_the_default_importer_opens_can_be_read_and_sought() {
    let importer = DefaultImporter {
        open_file: opening(|path: Vec<u8>| -> std::io::Result<Vec<u8>> { Ok(path) }),
        features: off(),
    };
    let mut buf = [0u8; 2];
    let mut data = importer.open_seekable(&uri("data:a/b;base64,AAECAw==")).unwrap();
    assert_eq!(data.media_type(), Some("a/b"));
    assert_eq!(data.seek(SeekFrom::Start(2)).unwrap(), 2);
    assert_eq!(data.read(&mut buf).unwrap(), 2);
    assert_eq!(buf, [2, 3]);
    assert_eq!(data.into_bytes().unwrap(), vec![0, 1, 2, 3]);
    let mut file = importer.open_seekable(&uri("file:///ab.png")).unwrap();
    assert_eq!(file.media_type(), Some("image/png"));
    assert!(matches!(file.seek(SeekFrom::Current(-1)), Err(SeekError::OutOfRange)));
    assert_eq!(file.read(&mut buf).unwrap(), 2);
    assert_eq!(&buf, b"/a");
    assert_eq!(file.into_bytes().unwrap(), b"b.png".to_vec());
}

#[test]
fn data_urls_are_opened_without_reading_a_file() {
    let importer = DefaultImporter {
        open_file: opening(|_: Vec<u8>| -> std::io::Result<Vec<u8>> { panic!("no file was meant to be read") }),
        features: off(),
    };
    let opened = importer.open(&uri("data:;base64,AAAA")).unwrap();
    assert_eq!(opened.into_bytes().unwrap(), vec![0, 0, 0]);
}

#[test]
fn a_resource_in_memory_keeps_its_media_type_and_bytes() {
    let mut data = DataResource::try_from(&uri("data:a/b;base64,AAECAw==")).unwrap();
    data.seek(SeekFrom::Start(3)).unwrap();
    let mut wrapped = SeekableWrapper::new(data).unwrap();
    assert_eq!(wrapped.media_type(), Some("a/b"));
    let mut buf = [0u8; 4];
    assert_eq!(wrapped.read(&mut buf).unwrap(), 4);
    assert_eq!(buf, [0, 1, 2, 3]);
    assert_eq!(wrapped.seek(SeekFrom::End(0)).unwrap(), 4);
    let again = SeekableWrapper::new(wrapped).unwrap();
    assert_eq!(again.media_type(), Some("a/b"));
    assert_eq!(again.into_bytes().unwrap(), vec![0, 1, 2, 3]);
}

struct Broken;

impl Read for Broken {
    fn read(&mut self, _: &mut [u8]) -> std::io::Result<usize> {
        Err(std::io::ErrorKind::BrokenPipe.into())
    }

    fn read_to_end(&mut self) -> std::io::Result<Vec<u8>> {
        Err(std::io::ErrorKind::BrokenPipe.into())
    }
}

impl Resource for Broken {
    fn media_type(&self) -> Option<&str> {
        None
    }

    fn into_bytes(self) -> std::io::Result<Vec<u8>> {
        Err(std::io::ErrorKind::BrokenPipe.into())
    }
}

#[test]
fn a_resource_that_cannot_be_read_into_memory_is_an_io_error() {
    assert!(matches!(SeekableWrapper::new(Broken), Err(Error::Io(_))));
}
