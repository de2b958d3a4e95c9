use gltf_import::cursor::Cursor;
use gltf_import::buffer::Data as BufferData;
use gltf_import::document::Document;
use gltf_import::error::Error;
use gltf_import::features::Features;
use gltf_import::image::{
    choose_format, BufferView, Data, DecodedImage, Format, Image, ImageFormat, Source,
};
use gltf_import::import::{check_fits, import_images, ImporterExt};
use gltf_import::importer::DefaultImporter;
use gltf_import::resource::DataResource;
use gltf_import::uri::{FilePath, Uri};
use image::DynamicImage;

/// Opens what `read` gives as a file in memory.
fn opening<F>(read: F) -> impl Fn(Vec<u8>) -> std::io::Result<Cursor>
where
    F: Fn(Vec<u8>) -> std::io::Result<Vec<u8>>,
{
    move |path| read(path).map(Cursor::new)
}

const OFF: Features = Features { guess_mime_type: false, ext_texture_webp: false };
const GUESS: Features = Features { guess_mime_type: true, ext_texture_webp: false };
const WEBP: Features = Features { guess_mime_type: false, ext_texture_webp: true };
const ALL: Features = Features { guess_mime_type: true, ext_texture_webp: true };

const RGB: [u8; 12] = [1, 2, 3, 4, 5, 6, 7, 8, 9, 10, 11, 12];

fn path(text: &str) -> FilePath {
    FilePath::from_text(text)
}

fn nowhere() -> std::io::Result<FilePath> {
    Err(std::io::ErrorKind::NotFound.into())
}

fn encode(image: DynamicImage, format: image::ImageFormat) -> Vec<u8> {
    let mut encoded = std::io::Cursor::new(vec![]);
    image.write_to(&mut encoded, format).unwrap();
    encoded.into_inner()
}

/// Two rows of two pixels.
fn small() -> DynamicImage {
    DynamicImage::ImageRgb8(image::RgbImage::from_raw(2, 2, RGB.to_vec()).unwrap())
}

fn png() -> Vec<u8> {
    encode(small(), image::ImageFormat::Png)
}

fn jpeg() -> Vec<u8> {
    encode(small(), image::ImageFormat::Jpeg)
}

fn webp() -> Vec<u8> {
    encode(small(), image::ImageFormat::WebP)
}

fn data_url(media_type: &str, bytes: &[u8]) -> String {
    format!("data:{media_type};base64,{}", base64::encode(bytes))
}

fn view(buffer: usize, offset: usize, length: usize) -> Source {
    Source::View {
        view: BufferView { buffer, offset, length },
        mime_type: String::from("image/png"),
    }
}

fn document(sources: Vec<Source>) -> Document<()> {
    let images = sources.into_iter().map(|source| Image { source }).collect();
    Document { buffers: vec![], images, rest: () }
}

fn assert_small(data: &Data) {
    assert_eq!(data.pixels, RGB.to_vec());
    assert_eq!(data.format, Format::R8G8B8);
    assert_eq!((data.width, data.height), (2, 2));
}

#[test]
fn the_media_type_decides_the_format() {
    for features in [OFF, GUESS, WEBP, ALL] {
        assert_eq!(choose_format(features, Some("image/png"), &jpeg()).unwrap(), ImageFormat::Png);
        assert_eq!(choose_format(features, Some("image/jpeg"), &png()).unwrap(), ImageFormat::Jpeg);
    }
    for features in [WEBP, ALL] {
        assert_eq!(choose_format(features, Some("image/webp"), &png()).unwrap(), ImageFormat::WebP);
    }
}

#[test]
fn the_format_is_guessed_where_that_is_asked_for() {
    for media_type in [None, Some("image/PNG"), Some("")] {
        assert_eq!(choose_format(GUESS, media_type, &png()).unwrap(), ImageFormat::Png);
        assert_eq!(choose_format(GUESS, media_type, &jpeg()).unwrap(), ImageFormat::Jpeg);
        assert_eq!(choose_format(ALL, media_type, &webp()).unwrap(), ImageFormat::WebP);
        for encoded in [png(), jpeg(), webp()] {
            assert!(matches!(
                choose_format(OFF, media_type, &encoded),
                Err(Error::UnsupportedImageEncoding)
            ));
        }
    }
}

#[test]
fn webp_is_accepted_only_where_that_is_asked_for() {
    assert!(matches!(
        choose_format(OFF, Some("image/webp"), &webp()),
        Err(Error::UnsupportedImageEncoding)
    ));
    assert!(matches!(
        choose_format(GUESS, Some("image/webp"), &webp()),
        Err(Error::UnsupportedImageEncoding)
    ));
    assert!(matches!(choose_format(GUESS, None, &webp()), Err(Error::UnsupportedImageEncoding)));
    assert_eq!(choose_format(GUESS, Some("image/webp"), &png()).unwrap(), ImageFormat::Png);
}

#[test]
fn only_the_signatures_of_accepted_formats_are_guessed() {
    let guess = |encoded: &[u8]| choose_format(ALL, None, encoded).ok();
    assert_eq!(guess(b"\x89PNG\r\n\x1a\n"), Some(ImageFormat::Png));
    assert_eq!(guess(b"\x89PNG\r\n\x1a"), None);
    assert_eq!(guess(b"\xff\xd8\xff"), Some(ImageFormat::Jpeg));
    assert_eq!(guess(b"\xff\xd8"), None);
    assert_eq!(guess(b"RIFF\x01\x02\x03\x04WEBP"), Some(ImageFormat::WebP));
    assert_eq!(guess(b"RIFF\x01\x02\x03\x04WEB"), None);
    assert_eq!(guess(b"RIFF\x01\x02\x03\x04WAVE"), None);
    assert_eq!(guess(b"GIF89a"), None);
    assert_eq!(guess(b""), None);
}

#[test]
fn the_pixel_format_goes_by_channels_and_bytes() {
    let expected = [
        (1, 1, Format::R8),
        (2, 2, Format::R8G8),
        (3, 3, Format::R8G8B8),
        (4, 4, Format::R8G8B8A8),
        (1, 2, Format::R16),
        (2, 4, Format::R16G16),
        (3, 6, Format::R16G16B16),
        (4, 8, Format::R16G16B16A16),
        (3, 12, Format::R32G32B32FLOAT),
        (4, 16, Format::R32G32B32A32FLOAT),
    ];
    for channels in 0u8..6 {
        for bytes_per_pixel in 0u8..20 {
            let pixels = vec![7; 6 * bytes_per_pixel as usize];
            let decoded = DecodedImage { channels, bytes_per_pixel, width: 3, height: 2, pixels };
            let found = expected.iter().find(|e| (e.0, e.1) == (channels, bytes_per_pixel));
            match (Data::new(decoded), found) {
                (Ok(data), Some((_, _, format))) => {
                    assert_eq!(data.format, *format);
                    assert_eq!((data.width, data.height), (3, 2));
                    assert_eq!(data.pixels, vec![7; 6 * bytes_per_pixel as usize]);
                }
                (Err(Error::UnsupportedImageFormat), None) => {}
                (data, _) => panic!("{channels} {bytes_per_pixel} {data:?}"),
            }
        }
    }
}

#[test]
fn an_encoded_image_is_decoded() {
    assert_small(&Data::from_encoded(OFF, Some("image/png"), &png()).unwrap());
    assert_small(&Data::from_encoded(GUESS, None, &png()).unwrap());
    assert_small(&Data::from_encoded(WEBP, Some("image/webp"), &webp()).unwrap());
    let data = Data::from_encoded(OFF, Some("image/jpeg"), &jpeg()).unwrap();
    assert_eq!((data.format, data.width, data.height), (Format::R8G8B8, 2, 2));
    assert_eq!(data.pixels.len(), 12);
}

#[test]
fn every_kind_of_png_has_its_pixel_format() {
    let decode = |image: DynamicImage| {
        Data::from_encoded(OFF, Some("image/png"), &encode(image, image::ImageFormat::Png)).unwrap()
    };
    let gray = decode(DynamicImage::ImageLuma8(image::GrayImage::from_raw(1, 2, vec![1, 2]).unwrap()));
    assert_eq!((gray.format, gray.width, gray.height), (Format::R8, 1, 2));
    assert_eq!(gray.pixels, vec![1, 2]);
    let gray = DynamicImage::ImageLumaA8(image::GrayAlphaImage::from_raw(1, 1, vec![1, 2]).unwrap());
    let gray = decode(gray);
    assert_eq!((gray.format, gray.pixels), (Format::R8G8, vec![1, 2]));
    let rgba = DynamicImage::ImageRgba8(image::RgbaImage::from_raw(1, 1, vec![1, 2, 3, 4]).unwrap());
    let rgba = decode(rgba);
    assert_eq!((rgba.format, rgba.pixels), (Format::R8G8B8A8, vec![1, 2, 3, 4]));
    let rgb = image::ImageBuffer::from_raw(1, 1, vec![0x0102u16, 0x0304, 0x0506]).unwrap();
    let rgb = decode(DynamicImage::ImageRgb16(rgb));
    assert_eq!(rgb.format, Format::R16G16B16);
    let channels: Vec<u8> =
        [0x0102u16, 0x0304, 0x0506].iter().flat_map(|channel| channel.to_ne_bytes()).collect();
    assert_eq!(rgb.pixels, channels);
}

#[test]
fn the_pixels_fill_the_image() {
    for (media_type, encoded) in [("image/png", png()), ("image/jpeg", jpeg()), ("image/webp", webp())] {
        let data = Data::from_encoded(ALL, Some(media_type), &encoded).unwrap();
        assert_eq!(data.pixels.len(), data.width as usize * data.height as usize * 3);
    }
}

#[test]
fn what_cannot_be_decoded_is_an_image_error() {
    assert!(matches!(Data::from_encoded(OFF, Some("image/png"), &jpeg()), Err(Error::Image(_))));
    assert!(matches!(Data::from_encoded(OFF, Some("image/png"), &[]), Err(Error::Image(_))));
    let encoded = png();
    let cut = &encoded[..encoded.len() / 2];
    assert!(matches!(Data::from_encoded(OFF, Some("image/png"), cut), Err(Error::Image(_))));
    let own = |encoded: &[u8]| {
        image::load_from_memory_with_format(encoded, image::ImageFormat::Png).unwrap_err().to_string()
    };
    for encoded in [&jpeg()[..], &[], cut] {
        match Data::from_encoded(OFF, Some("image/png"), encoded) {
            Err(Error::Image(error)) => assert_eq!(error.to_string(), own(encoded)),
            other => panic!("{other:?}"),
        }
    }
}

#[test]
fn the_reported_media_type_comes_before_the_declared_one() {
    let open = |media_type: &str, bytes: &[u8]| {
        DataResource::try_from(&Uri::parse(&data_url(media_type, bytes)).unwrap())
    };
    assert_small(&Data::from_opened(OFF, Some("image/jpeg"), open("image/png", &png())).unwrap());
    assert!(matches!(
        Data::from_opened(OFF, Some("image/png"), open("image/jpeg", &png())),
        Err(Error::Image(_))
    ));
    assert!(matches!(
        Data::from_opened(OFF, Some("image/png"), open("text/plain", &png())),
        Err(Error::UnsupportedImageEncoding)
    ));
    let bare = Uri::parse(&format!("data:{}", base64::encode(png()))).unwrap();
    let bare = DataResource::try_from(&bare);
    assert_small(&Data::from_opened(OFF, Some("image/png"), bare).unwrap());
    let failed: Result<DataResource, Error> = Err(Error::UnsupportedScheme);
    assert!(matches!(Data::from_opened(OFF, None, failed), Err(Error::UnsupportedScheme)));
}

#[test]
fn an_image_comes_from_a_file() {
    let importer = DefaultImporter {
        open_file: opening(|path: Vec<u8>| -> std::io::Result<Vec<u8>> {
            if path == b"/models/a.png" || path == b"/models/a" {
                Ok(png())
            } else {
                Err(std::io::ErrorKind::NotFound.into())
            }
        }),
        features: OFF,
    };
    let image = |uri: &str, mime_type: Option<&str>| {
        let source =
            Source::Uri { uri: String::from(uri), mime_type: mime_type.map(String::from) };
        Data::from_source(&source, Some(&path("/models")), &[], &importer, nowhere())
    };
    assert_small(&image("a.png", None).unwrap());
    assert_small(&image("a.png", Some("image/jpeg")).unwrap());
    assert_small(&image("a", Some("image/png")).unwrap());
    assert!(matches!(image("a", None), Err(Error::UnsupportedImageEncoding)));
    assert!(matches!(image("b.png", None), Err(Error::Io(_))));
    assert!(matches!(image("http://a/b.png", None), Err(Error::UnsupportedScheme)));
}

#[test]
fn an_image_comes_from_a_data_url() {
    let importer = DefaultImporter {
        open_file: opening(|_: Vec<u8>| -> std::io::Result<Vec<u8>> { panic!("no file was meant to be read") }),
        features: OFF,
    };
    let source = Source::Uri { uri: data_url("image/png", &png()), mime_type: None };
    assert_small(&Data::from_source(&source, None, &[], &importer, nowhere()).unwrap());
    assert!(matches!(
        Data::from_source(&source, Some(&path("models")), &[], &importer, nowhere()),
        Err(Error::Io(_))
    ));
    let relative = Source::Uri { uri: String::from("a.png"), mime_type: None };
    assert!(matches!(
        Data::from_source(&relative, None, &[], &importer, nowhere()),
        Err(Error::ExternalReferenceInSliceImport)
    ));
}

#[test]
fn an_image_comes_from_a_view() {
    let importer = DefaultImporter {
        open_file: opening(|path: Vec<u8>| -> std::io::Result<Vec<u8>> { Ok(path) }),
        features: OFF,
    };
    let encoded = png();
    let mut bytes = vec![9; 5];
    bytes.extend_from_slice(&encoded);
    bytes.push(9);
    let buffers = [BufferData(vec![]), BufferData(bytes)];
    let source = view(1, 5, encoded.len());
    assert!(check_fits(&source, &buffers));
    assert_small(&Data::import_from_source(&importer, &source, None, &buffers).unwrap());
    assert_small(&Data::from_source(&source, None, &buffers, &importer, nowhere()).unwrap());
    let shifted = view(1, 4, encoded.len());
    assert!(matches!(
        Data::import_from_source(&importer, &shifted, None, &buffers),
        Err(Error::Image(_))
    ));
}

#[test]
fn a_view_lies_inside_its_buffer_or_does_not_fit() {
    let buffers = [BufferData(vec![0; 4])];
    assert!(check_fits(&view(0, 0, 4), &buffers));
    assert!(check_fits(&view(0, 4, 0), &buffers));
    assert!(!check_fits(&view(0, 1, 4), &buffers));
    assert!(!check_fits(&view(0, 5, 0), &buffers));
    assert!(!check_fits(&view(1, 0, 0), &buffers));
    assert!(!check_fits(&view(0, usize::MAX, 1), &buffers));
    assert!(!check_fits(&view(0, 1, usize::MAX), &buffers));
    assert!(check_fits(&Source::Uri { uri: String::new(), mime_type: None }, &[]));
}

#[test]
fn every_image_is_imported_in_order() {
    let importer = DefaultImporter {
        open_file: opening(|path: Vec<u8>| -> std::io::Result<Vec<u8>> {
            assert_eq!(path, b"/models/gray.png");
            let gray = image::GrayImage::from_raw(1, 1, vec![5]).unwrap();
            Ok(encode(DynamicImage::ImageLuma8(gray), image::ImageFormat::Png))
        }),
        features: OFF,
    };
    let encoded = png();
    let length = encoded.len();
    let buffers = [BufferData(encoded)];
    let images = document(vec![
        view(0, 0, length),
        Source::Uri { uri: String::from("gray.png"), mime_type: None },
    ]);
    let data =
        import_images(&images, Some(&path("/models/a.gltf")), &buffers, &importer, nowhere()).unwrap();
    assert_eq!(data.len(), 2);
    assert_small(&data[0]);
    assert_eq!((data[1].format, data[1].width, data[1].height), (Format::R8, 1, 1));
    assert_eq!(data[1].pixels, vec![5]);
}

#[test]
fn the_first_image_that_fails_decides_the_error() {
    let importer = DefaultImporter {
        open_file: opening(|_: Vec<u8>| -> std::io::Result<Vec<u8>> {
            Err(std::io::ErrorKind::NotFound.into())
        }),
        features: OFF,
    };
    let buffers = [BufferData(png())];
    let length = buffers[0].0.len();
    let file = || Source::Uri { uri: String::from("file:///a.png"), mime_type: None };
    let images = document(vec![view(0, 0, length), view(0, 1, length), file()]);
    match importer.import_images(&images, None, &buffers) {
        Err(Error::ViewOutOfBounds { image }) => assert_eq!(image, 1),
        other => panic!("{other:?}"),
    }
    let images = document(vec![view(0, 0, length), file(), view(0, 1, length)]);
    assert!(matches!(importer.import_images(&images, None, &buffers), Err(Error::Io(_))));
    assert!(matches!(
        import_images(&document(vec![]), Some(&path("a.gltf")), &buffers, &importer, nowhere()),
        Err(Error::Io(_))
    ));
    assert!(importer.import_images(&document(vec![]), None, &[]).unwrap().is_empty());
}

#[test]
fn an_image_from_a_view_depends_on_nothing_else() {
    let buffers = [BufferData(png())];
    let source = view(0, 0, buffers[0].0.len());
    let broken = DefaultImporter {
        open_file: opening(|_: Vec<u8>| Err(std::io::ErrorKind::NotFound.into())),
        features: OFF,
    };
    let echo = DefaultImporter { open_file: opening(|path: Vec<u8>| Ok(path)), features: OFF };
    let base = Uri::parse("http://a/b").unwrap();
    assert_small(&Data::import_from_source(&broken, &source, None, &buffers).unwrap());
    assert_small(&Data::import_from_source(&echo, &source, Some(&base), &buffers).unwrap());
    assert_small(&Data::from_source(&source, None, &buffers, &echo, nowhere()).unwrap());
    assert_small(&Data::from_source(&source, Some(&path("/m")), &buffers, &echo, nowhere()).unwrap());
}

#[test]
fn an_image_that_stands_alone_ignores_the_base() {
    let importer = DefaultImporter {
        open_file: opening(|path: Vec<u8>| {
            assert_eq!(path, b"/a.png");
            Ok(png())
        }),
        features: OFF,
    };
    for uri in [String::from("file:///a.png"), data_url("image/png", &png())] {
        let source = Source::Uri { uri: uri.clone(), mime_type: None };
        assert_small(&Data::from_source(&source, None, &[], &importer, nowhere()).unwrap());
        assert_small(&Data::from_source(&source, Some(&path("/m")), &[], &importer, nowhere()).unwrap());
        let images = document(vec![source]);
        for base in [None, Some(&path("/m/a.gltf"))] {
            let data = import_images(&images, base, &[], &importer, nowhere()).unwrap();
            assert_small(&data[0]);
        }
    }
}
