//! What a URL is opened as: a media type, if one is known, and bytes.
use crate::cursor::{sought, was_read, was_read_to_end, Cursor, CursorView, SeekFrom};
use crate::error::{opt_chars, outcome, Base64Error, Error, ErrorView};
use crate::features::Features;
use crate::path::{extension, name_extension};
use crate::stream::{content_view, Read, Seek, SeekError};
use crate::text::{bytes_eq, split_at_first, split_once};
use crate::uri::{
    file_name, file_name_outcome, file_path, file_path_outcome, opt_bytes, Uri, UriView,
};
use vstd::prelude::*;
use vstd::slice::*;
use vstd::utf8::*;

verus! {

/// Something that was opened: its media type, where it has one, and its bytes.
///
/// An impl says in `reports` what media type it has and in `may_yield` what bytes may come of it.
/// By default the bytes may be anything, and the media type is one that is not said; an impl that
/// is to be verified says which.
pub trait Resource: Read {
    /// The media type that the resource reports.
    open spec fn reports(&self) -> Option<Seq<char>> {
        arbitrary()
    }

    /// The bytes may turn out to be `content`.
    open spec fn may_yield(&self, content: Result<Seq<u8>, std::io::Error>) -> bool {
        true
    }

    /// The media type, such as `image/png`.
    fn media_type(&self) -> (media_type: Option<&str>)
        ensures
            opt_chars(media_type) == self.reports(),
    ;

    /// Gives up the resource for its bytes. A resource that holds them nowhere reads them to the
    /// end.
    fn into_bytes(self) -> (content: Result<Vec<u8>, std::io::Error>)
        ensures
            self.may_yield(content_view(content)),
    ;
}

/// The plain value of a resource in memory.
#[verifier::ext_equal]
pub struct ResourceView {
    pub media_type: Option<Seq<char>>,
    pub data: CursorView,
}

/// The plain value of an optional string.
pub open spec fn opt_string(text: Option<String>) -> Option<Seq<char>> {
    match text {
        Some(text) => Some(text@),
        None => None,
    }
}

/// An optional string, borrowed.
pub(crate) fn as_deref(text: &Option<String>) -> (borrowed: Option<&str>)
    ensures
        opt_chars(borrowed) == opt_string(*text),
{
    match text {
        Some(text) => Some(text.as_str()),
        None => None,
    }
}

/// The contents of a `data` URL.
#[derive(Debug)]
pub struct DataResource {
    media_type: Option<String>,
    data: Cursor,
}

impl View for DataResource {
    type V = ResourceView;

    closed spec fn view(&self) -> ResourceView {
        ResourceView { media_type: opt_string(self.media_type), data: self.data@ }
    }
}

/// A file that was opened as an `H`.
#[derive(Debug)]
pub struct FileResource<H> {
    media_type: Option<&'static str>,
    file: H,
}

/// The plain value of a [`FileResource`].
pub struct FileView<H> {
    pub media_type: Option<Seq<char>>,
    /// What the file was opened as.
    pub file: H,
}

impl<H> View for FileResource<H> {
    type V = FileView<H>;

    closed spec fn view(&self) -> FileView<H> {
        FileView { media_type: opt_chars(self.media_type), file: self.file }
    }
}

/// The media type and the Base64 text in the path of a `data` URL: what stands before the first
/// mark, and what stands after it up to the second mark or the end. A path without a mark has no
/// media type and is Base64 text as a whole.
pub open spec fn data_parts(path: Seq<char>) -> (Option<Seq<char>>, Seq<char>) {
    match split_at_first(path, ";base64,"@) {
        None => (None, path),
        Some((media_type, rest)) => (
            Some(media_type),
            match split_at_first(rest, ";base64,"@) {
                None => rest,
                Some((encoded, _)) => encoded,
            },
        ),
    }
}

/// The media type and the Base64 text in the path of a `data` URL.
pub fn split_data(path: &str) -> (parts: (Option<&str>, &str))
    ensures
        (opt_chars(parts.0), parts.1@) == data_parts(path@),
{
    let mark = ";base64,";
    proof {
        reveal_strlit(";base64,");
    }
    match split_once(path, mark) {
        None => (None, path),
        Some((media_type, rest)) => {
            match split_once(rest, mark) {
                None => (Some(media_type), rest),
                Some((encoded, _)) => (Some(media_type), encoded),
            }
        },
    }
}

/// What the `base64` crate decodes `text` to.
pub uninterp spec fn decoded_base64(text: Seq<char>) -> Result<Seq<u8>, Base64Error>;

/// The plain value of decoded Base64.
pub open spec fn decoded_view(decoded: Result<Vec<u8>, Base64Error>) -> Result<
    Seq<u8>,
    Base64Error,
> {
    match decoded {
        Ok(bytes) => Ok(bytes@),
        Err(error) => Err(error),
    }
}

/// `base64::decode`: the bytes that `text` encodes in the standard alphabet, padded or not, or
/// why it encodes none. What comes back is a function of `text`, named [`decoded_base64`].
#[verifier::external_body]
fn decode_base64(text: &str) -> (decoded: Result<Vec<u8>, Base64Error>)
    ensures
        decoded_view(decoded) == decoded_base64(text@),
{
    match ::base64::decode(text) {
        Ok(bytes) => Ok(bytes),
        Err(::base64::DecodeError::InvalidByte(at, byte)) => Err(Base64Error::InvalidByte(at, byte)),
        Err(::base64::DecodeError::InvalidLength) => Err(Base64Error::InvalidLength),
        Err(::base64::DecodeError::InvalidLastSymbol(at, byte)) => {
            Err(Base64Error::InvalidLastSymbol(at, byte))
        },
    }
}

/// What a `data` URL is opened as, once its Base64 text is decoded.
pub open spec fn decoded_resource(
    media_type: Option<Seq<char>>,
    decoded: Result<Seq<u8>, Base64Error>,
) -> Result<ResourceView, ErrorView> {
    match decoded {
        Ok(bytes) => Ok(ResourceView { media_type, data: CursorView::at_start(bytes) }),
        Err(error) => Err(ErrorView::Base64(error)),
    }
}

/// What a `data` URL with this path is opened as.
pub open spec fn data_resource(path: Seq<char>) -> Result<ResourceView, ErrorView> {
    let (media_type, encoded) = data_parts(path);
    decoded_resource(media_type, decoded_base64(encoded))
}

impl DataResource {
    /// The resource with this media type and these bytes, if they could be decoded.
    pub fn from_decoded(
        media_type: Option<&str>,
        decoded: Result<Vec<u8>, Base64Error>,
    ) -> (resource: Result<DataResource, Error>)
        ensures
            outcome(resource) == decoded_resource(opt_chars(media_type), decoded_view(decoded)),
    {
        match decoded {
            Ok(bytes) => {
                let media_type = match media_type {
                    Some(text) => Some(text.to_owned()),
                    None => None,
                };
                Ok(DataResource { media_type, data: Cursor::new(bytes) })
            },
            Err(error) => Err(Error::Base64(error)),
        }
    }

    /// Decodes a `data` URL. Its scheme is not looked at.
    pub fn try_from(value: &Uri) -> (resource: Result<DataResource, Error>)
        ensures
            outcome(resource) == data_resource(value@.path),
    {
        let (media_type, encoded) = split_data(value.path());
        DataResource::from_decoded(media_type, decode_base64(encoded))
    }
}

impl Read for DataResource {
    open spec fn may_read(
        &self,
        before: Seq<u8>,
        count: Result<usize, std::io::Error>,
        after: Seq<u8>,
        left: Self,
    ) -> bool {
        &&& was_read(self@.data, before, count, after, left@.data)
        &&& left@.media_type == self@.media_type
    }

    open spec fn may_read_to_end(
        &self,
        content: Result<Seq<u8>, std::io::Error>,
        left: Self,
    ) -> bool {
        &&& was_read_to_end(self@.data, content, left@.data)
        &&& left@.media_type == self@.media_type
    }

    fn read(&mut self, buf: &mut [u8]) -> (count: Result<usize, std::io::Error>) {
        self.data.read(buf)
    }

    fn read_to_end(&mut self) -> (content: Result<Vec<u8>, std::io::Error>) {
        self.data.read_to_end()
    }
}

impl Seek for DataResource {
    open spec fn may_seek(
        &self,
        to: SeekFrom,
        position: Result<u64, SeekError>,
        left: Self,
    ) -> bool {
        &&& sought(self@.data, to, position, left@.data)
        &&& left@.media_type == self@.media_type
    }

    fn seek(&mut self, to: SeekFrom) -> (position: Result<u64, SeekError>) {
        self.data.seek(to)
    }
}

impl Resource for DataResource {
    open spec fn reports(&self) -> Option<Seq<char>> {
        self@.media_type
    }

    open spec fn may_yield(&self, content: Result<Seq<u8>, std::io::Error>) -> bool {
        content == Ok::<_, std::io::Error>(self@.data.bytes)
    }

    fn media_type(&self) -> (media_type: Option<&str>) {
        as_deref(&self.media_type)
    }

    fn into_bytes(self) -> (content: Result<Vec<u8>, std::io::Error>) {
        let content: Result<Vec<u8>, std::io::Error> = Ok(self.data.into_inner());
        assert(self.may_yield(Ok(self@.data.bytes)));
        content
    }
}

/// The media type that a file's extension stands for.
pub open spec fn extension_media_type(
    extension: Option<Seq<u8>>,
    features: Features,
) -> Option<Seq<char>> {
    match extension {
        None => None,
        Some(extension) => {
            if extension == encode_utf8("jpg"@) || extension == encode_utf8("jpeg"@) {
                Some("image/jpeg"@)
            } else if extension == encode_utf8("png"@) {
                Some("image/png"@)
            } else if features.ext_texture_webp && extension == encode_utf8("webp"@) {
                Some("image/webp"@)
            } else {
                None
            }
        },
    }
}

/// The media type that the name of a file stands for.
pub open spec fn name_media_type(name: Option<Seq<u8>>, features: Features) -> Option<Seq<char>> {
    match name {
        Some(name) => extension_media_type(name_extension(name), features),
        None => None,
    }
}

/// The plain value of an optional slice.
pub open spec fn opt_slice(bytes: Option<&[u8]>) -> Option<Seq<u8>> {
    match bytes {
        Some(bytes) => Some(bytes@),
        None => None,
    }
}

/// The media type that the name of a file stands for, by its extension.
pub fn media_type_of(name: Option<&[u8]>, features: Features) -> (media_type: Option<&'static str>)
    ensures
        opt_chars(media_type) == name_media_type(opt_slice(name), features),
{
    let name = match name {
        Some(name) => name,
        None => return None,
    };
    match extension(name) {
        None => None,
        Some(extension) => {
            if bytes_eq(extension, "jpg".as_bytes()) || bytes_eq(extension, "jpeg".as_bytes()) {
                Some("image/jpeg")
            } else if bytes_eq(extension, "png".as_bytes()) {
                Some("image/png")
            } else if features.ext_texture_webp && bytes_eq(extension, "webp".as_bytes()) {
                Some("image/webp")
            } else {
                None
            }
        },
    }
}

/// What a file with this name is as a resource, once it was opened or could not be.
pub open spec fn file_resource<H>(
    name: Option<Seq<u8>>,
    features: Features,
    opened: Result<H, std::io::Error>,
) -> Result<FileView<H>, ErrorView> {
    match opened {
        Ok(file) => Ok(FileView { media_type: name_media_type(name, features), file }),
        Err(error) => Err(ErrorView::Io(error)),
    }
}

/// `opened` is what `open_file` may give for `path`.
pub open spec fn may_open_file<H, O: Fn(Vec<u8>) -> Result<H, std::io::Error>>(
    open_file: O,
    path: Seq<u8>,
    opened: Result<H, std::io::Error>,
) -> bool {
    exists|argument: Vec<u8>|
        argument@ == path && #[trigger] call_ensures(open_file, (argument,), opened)
}

/// `resource` is what a URL may be opened as through the file system: its path is opened, and
/// `open_file` is asked for nothing else. A URL without a path is not one of a file.
pub open spec fn file_outcome<H, O: Fn(Vec<u8>) -> Result<H, std::io::Error>>(
    uri: UriView,
    features: Features,
    open_file: O,
    resource: Result<FileView<H>, ErrorView>,
) -> bool {
    ||| {
        &&& file_path_outcome(uri.text, None)
        &&& resource == Err::<FileView<H>, _>(ErrorView::UnsupportedScheme)
    }
    ||| exists|path: Seq<u8>, name: Option<Seq<u8>>, opened: Result<H, std::io::Error>|
        {
            &&& file_path_outcome(uri.text, Some(path))
            &&& #[trigger] file_name_outcome(path, name)
            &&& #[trigger] may_open_file(open_file, path, opened)
            &&& resource == file_resource(name, features, opened)
        }
}

impl<H> FileResource<H> {
    /// The file with this name, once it was opened or could not be.
    pub fn from_opened(
        name: Option<&[u8]>,
        features: Features,
        opened: Result<H, std::io::Error>,
    ) -> (resource: Result<FileResource<H>, Error>)
        ensures
            outcome(resource) == file_resource(opt_slice(name), features, opened),
    {
        let media_type = media_type_of(name, features);
        match opened {
            Ok(file) => Ok(FileResource { media_type, file }),
            Err(error) => Err(Error::Io(error)),
        }
    }

    /// Opens the file of a `file` URL through `open_file`, which is given the bytes of the path.
    /// The scheme is not looked at.
    pub fn try_from<O: Fn(Vec<u8>) -> Result<H, std::io::Error>>(
        value: &Uri,
        features: Features,
        open_file: &O,
    ) -> (resource: Result<FileResource<H>, Error>)
        requires
            forall|path: Vec<u8>| #[trigger] call_requires(*open_file, (path,)),
        ensures
            file_outcome(value@, features, *open_file, outcome(resource)),
    {
        match file_path(value) {
            None => Err(Error::UnsupportedScheme),
            Some(path) => {
                let found = file_name(&path);
                let ghost name = opt_bytes(found);
                assert(file_name_outcome(path@, name));
                let argument = slice_to_vec(path.as_bytes());
                assert(argument@ =~= path@);
                let opened = open_file(argument);
                assert(may_open_file(*open_file, path@, opened));
                let found = match &found {
                    Some(name) => Some(name.as_slice()),
                    None => None,
                };
                assert(opt_slice(found) == name);
                FileResource::from_opened(found, features, opened)
            },
        }
    }
}

impl<H: Read> Read for FileResource<H> {
    open spec fn may_read(
        &self,
        before: Seq<u8>,
        count: Result<usize, std::io::Error>,
        after: Seq<u8>,
        left: Self,
    ) -> bool {
        &&& self@.file.may_read(before, count, after, left@.file)
        &&& left@.media_type == self@.media_type
    }

    open spec fn may_read_to_end(
        &self,
        content: Result<Seq<u8>, std::io::Error>,
        left: Self,
    ) -> bool {
        &&& self@.file.may_read_to_end(content, left@.file)
        &&& left@.media_type == self@.media_type
    }

    fn read(&mut self, buf: &mut [u8]) -> (count: Result<usize, std::io::Error>) {
        self.file.read(buf)
    }

    fn read_to_end(&mut self) -> (content: Result<Vec<u8>, std::io::Error>) {
        self.file.read_to_end()
    }
}

impl<H: Seek> Seek for FileResource<H> {
    open spec fn may_seek(
        &self,
        to: SeekFrom,
        position: Result<u64, SeekError>,
        left: Self,
    ) -> bool {
        &&& self@.file.may_seek(to, position, left@.file)
        &&& left@.media_type == self@.media_type
    }

    fn seek(&mut self, to: SeekFrom) -> (position: Result<u64, SeekError>) {
        self.file.seek(to)
    }
}

impl<H: Read> Resource for FileResource<H> {
    open spec fn reports(&self) -> Option<Seq<char>> {
        self@.media_type
    }

    open spec fn may_yield(&self, content: Result<Seq<u8>, std::io::Error>) -> bool {
        exists|left: H| #[trigger] self@.file.may_read_to_end(content, left)
    }

    fn media_type(&self) -> (media_type: Option<&str>) {
        self.media_type
    }

    fn into_bytes(self) -> (content: Result<Vec<u8>, std::io::Error>) {
        let mut file = self.file;
        let content = file.read_to_end();
        assert(self@.file.may_read_to_end(content_view(content), file));
        content
    }
}

/// What the default importer opens.
#[derive(Debug)]
pub enum DefaultResource<H> {
    Data(DataResource),
    File(FileResource<H>),
}

/// Which kind of resource the default importer opened, and its plain value.
pub enum DefaultResourceView<H> {
    Data(ResourceView),
    File(FileView<H>),
}

impl<H> View for DefaultResource<H> {
    type V = DefaultResourceView<H>;

    open spec fn view(&self) -> DefaultResourceView<H> {
        match self {
            DefaultResource::Data(resource) => DefaultResourceView::Data(resource@),
            DefaultResource::File(resource) => DefaultResourceView::File(resource@),
        }
    }
}

impl<H: Read> Read for DefaultResource<H> {
    open spec fn may_read(
        &self,
        before: Seq<u8>,
        count: Result<usize, std::io::Error>,
        after: Seq<u8>,
        left: Self,
    ) -> bool {
        match (*self, left) {
            (DefaultResource::Data(data), DefaultResource::Data(rest)) => {
                data.may_read(before, count, after, rest)
            },
            (DefaultResource::File(file), DefaultResource::File(rest)) => {
                file.may_read(before, count, after, rest)
            },
            _ => false,
        }
    }

    open spec fn may_read_to_end(
        &self,
        content: Result<Seq<u8>, std::io::Error>,
        left: Self,
    ) -> bool {
        match (*self, left) {
            (DefaultResource::Data(data), DefaultResource::Data(rest)) => {
                data.may_read_to_end(content, rest)
            },
            (DefaultResource::File(file), DefaultResource::File(rest)) => {
                file.may_read_to_end(content, rest)
            },
            _ => false,
        }
    }

    fn read(&mut self, buf: &mut [u8]) -> (count: Result<usize, std::io::Error>) {
        match self {
            DefaultResource::Data(data) => data.read(buf),
            DefaultResource::File(file) => file.read(buf),
        }
    }

    fn read_to_end(&mut self) -> (content: Result<Vec<u8>, std::io::Error>) {
        match self {
            DefaultResource::Data(data) => data.read_to_end(),
            DefaultResource::File(file) => file.read_to_end(),
        }
    }
}

impl<H: Seek> Seek for DefaultResource<H> {
    open spec fn may_seek(
        &self,
        to: SeekFrom,
        position: Result<u64, SeekError>,
        left: Self,
    ) -> bool {
        match (*self, left) {
            (DefaultResource::Data(data), DefaultResource::Data(rest)) => {
                data.may_seek(to, position, rest)
            },
            (DefaultResource::File(file), DefaultResource::File(rest)) => {
                file.may_seek(to, position, rest)
            },
            _ => false,
        }
    }

    fn seek(&mut self, to: SeekFrom) -> (position: Result<u64, SeekError>) {
        match self {
            DefaultResource::Data(data) => data.seek(to),
            DefaultResource::File(file) => file.seek(to),
        }
    }
}

impl<H: Read> Resource for DefaultResource<H> {
    open spec fn reports(&self) -> Option<Seq<char>> {
        match *self {
            DefaultResource::Data(data) => data.reports(),
            DefaultResource::File(file) => file.reports(),
        }
    }

    open spec fn may_yield(&self, content: Result<Seq<u8>, std::io::Error>) -> bool {
        match *self {
            DefaultResource::Data(data) => data.may_yield(content),
            DefaultResource::File(file) => file.may_yield(content),
        }
    }

    fn media_type(&self) -> (media_type: Option<&str>) {
        match self {
            DefaultResource::Data(data) => data.media_type(),
            DefaultResource::File(file) => file.media_type(),
        }
    }

    fn into_bytes(self) -> (content: Result<Vec<u8>, std::io::Error>) {
        match self {
            DefaultResource::Data(data) => data.into_bytes(),
            DefaultResource::File(file) => file.into_bytes(),
        }
    }
}

/// A resource read into memory, so that its bytes can be read in any order.
#[derive(Debug)]
pub struct SeekableWrapper {
    media_type: Option<String>,
    data: Cursor,
}

impl View for SeekableWrapper {
    type V = ResourceView;

    closed spec fn view(&self) -> ResourceView {
        ResourceView { media_type: opt_string(self.media_type), data: self.data@ }
    }
}

/// What a resource with this media type is in memory, once its bytes were read or could not be.
pub open spec fn in_memory(
    media_type: Option<Seq<char>>,
    content: Result<Seq<u8>, std::io::Error>,
) -> Result<ResourceView, ErrorView> {
    match content {
        Ok(bytes) => Ok(ResourceView { media_type, data: CursorView::at_start(bytes) }),
        Err(error) => Err(ErrorView::Io(error)),
    }
}

/// `wrapped` is what `resource` may be in memory.
pub open spec fn wrap_outcome<R: Resource>(
    resource: R,
    wrapped: Result<ResourceView, ErrorView>,
) -> bool {
    exists|content: Result<Seq<u8>, std::io::Error>|
        #[trigger] resource.may_yield(content) && wrapped == in_memory(resource.reports(), content)
}

impl SeekableWrapper {
    /// Reads all of `resource` into memory.
    pub fn new<R: Resource>(resource: R) -> (wrapped: Result<SeekableWrapper, Error>)
        ensures
            wrap_outcome(resource, outcome(wrapped)),
    {
        let media_type = match resource.media_type() {
            Some(text) => Some(text.to_owned()),
            None => None,
        };
        match resource.into_bytes() {
            Ok(bytes) => Ok(SeekableWrapper { media_type, data: Cursor::new(bytes) }),
            Err(error) => Err(Error::Io(error)),
        }
    }
}

impl Read for SeekableWrapper {
    open spec fn may_read(
        &self,
        before: Seq<u8>,
        count: Result<usize, std::io::Error>,
        after: Seq<u8>,
        left: Self,
    ) -> bool {
        &&& was_read(self@.data, before, count, after, left@.data)
        &&& left@.media_type == self@.media_type
    }

    open spec fn may_read_to_end(
        &self,
        content: Result<Seq<u8>, std::io::Error>,
        left: Self,
    ) -> bool {
        &&& was_read_to_end(self@.data, content, left@.data)
        &&& left@.media_type == self@.media_type
    }

    fn read(&mut self, buf: &mut [u8]) -> (count: Result<usize, std::io::Error>) {
        self.data.read(buf)
    }

    fn read_to_end(&mut self) -> (content: Result<Vec<u8>, std::io::Error>) {
        self.data.read_to_end()
    }
}

impl Seek for SeekableWrapper {
    open spec fn may_seek(
        &self,
        to: SeekFrom,
        position: Result<u64, SeekError>,
        left: Self,
    ) -> bool {
        &&& sought(self@.data, to, position, left@.data)
        &&& left@.media_type == self@.media_type
    }

    fn seek(&mut self, to: SeekFrom) -> (position: Result<u64, SeekError>) {
        self.data.seek(to)
    }
}

impl Resource for SeekableWrapper {
    open spec fn reports(&self) -> Option<Seq<char>> {
        self@.media_type
    }

    open spec fn may_yield(&self, content: Result<Seq<u8>, std::io::Error>) -> bool {
        content == Ok::<_, std::io::Error>(self@.data.bytes)
    }

    fn media_type(&self) -> (media_type: Option<&str>) {
        as_deref(&self.media_type)
    }

    fn into_bytes(self) -> (content: Result<Vec<u8>, std::io::Error>) {
        let content: Result<Vec<u8>, std::io::Error> = Ok(self.data.into_inner());
        assert(self.may_yield(Ok(self@.data.bytes)));
        content
    }
}

} // verus!
