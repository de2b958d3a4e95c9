//! URLs and file paths: how one leads to the other, and how a reference is resolved against the URL
//! of the document it stands in.
use crate::error::{outcome, Error, ErrorView, UriError};
use crate::path::{path_components, DOT, SEPARATOR};
use vstd::prelude::*;
use vstd::utf8::*;

verus! {

/// `url::Url`, which only the `url` crate can look into.
#[verifier::external_type_specification]
#[verifier::external_body]
pub struct ExUrl(::url::Url);

/// An absolute URL, with the parts that importing a resource goes by.
#[derive(Debug)]
pub struct Uri {
    inner: ::url::Url,
    text: String,
    scheme: String,
    path: String,
}

/// The plain value of a [`Uri`].
pub struct UriView {
    /// The URL as it is written.
    pub text: Seq<char>,
    /// What stands before the first colon.
    pub scheme: Seq<char>,
    /// The path, percent-encoded, without query and fragment.
    pub path: Seq<char>,
}

impl View for Uri {
    type V = UriView;

    closed spec fn view(&self) -> UriView {
        UriView { text: self.text@, scheme: self.scheme@, path: self.path@ }
    }
}

/// What the `url` crate parses `input` to.
pub uninterp spec fn parsed_uri(input: Seq<char>) -> Result<UriView, UriError>;

/// What the `url` crate makes of the reference `input` next to the URL written `base`.
pub uninterp spec fn joined_uri(base: Seq<char>, input: Seq<char>) -> Result<UriView, UriError>;

/// The plain value of a parsed URL.
pub open spec fn uri_outcome(result: Result<Uri, UriError>) -> Result<UriView, UriError> {
    match result {
        Ok(url) => Ok(url@),
        Err(error) => Err(error),
    }
}

/// `url::Url::parse`: the URL that `input` stands for by itself, or why it stands for none.
/// What comes back is a function of `input`, named [`parsed_uri`].
#[verifier::external_body]
fn parse_uri(input: &str) -> (parsed: Result<Uri, UriError>)
    ensures
        uri_outcome(parsed) == parsed_uri(input@),
{
    match ::url::Url::parse(input) {
        Ok(url) => Ok(Uri {
            text: url.as_str().to_owned(),
            scheme: url.scheme().to_owned(),
            path: url.path().to_owned(),
            inner: url,
        }),
        Err(::url::ParseError::RelativeUrlWithoutBase) => Err(UriError::RelativeUrlWithoutBase),
        Err(error) => Err(UriError::Invalid(error)),
    }
}

/// `url::Url::join`: the URL that `input` stands for next to `base`, or why it stands for none.
/// What comes back is a function of the text of `base` and of `input`, named [`joined_uri`].
#[verifier::external_body]
fn join_uri(base: &Uri, input: &str) -> (joined: Result<Uri, UriError>)
    ensures
        uri_outcome(joined) == joined_uri(base@.text, input@),
{
    match base.inner.join(input) {
        Ok(url) => Ok(Uri {
            text: url.as_str().to_owned(),
            scheme: url.scheme().to_owned(),
            path: url.path().to_owned(),
            inner: url,
        }),
        Err(::url::ParseError::RelativeUrlWithoutBase) => Err(UriError::RelativeUrlWithoutBase),
        Err(error) => Err(UriError::Invalid(error)),
    }
}

/// `std::path::PathBuf`, which only the standard library can look into.
#[verifier::external_type_specification]
#[verifier::external_body]
pub struct ExPathBuf(std::path::PathBuf);

/// The path of a file or a directory.
#[derive(Debug)]
pub struct FilePath {
    inner: std::path::PathBuf,
    bytes: Vec<u8>,
}

impl View for FilePath {
    type V = Seq<u8>;

    /// The bytes that the platform encodes the path in.
    closed spec fn view(&self) -> Seq<u8> {
        self.bytes@
    }
}

/// `std::path::PathBuf::from`: the path that is written `text`, whose encoding is the UTF-8 of
/// `text`.
#[verifier::external_body]
fn path_from_text(text: &str) -> (path: FilePath)
    ensures
        path@ == encode_utf8(text@),
{
    let inner = std::path::PathBuf::from(text);
    FilePath { bytes: inner.as_os_str().as_encoded_bytes().to_vec(), inner }
}

/// `std::path::PathBuf::as_os_str`: `path` next to its encoding. Which bytes that is made of is not
/// said: nothing is known of a `PathBuf` that it could be said of.
#[verifier::external_body]
fn path_from_buf(path: std::path::PathBuf) -> (file: FilePath)
    ensures
        file.buf() == path,
{
    FilePath { bytes: path.as_os_str().as_encoded_bytes().to_vec(), inner: path }
}

impl FilePath {
    /// The path as the standard library has it.
    pub closed spec fn buf(&self) -> std::path::PathBuf {
        self.inner
    }

    /// A path of the standard library.
    pub fn new(path: std::path::PathBuf) -> (file: FilePath)
        ensures
            file.buf() == path,
    {
        path_from_buf(path)
    }

    /// The path that is written `text`.
    pub fn from_text(text: &str) -> (path: FilePath)
        ensures
            path@ == encode_utf8(text@),
    {
        path_from_text(text)
    }

    /// The bytes that the platform encodes the path in.
    pub fn as_bytes(&self) -> (bytes: &[u8])
        ensures
            bytes@ == self@,
    {
        self.bytes.as_slice()
    }
}

/// `path` is what the URL written `uri` gives as a file path: the bytes of the path, or `None`
/// where it gives none. Platforms differ in what a path is, so there may be several.
pub uninterp spec fn file_path_outcome(uri: Seq<char>, path: Option<Seq<u8>>) -> bool;

/// `uri` is what the path of a file gives as a URL. Platforms differ in what a path is.
pub uninterp spec fn file_uri_outcome(path: Seq<u8>, uri: Option<UriView>) -> bool;

/// `uri` is what the path of a directory gives as a URL. Platforms differ in what a path is.
pub uninterp spec fn directory_uri_outcome(path: Seq<u8>, uri: Option<UriView>) -> bool;

/// `name` is what the path with these bytes ends in, where that names a file. Platforms differ in
/// how a path falls into components.
pub uninterp spec fn file_name_outcome(path: Seq<u8>, name: Option<Seq<u8>>) -> bool;

/// `absolute` is whether `path` is absolute. Platforms differ in that.
pub uninterp spec fn absolute_outcome(path: Seq<u8>, absolute: bool) -> bool;

/// `joined` is what `path` is in the directory `base`. Platforms differ in that.
pub uninterp spec fn joined_path_outcome(base: Seq<u8>, path: Seq<u8>, joined: Seq<u8>) -> bool;

/// A path in which every component is written out once: it starts at the root, no separator follows
/// another or ends it, no component is `.`, and it does not end like a drive, in `:` or `|`.
pub open spec fn plain_path(path: Seq<u8>) -> bool {
    &&& path.len() > 1
    &&& path[0] == SEPARATOR
    &&& path.last() != SEPARATOR && path.last() != 0x3a && path.last() != 0x7c
    &&& forall|i: int|
        0 <= i < path.len() - 1 && #[trigger] path[i] == SEPARATOR ==> {
            &&& path[i + 1] != SEPARATOR
            &&& path[i + 1] == DOT ==> i + 2 < path.len() && path[i + 2] != SEPARATOR
        }
}

/// The two paths start at the root and have the same components.
pub open spec fn same_path(path: Seq<u8>, other: Seq<u8>) -> bool {
    &&& path.len() > 0 && path[0] == SEPARATOR
    &&& other.len() > 0 && other[0] == SEPARATOR
    &&& path_components(path) == path_components(other)
}

/// The URL written `uri` is that of a file on this machine: it names no host.
pub open spec fn names_no_host(uri: Seq<char>) -> bool {
    uri.len() >= 8 && uri.take(8) == "file:///"@
}

/// The URL written `uri` turns back into `path`, which it was made of, if that is text and starts at
/// the root: into a path with the same components, and into the very same bytes if it is plain.
pub open spec fn turns_back(path: Seq<u8>, uri: Seq<char>) -> bool {
    valid_utf8(path) ==> {
        &&& plain_path(path) ==> file_path_outcome(uri, Some(path))
        &&& path.len() > 0 && path[0] == SEPARATOR && names_no_host(uri) ==> exists|back: Seq<u8>|
            #[trigger] file_path_outcome(uri, Some(back)) && same_path(back, path)
    }
}

/// The plain value of optional bytes.
pub open spec fn opt_bytes(bytes: Option<Vec<u8>>) -> Option<Seq<u8>> {
    match bytes {
        Some(bytes) => Some(bytes@),
        None => None,
    }
}

/// The plain value of an optional URL.
pub open spec fn opt_uri(uri: Option<Uri>) -> Option<UriView> {
    match uri {
        Some(uri) => Some(uri@),
        None => None,
    }
}

/// The plain value of an optional path.
pub open spec fn opt_path(path: Option<FilePath>) -> Option<Seq<u8>> {
    match path {
        Some(path) => Some(path@),
        None => None,
    }
}

/// `std::path::Path::file_name`: the last component of `path`, or `None` where that names nothing,
/// as `..` and a root do. What comes back depends on `path` and on the platform, related by
/// [`file_name_outcome`].
#[verifier::external_body]
pub(crate) fn file_name(path: &FilePath) -> (name: Option<Vec<u8>>)
    ensures
        file_name_outcome(path@, opt_bytes(name)),
{
    match path.inner.file_name() {
        Some(name) => Some(name.as_encoded_bytes().to_vec()),
        None => None,
    }
}

/// `std::path::Path::is_absolute`: whether `path` means the same in every directory. The answer
/// depends on `path` and on the platform, related by [`absolute_outcome`].
#[verifier::external_body]
pub(crate) fn is_absolute(path: &FilePath) -> (absolute: bool)
    ensures
        absolute_outcome(path@, absolute),
{
    path.inner.is_absolute()
}

/// `std::path::Path::join`: `path` as it is reached from `base`. What comes back depends on both
/// and on the platform, related by [`joined_path_outcome`].
#[verifier::external_body]
pub(crate) fn join_path(base: &FilePath, path: &FilePath) -> (joined: FilePath)
    ensures
        joined_path_outcome(base@, path@, joined@),
{
    let inner = base.inner.join(&path.inner);
    FilePath { bytes: inner.as_os_str().as_encoded_bytes().to_vec(), inner }
}

/// `url::Url::to_file_path`: the path that a `file` URL stands for, or `None` where it stands for
/// none. What comes back depends on the text of `uri` and on the platform, related by
/// [`file_path_outcome`].
#[verifier::external_body]
pub(crate) fn file_path(uri: &Uri) -> (path: Option<FilePath>)
    ensures
        file_path_outcome(uri@.text, opt_path(path)),
{
    match uri.inner.to_file_path() {
        Ok(path) => Some(FilePath {
            bytes: path.as_os_str().as_encoded_bytes().to_vec(),
            inner: path,
        }),
        Err(()) => None,
    }
}

/// `url::Url::from_file_path`: the `file` URL of the file at the absolute path `path`, or `None`
/// where the path is not absolute or has no URL. What comes back depends on `path` and on the
/// platform, related by [`file_uri_outcome`]; a URL that comes back has the scheme `file`, and
/// turns back into the path as [`turns_back`] says.
#[verifier::external_body]
pub(crate) fn uri_from_file_path(path: &FilePath) -> (uri: Option<Uri>)
    ensures
        file_uri_outcome(path@, opt_uri(uri)),
        uri matches Some(uri) ==> uri@.scheme == "file"@,
        uri matches Some(uri) ==> turns_back(path@, uri@.text),
{
    match ::url::Url::from_file_path(&path.inner) {
        Ok(url) => Some(Uri {
            text: url.as_str().to_owned(),
            scheme: url.scheme().to_owned(),
            path: url.path().to_owned(),
            inner: url,
        }),
        Err(()) => None,
    }
}

/// `url::Url::from_directory_path`: as [`uri_from_file_path`], for a directory. What comes back is
/// related to `path` by [`directory_uri_outcome`]; a URL that comes back has the scheme `file` and
/// ends in a slash, so that a reference joined to it is looked for in the directory.
#[verifier::external_body]
pub(crate) fn uri_from_directory_path(path: &FilePath) -> (uri: Option<Uri>)
    ensures
        directory_uri_outcome(path@, opt_uri(uri)),
        uri matches Some(uri) ==> uri@.scheme == "file"@ && uri@.text.len() > 0
            && uri@.text.last() == '/',
{
    match ::url::Url::from_directory_path(&path.inner) {
        Ok(url) => Some(Uri {
            text: url.as_str().to_owned(),
            scheme: url.scheme().to_owned(),
            path: url.path().to_owned(),
            inner: url,
        }),
        Err(()) => None,
    }
}

/// What a relative reference means once it is joined to its base.
pub open spec fn joined_from(joined: Result<UriView, UriError>) -> Result<UriView, ErrorView> {
    match joined {
        Ok(uri) => Ok(uri),
        Err(error) => Err(ErrorView::Uri(error)),
    }
}

/// What a reference means once it is known how it parses: an absolute URL means itself, and one
/// without a scheme is joined to `base`.
pub open spec fn resolved_from(
    parsed: Result<UriView, UriError>,
    uri: Seq<char>,
    base: Option<UriView>,
) -> Result<UriView, ErrorView> {
    match (parsed, base) {
        (Ok(absolute), _) => Ok(absolute),
        (Err(UriError::RelativeUrlWithoutBase), None) => {
            Err(ErrorView::ExternalReferenceInSliceImport)
        },
        (Err(UriError::RelativeUrlWithoutBase), Some(base)) => {
            joined_from(joined_uri(base.text, uri))
        },
        (Err(error), _) => Err(ErrorView::Uri(error)),
    }
}

/// The string has no scheme, so it means something only next to a base URL.
pub open spec fn is_relative(uri: Seq<char>) -> bool {
    parsed_uri(uri) == Err::<UriView, _>(UriError::RelativeUrlWithoutBase)
}

/// What the reference `uri` means in a document at `base`.
pub open spec fn resolved(uri: Seq<char>, base: Option<UriView>) -> Result<UriView, ErrorView> {
    resolved_from(parsed_uri(uri), uri, base)
}

/// The plain value of an optional URL.
pub open spec fn base_view(base: Option<&Uri>) -> Option<UriView> {
    match base {
        Some(url) => Some(url@),
        None => None,
    }
}

/// Resolves a relative reference, given what it was joined to its base to.
pub fn resolve_joined(joined: Result<Uri, UriError>) -> (url: Result<Uri, Error>)
    ensures
        outcome(url) == joined_from(uri_outcome(joined)),
{
    match joined {
        Ok(uri) => Ok(uri),
        Err(error) => Err(Error::Uri(error)),
    }
}

/// Resolves the reference `uri`, given what it parsed to.
pub fn resolve_parsed(parsed: Result<Uri, UriError>, uri: &str, base: Option<&Uri>) -> (url: Result<
    Uri,
    Error,
>)
    ensures
        outcome(url) == resolved_from(uri_outcome(parsed), uri@, base_view(base)),
{
    match parsed {
        Ok(absolute) => Ok(absolute),
        Err(UriError::RelativeUrlWithoutBase) => {
            match base {
                None => Err(Error::ExternalReferenceInSliceImport),
                Some(base) => resolve_joined(join_uri(base, uri)),
            }
        },
        Err(error) => Err(Error::Uri(error)),
    }
}

/// Resolves the reference `uri` in a document at `base`.
pub fn resolve(uri: &str, base: Option<&Uri>) -> (url: Result<Uri, Error>)
    ensures
        outcome(url) == resolved(uri@, base_view(base)),
{
    resolve_parsed(parse_uri(uri), uri, base)
}

impl Uri {
    /// Parses an absolute URL.
    pub fn parse(input: &str) -> (url: Result<Uri, UriError>)
        ensures
            uri_outcome(url) == parsed_uri(input@),
    {
        parse_uri(input)
    }

    /// The URL as it is written.
    pub fn as_str(&self) -> (text: &str)
        ensures
            text@ == self@.text,
    {
        self.text.as_str()
    }

    /// The scheme, without the colon.
    pub fn scheme(&self) -> (scheme: &str)
        ensures
            scheme@ == self@.scheme,
    {
        self.scheme.as_str()
    }

    /// The percent-encoded path.
    pub fn path(&self) -> (path: &str)
        ensures
            path@ == self@.path,
    {
        self.path.as_str()
    }
}

} // verus!
