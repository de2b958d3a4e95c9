//! File paths: what a path's URL is, and what extension a file has.
use crate::error::{Error, ErrorView};
use crate::uri::{
    absolute_outcome, directory_uri_outcome, file_uri_outcome, is_absolute, join_path,
    joined_path_outcome, opt_uri, turns_back, uri_from_directory_path, uri_from_file_path,
    FilePath, Uri, UriView,
};
use vstd::prelude::*;
use vstd::slice::*;

verus! {

/// What separates the components of a path on most platforms, and in a URL.
pub const SEPARATOR: u8 = 0x2f;

/// What separates a file name from its extension.
pub const DOT: u8 = 0x2e;

/// What stands after the last `mark` in `bytes`: all of them where it does not occur.
pub open spec fn after_last(bytes: Seq<u8>, mark: u8) -> Seq<u8>
    decreases bytes.len(),
{
    if bytes.len() == 0 || bytes.last() == mark {
        Seq::empty()
    } else {
        after_last(bytes.drop_last(), mark).push(bytes.last())
    }
}

/// What stands between the separators of `path`. Nothing does between two that follow one another,
/// and `.` does not count.
pub open spec fn path_components(path: Seq<u8>) -> Seq<Seq<u8>>
    decreases path.len(),
{
    let last = after_last(path, SEPARATOR);
    let start = path.len() - last.len();
    let parents = if 0 < start <= path.len() {
        path_components(path.take(start - 1))
    } else {
        Seq::empty()
    };
    if last.len() == 0 || last == seq![DOT] {
        parents
    } else {
        parents.push(last)
    }
}

/// What stands after the last dot of `name`, unless there is none but a leading one.
pub open spec fn name_extension(name: Seq<u8>) -> Option<Seq<u8>> {
    let extension = after_last(name, DOT);
    if extension.len() + 1 < name.len() {
        Some(extension)
    } else {
        None
    }
}

proof fn lemma_after_last(bytes: Seq<u8>, mark: u8)
    ensures
        after_last(bytes, mark).len() <= bytes.len(),
        after_last(bytes, mark) == bytes.skip(bytes.len() - after_last(bytes, mark).len()),
    decreases bytes.len(),
{
    if bytes.len() == 0 || bytes.last() == mark {
        assert(after_last(bytes, mark) =~= bytes.skip(bytes.len() as int));
    } else {
        lemma_after_last(bytes.drop_last(), mark);
        let shorter = after_last(bytes.drop_last(), mark);
        assert(shorter.push(bytes.last()) =~= bytes.skip(bytes.len() - shorter.len() - 1));
    }
}

/// The part of `bytes` before `end` that follows the last `mark` there starts here.
fn start_after_last(bytes: &[u8], end: usize, mark: u8) -> (start: usize)
    requires
        end <= bytes.len(),
    ensures
        start <= end,
        bytes@.subrange(start as int, end as int) == after_last(bytes@.take(end as int), mark),
{
    let mut start: usize = end;
    proof {
        assert(bytes@.subrange(end as int, end as int) =~= Seq::<u8>::empty());
        assert(Seq::<u8>::empty() + bytes@.subrange(end as int, end as int) =~= Seq::<u8>::empty());
        lemma_after_last(bytes@.take(end as int), mark);
        assert(after_last(bytes@.take(end as int), mark) =~= after_last(
            bytes@.take(end as int),
            mark,
        ) + bytes@.subrange(end as int, end as int));
    }
    while start > 0 && bytes[start - 1] != mark
        invariant
            start <= end <= bytes.len(),
            after_last(bytes@.take(end as int), mark) == after_last(
                bytes@.take(start as int),
                mark,
            ) + bytes@.subrange(start as int, end as int),
        decreases start,
    {
        proof {
            let now = bytes@.take(start as int);
            assert(now.drop_last() =~= bytes@.take(start - 1));
            assert(after_last(now, mark) + bytes@.subrange(start as int, end as int)
                =~= after_last(now.drop_last(), mark) + bytes@.subrange(start - 1, end as int));
        }
        start -= 1;
    }
    proof {
        assert(after_last(bytes@.take(start as int), mark) =~= Seq::<u8>::empty());
        assert(Seq::<u8>::empty() + bytes@.subrange(start as int, end as int) =~= bytes@.subrange(
            start as int,
            end as int,
        ));
    }
    start
}

/// The extension of a file with this name, if it has one.
pub fn extension(name: &[u8]) -> (found: Option<&[u8]>)
    ensures
        match found {
            Some(extension) => name_extension(name@) == Some(extension@),
            None => name_extension(name@) is None,
        },
{
    let dot: usize = start_after_last(name, name.len(), DOT);
    assert(name@.take(name@.len() as int) =~= name@);
    if dot > 1 {
        Some(slice_subrange(name, dot, name.len()))
    } else {
        None
    }
}

/// The plain value of the current directory, or of the failure to find it.
pub open spec fn dir_view(current_dir: Result<FilePath, std::io::Error>) -> Result<
    Seq<u8>,
    std::io::Error,
> {
    match current_dir {
        Ok(dir) => Ok(dir@),
        Err(error) => Err(error),
    }
}

/// `full` is `path` made absolute: an absolute path is kept, and another is joined to the current
/// directory, where that is known.
pub open spec fn absolute_path_outcome(
    path: Seq<u8>,
    current_dir: Result<Seq<u8>, std::io::Error>,
    full: Result<Seq<u8>, ErrorView>,
) -> bool {
    ||| absolute_outcome(path, true) && full == Ok::<_, ErrorView>(path)
    ||| absolute_outcome(path, false) && match current_dir {
        Ok(dir) => full matches Ok(joined) && joined_path_outcome(dir, path, joined),
        Err(error) => full == Err::<Seq<u8>, _>(ErrorView::Io(error)),
    }
}

/// `uri` is the URL of an absolute path, of a directory where `directory` says so.
pub open spec fn located_outcome(
    path: Seq<u8>,
    directory: bool,
    uri: Result<UriView, ErrorView>,
) -> bool {
    let found = match uri {
        Ok(uri) => Some(uri),
        Err(_) => None,
    };
    &&& if directory {
        directory_uri_outcome(path, found)
    } else {
        file_uri_outcome(path, found)
    }
    &&& uri matches Err(error) ==> error == ErrorView::UnsupportedScheme
    &&& uri matches Ok(uri) ==> uri.scheme == "file"@
    &&& !directory ==> (uri matches Ok(uri) ==> turns_back(path, uri.text))
    &&& directory ==> (uri matches Ok(uri) ==> uri.text.len() > 0 && uri.text.last() == '/')
}

/// `uri` is what comes of a path that was made absolute, or could not be.
pub open spec fn absolute_uri_outcome(
    full: Result<Seq<u8>, ErrorView>,
    directory: bool,
    uri: Result<Option<UriView>, ErrorView>,
) -> bool {
    match (full, uri) {
        (Err(unknown), Err(error)) => error == unknown,
        (Err(_), Ok(_)) => false,
        (Ok(path), Ok(Some(found))) => located_outcome(path, directory, Ok(found)),
        (Ok(path), Ok(None)) => false,
        (Ok(path), Err(error)) => located_outcome(path, directory, Err(error)),
    }
}

/// `uri` is the URL of an optional path, of a directory where `directory` says so.
pub open spec fn path_uri_outcome(
    path: Option<Seq<u8>>,
    directory: bool,
    current_dir: Result<Seq<u8>, std::io::Error>,
    uri: Result<Option<UriView>, ErrorView>,
) -> bool {
    if path is None {
        uri == Ok::<Option<UriView>, ErrorView>(None)
    } else {
        exists|full: Result<Seq<u8>, ErrorView>|
            #[trigger] absolute_path_outcome(path->0, current_dir, full) && absolute_uri_outcome(
                full,
                directory,
                uri,
            )
    }
}

/// The plain value of an optional URL that could not always be had.
pub open spec fn opt_uri_outcome(uri: Result<Option<Uri>, Error>) -> Result<
    Option<UriView>,
    ErrorView,
> {
    match uri {
        Ok(uri) => Ok(opt_uri(uri)),
        Err(error) => Err(error@),
    }
}

/// The plain value of an optional path.
pub open spec fn path_view(path: Option<&FilePath>) -> Option<Seq<u8>> {
    match path {
        Some(path) => Some(path@),
        None => None,
    }
}

/// The plain value of a path that was joined to the current directory if it had to be.
pub open spec fn full_view(path: Seq<u8>, joined: Result<Option<FilePath>, Error>) -> Result<
    Seq<u8>,
    ErrorView,
> {
    match joined {
        Ok(Some(full)) => Ok(full@),
        Ok(None) => Ok(path),
        Err(error) => Err(error@),
    }
}

/// `path` joined to the current directory, or `None` where it is absolute as it is.
pub fn make_absolute(path: &FilePath, current_dir: Result<FilePath, std::io::Error>) -> (joined:
    Result<Option<FilePath>, Error>)
    ensures
        absolute_path_outcome(path@, dir_view(current_dir), full_view(path@, joined)),
        joined matches Ok(None) ==> absolute_outcome(path@, true),
        joined matches Ok(Some(_)) ==> absolute_outcome(path@, false),
{
    if is_absolute(path) {
        return Ok(None);
    }
    match current_dir {
        Ok(dir) => Ok(Some(join_path(&dir, path))),
        Err(error) => Err(Error::Io(error)),
    }
}

/// The URL of a path, of a directory where `directory` says so.
fn locate(
    path: Option<&FilePath>,
    directory: bool,
    current_dir: Result<FilePath, std::io::Error>,
) -> (uri: Result<Option<Uri>, Error>)
    ensures
        path_uri_outcome(
            path_view(path),
            directory,
            dir_view(current_dir),
            opt_uri_outcome(uri),
        ),
{
    let ghost given = path_view(path);
    let path = match path {
        None => return Ok(None),
        Some(path) => path,
    };
    let ghost dir = dir_view(current_dir);
    let joined = make_absolute(path, current_dir);
    let ghost made = full_view(path@, joined);
    assert(absolute_path_outcome(given->0, dir, made));
    match joined {
        Err(error) => Err(error),
        Ok(joined) => {
            let full = match &joined {
                Some(full) => full,
                None => path,
            };
            let found = if directory {
                uri_from_directory_path(full)
            } else {
                uri_from_file_path(full)
            };
            match found {
                Some(uri) => Ok(Some(uri)),
                None => Err(Error::UnsupportedScheme),
            }
        },
    }
}

/// The URL of the file at `path`, which is taken from `current_dir` on unless it is absolute.
/// References joined to it are looked for beside the file.
pub fn path_to_uri(path: Option<&FilePath>, current_dir: Result<FilePath, std::io::Error>) -> (uri: Result<
    Option<Uri>,
    Error,
>)
    ensures
        path_uri_outcome(
            path_view(path),
            false,
            dir_view(current_dir),
            opt_uri_outcome(uri),
        ),
{
    locate(path, false, current_dir)
}

/// The URL of the directory at `path`, which is taken from `current_dir` on unless it is
/// absolute. References joined to it are looked for in the directory.
pub fn directory_to_uri(path: Option<&FilePath>, current_dir: Result<FilePath, std::io::Error>) -> (uri:
    Result<Option<Uri>, Error>)
    ensures
        path_uri_outcome(
            path_view(path),
            true,
            dir_view(current_dir),
            opt_uri_outcome(uri),
        ),
{
    locate(path, true, current_dir)
}

/// `base` is what the references of a document that came from nowhere are relative to: the current
/// directory, where that is known and has a URL.
pub open spec fn slice_base_outcome(
    current_dir: Result<Seq<u8>, std::io::Error>,
    base: Option<UriView>,
) -> bool {
    match current_dir {
        Ok(dir) => {
            &&& directory_uri_outcome(dir, base)
            &&& base matches Some(uri) ==> uri.scheme == "file"@ && uri.text.len() > 0
                && uri.text.last() == '/'
        },
        Err(_) => base is None,
    }
}

/// The URL of the current directory, where that is known and has one.
pub fn current_dir_to_uri(current_dir: Result<FilePath, std::io::Error>) -> (base: Option<Uri>)
    ensures
        slice_base_outcome(dir_view(current_dir), opt_uri(base)),
{
    match current_dir {
        Ok(dir) => uri_from_directory_path(&dir),
        Err(_) => None,
    }
}

} // verus!
