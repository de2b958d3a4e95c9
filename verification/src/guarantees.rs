//! What each step of importing owes its caller, said of what goes in and what comes out.
use crate::cursor::{sought, was_read, was_read_to_end, Cursor, CursorView, SeekFrom};
use crate::error::{opt_chars, outcome, Base64Error, Error, ErrorView, UriError};
use crate::features::Features;
use crate::importer::{load_outcome, read_outcome, DefaultImporter, Importer, Loaded};
use crate::path::{name_extension, DOT};
use crate::resource::{
    data_parts, data_resource, decoded_base64, decoded_resource, decoded_view,
    file_outcome, file_resource, in_memory, name_media_type, opt_slice, opt_string, wrap_outcome,
    DataResource, DefaultResource, FileResource, FileView, Resource, ResourceView, SeekableWrapper,
};
use crate::stream::{content_view, Read, Seek, SeekError};
use crate::text::split_at_first;
use crate::uri::{
    base_view, file_name_outcome, file_path_outcome, joined_from, joined_uri, opt_bytes, opt_path,
    opt_uri, parsed_uri, resolved, resolved_from, uri_outcome, FilePath, Uri, UriView,
};
use vstd::prelude::*;
use vstd::utf8::*;

verus! {

/// A result is seen as it is: its value by its own view, its error by the error's.
pub proof fn law_results_are_seen<T: View>(result: Result<T, Error>)
    ensures
        result matches Ok(value) ==> outcome(result) == Ok::<T::V, ErrorView>(value@),
        result matches Err(error) ==> outcome(result) == Err::<T::V, ErrorView>(error@),
{
}

/// Every kind of error is seen as that kind, with what it holds.
pub proof fn law_errors_are_seen(error: Error)
    ensures
        match error {
            Error::Base64(cause) => error@ == ErrorView::Base64(cause),
            Error::BufferLength { buffer, expected, actual } => error@ == (
            ErrorView::BufferLength { buffer, expected, actual }),
            Error::Document(message) => error@ == ErrorView::Document(message@),
            Error::ExternalReferenceInSliceImport => error@
                == ErrorView::ExternalReferenceInSliceImport,
            Error::Image(cause) => error@ == ErrorView::Image(cause),
            Error::Io(cause) => error@ == ErrorView::Io(cause),
            Error::MissingBlob => error@ == ErrorView::MissingBlob,
            Error::UnsupportedImageEncoding => error@ == ErrorView::UnsupportedImageEncoding,
            Error::UnsupportedImageFormat => error@ == ErrorView::UnsupportedImageFormat,
            Error::UnsupportedScheme => error@ == ErrorView::UnsupportedScheme,
            Error::Uri(cause) => error@ == ErrorView::Uri(cause),
            Error::ViewOutOfBounds { image } => error@ == (ErrorView::ViewOutOfBounds { image }),
        },
{
}

/// What is optional is there or not as its plain value is.
pub proof fn law_optional_values_are_seen(
    text: Option<&str>,
    string: Option<String>,
    bytes: Option<Vec<u8>>,
    slice: Option<&[u8]>,
    uri: Option<Uri>,
    base: Option<&Uri>,
    path: Option<FilePath>,
    given: Option<&FilePath>,
)
    ensures
        opt_chars(text) is Some == text is Some && (text matches Some(t) ==> opt_chars(text)->0 == t@),
        opt_string(string) is Some == string is Some && (string matches Some(t) ==> opt_string(
            string,
        )->0 == t@),
        opt_bytes(bytes) is Some == bytes is Some && (bytes matches Some(b) ==> opt_bytes(bytes)->0
            == b@),
        opt_slice(slice) is Some == slice is Some && (slice matches Some(b) ==> opt_slice(slice)->0
            == b@),
        opt_uri(uri) is Some == uri is Some && (uri matches Some(u) ==> opt_uri(uri)->0 == u@),
        base_view(base) is Some == base is Some && (base matches Some(u) ==> base_view(base)->0
            == u@),
        opt_path(path) is Some == path is Some && (path matches Some(p) ==> opt_path(path)->0 == p@),
        crate::path::path_view(given) is Some == given is Some && (given matches Some(p)
            ==> crate::path::path_view(given)->0 == p@),
{
}

/// What may have failed is seen as the value it has, or as the very failure.
pub proof fn law_failures_are_seen(
    content: Result<Vec<u8>, std::io::Error>,
    dir: Result<FilePath, std::io::Error>,
    decoded: Result<Vec<u8>, Base64Error>,
    parsed: Result<Uri, UriError>,
    located: Result<Option<Uri>, Error>,
)
    ensures
        match content {
            Ok(bytes) => content_view(content) == Ok::<_, std::io::Error>(bytes@),
            Err(error) => content_view(content) == Err::<Seq<u8>, _>(error),
        },
        match dir {
            Ok(path) => crate::path::dir_view(dir) == Ok::<_, std::io::Error>(path@),
            Err(error) => crate::path::dir_view(dir) == Err::<Seq<u8>, _>(error),
        },
        match decoded {
            Ok(bytes) => decoded_view(decoded) == Ok::<_, Base64Error>(bytes@),
            Err(error) => decoded_view(decoded) == Err::<Seq<u8>, _>(error),
        },
        match parsed {
            Ok(uri) => uri_outcome(parsed) == Ok::<_, UriError>(uri@),
            Err(error) => uri_outcome(parsed) == Err::<UriView, _>(error),
        },
        match located {
            Ok(Some(uri)) => crate::path::opt_uri_outcome(located) == Ok::<_, ErrorView>(Some(uri@)),
            Ok(None) => crate::path::opt_uri_outcome(located) == Ok::<Option<UriView>, ErrorView>(
                None,
            ),
            Err(error) => crate::path::opt_uri_outcome(located) == Err::<Option<UriView>, _>(
                error@,
            ),
        },
{
}

/// Splitting takes a text apart at the first place where the pattern stands: put together again the
/// parts are the text, and the pattern stands nowhere before. A text that is not split does not hold
/// the pattern.
pub proof fn law_splitting(text: Seq<char>, pattern: Seq<char>)
    ensures
        match split_at_first(text, pattern) {
            Some((before, after)) => {
                &&& text == before + pattern + after
                &&& forall|left: Seq<char>, right: Seq<char>|
                    text == #[trigger] (left + pattern + right) ==> before.len() <= left.len()
            },
            None => forall|left: Seq<char>, right: Seq<char>|
                text != #[trigger] (left + pattern + right),
        },
{
    match split_at_first(text, pattern) {
        Some((before, after)) => {
            let at = choose|at: int| crate::text::first_occurrence(text, pattern, at);
            assert(crate::text::first_occurrence(text, pattern, at));
            assert(text =~= before + pattern + after);
            assert forall|left: Seq<char>, right: Seq<char>|
                text == #[trigger] (left + pattern + right) implies before.len() <= left.len() by {
                let i = left.len() as int;
                assert(text.subrange(i, i + pattern.len()) =~= pattern);
                assert(crate::text::occurs_at(text, pattern, i));
            }
        },
        None => {
            assert forall|left: Seq<char>, right: Seq<char>|
                text != #[trigger] (left + pattern + right) by {
                if text == left + pattern + right {
                    let at = left.len() as int;
                    assert(text.subrange(at, at + pattern.len()) =~= pattern);
                    assert(crate::text::occurs_at(text, pattern, at));
                    lemma_first_exists(text, pattern, at);
                }
            }
        },
    }
}

proof fn lemma_first_exists(text: Seq<char>, pattern: Seq<char>, at: int)
    requires
        crate::text::occurs_at(text, pattern, at),
    ensures
        exists|first: int| crate::text::first_occurrence(text, pattern, first),
    decreases at,
{
    if exists|i: int| 0 <= i < at && crate::text::occurs_at(text, pattern, i) {
        let i = choose|i: int| 0 <= i < at && crate::text::occurs_at(text, pattern, i);
        lemma_first_exists(text, pattern, i);
    } else {
        assert(crate::text::first_occurrence(text, pattern, at));
    }
}

/// A read always succeeds in memory. It gives the bytes from the position on, in their order, as
/// many as there are and as there is room for; the rest of the buffer stays, and the position moves
/// on by as many.
pub proof fn law_reading_in_memory(
    before: CursorView,
    bytes: Seq<u8>,
    count: Result<usize, std::io::Error>,
    filled: Seq<u8>,
    after: CursorView,
)
    requires
        was_read(before, bytes, count, filled, after),
    ensures
        count is Ok,
        ({
            let n = count->Ok_0 as int;
            &&& n <= bytes.len()
            &&& n == bytes.len() || n == before.bytes.len() - before.pos || (n == 0 && before.pos
                >= before.bytes.len())
            &&& n > 0 ==> before.pos + n <= before.bytes.len()
            &&& filled.len() == bytes.len()
            &&& forall|i: int| 0 <= i < n ==> filled[i] == #[trigger] before.bytes[before.pos + i]
            &&& forall|i: int| n <= i < bytes.len() ==> #[trigger] filled[i] == bytes[i]
            &&& after.bytes == before.bytes
            &&& after.pos == before.pos + n
        }),
{
}

/// Reading to the end always succeeds in memory, and gives every byte from the position on.
pub proof fn law_reading_to_the_end_in_memory(
    before: CursorView,
    content: Result<Seq<u8>, std::io::Error>,
    after: CursorView,
)
    requires
        was_read_to_end(before, content, after),
    ensures
        content is Ok,
        before.pos <= before.bytes.len() ==> before.bytes.take(before.pos as int) + content->Ok_0
            == before.bytes && after.pos == before.bytes.len(),
        before.pos > before.bytes.len() ==> content->Ok_0.len() == 0 && after.pos == before.pos,
        after.bytes == before.bytes,
{
    if before.pos <= before.bytes.len() {
        assert(before.bytes.take(before.pos as int) + content->Ok_0 =~= before.bytes);
    }
}

/// Moving in memory goes to the position asked for, if that is not before the start and fits in 64
/// bits, and else nothing moves. The bytes stay.
pub proof fn law_seeking_in_memory(
    before: CursorView,
    to: SeekFrom,
    position: Result<u64, SeekError>,
    after: CursorView,
)
    requires
        sought(before, to, position, after),
    ensures
        after.bytes == before.bytes,
        ({
            let target = match to {
                SeekFrom::Start(offset) => offset as int,
                SeekFrom::End(offset) => before.bytes.len() + offset,
                SeekFrom::Current(offset) => before.pos + offset,
            };
            if 0 <= target <= 0xffff_ffff_ffff_ffff {
                position is Ok && position->Ok_0 == target && after.pos == target
            } else {
                position matches Err(SeekError::OutOfRange) && after.pos == before.pos
            }
        }),
{
}

/// A cursor starts at the first of its bytes.
pub proof fn law_cursors_start(bytes: Seq<u8>)
    ensures
        CursorView::at_start(bytes).bytes == bytes,
        CursorView::at_start(bytes).pos == 0,
{
}

/// Resources in memory are read as their bytes are, and keep their media type.
pub proof fn law_memory_is_read(
    cursor: Cursor,
    cursor_left: Cursor,
    data: DataResource,
    data_left: DataResource,
    wrapper: SeekableWrapper,
    wrapper_left: SeekableWrapper,
    before: Seq<u8>,
    count: Result<usize, std::io::Error>,
    after: Seq<u8>,
)
    ensures
        cursor.may_read(before, count, after, cursor_left) ==> was_read(
            cursor@,
            before,
            count,
            after,
            cursor_left@,
        ),
        data.may_read(before, count, after, data_left) ==> was_read(
            data@.data,
            before,
            count,
            after,
            data_left@.data,
        ) && data_left@.media_type == data@.media_type,
        wrapper.may_read(before, count, after, wrapper_left) ==> was_read(
            wrapper@.data,
            before,
            count,
            after,
            wrapper_left@.data,
        ) && wrapper_left@.media_type == wrapper@.media_type,
{
}

/// Resources in memory are read to the end as their bytes are, and keep their media type.
pub proof fn law_memory_is_read_to_the_end(
    cursor: Cursor,
    cursor_left: Cursor,
    data: DataResource,
    data_left: DataResource,
    wrapper: SeekableWrapper,
    wrapper_left: SeekableWrapper,
    content: Result<Seq<u8>, std::io::Error>,
)
    ensures
        cursor.may_read_to_end(content, cursor_left) ==> was_read_to_end(
            cursor@,
            content,
            cursor_left@,
        ),
        data.may_read_to_end(content, data_left) ==> was_read_to_end(
            data@.data,
            content,
            data_left@.data,
        ) && data_left@.media_type == data@.media_type,
        wrapper.may_read_to_end(content, wrapper_left) ==> was_read_to_end(
            wrapper@.data,
            content,
            wrapper_left@.data,
        ) && wrapper_left@.media_type == wrapper@.media_type,
{
}

/// Resources in memory are sought as their bytes are, and keep their media type.
pub proof fn law_memory_is_sought(
    cursor: Cursor,
    cursor_left: Cursor,
    data: DataResource,
    data_left: DataResource,
    wrapper: SeekableWrapper,
    wrapper_left: SeekableWrapper,
    to: SeekFrom,
    position: Result<u64, SeekError>,
)
    ensures
        cursor.may_seek(to, position, cursor_left) ==> sought(
            cursor@,
            to,
            position,
            cursor_left@,
        ),
        data.may_seek(to, position, data_left) ==> sought(
            data@.data,
            to,
            position,
            data_left@.data,
        ) && data_left@.media_type == data@.media_type,
        wrapper.may_seek(to, position, wrapper_left) ==> sought(
            wrapper@.data,
            to,
            position,
            wrapper_left@.data,
        ) && wrapper_left@.media_type == wrapper@.media_type,
{
}

/// A resource in memory reports its media type and gives up all its bytes, read or not.
pub proof fn law_memory_is_given_up(
    data: DataResource,
    wrapper: SeekableWrapper,
    content: Result<Seq<u8>, std::io::Error>,
)
    ensures
        data.reports() == data@.media_type,
        wrapper.reports() == wrapper@.media_type,
        data.may_yield(content) ==> content == Ok::<_, std::io::Error>(data@.data.bytes),
        wrapper.may_yield(content) ==> content == Ok::<_, std::io::Error>(wrapper@.data.bytes),
{
}

/// A file is read, sought and given up as what it was opened as, and keeps its media type.
pub proof fn law_files_are_read<H: Read + Seek>(
    file: FileResource<H>,
    left: FileResource<H>,
    before: Seq<u8>,
    count: Result<usize, std::io::Error>,
    after: Seq<u8>,
    content: Result<Seq<u8>, std::io::Error>,
    to: SeekFrom,
    position: Result<u64, SeekError>,
)
    ensures
        file.reports() == file@.media_type,
        file.may_read(before, count, after, left) ==> file@.file.may_read(
            before,
            count,
            after,
            left@.file,
        ) && left@.media_type == file@.media_type,
        file.may_read_to_end(content, left) ==> file@.file.may_read_to_end(content, left@.file)
            && left@.media_type == file@.media_type,
        file.may_seek(to, position, left) ==> file@.file.may_seek(to, position, left@.file)
            && left@.media_type == file@.media_type,
        file.may_yield(content) ==> exists|rest: H| #[trigger]
            file@.file.may_read_to_end(content, rest),
{
}

/// What the default importer opened is read, sought and given up as the kind of resource that it is,
/// and stays of that kind.
pub proof fn law_default_resources_are_read<H: Read + Seek>(
    resource: DefaultResource<H>,
    left: DefaultResource<H>,
    before: Seq<u8>,
    count: Result<usize, std::io::Error>,
    after: Seq<u8>,
    content: Result<Seq<u8>, std::io::Error>,
    to: SeekFrom,
    position: Result<u64, SeekError>,
)
    ensures
        match resource {
            DefaultResource::Data(data) => {
                &&& resource.reports() == data.reports()
                &&& resource.may_yield(content) ==> data.may_yield(content)
                &&& resource.may_read(before, count, after, left) ==> left is Data && data.may_read(
                    before,
                    count,
                    after,
                    left->Data_0,
                )
                &&& resource.may_read_to_end(content, left) ==> left is Data && data.may_read_to_end(
                    content,
                    left->Data_0,
                )
                &&& resource.may_seek(to, position, left) ==> left is Data && data.may_seek(
                    to,
                    position,
                    left->Data_0,
                )
            },
            DefaultResource::File(file) => {
                &&& resource.reports() == file.reports()
                &&& resource.may_yield(content) ==> file.may_yield(content)
                &&& resource.may_read(before, count, after, left) ==> left is File && file.may_read(
                    before,
                    count,
                    after,
                    left->File_0,
                )
                &&& resource.may_read_to_end(content, left) ==> left is File && file.may_read_to_end(
                    content,
                    left->File_0,
                )
                &&& resource.may_seek(to, position, left) ==> left is File && file.may_seek(
                    to,
                    position,
                    left->File_0,
                )
            },
        },
{
}

/// Reading a resource into memory gives its media type and all of its bytes, from the first on, or
/// the failure to read them.
pub proof fn law_wrapping<R: Resource>(resource: R, wrapped: Result<ResourceView, ErrorView>)
    requires
        wrap_outcome(resource, wrapped),
    ensures
        match wrapped {
            Ok(view) => {
                &&& view.media_type == resource.reports()
                &&& view.data.pos == 0
                &&& resource.may_yield(Ok(view.data.bytes))
            },
            Err(error) => error is Io && resource.may_yield(Err(error->Io_0)),
        },
{
    let content = choose|content: Result<Seq<u8>, std::io::Error>|
        #[trigger] resource.may_yield(content) && wrapped == in_memory(resource.reports(), content);
    match content {
        Ok(bytes) => {
            assert(resource.may_yield(Ok(bytes)));
        },
        Err(error) => {
            assert(resource.may_yield(Err(error)));
        },
    }
}

/// The path of a `data` URL holds a media type before the first mark, and Base64 text from there to
/// the second mark or the end. Without a mark all of it is Base64 text.
pub proof fn law_parts_of_a_data_url(
    media_type: Seq<char>,
    encoded: Seq<char>,
    trailing: Seq<char>,
)
    requires
        forall|left: Seq<char>, right: Seq<char>|
            media_type != #[trigger] (left + ";base64,"@ + right),
        forall|left: Seq<char>, right: Seq<char>|
            encoded != #[trigger] (left + ";base64,"@ + right),
    ensures
        data_parts(encoded) == (None::<Seq<char>>, encoded),
        data_parts(media_type + ";base64,"@ + encoded) == (Some(media_type), encoded),
        data_parts(media_type + ";base64,"@ + (encoded + ";base64,"@ + trailing)) == (
            Some(media_type),
            encoded,
        ),
{
    let mark = ";base64,"@;
    lemma_not_in(media_type);
    lemma_not_in(encoded);
    lemma_split_marked(media_type, encoded);
    lemma_split_marked(media_type, encoded + mark + trailing);
    lemma_split_marked(encoded, trailing);
    law_splitting(encoded, mark);
}

proof fn lemma_not_in(text: Seq<char>)
    requires
        forall|left: Seq<char>, right: Seq<char>| text != #[trigger] (left + ";base64,"@ + right),
    ensures
        forall|i: int| !crate::text::occurs_at(text, ";base64,"@, i),
{
    let mark = ";base64,"@;
    assert forall|i: int| !crate::text::occurs_at(text, mark, i) by {
        if crate::text::occurs_at(text, mark, i) {
            let left = text.take(i);
            let right = text.skip(i + mark.len());
            assert(text =~= left + mark + right);
        }
    }
}

proof fn lemma_split_marked(before: Seq<char>, after: Seq<char>)
    requires
        forall|i: int| !crate::text::occurs_at(before, ";base64,"@, i),
    ensures
        split_at_first(before + ";base64,"@ + after, ";base64,"@) == Some((before, after)),
{
    let mark = ";base64,"@;
    let path = before + mark + after;
    let at = before.len() as int;
    reveal_strlit(";base64,");
    assert(path.subrange(at, at + mark.len()) =~= mark);
    assert forall|i: int| 0 <= i < at implies !crate::text::occurs_at(path, mark, i) by {
        if crate::text::occurs_at(path, mark, i) {
            if i + mark.len() <= at {
                assert(before.subrange(i, i + mark.len()) =~= path.subrange(i, i + mark.len()));
                assert(crate::text::occurs_at(before, mark, i));
            } else {
                // The mark's first character would have to be one of its others.
                assert(path[at] == path.subrange(i, i + mark.len())[at - i]);
                assert(path[at] == mark[0]);
                assert(mark[at - i] == mark[0]);
            }
        }
    }
    crate::text::lemma_split_at_first(path, mark, at);
    assert(path.take(at) =~= before);
    assert(path.skip(at + mark.len()) =~= after);
}

/// A `data` URL is opened as all the bytes that its Base64 text encodes, however many, with its media
/// type and from the first byte on. Text that encodes nothing gives the decoder's error.
pub proof fn law_data_urls_hold_every_byte(path: Seq<char>, bytes: Seq<u8>, error: Base64Error)
    ensures
        decoded_base64(data_parts(path).1) == Ok::<_, Base64Error>(bytes) ==> ({
            &&& data_resource(path) is Ok
            &&& data_resource(path)->Ok_0.media_type == data_parts(path).0
            &&& data_resource(path)->Ok_0.data.bytes == bytes
            &&& data_resource(path)->Ok_0.data.pos == 0
        }),
        decoded_base64(data_parts(path).1) == Err::<Seq<u8>, _>(error) ==> data_resource(path)
            == Err::<ResourceView, _>(ErrorView::Base64(error)),
{
}

/// Decoded bytes become a resource that holds all of them, with the media type that is given.
pub proof fn law_decoded_bytes_are_kept(
    media_type: Option<Seq<char>>,
    bytes: Seq<u8>,
    error: Base64Error,
)
    ensures
        decoded_resource(media_type, Ok(bytes)) is Ok,
        decoded_resource(media_type, Ok(bytes))->Ok_0.media_type == media_type,
        decoded_resource(media_type, Ok(bytes))->Ok_0.data.bytes == bytes,
        decoded_resource(media_type, Ok(bytes))->Ok_0.data.pos == 0,
        decoded_resource(media_type, Err(error)) == Err::<ResourceView, _>(
            ErrorView::Base64(error),
        ),
{
}

/// An extension is what follows the last dot of a name, if something stands before that dot.
pub proof fn law_extensions(name: Seq<u8>)
    ensures
        match name_extension(name) {
            Some(extension) => {
                &&& forall|i: int| 0 <= i < extension.len() ==> #[trigger] extension[i] != DOT
                &&& exists|stem: Seq<u8>|
                    stem.len() > 0 && name == #[trigger] stem.push(DOT) + extension
            },
            None => forall|i: int| 0 < i < name.len() ==> #[trigger] name[i] != DOT,
        },
{
    let found = crate::path::after_last(name, DOT);
    lemma_after_last_dot(name);
    if found.len() + 1 < name.len() {
        let stem = name.take(name.len() - found.len() - 1);
        assert(name =~= stem.push(DOT) + found);
    } else {
        assert forall|i: int| 0 < i < name.len() implies #[trigger] name[i] != DOT by {
            let from = name.len() - found.len();
            assert(name[i] == name.skip(from)[i - from]);
        }
    }
}

proof fn lemma_after_last_dot(name: Seq<u8>)
    ensures
        ({
            let found = crate::path::after_last(name, DOT);
            &&& found.len() <= name.len()
            &&& found == name.skip(name.len() - found.len())
            &&& forall|i: int| 0 <= i < found.len() ==> #[trigger] found[i] != DOT
            &&& found.len() < name.len() ==> name[name.len() - found.len() - 1] == DOT
        }),
    decreases name.len(),
{
    let found = crate::path::after_last(name, DOT);
    if name.len() == 0 || name.last() == DOT {
        assert(found =~= name.skip(name.len() as int));
    } else {
        lemma_after_last_dot(name.drop_last());
        assert(found =~= name.skip(name.len() - found.len()));
    }
}

/// The media type of a file goes by its extension: `jpg` and `jpeg`, `png`, and `webp` where that is
/// accepted. Any other extension, and none, stands for no media type.
pub proof fn law_media_types_of_names(
    name: Seq<u8>,
    stem: Seq<u8>,
    extension: Seq<u8>,
    features: Features,
)
    requires
        stem.len() > 0,
        forall|i: int| 0 <= i < extension.len() ==> extension[i] != DOT,
        forall|i: int| 0 < i < name.len() ==> name[i] != DOT,
    ensures
        ({
            let media_type = name_media_type(Some(stem.push(DOT) + extension), features);
            &&& extension == encode_utf8("jpg"@) ==> media_type == Some("image/jpeg"@)
            &&& extension == encode_utf8("jpeg"@) ==> media_type == Some("image/jpeg"@)
            &&& extension == encode_utf8("png"@) ==> media_type == Some("image/png"@)
            &&& extension == encode_utf8("webp"@) ==> media_type == if features.ext_texture_webp {
                Some("image/webp"@)
            } else {
                None
            }
            &&& media_type is Some ==> extension == encode_utf8("jpg"@) || extension == encode_utf8(
                "jpeg"@,
            ) || extension == encode_utf8("png"@) || extension == encode_utf8("webp"@)
        }),
        name_media_type(Some(name), features) is None,
        name_media_type(None, features) is None,
{
    crate::laws::law_extension_of_a_file(stem, extension);
    law_extensions(name);
    if let Some(found) = name_extension(name) {
        let before = choose|before: Seq<u8>|
            before.len() > 0 && name == #[trigger] before.push(DOT) + found;
        assert(name[before.len() as int] == DOT);
    }
    lemma_distinct_extensions();
}

proof fn lemma_distinct_extensions()
    ensures
        encode_utf8("jpg"@) != encode_utf8("png"@),
        encode_utf8("jpg"@) != encode_utf8("webp"@),
        encode_utf8("jpeg"@) != encode_utf8("png"@),
        encode_utf8("jpeg"@) != encode_utf8("webp"@),
        encode_utf8("png"@) != encode_utf8("webp"@),
{
    reveal_strlit("jpg");
    reveal_strlit("jpeg");
    reveal_strlit("png");
    reveal_strlit("webp");
    encode_utf8_decode_utf8("jpg"@);
    encode_utf8_decode_utf8("jpeg"@);
    encode_utf8_decode_utf8("png"@);
    encode_utf8_decode_utf8("webp"@);
    assert("jpg"@[0] != "png"@[0]);
    assert("jpg"@[0] != "webp"@[0]);
    assert("jpeg"@[0] != "png"@[0]);
    assert("jpeg"@[0] != "webp"@[0]);
    assert("png"@[0] != "webp"@[0]);
}

/// A reference that parses means what it parses to; one without a scheme is joined to the text of its
/// base, and is refused where there is none; a malformed one is refused for what is wrong with it.
pub proof fn law_references(uri: Seq<char>, base: Option<UriView>)
    ensures
        parsed_uri(uri) matches Ok(absolute) ==> resolved(uri, base) == Ok::<_, ErrorView>(absolute),
        parsed_uri(uri) matches Err(UriError::Invalid(cause)) ==> resolved(uri, base) == Err::<
            UriView,
            _,
        >(ErrorView::Uri(UriError::Invalid(cause))),
        parsed_uri(uri) matches Err(UriError::RelativeUrlWithoutBase) ==> match base {
            None => resolved(uri, base) == Err::<UriView, _>(
                ErrorView::ExternalReferenceInSliceImport,
            ),
            Some(place) => match joined_uri(place.text, uri) {
                Ok(joined) => resolved(uri, base) == Ok::<_, ErrorView>(joined),
                Err(error) => resolved(uri, base) == Err::<UriView, _>(ErrorView::Uri(error)),
            },
        },
{
}

/// As [`law_references`], for a reference of which it is known how it parses and joins.
pub proof fn law_parsed_references(
    parsed: Result<UriView, UriError>,
    joined: Result<UriView, UriError>,
    uri: Seq<char>,
    base: Option<UriView>,
)
    ensures
        joined matches Ok(found) ==> joined_from(joined) == Ok::<_, ErrorView>(found),
        joined matches Err(error) ==> joined_from(joined) == Err::<UriView, _>(
            ErrorView::Uri(error),
        ),
        match parsed {
            Ok(absolute) => resolved_from(parsed, uri, base) == Ok::<_, ErrorView>(absolute),
            Err(UriError::Invalid(cause)) => resolved_from(parsed, uri, base) == Err::<UriView, _>(
                ErrorView::Uri(UriError::Invalid(cause)),
            ),
            Err(UriError::RelativeUrlWithoutBase) => match base {
                None => resolved_from(parsed, uri, base) == Err::<UriView, _>(
                    ErrorView::ExternalReferenceInSliceImport,
                ),
                Some(place) => match joined_uri(place.text, uri) {
                    Ok(found) => resolved_from(parsed, uri, base) == Ok::<_, ErrorView>(found),
                    Err(error) => resolved_from(parsed, uri, base) == Err::<UriView, _>(
                        ErrorView::Uri(error),
                    ),
                },
            },
        },
{
}

/// Loading a URL is opening it, and then taking its media type and all that it yields. What cannot be
/// opened is refused for the reason that the importer gives.
pub proof fn law_loading<I: Importer>(
    importer: I,
    uri: UriView,
    loaded: Result<Loaded, ErrorView>,
)
    requires
        load_outcome(importer, uri, loaded),
    ensures
        exists|opened: Result<I::Opened, Error>| #[trigger]
            importer.may_open(uri, opened) && match opened {
                Err(error) => loaded == Err::<Loaded, _>(error@),
                Ok(resource) => loaded is Ok && loaded->Ok_0.media_type == resource.reports()
                    && resource.may_yield(loaded->Ok_0.content),
            },
{
}

/// The bytes of a document are all those that are left of it once it is opened for reading in any
/// order.
pub proof fn law_reading_documents<I: Importer>(
    importer: I,
    uri: UriView,
    bytes: Result<Seq<u8>, ErrorView>,
)
    requires
        read_outcome(importer, uri, bytes),
    ensures
        exists|opened: Result<I::Seekable, Error>| #[trigger]
            importer.may_open_seekable(uri, opened) && match opened {
                Err(error) => bytes == Err::<Seq<u8>, _>(error@),
                Ok(reader) => exists|content: Result<Seq<u8>, std::io::Error>, left: I::Seekable|
                    #[trigger] reader.may_read_to_end(content, left) && match content {
                        Ok(read) => bytes == Ok::<_, ErrorView>(read),
                        Err(error) => bytes == Err::<Seq<u8>, _>(ErrorView::Io(error)),
                    },
            },
{
}

/// A file that was opened is a resource with the media type of its name, and one that was not is an
/// error.
pub proof fn law_opened_files<H>(name: Option<Seq<u8>>, features: Features, file: H, error: std::io::Error)
    ensures
        file_resource(name, features, Ok(file)) is Ok,
        file_resource(name, features, Ok(file))->Ok_0.file == file,
        file_resource(name, features, Ok(file))->Ok_0.media_type == name_media_type(name, features),
        file_resource(name, features, Err::<H, _>(error)) == Err::<FileView<H>, _>(
            ErrorView::Io(error),
        ),
{
}

/// A `file` URL is opened by handing the bytes of its path to the function that opens files, and is
/// what that gives, with the media type of the last component of the path. A URL that gives no path
/// is not supported.
pub proof fn law_opening_files<H, O: Fn(Vec<u8>) -> Result<H, std::io::Error>>(
    uri: UriView,
    features: Features,
    open_file: O,
    resource: Result<FileView<H>, ErrorView>,
)
    requires
        file_outcome(uri, features, open_file, resource),
    ensures
        ({
            ||| file_path_outcome(uri.text, None) && resource == Err::<FileView<H>, _>(
                ErrorView::UnsupportedScheme,
            )
            ||| exists|
                argument: Vec<u8>,
                name: Option<Seq<u8>>,
                opened: Result<H, std::io::Error>,
            |
                {
                    &&& file_path_outcome(uri.text, Some(argument@))
                    &&& #[trigger] file_name_outcome(argument@, name)
                    &&& #[trigger] call_ensures(open_file, (argument,), opened)
                    &&& match opened {
                        Ok(file) => resource is Ok && resource->Ok_0.file == file
                            && resource->Ok_0.media_type == name_media_type(name, features),
                        Err(error) => resource == Err::<FileView<H>, _>(ErrorView::Io(error)),
                    }
                }
        }),
{
    if !(file_path_outcome(uri.text, None) && resource == Err::<FileView<H>, _>(
        ErrorView::UnsupportedScheme,
    )) {
        let (path, name, opened) = choose|
            path: Seq<u8>,
            name: Option<Seq<u8>>,
            opened: Result<H, std::io::Error>,
        |
            {
                &&& file_path_outcome(uri.text, Some(path))
                &&& #[trigger] file_name_outcome(path, name)
                &&& #[trigger] crate::resource::may_open_file(open_file, path, opened)
                &&& resource == file_resource(name, features, opened)
            };
        let argument = choose|argument: Vec<u8>|
            argument@ == path && #[trigger] call_ensures(open_file, (argument,), opened);
        assert(file_name_outcome(argument@, name));
    }
}

/// The default importer opens `data` URLs as the bytes in them and `file` URLs as the files they
/// name, whether or not they are to be read in any order, and refuses every other scheme. It accepts
/// what its features say.
pub proof fn law_default_importer<H: Read + Seek, O: Fn(Vec<u8>) -> Result<H, std::io::Error>>(
    importer: DefaultImporter<O>,
    uri: UriView,
    opened: Result<DefaultResource<H>, Error>,
)
    requires
        importer.may_open(uri, opened) || importer.may_open_seekable(uri, opened),
    ensures
        importer.accepts() == importer.features,
        uri.scheme == "data"@ ==> match decoded_base64(data_parts(uri.path).1) {
            Ok(bytes) => {
                &&& opened is Ok && opened->Ok_0 is Data
                &&& opened->Ok_0->Data_0@.media_type == data_parts(uri.path).0
                &&& opened->Ok_0->Data_0@.data.bytes == bytes
                &&& opened->Ok_0->Data_0@.data.pos == 0
            },
            Err(error) => opened is Err && opened->Err_0@ == ErrorView::Base64(error),
        },
        uri.scheme == "file"@ ==> ({
            ||| file_path_outcome(uri.text, None) && opened is Err && opened->Err_0@
                == ErrorView::UnsupportedScheme
            ||| exists|argument: Vec<u8>, name: Option<Seq<u8>>, file: Result<H, std::io::Error>|
                {
                    &&& file_path_outcome(uri.text, Some(argument@))
                    &&& #[trigger] file_name_outcome(argument@, name)
                    &&& #[trigger] call_ensures(importer.open_file, (argument,), file)
                    &&& match file {
                        Ok(handle) => {
                            &&& opened is Ok && opened->Ok_0 is File
                            &&& opened->Ok_0->File_0@.file == handle
                            &&& opened->Ok_0->File_0@.media_type == name_media_type(
                                name,
                                importer.features,
                            )
                        },
                        Err(error) => opened is Err && opened->Err_0@ == ErrorView::Io(error),
                    }
                }
        }),
        uri.scheme != "data"@ && uri.scheme != "file"@ ==> opened is Err && opened->Err_0@
            == ErrorView::UnsupportedScheme,
{
    assert(crate::importer::default_outcome(importer, uri, outcome(opened)));
    reveal_strlit("data");
    reveal_strlit("file");
    assert("data"@[0] != "file"@[0]);
    if uri.scheme == "file"@ {
        let resource = choose|resource: Result<FileView<H>, ErrorView>|
            #[trigger] file_outcome(uri, importer.features, importer.open_file, resource)
                && outcome(opened) == match resource {
                Ok(resource) => Ok(crate::resource::DefaultResourceView::File(resource)),
                Err(error) => Err(error),
            };
        law_opening_files(uri, importer.features, importer.open_file, resource);
    }
}

} // verus!
