//! Reading bytes one piece after another.
use crate::cursor::SeekFrom;
use vstd::prelude::*;

verus! {

/// The plain value of bytes, or of the failure to read them.
pub open spec fn content_view(content: Result<Vec<u8>, std::io::Error>) -> Result<
    Seq<u8>,
    std::io::Error,
> {
    match content {
        Ok(bytes) => Ok(bytes@),
        Err(error) => Err(error),
    }
}

/// Why a position cannot be moved to.
#[derive(Debug)]
pub enum SeekError {
    /// The position asked for is before the start, or no `u64` can hold it.
    OutOfRange,
    /// Whoever holds the bytes refused.
    Io(std::io::Error),
}

/// Something that bytes are read from.
///
/// An impl says in `may_read` and `may_read_to_end` what its reads may give. By default that is
/// anything.
pub trait Read: Sized {
    /// A read into a buffer that holds `before` may answer `count`, after which the buffer holds
    /// `after` and `left` is left to read from.
    open spec fn may_read(
        &self,
        before: Seq<u8>,
        count: Result<usize, std::io::Error>,
        after: Seq<u8>,
        left: Self,
    ) -> bool {
        true
    }

    /// Reading all there is may give `content`, after which `left` is left to read from.
    open spec fn may_read_to_end(
        &self,
        content: Result<Seq<u8>, std::io::Error>,
        left: Self,
    ) -> bool {
        true
    }

    /// Reads the next bytes into `buf`, and says how many.
    fn read(&mut self, buf: &mut [u8]) -> (count: Result<usize, std::io::Error>)
        ensures
            old(self).may_read(old(buf)@, count, final(buf)@, *final(self)),
    ;

    /// Reads all the bytes that are left.
    fn read_to_end(&mut self) -> (content: Result<Vec<u8>, std::io::Error>)
        ensures
            old(self).may_read_to_end(content_view(content), *final(self)),
    ;
}

/// Something with a position to read from that can be moved.
///
/// An impl says in `may_seek` what moving may give. By default that is anything.
pub trait Seek: Sized {
    /// Moving to `to` may answer `position` and leave `left`.
    open spec fn may_seek(
        &self,
        to: SeekFrom,
        position: Result<u64, SeekError>,
        left: Self,
    ) -> bool {
        true
    }

    /// Moves to another position, and says which.
    fn seek(&mut self, to: SeekFrom) -> (position: Result<u64, SeekError>)
        ensures
            old(self).may_seek(to, position, *final(self)),
    ;
}

} // verus!
