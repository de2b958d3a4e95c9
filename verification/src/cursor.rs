//! Bytes in memory with a position to read from.
use crate::stream::{Read, Seek, SeekError};
use vstd::prelude::*;
use vstd::slice::*;

verus! {

/// Where to move a position to.
#[derive(Debug, Clone, Copy, PartialEq, Eq, Structural)]
pub enum SeekFrom {
    /// This many bytes from the start.
    Start(u64),
    /// This many bytes from the end.
    End(i64),
    /// This many bytes from the present position.
    Current(i64),
}

/// Bytes that are read one piece after another.
#[derive(Debug)]
pub struct Cursor {
    bytes: Vec<u8>,
    pos: u64,
}

/// The plain value of a [`Cursor`].
#[verifier::ext_equal]
pub struct CursorView {
    /// All the bytes, read or not.
    pub bytes: Seq<u8>,
    /// How many bytes from the start the next one is read. It may be past the end.
    pub pos: nat,
}

impl CursorView {
    /// A position at the first of `bytes`.
    pub open spec fn at_start(bytes: Seq<u8>) -> CursorView {
        CursorView { bytes, pos: 0 }
    }

    /// The bytes that are left to read.
    pub open spec fn remaining(self) -> Seq<u8> {
        if self.pos <= self.bytes.len() {
            self.bytes.skip(self.pos as int)
        } else {
            Seq::empty()
        }
    }

    /// How many bytes a read into `room` bytes gives.
    pub open spec fn read_len(self, room: nat) -> nat {
        if self.remaining().len() < room {
            self.remaining().len()
        } else {
            room
        }
    }

    /// The position that `to` asks for, as far as integers go.
    pub open spec fn target(self, to: SeekFrom) -> int {
        match to {
            SeekFrom::Start(offset) => offset as int,
            SeekFrom::End(offset) => self.bytes.len() + offset,
            SeekFrom::Current(offset) => self.pos + offset,
        }
    }
}

/// A read into a buffer that held `bytes` answered `count`, and left the buffer with `filled` and
/// the cursor as `after`: as many bytes as are left, or as there is room for, stand at the start of
/// the buffer, and the rest of it is as before.
pub open spec fn was_read(
    before: CursorView,
    bytes: Seq<u8>,
    count: Result<usize, std::io::Error>,
    filled: Seq<u8>,
    after: CursorView,
) -> bool {
    match count {
        Ok(count) => {
            &&& count == before.read_len(bytes.len())
            &&& filled == before.remaining().take(count as int) + bytes.skip(count as int)
            &&& after == (CursorView { bytes: before.bytes, pos: before.pos + count as nat })
        },
        Err(_) => false,
    }
}

/// Reading all that is left gave `content`, and left the cursor as `after`.
pub open spec fn was_read_to_end(
    before: CursorView,
    content: Result<Seq<u8>, std::io::Error>,
    after: CursorView,
) -> bool {
    &&& content == Ok::<_, std::io::Error>(before.remaining())
    &&& after == (CursorView { bytes: before.bytes, pos: before.pos + before.remaining().len() })
}

/// Moving to `to` answered `position`, and left the cursor as `after`: a position that a `u64` can
/// hold is moved to, and any other leaves the cursor as it was.
pub open spec fn sought(
    before: CursorView,
    to: SeekFrom,
    position: Result<u64, SeekError>,
    after: CursorView,
) -> bool {
    match position {
        Ok(position) => {
            &&& position == before.target(to)
            &&& after == (CursorView { bytes: before.bytes, pos: position as nat })
        },
        Err(error) => {
            &&& error is OutOfRange
            &&& !(0 <= before.target(to) <= u64::MAX)
            &&& after == before
        },
    }
}

impl View for Cursor {
    type V = CursorView;

    closed spec fn view(&self) -> CursorView {
        CursorView { bytes: self.bytes@, pos: self.pos as nat }
    }
}

/// `base` moved by `offset`, where a `u64` can hold that.
fn offset_from(base: u64, offset: i64) -> (position: Option<u64>)
    ensures
        match position {
            Some(position) => position == base + offset,
            None => !(0 <= base + offset <= u64::MAX),
        },
{
    if offset >= 0 {
        base.checked_add(offset as u64)
    } else {
        let back: u64 = (-(offset as i128)) as u64;
        base.checked_sub(back)
    }
}

impl Cursor {
    /// A cursor at the first of `bytes`.
    pub fn new(bytes: Vec<u8>) -> (cursor: Cursor)
        ensures
            cursor@ == CursorView::at_start(bytes@),
    {
        Cursor { bytes, pos: 0 }
    }

    /// All the bytes, wherever the position is.
    pub fn into_inner(self) -> (bytes: Vec<u8>)
        ensures
            bytes@ == self@.bytes,
    {
        self.bytes
    }
}

impl Read for Cursor {
    open spec fn may_read(
        &self,
        before: Seq<u8>,
        count: Result<usize, std::io::Error>,
        after: Seq<u8>,
        left: Self,
    ) -> bool {
        was_read(self@, before, count, after, left@)
    }

    open spec fn may_read_to_end(
        &self,
        content: Result<Seq<u8>, std::io::Error>,
        left: Self,
    ) -> bool {
        was_read_to_end(self@, content, left@)
    }

    /// Copies as many bytes as are left, or as `buf` has room for, to the start of `buf`, and
    /// moves on by as many.
    fn read(&mut self, buf: &mut [u8]) -> (count: Result<usize, std::io::Error>) {
        if self.pos >= self.bytes.len() as u64 {
            assert(self@.remaining() =~= Seq::<u8>::empty());
            assert(final(buf)@ =~= self@.remaining().take(0) + buf@.skip(0));
            return Ok(0);
        }
        let start: usize = self.pos as usize;
        let left: usize = self.bytes.len() - start;
        let count: usize = if left < buf.len() {
            left
        } else {
            buf.len()
        };
        let ghost before = buf@;
        let mut i: usize = 0;
        while i < count
            invariant
                0 <= i <= count,
                start + left == self.bytes.len(),
                count <= left,
                count <= before.len(),
                buf@ == self.bytes@.subrange(start as int, start + i) + before.skip(i as int),
            decreases count - i,
        {
            buf[i] = self.bytes[start + i];
            i += 1;
            assert(buf@ =~= self.bytes@.subrange(start as int, start + i) + before.skip(i as int));
        }
        assert(self@.remaining().take(count as int) =~= self.bytes@.subrange(
            start as int,
            start + count,
        ));
        self.pos = self.pos + count as u64;
        Ok(count)
    }

    /// Copies the bytes from the position on, and moves to the end, unless it is past that.
    fn read_to_end(&mut self) -> (content: Result<Vec<u8>, std::io::Error>) {
        let len: usize = self.bytes.len();
        if self.pos >= len as u64 {
            assert(self@.remaining() =~= Seq::<u8>::empty());
            return Ok(Vec::new());
        }
        let start: usize = self.pos as usize;
        let rest = slice_to_vec(slice_subrange(self.bytes.as_slice(), start, len));
        assert(rest@ =~= self@.remaining());
        self.pos = len as u64;
        Ok(rest)
    }
}

impl Seek for Cursor {
    open spec fn may_seek(
        &self,
        to: SeekFrom,
        position: Result<u64, SeekError>,
        left: Self,
    ) -> bool {
        sought(self@, to, position, left@)
    }

    /// Moves the position, and says where it is then. Where there is no such position, it stays.
    fn seek(&mut self, to: SeekFrom) -> (position: Result<u64, SeekError>) {
        let position = match to {
            SeekFrom::Start(offset) => Some(offset),
            SeekFrom::End(offset) => offset_from(self.bytes.len() as u64, offset),
            SeekFrom::Current(offset) => offset_from(self.pos, offset),
        };
        match position {
            Some(position) => {
                self.pos = position;
                Ok(position)
            },
            None => Err(SeekError::OutOfRange),
        }
    }
}

} // verus!
