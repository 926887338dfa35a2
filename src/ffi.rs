use vstd::prelude::*;

verus! {

/// No error.
pub const FZ_ERROR_NONE: i32 = 0;
/// Out of memory.
pub const FZ_ERROR_MEMORY: i32 = 1;
/// A generic failure.
pub const FZ_ERROR_GENERIC: i32 = 2;
/// A syntax error in a document.
pub const FZ_ERROR_SYNTAX: i32 = 3;
/// A minor, recoverable problem.
pub const FZ_ERROR_MINOR: i32 = 4;
/// Data not yet available.
pub const FZ_ERROR_TRYLATER: i32 = 5;
/// The operation was aborted.
pub const FZ_ERROR_ABORT: i32 = 6;
/// A failure of the system.
pub const FZ_ERROR_SYSTEM: i32 = 7;
/// A failure of a library.
pub const FZ_ERROR_LIBRARY: i32 = 8;
/// A malformed format.
pub const FZ_ERROR_FORMAT: i32 = 9;
/// A limit was exceeded.
pub const FZ_ERROR_LIMIT: i32 = 10;
/// An unsupported feature.
pub const FZ_ERROR_UNSUPPORTED: i32 = 11;
/// A bad argument.
pub const FZ_ERROR_ARGUMENT: i32 = 12;

/// The state behind a context handle: user data and the last error.
pub struct Context {
    /// the caller's data
    pub user_data: Option<usize>,
    /// the code of the last error, `FZ_ERROR_NONE` when there is none
    pub error_code: i32,
    /// the message of the last error
    pub error_message: String,
}

impl Context {
    /// A context without user data or error.
    pub fn new() -> (r: Context)
        ensures
            r.user_data is None,
            r.error_code == FZ_ERROR_NONE,
            r.error_message@.len() == 0,
    {
        Context { user_data: None, error_code: FZ_ERROR_NONE, error_message: String::new() }
    }

    /// Records an error.
    pub fn set_error(&mut self, code: i32, message: &str)
        ensures
            final(self).error_code == code,
            final(self).error_message@ == message@,
            final(self).user_data == old(self).user_data,
    {
        self.error_code = code;
        self.error_message = message.to_owned();
    }

    /// Forgets the last error.
    pub fn clear_error(&mut self)
        ensures
            final(self).error_code == FZ_ERROR_NONE,
            final(self).error_message@.len() == 0,
            final(self).user_data == old(self).user_data,
    {
        self.error_code = FZ_ERROR_NONE;
        self.error_message = String::new();
    }
}

impl Default for Context {
    fn default() -> (r: Context)
        ensures
            r.user_data is None,
            r.error_code == FZ_ERROR_NONE,
            r.error_message@.len() == 0,
    {
        Context::new()
    }
}

/// The state behind a stream handle: bytes in memory, a position and an
/// end-of-data flag.
pub struct Stream {
    data: Vec<u8>,
    position: usize,
    eof: bool,
}

/// The end of data is reached when the position is at the end.
pub open spec fn at_end(position: int, len: int) -> bool {
    position >= len
}

impl Stream {
    /// The bytes of the stream.
    pub closed spec fn bytes(&self) -> Seq<u8> {
        self.data@
    }

    /// The read position.
    pub closed spec fn pos(&self) -> int {
        self.position as int
    }

    /// The end-of-data flag.
    pub closed spec fn eof_flag(&self) -> bool {
        self.eof
    }

    /// The stream's invariant: the position lies within the data, which fits
    /// an `i64` length.
    pub closed spec fn wf(&self) -> bool {
        &&& self.position <= self.data@.len()
        &&& self.data@.len() <= i64::MAX
        &&& self.eof == at_end(self.position as int, self.data@.len() as int)
    }

    /// An empty stream, at its end.
    pub fn new() -> (r: Stream)
        ensures
            r.wf(),
            r.bytes().len() == 0,
            r.pos() == 0,
            r.eof_flag(),
    {
        Stream { data: Vec::new(), position: 0, eof: true }
    }

    /// A stream over `data`, at its start; at its end when `data` is empty.
    pub fn from_memory(data: Vec<u8>) -> (r: Stream)
        requires
            data@.len() <= i64::MAX,
        ensures
            r.wf(),
            r.bytes() == data@,
            r.pos() == 0,
            r.eof_flag() == (data@.len() == 0),
    {
        let eof = data.len() == 0;
        Stream { data, position: 0, eof }
    }

    /// Copies the next bytes into `buf`, as many as fit and remain, and
    /// returns their count; the end flag is set once the data is used up.
    pub fn read(&mut self, buf: &mut [u8]) -> (r: usize)
        requires
            old(self).wf(),
        ensures
            final(self).wf(),
            final(self).bytes() == old(self).bytes(),
            r as int == vstd::math::min(
                old(buf)@.len() as int,
                old(self).bytes().len() - old(self).pos(),
            ),
            final(self).pos() == old(self).pos() + r,
            final(self).eof_flag() == at_end(final(self).pos(), final(self).bytes().len() as int),
            final(buf)@.len() == old(buf)@.len(),
            final(buf)@.subrange(0, r as int) == old(self).bytes().subrange(
                old(self).pos(),
                old(self).pos() + r,
            ),
            final(buf)@.subrange(r as int, old(buf)@.len() as int) == old(buf)@.subrange(
                r as int,
                old(buf)@.len() as int,
            ),
    {
        if self.position >= self.data.len() {
            self.eof = true;
            assert(buf@.subrange(0, 0) =~= self.data@.subrange(self.pos(), self.pos()));
            assert(buf@.subrange(0, buf@.len() as int) =~= buf@);
            return 0;
        }
        let ghost start = self.position as int;
        let available = self.data.len() - self.position;
        let n: usize = if buf.len() < available {
            buf.len()
        } else {
            available
        };
        let mut k: usize = 0;
        let mut src: usize = self.position;
        let dlen = self.data.len();
        while k < n
            invariant
                src == start + k,
                dlen == self.data@.len(),
                self.wf(),
                self.data@ == old(self).data@,
                self.position == start,
                n <= buf@.len(),
                start + n <= self.data@.len(),
                k <= n,
                buf@.len() == old(buf)@.len(),
                forall|j: int| 0 <= j < k ==> buf@[j] == self.data@[start + j],
                forall|j: int| k <= j < buf@.len() ==> buf@[j] == old(buf)@[j],
            decreases n - k,
        {
            buf[k] = self.data[src];
            k = k + 1;
            src = src + 1;
        }
        self.position = self.position + n;
        if self.position >= self.data.len() {
            self.eof = true;
        }
        assert(buf@.subrange(0, n as int) =~= old(self).data@.subrange(start, start + n));
        assert(buf@.subrange(n as int, buf@.len() as int) =~= old(buf)@.subrange(
            n as int,
            old(buf)@.len() as int,
        ));
        n
    }

    /// The next byte, or `None` at the end (which sets the end flag).
    pub fn read_byte(&mut self) -> (r: Option<u8>)
        requires
            old(self).wf(),
        ensures
            final(self).wf(),
            final(self).bytes() == old(self).bytes(),
            old(self).pos() < old(self).bytes().len() ==> r == Some(
                old(self).bytes()[old(self).pos()],
            ) && final(self).pos() == old(self).pos() + 1,
            old(self).pos() >= old(self).bytes().len() ==> r is None && final(self).pos() == old(
                self,
            ).pos() && final(self).eof_flag(),
    {
        if self.position >= self.data.len() {
            self.eof = true;
            return None;
        }
        let byte = self.data[self.position];
        self.position = self.position + 1;
        if self.position >= self.data.len() {
            self.eof = true;
        }
        Some(byte)
    }

    /// The next byte without consuming it, or `None` at the end.
    pub fn peek_byte(&self) -> (r: Option<u8>)
        requires
            self.wf(),
        ensures
            self.pos() < self.bytes().len() ==> r == Some(self.bytes()[self.pos()]),
            self.pos() >= self.bytes().len() ==> r is None,
    {
        if self.position >= self.data.len() {
            return None;
        }
        Some(self.data[self.position])
    }

    /// Moves the position: `whence` 0 from the start, 1 from the current
    /// position, 2 from the end, any other value keeps it; the result is
    /// clamped to the data.
    pub fn seek(&mut self, offset: i64, whence: i32)
        requires
            old(self).wf(),
        ensures
            final(self).wf(),
            final(self).bytes() == old(self).bytes(),
            final(self).pos() == seek_target(
                old(self).pos(),
                old(self).bytes().len() as int,
                offset as int,
                whence,
            ),
            final(self).eof_flag() == at_end(final(self).pos(), final(self).bytes().len() as int),
    {
        let len = self.data.len();
        let target: i128 = if whence == 0 {
            offset as i128
        } else if whence == 1 {
            self.position as i128 + offset as i128
        } else if whence == 2 {
            len as i128 + offset as i128
        } else {
            self.position as i128
        };
        let new_pos: usize = if target < 0 {
            0
        } else if target > len as i128 {
            len
        } else {
            target as usize
        };
        self.position = new_pos;
        self.eof = self.position >= self.data.len();
    }

    /// The read position.
    pub fn tell(&self) -> (r: i64)
        requires
            self.wf(),
        ensures
            r == self.pos(),
    {
        self.position as i64
    }

    /// Whether the end flag is set, which is whether the position is at the
    /// end of the data.
    pub fn is_eof(&self) -> (r: bool)
        requires
            self.wf(),
        ensures
            r == self.eof_flag(),
            r == at_end(self.pos(), self.bytes().len() as int),
    {
        self.eof
    }
}

/// The position after a seek: the target that `whence` selects, clamped to
/// `0..=len`.
pub open spec fn seek_target(pos: int, len: int, offset: int, whence: i32) -> int {
    let target = if whence == 0 {
        offset
    } else if whence == 1 {
        pos + offset
    } else if whence == 2 {
        len + offset
    } else {
        pos
    };
    if target < 0 {
        0
    } else if target > len {
        len
    } else {
        target
    }
}

} // verus!
