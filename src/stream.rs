use vstd::prelude::*;

verus! {

/// The failures of stream reading.
#[derive(Debug, Clone, Copy, PartialEq, Eq, Structural)]
pub enum StreamError {
    /// The data ended before the requested bytes.
    Eof,
}

/// A read cursor over bytes held in memory.
#[derive(Debug)]
pub struct Stream {
    data: Vec<u8>,
    pos: usize,
    eof: bool,
}

impl Stream {
    /// The bytes of the stream.
    pub closed spec fn bytes(&self) -> Seq<u8> {
        self.data@
    }

    /// The read position.
    pub closed spec fn position(&self) -> int {
        self.pos as int
    }

    /// The stream's invariant: the position lies within the data.
    pub closed spec fn wf(&self) -> bool {
        self.pos <= self.data@.len() && self.data@.len() <= i64::MAX
    }

    /// A stream over a copy of `data`, positioned at its start.
    pub fn open_memory(data: &[u8]) -> (r: Stream)
        requires
            data@.len() <= i64::MAX,
        ensures
            r.wf(),
            r.bytes() == data@,
            r.position() == 0,
    {
        Stream { data: crate::byte_util::copy_bytes(data), pos: 0, eof: false }
    }

    /// The read position.
    pub fn tell(&self) -> (r: i64)
        requires
            self.wf(),
        ensures
            r == self.position(),
    {
        self.pos as i64
    }

    /// The length of the data.
    pub fn len(&self) -> (r: Option<u64>)
        requires
            self.wf(),
        ensures
            r == Some(self.bytes().len() as u64),
    {
        Some(self.data.len() as u64)
    }

    /// Whether the stream holds no data.
    pub fn is_empty(&self) -> (r: bool)
        ensures
            r == (self.bytes().len() == 0),
    {
        self.data.len() == 0
    }

    /// The next byte, or `None` at the end of the data.
    pub fn read_byte(&mut self) -> (r: Result<Option<u8>, StreamError>)
        requires
            old(self).wf(),
        ensures
            final(self).wf(),
            final(self).bytes() == old(self).bytes(),
            old(self).position() < old(self).bytes().len() ==> r == Ok::<Option<u8>, StreamError>(
                Some(old(self).bytes()[old(self).position()]),
            ) && final(self).position() == old(self).position() + 1,
            old(self).position() >= old(self).bytes().len() ==> r == Ok::<Option<u8>, StreamError>(
                None,
            ) && final(self).position() == old(self).position(),
    {
        if self.pos >= self.data.len() {
            self.eof = true;
            return Ok(None);
        }
        let byte = self.data[self.pos];
        self.pos = self.pos + 1;
        Ok(Some(byte))
    }

    /// Copies the next bytes into `buf`, as many as fit and remain; returns
    /// how many were copied.
    pub fn read(&mut self, buf: &mut [u8]) -> (r: Result<usize, StreamError>)
        requires
            old(self).wf(),
        ensures
            final(self).wf(),
            final(self).bytes() == old(self).bytes(),
            r matches Ok(n) && n as int == vstd::math::min(
                old(buf)@.len() as int,
                old(self).bytes().len() - old(self).position(),
            ) && final(self).position() == old(self).position() + n && final(buf)@.len() == old(
                buf,
            )@.len() && final(buf)@.subrange(0, n as int) == old(self).bytes().subrange(
                old(self).position(),
                old(self).position() + n,
            ) && final(buf)@.subrange(n as int, old(buf)@.len() as int) == old(buf)@.subrange(
                n as int,
                old(buf)@.len() as int,
            ),
    {
        let ghost start = self.pos as int;
        let available = self.data.len() - self.pos;
        let n: usize = if buf.len() < available {
            buf.len()
        } else {
            available
        };
        let mut k: usize = 0;
        let mut src: usize = self.pos;
        let dlen = self.data.len();
        while k < n
            invariant
                src == start + k,
                dlen == self.data@.len(),
                self.wf(),
                self.bytes() == old(self).bytes(),
                self.pos == start,
                n <= buf@.len(),
                start + n <= self.bytes().len(),
                k <= n,
                buf@.len() == old(buf)@.len(),
                forall|j: int| 0 <= j < k ==> buf@[j] == self.bytes()[start + j],
                forall|j: int| k <= j < buf@.len() ==> buf@[j] == old(buf)@[j],
            decreases n - k,
        {
            buf[k] = self.data[src];
            k = k + 1;
            src = src + 1;
        }
        self.pos = self.pos + n;
        if n < buf.len() {
            self.eof = true;
        }
        assert(buf@.subrange(0, n as int) =~= old(self).bytes().subrange(start, start + n));
        assert(buf@.subrange(n as int, buf@.len() as int) =~= old(buf)@.subrange(
            n as int,
            old(buf)@.len() as int,
        ));
        Ok(n)
    }

    /// Fills `buf` with the next bytes, or fails with `Eof` when fewer
    /// remain (what remained is then consumed).
    pub fn read_exact(&mut self, buf: &mut [u8]) -> (r: Result<(), StreamError>)
        requires
            old(self).wf(),
        ensures
            final(self).wf(),
            final(self).bytes() == old(self).bytes(),
            old(self).position() + old(buf)@.len() <= old(self).bytes().len() ==> r is Ok
                && final(buf)@ == old(self).bytes().subrange(
                old(self).position(),
                old(self).position() + old(buf)@.len(),
            ) && final(self).position() == old(self).position() + old(buf)@.len(),
            old(self).position() + old(buf)@.len() > old(self).bytes().len()
                ==> final(self).position() == old(self).bytes().len(),
            old(self).position() + old(buf)@.len() > old(self).bytes().len() ==> r
                == Err::<(), StreamError>(StreamError::Eof),
    {
        let ghost len = buf@.len();
        let n = match self.read(buf) {
            Ok(n) => n,
            Err(e) => return Err(e),
        };
        if n < buf.len() {
            return Err(StreamError::Eof);
        }
        assert(buf@ =~= buf@.subrange(0, n as int));
        Ok(())
    }
}

} // verus!
