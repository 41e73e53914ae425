//! Byte source abstraction: a sequential `Read` capability, a random-access
//! `Seek` capability, and an in-memory source implementing both.
//!
//! A source is modelled by the byte sequence it carries (`contents`) and a
//! cursor into it (`pos`).  A source whose reads and seeks never fall short
//! declares itself `reliable`; the parsers' exact contracts hold over such
//! sources, while short reads merely end iteration.

use vstd::prelude::*;
use crate::errors::ParsingError;

verus! {

/// Where a seek starts from.
#[derive(Debug, Clone, Copy)]
pub enum SeekFrom {
    Start(u64),
    End(i64),
    Current(i64),
}

/// Sequential reading over a byte source.
pub trait Read: Sized {
    /// The bytes the source carries.
    spec fn contents(&self) -> Seq<u8>;

    /// The cursor the next read starts at.
    spec fn pos(&self) -> int;

    /// A reliable source returns every in-range byte that is asked of it.
    spec fn reliable(&self) -> bool;

    /// Reads at most `n` bytes from the cursor; a short or empty result is
    /// allowed.  Zero bytes mean "nothing available now", not necessarily
    /// the end of the source.
    fn read(&mut self, n: usize) -> (r: Result<Vec<u8>, ParsingError>)
        ensures
            final(self).contents() == old(self).contents(),
            final(self).reliable() == old(self).reliable(),
            match r {
                Ok(bs) => {
                    &&& bs@.len() <= n
                    &&& final(self).pos() == old(self).pos() + bs@.len()
                    &&& bs@.len() > 0 ==> 0 <= old(self).pos()
                        && old(self).pos() + bs@.len() <= old(self).contents().len()
                        && bs@ == old(self).contents().subrange(
                            old(self).pos(), old(self).pos() + bs@.len())
                },
                Err(_) => final(self).pos() == old(self).pos(),
            },
            old(self).reliable() && 0 <= old(self).pos()
                && old(self).pos() <= old(self).contents().len()
                ==> (r matches Ok(bs) && bs@.len() == vstd::math::min(
                    n as int, old(self).contents().len() - old(self).pos())),
    ;

    /// Reads exactly `n` bytes, looping over short reads; an empty read
    /// before `n` bytes arrived is an error.
    fn read_exact(&mut self, n: usize) -> (r: Result<Vec<u8>, ParsingError>)
        ensures
            final(self).contents() == old(self).contents(),
            final(self).reliable() == old(self).reliable(),
            match r {
                Ok(bs) => {
                    &&& bs@.len() == n
                    &&& final(self).pos() == old(self).pos() + n
                    &&& n > 0 ==> 0 <= old(self).pos()
                        && old(self).pos() + n <= old(self).contents().len()
                        && bs@ == old(self).contents().subrange(
                            old(self).pos(), old(self).pos() + n)
                },
                Err(_) => true,
            },
            old(self).reliable() && 0 <= old(self).pos()
                && old(self).pos() + n <= old(self).contents().len()
                ==> r is Ok,
    ;
}

/// Random access over a byte source.
pub trait Seek: Read {
    /// Moves the cursor.  The landing place must lie inside the source;
    /// a target outside it is refused and the cursor stays.
    fn seek(&mut self, from: SeekFrom) -> (r: Result<u64, ParsingError>)
        ensures
            final(self).contents() == old(self).contents(),
            final(self).reliable() == old(self).reliable(),
            match r {
                Ok(p) => {
                    &&& final(self).pos() == p
                    &&& 0 <= p <= old(self).contents().len()
                    &&& match from {
                        SeekFrom::Start(s) => p == s,
                        SeekFrom::End(d) => p == old(self).contents().len() + d,
                        SeekFrom::Current(d) => p == old(self).pos() + d,
                    }
                },
                Err(_) => final(self).pos() == old(self).pos(),
            },
            old(self).reliable() && (match from {
                SeekFrom::Start(p) => p <= old(self).contents().len(),
                SeekFrom::End(d) => 0 <= old(self).contents().len() + d
                    <= old(self).contents().len(),
                SeekFrom::Current(d) => 0 <= old(self).pos() + d
                    <= old(self).contents().len(),
            }) ==> r is Ok,
    ;

    /// Moves the cursor back to the start of the source.
    fn rewind(&mut self) -> (r: Result<(), ParsingError>)
        ensures
            final(self).contents() == old(self).contents(),
            final(self).reliable() == old(self).reliable(),
            r is Ok ==> final(self).pos() == 0,
            r is Err ==> final(self).pos() == old(self).pos(),
            old(self).reliable() ==> r is Ok,
    ;

    /// The total length of the source, if the source knows it.  The cursor
    /// stays where it was.
    fn stream_len(&mut self) -> (r: Option<u64>)
        ensures
            final(self).contents() == old(self).contents(),
            final(self).reliable() == old(self).reliable(),
            final(self).pos() == old(self).pos(),
            r matches Some(l) ==> l == old(self).contents().len(),
            old(self).reliable() ==> r is Some,
    ;
}

/// An in-memory byte source: a buffer and a cursor.  Always reliable.
#[derive(Debug)]
pub struct MemStream {
    data: Vec<u8>,
    cursor: usize,
}

impl MemStream {
    /// Wraps a buffer; the cursor starts at the first byte.
    pub fn new(data: Vec<u8>) -> (r: MemStream)
        ensures
            r.contents() == data@,
            r.pos() == 0,
            r.reliable(),
    {
        MemStream { data, cursor: 0 }
    }
}

impl Read for MemStream {
    closed spec fn contents(&self) -> Seq<u8> {
        self.data@
    }

    closed spec fn pos(&self) -> int {
        self.cursor as int
    }

    closed spec fn reliable(&self) -> bool {
        true
    }

    fn read(&mut self, n: usize) -> (r: Result<Vec<u8>, ParsingError>) {
        if self.cursor > self.data.len() {
            return Ok(Vec::new());
        }
        let avail = self.data.len() - self.cursor;
        let k = if n < avail { n } else { avail };
        let mut out: Vec<u8> = Vec::new();
        let mut i: usize = 0;
        while i < k
            invariant
                i <= k,
                self.cursor + k <= self.data.len(),
                out@.len() == i,
                out@ == self.data@.subrange(self.cursor as int, self.cursor + i),
            decreases k - i,
        {
            out.push(self.data[self.cursor + i]);
            assert(out@ == self.data@.subrange(self.cursor as int, self.cursor + i + 1));
            i += 1;
        }
        self.cursor = self.cursor + k;
        Ok(out)
    }

    fn read_exact(&mut self, n: usize) -> (r: Result<Vec<u8>, ParsingError>) {
        let avail = if self.cursor <= self.data.len() {
            self.data.len() - self.cursor
        } else {
            0
        };
        if n > avail {
            return Err(ParsingError::StreamEnding);
        }
        self.read(n)
    }
}

impl Seek for MemStream {
    fn seek(&mut self, from: SeekFrom) -> (r: Result<u64, ParsingError>) {
        let len = self.data.len();
        let target: i128 = match from {
            SeekFrom::Start(p) => p as i128,
            SeekFrom::End(d) => len as i128 + d as i128,
            SeekFrom::Current(d) => self.cursor as i128 + d as i128,
        };
        if 0 <= target && target <= len as i128 {
            self.cursor = target as usize;
            Ok(self.cursor as u64)
        } else {
            Err(ParsingError::InvalidStream)
        }
    }

    fn rewind(&mut self) -> (r: Result<(), ParsingError>) {
        self.cursor = 0;
        Ok(())
    }

    fn stream_len(&mut self) -> (r: Option<u64>) {
        Some(self.data.len() as u64)
    }
}

} // verus!
