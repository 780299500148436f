//! A reader over bytes held in memory.

use crate::encoding::error::DecodeError;
use crate::encoding::traits::TypedRead;
use vstd::prelude::*;

verus! {

/// Reads strict-encoded data from a buffer, front to back, and never past a
/// limit given at its creation.
pub struct StrictReader {
    data: Vec<u8>,
    pos: usize,
    end: usize,
}

impl StrictReader {
    #[verifier::type_invariant]
    spec fn cursor_within(&self) -> bool {
        self.pos <= self.end <= self.data@.len()
    }

    /// The bytes that this reader will still hand out.
    pub closed spec fn unread(&self) -> Seq<u8> {
        if self.pos <= self.end <= self.data@.len() {
            self.data@.subrange(self.pos as int, self.end as int)
        } else {
            Seq::empty()
        }
    }

    /// A reader over the first `limit` bytes of `data`, or over all of them
    /// where there are fewer.
    pub fn with(limit: usize, data: Vec<u8>) -> (reader: Self)
        ensures
            reader.unread() == if limit <= data@.len() {
                data@.take(limit as int)
            } else {
                data@
            },
    {
        let end = if limit <= data.len() {
            limit
        } else {
            data.len()
        };
        let reader = StrictReader { data, pos: 0, end };
        assert(reader.data@.subrange(0, end as int) =~= reader.data@.take(end as int));
        assert(reader.data@.take(reader.data@.len() as int) =~= reader.data@);
        reader
    }

    /// A reader over all of `data`.
    pub fn in_memory(data: Vec<u8>) -> (reader: Self)
        ensures
            reader.unread() == data@,
    {
        assert(data@.take(data@.len() as int) =~= data@);
        Self::with(data.len(), data)
    }

    /// The number of bytes that this reader will still hand out.
    pub fn unread_len(&self) -> (n: usize)
        ensures
            n == self.unread().len(),
    {
        proof {
            use_type_invariant(self);
        }
        self.end - self.pos
    }

    /// Ends the reading and returns the bytes that were not read.
    pub fn unbox(self) -> (rest: Vec<u8>)
        ensures
            rest@ == self.unread(),
    {
        proof {
            use_type_invariant(&self);
        }
        let mut rest: Vec<u8> = Vec::new();
        let mut i: usize = self.pos;
        while i < self.end
            invariant
                self.pos <= i <= self.end <= self.data@.len(),
                rest@ == self.data@.subrange(self.pos as int, i as int),
            decreases self.end - i,
        {
            rest.push(self.data[i]);
            assert(rest@ =~= self.data@.subrange(self.pos as int, i + 1));
            i = i + 1;
        }
        rest
    }
}

impl TypedRead for StrictReader {
    open spec fn remaining(&self) -> Seq<u8> {
        self.unread()
    }

    proof fn lemma_remaining_bounded(&self) {
    }

    fn read_raw(&mut self, len: usize) -> (r: Result<Vec<u8>, DecodeError>) {
        proof {
            use_type_invariant(&*self);
        }
        if len > self.end - self.pos {
            return Err(DecodeError::UnexpectedEof);
        }
        let start = self.pos;
        let stop = start + len;
        let mut out: Vec<u8> = Vec::new();
        let mut i: usize = start;
        while i < stop
            invariant
                start <= i <= stop <= self.end <= self.data@.len(),
                out@ == self.data@.subrange(start as int, i as int),
                self.pos == start,
                *self == *old(self),
            decreases stop - i,
        {
            out.push(self.data[i]);
            assert(out@ =~= self.data@.subrange(start as int, i + 1));
            i = i + 1;
        }
        self.pos = stop;
        proof {
            let before = old(self).unread();
            assert(out@ =~= before.take(len as int));
            assert(self.unread() =~= before.skip(len as int));
        }
        Ok(out)
    }
}

} // verus!
