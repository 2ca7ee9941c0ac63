//! A byte stream held in memory.

use vstd::prelude::*;

verus! {

/// A stream over a slice of bytes: it hands out what lies after its
/// position, in order, and ends where the slice ends.
pub struct SliceReader<'a> {
    bytes: &'a [u8],
    pos: usize,
}

impl<'a> SliceReader<'a> {
    #[verifier::type_invariant]
    spec fn in_bounds(&self) -> bool {
        self.pos <= self.bytes@.len()
    }

    /// All the bytes of the stream, read or not.
    pub closed spec fn source(&self) -> Seq<u8> {
        self.bytes@
    }

    /// How many bytes have been taken from the stream.
    pub closed spec fn consumed(&self) -> int {
        self.pos as int
    }

    /// The bytes that have not been taken yet.
    pub open spec fn remaining(&self) -> Seq<u8> {
        self.source().skip(self.consumed())
    }

    /// A stream positioned at the first byte of `bytes`.
    pub fn new(bytes: &'a [u8]) -> (reader: Self)
        ensures
            reader.source() == bytes@,
            reader.consumed() == 0,
    {
        SliceReader { bytes, pos: 0 }
    }

    /// How many bytes have been taken from the stream: never more than it
    /// holds.
    pub fn position(&self) -> (pos: usize)
        ensures
            pos == self.consumed(),
            pos <= self.source().len(),
    {
        proof {
            use_type_invariant(self);
        }
        self.pos
    }

    /// How many bytes are left in the stream.
    pub fn available(&self) -> (n: usize)
        ensures
            n == self.source().len() - self.consumed(),
    {
        proof {
            use_type_invariant(self);
        }
        self.bytes.len() - self.pos
    }

    /// Takes the next `len` bytes, or all that are left where the stream
    /// ends before that.
    pub fn read(&mut self, len: u64) -> (data: Vec<u8>)
        ensures
            final(self).source() == old(self).source(),
            data@.len() == if len <= old(self).remaining().len() {
                len as int
            } else {
                old(self).remaining().len() as int
            },
            data@ == old(self).remaining().take(data@.len() as int),
            final(self).consumed() == old(self).consumed() + data@.len(),
    {
        proof {
            use_type_invariant(&*self);
        }
        let total: usize = self.bytes.len();
        let start: usize = self.pos;
        let left: usize = total - start;
        let take: usize = if len <= left as u64 {
            len as usize
        } else {
            left
        };
        let mut data: Vec<u8> = Vec::with_capacity(take);
        let mut i: usize = 0;
        while i < take
            invariant
                i <= take,
                start + take <= total == self.bytes@.len(),
                data@ == self.bytes@.subrange(start as int, start + i),
            decreases take - i,
        {
            data.push(self.bytes[start + i]);
            i += 1;
        }
        self.pos = start + take;
        data
    }

    /// Discards the next `len` bytes, or all that are left where the stream
    /// ends before that, and says how many they were.
    pub fn skip(&mut self, len: u64) -> (skipped: u64)
        ensures
            final(self).source() == old(self).source(),
            skipped == if len <= old(self).remaining().len() {
                len as int
            } else {
                old(self).remaining().len() as int
            },
            final(self).consumed() == old(self).consumed() + skipped,
    {
        proof {
            use_type_invariant(&*self);
        }
        let left: usize = self.bytes.len() - self.pos;
        if len <= left as u64 {
            self.pos = self.pos + len as usize;
            len
        } else {
            self.pos = self.bytes.len();
            left as u64
        }
    }
}

} // verus!
