//! A cursor over a buffer of bytes.

use vstd::prelude::*;

verus! {

/// A buffer of bytes that is consumed from the front, one byte at a time.
pub struct ByteStream {
    data: Vec<u8>,
    position: usize,
}

impl View for ByteStream {
    type V = Seq<u8>;

    /// The bytes that have not been consumed yet.
    closed spec fn view(&self) -> Seq<u8> {
        if self.position <= self.data@.len() {
            self.data@.skip(self.position as int)
        } else {
            Seq::empty()
        }
    }
}

impl ByteStream {
    /// A stream that yields the bytes of `data`, first to last.
    pub fn new(data: Vec<u8>) -> (stream: ByteStream)
        ensures
            stream@ == data@,
    {
        let stream = ByteStream { data, position: 0 };
        assert(stream.data@.skip(0) =~= stream.data@);
        stream
    }

    /// A stream over a copy of the bytes of `data`.
    pub fn from_slice(data: &[u8]) -> (stream: ByteStream)
        ensures
            stream@ == data@,
    {
        let mut copy: Vec<u8> = Vec::new();
        let mut index: usize = 0;
        while index < data.len()
            invariant
                index <= data@.len(),
                copy@ == data@.take(index as int),
            decreases data@.len() - index,
        {
            copy.push(data[index]);
            index = index + 1;
            assert(copy@ =~= data@.take(index as int));
        }
        assert(data@.take(index as int) =~= data@);
        ByteStream::new(copy)
    }

    /// The number of bytes that are left.
    pub fn remaining(&self) -> (count: usize)
        ensures
            count == self@.len(),
    {
        if self.position <= self.data.len() {
            self.data.len() - self.position
        } else {
            0
        }
    }

    /// Takes the next byte off the stream, or returns `None` at its end.
    pub fn next(&mut self) -> (byte: Option<u8>)
        ensures
            old(self)@.len() == 0 ==> byte.is_none() && final(self)@ == old(self)@,
            old(self)@.len() > 0 ==> byte == Some(old(self)@[0]) && final(self)@ == old(self)@.skip(1),
    {
        if self.position < self.data.len() {
            let byte = self.data[self.position];
            self.position = self.position + 1;
            assert(self@ =~= old(self)@.skip(1));
            Some(byte)
        } else {
            None
        }
    }
}

} // verus!
