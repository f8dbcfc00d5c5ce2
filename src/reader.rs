use crate::error::Error;
use vstd::prelude::*;

verus! {

/// A cursor over a byte slice: the source that decoders read from.
pub struct Reader<'a> {
    bytes: &'a [u8],
    pos: usize,
}

impl<'a> View for Reader<'a> {
    type V = Seq<u8>;

    /// The bytes not read yet.
    closed spec fn view(&self) -> Seq<u8> {
        if self.pos <= self.bytes@.len() {
            self.bytes@.subrange(self.pos as int, self.bytes@.len() as int)
        } else {
            Seq::empty()
        }
    }
}

impl<'a> Reader<'a> {
    pub fn new(bytes: &'a [u8]) -> (r: Self)
        ensures
            r@ == bytes@,
    {
        let r = Reader { bytes, pos: 0 };
        assert(r@ =~= bytes@);
        r
    }

    /// The number of bytes not read yet.
    pub fn remaining(&self) -> (n: usize)
        ensures
            n == self@.len(),
    {
        if self.pos <= self.bytes.len() {
            self.bytes.len() - self.pos
        } else {
            0
        }
    }

    /// Reads one byte.
    pub fn read_u8(&mut self) -> (r: Result<u8, Error>)
        ensures
            old(self)@.len() > 0 ==> r == Ok::<u8, Error>(old(self)@[0]) && final(self)@ == old(self)@.skip(1),
            old(self)@.len() == 0 ==> r == Err::<u8, Error>(Error::UnexpectedEof) && final(self)@ == old(self)@,
    {
        if self.pos < self.bytes.len() {
            let b = self.bytes[self.pos];
            self.pos = self.pos + 1;
            assert(self@ =~= old(self)@.skip(1));
            Ok(b)
        } else {
            Err(Error::UnexpectedEof)
        }
    }

    /// Reads exactly `n` bytes, or fails without consuming anything.
    pub fn read_exact(&mut self, n: usize) -> (r: Result<Vec<u8>, Error>)
        ensures
            n <= old(self)@.len() ==> (r matches Ok(v) && v@ == old(self)@.take(n as int)
                && final(self)@ == old(self)@.skip(n as int)),
            n > old(self)@.len() ==> r == Err::<Vec<u8>, Error>(Error::UnexpectedEof) && final(self)@ == old(self)@,
    {
        if n > self.remaining() {
            return Err(Error::UnexpectedEof);
        }
        let mut v: Vec<u8> = Vec::new();
        if n == 0 {
            assert(v@ =~= old(self)@.take(0));
            assert(self@ =~= old(self)@.skip(0));
            return Ok(v);
        }
        let start = self.pos;
        let mut i: usize = 0;
        while i < n
            invariant
                i <= n,
                start + n <= self.bytes@.len(),
                self.pos == start + i,
                v@ == old(self)@.take(i as int),
                old(self)@ == self.bytes@.subrange(start as int, self.bytes@.len() as int),
                self.bytes == old(self).bytes,
            decreases n - i,
        {
            v.push(self.bytes[self.pos]);
            self.pos = self.pos + 1;
            i = i + 1;
            assert(v@ =~= old(self)@.take(i as int));
        }
        assert(self@ =~= old(self)@.skip(n as int));
        Ok(v)
    }

    /// The next byte, without consuming it.
    pub fn peek_u8(&self) -> (r: Option<u8>)
        ensures
            self@.len() > 0 ==> r == Some(self@[0]),
            self@.len() == 0 ==> r is None,
    {
        if self.pos < self.bytes.len() {
            Some(self.bytes[self.pos])
        } else {
            None
        }
    }

    /// A copy of the bytes not read yet; nothing is consumed.
    pub fn peek_rest(&self) -> (v: Vec<u8>)
        ensures
            v@ == self@,
    {
        let mut v: Vec<u8> = Vec::new();
        if self.pos > self.bytes.len() {
            assert(v@ =~= self@);
            return v;
        }
        let mut i = self.pos;
        while i < self.bytes.len()
            invariant
                self.pos <= i <= self.bytes@.len(),
                v@ == self.bytes@.subrange(self.pos as int, i as int),
            decreases self.bytes@.len() - i,
        {
            v.push(self.bytes[i]);
            i = i + 1;
            assert(v@ =~= self.bytes@.subrange(self.pos as int, i as int));
        }
        v
    }

    /// Reads every byte that is left.
    pub fn read_to_end(&mut self) -> (v: Vec<u8>)
        ensures
            v@ == old(self)@,
            final(self)@.len() == 0,
    {
        let n = self.remaining();
        match self.read_exact(n) {
            Ok(v) => {
                assert(v@ =~= old(self)@);
                v
            },
            Err(_) => Vec::new(),
        }
    }
}

} // verus!
