use vstd::prelude::*;

verus! {

/// An append-only, split-from-front byte buffer. Bytes are consumed strictly
/// in arrival order: `append` adds to the tail, `split_front` removes from the
/// head, and no byte is ever read twice.
pub struct ByteAccumulator {
    buf: Vec<u8>,
}

impl View for ByteAccumulator {
    type V = Seq<u8>;

    closed spec fn view(&self) -> Seq<u8> {
        self.buf@
    }
}

impl ByteAccumulator {
    /// An empty accumulator.
    pub fn new() -> (acc: ByteAccumulator)
        ensures
            acc@ == Seq::<u8>::empty(),
    {
        let acc = ByteAccumulator { buf: Vec::new() };
        proof {
            assert(acc@ =~= Seq::<u8>::empty());
        }
        acc
    }

    /// Count of unconsumed bytes currently buffered.
    pub fn length(&self) -> (n: usize)
        ensures
            n == self@.len(),
    {
        self.buf.len()
    }

    /// The buffered byte at position `i`, without consuming it.
    pub fn get(&self, i: usize) -> (b: u8)
        requires
            i < self@.len(),
        ensures
            b == self@[i as int],
    {
        self.buf[i]
    }

    /// Append `bytes` to the tail of the buffer.
    pub fn append(&mut self, bytes: &[u8])
        requires
            old(self)@.len() + bytes@.len() <= usize::MAX,
        ensures
            final(self)@ == old(self)@ + bytes@,
    {
        let mut i: usize = 0;
        while i < bytes.len()
            invariant
                i <= bytes@.len(),
                self@ == old(self)@ + bytes@.take(i as int),
            decreases bytes@.len() - i,
        {
            let b = bytes[i];
            self.buf.push(b);
            i = i + 1;
            proof {
                assert(self@ =~= old(self)@ + bytes@.take(i as int));
            }
        }
        proof {
            assert(self@ =~= old(self)@ + bytes@);
        }
    }

    /// Remove and return the first `n` buffered bytes; the remaining bytes
    /// shift to the new front.
    pub fn split_front(&mut self, n: usize) -> (front: Vec<u8>)
        requires
            n <= old(self)@.len(),
        ensures
            front@ == old(self)@.take(n as int),
            final(self)@ == old(self)@.skip(n as int),
    {
        let mut front: Vec<u8> = Vec::new();
        let mut i: usize = 0;
        while i < n
            invariant
                i <= n <= self@.len(),
                self@ == old(self)@,
                front@ == old(self)@.take(i as int),
            decreases n - i,
        {
            let b = self.buf[i];
            front.push(b);
            i = i + 1;
            proof {
                assert(front@ =~= old(self)@.take(i as int));
            }
        }
        let mut rest: Vec<u8> = Vec::new();
        let mut j: usize = n;
        let len = self.buf.len();
        while j < len
            invariant
                n <= j <= len,
                len == self@.len(),
                self@ == old(self)@,
                rest@ == old(self)@.subrange(n as int, j as int),
            decreases len - j,
        {
            let b = self.buf[j];
            rest.push(b);
            j = j + 1;
            proof {
                assert(rest@ =~= old(self)@.subrange(n as int, j as int));
            }
        }
        self.buf = rest;
        proof {
            assert(self@ =~= old(self)@.skip(n as int));
        }
        front
    }
}

} // verus!
