//! A position-tracking view over one frame's payload bytes.
//!
//! Every read consumes bytes from the front of the remaining region, so
//! sequential field decodes within one frame never re-read earlier bytes and
//! never step past the end of the buffer.

use vstd::prelude::*;

verus! {

/// The shared, advancing view over the undecoded bytes of a frame payload,
/// backed by an index into an immutable buffer.
pub struct Cursor {
    buf: Vec<u8>,
    pos: usize,
}

impl Cursor {
    /// The cursor never points past the end of its buffer.
    pub closed spec fn wf(&self) -> bool {
        self.pos <= self.buf@.len()
    }

    /// The bytes not yet consumed.
    pub closed spec fn remaining(&self) -> Seq<u8> {
        self.buf@.skip(self.pos as int)
    }

    /// Wraps a frame payload; nothing is consumed yet.
    pub fn new(data: Vec<u8>) -> (c: Cursor)
        ensures
            c.wf(),
            c.remaining() == data@,
    {
        let c = Cursor { buf: data, pos: 0 };
        proof {
            assert(c.remaining() =~= c.buf@);
        }
        c
    }

    /// How many bytes are left to decode.
    pub fn remaining_len(&self) -> (n: usize)
        requires
            self.wf(),
        ensures
            n == self.remaining().len(),
    {
        self.buf.len() - self.pos
    }

    /// True when every byte has been consumed.
    pub fn is_empty(&self) -> (b: bool)
        requires
            self.wf(),
        ensures
            b == (self.remaining().len() == 0),
    {
        self.remaining_len() == 0
    }

    /// Reads the byte at offset `i` of the remaining region without consuming it.
    pub fn peek(&self, i: usize) -> (b: u8)
        requires
            self.wf(),
            i < self.remaining().len(),
        ensures
            b == self.remaining()[i as int],
    {
        proof {
            assert(self.pos + i < self.buf.len());
        }
        self.buf[self.pos + i]
    }

    /// Consumes and returns the next byte.
    pub fn read_u8(&mut self) -> (b: u8)
        requires
            old(self).wf(),
            old(self).remaining().len() >= 1,
        ensures
            final(self).wf(),
            b == old(self).remaining()[0],
            final(self).remaining() == old(self).remaining().skip(1),
    {
        proof {
            assert(self.pos < self.buf.len());
        }
        let b = self.buf[self.pos];
        self.pos = self.pos + 1;
        proof {
            assert(self.remaining() =~= old(self).remaining().skip(1));
        }
        b
    }

    /// Consumes the next `n` bytes and returns them as a fresh vector.
    pub fn read_bytes(&mut self, n: usize) -> (out: Vec<u8>)
        requires
            old(self).wf(),
            n <= old(self).remaining().len(),
        ensures
            final(self).wf(),
            out@ == old(self).remaining().take(n as int),
            final(self).remaining() == old(self).remaining().skip(n as int),
    {
        let mut out: Vec<u8> = Vec::new();
        let mut i: usize = 0;
        while i < n
            invariant
                self == old(self),
                old(self).wf(),
                n <= old(self).remaining().len(),
                i <= n,
                out@ == old(self).remaining().take(n as int).take(i as int),
            decreases n - i,
        {
            proof {
                assert(self.pos + i < self.buf.len());
            }
            out.push(self.buf[self.pos + i]);
            i = i + 1;
            proof {
                assert(out@ =~= old(self).remaining().take(n as int).take(i as int));
            }
        }
        proof {
            assert(self.pos + n <= self.buf.len());
        }
        self.pos = self.pos + n;
        proof {
            assert(out@ =~= old(self).remaining().take(n as int));
            assert(self.remaining() =~= old(self).remaining().skip(n as int));
        }
        out
    }

    /// Consumes all remaining bytes and returns them as a fresh vector.
    pub fn read_rest(&mut self) -> (out: Vec<u8>)
        requires
            old(self).wf(),
        ensures
            final(self).wf(),
            out@ == old(self).remaining(),
            final(self).remaining().len() == 0,
    {
        let n = self.remaining_len();
        let out = self.read_bytes(n);
        proof {
            assert(out@ =~= old(self).remaining());
        }
        out
    }

    /// Skips the next `n` bytes without looking at them.
    pub fn advance(&mut self, n: usize)
        requires
            old(self).wf(),
            n <= old(self).remaining().len(),
        ensures
            final(self).wf(),
            final(self).remaining() == old(self).remaining().skip(n as int),
    {
        proof {
            assert(self.pos + n <= self.buf.len());
        }
        self.pos = self.pos + n;
        proof {
            assert(self.remaining() =~= old(self).remaining().skip(n as int));
        }
    }
}

} // verus!
