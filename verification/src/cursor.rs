//! A sequential, forward-only byte source.
//!
//! Every later stage of the decoder pulls its bytes from a [`ByteCursor`];
//! a read either yields exactly the requested bytes or reports that the
//! source is exhausted, and the cursor never moves backwards.

use vstd::prelude::*;

verus! {

use vstd::bytes::{spec_u32_from_le_bytes, u32_from_le_bytes};

/// The signed 32-bit value whose two's-complement pattern is `v`.
pub open spec fn spec_i32_of_u32(v: u32) -> i32 {
    if v < 0x8000_0000 {
        v as i32
    } else {
        (v - 0x1_0000_0000) as i32
    }
}

/// The little-endian signed 32-bit integer stored in the first four bytes of `b`.
pub open spec fn spec_i32_le(b: Seq<u8>) -> i32
    recommends
        b.len() >= 4,
{
    spec_i32_of_u32(spec_u32_from_le_bytes(b.take(4)))
}

/// A forward-only cursor over an in-memory byte buffer.
pub struct ByteCursor {
    data: Vec<u8>,
    pos: usize,
}

impl ByteCursor {
    /// The position never runs past the end of the buffer.
    pub closed spec fn wf(self) -> bool {
        self.pos <= self.data@.len()
    }

    /// The bytes that have not been consumed yet.
    pub closed spec fn remaining(self) -> Seq<u8> {
        self.data@.skip(self.pos as int)
    }

    pub fn new(data: Vec<u8>) -> (c: ByteCursor)
        ensures
            c.wf(),
            c.remaining() == data@,
    {
        let c = ByteCursor { data, pos: 0 };
        proof {
            assert(c.remaining() =~= c.data@);
        }
        c
    }

    /// Reads exactly `n` bytes, or reports exhaustion and consumes nothing.
    pub fn read_bytes(&mut self, n: usize) -> (r: Option<Vec<u8>>)
        requires
            old(self).wf(),
        ensures
            final(self).wf(),
            old(self).remaining().len() >= n ==> {
                &&& r matches Some(v) && v@ == old(self).remaining().take(n as int)
                &&& final(self).remaining() == old(self).remaining().skip(n as int)
            },
            old(self).remaining().len() < n ==> {
                &&& r is None
                &&& final(self).remaining() == old(self).remaining()
            },
    {
        let dlen = self.data.len();
        if n > dlen - self.pos {
            return None;
        }
        let mut out: Vec<u8> = Vec::new();
        let mut i: usize = 0;
        while i < n
            invariant
                self.wf(),
                i <= n,
                dlen == self.data@.len(),
                self.pos + n <= dlen,
                out@ == self.remaining().take(i as int),
            decreases n - i,
        {
            let b = self.data[self.pos + i];
            out.push(b);
            proof {
                assert(out@ =~= self.remaining().take(i + 1));
            }
            i = i + 1;
        }
        proof {
            assert(self.remaining().skip(n as int) =~= self.data@.skip(
                (self.pos + n) as int,
            ));
        }
        self.pos = self.pos + n;
        Some(out)
    }

    /// Reads one byte.
    pub fn read_byte(&mut self) -> (r: Option<u8>)
        requires
            old(self).wf(),
        ensures
            final(self).wf(),
            old(self).remaining().len() >= 1 ==> {
                &&& r matches Some(b) && b == old(self).remaining()[0]
                &&& final(self).remaining() == old(self).remaining().skip(1)
            },
            old(self).remaining().len() == 0 ==> {
                &&& r is None
                &&& final(self).remaining() == old(self).remaining()
            },
    {
        match self.read_bytes(1) {
            Some(v) => Some(v[0]),
            None => None,
        }
    }

    /// Reads a little-endian unsigned 32-bit integer.
    pub fn read_u32_le(&mut self) -> (r: Option<u32>)
        requires
            old(self).wf(),
        ensures
            final(self).wf(),
            old(self).remaining().len() >= 4 ==> {
                &&& r matches Some(v) && v == spec_u32_from_le_bytes(
                    old(self).remaining().take(4),
                )
                &&& final(self).remaining() == old(self).remaining().skip(4)
            },
            old(self).remaining().len() < 4 ==> {
                &&& r is None
                &&& final(self).remaining() == old(self).remaining()
            },
    {
        match self.read_bytes(4) {
            Some(v) => Some(u32_from_le_bytes(v.as_slice())),
            None => None,
        }
    }

    /// Reads a little-endian signed 32-bit integer.
    pub fn read_i32_le(&mut self) -> (r: Option<i32>)
        requires
            old(self).wf(),
        ensures
            final(self).wf(),
            old(self).remaining().len() >= 4 ==> {
                &&& r matches Some(v) && v == spec_i32_le(old(self).remaining())
                &&& final(self).remaining() == old(self).remaining().skip(4)
            },
            old(self).remaining().len() < 4 ==> {
                &&& r is None
                &&& final(self).remaining() == old(self).remaining()
            },
    {
        match self.read_u32_le() {
            Some(u) => {
                if u >= 0x8000_0000 {
                    Some(((u as i64) - 0x1_0000_0000i64) as i32)
                } else {
                    Some(u as i32)
                }
            },
            None => None,
        }
    }
}

} // verus!
