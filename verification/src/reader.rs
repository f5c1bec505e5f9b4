//! The bytes that have arrived and are not yet taken up.

use vstd::prelude::*;
use vstd::slice::slice_subrange;

verus! {

/// Bytes received from the peer, with a mark behind the last byte that was
/// taken up. The functions that receive frames read behind the mark and
/// move it on.
pub struct ByteReader {
    data: Vec<u8>,
    pos: usize,
}

impl ByteReader {
    #[verifier::type_invariant]
    spec fn inv(self) -> bool {
        self.pos <= self.data@.len()
    }

    /// The bytes not yet taken up.
    pub closed spec fn remaining(&self) -> Seq<u8> {
        self.data@.skip(self.pos as int)
    }

    /// A reader over `data`, none of it taken up.
    pub fn new(data: Vec<u8>) -> (r: ByteReader)
        ensures
            r.remaining() == data@,
    {
        assert(data@.skip(0) =~= data@);
        ByteReader { data, pos: 0 }
    }

    /// The bytes not yet taken up.
    pub fn rest(&self) -> (s: &[u8])
        ensures
            s@ == self.remaining(),
    {
        proof {
            use_type_invariant(self);
        }
        let all = self.data.as_slice();
        let s = slice_subrange(all, self.pos, all.len());
        assert(s@ =~= self.remaining());
        s
    }

    /// Number of bytes not yet taken up.
    pub fn remaining_len(&self) -> (n: usize)
        ensures
            n == self.remaining().len(),
    {
        proof {
            use_type_invariant(self);
        }
        self.data.len() - self.pos
    }

    /// Takes up the next `n` bytes.
    pub fn advance(&mut self, n: usize)
        requires
            n <= old(self).remaining().len(),
        ensures
            final(self).remaining() == old(self).remaining().skip(n as int),
    {
        proof {
            use_type_invariant(&*self);
        }
        let len: usize = self.data.len();
        assert(self.data@.skip(self.pos as int).skip(n as int) =~= self.data@.skip(self.pos + n));
        self.pos = self.pos + n;
    }

    /// Adds bytes that have arrived behind those already there. The bytes
    /// that were taken up are let go.
    pub fn feed(&mut self, more: &[u8])
        ensures
            final(self).remaining() == old(self).remaining() + more@,
    {
        let mut data: Vec<u8> = Vec::new();
        data.extend_from_slice(self.rest());
        data.extend_from_slice(more);
        assert(data@.skip(0) =~= old(self).remaining() + more@);
        *self = ByteReader { data, pos: 0 };
    }
}

} // verus!
