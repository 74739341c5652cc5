//! A general-purpose buffer for networking: bytes with a position for reading and writing.

use vstd::prelude::*;
use crate::util::{read_into, readable};

verus! {

/// The largest message body.
pub const MAX_MESSAGE: usize = 1450;

/// The size of a packet header.
pub const HEADER_SIZE: usize = 8;

/// `b` after writing `data` at `p`: the bytes before `p`, zeros up to `p` where `b` ends
/// before it, `data`, and the bytes of `b` after it.
pub open spec fn write_at(b: Seq<u8>, p: int, data: Seq<u8>) -> Seq<u8> {
    let end = p + data.len();
    let len = if end > b.len() { end } else { b.len() as int };
    Seq::new(
        len as nat,
        |k: int|
            if k < p {
                if k < b.len() { b[k] } else { 0u8 }
            } else if k < end {
                data[k - p]
            } else {
                b[k]
            },
    )
}

/// Reading at a position gives back the bytes just written there.
pub proof fn lemma_read_after_write(b: Seq<u8>, p: nat, data: Seq<u8>, out: Seq<u8>)
    requires
        out.len() == data.len(),
    ensures
        readable(write_at(b, p as int, data), p as int, out.len() as int) == data.len(),
        read_into(out, write_at(b, p as int, data), p as int) == data,
{
    assert(read_into(out, write_at(b, p as int, data), p as int) =~= data);
}

/// Bytes with a position, from which reading and at which writing go on.
pub struct NetworkBuffer {
    buf: Vec<u8>,
    pos: u64,
}

impl NetworkBuffer {
    /// The bytes.
    pub closed spec fn bytes(&self) -> Seq<u8> {
        self.buf@
    }

    /// The position.
    pub closed spec fn pos(&self) -> nat {
        self.pos as nat
    }

    /// An empty buffer at position zero, with room for a header and a message.
    pub fn new() -> (r: NetworkBuffer)
        ensures
            r.bytes() == Seq::<u8>::empty(),
            r.pos() == 0,
    {
        NetworkBuffer { buf: Vec::with_capacity(HEADER_SIZE + MAX_MESSAGE), pos: 0 }
    }

    /// Whether the buffer holds no bytes.
    pub fn is_empty(&self) -> (r: bool)
        ensures
            r == (self.bytes().len() == 0),
    {
        self.buf.len() == 0
    }

    /// Moves the position back to the start.
    pub fn rewind(&mut self)
        ensures
            final(self).bytes() == old(self).bytes(),
            final(self).pos() == 0,
    {
        self.pos = 0;
    }

    /// Removes all bytes and moves the position back to the start.
    pub fn clear(&mut self)
        ensures
            final(self).bytes() == Seq::<u8>::empty(),
            final(self).pos() == 0,
    {
        self.buf.clear();
        self.pos = 0;
    }

    /// The bytes.
    pub fn get_ref(&self) -> (r: &[u8])
        ensures
            r@ == self.bytes(),
    {
        self.buf.as_slice()
    }

    /// The bytes, to be changed in place.
    pub fn get_mut(&mut self) -> (r: &mut [u8])
        ensures
            r@ == old(self).bytes(),
            final(self).bytes() == final(r)@,
            final(self).pos() == old(self).pos(),
    {
        self.buf.as_mut_slice()
    }

    /// The position.
    pub fn position(&self) -> (r: u64)
        ensures
            r == self.pos(),
    {
        self.pos
    }

    /// Reads as many bytes as `out` holds, or as remain after the position if fewer, into the
    /// start of `out`, moves the position past them, and gives their number.
    pub fn read(&mut self, out: &mut [u8]) -> (r: usize)
        ensures
            final(self).bytes() == old(self).bytes(),
            r == readable(old(self).bytes(), old(self).pos() as int, old(out)@.len() as int),
            final(out)@ == read_into(old(out)@, old(self).bytes(), old(self).pos() as int),
            final(self).pos() == old(self).pos() + r,
    {
        let len = self.buf.len();
        let rest: usize = if self.pos < len as u64 {
            len - self.pos as usize
        } else {
            0
        };
        let n = if out.len() < rest {
            out.len()
        } else {
            rest
        };
        let start = self.pos as usize;
        let mut i: usize = 0;
        while i < n
            invariant
                len == self.buf@.len(),
                n <= out@.len(),
                n == 0 || (start == self.pos && start + n <= len),
                i <= n,
                out@.len() == old(out)@.len(),
                forall|k: int| 0 <= k < i ==> #[trigger] out@[k] == self.buf@[start + k],
                forall|k: int| i <= k < out@.len() ==> #[trigger] out@[k] == old(out)@[k],
            decreases n - i,
        {
            out[i] = self.buf[start + i];
            i = i + 1;
        }
        assert(out@ =~= read_into(old(out)@, self.buf@, self.pos as int));
        self.pos = self.pos + n as u64;
        n
    }

    /// Writes `data` at the position, over the bytes there and past the end, the gap up to the
    /// position filled with zeros where the position lies past the end; moves the position past
    /// it and gives its length.
    pub fn write(&mut self, data: &[u8]) -> (r: usize)
        requires
            old(self).pos() + data@.len() <= usize::MAX,
        ensures
            r == data@.len(),
            final(self).pos() == old(self).pos() + data@.len(),
            final(self).bytes() == write_at(old(self).bytes(), old(self).pos() as int, data@),
    {
        let ghost b = self.buf@;
        let p = self.pos as usize;
        if self.buf.len() < p {
            while self.buf.len() < p
                invariant
                    b.len() <= self.buf@.len() <= p,
                    forall|k: int| 0 <= k < b.len() ==> #[trigger] self.buf@[k] == b[k],
                    forall|k: int| b.len() <= k < self.buf@.len() ==> #[trigger] self.buf@[k] == 0,
                    self.pos == p,
                decreases p - self.buf@.len(),
            {
                self.buf.push(0);
            }
        }
        let mut i: usize = 0;
        while i < data.len()
            invariant
                p + data@.len() <= usize::MAX,
                i <= data@.len(),
                self.buf@.len() >= p + i,
                self.buf@.len() == if p + i > b.len() { p + i } else if p > b.len() { p as int } else { b.len() as int },
                forall|k: int| 0 <= k < p && k < b.len() ==> #[trigger] self.buf@[k] == b[k],
                forall|k: int| b.len() <= k < p ==> #[trigger] self.buf@[k] == 0,
                forall|k: int| 0 <= k < i ==> #[trigger] self.buf@[p + k] == data@[k],
                forall|k: int| p + i <= k < b.len() ==> #[trigger] self.buf@[k] == b[k],
                self.pos == p,
            decreases data@.len() - i,
        {
            if p + i < self.buf.len() {
                self.buf.set(p + i, data[i]);
            } else {
                self.buf.push(data[i]);
            }
            i = i + 1;
        }
        assert forall|k: int| 0 <= k < self.buf@.len() implies #[trigger] self.buf@[k] == write_at(b, p as int, data@)[k] by {
            if p <= k < p + data@.len() {
                assert(self.buf@[p + (k - p)] == data@[k - p]);
            }
        }
        assert(self.buf@ =~= write_at(b, p as int, data@));
        self.pos = self.pos + data.len() as u64;
        data.len()
    }
}

} // verus!
