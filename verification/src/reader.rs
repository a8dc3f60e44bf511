//! Accumulating a request from fixed-size chunk reads.
//!
//! The surrounding application owns the socket and performs each read; the
//! reader decides, from the number of bytes a read returned, whether the
//! message is complete.  A read shorter than the chunk size (a zero-length
//! read included) ends the message: a short-read heuristic, not
//! length-aware framing.  A message whose length is an exact multiple of
//! the chunk size, arriving in full chunks, keeps the reader waiting for
//! the next read; only a short read or the peer closing ends it.

use vstd::prelude::*;

verus! {

/// How many bytes one read asks for.
pub const CHUNK_SIZE: usize = 512;

/// The buffer a connection's incoming bytes accumulate in, with the
/// decision whether more reads are due.
pub struct StreamReader {
    data: Vec<u8>,
    done: bool,
}

impl StreamReader {
    /// The bytes received so far.
    pub closed spec fn data_view(&self) -> Seq<u8> {
        self.data@
    }

    /// Whether the message is judged complete.
    pub closed spec fn is_done(&self) -> bool {
        self.done
    }

    /// An empty reader, ready for the first chunk.
    pub fn new() -> (r: StreamReader)
        ensures
            r.data_view() == Seq::<u8>::empty(),
            !r.is_done(),
    {
        StreamReader { data: Vec::new(), done: false }
    }

    /// Record one successful read: `chunk` holds `n` valid bytes, and only
    /// those are kept, never the padding behind them.  A read shorter than
    /// the chunk size, or of nothing at all, ends the message.
    pub fn feed(&mut self, chunk: &[u8], n: usize)
        requires
            !old(self).is_done(),
            n <= chunk@.len(),
        ensures
            final(self).data_view() == old(self).data_view() + chunk@.subrange(0, n as int),
            final(self).is_done() == (n < CHUNK_SIZE),
    {
        let mut i: usize = 0;
        while i < n
            invariant
                n <= chunk@.len(),
                0 <= i <= n,
                self.data@ == old(self).data@ + chunk@.subrange(0, i as int),
                self.done == old(self).done,
            decreases n - i,
        {
            let b = chunk[i];
            self.data.push(b);
            proof {
                assert(self.data@ =~= old(self).data@ + chunk@.subrange(0, i + 1));
            }
            i += 1;
        }
        if n < CHUNK_SIZE {
            self.done = true;
        }
    }

    /// Record a failed read: the message ends with whatever was buffered.
    pub fn feed_error(&mut self)
        ensures
            final(self).data_view() == old(self).data_view(),
            final(self).is_done(),
    {
        self.done = true;
    }

    /// Whether more reads are due.
    pub fn wants_more(&self) -> (r: bool)
        ensures
            r == !self.is_done(),
    {
        !self.done
    }

    /// Hand the accumulated bytes out.
    pub fn into_data(self) -> (r: Vec<u8>)
        ensures
            r@ == self.data_view(),
    {
        self.data
    }
}

} // verus!
