//! The reader's staging cache: one drain of the ring buffer per lock, served
//! to the consumer piece by piece.

use vstd::prelude::*;
use crate::ring::{after_read, read_into, released, ShmemMessage, BUFSIZE};

verus! {

/// A staging buffer as large as the ring buffer, private to one endpoint.
///
/// The bytes between `head` and `tail` were drained from the ring buffer and
/// not yet handed to the consumer.
pub struct ShmemCache {
    buf: [u8; BUFSIZE],
    head: usize,
    tail: usize,
}

/// What the driver of a read has to do after the cache has served it.
#[derive(Clone, Copy, Debug, PartialEq, Eq, Structural)]
pub enum ReadAction {
    /// The destination is filled: the read is over.
    Finished,
    /// The cache is used up and the destination is not filled: lock the ring
    /// buffer, refill the cache from it, and serve again.
    Refill,
}

/// The destination after the cache has served it from position `pos`: the
/// staged bytes, oldest first, take the slots from `pos` on, as far as both
/// reach; every other slot keeps what it held.
pub open spec fn serve_into(staged: Seq<u8>, out: Seq<u8>, pos: int) -> Seq<u8> {
    let k = released(staged, out.len() - pos);
    out.subrange(0, pos) + staged.subrange(0, k) + out.subrange(pos + k, out.len() as int)
}

impl ShmemCache {
    /// The two offsets are in order and inside the buffer.
    pub closed spec fn wf(&self) -> bool {
        self.head <= self.tail <= BUFSIZE
    }

    /// The staged bytes, oldest first.
    pub closed spec fn view(&self) -> Seq<u8> {
        self.buf@.subrange(self.head as int, self.tail as int)
    }

    /// A cache that stages nothing, with both offsets at 0 and every slot zero.
    pub fn new() -> (cache: Self)
        ensures
            cache.wf(),
            cache@ == Seq::<u8>::empty(),
            cache.head_offset() == 0,
            cache.tail_offset() == 0,
            cache.storage() == Seq::new(BUFSIZE as nat, |i: int| 0u8),
    {
        let cache = ShmemCache { buf: [0; BUFSIZE], head: 0, tail: 0 };
        assert(cache@ =~= Seq::<u8>::empty());
        assert(cache.buf@ =~= Seq::new(BUFSIZE as nat, |i: int| 0u8));
        cache
    }

    /// Copies staged bytes into `out` from position `pos` on, until `out` is
    /// filled or the cache is used up, and returns the position reached and
    /// what to do next. The head offset moves past the bytes copied; the tail
    /// offset and the staging buffer stay as they are.
    pub fn serve(&mut self, out: &mut [u8], pos: usize) -> (step: (usize, ReadAction))
        requires
            old(self).wf(),
            pos <= old(out)@.len(),
        ensures
            final(self).wf(),
            step.0 == pos + released(old(self)@, old(out)@.len() - pos),
            final(out)@ == serve_into(old(self)@, old(out)@, pos as int),
            final(self)@ == after_read(old(self)@, old(out)@.len() - pos),
            final(self).head_offset() == old(self).head_offset() + released(
                old(self)@,
                old(out)@.len() - pos,
            ),
            final(self).tail_offset() == old(self).tail_offset(),
            final(self).storage() == old(self).storage(),
            step.1 == (if step.0 == old(out)@.len() {
                ReadAction::Finished
            } else {
                ReadAction::Refill
            }),
    {
        let mut at: usize = pos;
        while self.head != self.tail && at < out.len()
            invariant
                self.wf(),
                out@.len() == old(out)@.len(),
                pos <= at <= out@.len(),
                self.buf == old(self).buf,
                self.tail == old(self).tail,
                self.head == old(self).head + (at - pos),
                out@ == old(out)@.subrange(0, pos as int) + old(self)@.subrange(0, at - pos)
                    + old(out)@.subrange(at as int, old(out)@.len() as int),
            decreases out@.len() - at,
        {
            out[at] = self.buf[self.head];
            self.head += 1;
            at += 1;
            proof {
                assert(out@ =~= old(out)@.subrange(0, pos as int) + old(self)@.subrange(0, at - pos)
                    + old(out)@.subrange(at as int, old(out)@.len() as int));
            }
        }
        proof {
            assert(self@ =~= after_read(old(self)@, old(out)@.len() - pos));
        }
        if at == out.len() {
            (at, ReadAction::Finished)
        } else {
            (at, ReadAction::Refill)
        }
    }

    /// Drains the ring buffer into the cache and returns how many bytes came.
    /// They lie at the start of the staging buffer: the head offset is 0 and
    /// the tail offset is their count.
    ///
    /// What the cache staged before is dropped, so a reader refills only a
    /// cache that is used up. A result of 0 says that the ring buffer was
    /// empty: the reader has to wait for the writer.
    pub fn refill(&mut self, ring: &mut ShmemMessage) -> (count: usize)
        requires
            old(ring).wf(),
        ensures
            final(self).wf(),
            final(ring).wf(),
            count == old(ring)@.len(),
            final(self)@ == old(ring)@,
            final(self).head_offset() == 0,
            final(self).tail_offset() == count,
            final(self).storage() == read_into(old(ring)@, old(self).storage()),
            final(ring)@ == Seq::<u8>::empty(),
            final(ring).head_index() == old(ring).head_index(),
            final(ring).storage() == old(ring).storage(),
    {
        proof {
            ring.lemma_wf();
        }
        let ghost staged = self.buf@;
        let count: usize = ring.read(&mut self.buf);
        self.head = 0;
        self.tail = count;
        proof {
            assert(self.buf@ == read_into(old(ring)@, staged));
            assert(self@ =~= old(ring)@);
            assert(ring@ =~= Seq::<u8>::empty());
        }
        count
    }

    /// Offset of the oldest staged byte.
    pub closed spec fn head_offset(&self) -> int {
        self.head as int
    }

    /// Offset behind the newest staged byte.
    pub closed spec fn tail_offset(&self) -> int {
        self.tail as int
    }

    /// The staging buffer, slot by slot.
    pub closed spec fn storage(&self) -> Seq<u8> {
        self.buf@
    }

    /// What the well-formedness predicate means for the offsets, and what the
    /// staged bytes are in terms of the staging buffer.
    pub proof fn lemma_wf(&self)
        requires
            self.wf(),
        ensures
            0 <= self.head_offset() <= self.tail_offset() <= BUFSIZE,
            self.storage().len() == BUFSIZE,
            self@ == self.storage().subrange(self.head_offset(), self.tail_offset()),
            self@.len() == self.tail_offset() - self.head_offset(),
    {
    }
}

} // verus!
