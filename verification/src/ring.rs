//! The fixed-capacity circular byte store shared by the two endpoints.

use vstd::prelude::*;

verus! {

/// Number of bytes the ring buffer can hold.
pub const BUFSIZE: usize = 1024;

/// A circular byte buffer of `BUFSIZE` slots.
///
/// `head` is the next slot to write, `tail` the next slot to read. When the two
/// are equal, `full` tells a buffer that holds `BUFSIZE` bytes from one that
/// holds none.
pub struct ShmemMessage {
    buf: [u8; BUFSIZE],
    head: usize,
    tail: usize,
    full: bool,
}

/// The smaller of two lengths.
pub open spec fn min_len(a: int, b: int) -> int {
    if a <= b {
        a
    } else {
        b
    }
}

/// How many bytes of `data` a buffer that queues `queued` takes in one write:
/// all of them, or as many as there are free slots.
pub open spec fn accepted(queued: Seq<u8>, data: Seq<u8>) -> int {
    min_len(data.len() as int, BUFSIZE - queued.len())
}

/// The queue after one write of `data`: the accepted bytes follow those that
/// were queued before.
pub open spec fn after_write(queued: Seq<u8>, data: Seq<u8>) -> Seq<u8> {
    queued + data.subrange(0, accepted(queued, data))
}

/// The storage after `data` was stored slot by slot from slot `head` on,
/// going back to slot 0 behind the last one: the slot at distance `k` from
/// `head` holds byte `k` of `data`, and every slot beyond those keeps its byte.
pub open spec fn stored(storage: Seq<u8>, head: int, data: Seq<u8>) -> Seq<u8> {
    Seq::new(
        storage.len(),
        |i: int|
            {
                let k = (i - head + BUFSIZE) % (BUFSIZE as int);
                if k < data.len() {
                    data[k]
                } else {
                    storage[i]
                }
            },
    )
}

/// How many bytes a buffer that queues `queued` gives to a destination with
/// `room` slots: all of them, or as many as the destination takes.
pub open spec fn released(queued: Seq<u8>, room: int) -> int {
    min_len(room, queued.len() as int)
}

/// The queue after one read into a destination with `room` slots: the oldest
/// bytes are gone, the others keep their order.
pub open spec fn after_read(queued: Seq<u8>, room: int) -> Seq<u8> {
    queued.subrange(released(queued, room), queued.len() as int)
}

/// The destination after one read: the released bytes at its front, oldest
/// first, and behind them what it held before.
pub open spec fn read_into(queued: Seq<u8>, out: Seq<u8>) -> Seq<u8> {
    queued.subrange(0, released(queued, out.len() as int)) + out.subrange(
        released(queued, out.len() as int),
        out.len() as int,
    )
}

impl ShmemMessage {
    /// Both indices lie inside the storage, and a full buffer has them equal.
    pub closed spec fn wf(&self) -> bool {
        &&& self.head < BUFSIZE
        &&& self.tail < BUFSIZE
        &&& self.full ==> self.head == self.tail
    }

    /// Index of the next slot to write.
    pub closed spec fn head_index(&self) -> int {
        self.head as int
    }

    /// Index of the next slot to read.
    pub closed spec fn tail_index(&self) -> int {
        self.tail as int
    }

    /// The flag that tells full from empty when the indices meet.
    pub closed spec fn full_flag(&self) -> bool {
        self.full
    }

    /// The raw storage, slot by slot.
    pub closed spec fn storage(&self) -> Seq<u8> {
        self.buf@
    }

    /// Number of bytes queued.
    pub open spec fn count(&self) -> nat {
        if self.full_flag() {
            BUFSIZE as nat
        } else if self.head_index() >= self.tail_index() {
            (self.head_index() - self.tail_index()) as nat
        } else {
            (BUFSIZE - self.tail_index() + self.head_index()) as nat
        }
    }

    /// The queued bytes, oldest first.
    pub open spec fn view(&self) -> Seq<u8> {
        Seq::new(self.count(), |i: int| self.storage()[(self.tail_index() + i) % (BUFSIZE as int)])
    }

    /// No byte is queued.
    pub open spec fn is_empty(&self) -> bool {
        !self.full_flag() && self.head_index() == self.tail_index()
    }

    /// What the well-formedness predicate means for the indices and the view.
    pub proof fn lemma_wf(&self)
        requires
            self.wf(),
        ensures
            0 <= self.head_index() < BUFSIZE,
            0 <= self.tail_index() < BUFSIZE,
            self.full_flag() ==> self.head_index() == self.tail_index(),
            self.storage().len() == BUFSIZE,
            self@.len() == self.count(),
            self@.len() <= BUFSIZE,
            self.head_index() == (self.tail_index() + self@.len()) % (BUFSIZE as int),
            self.full_flag() <==> self@.len() == BUFSIZE,
            self.is_empty() <==> self@.len() == 0,
    {
    }

    /// A buffer with no byte queued, both indices at slot 0 and every slot zero.
    pub fn new() -> (ring: Self)
        ensures
            ring.wf(),
            ring@ == Seq::<u8>::empty(),
            ring.head_index() == 0,
            ring.tail_index() == 0,
            !ring.full_flag(),
            ring.storage() == Seq::new(BUFSIZE as nat, |i: int| 0u8),
    {
        let ring = ShmemMessage { buf: [0; BUFSIZE], head: 0, tail: 0, full: false };
        assert(ring.buf@ =~= Seq::new(BUFSIZE as nat, |i: int| 0u8));
        assert(ring@ =~= Seq::<u8>::empty());
        ring
    }

    /// Puts the buffer into its initial state, whatever it held before: no byte
    /// queued, both indices at slot 0, every slot zero.
    pub fn init(&mut self)
        ensures
            final(self).wf(),
            final(self)@ == Seq::<u8>::empty(),
            final(self).head_index() == 0,
            final(self).tail_index() == 0,
            !final(self).full_flag(),
            final(self).storage() == Seq::new(BUFSIZE as nat, |i: int| 0u8),
    {
        self.buf = [0; BUFSIZE];
        self.head = 0;
        self.tail = 0;
        self.full = false;
        assert(self.buf@ =~= Seq::new(BUFSIZE as nat, |i: int| 0u8));
        assert(self@ =~= Seq::<u8>::empty());
    }

    /// Tells whether the indices and the flag describe a buffer that `write`
    /// and `read` can work on.
    pub fn is_valid(&self) -> (ok: bool)
        ensures
            ok == self.wf(),
    {
        self.head < BUFSIZE && self.tail < BUFSIZE && (!self.full || self.head == self.tail)
    }

    /// Tells whether every slot is taken.
    pub fn full(&self) -> (b: bool)
        ensures
            b == self.full_flag(),
            self.wf() ==> (b <==> self@.len() == BUFSIZE),
    {
        self.full
    }

    /// Tells whether no byte is queued.
    pub fn empty(&self) -> (b: bool)
        ensures
            b == self.is_empty(),
            self.wf() ==> (b <==> self@.len() == 0),
    {
        !self.full && (self.head == self.tail)
    }

    /// Accounts for one byte that was stored at the head slot.
    ///
    /// The head moves one slot on. On a full buffer the tail moves with it, so
    /// that the oldest byte gives way to the new one.
    fn advance(&mut self)
        requires
            old(self).wf(),
        ensures
            final(self).wf(),
            final(self).storage() == old(self).storage(),
            final(self).head_index() == (old(self).head_index() + 1) % (BUFSIZE as int),
            final(self).tail_index() == if old(self).full_flag() {
                (old(self).tail_index() + 1) % (BUFSIZE as int)
            } else {
                old(self).tail_index()
            },
            final(self).full_flag() == (final(self).head_index() == final(self).tail_index()),
            !old(self).full_flag() ==> final(self)@ == old(self)@.push(
                old(self).storage()[old(self).head_index()],
            ),
            old(self).full_flag() ==> final(self)@ == old(self)@.drop_first().push(
                old(self).storage()[old(self).head_index()],
            ),
    {
        if self.full() {
            self.tail = (self.tail + 1) % BUFSIZE;
        }
        self.head = (self.head + 1) % BUFSIZE;
        self.full = self.head == self.tail;
        proof {
            if old(self).full_flag() {
                assert(self@ =~= old(self)@.drop_first().push(
                    old(self).storage()[old(self).head_index()],
                ));
            } else {
                assert(self@ =~= old(self)@.push(old(self).storage()[old(self).head_index()]));
            }
        }
    }

    /// Accounts for one byte that was taken from the tail slot: the buffer is no
    /// longer full and the tail moves one slot on.
    fn retreat(&mut self)
        requires
            old(self).wf(),
        ensures
            final(self).wf(),
            final(self).storage() == old(self).storage(),
            final(self).head_index() == old(self).head_index(),
            final(self).tail_index() == (old(self).tail_index() + 1) % (BUFSIZE as int),
            !final(self).full_flag(),
            !old(self).is_empty() ==> final(self)@ == old(self)@.drop_first(),
    {
        self.full = false;
        self.tail = (self.tail + 1) % BUFSIZE;
        proof {
            if !old(self).is_empty() {
                assert(self@ =~= old(self)@.drop_first());
            }
        }
    }

    /// Queues bytes of `data`, first to last, until the buffer is full or
    /// `data` is used up, and returns how many were queued. The bytes go into
    /// the slots from the head on; no other slot changes, and a write that
    /// queues nothing leaves the buffer as it was.
    pub fn write(&mut self, data: &[u8]) -> (written: usize)
        requires
            old(self).wf(),
        ensures
            final(self).wf(),
            written == accepted(old(self)@, data@),
            final(self)@ == after_write(old(self)@, data@),
            final(self).tail_index() == old(self).tail_index(),
            final(self).head_index() == (old(self).head_index() + written) % (BUFSIZE as int),
            final(self).storage() == stored(
                old(self).storage(),
                old(self).head_index(),
                data@.subrange(0, written as int),
            ),
            written == 0 ==> *final(self) == *old(self),
    {
        let mut written: usize = 0;
        while !self.full() && written < data.len()
            invariant
                self.wf(),
                old(self).wf(),
                written <= data@.len(),
                written + old(self)@.len() <= BUFSIZE,
                self@ == old(self)@ + data@.subrange(0, written as int),
                self.tail_index() == old(self).tail_index(),
                self.head_index() == (old(self).head_index() + written) % (BUFSIZE as int),
                self.storage() == stored(
                    old(self).storage(),
                    old(self).head_index(),
                    data@.subrange(0, written as int),
                ),
                written == 0 ==> *self == *old(self),
            decreases data@.len() - written,
        {
            let ghost before = *self;
            self.buf[self.head] = data[written];
            proof {
                Self::lemma_slot_filled(before, *self, data@[written as int]);
                Self::lemma_stored_one_more(
                    old(self).storage(),
                    old(self).head_index(),
                    data@,
                    written as int,
                );
            }
            self.advance();
            proof {
                Self::lemma_queued_one_more(old(self)@, data@, written as int);
            }
            written += 1;
        }
        written
    }

    /// Storing a byte in the head slot of a buffer that is not full changes
    /// nothing that is queued.
    proof fn lemma_slot_filled(before: Self, after: Self, byte: u8)
        requires
            before.wf(),
            !before.full,
            after.head == before.head,
            after.tail == before.tail,
            after.full == before.full,
            after.buf@ == before.buf@.update(before.head as int, byte),
        ensures
            after.wf(),
            after@ == before@,
            after.storage() == before.storage().update(before.head_index(), byte),
            after.storage()[after.head_index()] == byte,
    {
        assert(after@ =~= before@);
    }

    /// The storage that holds the first `n` bytes of `data` from `head` on,
    /// with byte `n` stored in the next slot, holds the first `n + 1` bytes.
    proof fn lemma_stored_one_more(storage: Seq<u8>, head: int, data: Seq<u8>, n: int)
        requires
            storage.len() == BUFSIZE,
            0 <= head < BUFSIZE,
            0 <= n < data.len(),
            n < BUFSIZE,
        ensures
            stored(storage, head, data.subrange(0, n)).update(
                (head + n) % (BUFSIZE as int),
                data[n],
            ) == stored(storage, head, data.subrange(0, n + 1)),
    {
        let slot = (head + n) % (BUFSIZE as int);
        let left = stored(storage, head, data.subrange(0, n)).update(slot, data[n]);
        let right = stored(storage, head, data.subrange(0, n + 1));
        assert forall|i: int| 0 <= i < BUFSIZE implies left[i] == right[i] by {
            let k = (i - head + BUFSIZE) % (BUFSIZE as int);
            if i == slot {
                assert(k == n);
            } else {
                assert(k != n);
            }
        }
        assert(left =~= right);
    }

    /// The queue that ends in the first `n` bytes of `data`, with byte `n`
    /// pushed behind them, ends in the first `n + 1` bytes.
    proof fn lemma_queued_one_more(queued: Seq<u8>, data: Seq<u8>, n: int)
        requires
            0 <= n < data.len(),
        ensures
            (queued + data.subrange(0, n)).push(data[n]) == queued + data.subrange(0, n + 1),
    {
        assert((queued + data.subrange(0, n)).push(data[n]) =~= queued + data.subrange(0, n + 1));
    }

    /// Takes queued bytes, oldest first, into the front of `buf` until the
    /// buffer is empty or `buf` is filled, and returns how many were taken.
    pub fn read(&mut self, buf: &mut [u8]) -> (taken: usize)
        requires
            old(self).wf(),
        ensures
            final(self).wf(),
            taken == released(old(self)@, old(buf)@.len() as int),
            final(buf)@ == read_into(old(self)@, old(buf)@),
            final(self)@ == after_read(old(self)@, old(buf)@.len() as int),
            final(self).head_index() == old(self).head_index(),
            final(self).storage() == old(self).storage(),
    {
        let mut taken: usize = 0;
        while !self.empty() && taken < buf.len()
            invariant
                self.wf(),
                buf@.len() == old(buf)@.len(),
                taken <= buf@.len(),
                taken <= old(self)@.len(),
                buf@ == old(self)@.subrange(0, taken as int) + old(buf)@.subrange(
                    taken as int,
                    old(buf)@.len() as int,
                ),
                self@ == old(self)@.subrange(taken as int, old(self)@.len() as int),
                self.head_index() == old(self).head_index(),
                self.storage() == old(self).storage(),
            decreases buf@.len() - taken,
        {
            buf[taken] = self.buf[self.tail];
            proof {
                assert(self.buf@[self.tail as int] == self@[0]);
            }
            self.retreat();
            taken += 1;
            proof {
                assert(buf@ =~= old(self)@.subrange(0, taken as int) + old(buf)@.subrange(
                    taken as int,
                    old(buf)@.len() as int,
                ));
                assert(self@ =~= old(self)@.subrange(taken as int, old(self)@.len() as int));
            }
        }
        taken
    }
}

} // verus!
