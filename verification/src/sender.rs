//! The writer's side of a message: a payload that is spilled through the ring
//! buffer chunk by chunk, one chunk per lock.

use vstd::prelude::*;
use vstd::slice::slice_subrange;
use crate::ring::{accepted, after_write, stored, ShmemMessage, BUFSIZE};

verus! {

/// A payload on its way into the ring buffer, with the count of bytes that
/// are already queued there or have passed through.
pub struct SendCursor {
    data: Vec<u8>,
    pos: usize,
}

/// What the driver of a send has to do after a chunk was placed.
#[derive(Clone, Copy, Debug, PartialEq, Eq, Structural)]
pub enum SendAction {
    /// Every byte of the payload is placed: the send is over.
    Finished,
    /// The ring buffer is full and bytes remain: wait until the reader has
    /// made room, then lock the ring buffer and push again.
    WaitForSpace,
}

impl SendCursor {
    /// The count of placed bytes does not exceed the payload.
    pub closed spec fn wf(&self) -> bool {
        self.pos <= self.data@.len()
    }

    /// The whole payload.
    pub closed spec fn payload(&self) -> Seq<u8> {
        self.data@
    }

    /// How many bytes of the payload are placed.
    pub closed spec fn sent(&self) -> int {
        self.pos as int
    }

    /// The bytes that are still to be placed.
    pub open spec fn unsent(&self) -> Seq<u8> {
        self.payload().subrange(self.sent(), self.payload().len() as int)
    }

    /// What the well-formedness predicate means: the bytes placed are a
    /// prefix of the payload.
    pub proof fn lemma_wf(&self)
        requires
            self.wf(),
        ensures
            0 <= self.sent() <= self.payload().len(),
            self.unsent().len() == self.payload().len() - self.sent(),
            self.payload() == self.payload().subrange(0, self.sent()) + self.unsent(),
    {
        assert(self.payload() =~= self.payload().subrange(0, self.sent()) + self.unsent());
    }

    /// A cursor at the start of `data`.
    pub fn new(data: Vec<u8>) -> (cursor: Self)
        ensures
            cursor.wf(),
            cursor.payload() == data@,
            cursor.sent() == 0,
    {
        SendCursor { data, pos: 0 }
    }

    /// Tells whether the whole payload is placed, so that the ring buffer need
    /// not be locked again.
    pub fn is_done(&self) -> (done: bool)
        requires
            self.wf(),
        ensures
            done <==> self.sent() == self.payload().len(),
    {
        self.pos >= self.data.len()
    }

    /// Places the next chunk: queues as many of the unsent bytes as the ring
    /// buffer has room for, moves the cursor past them, and says what to do
    /// next.
    pub fn push(&mut self, ring: &mut ShmemMessage) -> (action: SendAction)
        requires
            old(self).wf(),
            old(ring).wf(),
        ensures
            final(self).wf(),
            final(ring).wf(),
            final(self).payload() == old(self).payload(),
            final(self).sent() == old(self).sent() + accepted(old(ring)@, old(self).unsent()),
            final(ring)@ == after_write(old(ring)@, old(self).unsent()),
            final(ring).tail_index() == old(ring).tail_index(),
            final(ring).storage() == stored(
                old(ring).storage(),
                old(ring).head_index(),
                old(self).unsent().subrange(0, accepted(old(ring)@, old(self).unsent())),
            ),
            action == (if final(self).sent() == final(self).payload().len() {
                SendAction::Finished
            } else {
                SendAction::WaitForSpace
            }),
            action == SendAction::WaitForSpace ==> final(ring)@.len() == BUFSIZE,
    {
        proof {
            ring.lemma_wf();
        }
        let rest = slice_subrange(self.data.as_slice(), self.pos, self.data.len());
        let written: usize = ring.write(rest);
        self.pos += written;
        if self.pos >= self.data.len() {
            SendAction::Finished
        } else {
            SendAction::WaitForSpace
        }
    }
}

} // verus!
