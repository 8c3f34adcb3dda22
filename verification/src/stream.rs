//! What the ring buffer, the sender's cursor and the reader's cache guarantee
//! together: the bytes arrive complete and in the order in which they were
//! sent.

use vstd::prelude::*;
use crate::reader::serve_into;
use crate::ring::{accepted, after_read, after_write, read_into, released, ShmemMessage, BUFSIZE};

verus! {

/// A write into an empty buffer of at least as many bytes as it has slots
/// takes exactly `BUFSIZE` of them, and a read into a destination of `BUFSIZE`
/// slots then returns exactly those bytes, in their order, and leaves the
/// buffer empty. Where the indices stand in the storage makes no difference.
pub proof fn lemma_fill_then_drain(data: Seq<u8>, out: Seq<u8>)
    requires
        data.len() >= BUFSIZE,
        out.len() == BUFSIZE,
    ensures
        accepted(Seq::<u8>::empty(), data) == BUFSIZE,
        after_write(Seq::<u8>::empty(), data) == data.subrange(0, BUFSIZE as int),
        released(after_write(Seq::<u8>::empty(), data), BUFSIZE as int) == BUFSIZE,
        read_into(after_write(Seq::<u8>::empty(), data), out) == data.subrange(0, BUFSIZE as int),
        after_read(after_write(Seq::<u8>::empty(), data), BUFSIZE as int) == Seq::<u8>::empty(),
{
    let filled = after_write(Seq::<u8>::empty(), data);
    assert(filled =~= data.subrange(0, BUFSIZE as int));
    assert(read_into(filled, out) =~= data.subrange(0, BUFSIZE as int));
    assert(after_read(filled, BUFSIZE as int) =~= Seq::<u8>::empty());
}

/// The two states in which head and tail meet are told apart. `filled` is an
/// empty buffer after a write of `BUFSIZE` bytes: it is full and not empty.
/// `drained` is that buffer after a read of `BUFSIZE` bytes: it is empty and
/// not full. In both the two indices are equal.
pub proof fn lemma_full_or_empty(
    start: ShmemMessage,
    filled: ShmemMessage,
    drained: ShmemMessage,
    data: Seq<u8>,
)
    requires
        start.wf(),
        filled.wf(),
        drained.wf(),
        start.is_empty(),
        data.len() == BUFSIZE,
        filled@ == after_write(start@, data),
        drained@ == after_read(filled@, BUFSIZE as int),
    ensures
        filled.full_flag(),
        !filled.is_empty(),
        filled.head_index() == filled.tail_index(),
        drained.is_empty(),
        !drained.full_flag(),
        drained.head_index() == drained.tail_index(),
{
    start.lemma_wf();
    filled.lemma_wf();
    drained.lemma_wf();
}

/// A write followed by a read gives back the oldest bytes first: what the
/// read released and what stays queued are, one after the other, what was
/// queued before and what the write accepted.
pub proof fn lemma_first_in_first_out(queued: Seq<u8>, data: Seq<u8>, room: int)
    requires
        queued.len() <= BUFSIZE,
        0 <= room,
    ensures
        ({
            let after = after_write(queued, data);
            after.subrange(0, released(after, room)) + after_read(after, room) == queued
                + data.subrange(0, accepted(queued, data))
        }),
{
    let after = after_write(queued, data);
    assert(after.subrange(0, released(after, room)) + after_read(after, room) =~= after);
}

/// The bytes of a payload that have left the sender are, in their order: those
/// that the consumer holds in `out` before position `pos`, then those that
/// the reader's cache stages, then those that the ring buffer queues.
pub open spec fn in_order(
    payload: Seq<u8>,
    sent: int,
    queued: Seq<u8>,
    staged: Seq<u8>,
    out: Seq<u8>,
    pos: int,
) -> bool {
    &&& 0 <= sent <= payload.len()
    &&& 0 <= pos <= out.len()
    &&& queued.len() <= BUFSIZE
    &&& out.subrange(0, pos) + staged + queued == payload.subrange(0, sent)
}

/// Before anything is sent the bytes are in order: nothing is queued, staged
/// or delivered.
pub proof fn lemma_in_order_at_start(payload: Seq<u8>, out: Seq<u8>)
    ensures
        in_order(payload, 0, Seq::<u8>::empty(), Seq::<u8>::empty(), out, 0),
{
    assert(out.subrange(0, 0) + Seq::<u8>::empty() + Seq::<u8>::empty() =~= payload.subrange(0, 0));
}

/// A chunk that the sender places keeps the bytes in order, however many
/// bytes the ring buffer had room for.
pub proof fn lemma_push_keeps_order(
    payload: Seq<u8>,
    sent: int,
    queued: Seq<u8>,
    staged: Seq<u8>,
    out: Seq<u8>,
    pos: int,
)
    requires
        in_order(payload, sent, queued, staged, out, pos),
    ensures
        ({
            let unsent = payload.subrange(sent, payload.len() as int);
            in_order(
                payload,
                sent + accepted(queued, unsent),
                after_write(queued, unsent),
                staged,
                out,
                pos,
            )
        }),
{
    let unsent = payload.subrange(sent, payload.len() as int);
    let n = accepted(queued, unsent);
    assert(out.subrange(0, pos) + staged + after_write(queued, unsent) =~= payload.subrange(0, sent)
        + unsent.subrange(0, n));
    assert(payload.subrange(0, sent) + unsent.subrange(0, n) =~= payload.subrange(0, sent + n));
}

/// A refill of a cache that is used up keeps the bytes in order: what was
/// queued is staged, and nothing is queued.
pub proof fn lemma_refill_keeps_order(
    payload: Seq<u8>,
    sent: int,
    queued: Seq<u8>,
    out: Seq<u8>,
    pos: int,
)
    requires
        in_order(payload, sent, queued, Seq::<u8>::empty(), out, pos),
    ensures
        in_order(payload, sent, Seq::<u8>::empty(), queued, out, pos),
{
    assert(out.subrange(0, pos) + queued + Seq::<u8>::empty() =~= out.subrange(0, pos)
        + Seq::<u8>::empty() + queued);
}

/// Serving the consumer from the cache keeps the bytes in order: the bytes
/// that leave the cache are those that the consumer gets, at the position it
/// had reached.
pub proof fn lemma_serve_keeps_order(
    payload: Seq<u8>,
    sent: int,
    queued: Seq<u8>,
    staged: Seq<u8>,
    out: Seq<u8>,
    pos: int,
)
    requires
        in_order(payload, sent, queued, staged, out, pos),
    ensures
        in_order(
            payload,
            sent,
            queued,
            after_read(staged, out.len() - pos),
            serve_into(staged, out, pos),
            pos + released(staged, out.len() - pos),
        ),
{
    let k = released(staged, out.len() - pos);
    let served = serve_into(staged, out, pos);
    assert(served.subrange(0, pos + k) =~= out.subrange(0, pos) + staged.subrange(0, k));
    assert(served.subrange(0, pos + k) + after_read(staged, out.len() - pos) + queued
        =~= out.subrange(0, pos) + staged + queued);
}

/// Once the consumer's destination, which is as long as the payload, is
/// filled, it holds the payload byte for byte: the sender has placed every
/// byte, and nothing is left in the cache or in the ring buffer.
pub proof fn lemma_in_order_at_end(
    payload: Seq<u8>,
    sent: int,
    queued: Seq<u8>,
    staged: Seq<u8>,
    out: Seq<u8>,
)
    requires
        out.len() == payload.len(),
        in_order(payload, sent, queued, staged, out, out.len() as int),
    ensures
        out == payload,
        sent == payload.len(),
        staged.len() == 0,
        queued.len() == 0,
{
    let all = out.subrange(0, out.len() as int) + staged + queued;
    assert(all.len() == out.len() + staged.len() + queued.len());
    assert(payload.subrange(0, sent).len() == sent);
    assert(out =~= out.subrange(0, out.len() as int) + staged + queued);
    assert(payload =~= payload.subrange(0, sent));
}

} // verus!
