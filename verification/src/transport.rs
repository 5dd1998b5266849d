//! The write end of the byte queue, and the routine that writes into it without ever blocking.
//!
//! The queue itself is `rtrb`'s. What this module knows of it is collected in [`WriteEnd`], a
//! mathematical picture of the producing half, and every contract below is stated over that
//! picture.

use rtrb::chunks::ChunkError;
use rtrb::Consumer;
use rtrb::Producer;
use rtrb::RingBuffer;
use vstd::prelude::*;
use vstd::slice::slice_subrange;

verus! {

/// The producing half of an `rtrb` ring buffer.
#[verifier::external_type_specification]
#[verifier::external_body]
#[verifier::reject_recursive_types(T)]
pub struct ExProducer<T>(Producer<T>);

/// The consuming half of an `rtrb` ring buffer. The library hands it out and never reads it.
#[verifier::external_type_specification]
#[verifier::external_body]
#[verifier::reject_recursive_types(T)]
pub struct ExConsumer<T>(Consumer<T>);

/// Every byte that was ever committed through this write end, oldest first. The read end
/// yields these bytes, in this order, and nothing else.
pub uninterp spec fn pushed(p: Producer<u8>) -> Seq<u8>;

/// The number of free slots that the write end is sure of without asking the read end: what
/// `Producer::cached_slots` returns. The read end can only raise the true number above it.
pub uninterp spec fn cached_slots(p: Producer<u8>) -> nat;

/// The number of slots that the ring buffer was made with.
pub uninterp spec fn capacity(p: Producer<u8>) -> nat;

/// What the contracts say of a write end.
pub struct WriteEnd {
    /// The number of slots of the queue; it never changes.
    pub capacity: nat,
    /// The free slots that the write end is sure of.
    pub known_free: nat,
    /// Every byte committed so far, oldest first.
    pub pushed: Seq<u8>,
}

/// The picture of a producer.
pub open spec fn write_end(p: Producer<u8>) -> WriteEnd {
    WriteEnd { capacity: capacity(p), known_free: cached_slots(p), pushed: pushed(p) }
}

/// The leading bytes of `bytes` that a transport with `free` free slots takes: all of them
/// where they fit, else the first `free`.
pub open spec fn accepted(bytes: Seq<u8>, free: nat) -> Seq<u8> {
    if bytes.len() <= free {
        bytes
    } else {
        bytes.take(free as int)
    }
}

impl WriteEnd {
    /// A queue of `capacity` slots through which nothing has been written yet.
    pub open spec fn fresh(capacity: nat) -> WriteEnd {
        WriteEnd { capacity, known_free: capacity, pushed: Seq::empty() }
    }

    /// Whether a request for `len` slots can find `free` slots free. A request that fits in
    /// what the write end is sure of is granted from that; any other asks the read end, which
    /// can have freed more in the meantime but never holds more than the capacity.
    pub open spec fn may_find(self, free: nat, len: nat) -> bool {
        &&& self.known_free <= free <= self.capacity
        &&& len <= self.known_free ==> free == self.known_free
    }

    /// The write end after one call of the write routine with `bytes`, which found `free`
    /// slots free: the bytes that fit are committed, in order, and the rest is dropped.
    pub open spec fn deliver(self, bytes: Seq<u8>, free: nat) -> WriteEnd {
        let taken = accepted(bytes, free);
        WriteEnd {
            capacity: self.capacity,
            known_free: (free - taken.len()) as nat,
            pushed: self.pushed + taken,
        }
    }

    /// Whether `frees` can be the free slots found by the calls that write `pieces`, one
    /// after the other.
    pub open spec fn may_find_all(self, pieces: Seq<Seq<u8>>, frees: Seq<nat>) -> bool
        decreases pieces.len(),
    {
        &&& frees.len() == pieces.len()
        &&& pieces.len() > 0 ==> {
            &&& self.may_find(frees.first(), pieces.first().len())
            &&& self.deliver(pieces.first(), frees.first()).may_find_all(
                pieces.drop_first(),
                frees.drop_first(),
            )
        }
    }

    /// The write end after the write routine was called with each of `pieces` in turn, the
    /// call for `pieces[i]` finding `frees[i]` slots free.
    pub open spec fn deliver_all(self, pieces: Seq<Seq<u8>>, frees: Seq<nat>) -> WriteEnd
        decreases pieces.len(),
    {
        if pieces.len() == 0 || frees.len() == 0 {
            self
        } else {
            self.deliver(pieces.first(), frees.first()).deliver_all(
                pieces.drop_first(),
                frees.drop_first(),
            )
        }
    }
}

/// Whether `post` is `pre` after the write routine was called with each of `pieces` in turn and
/// found `frees` free slots.
pub open spec fn routed(
    pre: WriteEnd,
    post: WriteEnd,
    pieces: Seq<Seq<u8>>,
    frees: Seq<nat>,
) -> bool {
    pre.may_find_all(pieces, frees) && post == pre.deliver_all(pieces, frees)
}

/// The bytes that get through when the write routine is called with each of `pieces` in turn
/// and the call for `pieces[i]` finds `frees[i]` slots free: what each call takes, end to end.
pub open spec fn kept(pieces: Seq<Seq<u8>>, frees: Seq<nat>) -> Seq<u8>
    decreases pieces.len(),
{
    if pieces.len() == 0 || frees.len() == 0 {
        Seq::empty()
    } else {
        accepted(pieces.first(), frees.first()) + kept(pieces.drop_first(), frees.drop_first())
    }
}

/// `RingBuffer::new`, for bytes: a queue of `capacity` slots, all of them free, and its two
/// ends. The capacity is kept within what one allocation can hold, beyond which the call
/// panics.
#[verifier::external_body]
pub(crate) fn ring_buffer_new(capacity: usize) -> (ends: (Producer<u8>, Consumer<u8>))
    requires
        capacity <= isize::MAX,
    ensures
        write_end(ends.0) == WriteEnd::fresh(capacity as nat),
{
    RingBuffer::new(capacity)
}

/// `Producer::push_entire_slice`: copies the whole of `slice` into the queue and commits it, or
/// changes nothing and reports the free slots it found, which are fewer than `slice` needs.
/// A slice that fits in the free slots the write end was sure of is always taken, and uses
/// them up; any other outcome rests on a fresh count, never lower than the old one.
#[verifier::external_body]
fn push_entire_slice(buf: &mut Producer<u8>, slice: &[u8]) -> (outcome: Result<(), usize>)
    ensures
        capacity(*final(buf)) == capacity(*old(buf)),
        match outcome {
            Ok(()) => {
                &&& pushed(*final(buf)) == pushed(*old(buf)) + slice@
                &&& cached_slots(*old(buf)) <= cached_slots(*final(buf)) + slice@.len()
                &&& cached_slots(*final(buf)) + slice@.len() <= capacity(*old(buf))
            },
            Err(available) => {
                &&& available < slice@.len()
                &&& pushed(*final(buf)) == pushed(*old(buf))
                &&& cached_slots(*final(buf)) == available
                &&& cached_slots(*old(buf)) <= available <= capacity(*old(buf))
            },
        },
        slice@.len() <= cached_slots(*old(buf)) ==> {
            &&& outcome is Ok
            &&& cached_slots(*final(buf)) + slice@.len() == cached_slots(*old(buf))
        },
{
    match buf.push_entire_slice(slice) {
        Ok(()) => Ok(()),
        Err(ChunkError::TooFewSlots(available)) => Err(available),
    }
}

/// What is offered to the transport once it has refused `bytes` and reported `available` free
/// slots: nothing when it is full, else the leading bytes that fit.
pub fn second_offer<'a>(bytes: &'a [u8], available: usize) -> (offer: Option<&'a [u8]>)
    requires
        available < bytes@.len(),
    ensures
        available == 0 ==> offer is None,
        available > 0 ==> offer is Some && offer->0@ == bytes@.take(available as int),
{
    if available == 0 {
        None
    } else {
        Some(slice_subrange(bytes, 0, available))
    }
}

/// Writes `bytes` into the transport without blocking. Where they all fit they are committed
/// whole. Where the transport has fewer free slots, only the leading bytes that fit are
/// committed and the rest is dropped; where it is full, nothing is written.
///
/// How many slots are free is for the read end to decide, so the contract holds of whatever
/// number the transport found, within what [`WriteEnd::may_find`] allows.
pub fn do_write(buf: &mut Producer<u8>, bytes: &[u8])
    ensures
        exists|free: nat|
            write_end(*old(buf)).may_find(free, bytes@.len()) && write_end(*final(buf))
                == #[trigger] write_end(*old(buf)).deliver(bytes@, free),
{
    let ghost pre = write_end(*buf);
    match push_entire_slice(buf, bytes) {
        Ok(()) => {
            proof {
                let free = (cached_slots(*buf) + bytes@.len()) as nat;
                assert(pre.may_find(free, bytes@.len()));
                assert(write_end(*buf) =~= pre.deliver(bytes@, free));
            }
        },
        Err(available) => {
            match second_offer(bytes, available) {
                None => {
                    proof {
                        assert(bytes@.take(0) =~= Seq::<u8>::empty());
                        assert(pre.may_find(0, bytes@.len()));
                        assert(write_end(*buf) =~= pre.deliver(bytes@, 0));
                    }
                },
                Some(head) => {
                    let _ = push_entire_slice(buf, head);
                    proof {
                        assert(pre.may_find(available as nat, bytes@.len()));
                        assert(write_end(*buf) =~= pre.deliver(bytes@, available as nat));
                    }
                },
            }
        },
    }
}

/// One call of the write routine that finds fewer free slots than it has bytes writes the first
/// `free` of them and drops the rest; with no free slot it writes nothing. What is written and
/// what is dropped make up the input, in its order: no byte is moved or written twice.
pub proof fn lemma_short_of_room_keeps_prefix(pre: WriteEnd, bytes: Seq<u8>, free: nat)
    requires
        free < bytes.len(),
    ensures
        pre.deliver(bytes, free).pushed == pre.pushed + bytes.take(free as int),
        pre.deliver(bytes, free).pushed.len() == pre.pushed.len() + free,
        accepted(bytes, free) + bytes.skip(free as int) == bytes,
        free == 0 ==> pre.deliver(bytes, free).pushed == pre.pushed,
{
    assert(bytes.take(free as int) + bytes.skip(free as int) =~= bytes);
    if free == 0 {
        assert(pre.pushed + bytes.take(0) =~= pre.pushed);
    }
}

/// What a call takes is always a leading part of its input, as long as the free slots allow and
/// never longer than the input.
pub proof fn lemma_accepted_is_prefix(bytes: Seq<u8>, free: nat)
    ensures
        accepted(bytes, free).len() == if bytes.len() <= free { bytes.len() } else { free },
        accepted(bytes, free) == bytes.take(accepted(bytes, free).len() as int),
{
    assert(bytes.take(bytes.len() as int) =~= bytes);
}

/// Calls of the write routine only ever append: after any run of them the capacity is what it
/// was, and the bytes committed are those committed before, followed by what each call took,
/// in the order of the calls. What the calls took is never more than what they were given.
pub proof fn lemma_routed_appends_kept(
    pre: WriteEnd,
    post: WriteEnd,
    pieces: Seq<Seq<u8>>,
    frees: Seq<nat>,
)
    requires
        routed(pre, post, pieces, frees),
    ensures
        post.capacity == pre.capacity,
        post.pushed == pre.pushed + kept(pieces, frees),
        kept(pieces, frees).len() <= pieces.flatten().len(),
    decreases pieces.len(),
{
    if pieces.len() == 0 {
        assert(pre.pushed + kept(pieces, frees) =~= pre.pushed);
    } else {
        let mid = pre.deliver(pieces.first(), frees.first());
        lemma_routed_appends_kept(mid, post, pieces.drop_first(), frees.drop_first());
        lemma_accepted_is_prefix(pieces.first(), frees.first());
        assert(post.pushed =~= pre.pushed + kept(pieces, frees));
    }
}

/// Two runs of calls, one after the other, are one run of all the calls.
pub proof fn lemma_routed_append(
    pre: WriteEnd,
    mid: WriteEnd,
    post: WriteEnd,
    pieces: Seq<Seq<u8>>,
    frees: Seq<nat>,
    more_pieces: Seq<Seq<u8>>,
    more_frees: Seq<nat>,
)
    requires
        routed(pre, mid, pieces, frees),
        routed(mid, post, more_pieces, more_frees),
    ensures
        routed(pre, post, pieces + more_pieces, frees + more_frees),
    decreases pieces.len(),
{
    if pieces.len() == 0 {
        assert(pieces + more_pieces =~= more_pieces);
        assert(frees + more_frees =~= more_frees);
    } else {
        let next = pre.deliver(pieces.first(), frees.first());
        lemma_routed_append(
            next,
            mid,
            post,
            pieces.drop_first(),
            frees.drop_first(),
            more_pieces,
            more_frees,
        );
        assert((pieces + more_pieces).drop_first() =~= pieces.drop_first() + more_pieces);
        assert((frees + more_frees).drop_first() =~= frees.drop_first() + more_frees);
    }
}

/// Nothing is lost while there is room: where every call finds at least as many free slots as
/// it has bytes, the transport holds, after the bytes it held before, exactly the bytes of all
/// the calls, in order and unchanged.
pub proof fn lemma_room_for_each_loses_nothing(
    pre: WriteEnd,
    post: WriteEnd,
    pieces: Seq<Seq<u8>>,
    frees: Seq<nat>,
)
    requires
        routed(pre, post, pieces, frees),
        forall|i: int| 0 <= i < pieces.len() ==> pieces[i].len() <= #[trigger] frees[i],
    ensures
        post.pushed == pre.pushed + pieces.flatten(),
    decreases pieces.len(),
{
    if pieces.len() == 0 {
        assert(pre.pushed + pieces.flatten() =~= pre.pushed);
    } else {
        let next = pre.deliver(pieces.first(), frees.first());
        assert(pieces.first().len() <= frees[0]);
        assert forall|i: int| 0 <= i < pieces.drop_first().len() implies pieces.drop_first()[i].len()
            <= #[trigger] frees.drop_first()[i] by {
            assert(pieces[i + 1].len() <= frees[i + 1]);
        }
        lemma_room_for_each_loses_nothing(next, post, pieces.drop_first(), frees.drop_first());
        assert(post.pushed =~= pre.pushed + pieces.flatten());
    }
}

/// Nothing is lost under headroom: where the bytes of all the calls together fit in the free
/// slots that the write end is sure of, every call is served from those, whatever the read end
/// does meanwhile. The transport then holds exactly the bytes of all the calls after those it
/// held before, and the free slots it is sure of have shrunk by their number.
pub proof fn lemma_headroom_loses_nothing(
    pre: WriteEnd,
    post: WriteEnd,
    pieces: Seq<Seq<u8>>,
    frees: Seq<nat>,
)
    requires
        routed(pre, post, pieces, frees),
        pieces.flatten().len() <= pre.known_free,
    ensures
        post.pushed == pre.pushed + pieces.flatten(),
        post.known_free == pre.known_free - pieces.flatten().len(),
        post.capacity == pre.capacity,
    decreases pieces.len(),
{
    if pieces.len() == 0 {
        assert(pre.pushed + pieces.flatten() =~= pre.pushed);
    } else {
        let next = pre.deliver(pieces.first(), frees.first());
        lemma_headroom_loses_nothing(next, post, pieces.drop_first(), frees.drop_first());
        assert(post.pushed =~= pre.pushed + pieces.flatten());
    }
}

/// A transport without capacity takes nothing: whatever is written to it, each call is a no-op
/// and no byte is ever committed.
pub proof fn lemma_zero_capacity_takes_nothing(
    pre: WriteEnd,
    post: WriteEnd,
    pieces: Seq<Seq<u8>>,
    frees: Seq<nat>,
)
    requires
        routed(pre, post, pieces, frees),
        pre.capacity == 0,
    ensures
        post.pushed == pre.pushed,
        post.capacity == 0,
        kept(pieces, frees) == Seq::<u8>::empty(),
    decreases pieces.len(),
{
    if pieces.len() > 0 {
        let next = pre.deliver(pieces.first(), frees.first());
        assert(accepted(pieces.first(), frees.first()) =~= Seq::<u8>::empty());
        assert(next.pushed =~= pre.pushed);
        lemma_zero_capacity_takes_nothing(next, post, pieces.drop_first(), frees.drop_first());
        assert(kept(pieces, frees) =~= Seq::<u8>::empty());
    }
}

} // verus!
