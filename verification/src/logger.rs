//! The transport controller: the one place that owns the encoder and the write end of the
//! queue, and the acquire / write / flush / release protocol that guards them.

use crate::encoder::{
    encoder_end_frame, encoder_new, encoder_start_frame, encoder_write, end_frame_result,
    start_frame_result, write_result,
};
use crate::transport::{
    lemma_headroom_loses_nothing, lemma_routed_appends_kept, routed, write_end, WriteEnd,
};
use critical_section::RestoreState;
use defmt::Encoder;
use rtrb::Producer;
use vstd::prelude::*;

verus! {

/// The token that `critical_section::acquire` hands out and `critical_section::release` takes
/// back. The controller keeps it while it is held and never looks inside.
#[verifier::external_type_specification]
#[verifier::external_body]
pub struct ExRestoreState(RestoreState);

/// `RestoreState::invalid`: a token that stands for no critical section.
#[verifier::external_body]
fn restore_state_invalid() -> RestoreState {
    RestoreState::invalid()
}

/// The controller. It is idle or held; it is held from an acquire to the matching release, and
/// only then are the encoder and the write end used.
pub struct LoggerRtrb {
    /// Whether the controller is held.
    taken: bool,
    /// The token of the critical section in which the controller was last acquired.
    cs_restore: RestoreState,
    /// The frame encoder.
    encoder: Encoder,
    /// The write end of the transport, once there is one.
    buf: Option<Producer<u8>>,
}

impl LoggerRtrb {
    /// Whether the controller is held.
    pub closed spec fn taken(&self) -> bool {
        self.taken
    }

    /// The token that the controller keeps.
    pub closed spec fn restore(&self) -> RestoreState {
        self.cs_restore
    }

    /// The encoder as it stands.
    pub closed spec fn encoder(&self) -> Encoder {
        self.encoder
    }

    /// Whether the controller has been given its write end.
    pub closed spec fn initialized(&self) -> bool {
        self.buf is Some
    }

    /// The write end of the transport. It means something only once there is one.
    pub closed spec fn transport(&self) -> WriteEnd
        recommends
            self.initialized(),
    {
        write_end(self.buf->0)
    }

    /// Whether an acquire is in order: there is a transport, and nobody holds the controller.
    pub open spec fn may_acquire(&self) -> bool {
        self.initialized() && !self.taken()
    }

    /// Whether a write, a flush or a release is in order: the controller is held.
    pub open spec fn may_use(&self) -> bool {
        self.initialized() && self.taken()
    }

    /// Whether `post` is `pre` after one call of the encoder that did `result`: the encoder is
    /// the one that the call leaves behind, and the transport has received what the call
    /// emitted, slice by slice, through the write routine.
    pub open spec fn emitted(pre: Self, post: Self, result: (Seq<Seq<u8>>, Encoder)) -> bool {
        &&& post.initialized()
        &&& post.encoder() == result.1
        &&& exists|frees: Seq<nat>| #[trigger]
            routed(pre.transport(), post.transport(), result.0, frees)
    }

    /// Whether `post` is `pre` after an acquire with `restore`.
    pub open spec fn acquired(pre: Self, post: Self, restore: RestoreState) -> bool {
        &&& post.taken()
        &&& post.restore() == restore
        &&& Self::emitted(pre, post, start_frame_result(pre.encoder()))
    }

    /// Whether `post` is `pre` after a write of `data`.
    pub open spec fn wrote(pre: Self, post: Self, data: Seq<u8>) -> bool {
        &&& post.taken() == pre.taken()
        &&& post.restore() == pre.restore()
        &&& Self::emitted(pre, post, write_result(pre.encoder(), data))
    }

    /// Whether `post` is `pre` after a release.
    pub open spec fn released(pre: Self, post: Self) -> bool {
        &&& !post.taken()
        &&& post.restore() == pre.restore()
        &&& Self::emitted(pre, post, end_frame_result(pre.encoder()))
    }

    /// An idle controller with a new encoder and no transport yet.
    pub fn new() -> (logger: LoggerRtrb)
        ensures
            !logger.taken(),
            !logger.initialized(),
    {
        LoggerRtrb {
            taken: false,
            cs_restore: restore_state_invalid(),
            encoder: encoder_new(),
            buf: None,
        }
    }

    /// Gives the controller its write end. Nothing else changes.
    pub fn init_buf(&mut self, buf: Producer<u8>)
        ensures
            final(self).initialized(),
            final(self).transport() == write_end(buf),
            final(self).taken() == old(self).taken(),
            final(self).restore() == old(self).restore(),
            final(self).encoder() == old(self).encoder(),
    {
        self.buf = Some(buf);
    }

    /// Whether the controller is held.
    pub fn is_taken(&self) -> (taken: bool)
        ensures
            taken == self.taken(),
    {
        self.taken
    }

    /// Whether the controller has been given its write end.
    pub fn is_initialized(&self) -> (initialized: bool)
        ensures
            initialized == self.initialized(),
    {
        self.buf.is_some()
    }

    /// Takes the controller for one frame. The caller has entered a critical section and hands
    /// over its token, `restore`; the controller keeps it until the release. The encoder starts
    /// a frame, and what it emits goes into the transport.
    ///
    /// A controller that is held admits no acquire: to acquire it again before the release is
    /// fatal, and the caller must stop there.
    pub fn acquire(&mut self, restore: RestoreState)
        requires
            old(self).may_acquire(),
        ensures
            Self::acquired(*old(self), *final(self), restore),
    {
        let ghost pieces = start_frame_result(self.encoder).0;
        let ghost before = self.transport();
        self.taken = true;
        self.cs_restore = restore;
        match &mut self.buf {
            Some(buf) => encoder_start_frame(&mut self.encoder, buf),
            None => {},
        }
        proof {
            let after = self.transport();
            let frees = choose|frees: Seq<nat>| routed(before, after, pieces, frees);
            assert(routed(before, after, pieces, frees));
        }
    }

    /// Hands `bytes` to the encoder, and what it emits goes into the transport.
    pub fn write(&mut self, bytes: &[u8])
        requires
            old(self).may_use(),
        ensures
            Self::wrote(*old(self), *final(self), bytes@),
    {
        let ghost pieces = write_result(self.encoder, bytes@).0;
        let ghost before = self.transport();
        match &mut self.buf {
            Some(buf) => encoder_write(&mut self.encoder, bytes, buf),
            None => {},
        }
        proof {
            let after = self.transport();
            let frees = choose|frees: Seq<nat>| routed(before, after, pieces, frees);
            assert(routed(before, after, pieces, frees));
        }
    }

    /// Does nothing: the transport is written at once, so nothing is ever left to flush.
    pub fn flush(&mut self)
        requires
            old(self).may_use(),
        ensures
            *final(self) == *old(self),
    {
    }

    /// Ends the frame and gives the controller up. The encoder ends the frame, and what it
    /// emits goes into the transport. The token kept since the acquire comes back, for the
    /// caller to leave the critical section with.
    pub fn release(&mut self) -> (restore: RestoreState)
        requires
            old(self).may_use(),
        ensures
            Self::released(*old(self), *final(self)),
            restore == old(self).restore(),
    {
        let ghost pieces = end_frame_result(self.encoder).0;
        let ghost before = self.transport();
        match &mut self.buf {
            Some(buf) => encoder_end_frame(&mut self.encoder, buf),
            None => {},
        }
        self.taken = false;
        proof {
            let after = self.transport();
            let frees = choose|frees: Seq<nat>| routed(before, after, pieces, frees);
            assert(routed(before, after, pieces, frees));
        }
        self.cs_restore
    }
}

impl LoggerRtrb {
    /// Whether `post` is `pre` after a write or a flush: a call that is in order only on a
    /// controller that is held, and that leaves it held.
    pub open spec fn used(pre: Self, post: Self) -> bool {
        &&& pre.may_use()
        &&& post == pre || exists|data: Seq<u8>| #[trigger] Self::wrote(pre, post, data)
    }

    /// Whether `trace` is what a controller goes through from an acquire on, as long as it is
    /// not released: its second state follows the first by an acquire, and every later one
    /// follows the one before by a write or a flush.
    pub open spec fn held_run(trace: Seq<Self>) -> bool {
        &&& trace.len() >= 2
        &&& trace[0].may_acquire()
        &&& exists|restore: RestoreState| #[trigger] Self::acquired(trace[0], trace[1], restore)
        &&& forall|i: int|
            1 <= i < trace.len() - 1 ==> #[trigger] Self::used(trace[i], trace[i + 1])
    }

    /// From an acquire to the release the controller is held, keeps the token it was given,
    /// and admits no second acquire, however many writes and flushes come between.
    pub proof fn lemma_held_admits_no_acquire(trace: Seq<Self>, i: int)
        requires
            Self::held_run(trace),
            1 <= i < trace.len(),
        ensures
            trace[i].taken(),
            trace[i].may_use(),
            !trace[i].may_acquire(),
            trace[i].restore() == trace[1].restore(),
        decreases i,
    {
        if i > 1 {
            Self::lemma_held_admits_no_acquire(trace, i - 1);
            assert(Self::used(trace[i - 1], trace[i - 1 + 1]));
        }
    }

    /// A release makes the controller idle again: the next acquire is in order.
    pub proof fn lemma_release_admits_acquire(pre: Self, post: Self)
        requires
            Self::released(pre, post),
        ensures
            post.may_acquire(),
            !post.may_use(),
    {
    }

    /// A call of the encoder only ever appends to the transport: its capacity stays what it was,
    /// the bytes committed before stay in front, unchanged, and no more bytes follow them than
    /// the encoder emitted.
    pub proof fn lemma_emitted_only_appends(
        pre: Self,
        post: Self,
        result: (Seq<Seq<u8>>, Encoder),
    )
        requires
            Self::emitted(pre, post, result),
        ensures
            post.transport().capacity == pre.transport().capacity,
            pre.transport().pushed.is_prefix_of(post.transport().pushed),
            post.transport().pushed.len() <= pre.transport().pushed.len()
                + result.0.flatten().len(),
    {
        let frees = choose|frees: Seq<nat>|
            routed(pre.transport(), post.transport(), result.0, frees);
        lemma_routed_appends_kept(pre.transport(), post.transport(), result.0, frees);
    }

    /// Under headroom a call of the encoder loses nothing: where all that it emits fits in the
    /// free slots that the write end is sure of, the transport holds it whole afterwards, in
    /// the order in which the encoder emitted it, after what it held before.
    pub proof fn lemma_emitted_under_headroom(
        pre: Self,
        post: Self,
        result: (Seq<Seq<u8>>, Encoder),
    )
        requires
            Self::emitted(pre, post, result),
            result.0.flatten().len() <= pre.transport().known_free,
        ensures
            post.transport().pushed == pre.transport().pushed + result.0.flatten(),
            post.transport().known_free == pre.transport().known_free - result.0.flatten().len(),
            post.transport().capacity == pre.transport().capacity,
    {
        let frees = choose|frees: Seq<nat>|
            routed(pre.transport(), post.transport(), result.0, frees);
        lemma_headroom_loses_nothing(pre.transport(), post.transport(), result.0, frees);
    }

    /// Under headroom a frame loses nothing: where an acquire, a write of `data` and a release
    /// follow one another, and all that the encoder emits for them fits in the free slots that
    /// the write end is sure of at the acquire, the transport holds the whole frame afterwards:
    /// what the encoder emitted to start the frame, for `data`, and to end the frame.
    pub proof fn lemma_frame_under_headroom(
        idle: Self,
        started: Self,
        written: Self,
        ended: Self,
        restore: RestoreState,
        data: Seq<u8>,
    )
        requires
            Self::acquired(idle, started, restore),
            Self::wrote(started, written, data),
            Self::released(written, ended),
            start_frame_result(idle.encoder()).0.flatten().len() + write_result(
                started.encoder(),
                data,
            ).0.flatten().len() + end_frame_result(written.encoder()).0.flatten().len()
                <= idle.transport().known_free,
        ensures
            ended.transport().pushed == idle.transport().pushed + start_frame_result(
                idle.encoder(),
            ).0.flatten() + write_result(started.encoder(), data).0.flatten() + end_frame_result(
                written.encoder(),
            ).0.flatten(),
            ended.may_acquire(),
    {
        Self::lemma_emitted_under_headroom(idle, started, start_frame_result(idle.encoder()));
        Self::lemma_emitted_under_headroom(
            started,
            written,
            write_result(started.encoder(), data),
        );
        Self::lemma_emitted_under_headroom(written, ended, end_frame_result(written.encoder()));
    }
}

} // verus!
