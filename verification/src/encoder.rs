//! The frame encoder, which is `defmt`'s, and the three calls that route what it emits into the
//! transport.
//!
//! How frames are encoded is `defmt`'s business. The contracts here give a name to what each
//! call of the encoder does and say where the bytes go: every slice that the encoder hands to
//! its sink passes through [`do_write`], in the order in which the encoder emits them.

use crate::transport::{do_write, routed, write_end};
use defmt::Encoder;
use rtrb::Producer;
use vstd::prelude::*;

verus! {

/// `defmt`'s frame encoder. It lives as long as the logger and is never made anew for a frame.
#[verifier::external_type_specification]
#[verifier::external_body]
pub struct ExEncoder(Encoder);

/// What `Encoder::start_frame` does on `encoder`: the byte slices that it hands to its sink,
/// in order, and the encoder that it leaves behind.
pub uninterp spec fn start_frame_result(encoder: Encoder) -> (Seq<Seq<u8>>, Encoder);

/// What `Encoder::write` does on `encoder` with `data`: the byte slices that it hands to its
/// sink, in order, and the encoder that it leaves behind.
pub uninterp spec fn write_result(encoder: Encoder, data: Seq<u8>) -> (Seq<Seq<u8>>, Encoder);

/// What `Encoder::end_frame` does on `encoder`: the byte slices that it hands to its sink, in
/// order, and the encoder that it leaves behind.
pub uninterp spec fn end_frame_result(encoder: Encoder) -> (Seq<Seq<u8>>, Encoder);

/// `Encoder::new`: an encoder that has not encoded anything yet.
#[verifier::external_body]
pub(crate) fn encoder_new() -> Encoder {
    Encoder::new()
}

/// `Encoder::start_frame`, with the write routine on `buf` as its sink: the transport receives
/// the slices that the encoder emits for the start of a frame, one call of the write routine
/// for each and in that order, and nothing else touches it.
#[verifier::external_body]
pub(crate) fn encoder_start_frame(encoder: &mut Encoder, buf: &mut Producer<u8>)
    ensures
        *final(encoder) == start_frame_result(*old(encoder)).1,
        exists|frees: Seq<nat>| #[trigger]
            routed(
                write_end(*old(buf)),
                write_end(*final(buf)),
                start_frame_result(*old(encoder)).0,
                frees,
            ),
{
    encoder.start_frame(|b| do_write(buf, b));
}

/// `Encoder::write`, with the write routine on `buf` as its sink: the transport receives the
/// slices that the encoder emits for `data`, one call of the write routine for each and in that
/// order, and nothing else touches it.
#[verifier::external_body]
pub(crate) fn encoder_write(encoder: &mut Encoder, data: &[u8], buf: &mut Producer<u8>)
    ensures
        *final(encoder) == write_result(*old(encoder), data@).1,
        exists|frees: Seq<nat>| #[trigger]
            routed(
                write_end(*old(buf)),
                write_end(*final(buf)),
                write_result(*old(encoder), data@).0,
                frees,
            ),
{
    encoder.write(data, |b| do_write(buf, b));
}

/// `Encoder::end_frame`, with the write routine on `buf` as its sink: the transport receives
/// the slices that the encoder emits for the end of a frame, one call of the write routine for
/// each and in that order, and nothing else touches it.
#[verifier::external_body]
pub(crate) fn encoder_end_frame(encoder: &mut Encoder, buf: &mut Producer<u8>)
    ensures
        *final(encoder) == end_frame_result(*old(encoder)).1,
        exists|frees: Seq<nat>| #[trigger]
            routed(
                write_end(*old(buf)),
                write_end(*final(buf)),
                end_frame_result(*old(encoder)).0,
                frees,
            ),
{
    encoder.end_frame(|b| do_write(buf, b));
}

} // verus!
