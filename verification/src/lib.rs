//! An interrupt-safe logging backend: `defmt` frames are encoded and written, byte by byte,
//! into the write end of an `rtrb` ring buffer, and whoever holds the read end drains them.
//!
//! [`init`] makes the queue, gives its write end to the controller and hands the read end out.
//! From then on every frame is one acquire, any number of writes, and one release on the
//! [`LoggerRtrb`]. Writing never blocks: what does not fit in the queue is dropped.
//!
//! A frame is written inside one critical section, which spans the calls from the acquire to
//! the release. Entering and leaving it is the caller's part: the caller enters, hands the
//! token it got to the acquire, and leaves with the token that the release hands back.

pub mod encoder;
pub mod logger;
pub mod transport;

use crate::logger::LoggerRtrb;
use crate::transport::{ring_buffer_new, WriteEnd};
use rtrb::Consumer;
use vstd::prelude::*;

verus! {

/// Makes a transport of `size` bytes, gives its write end to `logger` and returns its read
/// end. It is called once, before the first acquire.
pub fn init(logger: &mut LoggerRtrb, size: usize) -> (consumer: Consumer<u8>)
    requires
        !old(logger).initialized(),
        size <= isize::MAX,
    ensures
        final(logger).initialized(),
        final(logger).transport() == WriteEnd::fresh(size as nat),
        final(logger).taken() == old(logger).taken(),
        final(logger).restore() == old(logger).restore(),
        final(logger).encoder() == old(logger).encoder(),
{
    let (p, c) = ring_buffer_new(size);
    logger.init_buf(p);
    c
}

} // verus!
