//! Core of a bidirectional audio/network bridge: fixed-capacity sample
//! queues between the real-time audio callbacks and the network threads,
//! binary framing of samples into fixed-length datagrams, and the
//! non-blocking capture, playback, sender and receiver stage logic.
//!
//! Samples are carried as the bit patterns of 32-bit floats, so the wire
//! round trip is bit-exact by construction. The channel is a single fixed
//! peer over unreliable datagrams: no sequencing, reordering or
//! retransmission is attempted (a known limitation, kept deliberately);
//! buffer slack in the queues is the only defence against jitter.

use vstd::prelude::*;

pub mod codec;
pub mod queue;
pub mod stages;

verus! {

/// Number of frames (left/right sample pairs) carried by one datagram.
pub const FRAME_COUNT: usize = 512;

/// Byte length of a well-formed datagram: two samples of four bytes per frame.
pub const PACKET_BYTES: usize = FRAME_COUNT * 2 * 4;

/// Capacity of each sample queue: two seconds of audio at 48 kHz.
pub const QUEUE_CAPACITY: usize = 48000 * 2;

} // verus!
