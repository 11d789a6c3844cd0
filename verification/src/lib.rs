//! A verified data-plane model of a paravirtualized network device.
//!
//! The library moves Ethernet frames between guest-visible virtqueues and a
//! host-side packet transport: descriptor-chain-driven frame transfer in both
//! directions, a deferred-frame retry state machine on the receive path,
//! token-bucket rate limiting, burst batching toward the transport, and
//! interrupt coalescing.  The collaborators the engine drives — the virtqueue,
//! the guest physical memory accessor, the token bucket and the transport —
//! are held as explicit in-memory models so that every step of the engine is
//! stated and proved against their call contracts.

pub mod device;
pub mod frame;
pub mod laws;
pub mod mem;
pub mod queue;
pub mod rate_limiter;
pub mod transport;
pub mod xfer;

use vstd::prelude::*;

verus! {

/// Largest frame (virtio-net header included) the device will ever move.
pub const MAX_BUFFER_SIZE: usize = 65562;

/// Number of descriptor entries in each virtqueue.
pub const QUEUE_SIZE: u16 = 256;

/// Index of the receive queue among the device's queues.
pub const RX_INDEX: usize = 0;

/// Index of the transmit queue among the device's queues.
pub const TX_INDEX: usize = 1;

/// Virtio device type number of a network card.
pub const TYPE_NET: u32 = 1;

/// Interrupt-status bit meaning "a used ring was advanced".
pub const VIRTIO_MMIO_INT_VRING: u32 = 1;

/// Largest number of frames pulled from the transport in one burst.
pub const RX_BURST_SIZE: usize = 32;

/// Number of frames accumulated before the send batch is flushed.
pub const TX_BATCH_SIZE: usize = 512;

} // verus!
