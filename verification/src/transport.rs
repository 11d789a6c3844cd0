//! Packet transport model: the host-side collaborator that sources frames
//! toward the guest and sinks frames coming from it.
//!
//! The engine sees the transport only through this contract: a non-blocking
//! bounded burst of incoming frames, and a batched send that does not return
//! until every frame of the batch is accepted.  Frames cross this boundary
//! without the virtio-net header; the engine adds and strips it.

use vstd::prelude::*;
use crate::MAX_BUFFER_SIZE;
use crate::frame::VNET_HDR_LEN;

verus! {

/// Errors of the transport's ring and buffer-pool operations.
#[derive(Clone, Copy, Debug, PartialEq, Eq, Structural)]
pub enum Error {
    /// Transport process initialization failed with the given code.
    EalInitFailed(i32),
    /// The transport was not started in its secondary role.
    NotSecondaryDpdk,
    /// A shared frame ring was not found at attach time.
    RingLookupFailed,
    /// The shared buffer pool was not found at attach time.
    MempoolLookupFailed,
    /// No free buffer was available from the pool.
    MempoolGetFailed,
    /// The send ring had no room for the frame.
    RingEnqueueFailed,
    /// The receive ring held no frame.
    RingDequeueFailed,
}

/// The transport: frames waiting to be received by the device, and the log of
/// everything the device has sent.
pub struct Transport {
    /// Frames the host side has queued toward the device, front first.
    pub incoming: Vec<Vec<u8>>,
    /// Frames the device has handed to the host side, in order.
    pub sent: Vec<Vec<u8>>,
    /// Size of each accepted send batch, in call order.
    pub batch_sizes: Vec<usize>,
}

impl Transport {
    /// Every queued frame fits the device's frame buffer once the virtio-net
    /// header is prepended.
    pub open spec fn wf(&self) -> bool {
        forall|i: int|
            0 <= i < self.incoming@.len() ==> (#[trigger] self.incoming@[i])@.len() + VNET_HDR_LEN
                <= MAX_BUFFER_SIZE
    }

    /// A transport with nothing queued in either direction.
    pub fn new() -> (r: Transport)
        ensures
            r.wf(),
            r.incoming@.len() == 0,
            r.sent@.len() == 0,
            r.batch_sizes@.len() == 0,
    {
        Transport { incoming: Vec::new(), sent: Vec::new(), batch_sizes: Vec::new() }
    }

    /// Queues a frame on the host side, behind all earlier ones.
    pub fn push_incoming(&mut self, frame: Vec<u8>)
        requires
            old(self).wf(),
            frame@.len() + VNET_HDR_LEN <= MAX_BUFFER_SIZE,
        ensures
            final(self).wf(),
            final(self).incoming@ == old(self).incoming@.push(frame),
            final(self).sent@ == old(self).sent@,
            final(self).batch_sizes@ == old(self).batch_sizes@,
    {
        self.incoming.push(frame);
    }

    /// Whether a frame is waiting to be received.
    pub fn has_incoming(&self) -> (r: bool)
        ensures
            r <==> self.incoming@.len() > 0,
    {
        self.incoming.len() > 0
    }

    /// Takes the front waiting frame; fails when the receive ring is empty.
    pub fn pop_frame(&mut self) -> (r: Result<Vec<u8>, Error>)
        requires
            old(self).wf(),
        ensures
            final(self).wf(),
            final(self).sent@ == old(self).sent@,
            final(self).batch_sizes@ == old(self).batch_sizes@,
            old(self).incoming@.len() == 0 ==> r == Err::<Vec<u8>, Error>(Error::RingDequeueFailed)
                && *final(self) == *old(self),
            old(self).incoming@.len() > 0 ==> (r matches Ok(f) && f == old(self).incoming@[0]
                && final(self).incoming@ == old(self).incoming@.skip(1)),
    {
        if self.incoming.len() == 0 {
            Err(Error::RingDequeueFailed)
        } else {
            Ok(self.incoming.remove(0))
        }
    }

    /// Takes up to `max` waiting frames, front first, without blocking; an
    /// empty result means the receive ring was empty.
    pub fn receive_burst(&mut self, max: usize) -> (r: Vec<Vec<u8>>)
        requires
            old(self).wf(),
        ensures
            final(self).wf(),
            final(self).sent@ == old(self).sent@,
            final(self).batch_sizes@ == old(self).batch_sizes@,
            r@.len() == if old(self).incoming@.len() < max {
                old(self).incoming@.len() as int
            } else {
                max as int
            },
            r@ == old(self).incoming@.take(r@.len() as int),
            final(self).incoming@ == old(self).incoming@.skip(r@.len() as int),
            old(self).incoming@.len() == 0 ==> *final(self) == *old(self),
    {
        if self.incoming.len() == 0 {
            let out: Vec<Vec<u8>> = Vec::new();
            proof {
                assert(out@ =~= old(self).incoming@.take(0));
                assert(self.incoming@ =~= old(self).incoming@.skip(0));
            }
            return out;
        }
        let mut out: Vec<Vec<u8>> = Vec::new();
        while out.len() < max && self.incoming.len() > 0
            invariant
                self.wf(),
                out@.len() <= max,
                self.sent@ == old(self).sent@,
                self.batch_sizes@ == old(self).batch_sizes@,
                out@ + self.incoming@ == old(self).incoming@,
            decreases self.incoming@.len(),
        {
            let f: Vec<u8> = self.incoming.remove(0);
            out.push(f);
            assert(out@ + self.incoming@ =~= old(self).incoming@);
        }
        proof {
            assert(out@ =~= old(self).incoming@.take(out@.len() as int));
            assert(self.incoming@ =~= old(self).incoming@.skip(out@.len() as int));
        }
        out
    }

    /// Hands a batch of frames to the host side.  The call stands for the
    /// blocking-until-fully-accepted send: when it returns, every frame of
    /// the batch is accepted, in order.
    pub fn send_batch(&mut self, frames: Vec<Vec<u8>>)
        requires
            old(self).wf(),
        ensures
            final(self).wf(),
            final(self).incoming@ == old(self).incoming@,
            final(self).sent@ == old(self).sent@ + frames@,
            final(self).batch_sizes@ == old(self).batch_sizes@.push(frames@.len() as usize),
    {
        let n: usize = frames.len();
        let mut rest: Vec<Vec<u8>> = frames;
        while rest.len() > 0
            invariant
                self.wf(),
                self.incoming@ == old(self).incoming@,
                self.batch_sizes@ == old(self).batch_sizes@,
                self.sent@ + rest@ == old(self).sent@ + frames@,
            decreases rest@.len(),
        {
            let f: Vec<u8> = rest.remove(0);
            self.sent.push(f);
            assert(self.sent@ + rest@ =~= old(self).sent@ + frames@);
        }
        proof {
            assert(self.sent@ =~= old(self).sent@ + frames@);
        }
        self.batch_sizes.push(n);
    }
}

} // verus!
