//! Descriptor writer and reader: copying one frame into a descriptor chain
//! (receive direction) and concatenating a chain's bytes into one frame
//! (transmit direction).
//!
//! Each executable function is proved equal to a recursive functional model
//! over sequences (`rx_write_rec`, `tx_read_rec`); the engine's contracts are
//! stated over those models.

use vstd::prelude::*;
use crate::MAX_BUFFER_SIZE;
use crate::mem::{GuestMem, GuestMemoryError, seq_write};
use crate::queue::{Descriptor, DescriptorChain};

verus! {

/// Failure of one frame-delivery attempt against one descriptor chain.
#[derive(Clone, Copy, Debug, PartialEq, Eq, Structural)]
pub enum FrontendError {
    /// The chain's writable capacity is less than the frame length.
    DescriptorChainTooSmall,
    /// The queue yielded no chain; a backpressure signal, not an error.
    EmptyQueue,
    /// A segment address was outside mapped guest memory.
    GuestMemory(GuestMemoryError),
    /// A visited segment lacks write permission.
    ReadOnlyDescriptor,
}

/// The smaller of two mathematical integers.
pub open spec fn min_int(a: int, b: int) -> int {
    if a < b {
        a
    } else {
        b
    }
}

/// Result of writing a frame across a chain: the memory afterwards (partial
/// writes of a failed attempt included) and the failure, if any.
pub struct RxWriteOutcome {
    pub mem: Seq<u8>,
    pub err: Option<FrontendError>,
}

/// Functional model of the receive-direction chain walk, starting with
/// `frame[pos..]` still to be written.  Segments are visited in link order
/// until the frame is exhausted; a read-only segment, an unmapped segment or
/// a chain shorter than the frame stops the walk with the matching error,
/// leaving the bytes already written in place.
pub open spec fn rx_write_rec(
    mem: Seq<u8>,
    segs: Seq<Descriptor>,
    frame: Seq<u8>,
    pos: int,
) -> RxWriteOutcome
    decreases segs.len(),
{
    if pos >= frame.len() {
        RxWriteOutcome { mem, err: None }
    } else if segs.len() == 0 {
        RxWriteOutcome { mem, err: Some(FrontendError::DescriptorChainTooSmall) }
    } else {
        let d = segs[0];
        if !d.write_only {
            RxWriteOutcome { mem, err: Some(FrontendError::ReadOnlyDescriptor) }
        } else {
            let n = min_int(frame.len() - pos, d.len as int);
            if d.addr + n > mem.len() {
                RxWriteOutcome {
                    mem,
                    err: Some(FrontendError::GuestMemory(GuestMemoryError::InvalidGuestAddress)),
                }
            } else {
                rx_write_rec(
                    seq_write(mem, d.addr as int, frame.subrange(pos, pos + n)),
                    segs.skip(1),
                    frame,
                    pos + n,
                )
            }
        }
    }
}

/// The chain walk itself never reports `EmptyQueue`: that signal belongs to
/// the queue, not to a chain.
pub proof fn lemma_rx_write_no_empty_queue(
    mem: Seq<u8>,
    segs: Seq<Descriptor>,
    frame: Seq<u8>,
    pos: int,
)
    ensures
        rx_write_rec(mem, segs, frame, pos).err != Some(FrontendError::EmptyQueue),
    decreases segs.len(),
{
    if pos < frame.len() && segs.len() > 0 {
        let d = segs[0];
        if d.write_only {
            let n = min_int(frame.len() - pos, d.len as int);
            if d.addr + n <= mem.len() {
                lemma_rx_write_no_empty_queue(
                    seq_write(mem, d.addr as int, frame.subrange(pos, pos + n)),
                    segs.skip(1),
                    frame,
                    pos + n,
                );
            }
        }
    }
}

/// Whether delivering `frame` to the chain `segs` over `mem` succeeds.
pub open spec fn rx_write_ok(mem: Seq<u8>, segs: Seq<Descriptor>, frame: Seq<u8>) -> bool {
    rx_write_rec(mem, segs, frame, 0).err is None
}

/// Writes `frame` into the chain's segments in link order, enforcing write
/// permission, until the frame is exhausted or the chain ends.  Exactly the
/// walk `rx_write_rec` describes: on failure the chain is to be discarded by
/// the caller, and bytes already copied stay in guest memory.
pub fn write_frame_to_chain(mem: &mut GuestMem, chain: &DescriptorChain, frame: &Vec<u8>) -> (r:
    Result<(), FrontendError>)
    ensures
        ({
            let o = rx_write_rec(old(mem)@, chain.segs@, frame@, 0);
            &&& final(mem)@ == o.mem
            &&& final(mem)@.len() == old(mem)@.len()
            &&& (match r {
                Ok(u) => o.err is None,
                Err(e) => o.err == Some(e),
            })
        }),
{
    let ghost orig_mem: Seq<u8> = mem@;
    let mut i: usize = 0;
    let mut pos: usize = 0;
    let nsegs: usize = chain.segs.len();
    let flen: usize = frame.len();
    proof {
        assert(chain.segs@.skip(0) =~= chain.segs@);
    }
    while i < nsegs && pos < flen
        invariant
            i <= nsegs,
            nsegs == chain.segs@.len(),
            pos <= flen == frame@.len(),
            orig_mem == old(mem)@,
            mem@.len() == orig_mem.len(),
            rx_write_rec(orig_mem, chain.segs@, frame@, 0) == rx_write_rec(
                mem@,
                chain.segs@.skip(i as int),
                frame@,
                pos as int,
            ),
        decreases nsegs - i,
    {
        let d: Descriptor = chain.segs[i];
        proof {
            assert(chain.segs@.skip(i as int)[0] == chain.segs@[i as int]);
        }
        if !d.write_only {
            proof {
                assert(rx_write_rec(mem@, chain.segs@.skip(i as int), frame@, pos as int)
                    == (RxWriteOutcome { mem: mem@, err: Some(FrontendError::ReadOnlyDescriptor) }));
            }
            return Err(FrontendError::ReadOnlyDescriptor);
        }
        let remaining: usize = flen - pos;
        let dlen: usize = d.len as usize;
        let n: usize = if remaining < dlen {
            remaining
        } else {
            dlen
        };
        proof {
            assert(n as int == min_int(frame@.len() - pos, d.len as int));
        }
        match mem.write_range(d.addr, frame, pos, pos + n) {
            Ok(u) => {
                proof {
                    assert(chain.segs@.skip(i as int).skip(1) =~= chain.segs@.skip(i + 1));
                }
                pos = pos + n;
                i = i + 1;
            },
            Err(e) => {
                proof {
                    assert(d.addr + n > mem@.len());
                    assert(rx_write_rec(mem@, chain.segs@.skip(i as int), frame@, pos as int)
                        == (RxWriteOutcome { mem: mem@, err: Some(FrontendError::GuestMemory(e)) }));
                }
                return Err(FrontendError::GuestMemory(e));
            },
        }
    }
    if pos < flen {
        proof {
            assert(chain.segs@.skip(nsegs as int) =~= Seq::<Descriptor>::empty());
            assert(rx_write_rec(mem@, chain.segs@.skip(i as int), frame@, pos as int)
                == (RxWriteOutcome { mem: mem@, err: Some(FrontendError::DescriptorChainTooSmall) }));
        }
        return Err(FrontendError::DescriptorChainTooSmall);
    }
    Ok(())
}

/// Result of reading a chain's bytes: the data gathered in link order, and
/// whether an unmapped segment cut the read short.
pub struct TxReadOutcome {
    pub data: Seq<u8>,
    pub partial: bool,
}

/// Functional model of the transmit-direction chain walk: segment bytes are
/// concatenated in link order onto `acc`, each segment truncated to the room
/// left in the bounded scratch buffer; an unmapped segment truncates the
/// frame to the bytes read so far.
pub open spec fn tx_read_rec(mem: Seq<u8>, segs: Seq<Descriptor>, acc: Seq<u8>) -> TxReadOutcome
    decreases segs.len(),
{
    if segs.len() == 0 {
        TxReadOutcome { data: acc, partial: false }
    } else {
        let d = segs[0];
        let take = min_int(d.len as int, MAX_BUFFER_SIZE - acc.len());
        if d.addr + take > mem.len() {
            TxReadOutcome { data: acc, partial: true }
        } else {
            tx_read_rec(mem, segs.skip(1), acc + mem.subrange(d.addr as int, d.addr + take))
        }
    }
}

/// Whether every segment of `segs` is readable by the device (none is
/// write-only).
pub open spec fn chain_all_readable(segs: Seq<Descriptor>) -> bool {
    forall|i: int| 0 <= i < segs.len() ==> !(#[trigger] segs[i]).write_only
}

/// Whether every segment of `segs` is writable by the device.
pub open spec fn chain_all_writable(segs: Seq<Descriptor>) -> bool {
    forall|i: int| 0 <= i < segs.len() ==> (#[trigger] segs[i]).write_only
}

/// Sum of the segment lengths of `segs`.
pub open spec fn chain_len_sum(segs: Seq<Descriptor>) -> int
    decreases segs.len(),
{
    if segs.len() == 0 {
        0
    } else {
        segs[0].len + chain_len_sum(segs.skip(1))
    }
}

/// Checks that the device may read every segment of the chain.
pub fn chain_is_readable(chain: &DescriptorChain) -> (r: bool)
    ensures
        r == chain_all_readable(chain.segs@),
{
    let mut i: usize = 0;
    let n: usize = chain.segs.len();
    while i < n
        invariant
            i <= n,
            n == chain.segs@.len(),
            forall|j: int| 0 <= j < i ==> !(#[trigger] chain.segs@[j]).write_only,
        decreases n - i,
    {
        if chain.segs[i].write_only {
            return false;
        }
        i = i + 1;
    }
    true
}

/// Sum of the chain's segment lengths, the byte amount the transmit rate
/// limiter accounts for.
pub fn chain_total_len(chain: &DescriptorChain) -> (r: u64)
    requires
        chain.segs@.len() <= 0x1_0000,
    ensures
        r == chain_len_sum(chain.segs@),
{
    let mut sum: u64 = 0;
    let mut i: usize = 0;
    let n: usize = chain.segs.len();
    proof {
        assert(chain.segs@.skip(0) =~= chain.segs@);
    }
    while i < n
        invariant
            i <= n <= 0x1_0000,
            n == chain.segs@.len(),
            sum + chain_len_sum(chain.segs@.skip(i as int)) == chain_len_sum(chain.segs@),
            sum <= i * 0xFFFF_FFFFu64,
        decreases n - i,
    {
        proof {
            assert(chain.segs@.skip(i as int)[0] == chain.segs@[i as int]);
            assert(chain.segs@.skip(i as int).skip(1) =~= chain.segs@.skip(i + 1));
            assert(chain_len_sum(chain.segs@.skip(i as int)) >= 0) by {
                lemma_chain_len_sum_nonneg(chain.segs@.skip(i as int));
            }
            assert(chain_len_sum(chain.segs@.skip(i + 1)) >= 0) by {
                lemma_chain_len_sum_nonneg(chain.segs@.skip(i + 1));
            }
        }
        sum = sum + chain.segs[i].len as u64;
        i = i + 1;
    }
    sum
}

/// The sum of segment lengths is never negative.
pub proof fn lemma_chain_len_sum_nonneg(segs: Seq<Descriptor>)
    ensures
        chain_len_sum(segs) >= 0,
    decreases segs.len(),
{
    if segs.len() > 0 {
        lemma_chain_len_sum_nonneg(segs.skip(1));
    }
}

/// The sum of segment lengths is bounded by the segment count times the
/// largest segment.
pub proof fn lemma_chain_len_sum_bound(segs: Seq<Descriptor>)
    ensures
        chain_len_sum(segs) <= segs.len() * 0xFFFF_FFFF,
    decreases segs.len(),
{
    if segs.len() > 0 {
        lemma_chain_len_sum_bound(segs.skip(1));
        assert(segs.len() * 0xFFFF_FFFF == (segs.len() - 1) * 0xFFFF_FFFF + 0xFFFF_FFFF)
            by (nonlinear_arith);
    }
}

/// Reads the chain's bytes in link order into one frame, truncating each
/// segment to the room left in the scratch buffer.  Returns the data and
/// whether an unmapped segment cut the read short; exactly the walk
/// `tx_read_rec` describes.
pub fn read_frame_from_chain(mem: &GuestMem, chain: &DescriptorChain) -> (r: (Vec<u8>, bool))
    ensures
        ({
            let o = tx_read_rec(mem@, chain.segs@, Seq::empty());
            r.0@ == o.data && r.1 == o.partial
        }),
{
    let mut data: Vec<u8> = Vec::new();
    let mut i: usize = 0;
    let nsegs: usize = chain.segs.len();
    proof {
        assert(chain.segs@.skip(0) =~= chain.segs@);
        assert(data@ =~= Seq::<u8>::empty());
    }
    while i < nsegs
        invariant
            i <= nsegs,
            nsegs == chain.segs@.len(),
            data@.len() <= MAX_BUFFER_SIZE,
            tx_read_rec(mem@, chain.segs@, Seq::empty()) == tx_read_rec(
                mem@,
                chain.segs@.skip(i as int),
                data@,
            ),
        decreases nsegs - i,
    {
        let d: Descriptor = chain.segs[i];
        proof {
            assert(chain.segs@.skip(i as int)[0] == chain.segs@[i as int]);
        }
        let room: usize = MAX_BUFFER_SIZE - data.len();
        let dlen: usize = d.len as usize;
        let take: usize = if dlen < room {
            dlen
        } else {
            room
        };
        match mem.read_range(d.addr, take) {
            Ok(chunk) => {
                proof {
                    assert(chain.segs@.skip(i as int).skip(1) =~= chain.segs@.skip(i + 1));
                }
                let mut chunk: Vec<u8> = chunk;
                data.append(&mut chunk);
                i = i + 1;
            },
            Err(e) => {
                proof {
                    assert(d.addr + take > mem@.len());
                    assert(tx_read_rec(mem@, chain.segs@.skip(i as int), data@)
                        == (TxReadOutcome { data: data@, partial: true }));
                }
                return (data, true);
            },
        }
    }
    proof {
        assert(chain.segs@.skip(nsegs as int) =~= Seq::<Descriptor>::empty());
    }
    (data, false)
}

} // verus!
