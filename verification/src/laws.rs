//! Pass-level laws of the engine, stated and proved over the functional
//! models that the engine's own contracts use.

use vstd::prelude::*;
use crate::frame::{framed, VNET_HDR_LEN};
use crate::device::{
    batch_split, full_batches, lemma_batch_split_decomp, rx_pass_rec, rx_retry_rec, tx_drain_rec,
};
use crate::queue::{DescriptorChain, UsedElem};
use crate::rate_limiter::{
    rl_after_consume, rl_consume_ok, tb_after_consume, tb_consume_ok, RateLimiter, TokenBucket,
    TokenType,
};
use crate::xfer::{chain_all_readable, tx_read_rec};
use crate::RX_BURST_SIZE;

verus! {

/// Total tokens granted when the attempts in `amounts` are made, in order,
/// against bucket `b` within one epoch: a successful attempt takes its
/// tokens, a failed one takes nothing and the bucket stands unchanged.
pub open spec fn consume_total(b: TokenBucket, amounts: Seq<u64>) -> int
    decreases amounts.len(),
{
    if amounts.len() == 0 {
        0
    } else {
        let a = amounts[0];
        if tb_consume_ok(b, a) {
            a + consume_total(tb_after_consume(b, a), amounts.skip(1))
        } else {
            consume_total(b, amounts.skip(1))
        }
    }
}

/// Rate limiting is a hard ceiling: within one limiter epoch (between
/// replenishments), whatever sequence of consumption attempts is made, the
/// tokens actually granted never exceed the budget plus the one-time burst
/// that the epoch began with.
pub proof fn lemma_rate_limit_ceiling(b: TokenBucket, amounts: Seq<u64>)
    ensures
        consume_total(b, amounts) <= b.budget + b.one_time_burst,
    decreases amounts.len(),
{
    if amounts.len() > 0 {
        let a = amounts[0];
        if tb_consume_ok(b, a) {
            let b2 = tb_after_consume(b, a);
            lemma_rate_limit_ceiling(b2, amounts.skip(1));
            assert(b2.budget + b2.one_time_burst == b.budget + b.one_time_burst - a);
        } else {
            lemma_rate_limit_ceiling(b, amounts.skip(1));
        }
    }
}

/// Total bytes the used entries report delivered to the guest.
pub open spec fn used_bytes(s: Seq<UsedElem>) -> int
    decreases s.len(),
{
    if s.len() == 0 {
        0
    } else {
        s[0].len + used_bytes(s.skip(1))
    }
}

/// Reported bytes add up over concatenation.
pub proof fn lemma_used_bytes_app(a: Seq<UsedElem>, b: Seq<UsedElem>)
    ensures
        used_bytes(a + b) == used_bytes(a) + used_bytes(b),
    decreases a.len(),
{
    if a.len() == 0 {
        assert(a + b =~= b);
    } else {
        assert((a + b).skip(1) =~= a.skip(1) + b);
        assert((a + b)[0] == a[0]);
        lemma_used_bytes_app(a.skip(1), b);
    }
}

/// The delivery-retry walk reports exactly the frame's length when it
/// delivers, and nothing when it does not: discarded chains report length 0.
pub proof fn lemma_retry_used_bytes(mem: Seq<u8>, chains: Seq<DescriptorChain>, frame: Seq<u8>)
    requires
        frame.len() < 0x1_0000_0000,
    ensures
        used_bytes(rx_retry_rec(mem, chains, frame).used) == if rx_retry_rec(
            mem,
            chains,
            frame,
        ).delivered {
            frame.len() as int
        } else {
            0int
        },
    decreases chains.len(),
{
    if chains.len() == 0 {
        assert(used_bytes(Seq::<UsedElem>::empty()) == 0);
    } else {
        let o = crate::xfer::rx_write_rec(mem, chains[0].segs@, frame, 0);
        if o.err is None {
            let e = UsedElem { id: chains[0].spec_head_id(), len: frame.len() as u32 };
            assert(seq![e].skip(1) =~= Seq::<UsedElem>::empty());
            assert(used_bytes(Seq::<UsedElem>::empty()) == 0);
        } else {
            let rest = rx_retry_rec(o.mem, chains.skip(1), frame);
            let e0 = UsedElem { id: chains[0].spec_head_id(), len: 0 };
            lemma_used_bytes_app(seq![e0], rest.used);
            assert(seq![e0].skip(1) =~= Seq::<UsedElem>::empty());
            assert(used_bytes(Seq::<UsedElem>::empty()) == 0);
            assert(used_bytes(seq![e0]) == 0);
            lemma_retry_used_bytes(o.mem, chains.skip(1), frame);
        }
    }
}

/// Rate limiting is a hard ceiling over a whole receive pass: with a
/// bandwidth bucket configured, the bytes the pass delivers to the guest —
/// whatever mixture of retained and transport-queued frames it works
/// through — never exceed the byte budget (plus one-time burst) the pass
/// began with.
pub proof fn lemma_rx_pass_byte_ceiling(
    mem: Seq<u8>,
    chains: Seq<DescriptorChain>,
    rl: RateLimiter,
    b: TokenBucket,
    pending: Seq<Seq<u8>>,
    incoming: Seq<Seq<u8>>,
)
    requires
        rl.bandwidth == Some(b),
        forall|i: int|
            0 <= i < pending.len() ==> (#[trigger] pending[i]).len() + VNET_HDR_LEN
                < 0x1_0000_0000,
        forall|i: int|
            0 <= i < incoming.len() ==> (#[trigger] incoming[i]).len() + VNET_HDR_LEN
                < 0x1_0000_0000,
    ensures
        used_bytes(rx_pass_rec(mem, chains, rl, pending, incoming).used) <= b.budget
            + b.one_time_burst,
    decreases pending.len() + incoming.len(), (if pending.len() == 0 {
        1int
    } else {
        0int
    }),
{
    if pending.len() == 0 && incoming.len() == 0 {
        assert(used_bytes(Seq::<UsedElem>::empty()) == 0);
    } else if pending.len() == 0 {
        let k = crate::xfer::min_int(RX_BURST_SIZE as int, incoming.len() as int);
        assert(forall|i: int|
            0 <= i < incoming.take(k).len() ==> (#[trigger] incoming.take(k)[i]).len()
                + VNET_HDR_LEN < 0x1_0000_0000);
        assert(forall|i: int|
            0 <= i < incoming.skip(k).len() ==> (#[trigger] incoming.skip(k)[i]).len()
                + VNET_HDR_LEN < 0x1_0000_0000);
        lemma_rx_pass_byte_ceiling(mem, chains, rl, b, incoming.take(k), incoming.skip(k));
    } else {
        let f = framed(pending[0]);
        if !rl_consume_ok(rl, 1, TokenType::Ops) {
            assert(used_bytes(Seq::<UsedElem>::empty()) == 0);
        } else {
            let rl1 = rl_after_consume(rl, 1, TokenType::Ops);
            let amt = (VNET_HDR_LEN + pending[0].len()) as u64;
            assert(rl1.bandwidth == Some(b));
            if !rl_consume_ok(rl1, amt, TokenType::Bytes) {
                assert(used_bytes(Seq::<UsedElem>::empty()) == 0);
            } else {
                let rl2 = rl_after_consume(rl1, amt, TokenType::Bytes);
                let b2 = tb_after_consume(b, amt);
                assert(rl2.bandwidth == Some(b2));
                assert(b2.budget + b2.one_time_burst == b.budget + b.one_time_burst - amt);
                let m = rx_retry_rec(mem, chains, f);
                assert(f.len() == VNET_HDR_LEN + pending[0].len() < 0x1_0000_0000);
                lemma_retry_used_bytes(mem, chains, f);
                if m.delivered {
                    let rest = rx_pass_rec(
                        m.mem,
                        chains.skip(m.consumed),
                        rl2,
                        pending.skip(1),
                        incoming,
                    );
                    assert(forall|i: int|
                        0 <= i < pending.skip(1).len() ==> (#[trigger] pending.skip(
                            1,
                        )[i]).len() + VNET_HDR_LEN < 0x1_0000_0000);
                    lemma_rx_pass_byte_ceiling(
                        m.mem,
                        chains.skip(m.consumed),
                        rl2,
                        b2,
                        pending.skip(1),
                        incoming,
                    );
                    lemma_used_bytes_app(m.used, rest.used);
                    assert(amt == f.len());
                }
            }
        }
    }
}

/// A transmit drain over well-formed input consumes every chain: with both
/// limiter directions unconfigured and every chain readable and long enough
/// to carry the header, the drain marks every chain used, forwards one frame
/// per chain, and never throttles.
pub proof fn lemma_tx_drain_clean(mem: Seq<u8>, chains: Seq<DescriptorChain>, rl: RateLimiter)
    requires
        rl.bandwidth is None,
        rl.ops is None,
        forall|i: int|
            0 <= i < chains.len() ==> chain_all_readable((#[trigger] chains[i]).segs@)
                && tx_read_rec(mem, chains[i].segs@, Seq::empty()).data.len() >= VNET_HDR_LEN,
    ensures
        tx_drain_rec(mem, chains, rl).consumed == chains.len(),
        tx_drain_rec(mem, chains, rl).used.len() == chains.len(),
        tx_drain_rec(mem, chains, rl).forwarded.len() == chains.len(),
        !tx_drain_rec(mem, chains, rl).throttled,
        tx_drain_rec(mem, chains, rl).rl == rl,
    decreases chains.len(),
{
    if chains.len() > 0 {
        assert(chains[0] == chains.index(0));
        lemma_tx_drain_clean(mem, chains.skip(1), rl);
        let rest = tx_drain_rec(mem, chains.skip(1), rl);
        let d = tx_drain_rec(mem, chains, rl);
        assert(d.used.len() == 1 + rest.used.len());
        assert(d.forwarded.len() == 1 + rest.forwarded.len());
    }
}

/// Transmit batching takes the minimal number of transport calls: sending
/// `k * c + r` frames (`0 <= r < c`) with batch capacity `c` yields exactly
/// `k` full batches plus one partial batch when `r > 0` — the ceiling of the
/// frame count over the capacity — and no call ever carries more than `c`
/// frames or none at all.
pub proof fn lemma_batch_split_count(k: int, r: int, c: int)
    requires
        k >= 0,
        0 <= r < c,
    ensures
        batch_split(k * c + r, c).len() == k + if r > 0 {
            1int
        } else {
            0int
        },
        forall|i: int|
            0 <= i < batch_split(k * c + r, c).len() ==> 0 < #[trigger] batch_split(
                k * c + r,
                c,
            )[i] <= c,
{
    lemma_batch_split_decomp(k, r, c);
    let whole = full_batches(k, c) + (if r > 0 {
        seq![r]
    } else {
        Seq::<int>::empty()
    });
    assert forall|i: int| 0 <= i < whole.len() implies 0 < #[trigger] whole[i] <= c by {
        if i < k {
            assert(whole[i] == c);
        }
    }
}

/// Malformed input is discarded safely: when the front chain cannot take the
/// frame (a read-only segment, an unmapped segment, or too little room), the
/// delivery walk marks exactly that chain used with length 0 and carries on
/// with the remaining chains; nothing stops the pass.
pub proof fn lemma_malformed_chain_discarded(
    mem: Seq<u8>,
    chains: Seq<DescriptorChain>,
    frame: Seq<u8>,
)
    requires
        chains.len() > 0,
        crate::xfer::rx_write_rec(mem, chains[0].segs@, frame, 0).err is Some,
    ensures
        ({
            let m = crate::device::rx_retry_rec(mem, chains, frame);
            let o = crate::xfer::rx_write_rec(mem, chains[0].segs@, frame, 0);
            let rest = crate::device::rx_retry_rec(o.mem, chains.skip(1), frame);
            &&& m.used.len() >= 1
            &&& m.used[0] == (crate::queue::UsedElem { id: chains[0].spec_head_id(), len: 0 })
            &&& m.consumed == 1 + rest.consumed
            &&& m.delivered == rest.delivered
            &&& m.used == seq![
                (crate::queue::UsedElem { id: chains[0].spec_head_id(), len: 0 }),
            ] + rest.used
        }),
{
}

} // verus!
