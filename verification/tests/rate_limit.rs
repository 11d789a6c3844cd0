use virtio_net::device::{MacAddr, Net};
use virtio_net::mem::GuestMem;
use virtio_net::queue::{Descriptor, DescriptorChain, UsedElem};
use virtio_net::rate_limiter::{BucketUpdate, RateLimiter, TimerError, TokenBucket, TokenType};

const MEM_SIZE: usize = 0x10000;
const HDR: usize = 12;

fn test_net() -> Net {
    let mut net = Net::new(
        String::from("net-rl"),
        Some(MacAddr::from_bytes(&vec![0x11, 0x22, 0x33, 0x44, 0x55, 0x66])),
        RateLimiter::new(0, 0, 0, 0, 0, 0),
        RateLimiter::new(0, 0, 0, 0, 0, 0),
    );
    net.activate(GuestMem::new(MEM_SIZE));
    net
}

fn chain(descs: &[(u16, u64, u32, bool)]) -> DescriptorChain {
    let segs: Vec<Descriptor> = descs
        .iter()
        .map(|&(id, addr, len, write_only)| Descriptor { id, addr, len, write_only })
        .collect();
    DescriptorChain { segs }
}

#[test]
fn test_process_error_cases() {
    let mut net = test_net();

    // RX rate limiter events should error since the limiter is not blocked.
    net.process_rx_rate_limiter_event();
    assert_eq!(net.metrics.event_fails, 1);

    // TX rate limiter events should error since the limiter is not blocked.
    net.process_tx_rate_limiter_event();
    assert_eq!(net.metrics.event_fails, 2);
}

#[test]
fn test_rx_rate_limiter_handling() {
    let mut net = test_net();
    net.rx_rate_limiter = RateLimiter::new(0, 0, 0, 0, 0, 0);
    // There is no pending event on the rate limiter's timer.
    net.process_rx_rate_limiter_event();
    assert_eq!(net.metrics.event_fails, 1);
}

#[test]
fn test_tx_rate_limiter_handling() {
    let mut net = test_net();
    net.tx_rate_limiter = RateLimiter::new(0, 0, 0, 0, 0, 0);
    // There is no pending event on the rate limiter's timer.
    net.process_tx_rate_limiter_event();
    assert_eq!(net.metrics.event_fails, 1);
}

#[test]
fn test_bandwidth_rate_limiter() {
    // Test TX bandwidth rate limiting.
    {
        let mut net = test_net();
        // A bandwidth bucket of 0x1000 bytes, with the budget used up.
        let mut rl = RateLimiter::new(0x1000, 0, 100, 0, 0, 0);
        assert!(rl.consume(0x1000, TokenType::Bytes));
        net.tx_rate_limiter = rl;

        // The TX attempt must fail on bandwidth rate limiting.
        net.tx_queue.add_avail(chain(&[(0, 0, 4096, false)]));
        net.process_tx_queue_event();
        assert!(net.tx_rate_limiter.is_blocked());
        assert_eq!(net.metrics.tx_rate_limiter_throttled, 1);
        // The data is still queued for processing.
        assert_eq!(net.tx_queue.used.len(), 0);

        // The replenishment event refills the budget; the blocked chain is
        // processed.
        net.process_tx_rate_limiter_event();
        assert!(!net.tx_rate_limiter.is_blocked());
        assert_eq!(net.tx_queue.used.len(), 1);
        assert_eq!(net.transport.sent.len(), 1);
        assert_eq!(net.transport.sent[0].len(), 4096 - HDR);
    }

    // Test RX bandwidth rate limiting.
    {
        let mut net = test_net();
        let mut rl = RateLimiter::new(0x1000, 0, 100, 0, 0, 0);
        assert!(rl.consume(0x1000, TokenType::Bytes));
        net.rx_rate_limiter = rl;

        assert!(!net.rx_deferred_frame);
        net.rx_queue.add_avail(chain(&[(0, 0, 4096, true)]));
        let payload: Vec<u8> = (0..1000 - HDR).map(|i| (i % 251) as u8 + 1).collect();
        net.transport.push_incoming(payload.clone());

        // The RX attempt must fail on bandwidth rate limiting.
        net.process_tap_rx_event();
        assert!(net.rx_rate_limiter.is_blocked());
        assert_eq!(net.metrics.rx_rate_limiter_throttled, 1);
        assert!(net.rx_deferred_frame);
        // The data is still queued for processing.
        assert_eq!(net.rx_queue.used.len(), 0);

        // The replenishment event refills the budget; the deferred frame is
        // delivered.
        net.process_rx_rate_limiter_event();
        assert!(!net.rx_rate_limiter.is_blocked());
        assert_eq!(net.rx_queue.used.len(), 1);
        assert_eq!(net.rx_queue.used[0], UsedElem { id: 0, len: 1000 });
        assert_eq!(&net.mem.bytes[HDR..1000], &payload[..]);
        assert_eq!(&net.mem.bytes[..HDR], &[0u8; HDR][..]);
    }
}

#[test]
fn test_ops_rate_limiter() {
    // Test TX ops rate limiting.
    {
        let mut net = test_net();
        // An operations bucket of capacity 1, with the budget used up.
        let mut rl = RateLimiter::new(0, 0, 0, 1, 0, 100);
        assert!(rl.consume(1, TokenType::Ops));
        net.tx_rate_limiter = rl;

        // The TX attempt yields no processed chain and counts a throttling.
        net.tx_queue.add_avail(chain(&[(0, 0, 4096, false)]));
        net.process_tx_queue_event();
        assert_eq!(net.metrics.tx_rate_limiter_throttled, 1);
        assert!(net.tx_rate_limiter.is_blocked());
        assert_eq!(net.tx_queue.used.len(), 0);

        // After the timer fires, the blocked chain is processed and the
        // used index advances by one.
        net.process_tx_rate_limiter_event();
        assert!(!net.tx_rate_limiter.is_blocked());
        assert_eq!(net.tx_queue.used.len(), 1);
        assert_eq!(net.tx_queue.used[0], UsedElem { id: 0, len: 0 });
    }

    // Test RX ops rate limiting.
    {
        let mut net = test_net();
        let mut rl = RateLimiter::new(0, 0, 0, 1, 0, 100);
        assert!(rl.consume(1, TokenType::Ops));
        net.rx_rate_limiter = rl;

        assert!(!net.rx_deferred_frame);
        net.rx_queue.add_avail(chain(&[(0, 0, 4096, true)]));
        let payload: Vec<u8> = (0..1000 - HDR).map(|i| (i % 251) as u8 + 1).collect();
        net.transport.push_incoming(payload.clone());

        net.process_tap_rx_event();
        assert_eq!(net.metrics.rx_rate_limiter_throttled, 1);
        assert!(net.rx_rate_limiter.is_blocked());
        assert!(net.rx_deferred_frame);
        assert_eq!(net.rx_queue.used.len(), 0);

        // The limiter fast path: another event changes nothing while the
        // queue is nonempty but the limiter is still blocked.
        net.process_tap_rx_event();
        assert_eq!(net.rx_queue.used.len(), 0);

        // After the timer fires, the frame is delivered.
        net.process_rx_rate_limiter_event();
        assert_eq!(net.rx_queue.used.len(), 1);
        assert_eq!(net.rx_queue.used[0], UsedElem { id: 0, len: 1000 });
        assert_eq!(&net.mem.bytes[HDR..1000], &payload[..]);
    }
}

#[test]
fn test_patch_rate_limiters() {
    let mut net = test_net();
    net.rx_rate_limiter = RateLimiter::new(10, 0, 10, 2, 0, 2);
    net.tx_rate_limiter = RateLimiter::new(10, 0, 10, 2, 0, 2);

    let rx_bytes = TokenBucket::new(1000, 1001, 1002).unwrap();
    let rx_ops = TokenBucket::new(1003, 1004, 1005).unwrap();
    let tx_bytes = TokenBucket::new(1006, 1007, 1008).unwrap();
    let tx_ops = TokenBucket::new(1009, 1010, 1011).unwrap();

    net.patch_rate_limiters(
        BucketUpdate::Update(rx_bytes),
        BucketUpdate::Update(rx_ops),
        BucketUpdate::Update(tx_bytes),
        BucketUpdate::Update(tx_ops),
    );
    let compare_buckets = |a: &TokenBucket, b: &TokenBucket| {
        assert_eq!(a.capacity(), b.capacity());
        assert_eq!(a.one_time_burst(), b.one_time_burst());
        assert_eq!(a.refill_time_ms(), b.refill_time_ms());
    };
    compare_buckets(net.rx_rate_limiter.bandwidth().unwrap(), &rx_bytes);
    compare_buckets(net.rx_rate_limiter.ops().unwrap(), &rx_ops);
    compare_buckets(net.tx_rate_limiter.bandwidth().unwrap(), &tx_bytes);
    compare_buckets(net.tx_rate_limiter.ops().unwrap(), &tx_ops);

    net.patch_rate_limiters(
        BucketUpdate::Disabled,
        BucketUpdate::Disabled,
        BucketUpdate::Disabled,
        BucketUpdate::Disabled,
    );
    assert!(net.rx_rate_limiter.bandwidth().is_none());
    assert!(net.rx_rate_limiter.ops().is_none());
    assert!(net.tx_rate_limiter.bandwidth().is_none());
    assert!(net.tx_rate_limiter.ops().is_none());
}

#[test]
fn test_byte_budget_is_hard_ceiling() {
    // With a byte budget of 1000 and three 400-byte frames offered, no more
    // than 1000 bytes are ever delivered in one epoch.
    let mut net = test_net();
    net.rx_rate_limiter = RateLimiter::new(1000, 0, 100, 0, 0, 0);
    for i in 0..3u16 {
        net.rx_queue
            .add_avail(chain(&[(i, 0x1000 * (i as u64 + 1), 512, true)]));
        let payload = vec![7u8; 400 - HDR];
        net.transport.push_incoming(payload);
    }
    net.process_tap_rx_event();

    // Two frames of 400 bytes fit the budget; the third is blocked.
    assert_eq!(net.rx_queue.used.len(), 2);
    let delivered: u64 = net.rx_queue.used.iter().map(|u| u.len as u64).sum();
    assert!(delivered <= 1000);
    assert_eq!(delivered, 800);
    assert!(net.rx_rate_limiter.is_blocked());
    assert!(net.rx_deferred_frame);
}

#[test]
fn test_spurious_timer_event() {
    let mut rl = RateLimiter::new(16, 0, 100, 0, 0, 0);
    assert_eq!(
        rl.event_handler(),
        Err(TimerError::SpuriousRateLimiterEvent)
    );
    // After a failed consumption the timer is armed and the event succeeds.
    assert!(!rl.consume(17, TokenType::Bytes));
    assert!(rl.is_blocked());
    assert_eq!(rl.event_handler(), Ok(()));
    assert!(!rl.is_blocked());
    assert_eq!(rl.bandwidth().unwrap().budget(), 16);
}

#[test]
fn test_manual_replenish_caps_at_capacity() {
    let mut rl = RateLimiter::new(100, 0, 100, 0, 0, 0);
    assert!(rl.consume(30, TokenType::Bytes));
    assert_eq!(rl.bandwidth().unwrap().budget(), 70);
    rl.manual_replenish(10, TokenType::Bytes);
    assert_eq!(rl.bandwidth().unwrap().budget(), 80);
    rl.manual_replenish(1000, TokenType::Bytes);
    assert_eq!(rl.bandwidth().unwrap().budget(), 100);
}

#[test]
fn test_one_time_burst_spent_first() {
    let mut rl = RateLimiter::new(100, 50, 100, 0, 0, 0);
    assert!(rl.consume(40, TokenType::Bytes));
    let b = rl.bandwidth().unwrap();
    assert_eq!(b.one_time_burst(), 10);
    assert_eq!(b.budget(), 100);
    assert!(rl.consume(30, TokenType::Bytes));
    let b = rl.bandwidth().unwrap();
    assert_eq!(b.one_time_burst(), 0);
    assert_eq!(b.budget(), 80);
}
