use virtio_net::device::{MacAddr, Net};
use virtio_net::mem::{GuestMem, GuestMemoryError};
use virtio_net::queue::{Descriptor, DescriptorChain, Queue, UsedElem};
use virtio_net::rate_limiter::RateLimiter;
use virtio_net::transport::{Error, Transport};
use virtio_net::xfer::{read_frame_from_chain, write_frame_to_chain, FrontendError};

fn chain(descs: &[(u16, u64, u32, bool)]) -> DescriptorChain {
    let segs: Vec<Descriptor> = descs
        .iter()
        .map(|&(id, addr, len, write_only)| Descriptor { id, addr, len, write_only })
        .collect();
    DescriptorChain { segs }
}

#[test]
fn test_guest_mem_roundtrip() {
    let mut m = GuestMem::new(64);
    assert_eq!(m.len(), 64);
    let data = vec![1u8, 2, 3, 4, 5];
    assert_eq!(m.write_range(10, &data, 1, 4), Ok(()));
    assert_eq!(m.read_range(10, 3), Ok(vec![2u8, 3, 4]));
    // Out-of-range accesses fault and change nothing.
    assert_eq!(
        m.write_range(62, &data, 0, 5),
        Err(GuestMemoryError::InvalidGuestAddress)
    );
    assert_eq!(
        m.read_range(62, 5),
        Err(GuestMemoryError::InvalidGuestAddress)
    );
    assert_eq!(m.read_range(10, 3), Ok(vec![2u8, 3, 4]));
}

#[test]
fn test_queue_pop_order_and_undo() {
    let mut q = Queue::new(4);
    q.add_avail(chain(&[(1, 0, 8, true)]));
    q.add_avail(chain(&[(2, 8, 8, true)]));
    let first = q.pop().unwrap();
    assert_eq!(first.head_id(), 1);
    q.undo_pop(first);
    let again = q.pop().unwrap();
    assert_eq!(again.head_id(), 1);
    let second = q.pop().unwrap();
    assert_eq!(second.head_id(), 2);
    assert!(q.pop().is_none());
    q.add_used(2, 0);
    assert_eq!(q.used, vec![UsedElem { id: 2, len: 0 }]);
}

#[test]
fn test_transport_ring_empty() {
    let mut t = Transport::new();
    assert_eq!(t.pop_frame(), Err(Error::RingDequeueFailed));
    t.push_incoming(vec![1u8, 2, 3]);
    assert_eq!(t.pop_frame(), Ok(vec![1u8, 2, 3]));
    assert_eq!(t.pop_frame(), Err(Error::RingDequeueFailed));
}

#[test]
fn test_transport_burst_and_batch() {
    let mut t = Transport::new();
    for i in 0..5u8 {
        t.push_incoming(vec![i; 4]);
    }
    let burst = t.receive_burst(3);
    assert_eq!(burst.len(), 3);
    assert_eq!(burst[0], vec![0u8; 4]);
    assert_eq!(burst[2], vec![2u8; 4]);
    let rest = t.receive_burst(10);
    assert_eq!(rest.len(), 2);
    assert_eq!(t.receive_burst(10).len(), 0);

    t.send_batch(vec![vec![9u8], vec![8u8]]);
    t.send_batch(vec![vec![7u8]]);
    assert_eq!(t.sent, vec![vec![9u8], vec![8u8], vec![7u8]]);
    assert_eq!(t.batch_sizes, vec![2, 1]);
}

#[test]
fn test_write_frame_errors() {
    let mut m = GuestMem::new(100);
    let frame = vec![5u8; 40];

    // A read-only segment stops the write.
    let c = chain(&[(0, 0, 10, true), (1, 20, 40, false)]);
    assert_eq!(
        write_frame_to_chain(&mut m, &c, &frame),
        Err(FrontendError::ReadOnlyDescriptor)
    );

    // An unmapped segment faults.
    let c = chain(&[(0, 90, 40, true)]);
    assert_eq!(
        write_frame_to_chain(&mut m, &c, &frame),
        Err(FrontendError::GuestMemory(GuestMemoryError::InvalidGuestAddress))
    );

    // A chain with too little room is rejected whole.
    let c = chain(&[(0, 0, 10, true)]);
    assert_eq!(
        write_frame_to_chain(&mut m, &c, &frame),
        Err(FrontendError::DescriptorChainTooSmall)
    );

    // A fitting chain takes the whole frame.
    let c = chain(&[(0, 0, 25, true), (1, 50, 30, true)]);
    assert_eq!(write_frame_to_chain(&mut m, &c, &frame), Ok(()));
    assert_eq!(&m.bytes[0..25], &frame[0..25]);
    assert_eq!(&m.bytes[50..65], &frame[25..40]);
}

#[test]
fn test_empty_queue_is_backpressure() {
    let mut net = Net::new(
        String::from("net-bp"),
        None,
        RateLimiter::new(0, 0, 0, 0, 0, 0),
        RateLimiter::new(0, 0, 0, 0, 0, 0),
    );
    net.activate(GuestMem::new(256));
    net.rx_pending.push(vec![1u8, 2, 3]);
    assert_eq!(
        net.do_write_frame_to_guest(),
        Err(FrontendError::EmptyQueue)
    );
    assert_eq!(net.metrics.no_rx_avail_buffer, 1);
    // The frame is retained, nothing was consumed.
    assert_eq!(net.rx_pending.len(), 1);
    assert_eq!(net.rx_queue.used.len(), 0);
}

#[test]
fn test_read_frame_truncates_at_fault() {
    let mut m = GuestMem::new(32);
    for i in 0..32 {
        m.bytes[i] = i as u8;
    }
    // The second segment runs past the mapping: the read keeps what the
    // first segment yielded.
    let c = chain(&[(0, 0, 16, false), (1, 24, 16, false)]);
    let (data, partial) = read_frame_from_chain(&m, &c);
    assert!(partial);
    assert_eq!(&data[..], &(0..16).map(|i| i as u8).collect::<Vec<u8>>()[..]);

    // A fully mapped chain reads everything in link order.
    let c = chain(&[(7, 16, 8, false), (3, 0, 8, false)]);
    let (data, partial) = read_frame_from_chain(&m, &c);
    assert!(!partial);
    let expected: Vec<u8> = (16..24).chain(0..8).map(|i| i as u8).collect();
    assert_eq!(&data[..], &expected[..]);
}
