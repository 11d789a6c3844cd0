use virtio_net::device::{MacAddr, Net};
use virtio_net::mem::GuestMem;
use virtio_net::queue::{Descriptor, DescriptorChain, UsedElem};
use virtio_net::rate_limiter::RateLimiter;

const MEM_SIZE: usize = 0x40000;
const HDR: usize = 12;

fn test_net() -> Net {
    let mut net = Net::new(
        String::from("net-tx"),
        Some(MacAddr::from_bytes(&vec![0x11, 0x22, 0x33, 0x44, 0x55, 0x66])),
        RateLimiter::new(0, 0, 0, 0, 0, 0),
        RateLimiter::new(0, 0, 0, 0, 0, 0),
    );
    net.activate(GuestMem::new(MEM_SIZE));
    net
}

fn chain(descs: &[(u16, u64, u32, bool)]) -> DescriptorChain {
    let segs: Vec<Descriptor> = descs
        .iter()
        .map(|&(id, addr, len, write_only)| Descriptor { id, addr, len, write_only })
        .collect();
    DescriptorChain { segs }
}

fn add_tx_chain(net: &mut Net, descs: &[(u16, u64, u32, bool)]) {
    net.tx_queue.add_avail(chain(descs));
}

/// Writes a whole frame (header plus payload) into the chain's segments in
/// link order and returns it; what the transport must receive is the frame
/// with the header stripped.
fn write_tx_frame(net: &mut Net, descs: &[(u16, u64, u32, bool)]) -> Vec<u8> {
    let total: usize = descs.iter().map(|d| d.2 as usize).sum();
    let frame: Vec<u8> = (0..total).map(|i| (i % 249) as u8 + 3).collect();
    let mut pos = 0usize;
    for &(_, addr, len, _) in descs {
        for j in 0..len as usize {
            net.mem.bytes[addr as usize + j] = frame[pos + j];
        }
        pos += len as usize;
    }
    frame
}

#[test]
fn test_tx_missing_queue_signal() {
    // A transmit doorbell with an empty queue: nothing is consumed, nothing
    // is sent, no interrupt is raised.
    let mut net = test_net();
    net.process_tx_queue_event();
    assert_eq!(net.tx_queue.used.len(), 0);
    assert_eq!(net.transport.sent.len(), 0);
    assert_eq!(net.irq_count, 0);
    assert_eq!(net.metrics.no_tx_avail_buffer, 1);
}

#[test]
fn test_tx_writeable_descriptor() {
    let mut net = test_net();
    let desc_list = [(0, 0x1000, 100, false), (1, 0x2000, 100, true), (2, 0x3000, 500, false)];
    add_tx_chain(&mut net, &desc_list);
    write_tx_frame(&mut net, &desc_list);
    net.process_tx_queue_event();

    // The used queue advanced; the frame was skipped.
    assert_eq!(net.tx_queue.used.len(), 1);
    assert_eq!(net.tx_queue.used[0], UsedElem { id: 0, len: 0 });
    assert_eq!(net.irq_count, 1);
    assert_eq!(net.transport.sent.len(), 0);
}

#[test]
fn test_tx_short_frame() {
    let mut net = test_net();
    // An invalid frame, too small to carry the virtio-net header.
    add_tx_chain(&mut net, &[(0, 0, 1, false)]);
    net.process_tx_queue_event();

    assert_eq!(net.metrics.tx_malformed_frames, 1);
    assert_eq!(net.tx_queue.used.len(), 1);
    assert_eq!(net.tx_queue.used[0], UsedElem { id: 0, len: 0 });
    assert_eq!(net.irq_count, 1);
    assert_eq!(net.transport.sent.len(), 0);
}

#[test]
fn test_tx_partial_read() {
    let mut net = test_net();
    let m = MEM_SIZE as u64;
    // The last descriptor does not fit in guest memory: the frame is
    // truncated to the bytes read before the fault and still forwarded.
    let desc_list = [(0, m - 300, 100, false), (1, m - 200, 50, false), (2, m - 150, 4096, false)];
    add_tx_chain(&mut net, &desc_list);
    let mut expected = Vec::new();
    for &(_, addr, len, _) in &desc_list[..2] {
        for j in 0..len as usize {
            let b = ((addr as usize + j) % 247) as u8;
            net.mem.bytes[addr as usize + j] = b;
            expected.push(b);
        }
    }
    net.process_tx_queue_event();

    assert_eq!(net.metrics.tx_partial_reads, 1);
    assert_eq!(net.tx_queue.used.len(), 1);
    assert_eq!(net.tx_queue.used[0], UsedElem { id: 0, len: 0 });
    assert_eq!(net.irq_count, 1);
    // The 150 readable bytes minus the header were forwarded.
    assert_eq!(net.transport.sent.len(), 1);
    assert_eq!(&net.transport.sent[0][..], &expected[HDR..]);
}

#[test]
fn test_tx_retry() {
    let mut net = test_net();
    let m = MEM_SIZE as u64;

    // Add invalid descriptor chain - writeable descriptor.
    add_tx_chain(
        &mut net,
        &[(0, 0x1000, 100, false), (1, 0x2000, 100, true), (2, 0x3000, 500, false)],
    );
    // Add invalid descriptor chain - invalid memory.
    add_tx_chain(&mut net, &[(3, m - 1, 100, false)]);
    // Add invalid descriptor chain - too short.
    add_tx_chain(&mut net, &[(0, 700, 1, false)]);

    // Add valid descriptor chain.
    let desc_list = [(4, 0x8000, 1000, false)];
    add_tx_chain(&mut net, &desc_list);
    let frame = write_tx_frame(&mut net, &desc_list);

    net.process_tx_queue_event();

    // The unreadable-memory chain and the short chain are malformed frames;
    // the write-only chain is silently discarded before any read.
    assert_eq!(net.metrics.tx_malformed_frames, 2);
    // The used queue advanced over all four chains.
    assert_eq!(net.tx_queue.used.len(), 4);
    assert_eq!(net.irq_count, 1);
    assert_eq!(net.tx_queue.used[3], UsedElem { id: 4, len: 0 });
    // Only the valid frame reached the transport, header stripped.
    assert_eq!(net.transport.sent.len(), 1);
    assert_eq!(&net.transport.sent[0][..], &frame[HDR..]);
}

#[test]
fn test_tx_complex_descriptor() {
    let mut net = test_net();
    // Gaps between the descriptor ids ensure the `next` links are followed.
    let desc_list = [(3, 0x1000, 100, false), (5, 0x3000, 50, false), (11, 0x5000, 850, false)];
    add_tx_chain(&mut net, &desc_list);
    let frame = write_tx_frame(&mut net, &desc_list);

    net.process_tx_queue_event();

    assert_eq!(net.tx_queue.used.len(), 1);
    assert_eq!(net.tx_queue.used[0], UsedElem { id: 3, len: 0 });
    assert_eq!(net.irq_count, 1);
    // The transport received one 988-byte frame equal to the concatenation
    // in chain-link order, header stripped.
    assert_eq!(net.transport.sent.len(), 1);
    assert_eq!(net.transport.sent[0].len(), 1000 - HDR);
    assert_eq!(&net.transport.sent[0][..], &frame[HDR..]);
}

#[test]
fn test_tx_multiple_frame() {
    let mut net = test_net();
    let desc_list_1 = [(0, 0x1000, 50, false), (1, 0x2000, 100, false), (2, 0x3000, 150, false)];
    add_tx_chain(&mut net, &desc_list_1);
    let frame_1 = write_tx_frame(&mut net, &desc_list_1);
    let desc_list_2 = [(3, 0x4000, 100, false), (4, 0x5000, 200, false), (5, 0x6000, 300, false)];
    add_tx_chain(&mut net, &desc_list_2);
    let frame_2 = write_tx_frame(&mut net, &desc_list_2);

    net.process_tx_queue_event();

    assert_eq!(net.tx_queue.used.len(), 2);
    assert_eq!(net.tx_queue.used[0], UsedElem { id: 0, len: 0 });
    assert_eq!(net.tx_queue.used[1], UsedElem { id: 3, len: 0 });
    assert_eq!(net.irq_count, 1);
    assert_eq!(net.transport.sent.len(), 2);
    assert_eq!(&net.transport.sent[0][..], &frame_1[HDR..]);
    assert_eq!(&net.transport.sent[1][..], &frame_2[HDR..]);
    // Both frames went out in one batch.
    assert_eq!(net.transport.batch_sizes, vec![2]);
}

#[test]
fn test_tx_batching_six_hundred_chains() {
    // Batch capacity 512 with 600 ready chains: two transport calls of
    // sizes 512 and 88, and the used index advances by exactly 600.
    let mut net = test_net();
    // Chains larger than the descriptor table entry count need a larger
    // queue for this test.
    net.tx_queue.size = 1024;
    for i in 0..600u64 {
        let addr = i * 32;
        add_tx_chain(&mut net, &[(i as u16, addr, 20, false)]);
        for j in 0..20 {
            net.mem.bytes[(addr + j) as usize] = (i % 200) as u8;
        }
    }
    net.process_tx_queue_event();

    assert_eq!(net.tx_queue.used.len(), 600);
    assert_eq!(net.transport.batch_sizes, vec![512, 88]);
    assert_eq!(net.transport.sent.len(), 600);
    assert_eq!(net.transport.sent[599].len(), 20 - HDR);
    assert_eq!(net.irq_count, 1);
}
