use virtio_net::device::{MacAddr, Net};
use virtio_net::mem::GuestMem;
use virtio_net::queue::{Descriptor, DescriptorChain, UsedElem};
use virtio_net::rate_limiter::RateLimiter;

const MEM_SIZE: usize = 0x10000;
const HDR: usize = 12;

fn test_net() -> Net {
    let mut net = Net::new(
        String::from("net-rx"),
        Some(MacAddr::from_bytes(&vec![0x11, 0x22, 0x33, 0x44, 0x55, 0x66])),
        RateLimiter::new(0, 0, 0, 0, 0, 0),
        RateLimiter::new(0, 0, 0, 0, 0, 0),
    );
    net.activate(GuestMem::new(MEM_SIZE));
    net
}

fn chain(descs: &[(u16, u64, u32, bool)]) -> DescriptorChain {
    let segs: Vec<Descriptor> = descs
        .iter()
        .map(|&(id, addr, len, write_only)| Descriptor { id, addr, len, write_only })
        .collect();
    DescriptorChain { segs }
}

fn add_rx_chain(net: &mut Net, descs: &[(u16, u64, u32, bool)]) {
    net.rx_queue.add_avail(chain(descs));
}

/// A payload whose framed length (header included) is `framed_len`.
fn inject_frame(net: &mut Net, framed_len: usize) -> Vec<u8> {
    let payload: Vec<u8> = (0..framed_len - HDR).map(|i| (i % 251) as u8 + 1).collect();
    net.transport.push_incoming(payload.clone());
    // What the guest must see: the zero header followed by the payload.
    let mut framed = vec![0u8; HDR];
    framed.extend_from_slice(&payload);
    framed
}

fn guest_bytes(net: &Net, addr: u64, len: usize) -> &[u8] {
    &net.mem.bytes[addr as usize..addr as usize + len]
}

#[test]
fn test_rx_missing_queue_signal() {
    // A receive-queue doorbell with nothing to deliver: the used ring must
    // not advance and no interrupt is raised.
    let mut net = test_net();
    add_rx_chain(&mut net, &[(0, 0, 4096, true)]);
    net.process_rx_queue_event();
    assert_eq!(net.rx_queue.used.len(), 0);
    assert_eq!(net.irq_count, 0);
}

#[test]
fn test_rx_read_only_descriptor() {
    let mut net = test_net();
    add_rx_chain(
        &mut net,
        &[(0, 0, 100, true), (1, 200, 100, false), (2, 400, 1000, true)],
    );
    let frame = inject_frame(&mut net, 1000);
    net.process_tap_rx_event();

    // The chain was discarded with length 0 and the frame deferred.
    assert_eq!(net.rx_queue.used.len(), 1);
    assert_eq!(net.rx_queue.used[0], UsedElem { id: 0, len: 0 });
    assert!(net.rx_deferred_frame);
    assert_eq!(net.irq_count, 1);

    // A suitable chain appears; the resume entry point delivers the frame.
    add_rx_chain(&mut net, &[(0, 0x2000, 4096, true)]);
    net.process_rx_queue_event();
    assert!(!net.rx_deferred_frame);
    assert_eq!(net.rx_queue.used.len(), 2);
    assert_eq!(net.rx_queue.used[1], UsedElem { id: 0, len: 1000 });
    assert_eq!(guest_bytes(&net, 0x2000, 1000), &frame[..]);
    assert_eq!(net.irq_count, 2);
}

#[test]
fn test_rx_short_writable_descriptor() {
    let mut net = test_net();
    add_rx_chain(&mut net, &[(0, 0, 100, true)]);
    let frame = inject_frame(&mut net, 1000);
    net.process_tap_rx_event();

    assert_eq!(net.rx_queue.used.len(), 1);
    assert_eq!(net.rx_queue.used[0], UsedElem { id: 0, len: 0 });
    assert!(net.rx_deferred_frame);

    add_rx_chain(&mut net, &[(0, 0x2000, 4096, true)]);
    net.process_rx_queue_event();
    assert!(!net.rx_deferred_frame);
    assert_eq!(net.rx_queue.used[1], UsedElem { id: 0, len: 1000 });
    assert_eq!(guest_bytes(&net, 0x2000, 1000), &frame[..]);
}

#[test]
fn test_rx_partial_write() {
    let mut net = test_net();
    // The last descriptor does not fit in guest memory.
    let m = MEM_SIZE as u64;
    add_rx_chain(
        &mut net,
        &[
            (0, m - 300, 100, true),
            (1, m - 200, 50, true),
            (2, m - 150, 4096, true),
        ],
    );
    let frame = inject_frame(&mut net, 1000);
    net.process_tap_rx_event();

    assert_eq!(net.rx_queue.used.len(), 1);
    assert_eq!(net.rx_queue.used[0], UsedElem { id: 0, len: 0 });
    assert!(net.rx_deferred_frame);

    add_rx_chain(&mut net, &[(0, 0x2000, 4096, true)]);
    net.process_rx_queue_event();
    assert!(!net.rx_deferred_frame);
    assert_eq!(net.rx_queue.used[1], UsedElem { id: 0, len: 1000 });
    assert_eq!(guest_bytes(&net, 0x2000, 1000), &frame[..]);
}

#[test]
fn test_rx_retry() {
    let mut net = test_net();
    let m = MEM_SIZE as u64;

    // Add invalid descriptor chain - read only descriptor.
    add_rx_chain(
        &mut net,
        &[(0, 0, 100, true), (1, 200, 100, false), (2, 400, 1000, true)],
    );
    // Add invalid descriptor chain - too short.
    add_rx_chain(&mut net, &[(3, 1200, 100, true)]);
    // Add invalid descriptor chain - invalid memory offset.
    add_rx_chain(&mut net, &[(4, m - 1, 1000, true)]);
    // Add valid descriptor chain.
    add_rx_chain(&mut net, &[(5, 1300, 1000, true)]);

    let frame = inject_frame(&mut net, 1000);
    net.process_tap_rx_event();

    // Check that the used queue has advanced over all four chains.
    assert_eq!(net.rx_queue.used.len(), 4);
    assert_eq!(net.irq_count, 1);
    // Check that the invalid descriptor chains have been discarded.
    assert_eq!(net.rx_queue.used[0], UsedElem { id: 0, len: 0 });
    assert_eq!(net.rx_queue.used[1], UsedElem { id: 3, len: 0 });
    assert_eq!(net.rx_queue.used[2], UsedElem { id: 4, len: 0 });
    // Check that the frame wasn't deferred.
    assert!(!net.rx_deferred_frame);
    // Check that the frame has been written successfully to the valid chain.
    assert_eq!(net.rx_queue.used[3], UsedElem { id: 5, len: 1000 });
    assert_eq!(guest_bytes(&net, 1300, 1000), &frame[..]);
}

#[test]
fn test_rx_complex_desc_chain() {
    let mut net = test_net();
    // Gaps between the descriptor ids ensure the `next` links are followed.
    add_rx_chain(
        &mut net,
        &[
            (3, 0x1000, 100, true),
            (5, 0x3000, 50, true),
            (11, 0x5000, 4096, true),
        ],
    );
    let frame = inject_frame(&mut net, 1000);
    net.process_tap_rx_event();

    assert!(!net.rx_deferred_frame);
    assert_eq!(net.rx_queue.used.len(), 1);
    assert_eq!(net.rx_queue.used[0], UsedElem { id: 3, len: 1000 });
    assert_eq!(net.irq_count, 1);
    // The frame is split across the segments in link order.
    assert_eq!(guest_bytes(&net, 0x1000, 100), &frame[..100]);
    assert_eq!(guest_bytes(&net, 0x3000, 50), &frame[100..150]);
    assert_eq!(guest_bytes(&net, 0x5000, 850), &frame[150..]);
}

#[test]
fn test_rx_multiple_frames() {
    let mut net = test_net();
    // Two chains; each has room for both frames but takes exactly one.
    add_rx_chain(&mut net, &[(0, 0x1000, 500, true), (1, 0x2000, 500, true)]);
    add_rx_chain(&mut net, &[(2, 0x3000, 500, true), (3, 0x4000, 500, true)]);
    let frame_1 = inject_frame(&mut net, 200);
    let frame_2 = inject_frame(&mut net, 300);
    net.process_tap_rx_event();

    assert!(!net.rx_deferred_frame);
    assert_eq!(net.rx_queue.used.len(), 2);
    // One interrupt for the whole pass.
    assert_eq!(net.irq_count, 1);
    assert_eq!(net.rx_queue.used[0], UsedElem { id: 0, len: 200 });
    assert_eq!(guest_bytes(&net, 0x1000, 200), &frame_1[..]);
    assert_eq!(guest_bytes(&net, 0x2000, 500), &[0u8; 500][..]);
    assert_eq!(net.rx_queue.used[1], UsedElem { id: 2, len: 300 });
    assert_eq!(guest_bytes(&net, 0x3000, 300), &frame_2[..]);
    assert_eq!(guest_bytes(&net, 0x4000, 500), &[0u8; 500][..]);
}

#[test]
fn test_read_tap_fail_event_handler() {
    // While the RX queue is empty and a frame is deferred, a transport
    // event must not touch anything but the starvation counter.
    let mut net = test_net();
    let frame = inject_frame(&mut net, 1000);
    net.process_tap_rx_event();
    assert!(net.rx_deferred_frame);
    assert_eq!(net.metrics.no_rx_avail_buffer, 1);

    net.process_tap_rx_event();
    assert_eq!(net.metrics.no_rx_avail_buffer, 2);
    assert_eq!(net.rx_queue.used.len(), 0);
    assert!(net.rx_deferred_frame);

    // Once a buffer appears, the deferred frame is delivered.
    add_rx_chain(&mut net, &[(0, 0x2000, 4096, true)]);
    net.process_tap_rx_event();
    assert!(!net.rx_deferred_frame);
    assert_eq!(net.rx_queue.used[0], UsedElem { id: 0, len: 1000 });
    assert_eq!(guest_bytes(&net, 0x2000, 1000), &frame[..]);
}

#[test]
fn test_rx_deferral_no_loss_no_dup() {
    // Deferral keeps the frame: it is delivered exactly once after resume,
    // and an extra resume delivers nothing more.
    let mut net = test_net();
    let frame = inject_frame(&mut net, 500);
    net.process_tap_rx_event();
    assert!(net.rx_deferred_frame);
    assert_eq!(net.rx_pending.len(), 1);

    add_rx_chain(&mut net, &[(7, 0x800, 600, true)]);
    net.process_rx_queue_event();
    assert_eq!(net.rx_queue.used.len(), 1);
    assert_eq!(net.rx_queue.used[0], UsedElem { id: 7, len: 500 });
    assert_eq!(guest_bytes(&net, 0x800, 500), &frame[..]);
    assert_eq!(net.rx_pending.len(), 0);

    // Nothing left: a second resume changes nothing.
    add_rx_chain(&mut net, &[(8, 0x2000, 600, true)]);
    net.process_rx_queue_event();
    assert_eq!(net.rx_queue.used.len(), 1);
}
