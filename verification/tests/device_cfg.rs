use virtio_net::device::{MacAddr, Net};
use virtio_net::mem::GuestMem;
use virtio_net::rate_limiter::RateLimiter;
use virtio_net::{QUEUE_SIZE, TYPE_NET, VIRTIO_MMIO_INT_VRING};

fn mac(bytes: [u8; 6]) -> MacAddr {
    MacAddr::from_bytes(&bytes.to_vec())
}

fn default_net() -> Net {
    Net::new(
        String::from("net-dev"),
        Some(mac([0x11, 0x22, 0x33, 0x44, 0x55, 0x66])),
        RateLimiter::new(0, 0, 0, 0, 0, 0),
        RateLimiter::new(0, 0, 0, 0, 0, 0),
    )
}

#[test]
fn test_virtio_device_type() {
    let net = default_net();
    assert_eq!(net.device_type(), TYPE_NET);
}

#[test]
fn test_virtio_device_features() {
    let mut net = default_net();

    let features: u64 = (1 << 1) | (1 << 0) | (1 << 7) | (1 << 5) | (1 << 10) | (1 << 11)
        | (1 << 14) | (1u64 << 32);

    assert_eq!(net.avail_features_by_page(0), features as u32);
    assert_eq!(net.avail_features_by_page(1), (features >> 32) as u32);
    for i in 2..10 {
        assert_eq!(net.avail_features_by_page(i), 0u32);
    }

    for i in 0..10 {
        net.ack_features_by_page(i, u32::MAX);
    }

    assert_eq!(net.acked_features(), features);
}

#[test]
fn test_virtio_device_read_config() {
    let net = default_net();

    let mac_bytes = [0x11u8, 0x22, 0x33, 0x44, 0x55, 0x66];
    let mut config_mac = vec![0u8; 6];
    net.read_config(0, &mut config_mac);
    assert_eq!(&config_mac[..], &mac_bytes[..]);

    // Invalid read.
    let mut config_mac = vec![0u8; 6];
    net.read_config(6 + 1, &mut config_mac);
    assert_eq!(config_mac, vec![0u8, 0u8, 0u8, 0u8, 0u8, 0u8]);
}

#[test]
fn test_virtio_device_rewrite_config() {
    let mut net = default_net();

    let new_config: [u8; 6] = [0x66, 0x55, 0x44, 0x33, 0x22, 0x11];
    net.write_config(0, &new_config.to_vec());
    let mut new_config_read = vec![0u8; 6];
    net.read_config(0, &mut new_config_read);
    assert_eq!(&new_config[..], &new_config_read[..]);

    // Check that the guest MAC was updated.
    assert_eq!(&net.guest_mac().unwrap().bytes[..], &new_config[..]);
    assert_eq!(net.metrics.mac_address_updates, 1);

    // Partial write (this is how the kernel sets a new mac address) - byte by byte.
    let new_config = [0x11u8, 0x22, 0x33, 0x44, 0x55, 0x66];
    for i in 0..new_config.len() {
        net.write_config(i as u64, &new_config[i..=i].to_vec());
    }
    net.read_config(0, &mut new_config_read);
    assert_eq!(&new_config[..], &new_config_read[..]);

    // Invalid write.
    net.write_config(5, &new_config.to_vec());
    // Verify old config was untouched.
    let mut new_config_read = vec![0u8; 6];
    net.read_config(0, &mut new_config_read);
    assert_eq!(&new_config[..], &new_config_read[..]);
}

#[test]
fn test_virtio_device() {
    let mut net = default_net();
    net.activate(GuestMem::new(0x10000));

    // Test queues count (RX and TX) and their size.
    assert_eq!(net.rx_queue.actual_size(), QUEUE_SIZE);
    assert_eq!(net.tx_queue.actual_size(), QUEUE_SIZE);

    // Test interrupt status bits.
    net.interrupt_status |= VIRTIO_MMIO_INT_VRING;
    assert_eq!(net.interrupt_status, VIRTIO_MMIO_INT_VRING);

    // No interrupt has been raised yet.
    assert_eq!(net.irq_count, 0);
}

#[test]
fn test_activation_state() {
    let mut net = default_net();
    assert!(!net.is_activated());
    net.activate(GuestMem::new(4096));
    assert!(net.is_activated());
    assert_eq!(net.mem.len(), 4096);
}

#[test]
fn test_device_id_and_mac() {
    let net = default_net();
    assert_eq!(net.id(), "net-dev");
    let m = net.guest_mac().unwrap();
    assert_eq!(m.get_bytes(), &vec![0x11, 0x22, 0x33, 0x44, 0x55, 0x66]);
}
