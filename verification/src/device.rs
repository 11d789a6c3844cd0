//! The network device: activation state, negotiated features, config space,
//! and the receive and transmit engines over the modeled collaborators.

use vstd::prelude::*;
use crate::{MAX_BUFFER_SIZE, QUEUE_SIZE, RX_BURST_SIZE, TX_BATCH_SIZE, TYPE_NET, VIRTIO_MMIO_INT_VRING};
use crate::frame::{framed, VNET_HDR_LEN};
use crate::mem::{seq_write, GuestMem};
use crate::queue::{DescriptorChain, Queue, UsedElem};
use crate::rate_limiter::{BucketUpdate, RateLimiter, TokenType};
use crate::transport::Transport;
use crate::xfer::FrontendError;

verus! {

/// Feature bit: the device handles frames with partial checksums.
pub const VIRTIO_NET_F_CSUM: u64 = 0;

/// Feature bit: the guest handles frames with partial checksums.
pub const VIRTIO_NET_F_GUEST_CSUM: u64 = 1;

/// Feature bit: the device reports its MAC address in config space.
pub const VIRTIO_NET_F_MAC: u64 = 5;

/// Feature bit: the guest accepts TSOv4 frames.
pub const VIRTIO_NET_F_GUEST_TSO4: u64 = 7;

/// Feature bit: the guest accepts UFO frames.
pub const VIRTIO_NET_F_GUEST_UFO: u64 = 10;

/// Feature bit: the device accepts TSOv4 frames.
pub const VIRTIO_NET_F_HOST_TSO4: u64 = 11;

/// Feature bit: the device accepts UFO frames.
pub const VIRTIO_NET_F_HOST_UFO: u64 = 14;

/// Feature bit: the device conforms to the first stable virtio version.
pub const VIRTIO_F_VERSION_1: u64 = 32;

/// Number of bytes in a MAC address.
pub const MAC_ADDR_LEN: usize = 6;

/// A six-byte Ethernet MAC address.
#[derive(Debug)]
pub struct MacAddr {
    pub bytes: Vec<u8>,
}

impl MacAddr {
    /// A MAC address holds exactly six bytes.
    pub open spec fn wf(&self) -> bool {
        self.bytes@.len() == MAC_ADDR_LEN
    }

    /// A MAC address from its six bytes.
    pub fn from_bytes(src: &Vec<u8>) -> (r: MacAddr)
        requires
            src@.len() == MAC_ADDR_LEN,
        ensures
            r.wf(),
            r.bytes@ == src@,
    {
        let mut bytes: Vec<u8> = Vec::new();
        let mut i: usize = 0;
        while i < MAC_ADDR_LEN
            invariant
                i <= MAC_ADDR_LEN,
                src@.len() == MAC_ADDR_LEN,
                bytes@ == src@.take(i as int),
            decreases MAC_ADDR_LEN - i,
        {
            bytes.push(src[i]);
            assert(bytes@ =~= src@.take(i + 1));
            i = i + 1;
        }
        proof {
            assert(src@.take(MAC_ADDR_LEN as int) =~= src@);
        }
        MacAddr { bytes }
    }

    /// The six bytes of the address.
    pub fn get_bytes(&self) -> (r: &Vec<u8>)
        ensures
            r@ == self.bytes@,
    {
        &self.bytes
    }
}

/// The device's config space: the six-byte MAC register.
#[derive(Debug)]
pub struct ConfigSpace {
    pub guest_mac: Vec<u8>,
}

impl ConfigSpace {
    /// The register holds exactly six bytes.
    pub open spec fn wf(&self) -> bool {
        self.guest_mac@.len() == MAC_ADDR_LEN
    }
}

impl Default for ConfigSpace {
    /// An all-zero MAC register.
    fn default() -> (r: ConfigSpace)
        ensures
            r.wf(),
            r.guest_mac@ == Seq::new(MAC_ADDR_LEN as nat, |i: int| 0u8),
    {
        let mut guest_mac: Vec<u8> = Vec::new();
        let mut i: usize = 0;
        while i < MAC_ADDR_LEN
            invariant
                i <= MAC_ADDR_LEN,
                guest_mac@ == Seq::new(i as nat, |j: int| 0u8),
            decreases MAC_ADDR_LEN - i,
        {
            guest_mac.push(0u8);
            assert(guest_mac@ =~= Seq::new((i + 1) as nat, |j: int| 0u8));
            i = i + 1;
        }
        ConfigSpace { guest_mac }
    }
}

/// Activation state of the device: queue processing is forbidden before the
/// one-shot activation that hands the device its guest memory.
#[derive(Clone, Copy, Debug, PartialEq, Eq, Structural)]
pub enum DeviceState {
    Inactive,
    Activated,
}

/// Event and traffic counters, incremented by explicit calls so a test can
/// observe exactly what a processing pass did.  Counters saturate instead of
/// wrapping.
#[derive(Clone, Copy, Debug, PartialEq, Eq, Structural)]
pub struct NetMetrics {
    pub rx_queue_event_count: u64,
    pub rx_tap_event_count: u64,
    pub rx_event_rate_limiter_count: u64,
    pub rx_count: u64,
    pub rx_bytes_count: u64,
    pub rx_packets_count: u64,
    pub rx_partial_writes: u64,
    pub rx_fails: u64,
    pub rx_rate_limiter_throttled: u64,
    pub no_rx_avail_buffer: u64,
    pub tx_queue_event_count: u64,
    pub tx_rate_limiter_event_count: u64,
    pub tx_count: u64,
    pub tx_bytes_count: u64,
    pub tx_packets_count: u64,
    pub tx_malformed_frames: u64,
    pub tx_partial_reads: u64,
    pub tx_fails: u64,
    pub tx_rate_limiter_throttled: u64,
    pub no_tx_avail_buffer: u64,
    pub event_fails: u64,
    pub cfg_fails: u64,
    pub mac_address_updates: u64,
}

/// A saturating counter increment.
pub open spec fn spec_inc(c: u64) -> u64 {
    if c == u64::MAX {
        c
    } else {
        (c + 1) as u64
    }
}

/// A saturating counter addition.
pub open spec fn spec_add(c: u64, v: u64) -> u64 {
    if c + v > u64::MAX {
        u64::MAX
    } else {
        (c + v) as u64
    }
}

/// Increments a saturating counter.
pub fn sat_inc(c: u64) -> (r: u64)
    ensures
        r == spec_inc(c),
{
    if c == u64::MAX {
        c
    } else {
        c + 1
    }
}

/// Adds to a saturating counter.
pub fn sat_add(c: u64, v: u64) -> (r: u64)
    ensures
        r == spec_add(c, v),
{
    if v > u64::MAX - c {
        u64::MAX
    } else {
        c + v
    }
}

/// A saturating addition of a mathematical count.
pub open spec fn sat_addi(c: u64, n: int) -> u64 {
    if n <= 0 {
        c
    } else if c + n > u64::MAX {
        u64::MAX
    } else {
        (c + n) as u64
    }
}

/// Saturating additions chain: adding two counts one after the other is
/// adding their sum.
pub proof fn lemma_sat_addi_chain(c: u64, a: int, b: int)
    requires
        a >= 0,
        b >= 0,
    ensures
        sat_addi(sat_addi(c, a), b) == sat_addi(c, a + b),
{
}

impl NetMetrics {
    /// All counters at zero.
    pub fn new() -> (r: NetMetrics)
        ensures
            r == NetMetrics::zero(),
    {
        NetMetrics {
            rx_queue_event_count: 0,
            rx_tap_event_count: 0,
            rx_event_rate_limiter_count: 0,
            rx_count: 0,
            rx_bytes_count: 0,
            rx_packets_count: 0,
            rx_partial_writes: 0,
            rx_fails: 0,
            rx_rate_limiter_throttled: 0,
            no_rx_avail_buffer: 0,
            tx_queue_event_count: 0,
            tx_rate_limiter_event_count: 0,
            tx_count: 0,
            tx_bytes_count: 0,
            tx_packets_count: 0,
            tx_malformed_frames: 0,
            tx_partial_reads: 0,
            tx_fails: 0,
            tx_rate_limiter_throttled: 0,
            no_tx_avail_buffer: 0,
            event_fails: 0,
            cfg_fails: 0,
            mac_address_updates: 0,
        }
    }

    /// The all-zero counter record.
    pub open spec fn zero() -> NetMetrics {
        NetMetrics {
            rx_queue_event_count: 0,
            rx_tap_event_count: 0,
            rx_event_rate_limiter_count: 0,
            rx_count: 0,
            rx_bytes_count: 0,
            rx_packets_count: 0,
            rx_partial_writes: 0,
            rx_fails: 0,
            rx_rate_limiter_throttled: 0,
            no_rx_avail_buffer: 0,
            tx_queue_event_count: 0,
            tx_rate_limiter_event_count: 0,
            tx_count: 0,
            tx_bytes_count: 0,
            tx_packets_count: 0,
            tx_malformed_frames: 0,
            tx_partial_reads: 0,
            tx_fails: 0,
            tx_rate_limiter_throttled: 0,
            no_tx_avail_buffer: 0,
            event_fails: 0,
            cfg_fails: 0,
            mac_address_updates: 0,
        }
    }
}

/// The network device: the aggregate the event loop drives.
pub struct Net {
    /// Identifier of this device.
    pub id: String,
    /// Feature bits the device offers.
    pub avail_features: u64,
    /// Feature bits the guest has acknowledged.
    pub acked_features: u64,
    /// Receive virtqueue.
    pub rx_queue: Queue,
    /// Transmit virtqueue.
    pub tx_queue: Queue,
    /// Receive-direction rate limiter.
    pub rx_rate_limiter: RateLimiter,
    /// Transmit-direction rate limiter.
    pub tx_rate_limiter: RateLimiter,
    /// True while a pulled frame could not yet be delivered; no new frame is
    /// pulled from the transport until it is resolved.
    pub rx_deferred_frame: bool,
    /// True while a used-ring advance of this pass still owes the guest an
    /// interrupt.
    pub rx_deferred_irqs: bool,
    /// Frames pulled from the transport and not yet delivered, front first.
    pub rx_pending: Vec<Vec<u8>>,
    /// Interrupt status register bits.
    pub interrupt_status: u32,
    /// Number of times the interrupt line was raised.
    pub irq_count: u64,
    /// Config space: the MAC register.
    pub config_space: ConfigSpace,
    /// MAC address the guest reads, when one is set.
    pub guest_mac: Option<MacAddr>,
    /// Whether the device has been activated.
    pub device_state: DeviceState,
    /// Guest physical memory, handed over at activation.
    pub mem: GuestMem,
    /// The host-side packet transport.
    pub transport: Transport,
    /// Event and traffic counters.
    pub metrics: NetMetrics,
}

impl Net {
    /// Structural invariant of the device.
    pub open spec fn inv(&self) -> bool {
        &&& self.rx_queue.wf()
        &&& self.tx_queue.wf()
        &&& self.rx_rate_limiter.wf()
        &&& self.tx_rate_limiter.wf()
        &&& self.transport.wf()
        &&& self.config_space.wf()
        &&& (self.guest_mac matches Some(m) ==> m.wf())
        &&& (forall|i: int|
            0 <= i < self.rx_pending@.len() ==> (#[trigger] self.rx_pending@[i])@.len()
                + VNET_HDR_LEN <= MAX_BUFFER_SIZE)
    }

    /// Whether the device has been activated.
    pub open spec fn spec_is_activated(&self) -> bool {
        self.device_state is Activated
    }

    /// Between engine entry points, a deferred delivery always has its frame
    /// retained: the deferral flag never points at nothing.
    pub open spec fn rx_state_ok(&self) -> bool {
        self.rx_deferred_frame ==> self.rx_pending@.len() > 0
    }

    /// A fresh, inactive device with the given identity, optional MAC and
    /// rate limiters.
    pub fn new(
        id: String,
        guest_mac: Option<MacAddr>,
        rx_rate_limiter: RateLimiter,
        tx_rate_limiter: RateLimiter,
    ) -> (r: Net)
        requires
            (guest_mac matches Some(m) ==> m.wf()),
            rx_rate_limiter.wf(),
            tx_rate_limiter.wf(),
        ensures
            r.inv(),
            !r.spec_is_activated(),
            !r.rx_deferred_frame,
            !r.rx_deferred_irqs,
            r.rx_pending@.len() == 0,
            r.irq_count == 0,
            r.interrupt_status == 0,
            r.acked_features == 0,
            guest_mac is None ==> r.avail_features == (1u64 << VIRTIO_NET_F_GUEST_CSUM) | (1u64
                << VIRTIO_NET_F_CSUM) | (1u64 << VIRTIO_NET_F_GUEST_TSO4) | (1u64
                << VIRTIO_NET_F_GUEST_UFO) | (1u64 << VIRTIO_NET_F_HOST_TSO4) | (1u64
                << VIRTIO_NET_F_HOST_UFO) | (1u64 << VIRTIO_F_VERSION_1),
            guest_mac is Some ==> r.avail_features == (1u64 << VIRTIO_NET_F_GUEST_CSUM) | (1u64
                << VIRTIO_NET_F_CSUM) | (1u64 << VIRTIO_NET_F_GUEST_TSO4) | (1u64
                << VIRTIO_NET_F_GUEST_UFO) | (1u64 << VIRTIO_NET_F_HOST_TSO4) | (1u64
                << VIRTIO_NET_F_HOST_UFO) | (1u64 << VIRTIO_F_VERSION_1) | (1u64
                << VIRTIO_NET_F_MAC),
            r.id == id,
            r.rx_rate_limiter == rx_rate_limiter,
            r.tx_rate_limiter == tx_rate_limiter,
            (guest_mac matches Some(m) ==> r.config_space.guest_mac@ == m.bytes@),
            guest_mac is None ==> r.config_space.guest_mac@ == Seq::new(
                MAC_ADDR_LEN as nat,
                |i: int| 0u8,
            ),
            r.guest_mac == guest_mac,
            r.rx_queue.size == QUEUE_SIZE && r.rx_queue.avail@.len() == 0 && r.rx_queue.used@.len()
                == 0,
            r.tx_queue.size == QUEUE_SIZE && r.tx_queue.avail@.len() == 0 && r.tx_queue.used@.len()
                == 0,
            r.transport.incoming@.len() == 0 && r.transport.sent@.len() == 0
                && r.transport.batch_sizes@.len() == 0,
            r.metrics == NetMetrics::zero(),
            r.mem@.len() == 0,
    {
        let mut avail_features: u64 = (1u64 << VIRTIO_NET_F_GUEST_CSUM) | (1u64 << VIRTIO_NET_F_CSUM)
            | (1u64 << VIRTIO_NET_F_GUEST_TSO4) | (1u64 << VIRTIO_NET_F_GUEST_UFO) | (1u64
            << VIRTIO_NET_F_HOST_TSO4) | (1u64 << VIRTIO_NET_F_HOST_UFO) | (1u64
            << VIRTIO_F_VERSION_1);
        let mut config_space: ConfigSpace = ConfigSpace::default();
        let guest_mac: Option<MacAddr> = match guest_mac {
            Some(mac) => {
                config_space.guest_mac = {
                    let copy: MacAddr = MacAddr::from_bytes(&mac.bytes);
                    copy.bytes
                };
                avail_features = avail_features | (1u64 << VIRTIO_NET_F_MAC);
                Some(mac)
            },
            None => None,
        };
        Net {
            id,
            avail_features,
            acked_features: 0u64,
            rx_queue: Queue::new(QUEUE_SIZE),
            tx_queue: Queue::new(QUEUE_SIZE),
            rx_rate_limiter,
            tx_rate_limiter,
            rx_deferred_frame: false,
            rx_deferred_irqs: false,
            rx_pending: Vec::new(),
            interrupt_status: 0,
            irq_count: 0,
            config_space,
            guest_mac,
            device_state: DeviceState::Inactive,
            mem: GuestMem::new(0),
            transport: Transport::new(),
            metrics: NetMetrics::new(),
        }
    }

    /// Identifier of this device.
    pub fn id(&self) -> (r: &String)
        ensures
            r == &self.id,
    {
        &self.id
    }

    /// MAC address of this device, when one is set.
    pub fn guest_mac(&self) -> (r: Option<&MacAddr>)
        ensures
            r is Some <==> self.guest_mac is Some,
            r matches Some(m) ==> self.guest_mac == Some(*m),
    {
        self.guest_mac.as_ref()
    }

    /// Virtio device type of a network card.
    pub fn device_type(&self) -> (r: u32)
        ensures
            r == TYPE_NET,
    {
        TYPE_NET
    }

    /// Feature bits the device offers.
    pub fn avail_features(&self) -> (r: u64)
        ensures
            r == self.avail_features,
    {
        self.avail_features
    }

    /// Feature bits the guest has acknowledged.
    pub fn acked_features(&self) -> (r: u64)
        ensures
            r == self.acked_features,
    {
        self.acked_features
    }

    /// Overwrites the acknowledged feature bits.
    pub fn set_acked_features(&mut self, acked_features: u64)
        ensures
            *final(self) == (Net { acked_features, ..*old(self) }),
    {
        self.acked_features = acked_features;
    }

    /// One 32-bit page of the offered feature bits.
    pub fn avail_features_by_page(&self, page: u32) -> (r: u32)
        ensures
            page == 0 ==> r == self.avail_features as u32,
            page == 1 ==> r == (self.avail_features >> 32) as u32,
            page >= 2 ==> r == 0,
    {
        if page == 0 {
            self.avail_features as u32
        } else if page == 1 {
            (self.avail_features >> 32) as u32
        } else {
            0
        }
    }

    /// Acknowledges one 32-bit page of feature bits; bits the device never
    /// offered are ignored.
    pub fn ack_features_by_page(&mut self, page: u32, value: u32)
        ensures
            *final(self) == (Net {
                acked_features: old(self).acked_features | ((if page == 0 {
                    value as u64
                } else if page == 1 {
                    (value as u64) << 32
                } else {
                    0u64
                }) & old(self).avail_features),
                ..*old(self)
            }),
    {
        let v: u64 = if page == 0 {
            value as u64
        } else if page == 1 {
            (value as u64) << 32
        } else {
            0u64
        };
        let unrequested_features: u64 = v & !self.avail_features;
        let v: u64 = v & !unrequested_features;
        proof {
            let av = old(self).avail_features;
            let v0 = if page == 0 {
                value as u64
            } else if page == 1 {
                (value as u64) << 32
            } else {
                0u64
            };
            assert(v0 & !(v0 & !av) == v0 & av) by (bit_vector);
        }
        self.acked_features = self.acked_features | v;
    }

    /// Whether the device has been activated.
    pub fn is_activated(&self) -> (r: bool)
        ensures
            r == self.spec_is_activated(),
    {
        match self.device_state {
            DeviceState::Inactive => false,
            DeviceState::Activated => true,
        }
    }

    /// One-shot activation: hands the device its guest memory; thereafter
    /// the mapping is immutable for the device's life.
    pub fn activate(&mut self, mem: GuestMem)
        requires
            old(self).inv(),
            !old(self).spec_is_activated(),
        ensures
            final(self).inv(),
            final(self).spec_is_activated(),
            *final(self) == (Net { device_state: DeviceState::Activated, mem, ..*old(self) }),
    {
        self.mem = mem;
        self.device_state = DeviceState::Activated;
    }

    /// Reads from config space at `offset` into the front of `data`; a read
    /// past the register is truncated, one starting outside it changes
    /// nothing.
    pub fn read_config(&self, offset: u64, data: &mut Vec<u8>)
        requires
            self.inv(),
        ensures
            offset >= MAC_ADDR_LEN ==> final(data)@ == old(data)@,
            offset < MAC_ADDR_LEN ==> ({
                let cnt = crate::xfer::min_int(old(data)@.len() as int, MAC_ADDR_LEN - offset);
                final(data)@ == self.config_space.guest_mac@.subrange(offset as int, offset + cnt)
                    + old(data)@.skip(cnt)
            }),
    {
        if offset >= MAC_ADDR_LEN as u64 {
            return ;
        }
        let off: usize = offset as usize;
        let room: usize = MAC_ADDR_LEN - off;
        let cnt: usize = if data.len() < room {
            data.len()
        } else {
            room
        };
        let mut i: usize = 0;
        while i < cnt
            invariant
                i <= cnt,
                off + cnt <= MAC_ADDR_LEN,
                cnt <= data@.len() == old(data)@.len(),
                self.config_space.guest_mac@.len() == MAC_ADDR_LEN,
                forall|j: int| 0 <= j < i ==> data@[j] == self.config_space.guest_mac@[off + j],
                forall|j: int| i <= j < data@.len() ==> data@[j] == old(data)@[j],
            decreases cnt - i,
        {
            let v: u8 = self.config_space.guest_mac[off + i];
            data.set(i, v);
            i = i + 1;
        }
        proof {
            assert(data@ =~= self.config_space.guest_mac@.subrange(offset as int, offset + cnt)
                + old(data)@.skip(cnt as int));
        }
    }

    /// Writes `data` into config space at `offset` and refreshes the MAC the
    /// guest reads; a write that would cross the register's end is rejected
    /// whole.
    pub fn write_config(&mut self, offset: u64, data: &Vec<u8>)
        requires
            old(self).inv(),
        ensures
            final(self).inv(),
            offset + data@.len() > MAC_ADDR_LEN ==> *final(self) == (Net {
                metrics: final(self).metrics,
                ..*old(self)
            }) && final(self).metrics == (NetMetrics {
                cfg_fails: spec_inc(old(self).metrics.cfg_fails),
                ..old(self).metrics
            }),
            offset + data@.len() <= MAC_ADDR_LEN ==> ({
                &&& final(self).config_space.guest_mac@ == seq_write(
                    old(self).config_space.guest_mac@,
                    offset as int,
                    data@,
                )
                &&& (final(self).guest_mac matches Some(m) && m.bytes@ == final(self).config_space.guest_mac@)
                &&& final(self).metrics == (NetMetrics {
                    mac_address_updates: spec_inc(old(self).metrics.mac_address_updates),
                    ..old(self).metrics
                })
                &&& *final(self) == (Net {
                    config_space: final(self).config_space,
                    guest_mac: final(self).guest_mac,
                    metrics: final(self).metrics,
                    ..*old(self)
                })
            }),
    {
        if offset > MAC_ADDR_LEN as u64 || data.len() > MAC_ADDR_LEN - offset as usize {
            self.metrics.cfg_fails = sat_inc(self.metrics.cfg_fails);
            return ;
        }
        let off: usize = offset as usize;
        let mut i: usize = 0;
        while i < data.len()
            invariant
                i <= data@.len(),
                off + data@.len() <= MAC_ADDR_LEN,
                old(self).inv(),
                old(self).config_space.guest_mac@.len() == MAC_ADDR_LEN,
                *self == (Net { config_space: self.config_space, ..*old(self) }),
                self.config_space.guest_mac@.len() == MAC_ADDR_LEN,
                forall|j: int|
                    off <= j < off + i ==> self.config_space.guest_mac@[j] == data@[j - off],
                forall|j: int|
                    0 <= j < MAC_ADDR_LEN && !(off <= j < off + i)
                        ==> self.config_space.guest_mac@[j] == old(self).config_space.guest_mac@[j],
            decreases data@.len() - i,
        {
            let v: u8 = data[i];
            self.config_space.guest_mac.set(off + i, v);
            i = i + 1;
        }
        proof {
            assert(self.config_space.guest_mac@ =~= seq_write(
                old(self).config_space.guest_mac@,
                offset as int,
                data@,
            ));
        }
        self.guest_mac = Some(MacAddr::from_bytes(&self.config_space.guest_mac));
        self.metrics.mac_address_updates = sat_inc(self.metrics.mac_address_updates);
    }

    /// Replaces the rate limiter buckets of both directions.
    pub fn patch_rate_limiters(
        &mut self,
        rx_bytes: BucketUpdate,
        rx_ops: BucketUpdate,
        tx_bytes: BucketUpdate,
        tx_ops: BucketUpdate,
    )
        requires
            old(self).inv(),
            (rx_bytes matches BucketUpdate::Update(b) ==> b.wf()),
            (rx_ops matches BucketUpdate::Update(b) ==> b.wf()),
            (tx_bytes matches BucketUpdate::Update(b) ==> b.wf()),
            (tx_ops matches BucketUpdate::Update(b) ==> b.wf()),
        ensures
            final(self).inv(),
            *final(self) == (Net {
                rx_rate_limiter: final(self).rx_rate_limiter,
                tx_rate_limiter: final(self).tx_rate_limiter,
                ..*old(self)
            }),
            final(self).rx_rate_limiter.bandwidth == crate::rate_limiter::bucket_updated(
                old(self).rx_rate_limiter.bandwidth,
                rx_bytes,
            ),
            final(self).rx_rate_limiter.ops == crate::rate_limiter::bucket_updated(
                old(self).rx_rate_limiter.ops,
                rx_ops,
            ),
            final(self).tx_rate_limiter.bandwidth == crate::rate_limiter::bucket_updated(
                old(self).tx_rate_limiter.bandwidth,
                tx_bytes,
            ),
            final(self).tx_rate_limiter.ops == crate::rate_limiter::bucket_updated(
                old(self).tx_rate_limiter.ops,
                tx_ops,
            ),
            final(self).rx_rate_limiter.timer_armed == old(self).rx_rate_limiter.timer_armed,
            final(self).tx_rate_limiter.timer_armed == old(self).tx_rate_limiter.timer_armed,
    {
        self.rx_rate_limiter.update_buckets(rx_bytes, rx_ops);
        self.tx_rate_limiter.update_buckets(tx_bytes, tx_ops);
    }

    /// The frame (header prepended) that the next delivery attempt writes.
    pub open spec fn front_frame(&self) -> Seq<u8> {
        framed(self.rx_pending@[0]@)
    }

    /// Raises the guest interrupt line once and clears the owed-interrupt
    /// flag.
    pub fn signal_used_queue(&mut self)
        ensures
            *final(self) == (Net {
                interrupt_status: old(self).interrupt_status | VIRTIO_MMIO_INT_VRING,
                irq_count: spec_inc(old(self).irq_count),
                rx_deferred_irqs: false,
                ..*old(self)
            }),
    {
        self.interrupt_status = self.interrupt_status | VIRTIO_MMIO_INT_VRING;
        self.irq_count = sat_inc(self.irq_count);
        self.rx_deferred_irqs = false;
    }

    /// End of a receive pass: raises exactly one interrupt if any used-ring
    /// advance of this pass still owes one, and none otherwise.
    pub fn signal_rx_used_queue(&mut self)
        ensures
            old(self).rx_deferred_irqs ==> *final(self) == (Net {
                interrupt_status: old(self).interrupt_status | VIRTIO_MMIO_INT_VRING,
                irq_count: spec_inc(old(self).irq_count),
                rx_deferred_irqs: false,
                ..*old(self)
            }),
            !old(self).rx_deferred_irqs ==> *final(self) == *old(self),
    {
        if self.rx_deferred_irqs {
            self.signal_used_queue();
        }
    }

    /// One delivery attempt of the front pending frame against the front
    /// available chain.  `EmptyQueue` reports an empty queue and changes
    /// nothing but a counter; any other failure consumes and discards the
    /// chain, marking it used with length 0.
    pub fn do_write_frame_to_guest(&mut self) -> (r: Result<(), FrontendError>)
        requires
            old(self).inv(),
            old(self).spec_is_activated(),
            old(self).rx_pending@.len() > 0,
        ensures
            final(self).inv(),
            final(self).spec_is_activated(),
            old(self).rx_queue.avail@.len() == 0 ==> r == Err::<(), FrontendError>(
                FrontendError::EmptyQueue,
            ) && *final(self) == (Net { metrics: final(self).metrics, ..*old(self) }) && final(self).metrics == (NetMetrics {
                no_rx_avail_buffer: spec_inc(old(self).metrics.no_rx_avail_buffer),
                ..old(self).metrics
            }),
            old(self).rx_queue.avail@.len() > 0 ==> ({
                let chain = old(self).rx_queue.avail@[0];
                let o = crate::xfer::rx_write_rec(old(self).mem@, chain.segs@, old(self).front_frame(), 0);
                &&& (r is Ok <==> o.err is None)
                &&& (r matches Err(e) ==> o.err == Some(e))
                &&& final(self).mem@ == o.mem
                &&& final(self).rx_queue.size == old(self).rx_queue.size
                &&& final(self).rx_queue.avail@ == old(self).rx_queue.avail@.skip(1)
                &&& (o.err is None ==> final(self).rx_queue.used@ == old(self).rx_queue.used@.push(
                    UsedElem {
                        id: chain.spec_head_id(),
                        len: old(self).front_frame().len() as u32,
                    },
                ))
                &&& (o.err is Some ==> final(self).rx_queue.used@ == old(self).rx_queue.used@.push(UsedElem { id: chain.spec_head_id(), len: 0 }))
                &&& (o.err is None ==> final(self).rx_pending@ == old(self).rx_pending@.skip(1))
                &&& (o.err is Some ==> final(self).rx_pending@ == old(self).rx_pending@)
                &&& (o.err is None ==> final(self).metrics == (NetMetrics {
                    rx_packets_count: spec_inc(old(self).metrics.rx_packets_count),
                    rx_bytes_count: spec_add(
                        old(self).metrics.rx_bytes_count,
                        old(self).front_frame().len() as u64,
                    ),
                    ..old(self).metrics
                }))
                &&& ((o.err matches Some(e2) && e2 is GuestMemory) ==> final(self).metrics == (
                NetMetrics {
                    rx_partial_writes: spec_inc(old(self).metrics.rx_partial_writes),
                    ..old(self).metrics
                }))
                &&& ((o.err matches Some(e2) && !(e2 is GuestMemory)) ==> final(self).metrics == (
                NetMetrics { rx_fails: spec_inc(old(self).metrics.rx_fails), ..old(self).metrics }))
                &&& final(self).rx_deferred_irqs
                &&& *final(self) == (Net {
                    rx_queue: final(self).rx_queue,
                    mem: final(self).mem,
                    rx_pending: final(self).rx_pending,
                    rx_deferred_irqs: true,
                    metrics: final(self).metrics,
                    ..*old(self)
                })
            }),
    {
        let popped: Option<DescriptorChain> = self.rx_queue.pop();
        match popped {
            None => {
                self.metrics.no_rx_avail_buffer = sat_inc(self.metrics.no_rx_avail_buffer);
                Err(FrontendError::EmptyQueue)
            },
            Some(chain) => {
                let frame: Vec<u8> = crate::frame::prepend_zero_hdr(&self.rx_pending[0]);
                let res: Result<(), FrontendError> = crate::xfer::write_frame_to_chain(
                    &mut self.mem,
                    &chain,
                    &frame,
                );
                let used_len: u32 = if res.is_ok() {
                    frame.len() as u32
                } else {
                    0
                };
                self.rx_queue.add_used(chain.head_id(), used_len);
                self.rx_deferred_irqs = true;
                match res {
                    Ok(u) => {
                        self.metrics.rx_packets_count = sat_inc(self.metrics.rx_packets_count);
                        self.metrics.rx_bytes_count = sat_add(
                            self.metrics.rx_bytes_count,
                            frame.len() as u64,
                        );
                        let delivered: Vec<u8> = self.rx_pending.remove(0);
                        Ok(())
                    },
                    Err(e) => {
                        match e {
                            FrontendError::GuestMemory(ge) => {
                                self.metrics.rx_partial_writes = sat_inc(
                                    self.metrics.rx_partial_writes,
                                );
                            },
                            _ => {
                                self.metrics.rx_fails = sat_inc(self.metrics.rx_fails);
                            },
                        }
                        Err(e)
                    },
                }
            },
        }
    }

    /// Tries to deliver the front pending frame, discarding malformed chains
    /// and retrying with the next one, until delivery succeeds or the queue
    /// runs empty.  Exactly the walk `rx_retry_rec` describes.
    pub fn write_frame_to_guest(&mut self) -> (r: bool)
        requires
            old(self).inv(),
            old(self).spec_is_activated(),
            old(self).rx_pending@.len() > 0,
        ensures
            final(self).inv(),
            final(self).spec_is_activated(),
            ({
                let m = rx_retry_rec(
                    old(self).mem@,
                    old(self).rx_queue.avail@,
                    old(self).front_frame(),
                );
                &&& r == m.delivered
                &&& final(self).mem@ == m.mem
                &&& final(self).rx_queue.size == old(self).rx_queue.size
                &&& final(self).rx_queue.avail@ == old(self).rx_queue.avail@.skip(m.consumed)
                &&& final(self).rx_queue.used@ == old(self).rx_queue.used@ + m.used
                &&& final(self).rx_deferred_irqs == (old(self).rx_deferred_irqs || m.consumed > 0)
                &&& (r ==> final(self).rx_pending@ == old(self).rx_pending@.skip(1))
                &&& (!r ==> final(self).rx_pending@ == old(self).rx_pending@)
                &&& *final(self) == (Net {
                    rx_queue: final(self).rx_queue,
                    mem: final(self).mem,
                    rx_pending: final(self).rx_pending,
                    rx_deferred_irqs: final(self).rx_deferred_irqs,
                    metrics: final(self).metrics,
                    ..*old(self)
                })
            }),
        decreases old(self).rx_queue.avail@.len(),
    {
        let ghost frame: Seq<u8> = old(self).front_frame();
        let ghost chains: Seq<DescriptorChain> = old(self).rx_queue.avail@;
        let ghost m: RxRetryOutcome = rx_retry_rec(old(self).mem@, chains, frame);
        match self.do_write_frame_to_guest() {
            Ok(u) => {
                proof {
                    assert(chains.len() > 0);
                    let o = crate::xfer::rx_write_rec(old(self).mem@, chains[0].segs@, frame, 0);
                    assert(o.err is None);
                    assert(m == (RxRetryOutcome {
                        mem: o.mem,
                        used: seq![
                            UsedElem { id: chains[0].spec_head_id(), len: frame.len() as u32 },
                        ],
                        consumed: 1,
                        delivered: true,
                    }));
                    assert(old(self).rx_queue.used@ + m.used =~= old(self).rx_queue.used@.push(
                        UsedElem { id: chains[0].spec_head_id(), len: frame.len() as u32 },
                    ));
                    assert(self.rx_queue.avail@ =~= chains.skip(1));
                }
                true
            },
            Err(e) => {
                if matches!(e, FrontendError::EmptyQueue) {
                    proof {
                        if chains.len() > 0 {
                            let o = crate::xfer::rx_write_rec(
                                old(self).mem@,
                                chains[0].segs@,
                                frame,
                                0,
                            );
                            crate::xfer::lemma_rx_write_no_empty_queue(
                                old(self).mem@,
                                chains[0].segs@,
                                frame,
                                0,
                            );
                            assert(false);
                        }
                        assert(chains.skip(0) =~= chains);
                        assert(m == (RxRetryOutcome {
                            mem: old(self).mem@,
                            used: Seq::<UsedElem>::empty(),
                            consumed: 0,
                            delivered: false,
                        }));
                        assert(old(self).rx_queue.used@ + m.used =~= old(self).rx_queue.used@);
                    }
                    false
                } else {
                    let ghost mid: Seq<u8> = self.mem@;
                    proof {
                        assert(chains.len() > 0);
                        let o = crate::xfer::rx_write_rec(old(self).mem@, chains[0].segs@, frame, 0);
                        assert(o.err == Some(e));
                        assert(self.mem@ == o.mem);
                        assert(self.rx_queue.avail@ == chains.skip(1));
                        assert(self.rx_pending@ == old(self).rx_pending@);
                        assert(self.front_frame() == frame);
                    }
                    let r: bool = self.write_frame_to_guest();
                    proof {
                        let o = crate::xfer::rx_write_rec(old(self).mem@, chains[0].segs@, frame, 0);
                        let rest = rx_retry_rec(o.mem, chains.skip(1), frame);
                        assert(m == (RxRetryOutcome {
                            mem: rest.mem,
                            used: seq![UsedElem { id: chains[0].spec_head_id(), len: 0 }]
                                + rest.used,
                            consumed: 1 + rest.consumed,
                            delivered: rest.delivered,
                        }));
                        lemma_rx_retry_bounds(o.mem, chains.skip(1), frame);
                        assert(chains.skip(1).skip(rest.consumed) =~= chains.skip(
                            1 + rest.consumed,
                        ));
                        assert(old(self).rx_queue.used@ + m.used =~= (old(self).rx_queue.used@.push(
                            UsedElem { id: chains[0].spec_head_id(), len: 0 },
                        )) + rest.used);
                    }
                    r
                }
            },
        }
    }

    /// Checks the receive rate limiter for the front pending frame and, with
    /// budget granted, attempts its delivery.  Returns true only on
    /// successful delivery; a blocked limiter leaves the queue and memory
    /// untouched and counts a throttling.
    pub fn rate_limited_rx_single_frame(&mut self) -> (r: bool)
        requires
            old(self).inv(),
            old(self).spec_is_activated(),
            old(self).rx_pending@.len() > 0,
        ensures
            final(self).inv(),
            final(self).spec_is_activated(),
            ({
                let amt = (VNET_HDR_LEN + old(self).rx_pending@[0]@.len()) as u64;
                let rl0 = old(self).rx_rate_limiter;
                let rl1 = crate::rate_limiter::rl_after_consume(rl0, 1, TokenType::Ops);
                if !crate::rate_limiter::rl_consume_ok(rl0, 1, TokenType::Ops) {
                    &&& !r
                    &&& *final(self) == (Net {
                        rx_rate_limiter: rl1,
                        metrics: final(self).metrics,
                        ..*old(self)
                    })
                    &&& final(self).metrics == (NetMetrics {
                        rx_rate_limiter_throttled: spec_inc(
                            old(self).metrics.rx_rate_limiter_throttled,
                        ),
                        ..old(self).metrics
                    })
                } else if !crate::rate_limiter::rl_consume_ok(rl1, amt, TokenType::Bytes) {
                    &&& !r
                    &&& *final(self) == (Net {
                        rx_rate_limiter: crate::rate_limiter::rl_after_replenish(
                            crate::rate_limiter::rl_after_consume(rl1, amt, TokenType::Bytes),
                            1,
                            TokenType::Ops,
                        ),
                        metrics: final(self).metrics,
                        ..*old(self)
                    })
                    &&& final(self).metrics == (NetMetrics {
                        rx_rate_limiter_throttled: spec_inc(
                            old(self).metrics.rx_rate_limiter_throttled,
                        ),
                        ..old(self).metrics
                    })
                } else {
                    let rl2 = crate::rate_limiter::rl_after_consume(rl1, amt, TokenType::Bytes);
                    let m = rx_retry_rec(
                        old(self).mem@,
                        old(self).rx_queue.avail@,
                        old(self).front_frame(),
                    );
                    &&& r == m.delivered
                    &&& final(self).rx_rate_limiter == rl2
                    &&& final(self).mem@ == m.mem
                    &&& final(self).rx_queue.size == old(self).rx_queue.size
                    &&& final(self).rx_queue.avail@ == old(self).rx_queue.avail@.skip(m.consumed)
                    &&& final(self).rx_queue.used@ == old(self).rx_queue.used@ + m.used
                    &&& final(self).rx_deferred_irqs == (old(self).rx_deferred_irqs || m.consumed
                        > 0)
                    &&& (r ==> final(self).rx_pending@ == old(self).rx_pending@.skip(1))
                    &&& (!r ==> final(self).rx_pending@ == old(self).rx_pending@)
                    &&& *final(self) == (Net {
                        rx_queue: final(self).rx_queue,
                        mem: final(self).mem,
                        rx_pending: final(self).rx_pending,
                        rx_deferred_irqs: final(self).rx_deferred_irqs,
                        rx_rate_limiter: rl2,
                        metrics: final(self).metrics,
                        ..*old(self)
                    })
                }
            }),
    {
        let amt: u64 = (VNET_HDR_LEN + self.rx_pending[0].len()) as u64;
        if !self.rx_rate_limiter.consume(1, TokenType::Ops) {
            self.metrics.rx_rate_limiter_throttled = sat_inc(
                self.metrics.rx_rate_limiter_throttled,
            );
            return false;
        }
        if !self.rx_rate_limiter.consume(amt, TokenType::Bytes) {
            self.rx_rate_limiter.manual_replenish(1, TokenType::Ops);
            self.metrics.rx_rate_limiter_throttled = sat_inc(
                self.metrics.rx_rate_limiter_throttled,
            );
            return false;
        }
        self.write_frame_to_guest()
    }

    /// Frames on the receive path that have been produced by the transport
    /// and not yet delivered to the guest.
    pub open spec fn rx_frames_outstanding(&self) -> int {
        self.rx_pending@.len() + self.transport.incoming@.len() as int
    }

    /// The state of a device whose one deferred frame can now be resolved:
    /// exactly one suitable chain is available, nothing else is in flight,
    /// and the limiter grants the budget.
    pub open spec fn deferred_resume_ready(pre: Net) -> bool {
        &&& pre.rx_deferred_frame
        &&& pre.rx_pending@.len() == 1
        &&& pre.transport.incoming@.len() == 0
        &&& pre.rx_queue.avail@.len() == 1
        &&& crate::xfer::rx_write_ok(
            pre.mem@,
            pre.rx_queue.avail@[0].segs@,
            framed(pre.rx_pending@[0]@),
        )
        &&& crate::rate_limiter::rl_consume_ok(pre.rx_rate_limiter, 1, TokenType::Ops)
        &&& crate::rate_limiter::rl_consume_ok(
            crate::rate_limiter::rl_after_consume(pre.rx_rate_limiter, 1, TokenType::Ops),
            (VNET_HDR_LEN + pre.rx_pending@[0]@.len()) as u64,
            TokenType::Bytes,
        )
        &&& !pre.rx_deferred_irqs
    }

    /// Resolution of a deferral from a ready state: the pending frame was
    /// delivered exactly once — one new used entry, carrying its length, and
    /// its bytes written to the chain — no frame was re-delivered, and one
    /// interrupt was raised.
    pub open spec fn deferred_resume_done(pre: Net, post: Net) -> bool {
        &&& !post.rx_deferred_frame
        &&& post.rx_pending@.len() == 0
        &&& post.rx_queue.used@ == pre.rx_queue.used@.push(
            UsedElem {
                id: pre.rx_queue.avail@[0].spec_head_id(),
                len: framed(pre.rx_pending@[0]@).len() as u32,
            },
        )
        &&& post.mem@ == crate::xfer::rx_write_rec(
            pre.mem@,
            pre.rx_queue.avail@[0].segs@,
            framed(pre.rx_pending@[0]@),
            0,
        ).mem
        &&& post.irq_count == spec_inc(pre.irq_count)
    }

    /// Whether the next retry of the front pending frame would deliver it:
    /// the limiter grants both budgets and the delivery-retry walk finds a
    /// fitting chain.
    pub open spec fn retry_would_deliver(pre: Net) -> bool {
        let f = framed(pre.rx_pending@[0]@);
        let rl1 = crate::rate_limiter::rl_after_consume(pre.rx_rate_limiter, 1, TokenType::Ops);
        let amt = (VNET_HDR_LEN + pre.rx_pending@[0]@.len()) as u64;
        &&& crate::rate_limiter::rl_consume_ok(pre.rx_rate_limiter, 1, TokenType::Ops)
        &&& crate::rate_limiter::rl_consume_ok(rl1, amt, TokenType::Bytes)
        &&& rx_retry_rec(pre.mem@, pre.rx_queue.avail@, f).delivered
    }

    /// One receive pass: pulls bounded bursts from the transport and
    /// delivers them in order until the transport runs dry or a frame must
    /// be deferred; then raises at most one interrupt for the whole pass.
    ///
    /// The whole pass equals the functional model `rx_pass_rec`: which
    /// chains were consumed, which used entries were appended with which
    /// lengths, where every frame's bytes landed, what the limiter spent,
    /// and which frames stay retained or with the transport.  On top of the
    /// model the contract carries the pass-level laws: no frame is lost or
    /// duplicated, a deferral happens only at a natural stopping point (an
    /// exhausted queue or an armed limiter), and the interrupt line moves
    /// exactly once when any chain was consumed and not at all otherwise.
    pub fn process_rx(&mut self)
        requires
            old(self).inv(),
            old(self).spec_is_activated(),
            !old(self).rx_deferred_frame,
        ensures
            final(self).inv(),
            final(self).spec_is_activated(),
            final(self).rx_state_ok(),
            !final(self).rx_deferred_irqs,
            ({
                let p = rx_pass_rec(
                    old(self).mem@,
                    old(self).rx_queue.avail@,
                    old(self).rx_rate_limiter,
                    seq_views(old(self).rx_pending@),
                    seq_views(old(self).transport.incoming@),
                );
                &&& final(self).mem@ == p.mem
                &&& final(self).rx_queue.avail@ == p.chains
                &&& final(self).rx_queue.used@ == old(self).rx_queue.used@ + p.used
                &&& final(self).rx_rate_limiter == p.rl
                &&& seq_views(final(self).rx_pending@) == p.pending
                &&& seq_views(final(self).transport.incoming@) == p.incoming
                &&& final(self).rx_deferred_frame == p.deferred
            }),
            final(self).rx_deferred_frame ==> (final(self).rx_queue.avail@.len() == 0 || final(self).rx_rate_limiter.timer_armed),
            final(self).rx_queue.used@.len() >= old(self).rx_queue.used@.len(),
            final(self).rx_queue.used@.take(old(self).rx_queue.used@.len() as int) == old(self).rx_queue.used@,
            delivered_count(
                final(self).rx_queue.used@.skip(old(self).rx_queue.used@.len() as int),
            ) + final(self).rx_frames_outstanding() == old(self).rx_frames_outstanding(),
            !final(self).rx_deferred_frame ==> final(self).rx_frames_outstanding() == 0,
            final(self).transport.sent@ == old(self).transport.sent@,
            final(self).transport.batch_sizes@ == old(self).transport.batch_sizes@,
            final(self).irq_count == if (old(self).rx_deferred_irqs || final(self).rx_queue.used@.len() > old(self).rx_queue.used@.len()) {
                spec_inc(old(self).irq_count)
            } else {
                old(self).irq_count
            },
            old(self).rx_frames_outstanding() == 0 ==> (final(self).rx_queue == old(self).rx_queue
                && final(self).mem == old(self).mem && final(self).rx_pending == old(self).rx_pending
                && final(self).rx_rate_limiter == old(self).rx_rate_limiter && final(self).transport
                == old(self).transport && final(self).metrics == old(self).metrics && !final(self).rx_deferred_frame),
            *final(self) == (Net {
                rx_queue: final(self).rx_queue,
                mem: final(self).mem,
                rx_pending: final(self).rx_pending,
                rx_deferred_frame: final(self).rx_deferred_frame,
                rx_deferred_irqs: false,
                rx_rate_limiter: final(self).rx_rate_limiter,
                transport: final(self).transport,
                metrics: final(self).metrics,
                interrupt_status: final(self).interrupt_status,
                irq_count: final(self).irq_count,
                ..*old(self)
            }),
    {
        let ghost u0: Seq<UsedElem> = old(self).rx_queue.used@;
        let ghost l0: int = old(self).rx_queue.used@.len() as int;
        let ghost out0: int = old(self).rx_frames_outstanding();
        let ghost p0: RxPassOutcome = rx_pass_rec(
            old(self).mem@,
            old(self).rx_queue.avail@,
            old(self).rx_rate_limiter,
            seq_views(old(self).rx_pending@),
            seq_views(old(self).transport.incoming@),
        );
        proof {
            assert(self.rx_queue.used@.skip(l0) =~= Seq::<UsedElem>::empty());
            assert(Seq::<UsedElem>::empty() + p0.used =~= p0.used);
        }
        loop
            invariant_except_break
                !self.rx_deferred_frame,
                ({
                    let rec = rx_pass_rec(
                        self.mem@,
                        self.rx_queue.avail@,
                        self.rx_rate_limiter,
                        seq_views(self.rx_pending@),
                        seq_views(self.transport.incoming@),
                    );
                    &&& p0.mem == rec.mem
                    &&& p0.chains == rec.chains
                    &&& p0.used == self.rx_queue.used@.skip(l0) + rec.used
                    &&& p0.rl == rec.rl
                    &&& p0.pending == rec.pending
                    &&& p0.incoming == rec.incoming
                    &&& p0.deferred == rec.deferred
                }),
            invariant
                self.inv(),
                self.spec_is_activated(),
                !old(self).rx_deferred_frame,
                self.rx_queue.used@.len() >= l0,
                self.rx_queue.used@.take(l0) == u0,
                delivered_count(self.rx_queue.used@.skip(l0)) + self.rx_frames_outstanding()
                    == out0,
                self.transport.sent@ == old(self).transport.sent@,
                self.transport.batch_sizes@ == old(self).transport.batch_sizes@,
                self.rx_deferred_irqs == (old(self).rx_deferred_irqs || self.rx_queue.used@.len()
                    > l0),
                l0 == u0.len(),
                out0 == old(self).rx_frames_outstanding(),
                u0 == old(self).rx_queue.used@,
                p0 == rx_pass_rec(
                    old(self).mem@,
                    old(self).rx_queue.avail@,
                    old(self).rx_rate_limiter,
                    seq_views(old(self).rx_pending@),
                    seq_views(old(self).transport.incoming@),
                ),
                out0 == 0 ==> (self.rx_queue == old(self).rx_queue && self.mem == old(self).mem
                    && self.rx_pending == old(self).rx_pending && self.rx_rate_limiter == old(self).rx_rate_limiter
                    && self.transport == old(self).transport && self.metrics == old(self).metrics
                    && !self.rx_deferred_frame),
                *self == (Net {
                    rx_queue: self.rx_queue,
                    mem: self.mem,
                    rx_pending: self.rx_pending,
                    rx_deferred_frame: self.rx_deferred_frame,
                    rx_deferred_irqs: self.rx_deferred_irqs,
                    rx_rate_limiter: self.rx_rate_limiter,
                    transport: self.transport,
                    metrics: self.metrics,
                    ..*old(self)
                }),
            ensures
                self.inv(),
                self.spec_is_activated(),
                self.rx_state_ok(),
                self.rx_queue.used@.len() >= l0,
                self.rx_queue.used@.take(l0) == u0,
                delivered_count(self.rx_queue.used@.skip(l0)) + self.rx_frames_outstanding()
                    == out0,
                self.transport.sent@ == old(self).transport.sent@,
                self.transport.batch_sizes@ == old(self).transport.batch_sizes@,
                self.rx_deferred_irqs == (old(self).rx_deferred_irqs || self.rx_queue.used@.len()
                    > l0),
                !self.rx_deferred_frame ==> self.rx_frames_outstanding() == 0,
                p0.mem == self.mem@,
                p0.chains == self.rx_queue.avail@,
                p0.used == self.rx_queue.used@.skip(l0),
                p0.rl == self.rx_rate_limiter,
                p0.pending == seq_views(self.rx_pending@),
                p0.incoming == seq_views(self.transport.incoming@),
                p0.deferred == self.rx_deferred_frame,
                self.rx_deferred_frame ==> (self.rx_queue.avail@.len() == 0
                    || self.rx_rate_limiter.timer_armed),
                out0 == 0 ==> (self.rx_queue == old(self).rx_queue && self.mem == old(self).mem
                    && self.rx_pending == old(self).rx_pending && self.rx_rate_limiter == old(self).rx_rate_limiter
                    && self.transport == old(self).transport && self.metrics == old(self).metrics
                    && !self.rx_deferred_frame),
                *self == (Net {
                    rx_queue: self.rx_queue,
                    mem: self.mem,
                    rx_pending: self.rx_pending,
                    rx_deferred_frame: self.rx_deferred_frame,
                    rx_deferred_irqs: self.rx_deferred_irqs,
                    rx_rate_limiter: self.rx_rate_limiter,
                    transport: self.transport,
                    metrics: self.metrics,
                    ..*old(self)
                }),
            decreases self.rx_frames_outstanding(),
        {
            let ghost iter_incoming_len: int = self.transport.incoming@.len() as int;
            let ghost iter_pending_len: int = self.rx_pending@.len() as int;
            if self.rx_pending.len() == 0 {
                let ghost inc_before: Seq<Vec<u8>> = self.transport.incoming@;
                let ghost mem_b: Seq<u8> = self.mem@;
                let ghost av_b: Seq<DescriptorChain> = self.rx_queue.avail@;
                let ghost rl_b: RateLimiter = self.rx_rate_limiter;
                let burst: Vec<Vec<u8>> = self.transport.receive_burst(crate::RX_BURST_SIZE);
                if burst.len() == 0 {
                    proof {
                        assert(seq_views(self.rx_pending@) =~= Seq::<Seq<u8>>::empty());
                        assert(seq_views(self.transport.incoming@) =~= Seq::<Seq<u8>>::empty());
                        assert(p0.used =~= self.rx_queue.used@.skip(l0));
                    }
                    break;
                }
                self.rx_pending = burst;
                self.metrics.rx_count = sat_inc(self.metrics.rx_count);
                proof {
                    let k: int = self.rx_pending@.len() as int;
                    assert(seq_views(inc_before).len() == inc_before.len());
                    assert(k == crate::xfer::min_int(
                        RX_BURST_SIZE as int,
                        seq_views(inc_before).len() as int,
                    ));
                    assert(seq_views(self.rx_pending@) =~= seq_views(inc_before).take(k));
                    assert(seq_views(self.transport.incoming@) =~= seq_views(inc_before).skip(k));
                    let rec_pull = rx_pass_rec(
                        mem_b,
                        av_b,
                        rl_b,
                        Seq::<Seq<u8>>::empty(),
                        seq_views(inc_before),
                    );
                    assert(rec_pull == rx_pass_rec(
                        self.mem@,
                        self.rx_queue.avail@,
                        self.rx_rate_limiter,
                        seq_views(self.rx_pending@),
                        seq_views(self.transport.incoming@),
                    ));
                }
            }
            let ghost inc2: Seq<Vec<u8>> = self.transport.incoming@;
            let ghost pend2: int = self.rx_pending@.len() as int;
            proof {
                lemma_delivered_count_nonneg(self.rx_queue.used@.skip(l0));
                assert(pend2 >= 1);
                assert(inc2.len() + pend2 == iter_incoming_len + iter_pending_len);
                assert(out0 > 0);
            }
            let mut blocked: bool = false;
            while self.rx_pending.len() > 0 && !blocked
                invariant
                    self.inv(),
                    self.spec_is_activated(),
                    !self.rx_deferred_frame,
                    blocked ==> self.rx_pending@.len() > 0,
                    self.transport.incoming@ == inc2,
                    self.rx_queue.used@.len() >= l0,
                    self.rx_queue.used@.take(l0) == u0,
                    delivered_count(self.rx_queue.used@.skip(l0)) + self.rx_frames_outstanding()
                        == out0,
                    self.transport.sent@ == old(self).transport.sent@,
                    self.transport.batch_sizes@ == old(self).transport.batch_sizes@,
                    self.rx_deferred_irqs == (old(self).rx_deferred_irqs
                        || self.rx_queue.used@.len() > l0),
                    l0 == u0.len(),
                    !blocked ==> ({
                        let rec = rx_pass_rec(
                            self.mem@,
                            self.rx_queue.avail@,
                            self.rx_rate_limiter,
                            seq_views(self.rx_pending@),
                            seq_views(self.transport.incoming@),
                        );
                        &&& p0.mem == rec.mem
                        &&& p0.chains == rec.chains
                        &&& p0.used == self.rx_queue.used@.skip(l0) + rec.used
                        &&& p0.rl == rec.rl
                        &&& p0.pending == rec.pending
                        &&& p0.incoming == rec.incoming
                        &&& p0.deferred == rec.deferred
                    }),
                    blocked ==> ({
                        &&& p0.mem == self.mem@
                        &&& p0.chains == self.rx_queue.avail@
                        &&& p0.used == self.rx_queue.used@.skip(l0)
                        &&& p0.rl == self.rx_rate_limiter
                        &&& p0.pending == seq_views(self.rx_pending@)
                        &&& p0.incoming == seq_views(self.transport.incoming@)
                        &&& p0.deferred
                    }),
                    blocked ==> (self.rx_queue.avail@.len() == 0
                        || self.rx_rate_limiter.timer_armed),
                    *self == (Net {
                        rx_queue: self.rx_queue,
                        mem: self.mem,
                        rx_pending: self.rx_pending,
                        rx_deferred_irqs: self.rx_deferred_irqs,
                        rx_rate_limiter: self.rx_rate_limiter,
                        transport: self.transport,
                        metrics: self.metrics,
                        ..*old(self)
                    }),
                decreases self.rx_pending@.len(), (if blocked {
                    0int
                } else {
                    1int
                }),
            {
                let ghost used_before: Seq<UsedElem> = self.rx_queue.used@;
                let ghost pend_before: Seq<Vec<u8>> = self.rx_pending@;
                let ghost mem_before: Seq<u8> = self.mem@;
                let ghost avail_before: Seq<DescriptorChain> = self.rx_queue.avail@;
                let ghost rl_before: RateLimiter = self.rx_rate_limiter;
                if !self.rate_limited_rx_single_frame() {
                    blocked = true;
                }
                proof {
                    assert(seq_views(pend_before)[0] == pend_before[0]@);
                    let fr = framed(pend_before[0]@);
                    let m = rx_retry_rec(mem_before, avail_before, fr);
                    if self.rx_queue.used@ != used_before {
                        lemma_rx_retry_bounds(mem_before, avail_before, fr);
                        lemma_retry_delivered_count(mem_before, avail_before, fr);
                        assert(self.rx_queue.used@.skip(l0) =~= used_before.skip(l0) + m.used);
                        lemma_delivered_count_app(used_before.skip(l0), m.used);
                        assert(self.rx_queue.used@.take(l0) =~= used_before.take(l0));
                    }
                    let rec_at = rx_pass_rec(
                        mem_before,
                        avail_before,
                        rl_before,
                        seq_views(pend_before),
                        seq_views(inc2),
                    );
                    let rl1 = crate::rate_limiter::rl_after_consume(rl_before, 1, TokenType::Ops);
                    let amt = (VNET_HDR_LEN + pend_before[0]@.len()) as u64;
                    if !crate::rate_limiter::rl_consume_ok(rl_before, 1, TokenType::Ops) {
                        assert(rec_at.used =~= Seq::<UsedElem>::empty());
                        assert(p0.used =~= self.rx_queue.used@.skip(l0));
                    } else if !crate::rate_limiter::rl_consume_ok(rl1, amt, TokenType::Bytes) {
                        assert(rec_at.used =~= Seq::<UsedElem>::empty());
                        assert(p0.used =~= self.rx_queue.used@.skip(l0));
                    } else {
                        let rl2 = crate::rate_limiter::rl_after_consume(
                            rl1,
                            amt,
                            TokenType::Bytes,
                        );
                        if m.delivered {
                            let rest = rx_pass_rec(
                                m.mem,
                                avail_before.skip(m.consumed),
                                rl2,
                                seq_views(pend_before).skip(1),
                                seq_views(inc2),
                            );
                            assert(rec_at == (RxPassOutcome {
                                mem: rest.mem,
                                chains: rest.chains,
                                used: m.used + rest.used,
                                rl: rest.rl,
                                pending: rest.pending,
                                incoming: rest.incoming,
                                deferred: rest.deferred,
                            }));
                            assert(seq_views(self.rx_pending@) =~= seq_views(pend_before).skip(1));
                            assert(rest == rx_pass_rec(
                                self.mem@,
                                self.rx_queue.avail@,
                                self.rx_rate_limiter,
                                seq_views(self.rx_pending@),
                                seq_views(self.transport.incoming@),
                            ));
                            assert(used_before.skip(l0) + (m.used + rest.used)
                                =~= (used_before.skip(l0) + m.used) + rest.used);
                        } else {
                            assert(rec_at == (RxPassOutcome {
                                mem: m.mem,
                                chains: avail_before.skip(m.consumed),
                                used: m.used,
                                rl: rl2,
                                pending: seq_views(pend_before),
                                incoming: seq_views(inc2),
                                deferred: true,
                            }));
                            lemma_rx_retry_exhausts(mem_before, avail_before, fr);
                            assert(avail_before.skip(m.consumed)
                                =~= Seq::<DescriptorChain>::empty());
                            assert(p0.used =~= self.rx_queue.used@.skip(l0));
                        }
                    }
                }
            }
            if blocked {
                self.rx_deferred_frame = true;
                break;
            }
            proof {
                assert(self.rx_frames_outstanding() == inc2.len());
                assert(self.rx_frames_outstanding() < iter_incoming_len + iter_pending_len);
            }
        }
        self.signal_rx_used_queue();
    }

    /// Resolves the deferred frame first: retries its delivery, and only on
    /// success resumes pulling new frames from the transport.  In a ready
    /// state (`deferred_resume_ready`) this delivers the pending frame
    /// exactly once (`deferred_resume_done`).
    pub fn handle_deferred_frame(&mut self)
        requires
            old(self).inv(),
            old(self).spec_is_activated(),
            old(self).rx_deferred_frame,
            old(self).rx_pending@.len() > 0,
            !old(self).rx_deferred_irqs,
        ensures
            final(self).inv(),
            final(self).spec_is_activated(),
            final(self).rx_state_ok(),
            !final(self).rx_deferred_irqs,
            final(self).rx_queue.used@.len() >= old(self).rx_queue.used@.len(),
            final(self).rx_queue.used@.take(old(self).rx_queue.used@.len() as int) == old(self).rx_queue.used@,
            delivered_count(
                final(self).rx_queue.used@.skip(old(self).rx_queue.used@.len() as int),
            ) + final(self).rx_frames_outstanding() == old(self).rx_frames_outstanding(),
            !final(self).rx_deferred_frame ==> final(self).rx_frames_outstanding() == 0,
            final(self).transport.sent@ == old(self).transport.sent@,
            final(self).transport.batch_sizes@ == old(self).transport.batch_sizes@,
            final(self).irq_count == if final(self).rx_queue.used@.len() > old(self).rx_queue.used@.len() {
                spec_inc(old(self).irq_count)
            } else {
                old(self).irq_count
            },
            Net::deferred_resume_ready(*old(self)) ==> Net::deferred_resume_done(
                *old(self),
                *final(self),
            ),
            !Net::retry_would_deliver(*old(self)) ==> (final(self).rx_deferred_frame && final(self).transport.incoming@ == old(self).transport.incoming@ && final(self).rx_pending@ == old(self).rx_pending@),
            Net::retry_would_deliver(*old(self)) ==> ({
                let f = framed(old(self).rx_pending@[0]@);
                let m = rx_retry_rec(old(self).mem@, old(self).rx_queue.avail@, f);
                let rl1 = crate::rate_limiter::rl_after_consume(
                    old(self).rx_rate_limiter,
                    1,
                    TokenType::Ops,
                );
                let amt = (VNET_HDR_LEN + old(self).rx_pending@[0]@.len()) as u64;
                let rl2 = crate::rate_limiter::rl_after_consume(rl1, amt, TokenType::Bytes);
                let p = rx_pass_rec(
                    m.mem,
                    old(self).rx_queue.avail@.skip(m.consumed),
                    rl2,
                    seq_views(old(self).rx_pending@).skip(1),
                    seq_views(old(self).transport.incoming@),
                );
                &&& final(self).mem@ == p.mem
                &&& final(self).rx_queue.avail@ == p.chains
                &&& final(self).rx_queue.used@ == (old(self).rx_queue.used@ + m.used) + p.used
                &&& final(self).rx_rate_limiter == p.rl
                &&& seq_views(final(self).rx_pending@) == p.pending
                &&& seq_views(final(self).transport.incoming@) == p.incoming
                &&& final(self).rx_deferred_frame == p.deferred
            }),
            *final(self) == (Net {
                rx_queue: final(self).rx_queue,
                mem: final(self).mem,
                rx_pending: final(self).rx_pending,
                rx_deferred_frame: final(self).rx_deferred_frame,
                rx_deferred_irqs: false,
                rx_rate_limiter: final(self).rx_rate_limiter,
                transport: final(self).transport,
                metrics: final(self).metrics,
                interrupt_status: final(self).interrupt_status,
                irq_count: final(self).irq_count,
                ..*old(self)
            }),
    {
        let ghost u0: Seq<UsedElem> = old(self).rx_queue.used@;
        let ghost l0: int = old(self).rx_queue.used@.len() as int;
        let ghost mem0: Seq<u8> = old(self).mem@;
        let ghost avail0: Seq<DescriptorChain> = old(self).rx_queue.avail@;
        let ghost frame0: Seq<u8> = old(self).front_frame();
        if self.rate_limited_rx_single_frame() {
            self.rx_deferred_frame = false;
            let ghost mid: Net = *self;
            proof {
                let m = rx_retry_rec(mem0, avail0, frame0);
                lemma_rx_retry_bounds(mem0, avail0, frame0);
                lemma_retry_delivered_count(mem0, avail0, frame0);
                assert(mid.rx_queue.used@.skip(l0) =~= m.used);
                assert(mid.rx_queue.used@.take(l0) =~= u0);
            }
            self.process_rx();
            proof {
                let m = rx_retry_rec(mem0, avail0, frame0);
                let lmid: int = mid.rx_queue.used@.len() as int;
                assert(self.rx_queue.used@.take(l0) =~= u0) by {
                    assert(self.rx_queue.used@.take(lmid).take(l0) =~= self.rx_queue.used@.take(
                        l0,
                    ));
                }
                assert(self.rx_queue.used@.skip(l0) =~= mid.rx_queue.used@.skip(l0)
                    + self.rx_queue.used@.skip(lmid));
                lemma_delivered_count_app(
                    mid.rx_queue.used@.skip(l0),
                    self.rx_queue.used@.skip(lmid),
                );
                if Net::deferred_resume_ready(*old(self)) {
                    assert(avail0.len() == 1);
                    assert(m.delivered);
                    assert(mid.rx_frames_outstanding() == 0);
                    assert(mid.rx_queue.used@ =~= u0.push(
                        UsedElem { id: avail0[0].spec_head_id(), len: frame0.len() as u32 },
                    ));
                    assert(self.rx_queue.used@ =~= mid.rx_queue.used@);
                }
                assert(Net::retry_would_deliver(*old(self)));
                assert(seq_views(mid.rx_pending@) =~= seq_views(old(self).rx_pending@).skip(1));
                let p = rx_pass_rec(
                    mid.mem@,
                    mid.rx_queue.avail@,
                    mid.rx_rate_limiter,
                    seq_views(mid.rx_pending@),
                    seq_views(mid.transport.incoming@),
                );
                assert(self.rx_queue.used@ =~= (u0 + m.used) + p.used);
            }
        } else {
            self.signal_rx_used_queue();
            proof {
                let m = rx_retry_rec(mem0, avail0, frame0);
                lemma_rx_retry_bounds(mem0, avail0, frame0);
                lemma_retry_delivered_count(mem0, avail0, frame0);
                if Net::deferred_resume_ready(*old(self)) {
                    assert(avail0.len() == 1);
                    assert(m.delivered);
                    assert(false);
                }
                if Net::retry_would_deliver(*old(self)) {
                    assert(false);
                }
                let rl0 = old(self).rx_rate_limiter;
                let rl1 = crate::rate_limiter::rl_after_consume(rl0, 1, TokenType::Ops);
                let amt = (VNET_HDR_LEN + old(self).rx_pending@[0]@.len()) as u64;
                if crate::rate_limiter::rl_consume_ok(rl0, 1, TokenType::Ops)
                    && crate::rate_limiter::rl_consume_ok(rl1, amt, TokenType::Bytes) {
                    assert(self.rx_queue.used@ == u0 + m.used);
                    assert(self.rx_queue.used@.skip(l0) =~= m.used);
                    assert(self.rx_queue.used@.take(l0) =~= u0);
                } else {
                    assert(self.rx_queue.used@ == u0);
                    assert(self.rx_queue.used@.skip(l0) =~= Seq::<UsedElem>::empty());
                    assert(self.rx_queue.used@.take(l0) =~= u0);
                    assert(delivered_count(Seq::<UsedElem>::empty()) == 0);
                }
            }
        }
    }

    /// Entry point after a queue doorbell or replenishment: retries the
    /// deferred frame if one is pending, otherwise does nothing.
    pub fn resume_rx(&mut self)
        requires
            old(self).inv(),
            old(self).spec_is_activated(),
            old(self).rx_state_ok(),
            !old(self).rx_deferred_irqs,
        ensures
            final(self).inv(),
            final(self).spec_is_activated(),
            final(self).rx_state_ok(),
            !final(self).rx_deferred_irqs,
            !old(self).rx_deferred_frame ==> *final(self) == *old(self),
            Net::deferred_resume_ready(*old(self)) ==> Net::deferred_resume_done(
                *old(self),
                *final(self),
            ),
            (old(self).rx_deferred_frame && !Net::retry_would_deliver(*old(self))) ==> (final(self).rx_deferred_frame && final(self).transport.incoming@ == old(self).transport.incoming@ && final(self).rx_pending@ == old(self).rx_pending@),
            (old(self).rx_deferred_frame && Net::retry_would_deliver(*old(self))) ==> ({
                let f = framed(old(self).rx_pending@[0]@);
                let m = rx_retry_rec(old(self).mem@, old(self).rx_queue.avail@, f);
                let rl1 = crate::rate_limiter::rl_after_consume(
                    old(self).rx_rate_limiter,
                    1,
                    TokenType::Ops,
                );
                let amt = (VNET_HDR_LEN + old(self).rx_pending@[0]@.len()) as u64;
                let rl2 = crate::rate_limiter::rl_after_consume(rl1, amt, TokenType::Bytes);
                let p = rx_pass_rec(
                    m.mem,
                    old(self).rx_queue.avail@.skip(m.consumed),
                    rl2,
                    seq_views(old(self).rx_pending@).skip(1),
                    seq_views(old(self).transport.incoming@),
                );
                &&& final(self).mem@ == p.mem
                &&& final(self).rx_queue.avail@ == p.chains
                &&& final(self).rx_queue.used@ == (old(self).rx_queue.used@ + m.used) + p.used
                &&& final(self).rx_rate_limiter == p.rl
                &&& seq_views(final(self).rx_pending@) == p.pending
                &&& seq_views(final(self).transport.incoming@) == p.incoming
                &&& final(self).rx_deferred_frame == p.deferred
            }),
            final(self).rx_queue.used@.len() >= old(self).rx_queue.used@.len(),
            final(self).rx_queue.used@.take(old(self).rx_queue.used@.len() as int) == old(self).rx_queue.used@,
            delivered_count(
                final(self).rx_queue.used@.skip(old(self).rx_queue.used@.len() as int),
            ) + final(self).rx_frames_outstanding() == old(self).rx_frames_outstanding(),
            final(self).transport.sent@ == old(self).transport.sent@,
            final(self).transport.batch_sizes@ == old(self).transport.batch_sizes@,
            final(self).irq_count == if final(self).rx_queue.used@.len() > old(self).rx_queue.used@.len() {
                spec_inc(old(self).irq_count)
            } else {
                old(self).irq_count
            },
            *final(self) == (Net {
                rx_queue: final(self).rx_queue,
                mem: final(self).mem,
                rx_pending: final(self).rx_pending,
                rx_deferred_frame: final(self).rx_deferred_frame,
                rx_deferred_irqs: false,
                rx_rate_limiter: final(self).rx_rate_limiter,
                transport: final(self).transport,
                metrics: final(self).metrics,
                interrupt_status: final(self).interrupt_status,
                irq_count: final(self).irq_count,
                ..*old(self)
            }),
    {
        if self.rx_deferred_frame {
            self.handle_deferred_frame();
        } else {
            proof {
                assert(self.rx_queue.used@.take(old(self).rx_queue.used@.len() as int) =~= old(self).rx_queue.used@);
                assert(self.rx_queue.used@.skip(old(self).rx_queue.used@.len() as int)
                    =~= Seq::<UsedElem>::empty());
                assert(delivered_count(Seq::<UsedElem>::empty()) == 0);
            }
        }
    }
}

/// Result of the bounded delivery-retry walk over the available chains: the
/// memory afterwards, the used entries appended, how many chains were
/// consumed, and whether the frame was delivered.
pub struct RxRetryOutcome {
    pub mem: Seq<u8>,
    pub used: Seq<UsedElem>,
    pub consumed: int,
    pub delivered: bool,
}

/// Functional model of the delivery-retry walk: chains are consumed front
/// first; a failed chain is marked used with length 0 and the next one is
/// tried; the first successful chain is marked used with the frame's length
/// and the walk stops.  An empty queue stops the walk undelivered.
pub open spec fn rx_retry_rec(
    mem: Seq<u8>,
    chains: Seq<DescriptorChain>,
    frame: Seq<u8>,
) -> RxRetryOutcome
    decreases chains.len(),
{
    if chains.len() == 0 {
        RxRetryOutcome { mem, used: Seq::empty(), consumed: 0, delivered: false }
    } else {
        let o = crate::xfer::rx_write_rec(mem, chains[0].segs@, frame, 0);
        if o.err is None {
            RxRetryOutcome {
                mem: o.mem,
                used: seq![UsedElem { id: chains[0].spec_head_id(), len: frame.len() as u32 }],
                consumed: 1,
                delivered: true,
            }
        } else {
            let rest = rx_retry_rec(o.mem, chains.skip(1), frame);
            RxRetryOutcome {
                mem: rest.mem,
                used: seq![UsedElem { id: chains[0].spec_head_id(), len: 0 }] + rest.used,
                consumed: 1 + rest.consumed,
                delivered: rest.delivered,
            }
        }
    }
}

/// Number of used entries that report a delivered frame (a nonzero length);
/// discarded chains report length 0 and are not deliveries.
pub open spec fn delivered_count(s: Seq<UsedElem>) -> int
    decreases s.len(),
{
    if s.len() == 0 {
        0
    } else {
        (if s[0].len > 0 {
            1int
        } else {
            0int
        }) + delivered_count(s.skip(1))
    }
}

/// A count of delivered entries is never negative.
pub proof fn lemma_delivered_count_nonneg(s: Seq<UsedElem>)
    ensures
        delivered_count(s) >= 0,
    decreases s.len(),
{
    if s.len() > 0 {
        lemma_delivered_count_nonneg(s.skip(1));
    }
}

/// Delivered entries add up over concatenation.
pub proof fn lemma_delivered_count_app(a: Seq<UsedElem>, b: Seq<UsedElem>)
    ensures
        delivered_count(a + b) == delivered_count(a) + delivered_count(b),
    decreases a.len(),
{
    if a.len() == 0 {
        assert(a + b =~= b);
    } else {
        assert((a + b).skip(1) =~= a.skip(1) + b);
        assert((a + b)[0] == a[0]);
        lemma_delivered_count_app(a.skip(1), b);
    }
}

/// The retry walk delivers the frame at most once: its used entries report
/// exactly one delivery when it succeeds and none when it fails.
pub proof fn lemma_retry_delivered_count(mem: Seq<u8>, chains: Seq<DescriptorChain>, frame: Seq<u8>)
    requires
        0 < frame.len() < 0x1_0000_0000,
    ensures
        delivered_count(rx_retry_rec(mem, chains, frame).used) == if rx_retry_rec(
            mem,
            chains,
            frame,
        ).delivered {
            1int
        } else {
            0int
        },
    decreases chains.len(),
{
    if chains.len() == 0 {
        assert(delivered_count(Seq::<UsedElem>::empty()) == 0);
    } else {
        let o = crate::xfer::rx_write_rec(mem, chains[0].segs@, frame, 0);
        if o.err is None {
            let e = UsedElem { id: chains[0].spec_head_id(), len: frame.len() as u32 };
            assert(seq![e].skip(1) =~= Seq::<UsedElem>::empty());
            assert(frame.len() as u32 > 0);
            assert(delivered_count(Seq::<UsedElem>::empty()) == 0);
            assert(delivered_count(seq![e]) == 1);
        } else {
            let rest = rx_retry_rec(o.mem, chains.skip(1), frame);
            let e0 = UsedElem { id: chains[0].spec_head_id(), len: 0 };
            lemma_delivered_count_app(seq![e0], rest.used);
            assert(seq![e0].skip(1) =~= Seq::<UsedElem>::empty());
            assert(delivered_count(Seq::<UsedElem>::empty()) == 0);
            assert(delivered_count(seq![e0]) == 0);
            lemma_retry_delivered_count(o.mem, chains.skip(1), frame);
        }
    }
}

/// The retry walk consumes between zero and all of the chains, and appends
/// exactly one used entry per consumed chain.
pub proof fn lemma_rx_retry_bounds(mem: Seq<u8>, chains: Seq<DescriptorChain>, frame: Seq<u8>)
    ensures
        0 <= rx_retry_rec(mem, chains, frame).consumed <= chains.len(),
        rx_retry_rec(mem, chains, frame).used.len() == rx_retry_rec(mem, chains, frame).consumed,
    decreases chains.len(),
{
    if chains.len() > 0 {
        let o = crate::xfer::rx_write_rec(mem, chains[0].segs@, frame, 0);
        if o.err is Some {
            lemma_rx_retry_bounds(o.mem, chains.skip(1), frame);
        }
    }
}

/// An undelivered retry walk has tried and discarded every chain: the queue
/// was exhausted.
pub proof fn lemma_rx_retry_exhausts(mem: Seq<u8>, chains: Seq<DescriptorChain>, frame: Seq<u8>)
    requires
        !rx_retry_rec(mem, chains, frame).delivered,
    ensures
        rx_retry_rec(mem, chains, frame).consumed == chains.len(),
    decreases chains.len(),
{
    if chains.len() > 0 {
        let o = crate::xfer::rx_write_rec(mem, chains[0].segs@, frame, 0);
        lemma_rx_retry_exhausts(o.mem, chains.skip(1), frame);
    }
}

/// Result of one whole receive pass: the memory and remaining chains
/// afterwards, the used entries appended, the limiter afterwards, the frames
/// still retained by the engine and still queued in the transport, and
/// whether the pass ended deferred.
pub struct RxPassOutcome {
    pub mem: Seq<u8>,
    pub chains: Seq<DescriptorChain>,
    pub used: Seq<UsedElem>,
    pub rl: RateLimiter,
    pub pending: Seq<Seq<u8>>,
    pub incoming: Seq<Seq<u8>>,
    pub deferred: bool,
}

/// Functional model of the receive pass.  While a frame is retained, its
/// budget is taken (an exhausted bucket defers the pass with the frame
/// retained and nothing pulled) and the delivery-retry walk runs over the
/// available chains (an exhausted queue defers likewise).  When nothing is
/// retained, a bounded burst is pulled from the transport; an empty
/// transport ends the pass undeferred.
pub open spec fn rx_pass_rec(
    mem: Seq<u8>,
    chains: Seq<DescriptorChain>,
    rl: RateLimiter,
    pending: Seq<Seq<u8>>,
    incoming: Seq<Seq<u8>>,
) -> RxPassOutcome
    decreases pending.len() + incoming.len(), (if pending.len() == 0 {
        1int
    } else {
        0int
    }),
{
    if pending.len() == 0 && incoming.len() == 0 {
        RxPassOutcome { mem, chains, used: Seq::empty(), rl, pending, incoming, deferred: false }
    } else if pending.len() == 0 {
        let k = crate::xfer::min_int(RX_BURST_SIZE as int, incoming.len() as int);
        rx_pass_rec(mem, chains, rl, incoming.take(k), incoming.skip(k))
    } else {
        let f = framed(pending[0]);
        if !crate::rate_limiter::rl_consume_ok(rl, 1, TokenType::Ops) {
            RxPassOutcome {
                mem,
                chains,
                used: Seq::empty(),
                rl: crate::rate_limiter::rl_after_consume(rl, 1, TokenType::Ops),
                pending,
                incoming,
                deferred: true,
            }
        } else {
            let rl1 = crate::rate_limiter::rl_after_consume(rl, 1, TokenType::Ops);
            let amt = (VNET_HDR_LEN + pending[0].len()) as u64;
            if !crate::rate_limiter::rl_consume_ok(rl1, amt, TokenType::Bytes) {
                RxPassOutcome {
                    mem,
                    chains,
                    used: Seq::empty(),
                    rl: crate::rate_limiter::rl_after_replenish(
                        crate::rate_limiter::rl_after_consume(rl1, amt, TokenType::Bytes),
                        1,
                        TokenType::Ops,
                    ),
                    pending,
                    incoming,
                    deferred: true,
                }
            } else {
                let rl2 = crate::rate_limiter::rl_after_consume(rl1, amt, TokenType::Bytes);
                let m = rx_retry_rec(mem, chains, f);
                if m.delivered {
                    let rest = rx_pass_rec(
                        m.mem,
                        chains.skip(m.consumed),
                        rl2,
                        pending.skip(1),
                        incoming,
                    );
                    RxPassOutcome {
                        mem: rest.mem,
                        chains: rest.chains,
                        used: m.used + rest.used,
                        rl: rest.rl,
                        pending: rest.pending,
                        incoming: rest.incoming,
                        deferred: rest.deferred,
                    }
                } else {
                    RxPassOutcome {
                        mem: m.mem,
                        chains: chains.skip(m.consumed),
                        used: m.used,
                        rl: rl2,
                        pending,
                        incoming,
                        deferred: true,
                    }
                }
            }
        }
    }
}

/// Result of draining the transmit queue: the used entries appended (all of
/// length 0, by transmit convention), the payloads forwarded toward the
/// transport in order, the limiter afterwards, the number of chains
/// consumed, and whether the drain stopped on an exhausted limiter.
pub struct TxDrainOutcome {
    pub used: Seq<UsedElem>,
    pub forwarded: Seq<Seq<u8>>,
    pub rl: RateLimiter,
    pub consumed: int,
    pub throttled: bool,
    /// Chains whose frame was too short to carry the header.
    pub malformed: int,
    /// Chains whose read was cut short after some bytes.
    pub partial: int,
    /// Chains whose read faulted before any byte.
    pub fails: int,
    /// Total payload bytes forwarded.
    pub fwd_bytes: int,
}

/// Functional model of the transmit drain.  For each chain in order: one
/// operations token is taken (failure stops the drain with the chain left in
/// the queue); a chain with a write-only segment is discarded unread; byte
/// tokens for the chain's total length are taken (failure returns the
/// operations token and stops the drain); the chain's bytes are read
/// (truncated at an unmapped segment), and a frame long enough to carry the
/// header is forwarded with the header stripped.  Every consumed chain is
/// marked used with length 0 whatever became of its frame.
pub open spec fn tx_drain_rec(
    mem: Seq<u8>,
    chains: Seq<DescriptorChain>,
    rl: RateLimiter,
) -> TxDrainOutcome
    decreases chains.len(),
{
    if chains.len() == 0 {
        TxDrainOutcome {
            used: Seq::empty(),
            forwarded: Seq::empty(),
            rl,
            consumed: 0,
            throttled: false,
            malformed: 0,
            partial: 0,
            fails: 0,
            fwd_bytes: 0,
        }
    } else {
        let c = chains[0];
        if !crate::rate_limiter::rl_consume_ok(rl, 1, TokenType::Ops) {
            TxDrainOutcome {
                used: Seq::empty(),
                forwarded: Seq::empty(),
                rl: crate::rate_limiter::rl_after_consume(rl, 1, TokenType::Ops),
                consumed: 0,
                throttled: true,
                malformed: 0,
                partial: 0,
                fails: 0,
                fwd_bytes: 0,
            }
        } else {
            let rl1 = crate::rate_limiter::rl_after_consume(rl, 1, TokenType::Ops);
            if !crate::xfer::chain_all_readable(c.segs@) {
                let rest = tx_drain_rec(mem, chains.skip(1), rl1);
                TxDrainOutcome {
                    used: seq![UsedElem { id: c.spec_head_id(), len: 0 }] + rest.used,
                    forwarded: rest.forwarded,
                    rl: rest.rl,
                    consumed: 1 + rest.consumed,
                    throttled: rest.throttled,
                    malformed: rest.malformed,
                    partial: rest.partial,
                    fails: rest.fails,
                    fwd_bytes: rest.fwd_bytes,
                }
            } else {
                let total = crate::xfer::chain_len_sum(c.segs@) as u64;
                if !crate::rate_limiter::rl_consume_ok(rl1, total, TokenType::Bytes) {
                    TxDrainOutcome {
                        used: Seq::empty(),
                        forwarded: Seq::empty(),
                        rl: crate::rate_limiter::rl_after_replenish(
                            crate::rate_limiter::rl_after_consume(rl1, total, TokenType::Bytes),
                            1,
                            TokenType::Ops,
                        ),
                        consumed: 0,
                        throttled: true,
                        malformed: 0,
                        partial: 0,
                        fails: 0,
                        fwd_bytes: 0,
                    }
                } else {
                    let rl2 = crate::rate_limiter::rl_after_consume(rl1, total, TokenType::Bytes);
                    let o = crate::xfer::tx_read_rec(mem, c.segs@, Seq::empty());
                    let rest = tx_drain_rec(mem, chains.skip(1), rl2);
                    let pinc = if o.partial && o.data.len() > 0 {
                        1int
                    } else {
                        0int
                    };
                    let finc = if o.partial && o.data.len() == 0 {
                        1int
                    } else {
                        0int
                    };
                    if o.data.len() < VNET_HDR_LEN {
                        TxDrainOutcome {
                            used: seq![UsedElem { id: c.spec_head_id(), len: 0 }] + rest.used,
                            forwarded: rest.forwarded,
                            rl: rest.rl,
                            consumed: 1 + rest.consumed,
                            throttled: rest.throttled,
                            malformed: 1 + rest.malformed,
                            partial: pinc + rest.partial,
                            fails: finc + rest.fails,
                            fwd_bytes: rest.fwd_bytes,
                        }
                    } else {
                        TxDrainOutcome {
                            used: seq![UsedElem { id: c.spec_head_id(), len: 0 }] + rest.used,
                            forwarded: seq![o.data.skip(VNET_HDR_LEN as int)] + rest.forwarded,
                            rl: rest.rl,
                            consumed: 1 + rest.consumed,
                            throttled: rest.throttled,
                            malformed: rest.malformed,
                            partial: pinc + rest.partial,
                            fails: finc + rest.fails,
                            fwd_bytes: (o.data.len() - VNET_HDR_LEN) + rest.fwd_bytes,
                        }
                    }
                }
            }
        }
    }
}

/// The byte sequences a sequence of buffers holds.
pub open spec fn seq_views(s: Seq<Vec<u8>>) -> Seq<Seq<u8>> {
    s.map_values(|v: Vec<u8>| v@)
}

/// Views distribute over concatenation.
pub proof fn lemma_seq_views_app(a: Seq<Vec<u8>>, b: Seq<Vec<u8>>)
    ensures
        seq_views(a + b) == seq_views(a) + seq_views(b),
{
    assert(seq_views(a + b) =~= seq_views(a) + seq_views(b));
}

/// The batch sizes as mathematical integers.
pub open spec fn seq_sizes(s: Seq<usize>) -> Seq<int> {
    s.map_values(|x: usize| x as int)
}

/// `k` batches of `c` frames each.
pub open spec fn full_batches(k: int, c: int) -> Seq<int> {
    Seq::new(k as nat, |i: int| c)
}

/// The batch sizes that sending `n` frames with batch capacity `c` yields:
/// full batches of `c` frames, then the remainder, if any.
pub open spec fn batch_split(n: int, c: int) -> Seq<int>
    decreases n,
{
    if c <= 0 || n <= 0 {
        Seq::empty()
    } else if n <= c {
        seq![n]
    } else {
        seq![c] + batch_split(n - c, c)
    }
}

/// `k` full batches and a remainder `r` are exactly the batch split of
/// `k * c + r` frames.
pub proof fn lemma_batch_split_decomp(k: int, r: int, c: int)
    requires
        k >= 0,
        0 <= r < c,
    ensures
        batch_split(k * c + r, c) == full_batches(k, c) + (if r > 0 {
            seq![r]
        } else {
            Seq::<int>::empty()
        }),
    decreases k,
{
    if k == 0 {
        assert(k * c == 0) by (nonlinear_arith)
            requires
                k == 0,
        ;
        if r > 0 {
            assert(batch_split(r, c) == seq![r]);
            assert(full_batches(0, c) + seq![r] =~= seq![r]);
        } else {
            assert(full_batches(0, c) + Seq::<int>::empty() =~= Seq::<int>::empty());
        }
    } else if k == 1 && r == 0 {
        assert(k * c + r == c) by (nonlinear_arith)
            requires
                k == 1 && r == 0,
        ;
        assert(batch_split(c, c) == seq![c]);
        assert(full_batches(1, c) + Seq::<int>::empty() =~= seq![c]);
    } else {
        assert(k * c + r > c && k * c + r - c == (k - 1) * c + r) by (nonlinear_arith)
            requires
                k >= 1,
                0 <= r < c,
                k >= 2 || r >= 1,
        ;
        lemma_batch_split_decomp(k - 1, r, c);
        assert(full_batches(k, c) =~= seq![c] + full_batches(k - 1, c));
        assert(batch_split(k * c + r, c) == seq![c] + batch_split((k - 1) * c + r, c));
        assert(seq![c] + (full_batches(k - 1, c) + (if r > 0 {
            seq![r]
        } else {
            Seq::<int>::empty()
        })) =~= full_batches(k, c) + (if r > 0 {
            seq![r]
        } else {
            Seq::<int>::empty()
        }));
    }
}

impl Net {
    /// Entry point for the receive-queue doorbell: the guest has made new
    /// receive buffers available; resolve a deferral if one is pending.
    pub fn process_rx_queue_event(&mut self)
        requires
            old(self).inv(),
            old(self).spec_is_activated(),
            old(self).rx_state_ok(),
            !old(self).rx_deferred_irqs,
        ensures
            final(self).inv(),
            final(self).spec_is_activated(),
            final(self).rx_state_ok(),
            !final(self).rx_deferred_irqs,
            Net::deferred_resume_ready(*old(self)) ==> Net::deferred_resume_done(
                *old(self),
                *final(self),
            ),
            (old(self).rx_deferred_frame && !Net::retry_would_deliver(*old(self))) ==> (final(self).rx_deferred_frame && final(self).transport.incoming@ == old(self).transport.incoming@ && final(self).rx_pending@ == old(self).rx_pending@),
            (old(self).rx_deferred_frame && Net::retry_would_deliver(*old(self))) ==> ({
                let f = framed(old(self).rx_pending@[0]@);
                let m = rx_retry_rec(old(self).mem@, old(self).rx_queue.avail@, f);
                let rl1 = crate::rate_limiter::rl_after_consume(
                    old(self).rx_rate_limiter,
                    1,
                    TokenType::Ops,
                );
                let amt = (VNET_HDR_LEN + old(self).rx_pending@[0]@.len()) as u64;
                let rl2 = crate::rate_limiter::rl_after_consume(rl1, amt, TokenType::Bytes);
                let p = rx_pass_rec(
                    m.mem,
                    old(self).rx_queue.avail@.skip(m.consumed),
                    rl2,
                    seq_views(old(self).rx_pending@).skip(1),
                    seq_views(old(self).transport.incoming@),
                );
                &&& final(self).mem@ == p.mem
                &&& final(self).rx_queue.avail@ == p.chains
                &&& final(self).rx_queue.used@ == (old(self).rx_queue.used@ + m.used) + p.used
                &&& final(self).rx_rate_limiter == p.rl
                &&& seq_views(final(self).rx_pending@) == p.pending
                &&& seq_views(final(self).transport.incoming@) == p.incoming
                &&& final(self).rx_deferred_frame == p.deferred
            }),
            !old(self).rx_deferred_frame ==> (*final(self) == (Net {
                metrics: final(self).metrics,
                ..*old(self)
            }) && final(self).metrics == (NetMetrics {
                rx_queue_event_count: spec_inc(old(self).metrics.rx_queue_event_count),
                ..old(self).metrics
            })),
    {
        self.metrics.rx_queue_event_count = sat_inc(self.metrics.rx_queue_event_count);
        self.resume_rx();
    }

    /// Entry point for transport-has-data: while a deferral is pending and
    /// no receive buffer is available, incoming frames stay with the
    /// transport; otherwise the deferral is resolved first, and only then
    /// are new frames pulled.
    pub fn process_tap_rx_event(&mut self)
        requires
            old(self).inv(),
            old(self).spec_is_activated(),
            old(self).rx_state_ok(),
            !old(self).rx_deferred_irqs,
        ensures
            final(self).inv(),
            final(self).spec_is_activated(),
            final(self).rx_state_ok(),
            !final(self).rx_deferred_irqs,
            Net::deferred_resume_ready(*old(self)) ==> Net::deferred_resume_done(
                *old(self),
                *final(self),
            ),
            !old(self).rx_deferred_frame ==> ({
                let p = rx_pass_rec(
                    old(self).mem@,
                    old(self).rx_queue.avail@,
                    old(self).rx_rate_limiter,
                    seq_views(old(self).rx_pending@),
                    seq_views(old(self).transport.incoming@),
                );
                &&& final(self).mem@ == p.mem
                &&& final(self).rx_queue.avail@ == p.chains
                &&& final(self).rx_queue.used@ == old(self).rx_queue.used@ + p.used
                &&& final(self).rx_rate_limiter == p.rl
                &&& seq_views(final(self).rx_pending@) == p.pending
                &&& seq_views(final(self).transport.incoming@) == p.incoming
                &&& final(self).rx_deferred_frame == p.deferred
            }),
            (old(self).rx_deferred_frame && old(self).rx_queue.avail@.len() > 0 && !Net::retry_would_deliver(*old(self))) ==> (final(self).rx_deferred_frame && final(self).transport.incoming@ == old(self).transport.incoming@ && final(self).rx_pending@ == old(self).rx_pending@),
            (old(self).rx_deferred_frame && old(self).rx_queue.avail@.len() > 0 && Net::retry_would_deliver(*old(self))) ==> ({
                let f = framed(old(self).rx_pending@[0]@);
                let m = rx_retry_rec(old(self).mem@, old(self).rx_queue.avail@, f);
                let rl1 = crate::rate_limiter::rl_after_consume(
                    old(self).rx_rate_limiter,
                    1,
                    TokenType::Ops,
                );
                let amt = (VNET_HDR_LEN + old(self).rx_pending@[0]@.len()) as u64;
                let rl2 = crate::rate_limiter::rl_after_consume(rl1, amt, TokenType::Bytes);
                let p = rx_pass_rec(
                    m.mem,
                    old(self).rx_queue.avail@.skip(m.consumed),
                    rl2,
                    seq_views(old(self).rx_pending@).skip(1),
                    seq_views(old(self).transport.incoming@),
                );
                &&& final(self).mem@ == p.mem
                &&& final(self).rx_queue.avail@ == p.chains
                &&& final(self).rx_queue.used@ == (old(self).rx_queue.used@ + m.used) + p.used
                &&& final(self).rx_rate_limiter == p.rl
                &&& seq_views(final(self).rx_pending@) == p.pending
                &&& seq_views(final(self).transport.incoming@) == p.incoming
                &&& final(self).rx_deferred_frame == p.deferred
            }),
            old(self).rx_queue.avail@.len() == 0 && old(self).rx_deferred_frame ==> (*final(self)
                == (Net { metrics: final(self).metrics, ..*old(self) }) && final(self).metrics == (
            NetMetrics {
                rx_tap_event_count: spec_inc(old(self).metrics.rx_tap_event_count),
                no_rx_avail_buffer: spec_inc(old(self).metrics.no_rx_avail_buffer),
                ..old(self).metrics
            })),
    {
        self.metrics.rx_tap_event_count = sat_inc(self.metrics.rx_tap_event_count);
        if self.rx_queue.is_empty() && self.rx_deferred_frame {
            self.metrics.no_rx_avail_buffer = sat_inc(self.metrics.no_rx_avail_buffer);
            return ;
        }
        if self.rx_deferred_frame {
            self.handle_deferred_frame();
        } else {
            self.process_rx();
        }
    }

    /// Entry point for the receive replenishment timer: refills the budgets
    /// and resumes the receive path; a spurious event only counts a failure.
    pub fn process_rx_rate_limiter_event(&mut self)
        requires
            old(self).inv(),
            old(self).spec_is_activated(),
            old(self).rx_state_ok(),
            !old(self).rx_deferred_irqs,
        ensures
            final(self).inv(),
            final(self).spec_is_activated(),
            final(self).rx_state_ok(),
            !final(self).rx_deferred_irqs,
            !old(self).rx_rate_limiter.timer_armed ==> (*final(self) == (Net {
                metrics: final(self).metrics,
                ..*old(self)
            }) && final(self).metrics == (NetMetrics {
                rx_event_rate_limiter_count: spec_inc(
                    old(self).metrics.rx_event_rate_limiter_count,
                ),
                event_fails: spec_inc(old(self).metrics.event_fails),
                ..old(self).metrics
            })),
            old(self).rx_rate_limiter.timer_armed ==> ({
                let pre = (Net {
                    rx_rate_limiter: crate::rate_limiter::rl_refilled(old(self).rx_rate_limiter),
                    ..*old(self)
                });
                &&& (Net::deferred_resume_ready(pre) ==> Net::deferred_resume_done(
                    pre,
                    *final(self),
                ))
                &&& (!old(self).rx_deferred_frame ==> *final(self) == (Net {
                    rx_rate_limiter: crate::rate_limiter::rl_refilled(old(self).rx_rate_limiter),
                    metrics: final(self).metrics,
                    ..*old(self)
                }))
                &&& ((old(self).rx_deferred_frame && !Net::retry_would_deliver(pre)) ==> (final(self).rx_deferred_frame && final(self).transport.incoming@ == old(self).transport.incoming@ && final(self).rx_pending@ == old(self).rx_pending@))
                &&& ((old(self).rx_deferred_frame && Net::retry_would_deliver(pre)) ==> ({
                    let f = framed(old(self).rx_pending@[0]@);
                    let m = rx_retry_rec(old(self).mem@, old(self).rx_queue.avail@, f);
                    let rl1 = crate::rate_limiter::rl_after_consume(
                        pre.rx_rate_limiter,
                        1,
                        TokenType::Ops,
                    );
                    let amt = (VNET_HDR_LEN + old(self).rx_pending@[0]@.len()) as u64;
                    let rl2 = crate::rate_limiter::rl_after_consume(rl1, amt, TokenType::Bytes);
                    let p = rx_pass_rec(
                        m.mem,
                        old(self).rx_queue.avail@.skip(m.consumed),
                        rl2,
                        seq_views(old(self).rx_pending@).skip(1),
                        seq_views(old(self).transport.incoming@),
                    );
                    &&& final(self).mem@ == p.mem
                    &&& final(self).rx_queue.avail@ == p.chains
                    &&& final(self).rx_queue.used@ == (old(self).rx_queue.used@ + m.used) + p.used
                    &&& final(self).rx_rate_limiter == p.rl
                    &&& seq_views(final(self).rx_pending@) == p.pending
                    &&& seq_views(final(self).transport.incoming@) == p.incoming
                    &&& final(self).rx_deferred_frame == p.deferred
                }))
                &&& final(self).rx_queue.used@.take(old(self).rx_queue.used@.len() as int) == old(self).rx_queue.used@
                &&& delivered_count(
                    final(self).rx_queue.used@.skip(old(self).rx_queue.used@.len() as int),
                ) + final(self).rx_frames_outstanding() == old(self).rx_frames_outstanding()
            }),
    {
        self.metrics.rx_event_rate_limiter_count = sat_inc(
            self.metrics.rx_event_rate_limiter_count,
        );
        let ghost pre: Net = (Net {
            rx_rate_limiter: crate::rate_limiter::rl_refilled(old(self).rx_rate_limiter),
            ..*old(self)
        });
        match self.rx_rate_limiter.event_handler() {
            Ok(u) => {
                let ghost mid: Net = *self;
                proof {
                    assert(mid.rx_rate_limiter == pre.rx_rate_limiter);
                    assert(mid.rx_queue == pre.rx_queue);
                    assert(mid.mem == pre.mem);
                    assert(mid.rx_pending == pre.rx_pending);
                    assert(mid.transport == pre.transport);
                    assert(mid.rx_deferred_frame == pre.rx_deferred_frame);
                    assert(mid.irq_count == pre.irq_count);
                }
                self.resume_rx();
                proof {
                    if Net::deferred_resume_ready(pre) {
                        assert(Net::deferred_resume_ready(mid));
                    }
                    if old(self).rx_deferred_frame {
                        if Net::retry_would_deliver(pre) {
                            assert(Net::retry_would_deliver(mid));
                        } else {
                            assert(!Net::retry_would_deliver(mid));
                        }
                    }
                }
            },
            Err(e) => {
                self.metrics.event_fails = sat_inc(self.metrics.event_fails);
            },
        }
    }

    /// One transmit pass: drains the transmit queue, reading each chain and
    /// accumulating its frame into a fixed-capacity batch that is flushed to
    /// the transport at capacity and once more at the end.  Chains are
    /// marked used the moment they are read, whatever the transport does;
    /// one interrupt is raised when at least one chain was consumed.
    ///
    /// The whole pass equals the functional drain `tx_drain_rec`, and the
    /// flush pattern equals `batch_split` of the forwarded-frame count: with
    /// `n` frames forwarded the transport sees `n / c` full batches and then
    /// the remainder, never more than `c` frames in one call.
    #[verifier::rlimit(100)]
    pub fn process_tx(&mut self)
        requires
            old(self).inv(),
            old(self).spec_is_activated(),
            !old(self).rx_deferred_irqs,
        ensures
            final(self).inv(),
            final(self).spec_is_activated(),
            final(self).rx_state_ok() == old(self).rx_state_ok(),
            !final(self).rx_deferred_irqs,
            ({
                let d = tx_drain_rec(old(self).mem@, old(self).tx_queue.avail@, old(
                    self,
                ).tx_rate_limiter);
                &&& final(self).tx_queue.used@ == old(self).tx_queue.used@ + d.used
                &&& final(self).tx_queue.avail@ == old(self).tx_queue.avail@.skip(d.consumed)
                &&& final(self).tx_queue.size == old(self).tx_queue.size
                &&& final(self).tx_rate_limiter == d.rl
                &&& seq_views(final(self).transport.sent@) == seq_views(old(self).transport.sent@)
                    + d.forwarded
                &&& seq_sizes(final(self).transport.batch_sizes@) == seq_sizes(
                    old(self).transport.batch_sizes@,
                ) + batch_split(d.forwarded.len() as int, TX_BATCH_SIZE as int)
                &&& final(self).transport.incoming@ == old(self).transport.incoming@
                &&& final(self).irq_count == (if d.consumed > 0 {
                    spec_inc(old(self).irq_count)
                } else {
                    old(self).irq_count
                })
                &&& final(self).metrics == (NetMetrics {
                    tx_malformed_frames: sat_addi(old(self).metrics.tx_malformed_frames, d.malformed),
                    tx_partial_reads: sat_addi(old(self).metrics.tx_partial_reads, d.partial),
                    tx_fails: sat_addi(old(self).metrics.tx_fails, d.fails),
                    tx_packets_count: sat_addi(
                        old(self).metrics.tx_packets_count,
                        d.forwarded.len() as int,
                    ),
                    tx_count: sat_addi(old(self).metrics.tx_count, d.forwarded.len() as int),
                    tx_bytes_count: sat_addi(old(self).metrics.tx_bytes_count, d.fwd_bytes),
                    tx_rate_limiter_throttled: if d.throttled {
                        spec_inc(old(self).metrics.tx_rate_limiter_throttled)
                    } else {
                        old(self).metrics.tx_rate_limiter_throttled
                    },
                    no_tx_avail_buffer: if d.consumed > 0 {
                        old(self).metrics.no_tx_avail_buffer
                    } else {
                        spec_inc(old(self).metrics.no_tx_avail_buffer)
                    },
                    ..old(self).metrics
                })
            }),
            *final(self) == (Net {
                tx_queue: final(self).tx_queue,
                tx_rate_limiter: final(self).tx_rate_limiter,
                transport: final(self).transport,
                metrics: final(self).metrics,
                interrupt_status: final(self).interrupt_status,
                irq_count: final(self).irq_count,
                ..*old(self)
            }),
    {
        let ghost mem0: Seq<u8> = old(self).mem@;
        let ghost avail0: Seq<DescriptorChain> = old(self).tx_queue.avail@;
        let ghost rl0: RateLimiter = old(self).tx_rate_limiter;
        let ghost u0: Seq<UsedElem> = old(self).tx_queue.used@;
        let ghost lu0: int = u0.len() as int;
        let ghost sent0: Seq<Vec<u8>> = old(self).transport.sent@;
        let ghost s0: int = sent0.len() as int;
        let ghost bs0: Seq<usize> = old(self).transport.batch_sizes@;
        let ghost d0: TxDrainOutcome = tx_drain_rec(mem0, avail0, rl0);
        let ghost mut done: int = 0;
        let ghost mut k: int = 0;
        let ghost mut cmal: int = 0;
        let ghost mut cpar: int = 0;
        let ghost mut cfail: int = 0;
        let ghost mut cfwd: int = 0;
        let ghost mut cbytes: int = 0;
        let ghost m0: NetMetrics = old(self).metrics;
        let mut batch: Vec<Vec<u8>> = Vec::new();
        let mut raise_irq: bool = false;
        proof {
            assert(avail0.skip(0) =~= avail0);
            assert(self.tx_queue.used@.skip(lu0) =~= Seq::<UsedElem>::empty());
            assert(self.tx_queue.used@.take(lu0) =~= u0);
            assert(self.transport.sent@.skip(s0) =~= Seq::<Vec<u8>>::empty());
            assert(self.transport.sent@.take(s0) =~= sent0);
            assert(seq_views(Seq::<Vec<u8>>::empty()) =~= Seq::<Seq<u8>>::empty());
            assert(seq_views(batch@) =~= Seq::<Seq<u8>>::empty());
            assert(full_batches(0, TX_BATCH_SIZE as int) =~= Seq::<int>::empty());
            assert(seq_sizes(bs0) + Seq::<int>::empty() =~= seq_sizes(bs0));
            assert(Seq::<UsedElem>::empty() + tx_drain_rec(mem0, avail0, rl0).used =~= tx_drain_rec(
                mem0,
                avail0,
                rl0,
            ).used);
            assert(Seq::<Seq<u8>>::empty() + Seq::<Seq<u8>>::empty() + tx_drain_rec(
                mem0,
                avail0,
                rl0,
            ).forwarded =~= tx_drain_rec(mem0, avail0, rl0).forwarded);
        }
        loop
            invariant_except_break
                ({
                    let rec = tx_drain_rec(mem0, self.tx_queue.avail@, self.tx_rate_limiter);
                    &&& d0.used == self.tx_queue.used@.skip(lu0) + rec.used
                    &&& d0.forwarded == seq_views(self.transport.sent@.skip(s0)) + seq_views(
                        batch@,
                    ) + rec.forwarded
                    &&& d0.rl == rec.rl
                    &&& d0.consumed == done + rec.consumed
                    &&& d0.throttled == rec.throttled
                    &&& d0.malformed == cmal + rec.malformed
                    &&& d0.partial == cpar + rec.partial
                    &&& d0.fails == cfail + rec.fails
                    &&& d0.forwarded.len() == cfwd + rec.forwarded.len()
                    &&& d0.fwd_bytes == cbytes + rec.fwd_bytes
                }),
                self.metrics == (NetMetrics {
                    tx_malformed_frames: sat_addi(m0.tx_malformed_frames, cmal),
                    tx_partial_reads: sat_addi(m0.tx_partial_reads, cpar),
                    tx_fails: sat_addi(m0.tx_fails, cfail),
                    tx_packets_count: sat_addi(m0.tx_packets_count, cfwd),
                    tx_count: sat_addi(m0.tx_count, cfwd),
                    tx_bytes_count: sat_addi(m0.tx_bytes_count, cbytes),
                    ..m0
                }),
            invariant
                self.inv(),
                self.spec_is_activated(),
                !old(self).rx_deferred_irqs,
                !self.rx_deferred_irqs,
                mem0 == old(self).mem@ && mem0 == self.mem@,
                avail0 == old(self).tx_queue.avail@,
                rl0 == old(self).tx_rate_limiter,
                u0 == old(self).tx_queue.used@ && lu0 == u0.len(),
                sent0 == old(self).transport.sent@ && s0 == sent0.len(),
                bs0 == old(self).transport.batch_sizes@,
                d0 == tx_drain_rec(mem0, avail0, rl0),
                m0 == old(self).metrics,
                cmal >= 0 && cpar >= 0 && cfail >= 0 && cfwd >= 0 && cbytes >= 0,
                0 <= done <= avail0.len(),
                self.tx_queue.avail@ == avail0.skip(done),
                self.tx_queue.size == old(self).tx_queue.size,
                self.tx_queue.used@.len() >= lu0,
                self.tx_queue.used@.take(lu0) == u0,
                k >= 0,
                batch@.len() < TX_BATCH_SIZE,
                seq_sizes(self.transport.batch_sizes@) == seq_sizes(bs0) + full_batches(
                    k,
                    TX_BATCH_SIZE as int,
                ),
                self.transport.sent@.len() >= s0,
                self.transport.sent@.take(s0) == sent0,
                self.transport.sent@.len() - s0 == k * (TX_BATCH_SIZE as int),
                self.transport.incoming@ == old(self).transport.incoming@,
                raise_irq <==> done > 0,
                *self == (Net {
                    tx_queue: self.tx_queue,
                    tx_rate_limiter: self.tx_rate_limiter,
                    transport: self.transport,
                    metrics: self.metrics,
                    ..*old(self)
                }),
            ensures
                self.inv(),
                self.spec_is_activated(),
                !self.rx_deferred_irqs,
                0 <= done <= avail0.len(),
                self.tx_queue.avail@ == avail0.skip(done),
                self.tx_queue.size == old(self).tx_queue.size,
                self.tx_queue.used@.len() >= lu0,
                self.tx_queue.used@.take(lu0) == u0,
                d0.used == self.tx_queue.used@.skip(lu0),
                d0.forwarded == seq_views(self.transport.sent@.skip(s0)) + seq_views(batch@),
                d0.rl == self.tx_rate_limiter,
                d0.consumed == done,
                self.metrics == (NetMetrics {
                    tx_malformed_frames: sat_addi(m0.tx_malformed_frames, d0.malformed),
                    tx_partial_reads: sat_addi(m0.tx_partial_reads, d0.partial),
                    tx_fails: sat_addi(m0.tx_fails, d0.fails),
                    tx_packets_count: sat_addi(m0.tx_packets_count, d0.forwarded.len() as int),
                    tx_count: sat_addi(m0.tx_count, d0.forwarded.len() as int),
                    tx_bytes_count: sat_addi(m0.tx_bytes_count, d0.fwd_bytes),
                    tx_rate_limiter_throttled: if d0.throttled {
                        spec_inc(m0.tx_rate_limiter_throttled)
                    } else {
                        m0.tx_rate_limiter_throttled
                    },
                    ..m0
                }),
                k >= 0,
                batch@.len() < TX_BATCH_SIZE,
                seq_sizes(self.transport.batch_sizes@) == seq_sizes(bs0) + full_batches(
                    k,
                    TX_BATCH_SIZE as int,
                ),
                self.transport.sent@.len() >= s0,
                self.transport.sent@.take(s0) == sent0,
                self.transport.sent@.len() - s0 == k * (TX_BATCH_SIZE as int),
                self.transport.incoming@ == old(self).transport.incoming@,
                raise_irq <==> done > 0,
                *self == (Net {
                    tx_queue: self.tx_queue,
                    tx_rate_limiter: self.tx_rate_limiter,
                    transport: self.transport,
                    metrics: self.metrics,
                    ..*old(self)
                }),
            decreases self.tx_queue.avail@.len(),
        {
            let ghost rl_at: RateLimiter = self.tx_rate_limiter;
            let ghost avail_at: Seq<DescriptorChain> = self.tx_queue.avail@;
            let ghost used_at: Seq<UsedElem> = self.tx_queue.used@;
            let popped: Option<DescriptorChain> = self.tx_queue.pop();
            match popped {
                None => {
                    proof {
                        let rec = tx_drain_rec(mem0, avail_at, rl_at);
                        assert(avail_at.len() == 0);
                        assert(d0.used =~= self.tx_queue.used@.skip(lu0));
                        assert(d0.forwarded =~= seq_views(self.transport.sent@.skip(s0))
                            + seq_views(batch@));
                        assert(rec.malformed == 0 && rec.partial == 0 && rec.fails == 0
                            && rec.fwd_bytes == 0 && !rec.throttled
                            && rec.forwarded.len() == 0);
                    }
                    break ;
                },
                Some(chain) => {
                    if !self.tx_rate_limiter.consume(1, TokenType::Ops) {
                        self.tx_queue.undo_pop(chain);
                        self.metrics.tx_rate_limiter_throttled = sat_inc(
                            self.metrics.tx_rate_limiter_throttled,
                        );
                        proof {
                            assert(seq![avail_at[0]] + avail_at.skip(1) =~= avail_at);
                            let rec = tx_drain_rec(mem0, avail_at, rl_at);
                            assert(rec.used == Seq::<UsedElem>::empty());
                            assert(d0.used =~= self.tx_queue.used@.skip(lu0));
                            assert(d0.forwarded =~= seq_views(self.transport.sent@.skip(s0))
                                + seq_views(batch@));
                            assert(d0.rl == self.tx_rate_limiter);
                            assert(rec.malformed == 0 && rec.partial == 0 && rec.fails == 0
                                && rec.fwd_bytes == 0 && rec.throttled
                                && rec.forwarded.len() == 0);
                        }
                        break ;
                    }
                    if !crate::xfer::chain_is_readable(&chain) {
                        self.tx_queue.add_used(chain.head_id(), 0);
                        raise_irq = true;
                        proof {
                            done = done + 1;
                            assert(avail_at.skip(1) =~= avail0.skip(done));
                            let rec_before = tx_drain_rec(mem0, avail_at, rl_at);
                            let rec_after = tx_drain_rec(
                                mem0,
                                self.tx_queue.avail@,
                                self.tx_rate_limiter,
                            );
                            assert(rec_before.used == seq![
                                UsedElem { id: avail_at[0].spec_head_id(), len: 0 },
                            ] + rec_after.used);
                            assert(self.tx_queue.used@.skip(lu0) =~= used_at.skip(lu0) + seq![
                                UsedElem { id: avail_at[0].spec_head_id(), len: 0 },
                            ]);
                            assert(self.tx_queue.used@.take(lu0) =~= u0);
                            assert(rec_before.malformed == rec_after.malformed
                                && rec_before.partial == rec_after.partial
                                && rec_before.fails == rec_after.fails
                                && rec_before.fwd_bytes == rec_after.fwd_bytes
                                && rec_before.forwarded.len() == rec_after.forwarded.len());
                        }
                        continue ;
                    }
                    let total: u64 = crate::xfer::chain_total_len(&chain);
                    proof {
                        crate::xfer::lemma_chain_len_sum_nonneg(chain.segs@);
                        crate::xfer::lemma_chain_len_sum_bound(chain.segs@);
                        assert(chain.segs@.len() * 0xFFFF_FFFF <= 0x1_0000 * 0xFFFF_FFFF)
                            by (nonlinear_arith)
                            requires
                                chain.segs@.len() <= 0x1_0000,
                        ;
                        assert(total as int == crate::xfer::chain_len_sum(chain.segs@));
                    }
                    if !self.tx_rate_limiter.consume(total, TokenType::Bytes) {
                        self.tx_rate_limiter.manual_replenish(1, TokenType::Ops);
                        self.tx_queue.undo_pop(chain);
                        self.metrics.tx_rate_limiter_throttled = sat_inc(
                            self.metrics.tx_rate_limiter_throttled,
                        );
                        proof {
                            assert(seq![avail_at[0]] + avail_at.skip(1) =~= avail_at);
                            let rec = tx_drain_rec(mem0, avail_at, rl_at);
                            assert(rec.used == Seq::<UsedElem>::empty());
                            assert(d0.used =~= self.tx_queue.used@.skip(lu0));
                            assert(d0.forwarded =~= seq_views(self.transport.sent@.skip(s0))
                                + seq_views(batch@));
                            assert(d0.rl == self.tx_rate_limiter);
                            assert(rec.malformed == 0 && rec.partial == 0 && rec.fails == 0
                                && rec.fwd_bytes == 0 && rec.throttled
                                && rec.forwarded.len() == 0);
                        }
                        break ;
                    }
                    let pair: (Vec<u8>, bool) = crate::xfer::read_frame_from_chain(
                        &self.mem,
                        &chain,
                    );
                    let data: Vec<u8> = pair.0;
                    if pair.1 {
                        if data.len() > 0 {
                            self.metrics.tx_partial_reads = sat_inc(self.metrics.tx_partial_reads);
                            proof {
                                lemma_sat_addi_chain(m0.tx_partial_reads, cpar, 1);
                                cpar = cpar + 1;
                            }
                        } else {
                            self.metrics.tx_fails = sat_inc(self.metrics.tx_fails);
                            proof {
                                lemma_sat_addi_chain(m0.tx_fails, cfail, 1);
                                cfail = cfail + 1;
                            }
                        }
                    }
                    self.tx_queue.add_used(chain.head_id(), 0);
                    raise_irq = true;
                    proof {
                        done = done + 1;
                        assert(avail_at.skip(1) =~= avail0.skip(done));
                        assert(self.tx_queue.used@.take(lu0) =~= u0);
                        assert(self.tx_queue.used@.skip(lu0) =~= used_at.skip(lu0) + seq![
                            UsedElem { id: avail_at[0].spec_head_id(), len: 0 },
                        ]);
                    }
                    if data.len() < crate::frame::VNET_HDR_LEN {
                        self.metrics.tx_malformed_frames = sat_inc(self.metrics.tx_malformed_frames);
                        proof {
                            lemma_sat_addi_chain(m0.tx_malformed_frames, cmal, 1);
                            cmal = cmal + 1;
                            let rec_before = tx_drain_rec(mem0, avail_at, rl_at);
                            let rec_after = tx_drain_rec(
                                mem0,
                                self.tx_queue.avail@,
                                self.tx_rate_limiter,
                            );
                            assert(rec_before.used == seq![
                                UsedElem { id: avail_at[0].spec_head_id(), len: 0 },
                            ] + rec_after.used);
                            assert(rec_before.malformed == 1 + rec_after.malformed);
                            assert(rec_before.partial == (if pair.1 && data@.len() > 0 {
                                1int
                            } else {
                                0int
                            }) + rec_after.partial);
                            assert(rec_before.fails == (if pair.1 && data@.len() == 0 {
                                1int
                            } else {
                                0int
                            }) + rec_after.fails);
                            assert(rec_before.fwd_bytes == rec_after.fwd_bytes);
                            assert(rec_before.forwarded.len() == rec_after.forwarded.len());
                        }
                        continue ;
                    }
                    let payload: Vec<u8> = crate::frame::payload_of(&data);
                    self.metrics.tx_packets_count = sat_inc(self.metrics.tx_packets_count);
                    self.metrics.tx_bytes_count = sat_add(
                        self.metrics.tx_bytes_count,
                        payload.len() as u64,
                    );
                    self.metrics.tx_count = sat_inc(self.metrics.tx_count);
                    proof {
                        lemma_sat_addi_chain(m0.tx_packets_count, cfwd, 1);
                        lemma_sat_addi_chain(m0.tx_count, cfwd, 1);
                        lemma_sat_addi_chain(m0.tx_bytes_count, cbytes, payload@.len() as int);
                        assert(spec_add(sat_addi(m0.tx_bytes_count, cbytes), payload.len() as u64)
                            == sat_addi(sat_addi(m0.tx_bytes_count, cbytes), payload@.len() as int));
                        cfwd = cfwd + 1;
                        cbytes = cbytes + payload@.len();
                        assert(payload@.len() == data@.len() - VNET_HDR_LEN);
                    }
                    let ghost batch_before: Seq<Vec<u8>> = batch@;
                    batch.push(payload);
                    proof {
                        assert(seq_views(batch@) =~= seq_views(batch_before) + seq![
                            data@.skip(VNET_HDR_LEN as int),
                        ]);
                    }
                    if batch.len() == crate::TX_BATCH_SIZE {
                        let full: Vec<Vec<u8>> = batch;
                        let ghost sent_before: Seq<Vec<u8>> = self.transport.sent@;
                        self.transport.send_batch(full);
                        batch = Vec::new();
                        proof {
                            k = k + 1;
                            lemma_seq_views_app(sent_before.skip(s0), full@);
                            assert(self.transport.sent@.skip(s0) =~= sent_before.skip(s0) + full@);
                            assert(self.transport.sent@.take(s0) =~= sent_before.take(s0));
                            assert(seq_views(batch@) =~= Seq::<Seq<u8>>::empty());
                            assert(seq_sizes(self.transport.batch_sizes@) =~= seq_sizes(bs0)
                                + full_batches(k, TX_BATCH_SIZE as int)) by {
                                assert(seq_sizes(self.transport.batch_sizes@) =~= (seq_sizes(bs0)
                                    + full_batches(k - 1, TX_BATCH_SIZE as int)) + seq![
                                    TX_BATCH_SIZE as int,
                                ]);
                                assert(full_batches(k, TX_BATCH_SIZE as int) =~= full_batches(
                                    k - 1,
                                    TX_BATCH_SIZE as int,
                                ) + seq![TX_BATCH_SIZE as int]);
                            }
                            assert(k * (TX_BATCH_SIZE as int) == (k - 1) * (TX_BATCH_SIZE as int)
                                + (TX_BATCH_SIZE as int)) by (nonlinear_arith);
                        }
                    }
                    proof {
                        let rec_before = tx_drain_rec(mem0, avail_at, rl_at);
                        let rec_after = tx_drain_rec(
                            mem0,
                            self.tx_queue.avail@,
                            self.tx_rate_limiter,
                        );
                        assert(rec_before.used == seq![
                            UsedElem { id: avail_at[0].spec_head_id(), len: 0 },
                        ] + rec_after.used);
                        assert(rec_before.forwarded == seq![
                            crate::xfer::tx_read_rec(
                                mem0,
                                avail_at[0].segs@,
                                Seq::empty(),
                            ).data.skip(VNET_HDR_LEN as int),
                        ] + rec_after.forwarded);
                        assert(rec_before.malformed == rec_after.malformed);
                        assert(rec_before.partial == (if pair.1 && data@.len() > 0 {
                            1int
                        } else {
                            0int
                        }) + rec_after.partial);
                        assert(rec_before.fails == (if pair.1 && data@.len() == 0 {
                            1int
                        } else {
                            0int
                        }) + rec_after.fails);
                        assert(rec_before.fwd_bytes == (data@.len() - VNET_HDR_LEN)
                            + rec_after.fwd_bytes);
                        assert(rec_before.forwarded.len() == 1 + rec_after.forwarded.len());
                    }
                },
            }
        }
        if batch.len() > 0 {
            let rest: Vec<Vec<u8>> = batch;
            let ghost sent_before: Seq<Vec<u8>> = self.transport.sent@;
            let ghost r: int = rest@.len() as int;
            self.transport.send_batch(rest);
            proof {
                lemma_seq_views_app(sent_before.skip(s0), rest@);
                assert(self.transport.sent@.skip(s0) =~= sent_before.skip(s0) + rest@);
                assert(self.transport.sent@.take(s0) =~= sent_before.take(s0));
                lemma_batch_split_decomp(k, r, TX_BATCH_SIZE as int);
                assert(d0.forwarded.len() == k * (TX_BATCH_SIZE as int) + r);
                assert(seq_sizes(self.transport.batch_sizes@) =~= (seq_sizes(bs0) + full_batches(
                    k,
                    TX_BATCH_SIZE as int,
                )) + seq![r]);
                assert(seq_sizes(self.transport.batch_sizes@) =~= seq_sizes(bs0) + batch_split(
                    d0.forwarded.len() as int,
                    TX_BATCH_SIZE as int,
                ));
            }
        } else {
            proof {
                lemma_batch_split_decomp(k, 0, TX_BATCH_SIZE as int);
                assert(d0.forwarded.len() == k * (TX_BATCH_SIZE as int));
                assert(seq_views(batch@) =~= Seq::<Seq<u8>>::empty());
                assert(d0.forwarded =~= seq_views(self.transport.sent@.skip(s0)));
                assert(seq_sizes(self.transport.batch_sizes@) =~= seq_sizes(bs0) + batch_split(
                    d0.forwarded.len() as int,
                    TX_BATCH_SIZE as int,
                ));
            }
        }
        proof {
            lemma_seq_views_app(self.transport.sent@.take(s0), self.transport.sent@.skip(s0));
            assert(self.transport.sent@.take(s0) + self.transport.sent@.skip(s0) =~= self.transport.sent@);
            assert(seq_views(self.transport.sent@) =~= seq_views(sent0) + seq_views(
                self.transport.sent@.skip(s0),
            ));
            assert(self.tx_queue.used@.take(lu0) + self.tx_queue.used@.skip(lu0)
                =~= self.tx_queue.used@);
            assert(self.tx_queue.used@ =~= u0 + d0.used);
        }
        if raise_irq {
            self.signal_used_queue();
        } else {
            self.metrics.no_tx_avail_buffer = sat_inc(self.metrics.no_tx_avail_buffer);
        }
    }

    /// Entry point for the transmit-queue doorbell: a blocked limiter defers
    /// the whole pass to the replenishment event; otherwise the queue is
    /// drained.
    pub fn process_tx_queue_event(&mut self)
        requires
            old(self).inv(),
            old(self).spec_is_activated(),
            old(self).rx_state_ok(),
            !old(self).rx_deferred_irqs,
        ensures
            final(self).inv(),
            final(self).spec_is_activated(),
            final(self).rx_state_ok(),
            !final(self).rx_deferred_irqs,
            old(self).tx_rate_limiter.timer_armed ==> (*final(self) == (Net {
                metrics: final(self).metrics,
                ..*old(self)
            }) && final(self).metrics == (NetMetrics {
                tx_queue_event_count: spec_inc(old(self).metrics.tx_queue_event_count),
                tx_rate_limiter_throttled: spec_inc(old(self).metrics.tx_rate_limiter_throttled),
                ..old(self).metrics
            })),
            !old(self).tx_rate_limiter.timer_armed ==> ({
                let d = tx_drain_rec(old(self).mem@, old(self).tx_queue.avail@, old(
                    self,
                ).tx_rate_limiter);
                &&& final(self).tx_queue.used@ == old(self).tx_queue.used@ + d.used
                &&& final(self).tx_queue.avail@ == old(self).tx_queue.avail@.skip(d.consumed)
                &&& final(self).tx_rate_limiter == d.rl
                &&& seq_views(final(self).transport.sent@) == seq_views(old(self).transport.sent@)
                    + d.forwarded
                &&& seq_sizes(final(self).transport.batch_sizes@) == seq_sizes(
                    old(self).transport.batch_sizes@,
                ) + batch_split(d.forwarded.len() as int, TX_BATCH_SIZE as int)
                &&& final(self).irq_count == (if d.consumed > 0 {
                    spec_inc(old(self).irq_count)
                } else {
                    old(self).irq_count
                })
                &&& ({
                    let m1 = (NetMetrics {
                        tx_queue_event_count: spec_inc(old(self).metrics.tx_queue_event_count),
                        ..old(self).metrics
                    });
                    final(self).metrics == (NetMetrics {
                        tx_malformed_frames: sat_addi(m1.tx_malformed_frames, d.malformed),
                        tx_partial_reads: sat_addi(m1.tx_partial_reads, d.partial),
                        tx_fails: sat_addi(m1.tx_fails, d.fails),
                        tx_packets_count: sat_addi(m1.tx_packets_count, d.forwarded.len() as int),
                        tx_count: sat_addi(m1.tx_count, d.forwarded.len() as int),
                        tx_bytes_count: sat_addi(m1.tx_bytes_count, d.fwd_bytes),
                        tx_rate_limiter_throttled: if d.throttled {
                            spec_inc(m1.tx_rate_limiter_throttled)
                        } else {
                            m1.tx_rate_limiter_throttled
                        },
                        no_tx_avail_buffer: if d.consumed > 0 {
                            m1.no_tx_avail_buffer
                        } else {
                            spec_inc(m1.no_tx_avail_buffer)
                        },
                        ..m1
                    })
                })
            }),
    {
        self.metrics.tx_queue_event_count = sat_inc(self.metrics.tx_queue_event_count);
        if !self.tx_rate_limiter.is_blocked() {
            self.process_tx();
        } else {
            self.metrics.tx_rate_limiter_throttled = sat_inc(
                self.metrics.tx_rate_limiter_throttled,
            );
        }
    }

    /// Entry point for the transmit replenishment timer: refills the budgets
    /// and drains the queue; a spurious event only counts a failure.
    pub fn process_tx_rate_limiter_event(&mut self)
        requires
            old(self).inv(),
            old(self).spec_is_activated(),
            old(self).rx_state_ok(),
            !old(self).rx_deferred_irqs,
        ensures
            final(self).inv(),
            final(self).spec_is_activated(),
            final(self).rx_state_ok(),
            !final(self).rx_deferred_irqs,
            !old(self).tx_rate_limiter.timer_armed ==> (*final(self) == (Net {
                metrics: final(self).metrics,
                ..*old(self)
            }) && final(self).metrics == (NetMetrics {
                tx_rate_limiter_event_count: spec_inc(
                    old(self).metrics.tx_rate_limiter_event_count,
                ),
                event_fails: spec_inc(old(self).metrics.event_fails),
                ..old(self).metrics
            })),
            old(self).tx_rate_limiter.timer_armed ==> ({
                let d = tx_drain_rec(
                    old(self).mem@,
                    old(self).tx_queue.avail@,
                    crate::rate_limiter::rl_refilled(old(self).tx_rate_limiter),
                );
                &&& final(self).tx_queue.used@ == old(self).tx_queue.used@ + d.used
                &&& final(self).tx_queue.avail@ == old(self).tx_queue.avail@.skip(d.consumed)
                &&& final(self).tx_queue.size == old(self).tx_queue.size
                &&& final(self).tx_rate_limiter == d.rl
                &&& seq_views(final(self).transport.sent@) == seq_views(old(self).transport.sent@)
                    + d.forwarded
                &&& seq_sizes(final(self).transport.batch_sizes@) == seq_sizes(
                    old(self).transport.batch_sizes@,
                ) + batch_split(d.forwarded.len() as int, TX_BATCH_SIZE as int)
                &&& final(self).transport.incoming@ == old(self).transport.incoming@
                &&& final(self).irq_count == (if d.consumed > 0 {
                    spec_inc(old(self).irq_count)
                } else {
                    old(self).irq_count
                })
                &&& ({
                    let m1 = (NetMetrics {
                        tx_rate_limiter_event_count: spec_inc(old(self).metrics.tx_rate_limiter_event_count),
                        ..old(self).metrics
                    });
                    final(self).metrics == (NetMetrics {
                        tx_malformed_frames: sat_addi(m1.tx_malformed_frames, d.malformed),
                        tx_partial_reads: sat_addi(m1.tx_partial_reads, d.partial),
                        tx_fails: sat_addi(m1.tx_fails, d.fails),
                        tx_packets_count: sat_addi(m1.tx_packets_count, d.forwarded.len() as int),
                        tx_count: sat_addi(m1.tx_count, d.forwarded.len() as int),
                        tx_bytes_count: sat_addi(m1.tx_bytes_count, d.fwd_bytes),
                        tx_rate_limiter_throttled: if d.throttled {
                            spec_inc(m1.tx_rate_limiter_throttled)
                        } else {
                            m1.tx_rate_limiter_throttled
                        },
                        no_tx_avail_buffer: if d.consumed > 0 {
                            m1.no_tx_avail_buffer
                        } else {
                            spec_inc(m1.no_tx_avail_buffer)
                        },
                        ..m1
                    })
                })
            }),
    {
        self.metrics.tx_rate_limiter_event_count = sat_inc(
            self.metrics.tx_rate_limiter_event_count,
        );
        match self.tx_rate_limiter.event_handler() {
            Ok(u) => {
                self.process_tx();
            },
            Err(e) => {
                self.metrics.event_fails = sat_inc(self.metrics.event_fails);
            },
        }
    }

    /// Processes both virtqueues once: the receive path first (resolving a
    /// deferral), then the transmit drain.
    pub fn process_virtio_queues(&mut self)
        requires
            old(self).inv(),
            old(self).spec_is_activated(),
            old(self).rx_state_ok(),
            !old(self).rx_deferred_irqs,
        ensures
            final(self).inv(),
            final(self).spec_is_activated(),
            final(self).rx_state_ok(),
            !final(self).rx_deferred_irqs,
            final(self).rx_queue.used@.len() >= old(self).rx_queue.used@.len(),
            final(self).rx_queue.used@.take(old(self).rx_queue.used@.len() as int) == old(self).rx_queue.used@,
            delivered_count(
                final(self).rx_queue.used@.skip(old(self).rx_queue.used@.len() as int),
            ) + final(self).rx_frames_outstanding() == old(self).rx_frames_outstanding(),
            final(self).tx_queue.used@.len() >= old(self).tx_queue.used@.len(),
            (Net::deferred_resume_ready(*old(self)) && old(self).tx_queue.avail@.len() == 0)
                ==> Net::deferred_resume_done(*old(self), *final(self)),
            !old(self).rx_deferred_frame ==> ({
                let d = tx_drain_rec(old(self).mem@, old(self).tx_queue.avail@, old(
                    self,
                ).tx_rate_limiter);
                &&& final(self).tx_queue.used@ == old(self).tx_queue.used@ + d.used
                &&& final(self).tx_queue.avail@ == old(self).tx_queue.avail@.skip(d.consumed)
                &&& final(self).tx_rate_limiter == d.rl
                &&& seq_views(final(self).transport.sent@) == seq_views(old(self).transport.sent@)
                    + d.forwarded
                &&& seq_sizes(final(self).transport.batch_sizes@) == seq_sizes(
                    old(self).transport.batch_sizes@,
                ) + batch_split(d.forwarded.len() as int, TX_BATCH_SIZE as int)
                &&& final(self).irq_count == (if d.consumed > 0 {
                    spec_inc(old(self).irq_count)
                } else {
                    old(self).irq_count
                })
            }),
    {
        let ghost l0: int = old(self).rx_queue.used@.len() as int;
        self.resume_rx();
        let ghost mid: Net = *self;
        self.process_tx();
        proof {
            let d = tx_drain_rec(mid.mem@, mid.tx_queue.avail@, mid.tx_rate_limiter);
            assert(mid.tx_queue.used@ + d.used =~= mid.tx_queue.used@ + d.used);
            if old(self).tx_queue.avail@.len() == 0 {
                assert(d.used =~= Seq::<UsedElem>::empty());
                assert(self.tx_queue.used@ =~= mid.tx_queue.used@);
            }
        }
    }
}

} // verus!
