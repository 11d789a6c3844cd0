//! Frame codec: the fixed-size virtio-net header that precedes every frame
//! crossing the device boundary.

use vstd::prelude::*;

verus! {

/// Size in bytes of the virtio-net header (`virtio_net_hdr_v1`): flags,
/// gso type, header length, gso size, checksum start and offset, and the
/// buffer count, 12 bytes in all.
pub const VNET_HDR_LEN: usize = 12;

/// Error of the frame codec: the buffer is too short to hold the header.
#[derive(Clone, Copy, Debug, PartialEq, Eq, Structural)]
pub enum NetError {
    VnetHeaderMissing,
}

/// The all-zero header sequence that is prepended to every frame delivered
/// toward the guest; no offload flags are ever computed by this engine.
pub open spec fn zero_hdr() -> Seq<u8> {
    Seq::new(VNET_HDR_LEN as nat, |i: int| 0u8)
}

/// A payload as it crosses the device boundary: the zeroed header followed by
/// the payload bytes.
pub open spec fn framed(payload: Seq<u8>) -> Seq<u8> {
    zero_hdr() + payload
}

/// Size of the header, as the platform ABI fixes it.
pub fn vnet_hdr_len() -> (r: usize)
    ensures
        r == VNET_HDR_LEN,
{
    VNET_HDR_LEN
}

/// The L2 frame bytes of `buf`, without the leading virtio-net header.
pub fn frame_bytes_from_buf(buf: &[u8]) -> (r: Result<&[u8], NetError>)
    ensures
        buf@.len() < VNET_HDR_LEN ==> r == Err::<&[u8], NetError>(NetError::VnetHeaderMissing),
        buf@.len() >= VNET_HDR_LEN ==> (r matches Ok(p) && p@ == buf@.subrange(
            VNET_HDR_LEN as int,
            buf@.len() as int,
        )),
{
    if buf.len() < VNET_HDR_LEN {
        Err(NetError::VnetHeaderMissing)
    } else {
        Ok(&buf[VNET_HDR_LEN..buf.len()])
    }
}

/// The L2 frame bytes of `buf`, without the leading virtio-net header,
/// writable in place.
pub fn frame_bytes_from_buf_mut(buf: &mut [u8]) -> (r: Result<&mut [u8], NetError>)
    ensures
        old(buf)@.len() < VNET_HDR_LEN ==> (r matches Err(e) && e == NetError::VnetHeaderMissing
            && final(buf)@ == old(buf)@),
        old(buf)@.len() >= VNET_HDR_LEN ==> (r matches Ok(p) && p@ == old(buf)@.subrange(
            VNET_HDR_LEN as int,
            old(buf)@.len() as int,
        ) && final(buf)@ == old(buf)@.subrange(0, VNET_HDR_LEN as int) + final(p)@),
{
    if buf.len() < VNET_HDR_LEN {
        Err(NetError::VnetHeaderMissing)
    } else {
        let pair = buf.split_at_mut(VNET_HDR_LEN);
        Ok(pair.1)
    }
}

/// A delivery buffer for `payload`: the zero header followed by the payload
/// bytes, as `framed` describes.
pub fn prepend_zero_hdr(payload: &Vec<u8>) -> (r: Vec<u8>)
    requires
        payload@.len() + VNET_HDR_LEN <= usize::MAX,
    ensures
        r@ == framed(payload@),
        r@.len() == payload@.len() + VNET_HDR_LEN,
{
    let mut frame: Vec<u8> = Vec::new();
    let mut i: usize = 0;
    while i < VNET_HDR_LEN
        invariant
            i <= VNET_HDR_LEN,
            frame@ == Seq::new(i as nat, |j: int| 0u8),
        decreases VNET_HDR_LEN - i,
    {
        frame.push(0u8);
        assert(frame@ =~= Seq::new((i + 1) as nat, |j: int| 0u8));
        i = i + 1;
    }
    let plen: usize = payload.len();
    i = 0;
    while i < plen
        invariant
            i <= plen,
            plen == payload@.len(),
            plen + VNET_HDR_LEN <= usize::MAX,
            frame@ == zero_hdr() + payload@.take(i as int),
        decreases plen - i,
    {
        frame.push(payload[i]);
        assert(frame@ =~= zero_hdr() + payload@.take(i + 1));
        i = i + 1;
    }
    proof {
        assert(payload@.take(plen as int) =~= payload@);
    }
    frame
}

/// The payload of a buffer read from a chain: everything after the
/// virtio-net header, as an owned copy.
pub fn payload_of(data: &Vec<u8>) -> (r: Vec<u8>)
    requires
        data@.len() >= VNET_HDR_LEN,
    ensures
        r@ == data@.skip(VNET_HDR_LEN as int),
{
    let mut out: Vec<u8> = Vec::new();
    let mut i: usize = VNET_HDR_LEN;
    let n: usize = data.len();
    while i < n
        invariant
            VNET_HDR_LEN <= i <= n,
            n == data@.len(),
            out@ == data@.subrange(VNET_HDR_LEN as int, i as int),
        decreases n - i,
    {
        out.push(data[i]);
        assert(out@ =~= data@.subrange(VNET_HDR_LEN as int, i + 1));
        i = i + 1;
    }
    proof {
        assert(out@ =~= data@.skip(VNET_HDR_LEN as int));
    }
    out
}

/// Writes the zero header over the first `VNET_HDR_LEN` bytes of `buf`,
/// leaving the rest of the buffer as it was.
pub fn init_vnet_hdr(buf: &mut [u8])
    requires
        old(buf)@.len() >= VNET_HDR_LEN,
    ensures
        final(buf)@ == zero_hdr() + old(buf)@.subrange(VNET_HDR_LEN as int, old(buf)@.len() as int),
{
    let mut i: usize = 0;
    while i < VNET_HDR_LEN
        invariant
            i <= VNET_HDR_LEN,
            buf@.len() == old(buf)@.len() >= VNET_HDR_LEN,
            forall|j: int| 0 <= j < i ==> buf@[j] == 0u8,
            forall|j: int| i <= j < buf@.len() ==> buf@[j] == old(buf)@[j],
        decreases VNET_HDR_LEN - i,
    {
        buf[i] = 0u8;
        i = i + 1;
    }
    assert(buf@ =~= zero_hdr() + old(buf)@.subrange(VNET_HDR_LEN as int, old(buf)@.len() as int));
}

} // verus!
