use virtio_net::frame::{
    frame_bytes_from_buf, frame_bytes_from_buf_mut, init_vnet_hdr, vnet_hdr_len,
};
use virtio_net::MAX_BUFFER_SIZE;

#[test]
fn it_works() {
    assert_eq!(2 + 2, 4);
}

#[test]
fn test_vnet_helpers() {
    let mut frame_buf = vec![42u8; vnet_hdr_len() - 1];
    assert_eq!(
        format!("{:?}", frame_bytes_from_buf(&frame_buf)),
        "Err(VnetHeaderMissing)"
    );
    assert_eq!(
        format!("{:?}", frame_bytes_from_buf_mut(&mut frame_buf)),
        "Err(VnetHeaderMissing)"
    );

    let mut frame_buf = vec![42u8; MAX_BUFFER_SIZE];

    let vnet_hdr_len_ = 12;
    assert_eq!(vnet_hdr_len_, vnet_hdr_len());

    init_vnet_hdr(&mut frame_buf);
    let zero_vnet_hdr = vec![0u8; vnet_hdr_len_];
    assert_eq!(&zero_vnet_hdr[..], &frame_buf[..vnet_hdr_len_]);

    let payload = vec![42u8; MAX_BUFFER_SIZE - vnet_hdr_len_];
    assert_eq!(&payload[..], frame_bytes_from_buf(&frame_buf).unwrap());

    {
        let payload = frame_bytes_from_buf_mut(&mut frame_buf).unwrap();
        payload[0] = 15;
    }
    assert_eq!(frame_buf[vnet_hdr_len_], 15);
}

#[test]
fn test_prepend_zero_hdr() {
    let payload = vec![9u8, 8u8, 7u8];
    let framed = virtio_net::frame::prepend_zero_hdr(&payload);
    assert_eq!(framed.len(), 15);
    assert_eq!(&framed[..12], &[0u8; 12]);
    assert_eq!(&framed[12..], &payload[..]);
    let back = virtio_net::frame::payload_of(&framed);
    assert_eq!(back, payload);
}
