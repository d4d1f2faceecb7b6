use bytes::BytesMut;
use talos::error::Error;
use talos::protocol::codec::{length_prefixed, BincodeCodec, DEFAULT_MAX_FRAME_SIZE};

#[test]
fn frames_round_trip_in_order() {
    let mut codec: BincodeCodec<u8> = BincodeCodec::new();
    let mut buf = BytesMut::new();
    codec.encode_frame(b"hello", &mut buf).unwrap();
    codec.encode_frame(b"", &mut buf).unwrap();
    codec.encode_frame(&[7u8; 300], &mut buf).unwrap();
    assert_eq!(&buf[..4], &[0, 0, 0, 5]);
    assert_eq!(&codec.decode_frame(&mut buf).unwrap().unwrap()[..], b"hello");
    assert_eq!(codec.decode_frame(&mut buf).unwrap().unwrap().len(), 0);
    assert_eq!(&codec.decode_frame(&mut buf).unwrap().unwrap()[..], &[7u8; 300][..]);
    assert!(codec.decode_frame(&mut buf).unwrap().is_none());
    assert!(buf.is_empty());
}

#[test]
fn partial_frames_wait() {
    let mut codec: BincodeCodec<u8> = BincodeCodec::new();
    let mut full = BytesMut::new();
    codec.encode_frame(b"abcdef", &mut full).unwrap();
    for k in 0..full.len() {
        let mut part = BytesMut::from(&full[..k]);
        assert!(codec.decode_frame(&mut part).unwrap().is_none());
        assert_eq!(part.len(), k);
    }
}

#[test]
fn oversized_frames_are_refused() {
    let mut codec: BincodeCodec<u8> = BincodeCodec::with_max_frame_size(4);
    assert_eq!(codec.max_frame_size(), 4);
    let mut buf = BytesMut::new();
    assert_eq!(
        codec.encode_frame(b"12345", &mut buf),
        Err(Error::FrameTooLarge { size: 5, max: 4 })
    );
    assert!(buf.is_empty());
    let mut incoming = BytesMut::from(&[0u8, 0, 0, 9, 1, 2][..]);
    assert_eq!(
        codec.decode_frame(&mut incoming),
        Err(Error::FrameTooLarge { size: 9, max: 4 })
    );
    assert_eq!(incoming.len(), 6);
}

#[test]
fn unbounded_limit_reads_every_frame() {
    let mut codec: BincodeCodec<u8> = BincodeCodec::with_max_frame_size(usize::MAX);
    assert_eq!(codec.max_frame_size(), usize::MAX);
    let mut buf = BytesMut::new();
    codec.encode_frame(&[1u8; 70000], &mut buf).unwrap();
    let mut partial = BytesMut::from(&[0u8, 1, 0, 0, 1][..]);
    assert!(codec.decode_frame(&mut partial).unwrap().is_none());
    assert_eq!(codec.decode_frame(&mut buf).unwrap().unwrap().len(), 70000);
    assert!(buf.is_empty());
}

#[test]
fn frames_at_the_limit_are_read() {
    let mut codec: BincodeCodec<u8> = BincodeCodec::with_max_frame_size(8);
    let mut incoming = BytesMut::from(&[0u8, 0, 0, 8, 1, 2, 3, 4, 5, 6, 7, 8][..]);
    assert_eq!(codec.decode_frame(&mut incoming).unwrap().unwrap().len(), 8);
    let mut over = BytesMut::from(&[0u8, 0, 0, 9][..]);
    assert_eq!(codec.decode_frame(&mut over), Err(Error::FrameTooLarge { size: 9, max: 8 }));
}

#[test]
fn default_codec_limit() {
    let codec: BincodeCodec<u8> = BincodeCodec::default();
    assert_eq!(codec.max_frame_size(), DEFAULT_MAX_FRAME_SIZE);
    assert_eq!(DEFAULT_MAX_FRAME_SIZE, 16 * 1024 * 1024);
}

#[test]
fn stream_frames_carry_big_endian_lengths() {
    let frame = length_prefixed(&[9u8; 258]).unwrap();
    assert_eq!(&frame[..4], &[0, 0, 1, 2]);
    assert_eq!(frame.len(), 262);
    assert_eq!(&length_prefixed(&[]).unwrap()[..], &[0, 0, 0, 0]);
}
