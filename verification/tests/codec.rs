use bytes::{Bytes, BytesMut};
use xyzen_relay::codec::{CodecError, RustDeskCodec, MAX_PACKET};

#[test]
fn roundtrip_short() {
    let mut codec = RustDeskCodec::new();
    let mut buf = BytesMut::new();
    codec.encode(Bytes::from_static(b"hello"), &mut buf).unwrap();
    let frame = codec.decode(&mut buf).unwrap().unwrap();
    assert_eq!(&frame[..], b"hello");
}

#[test]
fn roundtrip_two_byte_header() {
    let payload = vec![0xab; 200]; // forces 2-byte header
    let mut codec = RustDeskCodec::new();
    let mut buf = BytesMut::new();
    codec.encode(Bytes::from(payload.clone()), &mut buf).unwrap();
    let frame = codec.decode(&mut buf).unwrap().unwrap();
    assert_eq!(&frame[..], &payload[..]);
}

#[test]
fn roundtrip_three_byte_header() {
    let payload = vec![0xcd; 70_000]; // forces 3-byte header
    let mut codec = RustDeskCodec::new();
    let mut buf = BytesMut::new();
    codec.encode(Bytes::from(payload.clone()), &mut buf).unwrap();
    let frame = codec.decode(&mut buf).unwrap().unwrap();
    assert_eq!(frame.len(), payload.len());
}

#[test]
fn header_bytes_are_exact() {
    let mut codec = RustDeskCodec::new();
    let cases: Vec<(usize, Vec<u8>)> = vec![
        (0, vec![0x00]),
        (5, vec![0x14]),
        (63, vec![0xfc]),
        (64, vec![0x01, 0x01]),
        (200, vec![0x21, 0x03]),
        (16383, vec![0xfd, 0xff]),
        (16384, vec![0x02, 0x00, 0x01]),
        (70_000, vec![0xc2, 0x45, 0x04]),
        (4_194_303, vec![0xfe, 0xff, 0xff]),
        (4_194_304, vec![0x03, 0x00, 0x00, 0x01]),
    ];
    for (n, header) in cases {
        let mut buf = BytesMut::new();
        codec.encode(Bytes::from(vec![7u8; n]), &mut buf).unwrap();
        assert_eq!(buf.len(), header.len() + n);
        assert_eq!(&buf[..header.len()], &header[..]);
        assert_eq!(codec.decode(&mut buf).unwrap().unwrap().len(), n);
        assert!(buf.is_empty());
    }
}

#[test]
fn encode_appends_and_frames_come_out_in_order() {
    let mut codec = RustDeskCodec::new();
    let mut buf = BytesMut::new();
    codec.encode(Bytes::from_static(b"one"), &mut buf).unwrap();
    codec.encode(Bytes::from_static(b""), &mut buf).unwrap();
    codec.encode(Bytes::from_static(b"three"), &mut buf).unwrap();
    assert_eq!(&buf[..], &[12, b'o', b'n', b'e', 0, 20, b't', b'h', b'r', b'e', b'e'][..]);
    assert_eq!(&codec.decode(&mut buf).unwrap().unwrap()[..], b"one");
    assert_eq!(&codec.decode(&mut buf).unwrap().unwrap()[..], b"");
    assert_eq!(&codec.decode(&mut buf).unwrap().unwrap()[..], b"three");
    assert!(codec.decode(&mut buf).unwrap().is_none());
}

#[test]
fn bytes_may_arrive_one_by_one() {
    let payload: Vec<u8> = (0..100u8).collect();
    let mut encoder = RustDeskCodec::new();
    let mut wire = BytesMut::new();
    encoder.encode(Bytes::from(payload.clone()), &mut wire).unwrap();

    let mut codec = RustDeskCodec::new();
    let mut buf = BytesMut::new();
    let mut got = None;
    for (i, byte) in wire.iter().enumerate() {
        assert!(got.is_none());
        buf.extend_from_slice(&[*byte]);
        got = codec.decode(&mut buf).unwrap();
        assert_eq!(got.is_some(), i + 1 == wire.len());
    }
    assert_eq!(&got.unwrap()[..], &payload[..]);
}

#[test]
fn later_bytes_stay_in_the_buffer() {
    let mut codec = RustDeskCodec::default();
    let mut buf = BytesMut::from(&[8u8, 1, 2, 0xff, 0xff][..]);
    assert_eq!(&codec.decode(&mut buf).unwrap().unwrap()[..], &[1, 2][..]);
    assert_eq!(&buf[..], &[0xff, 0xff][..]);
}

#[test]
fn longer_header_than_needed_is_understood() {
    let mut codec = RustDeskCodec::new();
    let mut buf = BytesMut::from(&[0x0b, 0, 0, 0, b'a', b'b', b'c'][..]);
    let frame = codec.decode(&mut buf).unwrap().unwrap();
    assert_eq!(&frame[..], b"ab");
    assert_eq!(&buf[..], b"c");
}

#[test]
fn oversized_header_is_refused_and_stays() {
    let mut codec = RustDeskCodec::new();
    let mut buf = BytesMut::from(&[0xff, 0xff, 0xff, 0xff][..]);
    assert_eq!(codec.decode(&mut buf).unwrap_err(), CodecError::FrameTooLong);
    assert_eq!(buf.len(), 4);
    assert_eq!(codec.decode(&mut buf).unwrap_err(), CodecError::FrameTooLong);
}

#[test]
fn oversized_payload_is_refused() {
    assert_eq!(MAX_PACKET, 64 * 1024 * 1024);
    let mut codec = RustDeskCodec::new();
    let mut buf = BytesMut::from(&b"kept"[..]);
    let item = Bytes::from(vec![0u8; MAX_PACKET + 1]);
    assert_eq!(codec.encode(item, &mut buf).unwrap_err(), CodecError::FrameTooLong);
    assert_eq!(&buf[..], b"kept");
    codec.encode(Bytes::from(vec![0u8; MAX_PACKET]), &mut buf).unwrap();
    assert_eq!(&buf[4..8], &[0x03, 0x00, 0x00, 0x10][..]);
    assert_eq!(buf.len(), 4 + 4 + MAX_PACKET);
}

#[test]
fn raw_mode_passes_bytes_through() {
    let mut codec = RustDeskCodec::new();
    codec.set_raw();
    let mut buf = BytesMut::new();
    assert!(codec.decode(&mut buf).unwrap().is_none());
    codec.encode(Bytes::from_static(b"\xff\xff\xff\xff raw"), &mut buf).unwrap();
    assert_eq!(&buf[..], b"\xff\xff\xff\xff raw");
    let all = codec.decode(&mut buf).unwrap().unwrap();
    assert_eq!(&all[..], b"\xff\xff\xff\xff raw");
    assert!(buf.is_empty());
}

#[test]
fn try_encode_does_what_encode_does() {
    let mut codec = RustDeskCodec::new();
    let mut buf = BytesMut::from(&b"x"[..]);
    assert_eq!(codec.try_encode(Bytes::from_static(b"hello"), &mut buf), Some(Ok(())));
    assert_eq!(&buf[..], b"x\x14hello");
    let long = Bytes::from(vec![0u8; MAX_PACKET + 1]);
    assert_eq!(codec.try_encode(long, &mut buf), Some(Err(CodecError::FrameTooLong)));
    assert_eq!(buf.len(), 7);
    codec.set_raw();
    assert_eq!(codec.try_encode(Bytes::from_static(b"raw"), &mut buf), Some(Ok(())));
    assert_eq!(&buf[..], b"x\x14helloraw");
}

#[test]
fn encoding_does_not_disturb_decoding() {
    let mut codec = RustDeskCodec::new();
    let mut incoming = BytesMut::from(&[0x14, b'h', b'e'][..]);
    assert!(codec.decode(&mut incoming).unwrap().is_none());
    let mut outgoing = BytesMut::new();
    codec.encode(Bytes::from_static(b"reply"), &mut outgoing).unwrap();
    let long = Bytes::from(vec![0u8; MAX_PACKET + 1]);
    assert!(codec.encode(long, &mut outgoing).is_err());
    incoming.extend_from_slice(b"llo");
    assert_eq!(&codec.decode(&mut incoming).unwrap().unwrap()[..], b"hello");
}

#[test]
fn stream_comes_out_whole_however_it_is_cut() {
    let payloads: Vec<Vec<u8>> = vec![vec![], vec![1; 63], vec![2; 64], vec![], vec![3; 20_000]];
    let mut encoder = RustDeskCodec::new();
    let mut wire = BytesMut::new();
    for p in &payloads {
        encoder.encode(Bytes::from(p.clone()), &mut wire).unwrap();
    }
    for size in [1, 2, 3, 65, 1000, 100_000] {
        let mut codec = RustDeskCodec::new();
        let mut buf = BytesMut::new();
        let mut found: Vec<Vec<u8>> = Vec::new();
        for piece in wire.chunks(size) {
            buf.extend_from_slice(piece);
            while let Some(frame) = codec.decode(&mut buf).unwrap() {
                found.push(frame.to_vec());
            }
        }
        assert_eq!(found, payloads);
        assert!(buf.is_empty());
    }
}
