use bytes::{Bytes, BytesMut};
use ombrac_mux::basic::{Frame, FrameType};
use ombrac_mux::error::Error;

#[test]
fn frame_test_frame_encode_decode() {
    let test_frame = Frame {
        stream_id: 1,
        frame_type: FrameType::Data,
        flags: 0,
        payload: Bytes::from("Hello, World!"),
    };

    let encoded = test_frame.encode();

    let mut buf = BytesMut::from(&encoded[..]);
    let decoded = Frame::decode(&mut buf).unwrap().unwrap();

    assert_eq!(decoded.stream_id, test_frame.stream_id);
    assert_eq!(decoded.frame_type, test_frame.frame_type);
    assert_eq!(decoded.flags, test_frame.flags);
    assert_eq!(decoded.payload, test_frame.payload);
}

#[test]
fn test_partial_frame() {
    let test_frame = Frame {
        stream_id: 1,
        frame_type: FrameType::Data,
        flags: 0,
        payload: Bytes::from("Hello, World!"),
    };

    let encoded = test_frame.encode();

    let mut buf = BytesMut::from(&encoded[..5]);

    assert!(Frame::decode(&mut buf).unwrap().is_none());
}

#[test]
fn test_multiple_frames() {
    let frame1 = Frame {
        stream_id: 1,
        frame_type: FrameType::Data,
        flags: 0,
        payload: Bytes::from("First frame"),
    };

    let frame2 = Frame {
        stream_id: 2,
        frame_type: FrameType::Ping,
        flags: 1,
        payload: Bytes::from("Second frame"),
    };

    let mut combined = BytesMut::new();
    combined.extend_from_slice(&frame1.encode());
    combined.extend_from_slice(&frame2.encode());

    let decoded1 = Frame::decode(&mut combined).unwrap().unwrap();
    assert_eq!(decoded1.stream_id, frame1.stream_id);
    assert_eq!(decoded1.frame_type, frame1.frame_type);
    assert_eq!(decoded1.payload, frame1.payload);

    let decoded2 = Frame::decode(&mut combined).unwrap().unwrap();
    assert_eq!(decoded2.stream_id, frame2.stream_id);
    assert_eq!(decoded2.frame_type, frame2.frame_type);
    assert_eq!(decoded2.payload, frame2.payload);

    assert!(Frame::decode(&mut combined).unwrap().is_none());
}

#[test]
fn test_invalid_frame_type() {
    let mut buf = BytesMut::with_capacity(Frame::HEADER_LENGTH + 5);
    buf.extend_from_slice(&[0, 0, 5]);
    buf.extend_from_slice(&[255]);
    buf.extend_from_slice(&[0]);
    buf.extend_from_slice(&[0, 0, 0, 1]);
    buf.extend_from_slice(b"hello");

    assert!(Frame::decode(&mut buf).is_err());
}

#[test]
fn basic_type_bytes_go_both_ways() {
    let types = [FrameType::Data, FrameType::Ping, FrameType::Headers, FrameType::GoAway];
    for (code, frame_type) in types.iter().enumerate() {
        assert_eq!(u8::from(*frame_type), code as u8);
        assert_eq!(FrameType::try_from(code as u8), Ok(*frame_type));
    }
    for code in 4..=255u8 {
        assert_eq!(FrameType::try_from(code), Err(Error::UnknownFrameType(code)));
    }
}

#[test]
fn basic_bytes_are_exact() {
    let frame = Frame {
        stream_id: 0x0a0b_0c0d,
        frame_type: FrameType::Headers,
        flags: 0x80,
        payload: Bytes::from("xyz"),
    };
    assert_eq!(&frame.encode()[..], &[0, 0, 3, 2, 0x80, 0x0a, 0x0b, 0x0c, 0x0d, b'x', b'y', b'z']);
}

#[test]
fn basic_refusal_keeps_the_buffer() {
    let bytes = [0, 0, 0, 4, 0, 0, 0, 0, 0, 1];
    let mut buf = BytesMut::from(&bytes[..]);
    assert_eq!(Frame::decode(&mut buf).unwrap_err(), Error::UnknownFrameType(4));
    assert_eq!(&buf[..], &bytes[..]);
}
