use bytes::{Bytes, BytesMut};
use ombrac_mux::error::{Error, ErrorKind};
use ombrac_mux::frame::{Frame, FrameType, FLAG_ACK, FLAG_END_STREAM};

#[test]
fn mod_test_frame_encode_decode() {
    let test_frame = Frame::with_data_payload(1, Bytes::from("Hello, World!"));
    let encoded = test_frame.encode();
    let mut buf = BytesMut::from(&encoded[..]);
    let decoded = Frame::decode(&mut buf).unwrap().unwrap();

    assert_eq!(decoded.stream_id, test_frame.stream_id);
    assert_eq!(decoded.frame_type, test_frame.frame_type);
    assert_eq!(decoded.flags, test_frame.flags);
    assert_eq!(decoded.payload, test_frame.payload);
}

#[test]
fn test_window_update() {
    let frame = Frame::window_update(1, 1024);
    assert_eq!(frame.window_update_increment().unwrap(), 1024);
}

#[test]
fn test_ping_ack() {
    let ping = Frame::ping([1; 8]);
    assert!(!ping.is_ack());

    let pong = Frame::ping_ack([1; 8]);
    assert!(pong.is_ack());
}

#[test]
fn test_flags() {
    let mut frame = Frame::with_data_payload(1, Bytes::from("test"));
    assert!(!frame.is_end_stream());

    frame.flags |= FLAG_END_STREAM;
    assert!(frame.is_end_stream());
}

#[test]
fn the_bytes_of_each_frame() {
    assert_eq!(
        &Frame::with_data_payload(0x0102_0304, Bytes::from("ab")).encode()[..],
        &[0, 0, 2, 0, 0, 1, 2, 3, 4, b'a', b'b']
    );
    assert_eq!(
        &Frame::window_update(7, 0x0a0b_0c0d).encode()[..],
        &[0, 0, 4, 3, 0, 0, 0, 0, 7, 0x0a, 0x0b, 0x0c, 0x0d]
    );
    assert_eq!(
        &Frame::ping([1, 2, 3, 4, 5, 6, 7, 8]).encode()[..],
        &[0, 0, 8, 1, 0, 0, 0, 0, 0, 1, 2, 3, 4, 5, 6, 7, 8]
    );
    assert_eq!(
        &Frame::ping_ack([1, 2, 3, 4, 5, 6, 7, 8]).encode()[..],
        &[0, 0, 8, 1, 2, 0, 0, 0, 0, 1, 2, 3, 4, 5, 6, 7, 8]
    );
    assert_eq!(
        &Frame::go_away(1, 2).encode()[..],
        &[0, 0, 8, 2, 0, 0, 0, 0, 0, 0, 0, 0, 1, 0, 0, 0, 2]
    );
    assert_eq!(
        &Frame::rst_stream(3, 4).encode()[..],
        &[0, 0, 4, 5, 0, 0, 0, 0, 3, 0, 0, 0, 4]
    );
    assert_eq!(
        &Frame::new(FrameType::Settings, 9, 0, Bytes::new()).encode()[..],
        &[0, 0, 0, 4, 9, 0, 0, 0, 0]
    );
}

#[test]
fn lengths_use_all_three_bytes() {
    let payload = vec![7u8; 0x01_02_03];
    let encoded = Frame::with_data_payload(1, Bytes::from(payload)).encode();
    assert_eq!(&encoded[..3], &[1, 2, 3]);
    assert_eq!(encoded.len(), 9 + 0x01_02_03);
}

#[test]
fn a_length_past_24_bits_is_cut() {
    let payload = vec![7u8; 0x100_0001];
    let encoded = Frame::with_data_payload(1, Bytes::from(payload)).encode();
    assert_eq!(&encoded[..3], &[0, 0, 1]);
    assert_eq!(encoded.len(), 9 + 0x100_0001);
}

#[test]
fn every_prefix_waits() {
    let encoded = Frame::with_data_payload(5, Bytes::from("payload")).encode();
    for k in 0..encoded.len() {
        let mut buf = BytesMut::from(&encoded[..k]);
        assert!(Frame::decode(&mut buf).unwrap().is_none());
        assert_eq!(&buf[..], &encoded[..k]);
    }
}

#[test]
fn pieces_give_the_same_frames() {
    let mut bytes = Vec::new();
    for i in 0..4u32 {
        bytes.extend_from_slice(&Frame::with_data_payload(i, Bytes::from(vec![i as u8; 3])).encode());
    }
    for cut in 0..bytes.len() {
        let mut buf = BytesMut::from(&bytes[..cut]);
        let mut ids = Vec::new();
        while let Some(frame) = Frame::decode(&mut buf).unwrap() {
            ids.push(frame.stream_id);
        }
        buf.extend_from_slice(&bytes[cut..]);
        while let Some(frame) = Frame::decode(&mut buf).unwrap() {
            ids.push(frame.stream_id);
        }
        assert_eq!(ids, vec![0, 1, 2, 3]);
        assert!(buf.is_empty());
    }
}

#[test]
fn an_unknown_type_stays_in_the_buffer() {
    let bytes = [0, 0, 1, 6, 0, 0, 0, 0, 1, 42, 99];
    let mut buf = BytesMut::from(&bytes[..]);
    let error = Frame::decode(&mut buf).unwrap_err();
    assert_eq!(error, Error::UnknownFrameType(6));
    assert_eq!(error.kind(), ErrorKind::InvalidData);
    assert_eq!(error.message(), "unknown frame type: 6");
    assert_eq!(&buf[..], &bytes[..]);
}

#[test]
fn type_bytes_go_both_ways() {
    for code in 0..=5u8 {
        assert_eq!(u8::from(FrameType::try_from(code).unwrap()), code);
    }
    for code in 6..=255u8 {
        assert_eq!(FrameType::try_from(code), Err(Error::UnknownFrameType(code)));
    }
}

#[test]
fn increments_are_checked() {
    let data = Frame::with_data_payload(1, Bytes::from("abcd"));
    assert_eq!(data.window_update_increment(), Err(Error::NotWindowUpdate));
    let short = Frame::new(FrameType::WindowUpdate, 0, 1, Bytes::from("abc"));
    assert_eq!(short.window_update_increment(), Err(Error::WindowUpdateLength));
    assert_eq!(Frame::window_update(1, 0).window_update_increment(), Err(Error::WindowUpdateZero));
    assert_eq!(Frame::window_update(1, u32::MAX).window_update_increment(), Ok(u32::MAX));
}

#[test]
fn control_frames_are_those_of_stream_zero() {
    assert!(Frame::go_away(0, 0).is_connection_control());
    assert!(!Frame::rst_stream(1, 0).is_connection_control());
}

#[test]
fn flags_do_not_mix() {
    let both = Frame::new(FrameType::Data, FLAG_ACK | FLAG_END_STREAM, 1, Bytes::new());
    assert!(both.is_ack() && both.is_end_stream());
    let other = Frame::new(FrameType::Data, 0xfc, 1, Bytes::new());
    assert!(!other.is_ack() && !other.is_end_stream());
}
