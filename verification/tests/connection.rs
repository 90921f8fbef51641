use std::time::{Duration, Instant};

use bytes::{Bytes, BytesMut};
use ombrac_mux::connection::{read_frame, Connection, PingAnswer, ReadStep, Step};
use ombrac_mux::error::{Error, ErrorKind};
use ombrac_mux::frame::{Frame, FrameType};

fn decode(bytes: &[u8]) -> Frame {
    let mut buf = BytesMut::from(bytes);
    Frame::decode(&mut buf).unwrap().unwrap()
}

#[test]
fn test_connection_creation() {
    let conn: Connection<()> = Connection::new();
    assert!(conn.pool().get(0).is_some());
}

#[test]
fn test_stream_creation() {
    let mut conn: Connection<()> = Connection::new();
    let stream = conn.open_stream().unwrap();
    assert!(!stream.is_closed(conn.pool()));
}

#[test]
fn test_ping_pong() {
    let mut client: Connection<Instant> = Connection::new();
    let mut server: Connection<Instant> = Connection::new();

    let ping = client.ping(Instant::now()).unwrap();
    Connection::<Instant>::ping_sent(true).unwrap();
    let pong = match server.handle_frame(decode(&ping)).unwrap() {
        Step::Pong(pong) => pong,
        _ => panic!("no pong"),
    };
    Connection::<Instant>::pong_sent(true).unwrap();
    let rtt = match client.handle_frame(decode(&pong)).unwrap() {
        Step::PingAnswered(start) => start.elapsed(),
        _ => panic!("no answer"),
    };
    let rtt = client.ping_ended(PingAnswer::Answered(rtt)).unwrap();
    assert!(rtt < Duration::from_secs(1));
}

#[test]
fn test_ping_timeout() {
    let mut conn: Connection<()> = Connection::new();
    conn.ping(()).unwrap();

    let result = conn.ping_ended::<Duration>(PingAnswer::TimedOut);
    assert!(result.is_err());
    assert_eq!(result.unwrap_err().kind(), ErrorKind::TimedOut);
}

#[test]
fn pings_come_one_at_a_time() {
    let mut conn: Connection<u32> = Connection::new();
    let bytes = conn.ping_with([1, 2, 3, 4, 5, 6, 7, 8], 10).unwrap();
    assert_eq!(&bytes[..], &[0, 0, 8, 1, 0, 0, 0, 0, 0, 1, 2, 3, 4, 5, 6, 7, 8]);
    assert_eq!(conn.ping(11).unwrap_err(), Error::PingInProgress);
    assert_eq!(Connection::<u32>::ping_sent(false), Err(Error::PingNotSent));
    assert_eq!(conn.ping(12).unwrap_err(), Error::PingInProgress);
    assert_eq!(conn.ping_ended::<u8>(PingAnswer::Abandoned), Err(Error::PingChannelClosed));
    assert_eq!(conn.ping(13).unwrap_err(), Error::PingInProgress);
    assert_eq!(conn.ping_ended::<u8>(PingAnswer::TimedOut), Err(Error::PingTimedOut));
    assert!(conn.ping(14).is_ok());
    let answer = conn.handle_frame(Frame::ping_ack([0; 8])).unwrap();
    assert!(matches!(answer, Step::PingAnswered(14)));
    let answer = conn.handle_frame(Frame::ping_ack([0; 8])).unwrap();
    assert!(matches!(answer, Step::Done));
    assert_eq!(conn.ping_ended(PingAnswer::Answered(5u8)), Ok(5));
}

#[test]
fn pings_carry_eight_bytes() {
    let mut conn: Connection<()> = Connection::new();
    let mut payloads = Vec::new();
    for _ in 0..8 {
        let frame = decode(&conn.ping(()).unwrap());
        assert_eq!(frame.frame_type, FrameType::Ping);
        assert!(!frame.is_ack());
        assert_eq!(frame.stream_id, 0);
        assert_eq!(frame.payload.len(), 8);
        payloads.push(frame.payload);
        assert!(conn.ping_ended::<()>(PingAnswer::TimedOut).is_err());
    }
    assert!(payloads.iter().any(|p| *p != payloads[0]));
}

#[test]
fn a_pong_repeats_the_first_eight_bytes() {
    let mut conn: Connection<()> = Connection::new();
    let ping = Frame::new(FrameType::Ping, 0, 0, Bytes::from("0123456789"));
    let pong = match conn.handle_frame(ping).unwrap() {
        Step::Pong(pong) => pong,
        _ => panic!("no pong"),
    };
    assert_eq!(&pong[..9], &[0, 0, 8, 1, 2, 0, 0, 0, 0]);
    assert_eq!(&pong[9..], b"01234567");
    assert_eq!(Connection::<()>::pong_sent(false), Err(Error::PongNotSent));
}

#[test]
fn without_a_control_stream() {
    let mut conn: Connection<()> = Connection::new();
    conn.pool_mut().remove_stream(0);
    assert!(conn.close().is_none());
    assert!(matches!(conn.handle_frame(Frame::ping([1; 8])).unwrap(), Step::Done));
    assert_eq!(conn.ping(()).unwrap_err(), Error::ControlStreamNotFound);
    assert_eq!(conn.ping(()).unwrap_err(), Error::PingInProgress);
}

#[test]
fn streams_are_opened_under_odd_ids() {
    let mut conn: Connection<()> = Connection::new();
    for id in [1, 3, 5] {
        let stream = conn.open_stream().unwrap();
        assert_eq!(stream.id(), id);
        assert_eq!(conn.pool().get(id), Some(stream.slot()));
    }
    assert_eq!(conn.next_stream_id(), Some(7));
}

#[test]
fn a_server_opens_streams_under_even_ids() {
    let mut conn: Connection<()> = Connection::server();
    assert!(conn.pool().get(0).is_some());
    for id in [2, 4, 6] {
        let stream = conn.open_stream().unwrap();
        assert_eq!(stream.id(), id);
        assert_eq!(conn.pool().get(id), Some(stream.slot()));
    }
    assert_eq!(conn.next_stream_id(), Some(8));
}

#[test]
fn client_and_server_share_no_id() {
    let mut client: Connection<()> = Connection::new();
    let mut server: Connection<()> = Connection::server();
    for k in 0..100 {
        assert_eq!(client.next_stream_id(), Some(1 + 2 * k));
        assert_eq!(server.next_stream_id(), Some(2 + 2 * k));
    }
}

#[test]
fn the_farewell() {
    let conn: Connection<()> = Connection::new();
    let bytes = conn.close().unwrap();
    assert_eq!(&bytes[..], &[0, 0, 8, 2, 0, 0, 0, 0, 0, 0, 0, 0, 0, 0, 0, 0, 0]);
    assert_eq!(Connection::<()>::close_sent(true), Ok(()));
    assert_eq!(Connection::<()>::close_sent(false), Err(Error::GoAwayNotSent));
    let mut peer: Connection<()> = Connection::new();
    assert!(matches!(peer.handle_frame(decode(&bytes)).unwrap(), Step::Done));
}

#[test]
fn frames_of_the_connection() {
    let mut conn: Connection<()> = Connection::new();
    let settings = Frame::new(FrameType::Settings, 0, 0, Bytes::new());
    assert!(matches!(conn.handle_connection_frame(settings).unwrap(), Step::Done));
    for frame_type in [FrameType::Data, FrameType::WindowUpdate, FrameType::RstStream] {
        let frame = Frame::new(frame_type, 0, 0, Bytes::new());
        let refused = conn.handle_frame(frame).err();
        assert_eq!(refused, Some(Error::UnexpectedConnectionFrameType));
    }
}

#[test]
fn frames_of_a_stream_that_is_not_there() {
    let mut conn: Connection<()> = Connection::new();
    let update = conn.handle_frame(Frame::window_update(9, 1)).err();
    assert_eq!(update, Some(Error::StreamNotFound));
    assert!(matches!(conn.handle_frame(Frame::rst_stream(9, 0)).unwrap(), Step::Done));
    for frame_type in [FrameType::Ping, FrameType::GoAway, FrameType::Settings] {
        let frame = Frame::new(frame_type, 0, 9, Bytes::new());
        assert_eq!(conn.handle_frame(frame).err(), Some(Error::UnexpectedFrameType));
    }
    assert!(conn.pool().get(9).is_none());
}

#[test]
fn data_for_a_new_stream_is_offered_then_delivered() {
    let mut conn: Connection<()> = Connection::new();
    let frame = Frame::with_data_payload(2, Bytes::from("hi"));
    let (stream, frame) = match conn.handle_frame(frame).unwrap() {
        Step::Accept { stream, frame } => (stream, frame),
        _ => panic!("no stream"),
    };
    assert_eq!(stream.id(), 2);
    let delivery = conn.accepted(frame, true).unwrap().unwrap();
    assert_eq!(delivery.slot, stream.slot());
    assert_eq!(&delivery.frame.payload[..], b"hi");
    let again = conn.handle_frame(Frame::with_data_payload(2, Bytes::from("again"))).unwrap();
    assert!(matches!(again, Step::Deliver(d) if d.slot == stream.slot()));
}

#[test]
fn a_stream_that_nobody_accepts() {
    let mut conn: Connection<()> = Connection::new();
    let frame = match conn.handle_frame(Frame::with_data_payload(2, Bytes::new())).unwrap() {
        Step::Accept { frame, .. } => frame,
        _ => panic!("no stream"),
    };
    assert_eq!(conn.accepted(frame, false).unwrap_err(), Error::AcceptFailed);
}

#[test]
fn a_reset_is_reported() {
    let mut conn: Connection<()> = Connection::new();
    let stream = conn.open_stream().unwrap();
    let reset = conn.handle_frame(Frame::rst_stream(stream.id(), 0)).err();
    assert_eq!(reset, Some(Error::StreamReset));
    assert!(stream.is_closed(conn.pool()));
}

#[test]
fn frames_are_read_off_the_input() {
    let encoded = Frame::window_update(1, 5).encode();
    let mut buf = BytesMut::new();
    assert!(matches!(read_frame(&mut buf, None), Ok(ReadStep::NeedMore)));
    buf.extend_from_slice(&encoded[..4]);
    assert!(matches!(read_frame(&mut buf, Some(4)), Ok(ReadStep::NeedMore)));
    assert_eq!(read_frame(&mut buf, Some(0)).unwrap_err(), Error::MidFrame);
    assert_eq!(buf.len(), 4);
    let mut whole = BytesMut::from(&encoded[..]);
    assert!(matches!(read_frame(&mut whole, Some(0)), Ok(ReadStep::Frame(_))));
    assert!(matches!(read_frame(&mut whole, Some(0)), Ok(ReadStep::EndOfInput)));
    buf.extend_from_slice(&encoded[4..]);
    match read_frame(&mut buf, Some(9)).unwrap() {
        ReadStep::Frame(frame) => assert_eq!(frame.window_update_increment(), Ok(5)),
        _ => panic!("no frame"),
    }
    assert!(matches!(read_frame(&mut buf, Some(0)), Ok(ReadStep::EndOfInput)));
    buf.extend_from_slice(&[0, 0, 0, 77, 0, 0, 0, 0, 0]);
    assert_eq!(read_frame(&mut buf, None).unwrap_err(), Error::UnknownFrameType(77));
}
