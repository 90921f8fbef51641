use bytes::{Bytes, BytesMut};
use ombrac_mux::channel::{Outbound, SendOutcome};
use ombrac_mux::error::Error;
use ombrac_mux::frame::{Frame, FrameType, FLAG_END_STREAM};
use ombrac_mux::stream::io::{Inbound, ReadPoll};
use ombrac_mux::stream::pool::StreamPool;
use ombrac_mux::stream::{Stream, StreamState};
use tokio::sync::mpsc;

fn state(pool: &StreamPool, stream: &Stream) -> StreamState {
    pool.control(stream.slot()).get_state()
}

#[test]
fn stream_test_stream_create() {
    let mut pool = StreamPool::new(1);
    let stream = pool.create_stream(1).unwrap();
    assert!(!stream.is_closed(&pool));
}

#[test]
fn stream_test_stream_close() {
    let (tx, _rx) = mpsc::channel(1);
    let mut pool = StreamPool::new(1);
    let stream = pool.create_stream(1).unwrap();
    let sent = tx.try_send(stream.end_bytes()).is_ok();
    stream.close(&mut pool, sent).unwrap();
    assert!(stream.is_closed(&pool));
}

#[test]
fn pool_test_stream_create() {
    let mut pool = StreamPool::new(1);
    let stream = pool.create_stream(1).unwrap();
    assert!(!stream.is_closed(&pool));
}

#[test]
fn pool_test_stream_close() {
    let (tx, _rx) = mpsc::channel(1);
    let mut pool = StreamPool::new(1);
    let stream = pool.create_stream(1).unwrap();
    let sent = tx.try_send(stream.end_bytes()).is_ok();
    stream.close(&mut pool, sent).unwrap();
    assert!(stream.is_closed(&pool));
}

#[test]
fn a_close_that_was_not_sent_changes_nothing() {
    let mut pool = StreamPool::new(1);
    let stream = pool.create_stream(1).unwrap();
    assert_eq!(stream.close(&mut pool, false), Err(Error::CloseNotSent));
    assert_eq!(state(&pool, &stream), StreamState::Open);
}

#[test]
fn the_end_frame_is_an_empty_data_frame() {
    let mut pool = StreamPool::new(1);
    let stream = pool.create_stream(9).unwrap();
    assert_eq!(stream.id(), 9);
    assert_eq!(&stream.end_bytes()[..], &[0, 0, 0, 0, 1, 0, 0, 0, 9]);
}

#[test]
fn ids_step_by_two_up_to_the_limit() {
    let mut pool = StreamPool::new(0x7fff_fffb);
    assert_eq!(pool.next_stream_id(), Some(0x7fff_fffb));
    assert_eq!(pool.next_stream_id(), Some(0x7fff_fffd));
    assert_eq!(pool.next_stream_id(), Some(0x7fff_ffff));
    assert_eq!(pool.next_stream_id(), None);
    assert_eq!(pool.next_stream_id(), None);
    let mut wrapping = StreamPool::new(0xffff_fffe);
    assert_eq!(wrapping.next_stream_id(), None);
    assert_eq!(wrapping.next_stream_id(), Some(0));
}

#[test]
fn odd_and_even_ends_do_not_collide() {
    let mut odd = StreamPool::new(1);
    let mut even = StreamPool::new(2);
    for _ in 0..100 {
        let ids = (odd.next_stream_id().unwrap(), even.next_stream_id().unwrap());
        assert_eq!((ids.0 % 2, ids.1 % 2), (1, 0));
    }
}

#[test]
fn ids_lead_to_streams_until_removed() {
    let mut pool = StreamPool::new(1);
    let stream = pool.create_stream(4).unwrap();
    assert_eq!(pool.get(4), Some(stream.slot()));
    assert!(pool.get_control(4).is_some());
    assert!(pool.get(5).is_none());
    assert!(pool.get_control(5).is_none());
    assert_eq!(pool.remove(4), Some(stream.slot()));
    assert_eq!(pool.remove(4), None);
    assert!(pool.get(4).is_none());
    pool.create_stream(4).unwrap();
    pool.remove_stream(4);
    assert!(pool.get(4).is_none());
    assert_eq!(pool.slots(), 2);
    assert!(!stream.is_closed(&pool));
}

#[test]
fn data_is_for_the_reader_and_counts() {
    let mut pool = StreamPool::new(1);
    let stream = pool.create_stream(1).unwrap();
    let delivery = pool
        .handle_frame(Frame::with_data_payload(1, Bytes::from("Hello")))
        .unwrap()
        .unwrap();
    assert_eq!(delivery.slot, stream.slot());
    assert!(!delivery.end_stream);
    assert_eq!(&delivery.frame.payload[..], b"Hello");
    assert_eq!(pool.control(stream.slot()).window.recv_window(), 65_530);
    assert_eq!(pool.control(stream.slot()).window.send_window(), 65_535);
    assert_eq!(pool.delivered(delivery.slot, delivery.end_stream, true), Ok(()));
    assert_eq!(state(&pool, &stream), StreamState::Open);
}

#[test]
fn frames_that_are_refused() {
    let mut pool = StreamPool::new(1);
    let stream = pool.create_stream(1).unwrap();
    let unknown = pool.handle_frame(Frame::with_data_payload(2, Bytes::new()));
    assert_eq!(unknown.unwrap_err(), Error::StreamNotFound);
    let large = pool.handle_frame(Frame::with_data_payload(1, Bytes::from(vec![0; 65_536])));
    assert_eq!(large.unwrap_err(), Error::WindowInsufficient);
    let zero = pool.handle_frame(Frame::window_update(1, 0));
    assert_eq!(zero.unwrap_err(), Error::WindowUpdateZero);
    let excess = pool.handle_frame(Frame::window_update(1, 1_073_741_823));
    assert_eq!(excess.unwrap_err(), Error::WindowExceeded);
    let ping = pool.handle_frame(Frame::new(FrameType::Ping, 0, 1, Bytes::new()));
    assert_eq!(ping.unwrap_err(), Error::UnexpectedFrameType);
    assert_eq!(state(&pool, &stream), StreamState::Open);
    assert_eq!(pool.control(stream.slot()).window.send_window(), 65_535);
    assert_eq!(pool.control(stream.slot()).window.recv_window(), 65_535);
}

#[test]
fn a_window_update_raises_the_window() {
    let mut pool = StreamPool::new(1);
    let stream = pool.create_stream(1).unwrap();
    assert!(pool.handle_frame(Frame::window_update(1, 1000)).unwrap().is_none());
    assert_eq!(pool.control(stream.slot()).window.send_window(), 66_535);
}

#[test]
fn a_reset_closes() {
    let mut pool = StreamPool::new(1);
    let stream = pool.create_stream(1).unwrap();
    let reset = pool.handle_frame(Frame::rst_stream(1, 7));
    assert_eq!(reset.unwrap_err(), Error::StreamReset);
    assert!(stream.is_closed(&pool));
    let data = pool.handle_frame(Frame::with_data_payload(1, Bytes::new()));
    assert_eq!(data.unwrap_err(), Error::DataNotReadable);
    assert_eq!(stream.check_readable(&pool), Err(Error::NotReadable));
    let read = stream.poll_read(&mut pool, Inbound::Empty, 1);
    assert_eq!(read.unwrap_err(), Error::NotReadable);
    assert_eq!(stream.write_bytes(&mut pool, b"x").unwrap_err(), Error::NotWritable);
}

#[test]
fn a_reader_that_is_gone() {
    let mut pool = StreamPool::new(1);
    let stream = pool.create_stream(1).unwrap();
    assert_eq!(pool.delivered(stream.slot(), true, false), Err(Error::StreamClosed));
    assert_eq!(state(&pool, &stream), StreamState::Open);
}

#[test]
fn the_end_of_the_peer_is_the_end_of_the_stream() {
    let mut pool = StreamPool::new(1);
    let stream = pool.create_stream(1).unwrap();
    let end = Frame::new(FrameType::Data, FLAG_END_STREAM, 1, Bytes::new());
    let delivery = pool.handle_frame(end).unwrap().unwrap();
    assert!(delivery.end_stream);
    pool.delivered(delivery.slot, delivery.end_stream, true).unwrap();
    assert_eq!(state(&pool, &stream), StreamState::HalfClosedRemote);
    assert_eq!(stream.check_readable(&pool), Ok(()));

    let earlier = Frame::with_data_payload(1, Bytes::from("late"));
    let read = stream.poll_read(&mut pool, Inbound::Frame(earlier), 4).unwrap();
    assert!(matches!(read, ReadPoll::Data { payload, .. } if &payload[..] == b"late"));
    let read = stream.poll_read(&mut pool, Inbound::Frame(delivery.frame), 4).unwrap();
    assert!(matches!(read, ReadPoll::Data { payload, .. } if payload.is_empty()));
    let read = stream.poll_read(&mut pool, Inbound::Empty, 4).unwrap();
    assert!(matches!(read, ReadPoll::Eof));
    let read = stream.poll_read(&mut pool, Inbound::Ended, 4).unwrap();
    assert!(matches!(read, ReadPoll::Eof));

    assert!(stream.write_bytes(&mut pool, b"still").is_ok());
    let more = pool.handle_frame(Frame::with_data_payload(1, Bytes::from("no")));
    assert_eq!(more.unwrap_err(), Error::DataNotReadable);
    assert_eq!(stream.shutdown_sent(&mut pool, SendOutcome::Sent), Ok(true));
    assert!(stream.is_closed(&pool));
}

#[test]
fn reads_of_an_open_stream() {
    let mut pool = StreamPool::new(1);
    let stream = pool.create_stream(1).unwrap();
    let read = stream.poll_read(&mut pool, Inbound::Empty, 4).unwrap();
    assert!(matches!(read, ReadPoll::Pending));
    let read = stream.poll_read(&mut pool, Inbound::Ended, 4);
    assert_eq!(read.unwrap_err(), Error::ClosedByPeer);
    let frame = Frame::with_data_payload(1, Bytes::from("Hello"));
    let read = stream.poll_read(&mut pool, Inbound::Frame(frame), 4);
    assert_eq!(read.unwrap_err(), Error::NotEnoughSpace);
    let frame = Frame::with_data_payload(1, Bytes::from("Hello"));
    let read = stream.poll_read(&mut pool, Inbound::Frame(frame), 5).unwrap();
    assert!(matches!(
        read,
        ReadPoll::Data { payload, window_update: None } if &payload[..] == b"Hello"
    ));
    assert_eq!(pool.control(stream.slot()).window.recv_window(), 65_530);
}

#[test]
fn a_read_past_half_the_window_grants() {
    let mut pool = StreamPool::new(1);
    let stream = pool.create_stream(3).unwrap();
    let frame = Frame::with_data_payload(3, Bytes::from(vec![1; 40_000]));
    let update = match stream.poll_read(&mut pool, Inbound::Frame(frame), 40_000).unwrap() {
        ReadPoll::Data { window_update: Some(update), .. } => update,
        _ => panic!("no window update"),
    };
    let mut buf = BytesMut::from(&update[..]);
    let update = Frame::decode(&mut buf).unwrap().unwrap();
    assert_eq!(update.stream_id, 3);
    assert_eq!(update.window_update_increment(), Ok(40_000));

    let mut peer = StreamPool::new(1);
    let other = peer.create_stream(3).unwrap();
    other.write_bytes(&mut peer, &[1; 40_000]).unwrap();
    assert_eq!(peer.control(other.slot()).window.send_window(), 25_535);
    peer.handle_frame(update).unwrap();
    assert_eq!(peer.control(other.slot()).window.send_window(), 65_535);
}

#[test]
fn a_write_goes_through_the_channel() {
    let (tx, mut rx) = mpsc::channel(1);
    let mut out = Outbound::new(tx);
    let mut pool = StreamPool::new(1);
    let stream = pool.create_stream(1).unwrap();
    assert_eq!(stream.poll_write(&mut pool, &mut out, b"abc"), Ok(Some(3)));
    assert_eq!(pool.control(stream.slot()).window.send_window(), 65_532);

    assert_eq!(stream.poll_write(&mut pool, &mut out, b"defg"), Ok(None));
    assert_eq!(pool.control(stream.slot()).window.send_window(), 65_532);
    assert_eq!(stream.poll_shutdown(&mut pool, &mut out), Ok(false));
    assert_eq!(state(&pool, &stream), StreamState::Open);

    assert_eq!(&rx.try_recv().unwrap()[..], &[0, 0, 3, 0, 0, 0, 0, 0, 1, b'a', b'b', b'c']);
    assert_eq!(stream.poll_shutdown(&mut pool, &mut out), Ok(true));
    assert_eq!(state(&pool, &stream), StreamState::HalfClosedLocal);
    assert_eq!(&rx.try_recv().unwrap()[..], &[0, 0, 0, 0, 1, 0, 0, 0, 1]);
    assert_eq!(stream.poll_write(&mut pool, &mut out, b"x"), Err(Error::NotWritable));
}

#[test]
fn a_write_to_a_connection_that_is_gone() {
    let (tx, rx) = mpsc::channel(1);
    drop(rx);
    let mut out = Outbound::new(tx);
    let mut pool = StreamPool::new(1);
    let stream = pool.create_stream(1).unwrap();
    assert_eq!(stream.poll_write(&mut pool, &mut out, b"abc"), Err(Error::ConnectionClosed));
    assert_eq!(stream.poll_shutdown(&mut pool, &mut out), Err(Error::ConnectionClosed));
    assert_eq!(state(&pool, &stream), StreamState::Open);
}

#[test]
fn a_write_past_the_window() {
    let (tx, mut rx) = mpsc::channel(1);
    let mut out = Outbound::new(tx);
    let mut pool = StreamPool::new(1);
    let stream = pool.create_stream(1).unwrap();
    let data = vec![0; 65_536];
    assert_eq!(stream.poll_write(&mut pool, &mut out, &data), Err(Error::WindowInsufficient));
    assert!(rx.try_recv().is_err());
    assert_eq!(stream.poll_write(&mut pool, &mut out, &data[1..]), Ok(Some(65_535)));
}

#[test]
fn a_shutdown_then_the_end_of_the_peer_closes() {
    let mut pool = StreamPool::new(1);
    let stream = pool.create_stream(1).unwrap();
    stream.shutdown_sent(&mut pool, SendOutcome::Sent).unwrap();
    let data = pool.handle_frame(Frame::with_data_payload(1, Bytes::from("ok")));
    assert!(data.unwrap().is_some());
    pool.delivered(stream.slot(), true, true).unwrap();
    assert!(stream.is_closed(&pool));
}

#[test]
fn streams_do_not_disturb_each_other() {
    let mut pool = StreamPool::new(1);
    let first = pool.create_stream(1).unwrap();
    let second = pool.create_stream(2).unwrap();
    pool.handle_frame(Frame::with_data_payload(1, Bytes::from("abc"))).unwrap();
    let reset = pool.handle_frame(Frame::rst_stream(1, 0));
    assert!(reset.is_err());
    assert!(first.is_closed(&pool));
    assert!(!second.is_closed(&pool));
    assert_eq!(pool.control(second.slot()).window.recv_window(), 65_535);
}

#[test]
fn a_new_stream_takes_the_id_over() {
    let mut pool = StreamPool::new(1);
    let old = pool.create_stream(1).unwrap();
    let new = pool.create_stream(1).unwrap();
    let delivery = pool
        .handle_frame(Frame::with_data_payload(1, Bytes::from("abc")))
        .unwrap()
        .unwrap();
    assert_eq!(delivery.slot, new.slot());
    assert!(delivery.slot != old.slot());
    assert_eq!(pool.control(old.slot()).window.recv_window(), 65_535);
    assert_eq!(pool.control(new.slot()).window.recv_window(), 65_532);
}

#[test]
fn only_what_the_queue_takes_is_queued() {
    let (tx, mut rx) = mpsc::channel(2);
    let mut out = Outbound::new(tx);
    assert_eq!(out.try_send(Bytes::from("one")), SendOutcome::Sent);
    assert_eq!(out.try_send(Bytes::from("two")), SendOutcome::Sent);
    assert_eq!(out.try_send(Bytes::from("three")), SendOutcome::Full);
    assert_eq!(&rx.try_recv().unwrap()[..], b"one");
    assert_eq!(out.try_send(Bytes::from("four")), SendOutcome::Sent);
    assert_eq!(&rx.try_recv().unwrap()[..], b"two");
    assert_eq!(&rx.try_recv().unwrap()[..], b"four");
    assert!(rx.try_recv().is_err());
    drop(rx);
    assert_eq!(out.try_send(Bytes::from("five")), SendOutcome::Closed);
}

#[test]
fn what_came_in_can_be_read() {
    let mut pool = StreamPool::new(1);
    let stream = pool.create_stream(1).unwrap();
    let frame = Frame::with_data_payload(1, Bytes::from(vec![9; 65_535]));
    let delivery = pool.handle_frame(frame).unwrap().unwrap();
    assert_eq!(pool.control(stream.slot()).window.recv_window(), 0);
    let more = pool.handle_frame(Frame::with_data_payload(1, Bytes::from("x")));
    assert_eq!(more.unwrap_err(), Error::WindowInsufficient);
    let event = Inbound::Frame(delivery.frame);
    let read = stream.poll_read(&mut pool, event, 65_535).unwrap();
    assert!(matches!(
        read,
        ReadPoll::Data { payload, window_update: Some(_) } if payload.len() == 65_535
    ));
    assert_eq!(pool.control(stream.slot()).window.send_window(), 65_535);
    assert!(stream.write_bytes(&mut pool, &[0; 65_535]).is_ok());
}
