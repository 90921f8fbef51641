use std::collections::VecDeque;
use std::time::{Duration, Instant};

use bytes::{Bytes, BytesMut};
use ombrac_mux::channel::{Outbound, SendOutcome};
use ombrac_mux::connection::{read_frame, Connection, PingAnswer, ReadStep, Step};
use ombrac_mux::error::Error;
use ombrac_mux::frame::Frame;
use ombrac_mux::stream::io::{Inbound, ReadPoll};
use ombrac_mux::stream::pool::Delivery;
use ombrac_mux::stream::Stream;
use tokio::sync::mpsc;

/// One end of a connection, with the queues that a program would give it.
struct End {
    conn: Connection<Instant>,
    outbound: Outbound,
    sent: mpsc::Receiver<Bytes>,
    input: BytesMut,
    queues: Vec<VecDeque<Frame>>,
    offered: VecDeque<Stream>,
    answers: Vec<Duration>,
}

impl End {
    fn new() -> End {
        End::with(Connection::new())
    }

    fn server() -> End {
        End::with(Connection::server())
    }

    fn with(conn: Connection<Instant>) -> End {
        let (sender, sent) = mpsc::channel(64);
        End {
            conn,
            outbound: Outbound::new(sender),
            sent,
            input: BytesMut::new(),
            queues: Vec::new(),
            offered: VecDeque::new(),
            answers: Vec::new(),
        }
    }

    fn open_stream(&mut self) -> Result<Stream, Error> {
        self.conn.open_stream()
    }

    fn accept_stream(&mut self) -> Option<Stream> {
        self.offered.pop_front()
    }

    fn send(&mut self, bytes: Bytes) {
        assert_eq!(self.outbound.try_send(bytes), SendOutcome::Sent);
    }

    fn write(&mut self, stream: &Stream, data: &[u8]) -> Result<(), Error> {
        let written = stream.poll_write(self.conn.pool_mut(), &mut self.outbound, data)?;
        assert_eq!(written, Some(data.len()));
        Ok(())
    }

    fn read(&mut self, stream: &Stream, room: usize) -> Result<ReadPoll, Error> {
        stream.check_readable(self.conn.pool())?;
        let event = match self.queue(stream.slot()).pop_front() {
            Some(frame) => Inbound::Frame(frame),
            None => Inbound::Empty,
        };
        let read = stream.poll_read(self.conn.pool_mut(), event, room)?;
        if let ReadPoll::Data { window_update: Some(update), .. } = &read {
            self.send(update.clone());
        }
        Ok(read)
    }

    fn read_bytes(&mut self, stream: &Stream, room: usize) -> Vec<u8> {
        match self.read(stream, room) {
            Ok(ReadPoll::Data { payload, .. }) => payload.to_vec(),
            Ok(ReadPoll::Eof) => Vec::new(),
            _ => panic!("nothing to read"),
        }
    }

    fn close(&mut self, stream: &Stream) -> Result<(), Error> {
        let sent = self.outbound.try_send(stream.end_bytes()) == SendOutcome::Sent;
        stream.close(self.conn.pool_mut(), sent)
    }

    fn queue(&mut self, slot: usize) -> &mut VecDeque<Frame> {
        while self.queues.len() <= slot {
            self.queues.push(VecDeque::new());
        }
        &mut self.queues[slot]
    }

    fn deliver(&mut self, delivery: Delivery) -> Result<(), Error> {
        let Delivery { slot, end_stream, frame } = delivery;
        self.queue(slot).push_back(frame);
        self.conn.pool_mut().delivered(slot, end_stream, true)
    }

    fn receive(&mut self, bytes: &[u8]) -> Result<(), Error> {
        self.input.extend_from_slice(bytes);
        while let ReadStep::Frame(frame) = read_frame(&mut self.input, Some(bytes.len()))? {
            match self.conn.handle_frame(frame)? {
                Step::Done => {}
                Step::Pong(bytes) => self.send(bytes),
                Step::PingAnswered(start) => self.answers.push(start.elapsed()),
                Step::Deliver(delivery) => self.deliver(delivery)?,
                Step::Accept { stream, frame } => {
                    self.offered.push_back(stream);
                    if let Some(delivery) = self.conn.accepted(frame, true)? {
                        self.deliver(delivery)?;
                    }
                }
            }
        }
        Ok(())
    }
}

/// Moves everything that is queued from one end to the other, a few bytes at
/// a time.
fn transfer(from: &mut End, to: &mut End) -> Result<(), Error> {
    while let Ok(bytes) = from.sent.try_recv() {
        for piece in bytes.chunks(5) {
            to.receive(piece)?;
        }
    }
    Ok(())
}

#[test]
fn test_basic_data_transfer() {
    let mut client = End::new();
    let mut server = End::new();

    let client_stream = client.open_stream().unwrap();
    let test_data = b"Hello, World!";
    client.write(&client_stream, test_data).unwrap();
    transfer(&mut client, &mut server).unwrap();

    let server_stream = server.accept_stream().expect("Failed to accept stream");
    let buf = server.read_bytes(&server_stream, test_data.len());

    assert_eq!(&buf, test_data);
}

#[test]
fn test_bidirectional_transfer() {
    let mut client = End::new();
    let mut server = End::new();

    let client_stream = client.open_stream().unwrap();
    let client_data = b"Hello from client";
    client.write(&client_stream, client_data).unwrap();
    transfer(&mut client, &mut server).unwrap();

    let server_stream = server.accept_stream().expect("Failed to accept stream");
    let buf = server.read_bytes(&server_stream, client_data.len());
    assert_eq!(&buf, client_data);

    let server_data = b"Hello from server";
    server.write(&server_stream, server_data).unwrap();
    transfer(&mut server, &mut client).unwrap();

    let buf = client.read_bytes(&client_stream, server_data.len());
    assert_eq!(&buf, server_data);
}

#[test]
fn test_multiple_streams() {
    let mut client = End::new();
    let mut server = End::new();

    let mut client_streams = vec![];
    let num_streams = 5;

    for i in 0..num_streams {
        let stream = client.open_stream().unwrap();
        let data = format!("Stream {}", i);
        client.write(&stream, data.as_bytes()).unwrap();
        client_streams.push((stream, data));
    }
    transfer(&mut client, &mut server).unwrap();

    for i in 0..num_streams {
        let server_stream = server.accept_stream().expect("Failed to accept stream");
        let buf = server.read_bytes(&server_stream, 32);
        let received = String::from_utf8_lossy(&buf);
        assert_eq!(received, format!("Stream {}", i));
    }
}

#[test]
fn test_connection_ping() {
    let mut client = End::new();
    let mut server = End::new();

    let ping = client.conn.ping(Instant::now()).unwrap();
    client.send(ping);
    transfer(&mut client, &mut server).unwrap();
    transfer(&mut server, &mut client).unwrap();

    assert_eq!(client.answers.len(), 1);
    let rtt = client.conn.ping_ended(PingAnswer::Answered(client.answers[0])).unwrap();
    assert!(rtt < Duration::from_secs(1));
    assert!(client.conn.ping(Instant::now()).is_ok());
}

#[test]
fn integration_test_test_stream_close() {
    let mut client = End::new();
    let mut server = End::new();

    let client_stream = client.open_stream().unwrap();
    client.write(&client_stream, b"Hello").unwrap();
    transfer(&mut client, &mut server).unwrap();

    let server_stream = server.accept_stream().expect("Failed to accept stream");
    let buf = server.read_bytes(&server_stream, 5);
    assert_eq!(&buf, b"Hello");

    client.close(&client_stream).unwrap();
    transfer(&mut client, &mut server).unwrap();

    let buf = server.read_bytes(&server_stream, 1);
    assert_eq!(buf.len(), 0);
    let buf = server.read_bytes(&server_stream, 1);
    assert_eq!(buf.len(), 0);
}

#[test]
fn everything_written_is_read_in_order() {
    let mut client = End::new();
    let mut server = End::new();
    let first = client.open_stream().unwrap();
    let second = client.open_stream().unwrap();
    let mut expected = [Vec::new(), Vec::new()];
    for i in 0..20u8 {
        let data = vec![i; i as usize];
        client.write(&first, &data).unwrap();
        expected[0].extend_from_slice(&data);
        let data = vec![200 - i; 2 * i as usize];
        client.write(&second, &data).unwrap();
        expected[1].extend_from_slice(&data);
    }
    transfer(&mut client, &mut server).unwrap();
    for bytes in expected {
        let stream = server.accept_stream().unwrap();
        let mut read = Vec::new();
        while let Ok(ReadPoll::Data { payload, .. }) = server.read(&stream, 100) {
            read.extend_from_slice(&payload);
        }
        assert_eq!(read, bytes);
    }
}

#[test]
fn data_queued_before_the_close_is_still_read() {
    let mut client = End::new();
    let mut server = End::new();
    let stream = client.open_stream().unwrap();
    client.write(&stream, b"last words").unwrap();
    client.close(&stream).unwrap();
    assert_eq!(client.write(&stream, b"more"), Err(Error::NotWritable));
    transfer(&mut client, &mut server).unwrap();
    let stream = server.accept_stream().unwrap();
    assert_eq!(&server.read_bytes(&stream, 64), b"last words");
    assert!(server.read_bytes(&stream, 64).is_empty());
    assert!(matches!(server.read(&stream, 64), Ok(ReadPoll::Eof)));
}

#[test]
fn grants_travel_back() {
    let mut client = End::new();
    let mut server = End::new();
    let stream = client.open_stream().unwrap();
    client.write(&stream, &[1; 20_000]).unwrap();
    transfer(&mut client, &mut server).unwrap();
    let accepted = server.accept_stream().unwrap();
    assert_eq!(server.read_bytes(&accepted, 20_000).len(), 20_000);
    assert_eq!(server.conn.pool().control(accepted.slot()).window.recv_window(), 25_535);
    assert_eq!(client.conn.pool().control(stream.slot()).window.send_window(), 45_535);
    transfer(&mut server, &mut client).unwrap();
    assert_eq!(client.conn.pool().control(stream.slot()).window.send_window(), 85_535);
}

#[test]
fn both_ends_can_open_streams() {
    let mut client = End::new();
    let mut server = End::server();
    let from_client = client.open_stream().unwrap();
    let from_server = server.open_stream().unwrap();
    client.write(&from_client, b"question").unwrap();
    server.write(&from_server, b"notice").unwrap();
    transfer(&mut client, &mut server).unwrap();
    transfer(&mut server, &mut client).unwrap();
    let at_server = server.accept_stream().unwrap();
    let at_client = client.accept_stream().unwrap();
    assert_eq!((at_server.id(), at_client.id()), (1, 2));
    assert_eq!(&server.read_bytes(&at_server, 64), b"question");
    assert_eq!(&client.read_bytes(&at_client, 64), b"notice");
}
