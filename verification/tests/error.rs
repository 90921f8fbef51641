use ombrac_mux::error::{Error, ErrorKind};

#[test]
fn every_error_has_its_kind_and_message() {
    let cases = [
        (Error::UnknownFrameType(255), ErrorKind::InvalidData, "unknown frame type: 255"),
        (Error::UnknownFrameType(40), ErrorKind::InvalidData, "unknown frame type: 40"),
        (Error::UnknownFrameType(7), ErrorKind::InvalidData, "unknown frame type: 7"),
        (Error::NotWindowUpdate, ErrorKind::InvalidInput, "not a window update frame"),
        (Error::WindowUpdateLength, ErrorKind::InvalidInput, "invalid window update payload length"),
        (Error::WindowUpdateZero, ErrorKind::InvalidInput, "window update increment cannot be zero"),
        (Error::WindowOverflow, ErrorKind::InvalidInput, "window size overflow"),
        (Error::WindowExceeded, ErrorKind::InvalidInput, "window size exceeds maximum allowed"),
        (Error::WindowInsufficient, ErrorKind::WouldBlock, "insufficient window size"),
        (Error::StreamIdExhausted, ErrorKind::Other, "stream id exhausted"),
        (Error::StreamNotFound, ErrorKind::NotFound, "stream not found"),
        (Error::UnexpectedFrameType, ErrorKind::InvalidInput, "unexpected frame type"),
        (
            Error::UnexpectedConnectionFrameType,
            ErrorKind::InvalidInput,
            "unexpected connection frame type",
        ),
        (Error::DataNotReadable, ErrorKind::InvalidInput, "stream is not readable"),
        (Error::StreamReset, ErrorKind::ConnectionReset, "stream reset by peer"),
        (Error::StreamClosed, ErrorKind::BrokenPipe, "stream closed"),
        (Error::AcceptFailed, ErrorKind::Other, "failed to accept stream"),
        (Error::MidFrame, ErrorKind::UnexpectedEof, "connection closed mid-frame"),
        (Error::NotReadable, ErrorKind::BrokenPipe, "stream is not readable"),
        (Error::NotWritable, ErrorKind::BrokenPipe, "stream is not writable"),
        (Error::NotEnoughSpace, ErrorKind::WouldBlock, "not enough space in buffer"),
        (Error::ClosedByPeer, ErrorKind::UnexpectedEof, "stream closed by peer"),
        (Error::ConnectionClosed, ErrorKind::BrokenPipe, "connection closed"),
        (Error::CloseNotSent, ErrorKind::BrokenPipe, "failed to send close frame"),
        (Error::GoAwayNotSent, ErrorKind::BrokenPipe, "failed to send goaway"),
        (Error::PongNotSent, ErrorKind::BrokenPipe, "failed to send pong"),
        (Error::PingNotSent, ErrorKind::BrokenPipe, "failed to send ping"),
        (Error::PingInProgress, ErrorKind::Other, "another ping already in progress"),
        (Error::ControlStreamNotFound, ErrorKind::NotFound, "control stream not found"),
        (Error::PingChannelClosed, ErrorKind::Other, "ping response channel closed"),
        (Error::PingTimedOut, ErrorKind::TimedOut, "ping timed out"),
    ];
    for (error, kind, message) in cases {
        assert_eq!(error.kind(), kind);
        assert_eq!(error.message(), message);
    }
}
