//! What can go wrong, with the class and the message of each failure.

use vstd::prelude::*;

verus! {

/// The class of a failure.
#[derive(Debug, Clone, Copy, PartialEq, Eq, Structural)]
pub enum ErrorKind {
    InvalidData,
    InvalidInput,
    WouldBlock,
    Other,
    NotFound,
    ConnectionReset,
    BrokenPipe,
    UnexpectedEof,
    TimedOut,
}

/// A failure of the multiplexer.
#[derive(Debug, Clone, Copy, PartialEq, Eq, Structural)]
pub enum Error {
    /// The type byte of a frame names no frame type.
    UnknownFrameType(u8),
    /// A window increment was asked of another frame.
    NotWindowUpdate,
    /// A window update whose payload is not four bytes long.
    WindowUpdateLength,
    /// A window update that adds nothing.
    WindowUpdateZero,
    /// The send window would not fit a `usize`.
    WindowOverflow,
    /// The send window would pass its maximum.
    WindowExceeded,
    /// More bytes than a window has left.
    WindowInsufficient,
    /// No stream id is left to open a stream with.
    StreamIdExhausted,
    /// A frame for a stream that does not exist.
    StreamNotFound,
    /// A frame type that means nothing on a stream.
    UnexpectedFrameType,
    /// A frame type that means nothing on the connection.
    UnexpectedConnectionFrameType,
    /// Data came for a stream that takes no more.
    DataNotReadable,
    /// The peer reset a stream.
    StreamReset,
    /// The reader of a stream is gone.
    StreamClosed,
    /// Nobody accepts new streams.
    AcceptFailed,
    /// The input ended inside a frame.
    MidFrame,
    /// A read from a closed stream.
    NotReadable,
    /// A write to a stream whose sending side is closed.
    NotWritable,
    /// The reader's buffer is smaller than the payload.
    NotEnoughSpace,
    /// The frames of a stream ended without an end mark.
    ClosedByPeer,
    /// The connection takes no more frames.
    ConnectionClosed,
    /// The end mark of a stream could not be sent.
    CloseNotSent,
    /// The farewell of the connection could not be sent.
    GoAwayNotSent,
    /// The answer to a ping could not be sent.
    PongNotSent,
    /// A ping could not be sent.
    PingNotSent,
    /// A ping is already waiting for its answer.
    PingInProgress,
    /// The control stream does not exist.
    ControlStreamNotFound,
    /// The waiting ping was abandoned.
    PingChannelClosed,
    /// No answer to a ping came in time.
    PingTimedOut,
}

/// The character of a decimal digit.
pub open spec fn digit(d: int) -> char {
    seq!['0', '1', '2', '3', '4', '5', '6', '7', '8', '9'][d]
}

/// A number in decimal notation.
pub open spec fn decimal(n: nat) -> Seq<char>
    decreases n,
{
    if n < 10 {
        seq![digit(n as int)]
    } else {
        decimal(n / 10) + seq![digit((n % 10) as int)]
    }
}

/// The text of a decimal digit.
fn digit_text(d: u8) -> (r: &'static str)
    requires
        d < 10,
    ensures
        r@ == seq![digit(d as int)],
{
    proof {
        reveal_strlit("0");
        reveal_strlit("1");
        reveal_strlit("2");
        reveal_strlit("3");
        reveal_strlit("4");
        reveal_strlit("5");
        reveal_strlit("6");
        reveal_strlit("7");
        reveal_strlit("8");
        reveal_strlit("9");
    }
    let r: &'static str = match d {
        0 => "0",
        1 => "1",
        2 => "2",
        3 => "3",
        4 => "4",
        5 => "5",
        6 => "6",
        7 => "7",
        8 => "8",
        _ => "9",
    };
    assert(r@ =~= seq![digit(d as int)]);
    r
}

/// The text of a byte in decimal notation.
fn decimal_text(n: u8) -> (r: String)
    ensures
        r@ == decimal(n as nat),
    decreases n,
{
    if n < 10 {
        digit_text(n).to_owned()
    } else {
        let mut r = decimal_text(n / 10);
        r.append(digit_text(n % 10));
        r
    }
}

impl Error {
    /// The class that the failure belongs to.
    pub open spec fn spec_kind(self) -> ErrorKind {
        match self {
            Error::UnknownFrameType(_) => ErrorKind::InvalidData,
            Error::NotWindowUpdate => ErrorKind::InvalidInput,
            Error::WindowUpdateLength => ErrorKind::InvalidInput,
            Error::WindowUpdateZero => ErrorKind::InvalidInput,
            Error::WindowOverflow => ErrorKind::InvalidInput,
            Error::WindowExceeded => ErrorKind::InvalidInput,
            Error::WindowInsufficient => ErrorKind::WouldBlock,
            Error::StreamIdExhausted => ErrorKind::Other,
            Error::StreamNotFound => ErrorKind::NotFound,
            Error::UnexpectedFrameType => ErrorKind::InvalidInput,
            Error::UnexpectedConnectionFrameType => ErrorKind::InvalidInput,
            Error::DataNotReadable => ErrorKind::InvalidInput,
            Error::StreamReset => ErrorKind::ConnectionReset,
            Error::StreamClosed => ErrorKind::BrokenPipe,
            Error::AcceptFailed => ErrorKind::Other,
            Error::MidFrame => ErrorKind::UnexpectedEof,
            Error::NotReadable => ErrorKind::BrokenPipe,
            Error::NotWritable => ErrorKind::BrokenPipe,
            Error::NotEnoughSpace => ErrorKind::WouldBlock,
            Error::ClosedByPeer => ErrorKind::UnexpectedEof,
            Error::ConnectionClosed => ErrorKind::BrokenPipe,
            Error::CloseNotSent => ErrorKind::BrokenPipe,
            Error::GoAwayNotSent => ErrorKind::BrokenPipe,
            Error::PongNotSent => ErrorKind::BrokenPipe,
            Error::PingNotSent => ErrorKind::BrokenPipe,
            Error::PingInProgress => ErrorKind::Other,
            Error::ControlStreamNotFound => ErrorKind::NotFound,
            Error::PingChannelClosed => ErrorKind::Other,
            Error::PingTimedOut => ErrorKind::TimedOut,
        }
    }

    /// The text that tells a person what happened.
    pub open spec fn spec_message(self) -> Seq<char> {
        match self {
            Error::UnknownFrameType(code) => "unknown frame type: "@ + decimal(code as nat),
            Error::NotWindowUpdate => "not a window update frame"@,
            Error::WindowUpdateLength => "invalid window update payload length"@,
            Error::WindowUpdateZero => "window update increment cannot be zero"@,
            Error::WindowOverflow => "window size overflow"@,
            Error::WindowExceeded => "window size exceeds maximum allowed"@,
            Error::WindowInsufficient => "insufficient window size"@,
            Error::StreamIdExhausted => "stream id exhausted"@,
            Error::StreamNotFound => "stream not found"@,
            Error::UnexpectedFrameType => "unexpected frame type"@,
            Error::UnexpectedConnectionFrameType => "unexpected connection frame type"@,
            Error::DataNotReadable => "stream is not readable"@,
            Error::StreamReset => "stream reset by peer"@,
            Error::StreamClosed => "stream closed"@,
            Error::AcceptFailed => "failed to accept stream"@,
            Error::MidFrame => "connection closed mid-frame"@,
            Error::NotReadable => "stream is not readable"@,
            Error::NotWritable => "stream is not writable"@,
            Error::NotEnoughSpace => "not enough space in buffer"@,
            Error::ClosedByPeer => "stream closed by peer"@,
            Error::ConnectionClosed => "connection closed"@,
            Error::CloseNotSent => "failed to send close frame"@,
            Error::GoAwayNotSent => "failed to send goaway"@,
            Error::PongNotSent => "failed to send pong"@,
            Error::PingNotSent => "failed to send ping"@,
            Error::PingInProgress => "another ping already in progress"@,
            Error::ControlStreamNotFound => "control stream not found"@,
            Error::PingChannelClosed => "ping response channel closed"@,
            Error::PingTimedOut => "ping timed out"@,
        }
    }

    /// The class that the failure belongs to.
    pub fn kind(&self) -> (r: ErrorKind)
        ensures
            r == self.spec_kind(),
    {
        match self {
            Error::UnknownFrameType(_) => ErrorKind::InvalidData,
            Error::NotWindowUpdate => ErrorKind::InvalidInput,
            Error::WindowUpdateLength => ErrorKind::InvalidInput,
            Error::WindowUpdateZero => ErrorKind::InvalidInput,
            Error::WindowOverflow => ErrorKind::InvalidInput,
            Error::WindowExceeded => ErrorKind::InvalidInput,
            Error::WindowInsufficient => ErrorKind::WouldBlock,
            Error::StreamIdExhausted => ErrorKind::Other,
            Error::StreamNotFound => ErrorKind::NotFound,
            Error::UnexpectedFrameType => ErrorKind::InvalidInput,
            Error::UnexpectedConnectionFrameType => ErrorKind::InvalidInput,
            Error::DataNotReadable => ErrorKind::InvalidInput,
            Error::StreamReset => ErrorKind::ConnectionReset,
            Error::StreamClosed => ErrorKind::BrokenPipe,
            Error::AcceptFailed => ErrorKind::Other,
            Error::MidFrame => ErrorKind::UnexpectedEof,
            Error::NotReadable => ErrorKind::BrokenPipe,
            Error::NotWritable => ErrorKind::BrokenPipe,
            Error::NotEnoughSpace => ErrorKind::WouldBlock,
            Error::ClosedByPeer => ErrorKind::UnexpectedEof,
            Error::ConnectionClosed => ErrorKind::BrokenPipe,
            Error::CloseNotSent => ErrorKind::BrokenPipe,
            Error::GoAwayNotSent => ErrorKind::BrokenPipe,
            Error::PongNotSent => ErrorKind::BrokenPipe,
            Error::PingNotSent => ErrorKind::BrokenPipe,
            Error::PingInProgress => ErrorKind::Other,
            Error::ControlStreamNotFound => ErrorKind::NotFound,
            Error::PingChannelClosed => ErrorKind::Other,
            Error::PingTimedOut => ErrorKind::TimedOut,
        }
    }

    /// The text that tells a person what happened.
    pub fn message(&self) -> (r: String)
        ensures
            r@ == self.spec_message(),
    {
        let text: &'static str = match self {
            Error::UnknownFrameType(code) => {
                let mut r = "unknown frame type: ".to_owned();
                r.append(decimal_text(*code).as_str());
                return r;
            },
            Error::NotWindowUpdate => "not a window update frame",
            Error::WindowUpdateLength => "invalid window update payload length",
            Error::WindowUpdateZero => "window update increment cannot be zero",
            Error::WindowOverflow => "window size overflow",
            Error::WindowExceeded => "window size exceeds maximum allowed",
            Error::WindowInsufficient => "insufficient window size",
            Error::StreamIdExhausted => "stream id exhausted",
            Error::StreamNotFound => "stream not found",
            Error::UnexpectedFrameType => "unexpected frame type",
            Error::UnexpectedConnectionFrameType => "unexpected connection frame type",
            Error::DataNotReadable => "stream is not readable",
            Error::StreamReset => "stream reset by peer",
            Error::StreamClosed => "stream closed",
            Error::AcceptFailed => "failed to accept stream",
            Error::MidFrame => "connection closed mid-frame",
            Error::NotReadable => "stream is not readable",
            Error::NotWritable => "stream is not writable",
            Error::NotEnoughSpace => "not enough space in buffer",
            Error::ClosedByPeer => "stream closed by peer",
            Error::ConnectionClosed => "connection closed",
            Error::CloseNotSent => "failed to send close frame",
            Error::GoAwayNotSent => "failed to send goaway",
            Error::PongNotSent => "failed to send pong",
            Error::PingNotSent => "failed to send ping",
            Error::PingInProgress => "another ping already in progress",
            Error::ControlStreamNotFound => "control stream not found",
            Error::PingChannelClosed => "ping response channel closed",
            Error::PingTimedOut => "ping timed out",
        };
        text.to_owned()
    }
}

/// The number that decimal digits spell.
pub open spec fn number(text: Seq<char>) -> int
    decreases text.len(),
{
    if text.len() == 0 {
        0
    } else {
        number(text.drop_last()) * 10 + (text.last() as int - '0' as int)
    }
}

/// A number in decimal notation is made of digits, spells the number, and has
/// no needless zero in front.
pub proof fn law_decimal(n: nat)
    ensures
        decimal(n).len() > 0,
        number(decimal(n)) == n,
        forall|i: int| 0 <= i < decimal(n).len() ==> '0' <= #[trigger] decimal(n)[i] <= '9',
        decimal(n)[0] == '0' ==> n == 0 && decimal(n).len() == 1,
    decreases n,
{
    if n >= 10 {
        law_decimal(n / 10);
        assert(decimal(n).drop_last() =~= decimal(n / 10));
        assert forall|i: int| 0 <= i < decimal(n).len() implies '0' <= #[trigger] decimal(n)[i]
            <= '9' by {
            if i < decimal(n).len() - 1 {
                assert(decimal(n)[i] == decimal(n / 10)[i]);
            }
        }
        assert(decimal(n)[0] == decimal(n / 10)[0]);
    } else {
        assert(decimal(n).drop_last() =~= Seq::empty());
        assert(number(decimal(n).drop_last()) == 0);
    }
}

/// Every unknown type byte is told in the same way: the same class, and a text
/// that ends in the byte in decimal notation.
pub proof fn law_unknown_type_is_told(code: u8)
    ensures
        ({
            let e = Error::UnknownFrameType(code);
            let start = "unknown frame type: "@;
            &&& e.spec_kind() == ErrorKind::InvalidData
            &&& e.spec_message().len() > start.len()
            &&& e.spec_message().take(start.len() as int) == start
            &&& number(e.spec_message().skip(start.len() as int)) == code
        }),
{
    let start = "unknown frame type: "@;
    let text = Error::UnknownFrameType(code).spec_message();
    law_decimal(code as nat);
    assert(text.take(start.len() as int) =~= start);
    assert(text.skip(start.len() as int) =~= decimal(code as nat));
}

} // verus!
