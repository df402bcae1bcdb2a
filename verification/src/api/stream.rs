//! The live stream of one WebSocket connection as a state machine: the caller
//! waits on the bus, the socket and the ping timer, reports what happened,
//! and carries out the action it is given.

use vstd::prelude::*;
use crate::event::Level;

verus! {

/// Seconds between two liveness pings. A tick that was missed is skipped.
pub const PING_INTERVAL_SECS: u64 = 30;

/// Whether the connection is still being served.
#[derive(Clone, Copy, Debug, PartialEq, Eq, Structural)]
pub enum StreamState {
    Open,
    Closed,
}

/// What happened while the connection was waiting.
#[derive(Debug)]
pub enum StreamInput {
    /// The bus delivered an event. It arrives as its JSON text, or as `None`
    /// where it could not be serialized.
    Event(Option<String>),
    /// The bus reports that this subscriber missed that many events.
    Lagged(u64),
    /// The bus has no sender left.
    BusClosed,
    /// The client sent a ping with this payload.
    ClientPing(Vec<u8>),
    /// The client answered a ping.
    ClientPong,
    /// The client asked to close.
    ClientClose,
    /// The client sent a frame that the stream has no use for.
    ClientOther,
    /// Reading from the socket failed.
    ClientError,
    /// The socket reached the end of its stream.
    ClientGone,
    /// The ping timer fired.
    Tick,
    /// The frame handed out by the previous step was sent (`true`) or could
    /// not be sent (`false`).
    SendDone(bool),
}

/// A frame for the client.
#[derive(Debug)]
pub enum Frame {
    Text(String),
    Ping(Vec<u8>),
    Pong(Vec<u8>),
}

/// What the caller does next.
#[derive(Debug)]
pub enum StreamAction {
    /// Send the frame, then report `SendDone`.
    Send(Frame),
    /// Go back to waiting.
    Wait,
    /// Leave the loop and drop the connection.
    Close,
}

/// An input as plain values.
pub enum StreamInputView {
    Event(Option<Seq<char>>),
    Lagged(u64),
    BusClosed,
    ClientPing(Seq<u8>),
    ClientPong,
    ClientClose,
    ClientOther,
    ClientError,
    ClientGone,
    Tick,
    SendDone(bool),
}

/// A frame as plain values.
pub enum FrameView {
    Text(Seq<char>),
    Ping(Seq<u8>),
    Pong(Seq<u8>),
}

/// An action as plain values.
pub enum StreamActionView {
    Send(FrameView),
    Wait,
    Close,
}

impl View for StreamInput {
    type V = StreamInputView;

    open spec fn view(&self) -> StreamInputView {
        match *self {
            StreamInput::Event(Some(json)) => StreamInputView::Event(Some(json@)),
            StreamInput::Event(None) => StreamInputView::Event(None),
            StreamInput::Lagged(n) => StreamInputView::Lagged(n),
            StreamInput::BusClosed => StreamInputView::BusClosed,
            StreamInput::ClientPing(data) => StreamInputView::ClientPing(data@),
            StreamInput::ClientPong => StreamInputView::ClientPong,
            StreamInput::ClientClose => StreamInputView::ClientClose,
            StreamInput::ClientOther => StreamInputView::ClientOther,
            StreamInput::ClientError => StreamInputView::ClientError,
            StreamInput::ClientGone => StreamInputView::ClientGone,
            StreamInput::Tick => StreamInputView::Tick,
            StreamInput::SendDone(ok) => StreamInputView::SendDone(ok),
        }
    }
}

impl View for Frame {
    type V = FrameView;

    open spec fn view(&self) -> FrameView {
        match *self {
            Frame::Text(s) => FrameView::Text(s@),
            Frame::Ping(d) => FrameView::Ping(d@),
            Frame::Pong(d) => FrameView::Pong(d@),
        }
    }
}

impl View for StreamAction {
    type V = StreamActionView;

    open spec fn view(&self) -> StreamActionView {
        match *self {
            StreamAction::Send(f) => StreamActionView::Send(f@),
            StreamAction::Wait => StreamActionView::Wait,
            StreamAction::Close => StreamActionView::Close,
        }
    }
}

/// The inputs that end a connection: the bus closed, the client asked to
/// close or went away, reading failed, or a frame could not be sent.
pub open spec fn ends_stream(input: StreamInputView) -> bool {
    ||| input is BusClosed
    ||| input is ClientClose
    ||| input is ClientError
    ||| input is ClientGone
    ||| input == StreamInputView::SendDone(false)
}

/// The frame that an input asks for, if any: an event is forwarded as text, a
/// ping is answered with a pong of the same payload, a tick sends an empty
/// ping.
pub open spec fn frame_for(input: StreamInputView) -> Option<FrameView> {
    match input {
        StreamInputView::Event(Some(json)) => Some(FrameView::Text(json)),
        StreamInputView::ClientPing(data) => Some(FrameView::Pong(data)),
        StreamInputView::Tick => Some(FrameView::Ping(Seq::empty())),
        _ => None,
    }
}

/// The action for an input on an open connection.
pub open spec fn action_for(input: StreamInputView) -> StreamActionView {
    if ends_stream(input) {
        StreamActionView::Close
    } else {
        match frame_for(input) {
            Some(frame) => StreamActionView::Send(frame),
            None => StreamActionView::Wait,
        }
    }
}

/// The state at which a new connection starts.
pub fn stream_start() -> (state: StreamState)
    ensures
        state == StreamState::Open,
{
    StreamState::Open
}

/// One step of the stream. A closed connection stays closed, whatever comes.
/// An open one closes on the inputs of `ends_stream` and on no others: a lag
/// report, an event that could not be serialized and a frame of no use all
/// leave it open and waiting.
pub fn stream_step(state: StreamState, input: StreamInput) -> (next: (StreamState, StreamAction))
    ensures
        state == StreamState::Closed ==> next.0 == StreamState::Closed && next.1@
            == StreamActionView::Close,
        state == StreamState::Open ==> next.1@ == action_for(input@),
        next.0 == StreamState::Closed <==> next.1@ == StreamActionView::Close,
        state == StreamState::Open ==> (next.0 == StreamState::Closed <==> ends_stream(input@)),
{
    match state {
        StreamState::Closed => (StreamState::Closed, StreamAction::Close),
        StreamState::Open => match input {
            StreamInput::Event(Some(json)) => (
                StreamState::Open,
                StreamAction::Send(Frame::Text(json)),
            ),
            StreamInput::Event(None) => (StreamState::Open, StreamAction::Wait),
            StreamInput::Lagged(_) => (StreamState::Open, StreamAction::Wait),
            StreamInput::BusClosed => (StreamState::Closed, StreamAction::Close),
            StreamInput::ClientPing(data) => (
                StreamState::Open,
                StreamAction::Send(Frame::Pong(data)),
            ),
            StreamInput::ClientPong => (StreamState::Open, StreamAction::Wait),
            StreamInput::ClientClose => (StreamState::Closed, StreamAction::Close),
            StreamInput::ClientOther => (StreamState::Open, StreamAction::Wait),
            StreamInput::ClientError => (StreamState::Closed, StreamAction::Close),
            StreamInput::ClientGone => (StreamState::Closed, StreamAction::Close),
            StreamInput::Tick => (StreamState::Open, StreamAction::Send(Frame::Ping(Vec::new()))),
            StreamInput::SendDone(true) => (StreamState::Open, StreamAction::Wait),
            StreamInput::SendDone(false) => (StreamState::Closed, StreamAction::Close),
        },
    }
}

/// The severity at which an input deserves a diagnostic, if it deserves one:
/// a serialization failure is an error, a closed bus a warning, a lag and a
/// client that left are worth a debug line.
pub fn stream_diagnostic(input: &StreamInput) -> (level: Option<Level>)
    ensures
        level == match input@ {
            StreamInputView::Event(None) => Some(Level::Error),
            StreamInputView::BusClosed => Some(Level::Warn),
            StreamInputView::Lagged(_) => Some(Level::Debug),
            StreamInputView::ClientClose => Some(Level::Debug),
            StreamInputView::ClientError => Some(Level::Debug),
            StreamInputView::ClientGone => Some(Level::Debug),
            StreamInputView::SendDone(false) => Some(Level::Debug),
            _ => None,
        },
{
    match input {
        StreamInput::Event(None) => Some(Level::Error),
        StreamInput::BusClosed => Some(Level::Warn),
        StreamInput::Lagged(_) => Some(Level::Debug),
        StreamInput::ClientClose => Some(Level::Debug),
        StreamInput::ClientError => Some(Level::Debug),
        StreamInput::ClientGone => Some(Level::Debug),
        StreamInput::SendDone(false) => Some(Level::Debug),
        _ => None,
    }
}

} // verus!
