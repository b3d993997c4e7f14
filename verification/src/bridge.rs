//! The message loop: one message at a time, from its arrival to the write
//! that carries its reading.
//!
//! The loop itself waits for the broker, parses JSON and talks to the
//! database; none of that happens here. Here is what the loop decides: it
//! is told what happened, and answers with what to do next.

use vstd::prelude::*;
use crate::deserializer::{
    build_point, bytes_to_text, deserialize_bytes_to_str, deserialize_message, fields_or_default,
    is_default, is_default_fields, parsed_view, payload_bytes, DecodeError,
};
use crate::influx_client::{
    whole_seconds, write_of, Field, InfluxSession, RequestView, SessionView, WriteRequest,
    MAX_TIMESTAMP,
};

verus! {

/// Why a message had to be given up before anything was written.
#[derive(Debug, Clone, Copy, PartialEq, Eq, Structural)]
pub enum Failure {
    /// Its payload could not be decoded.
    Payload(DecodeError),
    /// The clock showed a time beyond the calendar.
    Clock,
}

/// Where the loop stands.
#[derive(Debug, PartialEq, Eq)]
pub enum LoopState {
    /// Waiting for the next message.
    Idle,
    /// A message is in hand and its text is out for parsing.
    Decoding { topic: String, text: String },
    /// A write is on its way.
    Delivering,
}

/// What a state holds.
pub ghost enum StateView {
    Idle,
    Decoding { topic: Seq<char>, text: Seq<char> },
    Delivering,
}

impl View for LoopState {
    type V = StateView;

    open spec fn view(&self) -> StateView {
        match *self {
            LoopState::Idle => StateView::Idle,
            LoopState::Decoding { topic, text } => StateView::Decoding { topic: topic@, text: text@ },
            LoopState::Delivering => StateView::Delivering,
        }
    }
}

/// What the loop is told.
pub enum Event {
    /// The broker handed over a message.
    Message { topic: String, payload: Vec<bytes::Bytes> },
    /// The text was put to the JSON parser, which found these fields or
    /// rejected it, and the clock showed this many milliseconds since the
    /// epoch.
    Parsed { fields: Option<Vec<Field>>, millis: u128 },
    /// The write went through, or failed on its way.
    Delivered { ok: bool },
}

/// What an event holds.
pub ghost enum EventView {
    Message { topic: Seq<char>, payload: Seq<Seq<u8>> },
    Parsed { fields: Option<Seq<(Seq<char>, Seq<char>)>>, millis: nat },
    Delivered { ok: bool },
}

impl View for Event {
    type V = EventView;

    open spec fn view(&self) -> EventView {
        match *self {
            Event::Message { topic, payload } => EventView::Message {
                topic: topic@,
                payload: payload_bytes(payload@),
            },
            Event::Parsed { fields, millis } => EventView::Parsed {
                fields: parsed_view(fields),
                millis: millis as nat,
            },
            Event::Delivered { ok } => EventView::Delivered { ok },
        }
    }
}

/// What the loop is to do next.
#[derive(Debug, PartialEq, Eq)]
pub enum Action {
    /// Wait for the next message.
    Receive,
    /// Put this text to the JSON parser and read the clock.
    Parse { text: String },
    /// Post this write. Where `fallback` is set, the payload read as the
    /// default mapping, which is worth a warning that quotes `text`.
    Post { request: WriteRequest, fallback: bool, text: String },
    /// Give the message up: `text` is what had been decoded of it.
    Halt { failure: Failure, text: String },
}

/// What an action holds.
pub ghost enum ActionView {
    Receive,
    Parse { text: Seq<char> },
    Post { request: RequestView, fallback: bool, text: Seq<char> },
    Halt { failure: Failure, text: Seq<char> },
}

impl View for Action {
    type V = ActionView;

    open spec fn view(&self) -> ActionView {
        match *self {
            Action::Receive => ActionView::Receive,
            Action::Parse { text } => ActionView::Parse { text: text@ },
            Action::Post { request, fallback, text } => ActionView::Post {
                request: request@,
                fallback,
                text: text@,
            },
            Action::Halt { failure, text } => ActionView::Halt { failure, text: text@ },
        }
    }
}

/// A message arrives while the loop is idle. Without a single chunk it is
/// dropped on the spot; otherwise its text goes out for parsing, unless
/// it has none.
pub open spec fn on_message(topic: Seq<char>, payload: Seq<Seq<u8>>) -> (StateView, ActionView) {
    if payload.len() == 0 {
        (StateView::Idle, ActionView::Receive)
    } else {
        match bytes_to_text(payload) {
            Ok(text) => (StateView::Decoding { topic, text }, ActionView::Parse { text }),
            Err(e) => (
                StateView::Idle,
                ActionView::Halt { failure: Failure::Payload(e), text: Seq::empty() },
            ),
        }
    }
}

/// The parser has answered for the message in hand. Its point is built and
/// stamped, and the write goes out; a payload without `value` and a clock
/// beyond the calendar end the message instead.
pub open spec fn on_parsed(
    session: SessionView,
    topic: Seq<char>,
    text: Seq<char>,
    fields: Option<Seq<(Seq<char>, Seq<char>)>>,
    millis: nat,
) -> (StateView, ActionView) {
    match build_point(topic, fields) {
        Err(e) => (StateView::Idle, ActionView::Halt { failure: Failure::Payload(e), text }),
        Ok(point) => if whole_seconds(millis) <= MAX_TIMESTAMP {
            (
                StateView::Delivering,
                ActionView::Post {
                    request: write_of(session, point, whole_seconds(millis)),
                    fallback: is_default(fields_or_default(fields)),
                    text,
                },
            )
        } else {
            (StateView::Idle, ActionView::Halt { failure: Failure::Clock, text })
        },
    }
}

/// The state that follows and the action that is due, for every state and
/// event. An event that the state does not wait for drops whatever is in
/// hand: the loop is idle again and asks for the next message. So does the
/// end of a delivery, however it ended.
pub open spec fn next(
    session: SessionView,
    state: StateView,
    event: EventView,
) -> (StateView, ActionView) {
    match (state, event) {
        (StateView::Idle, EventView::Message { topic, payload }) => on_message(topic, payload),
        (StateView::Decoding { topic, text }, EventView::Parsed { fields, millis }) => on_parsed(
            session,
            topic,
            text,
            fields,
            millis,
        ),
        _ => (StateView::Idle, ActionView::Receive),
    }
}

/// The message loop of one connection: the session that it writes through
/// and the state that it is in.
pub struct MessageLoop {
    pub session: InfluxSession,
    pub state: LoopState,
}

impl MessageLoop {
    /// A loop that waits for its first message.
    pub fn new(session: InfluxSession) -> (out: MessageLoop)
        ensures
            out.session@ == session@,
            out.state@ == StateView::Idle,
    {
        MessageLoop { session, state: LoopState::Idle }
    }

    /// Takes one event, moves to the next state and says what to do.
    pub fn step(self, event: Event) -> (out: (MessageLoop, Action))
        ensures
            out.0.session@ == self.session@,
            (out.0.state@, out.1@) == next(self.session@, self.state@, event@),
            out.0.state@ is Idle <==> !(out.1@ is Parse || out.1@ is Post),
            self.state@ is Delivering ==> out.0.state@ is Idle && out.1@ is Receive,
            out.1@ is Post ==> self.state@ is Decoding && event@ is Parsed,
    {
        let MessageLoop { session, state } = self;
        match (state, event) {
            (LoopState::Idle, Event::Message { topic, payload }) => {
                if payload.is_empty() {
                    return (MessageLoop { session, state: LoopState::Idle }, Action::Receive);
                }
                match deserialize_bytes_to_str(&payload) {
                    Ok(text) => {
                        let state = LoopState::Decoding { topic, text: text.clone() };
                        (MessageLoop { session, state }, Action::Parse { text })
                    },
                    Err(e) => (
                        MessageLoop { session, state: LoopState::Idle },
                        Action::Halt { failure: Failure::Payload(e), text: String::new() },
                    ),
                }
            },
            (LoopState::Decoding { topic, text }, Event::Parsed { fields, millis }) => {
                let fallback = match &fields {
                    Some(found) => is_default_fields(found),
                    None => true,
                };
                let point = match deserialize_message(&topic, fields) {
                    Ok(point) => point,
                    Err(e) => {
                        return (
                            MessageLoop { session, state: LoopState::Idle },
                            Action::Halt { failure: Failure::Payload(e), text },
                        );
                    },
                };
                match session.push_points(point, millis) {
                    Some(request) => (
                        MessageLoop { session, state: LoopState::Delivering },
                        Action::Post { request, fallback, text },
                    ),
                    None => (
                        MessageLoop { session, state: LoopState::Idle },
                        Action::Halt { failure: Failure::Clock, text },
                    ),
                }
            },
            _ => (MessageLoop { session, state: LoopState::Idle }, Action::Receive),
        }
    }
}

} // verus!
