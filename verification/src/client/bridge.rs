//! The bridge between the data channel and the client's standard input and
//! output, as a function from what the bridge observes to what it does next.
//!
//! Input is read in chunks and each chunk is sent as one binary message;
//! the end of input stops the reading and nothing else. Each message from
//! the channel is written to the output, in the order of arrival. The
//! bridge ends when the channel closes, when the client is interrupted or
//! another of its tasks has failed, or when the shutdown signal is seen.

use vstd::prelude::*;
use crate::client::error::CryoError;

verus! {

/// The size of the buffer that one read of standard input fills.
pub const CHUNK_SIZE: usize = 1024;

/// The bytes that a read left in `buffer`: its first `count` bytes, or all
/// of it where `count` is beyond its end.
pub open spec fn chunk_of(buffer: Seq<u8>, count: int) -> Seq<u8> {
    if 0 <= count && count < buffer.len() {
        buffer.take(count)
    } else {
        buffer
    }
}

/// Turns the result of one read into the chunk that was read. A read of no
/// bytes is the end of input.
pub fn read_chunk(buffer: Vec<u8>, count: usize) -> (r: Result<Vec<u8>, CryoError>)
    ensures
        count == 0 ==> r == Err::<Vec<u8>, CryoError>(CryoError::EndOfInput),
        count != 0 ==> (r matches Ok(chunk) && chunk@ == chunk_of(buffer@, count as int)),
{
    if count == 0 {
        return Err(CryoError::EndOfInput);
    }
    let mut chunk = buffer;
    chunk.truncate(count);
    Ok(chunk)
}

/// An empty buffer of [`CHUNK_SIZE`] bytes for the next read.
pub fn read_buffer() -> (buffer: Vec<u8>)
    ensures
        buffer@.len() == CHUNK_SIZE,
        forall|i: int| 0 <= i < buffer@.len() ==> buffer@[i] == 0,
{
    let mut buffer: Vec<u8> = Vec::new();
    let mut i: usize = 0;
    while i < CHUNK_SIZE
        invariant
            i <= CHUNK_SIZE,
            buffer@.len() == i,
            forall|k: int| 0 <= k < buffer@.len() ==> buffer@[k] == 0,
        decreases CHUNK_SIZE - i,
    {
        buffer.push(0);
        i += 1;
    }
    buffer
}

/// The state of a bridge.
#[derive(Clone, Copy, Debug, PartialEq, Eq, Structural)]
pub struct Bridge {
    /// Whether standard input is still read.
    pub reading: bool,
    /// Whether the bridge has ended.
    pub closed: bool,
}

/// What a bridge observes at one of the places where it waits.
#[derive(Debug, PartialEq, Eq)]
pub enum Event {
    /// A read of standard input returned, with `count` bytes in `buffer`.
    Input { buffer: Vec<u8>, count: usize },
    /// The data channel delivered a message.
    Message(Vec<u8>),
    /// The stream of messages from the data channel ended.
    MessagesEnded,
    /// The data channel closed.
    ChannelClosed,
    /// The client was interrupted, or another of its tasks failed.
    Aborted,
    /// The shutdown signal was seen.
    ShutdownSeen,
}

/// An event as a mathematical value.
pub enum EventView {
    Input { buffer: Seq<u8>, count: int },
    Message(Seq<u8>),
    MessagesEnded,
    ChannelClosed,
    Aborted,
    ShutdownSeen,
}

impl View for Event {
    type V = EventView;

    open spec fn view(&self) -> EventView {
        match self {
            Event::Input { buffer, count } => EventView::Input {
                buffer: buffer@,
                count: *count as int,
            },
            Event::Message(bytes) => EventView::Message(bytes@),
            Event::MessagesEnded => EventView::MessagesEnded,
            Event::ChannelClosed => EventView::ChannelClosed,
            Event::Aborted => EventView::Aborted,
            Event::ShutdownSeen => EventView::ShutdownSeen,
        }
    }
}

/// What a bridge does about an event.
#[derive(Debug, PartialEq, Eq)]
pub enum Action {
    /// Nothing.
    Idle,
    /// Send these bytes as one binary message on the data channel.
    Send(Vec<u8>),
    /// Write these bytes to standard output.
    Write(Vec<u8>),
    /// Stop reading standard input; the rest goes on.
    StopReading,
    /// Publish the shutdown signal and end.
    Shutdown,
    /// Publish the shutdown signal and end with this error.
    Fail(CryoError),
}

/// An action as a mathematical value.
pub enum ActionView {
    Idle,
    Send(Seq<u8>),
    Write(Seq<u8>),
    StopReading,
    Shutdown,
    Fail(CryoError),
}

impl View for Action {
    type V = ActionView;

    open spec fn view(&self) -> ActionView {
        match self {
            Action::Idle => ActionView::Idle,
            Action::Send(bytes) => ActionView::Send(bytes@),
            Action::Write(bytes) => ActionView::Write(bytes@),
            Action::StopReading => ActionView::StopReading,
            Action::Shutdown => ActionView::Shutdown,
            Action::Fail(error) => ActionView::Fail(*error),
        }
    }
}

/// What a bridge in `state` does about `event`, and its state afterwards.
///
/// A bridge that has ended does nothing any more. Of one that runs: input
/// is sent on as long as input is read, and its end stops the reading only;
/// a message is written out; the channel's close, an abort and the shutdown
/// signal end the bridge without an error, and the end of the stream of
/// messages ends it with one.
pub open spec fn reaction(state: Bridge, event: EventView) -> (Bridge, ActionView) {
    if state.closed {
        (state, ActionView::Idle)
    } else {
        match event {
            EventView::Input { buffer, count } => if !state.reading {
                (state, ActionView::Idle)
            } else if count == 0 {
                (Bridge { reading: false, closed: false }, ActionView::StopReading)
            } else {
                (state, ActionView::Send(chunk_of(buffer, count)))
            },
            EventView::Message(bytes) => (state, ActionView::Write(bytes)),
            EventView::MessagesEnded => (
                Bridge { reading: false, closed: true },
                ActionView::Fail(CryoError::TransportEngineFailure),
            ),
            EventView::ChannelClosed => (
                Bridge { reading: false, closed: true },
                ActionView::Shutdown,
            ),
            EventView::Aborted => (Bridge { reading: false, closed: true }, ActionView::Shutdown),
            EventView::ShutdownSeen => (Bridge { reading: false, closed: true }, ActionView::Idle),
        }
    }
}

impl Bridge {
    /// The bridge over a data channel that has just opened.
    pub fn new() -> (bridge: Bridge)
        ensures
            bridge == (Bridge { reading: true, closed: false }),
    {
        Bridge { reading: true, closed: false }
    }

    /// Decides what to do about an event, and moves to the next state.
    pub fn step(&mut self, event: Event) -> (action: Action)
        ensures
            (*final(self), action@) == reaction(*old(self), event@),
    {
        if self.closed {
            return Action::Idle;
        }
        match event {
            Event::Input { buffer, count } => {
                if !self.reading {
                    Action::Idle
                } else {
                    match read_chunk(buffer, count) {
                        Ok(chunk) => Action::Send(chunk),
                        Err(_) => {
                            self.reading = false;
                            Action::StopReading
                        },
                    }
                }
            },
            Event::Message(bytes) => Action::Write(bytes),
            Event::MessagesEnded => {
                self.reading = false;
                self.closed = true;
                Action::Fail(CryoError::TransportEngineFailure)
            },
            Event::ChannelClosed => {
                self.reading = false;
                self.closed = true;
                Action::Shutdown
            },
            Event::Aborted => {
                self.reading = false;
                self.closed = true;
                Action::Shutdown
            },
            Event::ShutdownSeen => {
                self.reading = false;
                self.closed = true;
                Action::Idle
            },
        }
    }
}

/// The end of input does not end the bridge: messages from the channel are
/// still written out afterwards.
pub proof fn lemma_end_of_input_is_not_terminal(buffer: Seq<u8>, message: Seq<u8>)
    ensures
        ({
            let start = Bridge { reading: true, closed: false };
            let (after, action) = reaction(start, EventView::Input { buffer, count: 0 });
            &&& action == ActionView::StopReading
            &&& !after.closed
            &&& reaction(after, EventView::Message(message)) == (after, ActionView::Write(message))
        }),
{
}

/// Once a bridge has ended it stays ended and does nothing, whatever it is
/// told; so the shutdown signal may be seen any number of times.
pub proof fn lemma_closed_is_final(state: Bridge, event: EventView)
    requires
        state.closed,
    ensures
        reaction(state, event) == (state, ActionView::Idle),
{
}

} // verus!
