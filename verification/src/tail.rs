//! The source tailer: one per input file.  The library decides; the
//! caller opens, seeks, reads, sends and sleeps, and reports back what
//! happened.

use crate::text::{ends_of, last_of, string_pop};
use std::path::PathBuf;
use vstd::prelude::*;

verus! {

/// How long a following tailer waits at the end of its file before it
/// looks again, in milliseconds.
pub const POLL_INTERVAL_MS: u64 = 200;

/// How many lines may wait between the tailers and the state.
pub const CHANNEL_CAPACITY: usize = 1024;

/// A file to tail.  With `follow` only what is appended after the tailer
/// has attached is read, without end; without it the file is read from its
/// start to its end.
#[derive(Debug)]
pub struct FileTail {
    pub path: PathBuf,
    pub follow: bool,
}

/// Where a tailer stands.
#[derive(Debug, Clone, Copy, PartialEq, Eq, Structural)]
pub enum TailState {
    /// The file is being opened.
    Opening,
    /// The file is open and the read position is being moved to its end.
    Seeking,
    /// Reading a file that is followed.
    Following,
    /// Reading a file to its end.
    Draining,
    /// At the end of a followed file, waiting for more.
    Idle,
    /// Done.
    Closed,
}

/// What the caller reports to a tailer.
#[derive(Debug, Clone, PartialEq, Eq)]
pub enum TailEvent {
    /// The file was opened.
    Opened,
    /// The read position stands at the end of the file.
    Sought,
    /// A line was read, with its terminator if it had one.
    Line(String),
    /// The end of the file was reached.
    EndOfFile,
    /// The line was handed to the transport.
    Sent,
    /// The transport has lost its receiver.
    ReceiverGone,
    /// The wait is over.
    Woke,
    /// Opening, seeking or reading failed.
    Failed,
}

/// How a tailer ended.
#[derive(Debug, Clone, Copy, PartialEq, Eq, Structural)]
pub enum TailOutcome {
    /// The file was read to its end, or the receiver went away: a normal
    /// end.
    Finished,
    /// The file could not be opened or read, or an event came that the
    /// tailer was not waiting for.
    Failed,
}

/// What a tailer asks of its caller.
#[derive(Debug, Clone, PartialEq, Eq)]
pub enum TailAction {
    /// Open the file.
    Open,
    /// Move the read position to the end of the file.
    SeekToEnd,
    /// Read the next line.
    ReadLine,
    /// Send the line, tagged with the source id, and wait for room if the
    /// transport is full.
    Send(usize, String),
    /// Wait for so many milliseconds.
    Sleep(u64),
    /// Stop.
    Stop(TailOutcome),
}

/// A line without its terminator: one trailing line feed is taken off,
/// then one trailing carriage return.
pub open spec fn trimmed(raw: Seq<char>) -> Seq<char> {
    let fed = if last_of(raw) == Some('\n') {
        raw.drop_last()
    } else {
        raw
    };
    if last_of(fed) == Some('\r') {
        fed.drop_last()
    } else {
        fed
    }
}

/// Takes the line terminator off a line as it was read.
pub fn trim_line_end(raw: String) -> (line: String)
    ensures
        line@ == trimmed(raw@),
{
    let mut line = raw;
    let (_, last) = ends_of(line.as_str());
    if last == Some('\n') {
        let _ = string_pop(&mut line);
    }
    let (_, last) = ends_of(line.as_str());
    if last == Some('\r') {
        let _ = string_pop(&mut line);
    }
    line
}

/// A request as a plain value: a line to send is given by its text.
pub enum Request {
    Open,
    SeekToEnd,
    ReadLine,
    Send(usize, Seq<char>),
    Sleep(u64),
    Stop(TailOutcome),
}

impl View for TailAction {
    type V = Request;

    open spec fn view(&self) -> Request {
        match self {
            TailAction::Open => Request::Open,
            TailAction::SeekToEnd => Request::SeekToEnd,
            TailAction::ReadLine => Request::ReadLine,
            TailAction::Send(id, line) => Request::Send(*id, line@),
            TailAction::Sleep(ms) => Request::Sleep(*ms),
            TailAction::Stop(outcome) => Request::Stop(*outcome),
        }
    }
}

/// The step that ends a tailer as failed.
pub open spec fn failed_step() -> (TailState, Request) {
    (TailState::Closed, Request::Stop(TailOutcome::Failed))
}

/// The state and the request that follow an event.
///
/// Opening leads to reading, for a followed file by way of a seek to its
/// end.  A line read is sent without its terminator, and a line sent is
/// followed by the next read.  At the end of the file a followed tailer
/// waits and reads again, any other finishes.  A lost receiver finishes the
/// tailer; a failure, or an event that the state does not wait for, ends it
/// as failed.  A closed tailer stays closed.
pub open spec fn next_step(tailer: Tailer, event: TailEvent) -> (TailState, Request) {
    let state = tailer.state;
    let reading = state == TailState::Following || state == TailState::Draining;
    match event {
        TailEvent::Opened => if state != TailState::Opening {
            failed_step()
        } else if tailer.follow {
            (TailState::Seeking, Request::SeekToEnd)
        } else {
            (TailState::Draining, Request::ReadLine)
        },
        TailEvent::Sought => if state == TailState::Seeking {
            (TailState::Following, Request::ReadLine)
        } else {
            failed_step()
        },
        TailEvent::Line(raw) => if reading {
            (state, Request::Send(tailer.source_id, trimmed(raw@)))
        } else {
            failed_step()
        },
        TailEvent::Sent => if reading {
            (state, Request::ReadLine)
        } else {
            failed_step()
        },
        TailEvent::EndOfFile => if state == TailState::Following {
            (TailState::Idle, Request::Sleep(POLL_INTERVAL_MS))
        } else if state == TailState::Draining {
            (TailState::Closed, Request::Stop(TailOutcome::Finished))
        } else {
            failed_step()
        },
        TailEvent::ReceiverGone => if reading {
            (TailState::Closed, Request::Stop(TailOutcome::Finished))
        } else {
            failed_step()
        },
        TailEvent::Woke => if state == TailState::Idle {
            (TailState::Following, Request::ReadLine)
        } else {
            failed_step()
        },
        TailEvent::Failed => failed_step(),
    }
}

/// A running tailer: the mode and the id of its source, and where it
/// stands.
#[derive(Debug, Clone, Copy, PartialEq, Eq, Structural)]
pub struct Tailer {
    pub follow: bool,
    pub source_id: usize,
    pub state: TailState,
}

impl FileTail {
    /// A file to tail.
    pub fn new(path: PathBuf, follow: bool) -> (tail: FileTail)
        ensures
            tail.path == path,
            tail.follow == follow,
    {
        FileTail { path, follow }
    }

    /// A tailer for this file as source `source_id`, about to open it.
    pub fn tailer(&self, source_id: usize) -> (t: Tailer)
        ensures
            t == (Tailer { follow: self.follow, source_id, state: TailState::Opening }),
    {
        Tailer { follow: self.follow, source_id, state: TailState::Opening }
    }
}

impl Tailer {
    /// The tailer has ended.
    pub fn is_closed(&self) -> (b: bool)
        ensures
            b == (self.state == TailState::Closed),
    {
        self.state == TailState::Closed
    }

    /// The first request of a tailer: to open its file.
    pub fn start(&self) -> (action: TailAction)
        ensures
            action == TailAction::Open,
    {
        TailAction::Open
    }

    /// Takes an event and says what to do next.
    pub fn on_event(&mut self, event: TailEvent) -> (action: TailAction)
        ensures
            *final(self) == (Tailer { state: next_step(*old(self), event).0, ..*old(self) }),
            action@ == next_step(*old(self), event).1,
    {
        let state = self.state;
        let reading = state == TailState::Following || state == TailState::Draining;
        let mut next = TailState::Closed;
        let mut action = TailAction::Stop(TailOutcome::Failed);
        match event {
            TailEvent::Opened => {
                if state == TailState::Opening {
                    if self.follow {
                        next = TailState::Seeking;
                        action = TailAction::SeekToEnd;
                    } else {
                        next = TailState::Draining;
                        action = TailAction::ReadLine;
                    }
                }
            },
            TailEvent::Sought => {
                if state == TailState::Seeking {
                    next = TailState::Following;
                    action = TailAction::ReadLine;
                }
            },
            TailEvent::Line(raw) => {
                if reading {
                    next = state;
                    action = TailAction::Send(self.source_id, trim_line_end(raw));
                }
            },
            TailEvent::Sent => {
                if reading {
                    next = state;
                    action = TailAction::ReadLine;
                }
            },
            TailEvent::EndOfFile => {
                if state == TailState::Following {
                    next = TailState::Idle;
                    action = TailAction::Sleep(POLL_INTERVAL_MS);
                } else if state == TailState::Draining {
                    action = TailAction::Stop(TailOutcome::Finished);
                }
            },
            TailEvent::ReceiverGone => {
                if reading {
                    action = TailAction::Stop(TailOutcome::Finished);
                }
            },
            TailEvent::Woke => {
                if state == TailState::Idle {
                    next = TailState::Following;
                    action = TailAction::ReadLine;
                }
            },
            TailEvent::Failed => {},
        }
        self.state = next;
        action
    }
}

} // verus!
