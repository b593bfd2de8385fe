//! One exchange on the control channel, as a state machine: the driver
//! performs each action (read the store, write the store, answer the
//! caller) and hands back what came of it as the next event.
use vstd::prelude::*;
use crate::command::{applied, command_of, parse_command, Command};
use crate::store::{parse_value, render_value, store_text, stored_value};

verus! {

/// The answer sent back to a caller.
#[derive(Clone, Copy, Debug, PartialEq, Eq, Structural)]
pub enum Reply {
    Changed,
    CannotChange,
    Invalid,
}

pub open spec fn reply_text(reply: Reply) -> Seq<char> {
    match reply {
        Reply::Changed => "Ok\n"@,
        Reply::CannotChange => "Error: Cannot change brightness\n"@,
        Reply::Invalid => "Invalid request\n"@,
    }
}

impl Reply {
    /// The line sent to the caller for this answer.
    pub fn text(&self) -> (r: &'static str)
        ensures
            r@ == reply_text(*self),
    {
        match self {
            Reply::Changed => "Ok\n",
            Reply::CannotChange => "Error: Cannot change brightness\n",
            Reply::Invalid => "Invalid request\n",
        }
    }
}

/// Where an exchange stands.
#[derive(Clone, Copy, Debug, PartialEq, Eq, Structural)]
pub enum Phase {
    /// Waiting for the caller's request.
    Receiving,
    /// Waiting for the current brightness, to carry out the command.
    Fetching(Command),
    /// Waiting for the new brightness to be written.
    Storing,
    /// Nothing is left to do on this connection.
    Done,
}

/// What the driver saw after its last action.
#[derive(Debug, PartialEq, Eq)]
pub enum Event {
    /// The caller's request arrived, with these bytes.
    Received(Vec<u8>),
    /// Reading from the caller failed.
    ReceiveFailed,
    /// The store of the current brightness holds this text.
    Fetched(Vec<u8>),
    /// The store of the current brightness could not be read.
    FetchFailed,
    /// The new brightness was written.
    Stored,
    /// The store refused the new brightness.
    StoreFailed,
}

/// What the driver is to do next.
#[derive(Debug, PartialEq, Eq)]
pub enum Action {
    /// Read the store of the current brightness.
    FetchCurrent,
    /// Write this text to the store of the current brightness.
    Store(Vec<u8>),
    /// Send this answer to the caller; the exchange is over.
    Respond(Reply),
    /// Close the connection without an answer.
    Close,
}

/// The step of an exchange from `phase` on `event`, for a store whose
/// maximum is `max`: `next` is the new phase and `action` what to do.
pub open spec fn steps_to(max: u32, phase: Phase, event: Event, next: Phase, action: Action) -> bool {
    match (phase, event) {
        (Phase::Receiving, Event::Received(request)) => match command_of(request@) {
            Some(c) => next == Phase::Fetching(c) && action == Action::FetchCurrent,
            None => next == Phase::Done && action == Action::Respond(Reply::Invalid),
        },
        (Phase::Receiving, Event::ReceiveFailed) => {
            next == Phase::Done && action == Action::Close
        },
        (Phase::Fetching(c), Event::Fetched(text)) => match stored_value(text@) {
            Some(v) => next == Phase::Storing && match action {
                Action::Store(out) => out@ == store_text(applied(c, max as int, v as int) as nat),
                _ => false,
            },
            None => next == Phase::Done && action == Action::Respond(Reply::CannotChange),
        },
        (Phase::Fetching(_), Event::FetchFailed) => {
            next == Phase::Done && action == Action::Respond(Reply::CannotChange)
        },
        (Phase::Storing, Event::Stored) => {
            next == Phase::Done && action == Action::Respond(Reply::Changed)
        },
        (Phase::Storing, Event::StoreFailed) => {
            next == Phase::Done && action == Action::Respond(Reply::CannotChange)
        },
        _ => next == Phase::Done && action == Action::Close,
    }
}

/// The daemon's decisions, for a backlight whose maximum brightness is
/// fixed at start-up and is above zero.
pub struct Server {
    max: u32,
}

impl Server {
    #[verifier::type_invariant]
    spec fn inv(&self) -> bool {
        self.max > 0
    }

    /// The maximum brightness of the backlight.
    pub closed spec fn maximum(&self) -> u32 {
        self.max
    }

    /// A server for a backlight whose maximum brightness is `max`; `None`
    /// when `max` is zero, which no backlight can serve with.
    pub fn new(max: u32) -> (r: Option<Server>)
        ensures
            r is Some <==> max > 0,
            r matches Some(s) ==> s.maximum() == max,
    {
        if max > 0 {
            Some(Server { max })
        } else {
            None
        }
    }

    /// The maximum brightness of the backlight.
    pub fn max_brightness(&self) -> (r: u32)
        ensures
            r == self.maximum(),
            r > 0,
    {
        proof {
            use_type_invariant(self);
        }
        self.max
    }

    /// The phase in which every exchange starts.
    pub fn start(&self) -> (r: Phase)
        ensures
            r == Phase::Receiving,
    {
        Phase::Receiving
    }

    /// Moves an exchange from `phase` on `event`: the new phase and the
    /// action for the driver.
    pub fn next(&self, phase: Phase, event: Event) -> (r: (Phase, Action))
        ensures
            steps_to(self.maximum(), phase, event, r.0, r.1),
    {
        match (phase, event) {
            (Phase::Receiving, Event::Received(request)) => match parse_command(request.as_slice()) {
                Some(c) => (Phase::Fetching(c), Action::FetchCurrent),
                None => (Phase::Done, Action::Respond(Reply::Invalid)),
            },
            (Phase::Receiving, Event::ReceiveFailed) => (Phase::Done, Action::Close),
            (Phase::Fetching(c), Event::Fetched(text)) => match parse_value(text.as_slice()) {
                Ok(v) => {
                    let new = c.apply(self.max, v);
                    (Phase::Storing, Action::Store(render_value(new)))
                },
                Err(_) => (Phase::Done, Action::Respond(Reply::CannotChange)),
            },
            (Phase::Fetching(_), Event::FetchFailed) => (
                Phase::Done,
                Action::Respond(Reply::CannotChange),
            ),
            (Phase::Storing, Event::Stored) => (Phase::Done, Action::Respond(Reply::Changed)),
            (Phase::Storing, Event::StoreFailed) => (
                Phase::Done,
                Action::Respond(Reply::CannotChange),
            ),
            _ => (Phase::Done, Action::Close),
        }
    }
}

} // verus!
