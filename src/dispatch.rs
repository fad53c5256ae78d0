//! The inbound dispatcher of one connection: what to do with each frame.
//!
//! The frame's text is decoded before the dispatcher sees it, so a text
//! frame arrives with the codec's outcome: the record, or the decode error.

use vstd::prelude::*;

verus! {

/// One event on the read half of a connection.
pub enum Event<T, E> {
    /// A text frame, with the outcome of decoding it.
    Text(Result<T, E>),
    /// A binary frame: reserved, it changes nothing.
    Binary,
    /// A control or close frame.
    Close,
    /// The stream ended, or the transport failed.
    Ended,
}

/// What the connection's task does next.
pub enum Action<T, E> {
    /// Hand the decoded record to the consumer, in a task of its own.
    Handle(T),
    /// Drop the frame and log the decode error; keep reading.
    Discard(E),
    /// Nothing to do; keep reading.
    Ignore,
    /// Stop reading, and remove the write handle with this identifier from
    /// the registry.
    Stop(u64),
}

/// The next state (whether the connection is still read) and the action
/// for one event.
pub open spec fn step<T, E>(open: bool, conn: u64, ev: Event<T, E>) -> (bool, Action<T, E>) {
    if !open {
        (false, Action::Ignore)
    } else {
        match ev {
            Event::Text(Ok(t)) => (true, Action::Handle(t)),
            Event::Text(Err(e)) => (true, Action::Discard(e)),
            Event::Binary => (true, Action::Ignore),
            Event::Close => (false, Action::Stop(conn)),
            Event::Ended => (false, Action::Stop(conn)),
        }
    }
}

/// The dispatcher state of one connection.
pub struct Dispatcher {
    conn: u64,
    open: bool,
}

impl Dispatcher {
    /// The registry identifier of this connection's write handle.
    pub closed spec fn conn(&self) -> u64 {
        self.conn
    }

    /// Whether frames are still read.
    pub closed spec fn open(&self) -> bool {
        self.open
    }

    /// A dispatcher for the connection whose write handle is registered
    /// under `conn`.
    pub fn new(conn: u64) -> (r: Self)
        ensures
            r.conn() == conn,
            r.open(),
    {
        Dispatcher { conn, open: true }
    }

    /// Whether frames are still read.
    pub fn is_open(&self) -> (r: bool)
        ensures
            r == self.open(),
    {
        self.open
    }

    /// Decides on one event. A decode failure never ends the connection;
    /// a close, control frame, end of stream or transport error ends it and
    /// asks once for the removal of its write handle.
    pub fn on_event<T, E>(&mut self, ev: Event<T, E>) -> (r: Action<T, E>)
        ensures
            final(self).conn() == old(self).conn(),
            (final(self).open(), r) == step(old(self).open(), old(self).conn(), ev),
    {
        if !self.open {
            return Action::Ignore;
        }
        match ev {
            Event::Text(Ok(t)) => Action::Handle(t),
            Event::Text(Err(e)) => Action::Discard(e),
            Event::Binary => Action::Ignore,
            Event::Close | Event::Ended => {
                self.open = false;
                Action::Stop(self.conn)
            },
        }
    }
}

/// A frame that fails to decode does not end an open connection's reading,
/// and a well-formed frame after it is still handed to the consumer.
pub proof fn lemma_malformed_frame_resilience<T, E>(d: Dispatcher, bad: E, good: T)
    requires
        d.open(),
    ensures
        step(d.open(), d.conn(), Event::<T, E>::Text(Err(bad))) == (
        true,
        Action::<T, E>::Discard(bad),
        ),
        step(true, d.conn(), Event::<T, E>::Text(Ok(good))) == (true, Action::<T, E>::Handle(good)),
{
}

} // verus!
