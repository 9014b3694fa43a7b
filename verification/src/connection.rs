//! The life of one adapter's link to its producer.
//!
//! A connection starts `Disconnected`, is opened once, and ends either
//! `Disconnected` again or in `Error`. A connection that has ended stays as
//! it is: whoever wants to connect again makes a new one.

use vstd::prelude::*;

verus! {

/// Where a connection stands.
#[derive(Clone, Copy, Debug, PartialEq, Eq, Structural)]
pub enum ConnectionState {
    Disconnected,
    Connecting,
    Connected,
    Error,
}

/// What can happen to a connection.
#[derive(Clone, Copy, Debug, PartialEq, Eq, Structural)]
pub enum Signal {
    /// The adapter starts to connect.
    Open,
    /// The link is up.
    Established,
    /// The link ended in an orderly way.
    Closed,
    /// Connecting failed, or the link broke.
    Failed,
}

/// The mathematical value of a [`Connection`].
pub struct ConnectionView {
    pub state: ConnectionState,
    /// Whether the connection has ever been opened.
    pub opened: bool,
}

impl ConnectionView {
    /// A connection that has never been opened.
    pub open spec fn fresh() -> ConnectionView {
        ConnectionView { state: ConnectionState::Disconnected, opened: false }
    }

    /// What holds of every connection that started fresh: only a connection
    /// that was opened has left `Disconnected`.
    pub open spec fn coherent(self) -> bool {
        self.state != ConnectionState::Disconnected ==> self.opened
    }

    /// The connection has ended and will never carry data again.
    pub open spec fn is_terminal(self) -> bool {
        self.state == ConnectionState::Error || (self.state == ConnectionState::Disconnected
            && self.opened)
    }

    /// Data may be published on behalf of this connection.
    pub open spec fn may_publish(self) -> bool {
        self.state == ConnectionState::Connected
    }

    /// The connection after `signal`, or nothing where the signal does not
    /// apply in the current state.
    pub open spec fn after(self, signal: Signal) -> Option<ConnectionView> {
        match (self.state, signal) {
            (ConnectionState::Disconnected, Signal::Open) => if self.opened {
                None
            } else {
                Some(ConnectionView { state: ConnectionState::Connecting, opened: true })
            },
            (ConnectionState::Connecting, Signal::Established) => Some(
                ConnectionView { state: ConnectionState::Connected, opened: true },
            ),
            (ConnectionState::Connecting, Signal::Failed) => Some(
                ConnectionView { state: ConnectionState::Error, opened: true },
            ),
            (ConnectionState::Connected, Signal::Failed) => Some(
                ConnectionView { state: ConnectionState::Error, opened: true },
            ),
            (ConnectionState::Connected, Signal::Closed) => Some(
                ConnectionView { state: ConnectionState::Disconnected, opened: true },
            ),
            _ => None,
        }
    }

    /// The connection after a signal that is ignored where it does not apply.
    pub open spec fn step(self, signal: Signal) -> ConnectionView {
        match self.after(signal) {
            Some(next) => next,
            None => self,
        }
    }

    /// The connection after a sequence of signals.
    pub open spec fn run(self, signals: Seq<Signal>) -> ConnectionView
        decreases signals.len(),
    {
        if signals.len() == 0 {
            self
        } else {
            self.run(signals.drop_last()).step(signals.last())
        }
    }
}

/// One adapter's link to its producer.
#[derive(Debug, PartialEq, Eq)]
pub struct Connection {
    state: ConnectionState,
    opened: bool,
}

impl View for Connection {
    type V = ConnectionView;

    closed spec fn view(&self) -> ConnectionView {
        ConnectionView { state: self.state, opened: self.opened }
    }
}

impl Connection {
    /// A connection that has never been opened.
    pub fn new() -> (c: Connection)
        ensures
            c@ == ConnectionView::fresh(),
    {
        Connection { state: ConnectionState::Disconnected, opened: false }
    }

    /// Where the connection stands.
    pub fn state(&self) -> (s: ConnectionState)
        ensures
            s == self@.state,
    {
        self.state
    }

    /// Whether data may be published on behalf of this connection.
    pub fn may_publish(&self) -> (r: bool)
        ensures
            r == self@.may_publish(),
    {
        match self.state {
            ConnectionState::Connected => true,
            _ => false,
        }
    }

    /// Whether the connection has ended for good.
    pub fn is_terminal(&self) -> (r: bool)
        ensures
            r == self@.is_terminal(),
    {
        match self.state {
            ConnectionState::Error => true,
            ConnectionState::Disconnected => self.opened,
            _ => false,
        }
    }

    /// Applies `signal`. Returns whether it applied; where it does not, the
    /// connection stays as it was.
    pub fn apply(&mut self, signal: Signal) -> (applied: bool)
        ensures
            applied == old(self)@.after(signal).is_some(),
            final(self)@ == old(self)@.step(signal),
    {
        match (self.state, signal) {
            (ConnectionState::Disconnected, Signal::Open) => {
                if self.opened {
                    false
                } else {
                    self.state = ConnectionState::Connecting;
                    self.opened = true;
                    true
                }
            },
            (ConnectionState::Connecting, Signal::Established) => {
                self.state = ConnectionState::Connected;
                self.opened = true;
                true
            },
            (ConnectionState::Connecting, Signal::Failed) => {
                self.state = ConnectionState::Error;
                self.opened = true;
                true
            },
            (ConnectionState::Connected, Signal::Failed) => {
                self.state = ConnectionState::Error;
                self.opened = true;
                true
            },
            (ConnectionState::Connected, Signal::Closed) => {
                self.state = ConnectionState::Disconnected;
                self.opened = true;
                true
            },
            _ => false,
        }
    }
}

/// A fresh connection is coherent, and every signal keeps a connection
/// coherent.
pub proof fn law_connection_stays_coherent(c: ConnectionView, signal: Signal)
    ensures
        ConnectionView::fresh().coherent(),
        c.coherent() ==> c.step(signal).coherent(),
{
}

/// A connection that has ended takes no signal: it never connects again.
pub proof fn law_terminal_is_final(c: ConnectionView, signal: Signal)
    requires
        c.is_terminal(),
    ensures
        c.after(signal).is_none(),
        c.step(signal) == c,
{
}

/// Whatever happens to a connection that has ended, it stays as it ended,
/// and nothing may be published on its behalf.
pub proof fn law_no_publish_after_end(c: ConnectionView, signals: Seq<Signal>)
    requires
        c.is_terminal(),
    ensures
        c.run(signals) == c,
        !c.run(signals).may_publish(),
    decreases signals.len(),
{
    if signals.len() > 0 {
        law_no_publish_after_end(c, signals.drop_last());
    }
}

/// A connection becomes `Connected` only from `Connecting`, and `Connecting`
/// only when it is opened for the first time.
pub proof fn law_connected_through_connecting(c: ConnectionView, signal: Signal)
    ensures
        c.step(signal).state == ConnectionState::Connected && c.state
            != ConnectionState::Connected ==> c.state == ConnectionState::Connecting,
        c.step(signal).state == ConnectionState::Connecting && c.state
            != ConnectionState::Connecting ==> c == ConnectionView::fresh(),
{
}

} // verus!
