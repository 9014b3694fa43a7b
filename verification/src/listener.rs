//! The emulator listener: the decisions of the adapter that accepts the
//! emulator's connection and turns what it reads into events.
//!
//! The listener does no input or output itself. Its caller binds the socket,
//! accepts the connection and reads from it, reports each outcome to
//! [`EmulatorListener::step`], publishes the event that comes back, if any,
//! and afterwards does what the returned directive says.

use crate::connection::{Connection, ConnectionState, ConnectionView, Signal};
use crate::event::{ns_emulator_error, ns_emulator_message, Event, EventView, PayloadView};
use crate::frame::{decode, decode_frame};
use vstd::prelude::*;

verus! {

/// The port on which the emulator connects unless another is configured.
pub const DEFAULT_EMULATOR_PORT: u16 = 8080;

/// What to do with a read that is no well-formed frame.
#[derive(Clone, Copy, Debug, PartialEq, Eq, Structural)]
pub enum FramePolicy {
    /// Skip the malformed read and go on reading.
    Tolerant,
    /// Give the connection up.
    Strict,
}

/// What one attempt to read from the connection gave.
#[derive(Clone, Debug, PartialEq, Eq)]
pub enum ReadOutcome {
    /// These bytes arrived. No bytes at all is a read that changes nothing.
    Data(Vec<u8>),
    /// Nothing is there yet.
    WouldBlock,
    /// The peer closed the connection.
    Closed,
    /// Reading failed, with this message.
    Failed(String),
}

/// The mathematical value of a [`ReadOutcome`].
pub enum ReadOutcomeView {
    Data(Seq<u8>),
    WouldBlock,
    Closed,
    Failed(Seq<char>),
}

impl View for ReadOutcome {
    type V = ReadOutcomeView;

    open spec fn view(&self) -> ReadOutcomeView {
        match self {
            ReadOutcome::Data(bytes) => ReadOutcomeView::Data(bytes@),
            ReadOutcome::WouldBlock => ReadOutcomeView::WouldBlock,
            ReadOutcome::Closed => ReadOutcomeView::Closed,
            ReadOutcome::Failed(message) => ReadOutcomeView::Failed(message@),
        }
    }
}

/// What the caller reports to the listener.
#[derive(Clone, Debug, PartialEq, Eq)]
pub enum ListenerInput {
    /// The adapter's task has started.
    Start,
    /// The socket is bound and listens.
    Bound,
    /// Binding failed, with this message.
    BindFailed(String),
    /// A connection was accepted.
    Accepted,
    /// Accepting failed, with this message.
    AcceptFailed(String),
    /// An attempt to read ended.
    Read(ReadOutcome),
}

/// The mathematical value of a [`ListenerInput`].
pub enum ListenerInputView {
    Start,
    Bound,
    BindFailed(Seq<char>),
    Accepted,
    AcceptFailed(Seq<char>),
    Read(ReadOutcomeView),
}

impl View for ListenerInput {
    type V = ListenerInputView;

    open spec fn view(&self) -> ListenerInputView {
        match self {
            ListenerInput::Start => ListenerInputView::Start,
            ListenerInput::Bound => ListenerInputView::Bound,
            ListenerInput::BindFailed(message) => ListenerInputView::BindFailed(message@),
            ListenerInput::Accepted => ListenerInputView::Accepted,
            ListenerInput::AcceptFailed(message) => ListenerInputView::AcceptFailed(message@),
            ListenerInput::Read(outcome) => ListenerInputView::Read(outcome@),
        }
    }
}

/// What the caller is to do next.
#[derive(Clone, Copy, Debug, PartialEq, Eq, Structural)]
pub enum Directive {
    /// Bind the listening socket on this port, once.
    Bind { port: u16 },
    /// Wait for a connection.
    Accept,
    /// Wait until the connection is readable and try to read.
    Read,
    /// End the adapter's task.
    Stop,
}

/// The listener's answer to one input.
#[derive(Debug, PartialEq, Eq)]
pub struct ListenerOutput {
    /// The event to publish, if any.
    pub publish: Option<Event>,
    /// What to do after that.
    pub next: Directive,
}

/// The mathematical value of a [`ListenerOutput`].
pub struct ListenerOutputView {
    pub publish: Option<EventView>,
    pub next: Directive,
}

impl View for ListenerOutput {
    type V = ListenerOutputView;

    open spec fn view(&self) -> ListenerOutputView {
        ListenerOutputView {
            publish: match self.publish {
                Some(event) => Some(event@),
                None => None,
            },
            next: self.next,
        }
    }
}

/// The mathematical value of an [`EmulatorListener`].
pub struct ListenerView {
    pub port: u16,
    pub policy: FramePolicy,
    pub connection: ConnectionView,
    /// Whether the socket is bound.
    pub listening: bool,
}

/// The event that a decoded message is published as.
pub open spec fn message_event(body: Seq<char>) -> EventView {
    EventView { namespace: ns_emulator_message(), payload: PayloadView::Text(body) }
}

/// The event that a failure to bind is published as.
pub open spec fn bind_error_event(message: Seq<char>) -> EventView {
    EventView { namespace: ns_emulator_error(), payload: PayloadView::Text(message) }
}

/// An answer that publishes nothing.
pub open spec fn quiet(next: Directive) -> ListenerOutputView {
    ListenerOutputView { publish: None, next }
}

impl ListenerView {
    /// What holds of every listener that was made by
    /// [`EmulatorListener::new`] and driven by [`EmulatorListener::step`]:
    /// only a connection that was opened has left `Disconnected`, and only a
    /// listener that was started has a socket.
    pub open spec fn coherent(self) -> bool {
        &&& self.connection.coherent()
        &&& self.listening ==> self.connection.opened
    }

    /// The listener with its connection after `signal`.
    pub open spec fn signalled(self, signal: Signal) -> ListenerView {
        ListenerView { connection: self.connection.step(signal), ..self }
    }

    /// The listener's answer to what a read gave, while it serves a
    /// connection.
    pub open spec fn on_read(self, outcome: ReadOutcomeView) -> (ListenerView, ListenerOutputView) {
        match outcome {
            ReadOutcomeView::Data(bytes) => if bytes.len() == 0 {
                (self, quiet(Directive::Read))
            } else {
                match decode(bytes) {
                    Ok(frame) => (
                        self,
                        ListenerOutputView {
                            publish: Some(message_event(frame.body)),
                            next: Directive::Read,
                        },
                    ),
                    Err(_) => match self.policy {
                        FramePolicy::Tolerant => (self, quiet(Directive::Read)),
                        FramePolicy::Strict => (
                            self.signalled(Signal::Failed),
                            quiet(Directive::Stop),
                        ),
                    },
                }
            },
            ReadOutcomeView::WouldBlock => (self, quiet(Directive::Read)),
            ReadOutcomeView::Closed => (self.signalled(Signal::Closed), quiet(Directive::Stop)),
            ReadOutcomeView::Failed(_) => (self.signalled(Signal::Failed), quiet(Directive::Stop)),
        }
    }

    /// The listener's next state and its answer to `input`.
    ///
    /// An input that does not belong to the current state changes nothing and
    /// publishes nothing; the answer repeats what the listener waits
    /// for, or says `Stop` where it waits for nothing.
    pub open spec fn step(self, input: ListenerInputView) -> (ListenerView, ListenerOutputView) {
        match self.connection.state {
            ConnectionState::Disconnected => match input {
                ListenerInputView::Start => if self.connection.opened {
                    (self, quiet(Directive::Stop))
                } else {
                    (
                        ListenerView { listening: false, ..self.signalled(Signal::Open) },
                        quiet(Directive::Bind { port: self.port }),
                    )
                },
                _ => (self, quiet(Directive::Stop)),
            },
            ConnectionState::Connecting => if !self.listening {
                match input {
                    ListenerInputView::Bound => (
                        ListenerView { listening: true, ..self },
                        quiet(Directive::Accept),
                    ),
                    ListenerInputView::BindFailed(message) => (
                        self.signalled(Signal::Failed),
                        ListenerOutputView {
                            publish: Some(bind_error_event(message)),
                            next: Directive::Stop,
                        },
                    ),
                    _ => (self, quiet(Directive::Bind { port: self.port })),
                }
            } else {
                match input {
                    ListenerInputView::Accepted => (
                        self.signalled(Signal::Established),
                        quiet(Directive::Read),
                    ),
                    ListenerInputView::AcceptFailed(_) => (
                        self.signalled(Signal::Failed),
                        quiet(Directive::Stop),
                    ),
                    _ => (self, quiet(Directive::Accept)),
                }
            },
            ConnectionState::Connected => match input {
                ListenerInputView::Read(outcome) => self.on_read(outcome),
                _ => (self, quiet(Directive::Read)),
            },
            ConnectionState::Error => (self, quiet(Directive::Stop)),
        }
    }
}

/// The adapter that serves the emulator's connection.
#[derive(Debug, PartialEq, Eq)]
pub struct EmulatorListener {
    port: u16,
    policy: FramePolicy,
    connection: Connection,
    listening: bool,
}

impl View for EmulatorListener {
    type V = ListenerView;

    closed spec fn view(&self) -> ListenerView {
        ListenerView {
            port: self.port,
            policy: self.policy,
            connection: self.connection@,
            listening: self.listening,
        }
    }
}

impl EmulatorListener {
    /// A listener for `port` that has not started yet.
    pub fn new(port: u16, policy: FramePolicy) -> (listener: EmulatorListener)
        ensures
            listener@ == (ListenerView {
                port,
                policy,
                connection: ConnectionView::fresh(),
                listening: false,
            }),
            listener@.coherent(),
    {
        EmulatorListener { port, policy, connection: Connection::new(), listening: false }
    }

    /// Where the listener's connection stands.
    pub fn state(&self) -> (s: ConnectionState)
        ensures
            s == self@.connection.state,
    {
        self.connection.state()
    }

    /// Takes one input and says what to publish and what to do next.
    pub fn step(&mut self, input: ListenerInput) -> (output: ListenerOutput)
        ensures
            (final(self)@, output@) == old(self)@.step(input@),
    {
        match self.connection.state() {
            ConnectionState::Disconnected => match input {
                ListenerInput::Start => {
                    if self.connection.apply(Signal::Open) {
                        self.listening = false;
                        ListenerOutput { publish: None, next: Directive::Bind { port: self.port } }
                    } else {
                        ListenerOutput { publish: None, next: Directive::Stop }
                    }
                },
                _ => ListenerOutput { publish: None, next: Directive::Stop },
            },
            ConnectionState::Connecting => {
                if !self.listening {
                    match input {
                        ListenerInput::Bound => {
                            self.listening = true;
                            ListenerOutput { publish: None, next: Directive::Accept }
                        },
                        ListenerInput::BindFailed(message) => {
                            self.connection.apply(Signal::Failed);
                            ListenerOutput {
                                publish: Some(Event::emulator_error(message)),
                                next: Directive::Stop,
                            }
                        },
                        _ => ListenerOutput {
                            publish: None,
                            next: Directive::Bind { port: self.port },
                        },
                    }
                } else {
                    match input {
                        ListenerInput::Accepted => {
                            self.connection.apply(Signal::Established);
                            ListenerOutput { publish: None, next: Directive::Read }
                        },
                        ListenerInput::AcceptFailed(_) => {
                            self.connection.apply(Signal::Failed);
                            ListenerOutput { publish: None, next: Directive::Stop }
                        },
                        _ => ListenerOutput { publish: None, next: Directive::Accept },
                    }
                }
            },
            ConnectionState::Connected => match input {
                ListenerInput::Read(outcome) => self.on_read(outcome),
                _ => ListenerOutput { publish: None, next: Directive::Read },
            },
            ConnectionState::Error => ListenerOutput { publish: None, next: Directive::Stop },
        }
    }

    /// Takes what a read gave while the connection is served.
    fn on_read(&mut self, outcome: ReadOutcome) -> (output: ListenerOutput)
        requires
            old(self)@.connection.state == ConnectionState::Connected,
        ensures
            (final(self)@, output@) == old(self)@.on_read(outcome@),
    {
        match outcome {
            ReadOutcome::Data(bytes) => {
                if bytes.len() == 0 {
                    ListenerOutput { publish: None, next: Directive::Read }
                } else {
                    match decode_frame(bytes.as_slice()) {
                        Ok(frame) => ListenerOutput {
                            publish: Some(Event::emulator_message(frame.body)),
                            next: Directive::Read,
                        },
                        Err(_) => match self.policy {
                            FramePolicy::Tolerant => ListenerOutput {
                                publish: None,
                                next: Directive::Read,
                            },
                            FramePolicy::Strict => {
                                self.connection.apply(Signal::Failed);
                                ListenerOutput { publish: None, next: Directive::Stop }
                            },
                        },
                    }
                }
            },
            ReadOutcome::WouldBlock => ListenerOutput { publish: None, next: Directive::Read },
            ReadOutcome::Closed => {
                self.connection.apply(Signal::Closed);
                ListenerOutput { publish: None, next: Directive::Stop }
            },
            ReadOutcome::Failed(_) => {
                self.connection.apply(Signal::Failed);
                ListenerOutput { publish: None, next: Directive::Stop }
            },
        }
    }
}

/// The listener publishes a message only while its connection is up, and an
/// error only when binding fails; an error ends the connection.
pub proof fn law_listener_publishes_while_live(s: ListenerView, input: ListenerInputView)
    ensures
        s.step(input).1.publish matches Some(event) ==> {
            ||| s.connection.may_publish() && event.namespace == ns_emulator_message()
            ||| s.connection.state == ConnectionState::Connecting && event.namespace
                == ns_emulator_error() && s.step(input).0.connection.state
                == ConnectionState::Error
        },
{
}

/// The socket is bound once. A listener whose socket is bound never asks to
/// bind again, whatever it is told, and its socket stays bound.
pub proof fn law_socket_is_bound_once(s: ListenerView, input: ListenerInputView)
    requires
        s.listening,
        s.connection.opened,
    ensures
        !(s.step(input).1.next is Bind),
        s.step(input).0.listening,
        s.step(input).0.connection.opened,
{
}

/// Every step keeps a listener coherent, and a listener asks to bind only
/// while it has no socket and its connection is being opened.
pub proof fn law_bind_follows_start(s: ListenerView, input: ListenerInputView)
    requires
        s.coherent(),
    ensures
        s.step(input).0.coherent(),
        s.step(input).1.next is Bind ==> !s.step(input).0.listening && s.step(
            input,
        ).0.connection.state == ConnectionState::Connecting,
{
}

/// Once its connection has ended, the listener stays as it is, publishes
/// nothing and says `Stop`, whatever it is told.
pub proof fn law_listener_stops_for_good(s: ListenerView, input: ListenerInputView)
    requires
        s.connection.is_terminal(),
    ensures
        s.step(input) == (s, quiet(Directive::Stop)),
{
}

/// A read that is no well-formed frame never ends the process and never
/// publishes: a tolerant listener goes on reading with its state unchanged,
/// a strict one gives up this connection only.
pub proof fn law_malformed_read_is_contained(s: ListenerView, bytes: Seq<u8>)
    requires
        s.connection.state == ConnectionState::Connected,
        bytes.len() > 0,
        decode(bytes) is Err,
    ensures
        s.step(ListenerInputView::Read(ReadOutcomeView::Data(bytes))).1.publish is None,
        s.policy == FramePolicy::Tolerant ==> s.step(
            ListenerInputView::Read(ReadOutcomeView::Data(bytes)),
        ) == (s, quiet(Directive::Read)),
        s.policy == FramePolicy::Strict ==> s.step(
            ListenerInputView::Read(ReadOutcomeView::Data(bytes)),
        ).1.next == Directive::Stop && s.step(
            ListenerInputView::Read(ReadOutcomeView::Data(bytes)),
        ).0.connection.state == ConnectionState::Error,
{
}

} // verus!
