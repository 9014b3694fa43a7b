//! The control-surface client: the decisions of the adapter that talks to
//! the streaming software.
//!
//! The client makes one authenticated connection. Once it is up, two
//! sub-adapters share it: one takes the notifications that the producer
//! pushes and republishes the mute state of one configured input, the other
//! asks for the streaming status at a fixed interval and republishes the
//! answer. The client does no input or output itself: its caller performs
//! what the directives say and reports what happened.

use crate::connection::{Connection, ConnectionState, ConnectionView, Signal};
use crate::event::{
    ns_microphone, ns_status, ns_surface_error, Event, EventView, MicrophoneStatus, PayloadView,
};
use crate::text::string_views;
use vstd::prelude::*;
use vstd::string::*;

verus! {

/// Seconds between two status requests.
pub const STATUS_POLL_INTERVAL_SECS: u64 = 1;

/// The port of the control surface unless another is configured.
pub const DEFAULT_SURFACE_PORT: u16 = 4455;

/// What is published when no credential is configured.
pub open spec fn missing_credential_message() -> Seq<char> {
    "OBS_WEBSOCKET_PASSWORD not set in .env file."@
}

/// The name of the action that refreshes an input.
pub open spec fn refresh_action() -> Seq<char> {
    "refreshnocache"@
}

/// The name of the action that refreshes an input.
pub fn refresh_action_name() -> (name: &'static str)
    ensures
        name@ == refresh_action(),
{
    "refreshnocache"
}

/// A notification pushed by the producer, as far as the bridge reads it.
#[derive(Clone, Debug, PartialEq, Eq)]
pub enum Notification {
    /// The input called `name` was muted or unmuted.
    InputMuteStateChanged { name: String, muted: bool },
    /// Any other notification.
    Other,
}

/// The mathematical value of a [`Notification`].
pub enum NotificationView {
    InputMuteStateChanged { name: Seq<char>, muted: bool },
    Other,
}

impl View for Notification {
    type V = NotificationView;

    open spec fn view(&self) -> NotificationView {
        match self {
            Notification::InputMuteStateChanged { name, muted } => {
                NotificationView::InputMuteStateChanged { name: name@, muted: *muted }
            },
            Notification::Other => NotificationView::Other,
        }
    }
}

/// The mute state that a notification reports for the input called
/// `microphone`: that of a mute change whose input name is exactly
/// `microphone`, and nothing for every other notification.
pub open spec fn microphone_change(microphone: Seq<char>, notification: NotificationView) -> Option<
    MicrophoneStatus,
> {
    match notification {
        NotificationView::InputMuteStateChanged { name, muted } => if name == microphone {
            Some(MicrophoneStatus { muted })
        } else {
            None
        },
        NotificationView::Other => None,
    }
}

/// The mute state that `notification` reports for the input called
/// `microphone`, if it reports one. The name must match exactly.
pub fn microphone_update(microphone: &String, notification: &Notification) -> (r: Option<
    MicrophoneStatus,
>)
    ensures
        r == microphone_change(microphone@, notification@),
{
    match notification {
        Notification::InputMuteStateChanged { name, muted } => {
            if *name == *microphone {
                Some(MicrophoneStatus { muted: *muted })
            } else {
                None
            }
        },
        Notification::Other => None,
    }
}

/// What the caller reports to the client.
#[derive(Clone, Debug, PartialEq, Eq)]
pub enum SurfaceInput {
    /// The adapter's task has started, with the credential if one is set.
    Start(Option<String>),
    /// Connecting or authenticating failed, with this message.
    ConnectFailed(String),
    /// The authenticated connection is up.
    Connected,
    /// The producer pushed a notification.
    Notification(Notification),
    /// The stream of notifications ended.
    EventsEnded,
    /// The stream of notifications broke, with this message.
    EventsFailed(String),
    /// The poll interval has passed.
    Tick,
    /// The status request was answered, with this JSON text.
    Status(String),
    /// The status request failed, with this message.
    StatusFailed(String),
}

/// The mathematical value of a [`SurfaceInput`].
pub enum SurfaceInputView {
    Start(Option<Seq<char>>),
    ConnectFailed(Seq<char>),
    Connected,
    Notification(NotificationView),
    EventsEnded,
    EventsFailed(Seq<char>),
    Tick,
    Status(Seq<char>),
    StatusFailed(Seq<char>),
}

impl View for SurfaceInput {
    type V = SurfaceInputView;

    open spec fn view(&self) -> SurfaceInputView {
        match self {
            SurfaceInput::Start(credential) => SurfaceInputView::Start(
                match credential {
                    Some(password) => Some(password@),
                    None => None,
                },
            ),
            SurfaceInput::ConnectFailed(message) => SurfaceInputView::ConnectFailed(message@),
            SurfaceInput::Connected => SurfaceInputView::Connected,
            SurfaceInput::Notification(notification) => SurfaceInputView::Notification(
                notification@,
            ),
            SurfaceInput::EventsEnded => SurfaceInputView::EventsEnded,
            SurfaceInput::EventsFailed(message) => SurfaceInputView::EventsFailed(message@),
            SurfaceInput::Tick => SurfaceInputView::Tick,
            SurfaceInput::Status(raw) => SurfaceInputView::Status(raw@),
            SurfaceInput::StatusFailed(message) => SurfaceInputView::StatusFailed(message@),
        }
    }
}

/// What the caller is to do next.
#[derive(Clone, Debug, PartialEq, Eq)]
pub enum SurfaceDirective {
    /// Connect to the control surface and authenticate.
    Connect { host: String, port: u16, password: String },
    /// The connection is up: refresh these inputs once, ignoring failures,
    /// and start both sub-adapters.
    Serve { refresh: Vec<String> },
    /// Ask for the streaming status.
    Poll,
    /// Go on: wait for the next notification, or for the next tick.
    Continue,
    /// End the task that reported the input.
    Stop,
}

/// The mathematical value of a [`SurfaceDirective`].
pub enum SurfaceDirectiveView {
    Connect { host: Seq<char>, port: u16, password: Seq<char> },
    Serve { refresh: Seq<Seq<char>> },
    Poll,
    Continue,
    Stop,
}

impl View for SurfaceDirective {
    type V = SurfaceDirectiveView;

    open spec fn view(&self) -> SurfaceDirectiveView {
        match self {
            SurfaceDirective::Connect { host, port, password } => SurfaceDirectiveView::Connect {
                host: host@,
                port: *port,
                password: password@,
            },
            SurfaceDirective::Serve { refresh } => SurfaceDirectiveView::Serve {
                refresh: string_views(refresh@),
            },
            SurfaceDirective::Poll => SurfaceDirectiveView::Poll,
            SurfaceDirective::Continue => SurfaceDirectiveView::Continue,
            SurfaceDirective::Stop => SurfaceDirectiveView::Stop,
        }
    }
}

/// The client's answer to one input.
#[derive(Debug, PartialEq, Eq)]
pub struct SurfaceOutput {
    /// The event to publish, if any.
    pub publish: Option<Event>,
    /// What to do after that.
    pub next: SurfaceDirective,
}

/// The mathematical value of a [`SurfaceOutput`].
pub struct SurfaceOutputView {
    pub publish: Option<EventView>,
    pub next: SurfaceDirectiveView,
}

impl View for SurfaceOutput {
    type V = SurfaceOutputView;

    open spec fn view(&self) -> SurfaceOutputView {
        SurfaceOutputView {
            publish: match self.publish {
                Some(event) => Some(event@),
                None => None,
            },
            next: self.next@,
        }
    }
}

/// The mathematical value of a [`SurfaceClient`].
pub struct SurfaceView {
    pub host: Seq<char>,
    pub port: u16,
    /// The name of the input whose mute state is republished.
    pub microphone: Seq<char>,
    /// The inputs to refresh when the connection comes up.
    pub refresh: Seq<Seq<char>>,
    pub connection: ConnectionView,
    /// Whether the notification sub-adapter runs.
    pub events_running: bool,
    /// Whether the status sub-adapter runs.
    pub status_running: bool,
    /// The message with which the connection broke, if it did.
    pub failure: Option<Seq<char>>,
}

/// The event that a mute change is published as.
pub open spec fn microphone_event(status: MicrophoneStatus) -> EventView {
    EventView { namespace: ns_microphone(), payload: PayloadView::Microphone(status) }
}

/// The event that a status report is published as.
pub open spec fn status_event(raw: Seq<char>) -> EventView {
    EventView { namespace: ns_status(), payload: PayloadView::Json(raw) }
}

/// The event that a failure of the client is published as.
pub open spec fn surface_error_event(message: Seq<char>) -> EventView {
    EventView { namespace: ns_surface_error(), payload: PayloadView::Text(message) }
}

/// An answer that publishes nothing.
pub open spec fn silent(next: SurfaceDirectiveView) -> SurfaceOutputView {
    SurfaceOutputView { publish: None, next }
}

/// An answer that publishes a failure and ends the task.
pub open spec fn failing(message: Seq<char>) -> SurfaceOutputView {
    SurfaceOutputView {
        publish: Some(surface_error_event(message)),
        next: SurfaceDirectiveView::Stop,
    }
}

impl SurfaceView {
    /// The connection is up.
    pub open spec fn live(self) -> bool {
        self.connection.may_publish()
    }

    /// The client with its connection after `signal`.
    pub open spec fn signalled(self, signal: Signal) -> SurfaceView {
        SurfaceView { connection: self.connection.step(signal), ..self }
    }

    /// The answer of a running sub-adapter that finds the connection gone:
    /// it publishes the message with which the connection broke, if it
    /// broke, and ends.
    pub open spec fn gone(self) -> SurfaceOutputView {
        match self.failure {
            Some(message) => failing(message),
            None => silent(SurfaceDirectiveView::Stop),
        }
    }

    /// The client's next state and its answer to `input`.
    pub open spec fn step(self, input: SurfaceInputView) -> (SurfaceView, SurfaceOutputView) {
        match input {
            SurfaceInputView::Start(credential) => if self.connection != ConnectionView::fresh() {
                (self, silent(SurfaceDirectiveView::Stop))
            } else {
                match credential {
                    Some(password) => (
                        self.signalled(Signal::Open),
                        silent(
                            SurfaceDirectiveView::Connect {
                                host: self.host,
                                port: self.port,
                                password,
                            },
                        ),
                    ),
                    None => (
                        self.signalled(Signal::Open).signalled(Signal::Failed),
                        failing(missing_credential_message()),
                    ),
                }
            },
            SurfaceInputView::ConnectFailed(message) => if self.connection.state
                == ConnectionState::Connecting {
                (self.signalled(Signal::Failed), failing(message))
            } else {
                (self, silent(SurfaceDirectiveView::Stop))
            },
            SurfaceInputView::Connected => if self.connection.state
                == ConnectionState::Connecting {
                (
                    SurfaceView {
                        events_running: true,
                        status_running: true,
                        refresh: Seq::<Seq<char>>::empty(),
                        ..self.signalled(Signal::Established)
                    },
                    silent(SurfaceDirectiveView::Serve { refresh: self.refresh }),
                )
            } else {
                (self, silent(SurfaceDirectiveView::Stop))
            },
            SurfaceInputView::Notification(notification) => if !self.events_running {
                (self, silent(SurfaceDirectiveView::Stop))
            } else if !self.live() {
                (SurfaceView { events_running: false, ..self }, self.gone())
            } else {
                (
                    self,
                    SurfaceOutputView {
                        publish: match microphone_change(self.microphone, notification) {
                            Some(status) => Some(microphone_event(status)),
                            None => None,
                        },
                        next: SurfaceDirectiveView::Continue,
                    },
                )
            },
            SurfaceInputView::EventsEnded => if !self.events_running {
                (self, silent(SurfaceDirectiveView::Stop))
            } else {
                (
                    SurfaceView { events_running: false, ..self.signalled(Signal::Closed) },
                    silent(SurfaceDirectiveView::Stop),
                )
            },
            SurfaceInputView::EventsFailed(message) => if !self.events_running {
                (self, silent(SurfaceDirectiveView::Stop))
            } else {
                (
                    SurfaceView {
                        events_running: false,
                        failure: if self.live() {
                            Some(message)
                        } else {
                            self.failure
                        },
                        ..self.signalled(Signal::Failed)
                    },
                    failing(message),
                )
            },
            SurfaceInputView::Tick => if !self.status_running {
                (self, silent(SurfaceDirectiveView::Stop))
            } else if !self.live() {
                (SurfaceView { status_running: false, ..self }, self.gone())
            } else {
                (self, silent(SurfaceDirectiveView::Poll))
            },
            SurfaceInputView::Status(raw) => if !self.status_running {
                (self, silent(SurfaceDirectiveView::Stop))
            } else if !self.live() {
                (SurfaceView { status_running: false, ..self }, self.gone())
            } else {
                (
                    self,
                    SurfaceOutputView {
                        publish: Some(status_event(raw)),
                        next: SurfaceDirectiveView::Continue,
                    },
                )
            },
            SurfaceInputView::StatusFailed(message) => if !self.status_running {
                (self, silent(SurfaceDirectiveView::Stop))
            } else {
                (
                    SurfaceView {
                        status_running: false,
                        failure: if self.live() {
                            Some(message)
                        } else {
                            self.failure
                        },
                        ..self.signalled(Signal::Failed)
                    },
                    failing(message),
                )
            },
        }
    }

    /// What holds of every client that was made by [`SurfaceClient::new`] and
    /// driven by [`SurfaceClient::step`]: a sub-adapter runs only on a
    /// connection that was established, and a failure message is kept only
    /// for a connection that broke.
    pub open spec fn coherent(self) -> bool {
        &&& (self.events_running || self.status_running) ==> self.connection.opened
            && self.connection.state != ConnectionState::Connecting
        &&& self.failure is Some ==> self.connection.state == ConnectionState::Error
        &&& self.connection.coherent()
    }
}

/// The adapter that talks to the control surface.
#[derive(Debug, PartialEq, Eq)]
pub struct SurfaceClient {
    host: String,
    port: u16,
    microphone: String,
    refresh: Vec<String>,
    connection: Connection,
    events_running: bool,
    status_running: bool,
    failure: Option<String>,
}

impl View for SurfaceClient {
    type V = SurfaceView;

    closed spec fn view(&self) -> SurfaceView {
        SurfaceView {
            host: self.host@,
            port: self.port,
            microphone: self.microphone@,
            refresh: string_views(self.refresh@),
            connection: self.connection@,
            events_running: self.events_running,
            status_running: self.status_running,
            failure: match self.failure {
                Some(message) => Some(message@),
                None => None,
            },
        }
    }
}

impl SurfaceClient {
    /// A client for the control surface at `host` and `port` that has not
    /// started yet. It will republish the mute state of the input called
    /// `microphone` and refresh the inputs named in `refresh` once the
    /// connection is up.
    pub fn new(host: String, port: u16, microphone: String, refresh: Vec<String>) -> (client:
        SurfaceClient)
        ensures
            client@ == (SurfaceView {
                host: host@,
                port,
                microphone: microphone@,
                refresh: string_views(refresh@),
                connection: ConnectionView::fresh(),
                events_running: false,
                status_running: false,
                failure: None,
            }),
            client@.coherent(),
    {
        SurfaceClient {
            host,
            port,
            microphone,
            refresh,
            connection: Connection::new(),
            events_running: false,
            status_running: false,
            failure: None,
        }
    }

    /// Where the client's connection stands.
    pub fn state(&self) -> (s: ConnectionState)
        ensures
            s == self@.connection.state,
    {
        self.connection.state()
    }

    /// The answer of a running sub-adapter that finds the connection gone.
    fn gone(&self) -> (output: SurfaceOutput)
        ensures
            output@ == self@.gone(),
    {
        match &self.failure {
            Some(message) => SurfaceOutput {
                publish: Some(Event::surface_error(message.clone())),
                next: SurfaceDirective::Stop,
            },
            None => SurfaceOutput { publish: None, next: SurfaceDirective::Stop },
        }
    }

    /// Records that a sub-adapter's work on the connection failed with
    /// `message`: the connection breaks, unless it had ended before, and the
    /// failure is published.
    fn broke(&mut self, message: String) -> (output: SurfaceOutput)
        ensures
            output@ == failing(message@),
            final(self)@ == (SurfaceView {
                failure: if old(self)@.live() {
                    Some(message@)
                } else {
                    old(self)@.failure
                },
                ..old(self)@.signalled(Signal::Failed)
            }),
    {
        if self.connection.may_publish() {
            self.failure = Some(message.clone());
        }
        self.connection.apply(Signal::Failed);
        SurfaceOutput {
            publish: Some(Event::surface_error(message)),
            next: SurfaceDirective::Stop,
        }
    }

    /// Takes one input and says what to publish and what to do next.
    pub fn step(&mut self, input: SurfaceInput) -> (output: SurfaceOutput)
        ensures
            (final(self)@, output@) == old(self)@.step(input@),
    {
        let stop = SurfaceOutput { publish: None, next: SurfaceDirective::Stop };
        match input {
            SurfaceInput::Start(credential) => {
                if self.connection.is_terminal() || !self.connection.apply(Signal::Open) {
                    return stop;
                }
                match credential {
                    Some(password) => SurfaceOutput {
                        publish: None,
                        next: SurfaceDirective::Connect {
                            host: self.host.clone(),
                            port: self.port,
                            password,
                        },
                    },
                    None => {
                        self.connection.apply(Signal::Failed);
                        proof {
                            reveal_strlit("OBS_WEBSOCKET_PASSWORD not set in .env file.");
                        }
                        SurfaceOutput {
                            publish: Some(
                                Event::surface_error(
                                    "OBS_WEBSOCKET_PASSWORD not set in .env file.".to_owned(),
                                ),
                            ),
                            next: SurfaceDirective::Stop,
                        }
                    },
                }
            },
            SurfaceInput::ConnectFailed(message) => {
                match self.connection.state() {
                    ConnectionState::Connecting => {
                        self.connection.apply(Signal::Failed);
                        SurfaceOutput {
                            publish: Some(Event::surface_error(message)),
                            next: SurfaceDirective::Stop,
                        }
                    },
                    _ => stop,
                }
            },
            SurfaceInput::Connected => {
                match self.connection.state() {
                    ConnectionState::Connecting => {
                        self.connection.apply(Signal::Established);
                        self.events_running = true;
                        self.status_running = true;
                        let mut refresh: Vec<String> = Vec::new();
                        std::mem::swap(&mut self.refresh, &mut refresh);
                        assert(string_views(self.refresh@) =~= Seq::<Seq<char>>::empty());
                        SurfaceOutput { publish: None, next: SurfaceDirective::Serve { refresh } }
                    },
                    _ => stop,
                }
            },
            SurfaceInput::Notification(notification) => {
                if !self.events_running {
                    stop
                } else if !self.connection.may_publish() {
                    self.events_running = false;
                    self.gone()
                } else {
                    let publish = match microphone_update(&self.microphone, &notification) {
                        Some(status) => Some(Event::microphone(status.muted)),
                        None => None,
                    };
                    SurfaceOutput { publish, next: SurfaceDirective::Continue }
                }
            },
            SurfaceInput::EventsEnded => {
                if !self.events_running {
                    stop
                } else {
                    self.events_running = false;
                    self.connection.apply(Signal::Closed);
                    stop
                }
            },
            SurfaceInput::EventsFailed(message) => {
                if !self.events_running {
                    stop
                } else {
                    self.events_running = false;
                    self.broke(message)
                }
            },
            SurfaceInput::Tick => {
                if !self.status_running {
                    stop
                } else if !self.connection.may_publish() {
                    self.status_running = false;
                    self.gone()
                } else {
                    SurfaceOutput { publish: None, next: SurfaceDirective::Poll }
                }
            },
            SurfaceInput::Status(raw) => {
                if !self.status_running {
                    stop
                } else if !self.connection.may_publish() {
                    self.status_running = false;
                    self.gone()
                } else {
                    SurfaceOutput {
                        publish: Some(Event::status(raw)),
                        next: SurfaceDirective::Continue,
                    }
                }
            },
            SurfaceInput::StatusFailed(message) => {
                if !self.status_running {
                    stop
                } else {
                    self.status_running = false;
                    self.broke(message)
                }
            },
        }
    }
}

/// Every step keeps a client coherent.
pub proof fn law_step_keeps_coherent(s: SurfaceView, input: SurfaceInputView)
    requires
        s.coherent(),
    ensures
        s.step(input).0.coherent(),
{
}

/// Exact match. A notification republishes the microphone's state only if it
/// is a mute change whose input name is exactly the configured one; for any
/// other name, and for any other notification, nothing is published.
pub proof fn law_unmatched_input_is_dropped(s: SurfaceView, notification: NotificationView)
    ensures
        s.step(SurfaceInputView::Notification(notification)).1.publish matches Some(event) ==> (
        event.namespace == ns_microphone() ==> (notification
            matches NotificationView::InputMuteStateChanged { name, muted } && name == s.microphone
            && event == microphone_event(MicrophoneStatus { muted }))),
        microphone_change(s.microphone, notification) is None && s.failure is None ==> s.step(
            SurfaceInputView::Notification(notification),
        ).1.publish is None,
{
    lemma_namespaces_differ();
}

/// The five namespaces are five different texts.
pub proof fn lemma_namespaces_differ()
    ensures
        ns_microphone() != ns_status(),
        ns_microphone() != ns_surface_error(),
        ns_status() != ns_surface_error(),
{
    reveal_strlit("obs:microphone");
    reveal_strlit("obs:status");
    reveal_strlit("obs:error");
    assert(ns_microphone().len() == 14);
    assert(ns_status().len() == 10);
    assert(ns_surface_error().len() == 9);
}

/// Data is published only while the connection is up: a mute state or a
/// status report comes from a client whose connection is `Connected`.
pub proof fn law_data_only_while_connected(s: SurfaceView, input: SurfaceInputView)
    ensures
        s.step(input).1.publish matches Some(event) ==> (event.namespace != ns_surface_error()
            ==> s.connection.state == ConnectionState::Connected),
{
    lemma_namespaces_differ();
}

/// A failed connect is published once and nothing follows it. When
/// connecting fails, the client answers with exactly one failure event; from
/// then on it is stopped for good: whatever it is told, it stays as it is and
/// publishes nothing.
pub proof fn law_failed_connect_publishes_once(
    s: SurfaceView,
    message: Seq<char>,
    later: SurfaceInputView,
)
    requires
        s.coherent(),
        s.connection.state == ConnectionState::Connecting,
    ensures
        s.step(SurfaceInputView::ConnectFailed(message)).1 == failing(message),
        s.step(SurfaceInputView::ConnectFailed(message)).0.step(later) == (
            s.step(SurfaceInputView::ConnectFailed(message)).0,
            silent(SurfaceDirectiveView::Stop),
        ),
{
}

/// A client that is stopped for good, with an ended connection and no
/// sub-adapter running, stays so and publishes nothing, whatever it is told.
pub proof fn law_stopped_client_is_silent(s: SurfaceView, input: SurfaceInputView)
    requires
        s.connection.is_terminal(),
        !s.events_running,
        !s.status_running,
    ensures
        s.step(input) == (s, silent(SurfaceDirectiveView::Stop)),
{
}

/// Each sub-adapter publishes a failure at most once: the answer that
/// carries a failure stops the sub-adapter that the input belongs to, and a
/// stopped sub-adapter publishes nothing.
pub proof fn law_failure_published_once(s: SurfaceView, input: SurfaceInputView)
    ensures
        (input is Notification || input is EventsEnded || input is EventsFailed) ==> {
            &&& s.step(input).1.publish matches Some(event) ==> (event.namespace
                == ns_surface_error() ==> s.events_running && !s.step(input).0.events_running)
            &&& !s.events_running ==> s.step(input).1.publish is None
        },
        (input is Tick || input is Status || input is StatusFailed) ==> {
            &&& s.step(input).1.publish matches Some(event) ==> (event.namespace
                == ns_surface_error() ==> s.status_running && !s.step(input).0.status_running)
            &&& !s.status_running ==> s.step(input).1.publish is None
        },
{
    lemma_namespaces_differ();
}

/// On a healthy connection every status answer is republished, one event for
/// one answer, and the poll goes on.
pub proof fn law_status_republished(s: SurfaceView, raw: Seq<char>)
    requires
        s.status_running,
        s.live(),
    ensures
        s.step(SurfaceInputView::Tick) == (s, silent(SurfaceDirectiveView::Poll)),
        s.step(SurfaceInputView::Status(raw)) == (
            s,
            SurfaceOutputView {
                publish: Some(status_event(raw)),
                next: SurfaceDirectiveView::Continue,
            },
        ),
{
}

} // verus!
