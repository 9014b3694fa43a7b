//! Events: what the adapters publish and the consumers receive.
//!
//! An event is a namespace, a tag of the form `source:kind`, and a payload.
//! Its fields are private: an event is built once and never changed, and its
//! namespace is never empty.

use crate::text::chars_of;
use vstd::prelude::*;
use vstd::string::*;

verus! {

/// Whether the configured microphone input is muted.
#[derive(Clone, Copy, Debug, PartialEq, Eq, Structural)]
pub struct MicrophoneStatus {
    pub muted: bool,
}

/// What an event carries.
#[derive(Clone, Debug, PartialEq, Eq)]
pub enum Payload {
    /// Plain text, passed through as it came: a message body or an error message.
    Text(String),
    /// The producer's own JSON text, passed through as it came.
    Json(String),
    /// The mute state of the microphone.
    Microphone(MicrophoneStatus),
}

/// The mathematical value of a [`Payload`].
pub enum PayloadView {
    Text(Seq<char>),
    Json(Seq<char>),
    Microphone(MicrophoneStatus),
}

impl View for Payload {
    type V = PayloadView;

    open spec fn view(&self) -> PayloadView {
        match self {
            Payload::Text(s) => PayloadView::Text(s@),
            Payload::Json(s) => PayloadView::Json(s@),
            Payload::Microphone(m) => PayloadView::Microphone(*m),
        }
    }
}

impl Payload {
    /// A copy that holds the same value.
    pub fn duplicate(&self) -> (r: Payload)
        ensures
            r@ == self@,
    {
        match self {
            Payload::Text(s) => Payload::Text(s.clone()),
            Payload::Json(s) => Payload::Json(s.clone()),
            Payload::Microphone(m) => Payload::Microphone(*m),
        }
    }
}

/// The mathematical value of an [`Event`].
pub struct EventView {
    pub namespace: Seq<char>,
    pub payload: PayloadView,
}

impl EventView {
    /// The part of the namespace in front of its first `:`, which names the
    /// adapter that published the event. A namespace without `:` is its own
    /// source.
    pub open spec fn source(self) -> Seq<char> {
        source_of(self.namespace)
    }
}

/// The part of a namespace in front of its first `:`.
pub open spec fn source_of(namespace: Seq<char>) -> Seq<char>
    decreases namespace.len(),
{
    if namespace.len() == 0 || namespace[0] == ':' {
        Seq::<char>::empty()
    } else {
        seq![namespace[0]] + source_of(namespace.drop_first())
    }
}

/// The source of a namespace is what stands in front of the first `:`, or
/// all of it where there is none.
proof fn lemma_source_is_prefix(namespace: Seq<char>, end: int)
    requires
        0 <= end <= namespace.len(),
        forall|k: int| 0 <= k < end ==> namespace[k] != ':',
        end < namespace.len() ==> namespace[end] == ':',
    ensures
        source_of(namespace) == namespace.take(end),
    decreases end,
{
    if end == 0 {
        assert(namespace.take(0) =~= Seq::<char>::empty());
    } else {
        let rest = namespace.drop_first();
        assert forall|k: int| 0 <= k < end - 1 implies rest[k] != ':' by {
            assert(rest[k] == namespace[k + 1]);
        }
        if end - 1 < rest.len() {
            assert(rest[end - 1] == namespace[end]);
        }
        lemma_source_is_prefix(rest, end - 1);
        assert(namespace.take(end) =~= seq![namespace[0]] + rest.take(end - 1));
    }
}

/// The namespace of a decoded emulator message.
pub open spec fn ns_emulator_message() -> Seq<char> {
    "bizhawk:message"@
}

/// The namespace of an emulator listener failure.
pub open spec fn ns_emulator_error() -> Seq<char> {
    "bizhawk:error"@
}

/// The namespace of a microphone mute change.
pub open spec fn ns_microphone() -> Seq<char> {
    "obs:microphone"@
}

/// The namespace of a streaming status report.
pub open spec fn ns_status() -> Seq<char> {
    "obs:status"@
}

/// The namespace of a control-surface failure.
pub open spec fn ns_surface_error() -> Seq<char> {
    "obs:error"@
}

/// One event on the bridge.
#[derive(Debug, PartialEq, Eq)]
pub struct Event {
    namespace: String,
    payload: Payload,
}

impl View for Event {
    type V = EventView;

    closed spec fn view(&self) -> EventView {
        EventView { namespace: self.namespace@, payload: self.payload@ }
    }
}

impl Clone for Event {
    fn clone(&self) -> (r: Event)
        ensures
            r@ == self@,
    {
        self.duplicate()
    }
}

impl Event {
    #[verifier::type_invariant]
    spec fn named(&self) -> bool {
        self.namespace@.len() > 0
    }

    /// An event with the given namespace and payload, or nothing when the
    /// namespace is empty.
    pub fn new(namespace: String, payload: Payload) -> (r: Option<Event>)
        ensures
            r is Some <==> namespace@.len() > 0,
            r matches Some(e) ==> e@ == (EventView { namespace: namespace@, payload: payload@ }),
    {
        if namespace.as_str().is_empty() {
            None
        } else {
            Some(Event { namespace, payload })
        }
    }

    /// A decoded emulator message.
    pub fn emulator_message(body: String) -> (e: Event)
        ensures
            e@ == (EventView { namespace: ns_emulator_message(), payload: PayloadView::Text(body@) }),
    {
        proof {
            reveal_strlit("bizhawk:message");
        }
        Event { namespace: "bizhawk:message".to_owned(), payload: Payload::Text(body) }
    }

    /// A failure of the emulator listener.
    pub fn emulator_error(message: String) -> (e: Event)
        ensures
            e@ == (EventView { namespace: ns_emulator_error(), payload: PayloadView::Text(message@) }),
    {
        proof {
            reveal_strlit("bizhawk:error");
        }
        Event { namespace: "bizhawk:error".to_owned(), payload: Payload::Text(message) }
    }

    /// A change of the microphone's mute state.
    pub fn microphone(muted: bool) -> (e: Event)
        ensures
            e@ == (EventView {
                namespace: ns_microphone(),
                payload: PayloadView::Microphone(MicrophoneStatus { muted }),
            }),
    {
        proof {
            reveal_strlit("obs:microphone");
        }
        Event {
            namespace: "obs:microphone".to_owned(),
            payload: Payload::Microphone(MicrophoneStatus { muted }),
        }
    }

    /// A streaming status report, carried as the producer's own JSON text.
    pub fn status(raw: String) -> (e: Event)
        ensures
            e@ == (EventView { namespace: ns_status(), payload: PayloadView::Json(raw@) }),
    {
        proof {
            reveal_strlit("obs:status");
        }
        Event { namespace: "obs:status".to_owned(), payload: Payload::Json(raw) }
    }

    /// A failure of the control-surface client.
    pub fn surface_error(message: String) -> (e: Event)
        ensures
            e@ == (EventView { namespace: ns_surface_error(), payload: PayloadView::Text(message@) }),
    {
        proof {
            reveal_strlit("obs:error");
        }
        Event { namespace: "obs:error".to_owned(), payload: Payload::Text(message) }
    }

    /// The event's namespace. It is never empty.
    pub fn namespace(&self) -> (r: &str)
        ensures
            r@ == self@.namespace,
            r@.len() > 0,
    {
        proof {
            use_type_invariant(self);
        }
        self.namespace.as_str()
    }

    /// The adapter that published the event: the part of the namespace in
    /// front of its first `:`.
    pub fn source(&self) -> (r: String)
        ensures
            r@ == self@.source(),
    {
        let chars: Vec<char> = chars_of(self.namespace.as_str());
        let mut end: usize = 0;
        while end < chars.len() && chars[end] != ':'
            invariant
                end <= chars@.len(),
                chars@ == self.namespace@,
                forall|k: int| 0 <= k < end ==> chars@[k] != ':',
            decreases chars@.len() - end,
        {
            end = end + 1;
        }
        proof {
            lemma_source_is_prefix(self.namespace@, end as int);
        }
        self.namespace.as_str().substring_char(0, end).to_owned()
    }

    /// The event's payload.
    pub fn payload(&self) -> (r: &Payload)
        ensures
            r@ == self@.payload,
    {
        &self.payload
    }

    /// A copy that holds the same value.
    pub fn duplicate(&self) -> (r: Event)
        ensures
            r@ == self@,
    {
        proof {
            use_type_invariant(self);
        }
        Event { namespace: self.namespace.clone(), payload: self.payload.duplicate() }
    }
}

} // verus!
