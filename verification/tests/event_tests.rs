use event_bridge::event::{Event, MicrophoneStatus, Payload};

#[test]
fn emulator_message_event() {
    let event = Event::emulator_message("hello".to_string());
    assert_eq!(event.namespace(), "bizhawk:message");
    assert_eq!(event.payload(), &Payload::Text("hello".to_string()));
}

#[test]
fn emulator_error_event() {
    let event = Event::emulator_error("address in use".to_string());
    assert_eq!(event.namespace(), "bizhawk:error");
    assert_eq!(event.payload(), &Payload::Text("address in use".to_string()));
}

#[test]
fn microphone_event() {
    let event = Event::microphone(true);
    assert_eq!(event.namespace(), "obs:microphone");
    assert_eq!(event.payload(), &Payload::Microphone(MicrophoneStatus { muted: true }));
    let event = Event::microphone(false);
    assert_eq!(event.payload(), &Payload::Microphone(MicrophoneStatus { muted: false }));
}

#[test]
fn status_event() {
    let event = Event::status("{\"outputActive\":true}".to_string());
    assert_eq!(event.namespace(), "obs:status");
    assert_eq!(event.payload(), &Payload::Json("{\"outputActive\":true}".to_string()));
}

#[test]
fn surface_error_event() {
    let event = Event::surface_error("refused".to_string());
    assert_eq!(event.namespace(), "obs:error");
    assert_eq!(event.payload(), &Payload::Text("refused".to_string()));
}

#[test]
fn event_needs_a_namespace() {
    assert_eq!(Event::new(String::new(), Payload::Text("x".to_string())), None);
    let event = Event::new("custom:kind".to_string(), Payload::Json("[1]".to_string()));
    let event = event.expect("a named event");
    assert_eq!(event.namespace(), "custom:kind");
    assert_eq!(event.payload(), &Payload::Json("[1]".to_string()));
}

#[test]
fn copies_equal_what_they_copy() {
    let event = Event::emulator_message("hello".to_string());
    assert_eq!(event.duplicate(), event);
    assert_eq!(event.clone(), event);
    let payload = Payload::Microphone(MicrophoneStatus { muted: true });
    assert_eq!(payload.duplicate(), payload);
    assert_ne!(Event::microphone(true), Event::microphone(false));
    assert_ne!(
        Event::emulator_message("x".to_string()),
        Event::emulator_error("x".to_string())
    );
}

#[test]
fn source_is_the_namespace_up_to_the_first_colon() {
    assert_eq!(Event::emulator_message("x".to_string()).source(), "bizhawk");
    assert_eq!(Event::emulator_error("x".to_string()).source(), "bizhawk");
    assert_eq!(Event::microphone(true).source(), "obs");
    assert_eq!(Event::status("{}".to_string()).source(), "obs");
    assert_eq!(Event::surface_error("x".to_string()).source(), "obs");
    let named = |namespace: &str| {
        Event::new(namespace.to_string(), Payload::Text(String::new())).expect("a named event")
    };
    assert_eq!(named("a:b:c").source(), "a");
    assert_eq!(named("plain").source(), "plain");
    assert_eq!(named(":kind").source(), "");
    assert_eq!(named("h\u{e9}:x").source(), "h\u{e9}");
}
