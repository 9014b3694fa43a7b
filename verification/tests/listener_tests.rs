use event_bridge::connection::ConnectionState;
use event_bridge::event::Event;
use event_bridge::listener::{
    Directive, EmulatorListener, FramePolicy, ListenerInput, ListenerOutput, ReadOutcome,
    DEFAULT_EMULATOR_PORT,
};

fn quiet(next: Directive) -> ListenerOutput {
    ListenerOutput { publish: None, next }
}

fn data(bytes: &[u8]) -> ListenerInput {
    ListenerInput::Read(ReadOutcome::Data(bytes.to_vec()))
}

fn serving(policy: FramePolicy) -> EmulatorListener {
    let mut listener = EmulatorListener::new(DEFAULT_EMULATOR_PORT, policy);
    assert_eq!(listener.step(ListenerInput::Start), quiet(Directive::Bind { port: 8080 }));
    assert_eq!(listener.step(ListenerInput::Bound), quiet(Directive::Accept));
    assert_eq!(listener.step(ListenerInput::Accepted), quiet(Directive::Read));
    assert_eq!(listener.state(), ConnectionState::Connected);
    listener
}

#[test]
fn default_emulator_port_value() {
    assert_eq!(DEFAULT_EMULATOR_PORT, 8080);
}

#[test]
fn listener_binds_the_configured_port() {
    let mut listener = EmulatorListener::new(9000, FramePolicy::Tolerant);
    assert_eq!(listener.state(), ConnectionState::Disconnected);
    assert_eq!(listener.step(ListenerInput::Start), quiet(Directive::Bind { port: 9000 }));
    assert_eq!(listener.state(), ConnectionState::Connecting);
}

#[test]
fn failed_bind_publishes_one_error_and_stops() {
    let mut listener = EmulatorListener::new(8080, FramePolicy::Tolerant);
    listener.step(ListenerInput::Start);
    assert_eq!(
        listener.step(ListenerInput::BindFailed("address in use".to_string())),
        ListenerOutput {
            publish: Some(Event::emulator_error("address in use".to_string())),
            next: Directive::Stop,
        }
    );
    assert_eq!(listener.state(), ConnectionState::Error);
    assert_eq!(
        listener.step(ListenerInput::BindFailed("again".to_string())),
        quiet(Directive::Stop)
    );
    assert_eq!(listener.step(ListenerInput::Start), quiet(Directive::Stop));
    assert_eq!(listener.step(data(b"5 hello")), quiet(Directive::Stop));
    assert_eq!(listener.state(), ConnectionState::Error);
}

#[test]
fn failed_accept_stops_without_an_event() {
    let mut listener = EmulatorListener::new(8080, FramePolicy::Tolerant);
    listener.step(ListenerInput::Start);
    listener.step(ListenerInput::Bound);
    assert_eq!(
        listener.step(ListenerInput::AcceptFailed("reset".to_string())),
        quiet(Directive::Stop)
    );
    assert_eq!(listener.state(), ConnectionState::Error);
}

#[test]
fn decoded_frame_is_published_as_a_message() {
    let mut listener = serving(FramePolicy::Tolerant);
    assert_eq!(
        listener.step(data(b"5 hello")),
        ListenerOutput {
            publish: Some(Event::emulator_message("hello".to_string())),
            next: Directive::Read,
        }
    );
    assert_eq!(
        listener.step(data(b"11 hello   world\n")),
        ListenerOutput {
            publish: Some(Event::emulator_message("hello world".to_string())),
            next: Directive::Read,
        }
    );
    assert_eq!(listener.state(), ConnectionState::Connected);
}

#[test]
fn empty_read_and_would_block_change_nothing() {
    let mut listener = serving(FramePolicy::Strict);
    assert_eq!(listener.step(data(b"")), quiet(Directive::Read));
    assert_eq!(listener.step(ListenerInput::Read(ReadOutcome::WouldBlock)), quiet(Directive::Read));
    assert_eq!(listener.state(), ConnectionState::Connected);
    assert_eq!(
        listener.step(data(b"1 x")),
        ListenerOutput {
            publish: Some(Event::emulator_message("x".to_string())),
            next: Directive::Read,
        }
    );
}

#[test]
fn tolerant_listener_skips_a_malformed_frame_and_goes_on() {
    let mut listener = serving(FramePolicy::Tolerant);
    assert_eq!(
        listener.step(data(b"3 h")),
        ListenerOutput {
            publish: Some(Event::emulator_message("h".to_string())),
            next: Directive::Read,
        }
    );
    assert_eq!(listener.step(data(b"i there")), quiet(Directive::Read));
    assert_eq!(listener.state(), ConnectionState::Connected);
    assert_eq!(listener.step(data(&[0xff, 0xfe])), quiet(Directive::Read));
    assert_eq!(listener.step(data(b"   ")), quiet(Directive::Read));
    assert_eq!(
        listener.step(data(b"2 ok")),
        ListenerOutput {
            publish: Some(Event::emulator_message("ok".to_string())),
            next: Directive::Read,
        }
    );
}

#[test]
fn strict_listener_gives_the_connection_up_on_a_malformed_frame() {
    let mut listener = serving(FramePolicy::Strict);
    assert_eq!(
        listener.step(data(b"3 h")),
        ListenerOutput {
            publish: Some(Event::emulator_message("h".to_string())),
            next: Directive::Read,
        }
    );
    assert_eq!(listener.step(data(b"i there")), quiet(Directive::Stop));
    assert_eq!(listener.state(), ConnectionState::Error);
    assert_eq!(listener.step(data(b"2 ok")), quiet(Directive::Stop));
}

#[test]
fn peer_close_ends_the_connection() {
    let mut listener = serving(FramePolicy::Tolerant);
    assert_eq!(listener.step(ListenerInput::Read(ReadOutcome::Closed)), quiet(Directive::Stop));
    assert_eq!(listener.state(), ConnectionState::Disconnected);
    assert_eq!(listener.step(data(b"1 x")), quiet(Directive::Stop));
    assert_eq!(listener.step(ListenerInput::Start), quiet(Directive::Stop));
    assert_eq!(listener.state(), ConnectionState::Disconnected);
}

#[test]
fn read_failure_ends_the_connection() {
    let mut listener = serving(FramePolicy::Tolerant);
    assert_eq!(
        listener.step(ListenerInput::Read(ReadOutcome::Failed("broken pipe".to_string()))),
        quiet(Directive::Stop)
    );
    assert_eq!(listener.state(), ConnectionState::Error);
}

#[test]
fn inputs_out_of_turn_change_nothing() {
    let mut listener = EmulatorListener::new(8080, FramePolicy::Tolerant);
    assert_eq!(listener.step(ListenerInput::Bound), quiet(Directive::Stop));
    assert_eq!(listener.step(data(b"1 x")), quiet(Directive::Stop));
    assert_eq!(listener.state(), ConnectionState::Disconnected);
    listener.step(ListenerInput::Start);
    assert_eq!(listener.step(ListenerInput::Accepted), quiet(Directive::Bind { port: 8080 }));
    assert_eq!(listener.step(data(b"1 x")), quiet(Directive::Bind { port: 8080 }));
    listener.step(ListenerInput::Bound);
    assert_eq!(
        listener.step(ListenerInput::BindFailed("late".to_string())),
        quiet(Directive::Accept)
    );
    assert_eq!(listener.step(data(b"1 x")), quiet(Directive::Accept));
    listener.step(ListenerInput::Accepted);
    assert_eq!(listener.step(ListenerInput::Bound), quiet(Directive::Read));
    assert_eq!(listener.step(ListenerInput::Start), quiet(Directive::Read));
    assert_eq!(listener.state(), ConnectionState::Connected);
}
