use event_bridge::connection::ConnectionState;
use event_bridge::event::{Event, MicrophoneStatus};
use event_bridge::surface::{
    microphone_update, refresh_action_name, Notification, SurfaceClient, SurfaceDirective,
    SurfaceInput, SurfaceOutput, DEFAULT_SURFACE_PORT, STATUS_POLL_INTERVAL_SECS,
};

const MICROPHONE: &str = "Desk Microphone";

fn client() -> SurfaceClient {
    SurfaceClient::new(
        "studio.local".to_string(),
        DEFAULT_SURFACE_PORT,
        MICROPHONE.to_string(),
        vec!["Widget".to_string(), "Backdrop".to_string()],
    )
}

fn silent(next: SurfaceDirective) -> SurfaceOutput {
    SurfaceOutput { publish: None, next }
}

fn failing(message: &str) -> SurfaceOutput {
    SurfaceOutput {
        publish: Some(Event::surface_error(message.to_string())),
        next: SurfaceDirective::Stop,
    }
}

fn mute(name: &str, muted: bool) -> SurfaceInput {
    SurfaceInput::Notification(Notification::InputMuteStateChanged {
        name: name.to_string(),
        muted,
    })
}

fn connected() -> SurfaceClient {
    let mut c = client();
    c.step(SurfaceInput::Start(Some("secret".to_string())));
    c.step(SurfaceInput::Connected);
    assert_eq!(c.state(), ConnectionState::Connected);
    c
}

#[test]
fn surface_constants() {
    assert_eq!(STATUS_POLL_INTERVAL_SECS, 1);
    assert_eq!(DEFAULT_SURFACE_PORT, 4455);
    assert_eq!(refresh_action_name(), "refreshnocache");
}

#[test]
fn start_with_a_credential_asks_to_connect() {
    let mut c = client();
    assert_eq!(c.state(), ConnectionState::Disconnected);
    assert_eq!(
        c.step(SurfaceInput::Start(Some("secret".to_string()))),
        silent(SurfaceDirective::Connect {
            host: "studio.local".to_string(),
            port: 4455,
            password: "secret".to_string(),
        })
    );
    assert_eq!(c.state(), ConnectionState::Connecting);
    assert_eq!(
        c.step(SurfaceInput::Start(Some("secret".to_string()))),
        silent(SurfaceDirective::Stop)
    );
    assert_eq!(c.state(), ConnectionState::Connecting);
}

#[test]
fn start_without_a_credential_fails_this_adapter_only() {
    let mut c = client();
    assert_eq!(
        c.step(SurfaceInput::Start(None)),
        failing("OBS_WEBSOCKET_PASSWORD not set in .env file.")
    );
    assert_eq!(c.state(), ConnectionState::Error);
    assert_eq!(c.step(SurfaceInput::Connected), silent(SurfaceDirective::Stop));
    assert_eq!(c.step(SurfaceInput::Tick), silent(SurfaceDirective::Stop));
    assert_eq!(c.step(mute(MICROPHONE, true)), silent(SurfaceDirective::Stop));
}

#[test]
fn connection_up_serves_the_refresh_list_once() {
    let mut c = client();
    c.step(SurfaceInput::Start(Some("secret".to_string())));
    assert_eq!(
        c.step(SurfaceInput::Connected),
        silent(SurfaceDirective::Serve {
            refresh: vec!["Widget".to_string(), "Backdrop".to_string()],
        })
    );
    assert_eq!(c.state(), ConnectionState::Connected);
    assert_eq!(c.step(SurfaceInput::Connected), silent(SurfaceDirective::Stop));
    assert_eq!(c.state(), ConnectionState::Connected);
}

#[test]
fn failed_connect_publishes_exactly_one_error() {
    let mut c = client();
    c.step(SurfaceInput::Start(Some("wrong".to_string())));
    assert_eq!(
        c.step(SurfaceInput::ConnectFailed("authentication failed".to_string())),
        failing("authentication failed")
    );
    assert_eq!(c.state(), ConnectionState::Error);
    let later = vec![
        SurfaceInput::ConnectFailed("authentication failed".to_string()),
        SurfaceInput::Start(Some("right".to_string())),
        SurfaceInput::Connected,
        mute(MICROPHONE, true),
        SurfaceInput::EventsEnded,
        SurfaceInput::EventsFailed("gone".to_string()),
        SurfaceInput::Tick,
        SurfaceInput::Status("{}".to_string()),
        SurfaceInput::StatusFailed("gone".to_string()),
    ];
    for input in later {
        assert_eq!(c.step(input), silent(SurfaceDirective::Stop));
        assert_eq!(c.state(), ConnectionState::Error);
    }
}

#[test]
fn mute_change_of_the_configured_input_is_republished() {
    let mut c = connected();
    assert_eq!(
        c.step(mute(MICROPHONE, true)),
        SurfaceOutput { publish: Some(Event::microphone(true)), next: SurfaceDirective::Continue }
    );
    assert_eq!(
        c.step(mute(MICROPHONE, false)),
        SurfaceOutput { publish: Some(Event::microphone(false)), next: SurfaceDirective::Continue }
    );
}

#[test]
fn mute_change_of_another_input_is_dropped() {
    let mut c = connected();
    for name in ["Desk Microphone 2", "Desk", "desk microphone", " Desk Microphone", "", "Music"] {
        assert_eq!(c.step(mute(name, true)), silent(SurfaceDirective::Continue));
    }
    assert_eq!(
        c.step(SurfaceInput::Notification(Notification::Other)),
        silent(SurfaceDirective::Continue)
    );
    assert_eq!(c.state(), ConnectionState::Connected);
}

#[test]
fn microphone_update_matches_the_name_exactly() {
    let microphone = MICROPHONE.to_string();
    let hit = Notification::InputMuteStateChanged { name: MICROPHONE.to_string(), muted: true };
    assert_eq!(microphone_update(&microphone, &hit), Some(MicrophoneStatus { muted: true }));
    let hit = Notification::InputMuteStateChanged { name: MICROPHONE.to_string(), muted: false };
    assert_eq!(microphone_update(&microphone, &hit), Some(MicrophoneStatus { muted: false }));
    let prefix = Notification::InputMuteStateChanged { name: "Desk".to_string(), muted: true };
    assert_eq!(microphone_update(&microphone, &prefix), None);
    let longer =
        Notification::InputMuteStateChanged { name: "Desk Microphone!".to_string(), muted: true };
    assert_eq!(microphone_update(&microphone, &longer), None);
    assert_eq!(microphone_update(&microphone, &Notification::Other), None);
    let marked = "[\u{1f399}\u{fe0f}] RE20".to_string();
    let same =
        Notification::InputMuteStateChanged { name: "[\u{1f399}\u{fe0f}] RE20".to_string(), muted: true };
    assert_eq!(microphone_update(&marked, &same), Some(MicrophoneStatus { muted: true }));
    let bare = Notification::InputMuteStateChanged { name: "[\u{1f399}] RE20".to_string(), muted: true };
    assert_eq!(microphone_update(&marked, &bare), None);
}

#[test]
fn three_polls_yield_three_status_events() {
    let mut c = connected();
    let mut published = Vec::new();
    for raw in ["{\"n\":1}", "{\"n\":2}", "{\"n\":3}"] {
        assert_eq!(c.step(SurfaceInput::Tick), silent(SurfaceDirective::Poll));
        let output = c.step(SurfaceInput::Status(raw.to_string()));
        assert_eq!(output.next, SurfaceDirective::Continue);
        published.extend(output.publish);
    }
    assert_eq!(
        published,
        vec![
            Event::status("{\"n\":1}".to_string()),
            Event::status("{\"n\":2}".to_string()),
            Event::status("{\"n\":3}".to_string()),
        ]
    );
}

#[test]
fn broken_connection_fails_both_sub_adapters_once_each() {
    let mut c = connected();
    assert_eq!(c.step(SurfaceInput::StatusFailed("socket closed".to_string())), failing("socket closed"));
    assert_eq!(c.state(), ConnectionState::Error);
    assert_eq!(c.step(SurfaceInput::Tick), silent(SurfaceDirective::Stop));
    assert_eq!(c.step(SurfaceInput::StatusFailed("again".to_string())), silent(SurfaceDirective::Stop));
    assert_eq!(c.step(mute(MICROPHONE, true)), failing("socket closed"));
    assert_eq!(c.step(mute(MICROPHONE, true)), silent(SurfaceDirective::Stop));
    assert_eq!(c.step(SurfaceInput::EventsFailed("late".to_string())), silent(SurfaceDirective::Stop));
}

#[test]
fn each_sub_adapter_reports_its_own_failure() {
    let mut c = connected();
    assert_eq!(c.step(SurfaceInput::EventsFailed("stream broke".to_string())), failing("stream broke"));
    assert_eq!(c.step(SurfaceInput::StatusFailed("request failed".to_string())), failing("request failed"));
    assert_eq!(c.step(SurfaceInput::Status("{}".to_string())), silent(SurfaceDirective::Stop));
    assert_eq!(c.state(), ConnectionState::Error);

    let mut c = connected();
    assert_eq!(c.step(SurfaceInput::EventsFailed("stream broke".to_string())), failing("stream broke"));
    assert_eq!(c.step(SurfaceInput::Status("{}".to_string())), failing("stream broke"));
    assert_eq!(c.step(SurfaceInput::Tick), silent(SurfaceDirective::Stop));
}

#[test]
fn ended_notification_stream_closes_the_connection() {
    let mut c = connected();
    assert_eq!(c.step(SurfaceInput::EventsEnded), silent(SurfaceDirective::Stop));
    assert_eq!(c.state(), ConnectionState::Disconnected);
    assert_eq!(c.step(mute(MICROPHONE, true)), silent(SurfaceDirective::Stop));
    assert_eq!(c.step(SurfaceInput::Status("{}".to_string())), silent(SurfaceDirective::Stop));
    assert_eq!(c.step(SurfaceInput::Tick), silent(SurfaceDirective::Stop));
    assert_eq!(c.step(SurfaceInput::Start(Some("secret".to_string()))), silent(SurfaceDirective::Stop));
}

#[test]
fn nothing_is_published_before_the_connection_is_up() {
    let mut c = client();
    assert_eq!(c.step(mute(MICROPHONE, true)), silent(SurfaceDirective::Stop));
    assert_eq!(c.step(SurfaceInput::Status("{}".to_string())), silent(SurfaceDirective::Stop));
    assert_eq!(c.step(SurfaceInput::Tick), silent(SurfaceDirective::Stop));
    assert_eq!(c.step(SurfaceInput::ConnectFailed("x".to_string())), silent(SurfaceDirective::Stop));
    assert_eq!(c.state(), ConnectionState::Disconnected);
    c.step(SurfaceInput::Start(Some("secret".to_string())));
    assert_eq!(c.step(mute(MICROPHONE, true)), silent(SurfaceDirective::Stop));
    assert_eq!(c.step(SurfaceInput::Status("{}".to_string())), silent(SurfaceDirective::Stop));
    assert_eq!(c.state(), ConnectionState::Connecting);
}
