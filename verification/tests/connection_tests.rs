use event_bridge::connection::{Connection, ConnectionState, Signal};

#[test]
fn new_connection_is_disconnected() {
    let c = Connection::new();
    assert_eq!(c.state(), ConnectionState::Disconnected);
    assert!(!c.may_publish());
    assert!(!c.is_terminal());
}

#[test]
fn connection_goes_through_connecting_to_connected() {
    let mut c = Connection::new();
    assert!(c.apply(Signal::Open));
    assert_eq!(c.state(), ConnectionState::Connecting);
    assert!(!c.may_publish());
    assert!(c.apply(Signal::Established));
    assert_eq!(c.state(), ConnectionState::Connected);
    assert!(c.may_publish());
    assert!(!c.is_terminal());
}

#[test]
fn connected_connection_ends_disconnected_or_in_error() {
    let mut c = Connection::new();
    c.apply(Signal::Open);
    c.apply(Signal::Established);
    assert!(c.apply(Signal::Closed));
    assert_eq!(c.state(), ConnectionState::Disconnected);
    assert!(c.is_terminal());
    assert!(!c.may_publish());

    let mut c = Connection::new();
    c.apply(Signal::Open);
    c.apply(Signal::Established);
    assert!(c.apply(Signal::Failed));
    assert_eq!(c.state(), ConnectionState::Error);
    assert!(c.is_terminal());
    assert!(!c.may_publish());
}

#[test]
fn failed_connect_ends_in_error() {
    let mut c = Connection::new();
    c.apply(Signal::Open);
    assert!(c.apply(Signal::Failed));
    assert_eq!(c.state(), ConnectionState::Error);
    assert!(c.is_terminal());
}

#[test]
fn ended_connection_takes_no_signal() {
    for last in [Signal::Closed, Signal::Failed] {
        let mut c = Connection::new();
        c.apply(Signal::Open);
        c.apply(Signal::Established);
        c.apply(last);
        let state = c.state();
        for signal in [Signal::Open, Signal::Established, Signal::Closed, Signal::Failed] {
            assert!(!c.apply(signal));
            assert_eq!(c.state(), state);
            assert!(!c.may_publish());
        }
    }
}

#[test]
fn signals_out_of_turn_are_refused() {
    let mut c = Connection::new();
    assert!(!c.apply(Signal::Established));
    assert!(!c.apply(Signal::Closed));
    assert!(!c.apply(Signal::Failed));
    assert_eq!(c.state(), ConnectionState::Disconnected);
    assert!(!c.is_terminal());
    assert!(c.apply(Signal::Open));
    assert!(!c.apply(Signal::Open));
    assert!(!c.apply(Signal::Closed));
    assert_eq!(c.state(), ConnectionState::Connecting);
    assert!(c.apply(Signal::Established));
    assert!(!c.apply(Signal::Established));
    assert!(!c.apply(Signal::Open));
    assert_eq!(c.state(), ConnectionState::Connected);
}
