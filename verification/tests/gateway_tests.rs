use event_bridge::event::Event;
use event_bridge::gateway::{ConsumerGateway, Delivery, GatewayInput};

fn message(text: &str) -> Event {
    Event::emulator_message(text.to_string())
}

fn delivery(client: u64, text: &str) -> Delivery {
    Delivery { client, event: message(text) }
}

#[test]
fn broadcast_without_consumers_delivers_nothing() {
    let mut gateway = ConsumerGateway::new();
    assert_eq!(gateway.client_count(), 0);
    assert_eq!(gateway.step(GatewayInput::Broadcast(message("x"))), Vec::new());
}

#[test]
fn broadcast_reaches_every_consumer_in_order_of_connection() {
    let mut gateway = ConsumerGateway::new();
    assert_eq!(gateway.step(GatewayInput::Connected(30)), Vec::new());
    assert_eq!(gateway.step(GatewayInput::Connected(10)), Vec::new());
    assert_eq!(gateway.step(GatewayInput::Connected(20)), Vec::new());
    assert_eq!(gateway.client_count(), 3);
    assert_eq!(
        gateway.step(GatewayInput::Broadcast(message("x"))),
        vec![delivery(30, "x"), delivery(10, "x"), delivery(20, "x")]
    );
    assert_eq!(gateway.client_count(), 3);
}

#[test]
fn consumer_connects_once() {
    let mut gateway = ConsumerGateway::new();
    gateway.step(GatewayInput::Connected(1));
    gateway.step(GatewayInput::Connected(1));
    assert_eq!(gateway.client_count(), 1);
    assert_eq!(gateway.step(GatewayInput::Broadcast(message("x"))), vec![delivery(1, "x")]);
}

#[test]
fn failed_write_removes_the_consumer() {
    let mut gateway = ConsumerGateway::new();
    gateway.step(GatewayInput::Connected(1));
    gateway.step(GatewayInput::Connected(2));
    gateway.step(GatewayInput::Connected(3));
    assert_eq!(gateway.step(GatewayInput::WriteFailed(2)), Vec::new());
    assert!(!gateway.is_connected(2));
    assert!(gateway.is_connected(1));
    assert!(gateway.is_connected(3));
    assert_eq!(
        gateway.step(GatewayInput::Broadcast(message("x"))),
        vec![delivery(1, "x"), delivery(3, "x")]
    );
    assert_eq!(gateway.step(GatewayInput::WriteFailed(2)), Vec::new());
    assert_eq!(gateway.client_count(), 2);
}

#[test]
fn disconnect_removes_the_consumer() {
    let mut gateway = ConsumerGateway::new();
    gateway.step(GatewayInput::Connected(1));
    gateway.step(GatewayInput::Connected(2));
    assert_eq!(gateway.step(GatewayInput::Disconnected(1)), Vec::new());
    assert_eq!(gateway.step(GatewayInput::Broadcast(message("x"))), vec![delivery(2, "x")]);
    gateway.step(GatewayInput::Connected(1));
    assert_eq!(
        gateway.step(GatewayInput::Broadcast(message("y"))),
        vec![delivery(2, "y"), delivery(1, "y")]
    );
}

#[test]
fn inbound_message_changes_nothing() {
    let mut gateway = ConsumerGateway::new();
    gateway.step(GatewayInput::Connected(1));
    assert_eq!(gateway.step(GatewayInput::Inbound(1, "ping".to_string())), Vec::new());
    assert_eq!(gateway.step(GatewayInput::Inbound(9, "stranger".to_string())), Vec::new());
    assert_eq!(gateway.client_count(), 1);
    assert!(gateway.is_connected(1));
    assert!(!gateway.is_connected(9));
}
