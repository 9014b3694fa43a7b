use event_bridge::config::{socket_port, DEFAULT_SOCKET_PORT};

#[test]
fn default_socket_port_value() {
    assert_eq!(DEFAULT_SOCKET_PORT, 7177);
}

#[test]
fn socket_port_without_override_is_the_default() {
    assert_eq!(socket_port(None), 7177);
}

#[test]
fn socket_port_takes_a_valid_override() {
    assert_eq!(socket_port(Some("8080")), 8080);
    assert_eq!(socket_port(Some("0")), 0);
    assert_eq!(socket_port(Some("65535")), 65535);
    assert_eq!(socket_port(Some("+3000")), 3000);
    assert_eq!(socket_port(Some("0007177")), 7177);
}

#[test]
fn socket_port_falls_back_on_an_invalid_override() {
    assert_eq!(socket_port(Some("")), 7177);
    assert_eq!(socket_port(Some("abc")), 7177);
    assert_eq!(socket_port(Some("65536")), 7177);
    assert_eq!(socket_port(Some("-1")), 7177);
    assert_eq!(socket_port(Some(" 8080")), 7177);
    assert_eq!(socket_port(Some("8080 ")), 7177);
    assert_eq!(socket_port(Some("80.5")), 7177);
    assert_eq!(socket_port(Some("99999999999999999999999999")), 7177);
}

#[test]
fn socket_port_agrees_with_std_parse_on_samples() {
    let samples = ["1", "80", "443", "65535", "65536", "+1", "+", "x", "", "1e3", "０"];
    for text in samples {
        let expected = text.parse::<u16>().unwrap_or(DEFAULT_SOCKET_PORT);
        assert_eq!(socket_port(Some(text)), expected, "text {:?}", text);
    }
}
