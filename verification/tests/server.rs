use octoweb::server::{allowed_origins, hex_token, parse_u16, port_from, DEFAULT_PORT};

#[test]
fn port_comes_from_configuration_when_it_parses() {
    assert_eq!(port_from(None), DEFAULT_PORT);
    assert_eq!(port_from(Some("8080")), 8080);
    assert_eq!(port_from(Some("+81")), 81);
    assert_eq!(port_from(Some("70000")), DEFAULT_PORT);
    assert_eq!(port_from(Some("")), DEFAULT_PORT);
    assert_eq!(port_from(Some("80a")), DEFAULT_PORT);
    assert_eq!(parse_u16("65535"), Some(65535));
    assert_eq!(parse_u16("65536"), None);
    assert_eq!(parse_u16("+"), None);
    assert_eq!(parse_u16("007"), Some(7));
}

#[test]
fn origins_are_the_loopback_names_of_the_port() {
    assert_eq!(
        allowed_origins(3434),
        vec!["http://localhost:3434", "http://127.0.0.1:3434", "http://[::1]:3434"]
    );
}

#[test]
fn tokens_are_lowercase_hex() {
    assert_eq!(hex_token(&[0x00, 0x0f, 0xa5, 0xff]), "000fa5ff");
    assert_eq!(hex_token(&[0u8; 16]).len(), 32);
}
