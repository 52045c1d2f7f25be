use sidecar_host::parser::parse_handshake_line;

#[test]
fn no_marker_line_yields_none() {
    assert_eq!(parse_handshake_line(b"listening for requests"), None);
    assert_eq!(parse_handshake_line(b""), None);
    assert_eq!(parse_handshake_line(b"PORT=8080"), None);
    assert_eq!(parse_handshake_line(b"server_port=8080"), None);
}

#[test]
fn handshake_line_yields_port() {
    assert_eq!(parse_handshake_line(b"SERVER_PORT=54321"), Some(54321));
    assert_eq!(parse_handshake_line(b"SERVER_PORT=1"), Some(1));
    assert_eq!(parse_handshake_line(b"SERVER_PORT=65535"), Some(65535));
}

#[test]
fn unparsable_port_yields_none() {
    assert_eq!(parse_handshake_line(b"SERVER_PORT=notanumber"), None);
    assert_eq!(parse_handshake_line(b"SERVER_PORT="), None);
    assert_eq!(parse_handshake_line(b"SERVER_PORT=12a4"), None);
    assert_eq!(parse_handshake_line(b"SERVER_PORT=-1"), None);
}

#[test]
fn port_out_of_range_yields_none() {
    assert_eq!(parse_handshake_line(b"SERVER_PORT=65536"), None);
    assert_eq!(parse_handshake_line(b"SERVER_PORT=70000"), None);
    assert_eq!(parse_handshake_line(b"SERVER_PORT=99999999999999999999"), None);
}

#[test]
fn surrounding_text_and_whitespace_are_tolerated() {
    assert_eq!(parse_handshake_line(b"2024 INFO SERVER_PORT=8080"), Some(8080));
    assert_eq!(parse_handshake_line(b"SERVER_PORT= 8080 \r\n"), Some(8080));
    assert_eq!(parse_handshake_line(b"\tSERVER_PORT=\t443\t"), Some(443));
}

#[test]
fn segment_after_last_equals_is_used() {
    assert_eq!(parse_handshake_line(b"env=prod SERVER_PORT=1234"), Some(1234));
    assert_eq!(parse_handshake_line(b"SERVER_PORT=8080 mode=debug"), None);
    assert_eq!(parse_handshake_line(b"SERVER_PORT=8080 extra"), None);
}

#[test]
fn parse_matches_standard_integer_parsing() {
    // str::parse::<u16> accepts a leading plus sign and the value zero.
    assert_eq!(parse_handshake_line(b"SERVER_PORT=+443"), Some(443));
    assert_eq!(parse_handshake_line(b"SERVER_PORT=+"), None);
    assert_eq!(parse_handshake_line(b"SERVER_PORT=0"), Some(0));
    assert_eq!(parse_handshake_line(b"SERVER_PORT=007"), Some(7));
}
