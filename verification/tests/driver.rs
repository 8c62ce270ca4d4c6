use x11_handshake::byteorder::ByteOrder;
use x11_handshake::errors::ConnectionError;
use x11_handshake::handshake::{
    Handshake, HandshakeAction, HandshakeError, HandshakeEvent, HandshakeState,
    RESPONSE_CAPACITY, RETRY_INTERVAL_MS,
};
use x11_handshake::transport::{
    parse_conf, parse_u8, push_decimal, Endpoint, StreamState, TransportError, BASE_PORT,
};

fn conf(name: &str) -> (u8, String, u16, String) {
    let c = parse_conf(name.to_string());
    (c.display_number, c.host, c.port, c.socket_path)
}

#[test]
fn parse_conf_of_display_zero() {
    assert_eq!(
        conf(":0"),
        (0, "127.0.0.1".to_string(), 6000, "/tmp/.X11-unix/X0".to_string())
    );
}

#[test]
fn parse_conf_of_other_displays() {
    assert_eq!(conf(":1"), (1, "127.0.0.1".to_string(), 6001, "/tmp/.X11-unix/X1".to_string()));
    assert_eq!(conf(":10"), (10, "127.0.0.1".to_string(), 6010, "/tmp/.X11-unix/X10".to_string()));
    assert_eq!(
        conf(":255"),
        (255, "127.0.0.1".to_string(), 6255, "/tmp/.X11-unix/X255".to_string())
    );
    assert_eq!(conf("42"), (42, "127.0.0.1".to_string(), 6042, "/tmp/.X11-unix/X42".to_string()));
    assert_eq!(conf("::7"), (7, "127.0.0.1".to_string(), 6007, "/tmp/.X11-unix/X7".to_string()));
    assert_eq!(conf(":+3"), (3, "127.0.0.1".to_string(), 6003, "/tmp/.X11-unix/X3".to_string()));
    assert_eq!(conf(":007"), (7, "127.0.0.1".to_string(), 6007, "/tmp/.X11-unix/X7".to_string()));
}

#[test]
fn parse_conf_defaults_to_display_zero() {
    for name in ["", ":", "::", ":256", ":1000", ":-1", ":0.0", ":x", "host:0", ": 1", ":+", ":1 ", ":١"] {
        assert_eq!(
            conf(name),
            (0, "127.0.0.1".to_string(), 6000, "/tmp/.X11-unix/X0".to_string()),
            "for {:?}",
            name
        );
    }
}

#[test]
fn parse_u8_agrees_with_std() {
    for text in [
        "", "0", "1", "9", "10", "99", "100", "255", "256", "260", "999", "0255", "00000000000001",
        "+", "+0", "+255", "+256", "-1", "-0", "1a", "a1", " 1", "1 ", "++1", "+-1", "12345678901234567890",
    ] {
        assert_eq!(parse_u8(text, 0), text.parse::<u8>().ok(), "for {:?}", text);
    }
}

#[test]
fn parse_u8_from_an_index() {
    assert_eq!(parse_u8(":12", 1), Some(12));
    assert_eq!(parse_u8(":12", 2), Some(2));
    assert_eq!(parse_u8(":12", 3), None);
    assert_eq!(parse_u8("é7", 1), Some(7));
}

#[test]
fn push_decimal_writes_digits() {
    for n in [0u16, 1, 9, 10, 11, 99, 100, 101, 255, 6000, 6255, 9999, 10000, 65535] {
        let mut text = String::from("p");
        push_decimal(&mut text, n);
        assert_eq!(text, format!("p{}", n));
    }
}

#[test]
fn base_port_is_6000() {
    assert_eq!(BASE_PORT, 6000);
}

#[test]
fn local_socket_is_tried_first() {
    let c = parse_conf(":3".to_string());
    match c.first_endpoint() {
        Endpoint::Unix(path) => assert_eq!(path, "/tmp/.X11-unix/X3"),
        other => panic!("unexpected endpoint: {:?}", other),
    }
}

#[test]
fn tcp_follows_a_failed_local_socket() {
    for n in [0u16, 1, 5, 255] {
        let c = parse_conf(format!(":{}", n));
        let first = c.first_endpoint();
        match c.fallback(&first) {
            Some(Endpoint::Tcp(host, port)) => {
                assert_eq!(host, "127.0.0.1");
                assert_eq!(port, 6000 + n);
            }
            other => panic!("unexpected endpoint: {:?}", other),
        }
    }
}

#[test]
fn nothing_follows_a_failed_tcp_endpoint() {
    let c = parse_conf(":0".to_string());
    let tcp = c.fallback(&c.first_endpoint()).unwrap();
    assert!(c.fallback(&tcp).is_none());
    assert!(c.fallback(&Endpoint::Tcp("elsewhere".to_string(), 1)).is_none());
}

#[test]
fn tcp_address_is_host_colon_port() {
    for (name, address) in [
        (":0", "127.0.0.1:6000"),
        (":12", "127.0.0.1:6012"),
        (":255", "127.0.0.1:6255"),
        ("nonsense", "127.0.0.1:6000"),
    ] {
        let c = parse_conf(name.to_string());
        let tcp = c.fallback(&c.first_endpoint()).unwrap();
        assert_eq!(tcp.address(), address);
    }
    assert_eq!(Endpoint::Tcp("example.org".to_string(), 65535).address(), "example.org:65535");
    assert_eq!(Endpoint::Tcp("h".to_string(), 0).address(), "h:0");
}

#[test]
fn unix_address_is_the_path() {
    assert_eq!(parse_conf(":4".to_string()).first_endpoint().address(), "/tmp/.X11-unix/X4");
    assert_eq!(Endpoint::Unix("/run/x".to_string()).address(), "/run/x");
}

#[test]
fn stream_states_follow_connect_and_close() {
    assert_eq!(StreamState::Unopened.after_connect(true), StreamState::Connected);
    assert_eq!(StreamState::Unopened.after_connect(false), StreamState::Unopened);
    assert_eq!(StreamState::Connected.after_connect(false), StreamState::Connected);
    assert_eq!(StreamState::Closed.after_connect(true), StreamState::Closed);
    assert_eq!(StreamState::Connected.after_close(), StreamState::Closed);
    assert_eq!(StreamState::Unopened.after_close(), StreamState::Unopened);
    assert_eq!(StreamState::Closed.after_close(), StreamState::Closed);
}

#[test]
fn only_a_connected_transport_is_ready() {
    assert_eq!(StreamState::Unopened.ready(), Err(TransportError::NotConnected));
    assert_eq!(StreamState::Connected.ready(), Ok(()));
    assert_eq!(StreamState::Closed.ready(), Err(TransportError::NotConnected));
}

fn credentials() -> Vec<u8> {
    let mut file = Vec::new();
    for (name, data) in [(&b"MIT-MAGIC-COOKIE-1"[..], [7u8; 16]), (&b"OTHER"[..], [9u8; 16])] {
        file.extend_from_slice(&256u16.to_be_bytes());
        file.extend_from_slice(&4u16.to_be_bytes());
        file.extend_from_slice(b"host");
        file.extend_from_slice(&1u16.to_be_bytes());
        file.extend_from_slice(b"0");
        file.extend_from_slice(&(name.len() as u16).to_be_bytes());
        file.extend_from_slice(name);
        file.extend_from_slice(&16u16.to_be_bytes());
        file.extend_from_slice(&data);
    }
    file
}

fn request_bytes() -> Vec<u8> {
    let mut out = vec![b'l', 0, 11, 0, 0, 0, 18, 0, 16, 0, 0, 0];
    out.extend_from_slice(b"MIT-MAGIC-COOKIE-1");
    out.extend_from_slice(&[0, 0]);
    out.extend_from_slice(&[7u8; 16]);
    out
}

fn accepting_reply() -> Vec<u8> {
    let mut out = vec![1u8, 0, 11, 0, 0, 0, 0, 0];
    out.extend_from_slice(&[0u8; 16]);
    out.extend_from_slice(&[2, 0, 0xff, 0xff, 0, 0, 0, 0, 32, 32, 8, 255, 0, 0, 0, 0]);
    out.extend_from_slice(b"ok\0\0");
    out.resize(RESPONSE_CAPACITY, 0);
    out
}

fn awaiting() -> Handshake {
    let mut h = Handshake::new_with(ByteOrder::Little);
    assert!(matches!(h.step(HandshakeEvent::Started), HandshakeAction::LoadCredentials));
    assert!(matches!(h.step(HandshakeEvent::Credentials(credentials())), HandshakeAction::Write));
    assert!(matches!(h.step(HandshakeEvent::Written(48)), HandshakeAction::SetNonBlocking));
    assert!(matches!(h.step(HandshakeEvent::NonBlocking), HandshakeAction::Read(1000)));
    assert_eq!(h.state, HandshakeState::AwaitingResponse);
    h
}

#[test]
fn handshake_constants() {
    assert_eq!(RESPONSE_CAPACITY, 1000);
    assert_eq!(RETRY_INTERVAL_MS, 1000);
}

#[test]
fn handshake_starts_idle() {
    let h = Handshake::new();
    assert_eq!(h.state, HandshakeState::Idle);
    assert!(h.payload.is_empty());
    assert_eq!(h.written, 0);
    assert!(h.pending().is_empty());
    let h = Handshake::new_with(ByteOrder::Big);
    assert_eq!(h.state, HandshakeState::Idle);
    assert_eq!(h.order, ByteOrder::Big);
}

#[test]
fn handshake_runs_to_an_established_connection() {
    let mut h = Handshake::new_with(ByteOrder::Little);
    assert!(matches!(h.step(HandshakeEvent::Started), HandshakeAction::LoadCredentials));
    assert_eq!(h.state, HandshakeState::Idle);

    assert!(matches!(h.step(HandshakeEvent::Credentials(credentials())), HandshakeAction::Write));
    assert_eq!(h.state, HandshakeState::AuthParsed);
    assert_eq!(h.payload, request_bytes());
    assert_eq!(h.pending(), &request_bytes()[..]);

    assert!(matches!(h.step(HandshakeEvent::Written(10)), HandshakeAction::Write));
    assert_eq!(h.state, HandshakeState::AuthParsed);
    assert_eq!(h.written, 10);
    assert_eq!(h.pending(), &request_bytes()[10..]);

    assert!(matches!(h.step(HandshakeEvent::Written(0)), HandshakeAction::Write));
    assert_eq!(h.written, 10);

    assert!(matches!(h.step(HandshakeEvent::Written(37)), HandshakeAction::Write));
    assert_eq!(h.written, 47);
    assert_eq!(h.pending(), &[7u8][..]);

    assert!(matches!(h.step(HandshakeEvent::Written(1)), HandshakeAction::SetNonBlocking));
    assert_eq!(h.state, HandshakeState::RequestSent);
    assert_eq!(h.written, 48);
    assert!(h.pending().is_empty());

    assert!(matches!(
        h.step(HandshakeEvent::NonBlocking),
        HandshakeAction::Read(RESPONSE_CAPACITY)
    ));
    assert_eq!(h.state, HandshakeState::AwaitingResponse);

    assert!(matches!(
        h.step(HandshakeEvent::WouldBlock),
        HandshakeAction::Sleep(RETRY_INTERVAL_MS)
    ));
    assert_eq!(h.state, HandshakeState::AwaitingResponse);
    assert!(matches!(h.step(HandshakeEvent::Woke), HandshakeAction::Read(RESPONSE_CAPACITY)));
    assert!(matches!(h.step(HandshakeEvent::WouldBlock), HandshakeAction::Sleep(1000)));
    assert!(matches!(h.step(HandshakeEvent::Woke), HandshakeAction::Read(1000)));
    assert_eq!(h.state, HandshakeState::AwaitingResponse);

    match h.step(HandshakeEvent::Received(accepting_reply())) {
        HandshakeAction::Finish(setup) => {
            assert_eq!(setup.success, 1);
            assert_eq!(setup.protocol_major_version, 11);
            assert_eq!(setup.vendor, "ok");
            assert_eq!(setup.maximum_request_length, 65535);
            assert!(setup.pixmap_formats.is_empty());
            assert!(setup.roots.is_empty());
        }
        other => panic!("unexpected action: {:?}", other),
    }
    assert_eq!(h.state, HandshakeState::ResponseDecoded);
}

#[test]
fn handshake_writes_in_the_order_it_was_made_with() {
    let mut h = Handshake::new_with(ByteOrder::Big);
    h.step(HandshakeEvent::Started);
    h.step(HandshakeEvent::Credentials(credentials()));
    assert_eq!(&h.payload[..12], &[b'B', 0, 0, 11, 0, 0, 0, 18, 0, 16, 0, 0]);
    assert_eq!(h.payload.len(), 48);
}

#[test]
fn handshake_takes_a_write_of_more_than_was_pending() {
    let mut h = Handshake::new_with(ByteOrder::Little);
    h.step(HandshakeEvent::Credentials(credentials()));
    assert!(matches!(h.step(HandshakeEvent::Written(usize::MAX)), HandshakeAction::SetNonBlocking));
    assert_eq!(h.written, 48);
    assert_eq!(h.state, HandshakeState::RequestSent);
}

#[test]
fn handshake_without_an_authority_file() {
    let mut h = Handshake::new();
    h.step(HandshakeEvent::Started);
    assert!(matches!(
        h.step(HandshakeEvent::CredentialsMissing),
        HandshakeAction::Abort(HandshakeError::CredentialSourceMissing)
    ));
    assert_eq!(h.state, HandshakeState::Failed);
}

#[test]
fn handshake_without_credentials() {
    for file in [Vec::new(), vec![0u8; 9], credentials()[..20].to_vec()] {
        let mut h = Handshake::new();
        h.step(HandshakeEvent::Started);
        assert!(matches!(
            h.step(HandshakeEvent::Credentials(file)),
            HandshakeAction::Abort(HandshakeError::NoCredentials)
        ));
        assert_eq!(h.state, HandshakeState::Failed);
    }
}

#[test]
fn handshake_write_failure_is_fatal() {
    let mut h = Handshake::new();
    h.step(HandshakeEvent::Credentials(credentials()));
    h.step(HandshakeEvent::Written(5));
    assert!(matches!(
        h.step(HandshakeEvent::WriteFailed),
        HandshakeAction::Abort(HandshakeError::WriteFailed)
    ));
    assert_eq!(h.state, HandshakeState::Failed);
}

#[test]
fn handshake_read_failure_is_fatal() {
    let mut h = awaiting();
    assert!(matches!(
        h.step(HandshakeEvent::ReadFailed),
        HandshakeAction::Abort(HandshakeError::ReadFailed)
    ));
    assert_eq!(h.state, HandshakeState::Failed);
}

#[test]
fn handshake_replies_that_are_no_acceptance() {
    let mut short = accepting_reply();
    short.truncate(41);
    for (reply, error) in [
        (vec![0u8; 1000], ConnectionError::ConnectionRefused),
        (vec![2u8; 1000], ConnectionError::FurtherAuthenticationRequired),
        (vec![3u8; 1000], ConnectionError::InvalidResponseFromServer),
        (vec![255u8; 8], ConnectionError::InvalidResponseFromServer),
        (Vec::new(), ConnectionError::InvalidResponseFromServer),
        (short, ConnectionError::ConnectionNotEstablished),
    ] {
        let mut h = awaiting();
        match h.step(HandshakeEvent::Received(reply)) {
            HandshakeAction::Abort(HandshakeError::Connection(e)) => assert_eq!(e, error),
            other => panic!("unexpected action: {:?}", other),
        }
        assert_eq!(h.state, HandshakeState::Failed);
    }
}

#[test]
fn handshake_refuses_events_out_of_turn() {
    let mut h = Handshake::new();
    assert!(matches!(
        h.step(HandshakeEvent::Written(3)),
        HandshakeAction::Abort(HandshakeError::OutOfTurn)
    ));
    assert_eq!(h.state, HandshakeState::Failed);
    assert!(matches!(
        h.step(HandshakeEvent::Started),
        HandshakeAction::Abort(HandshakeError::OutOfTurn)
    ));

    let mut h = awaiting();
    assert!(matches!(
        h.step(HandshakeEvent::Credentials(credentials())),
        HandshakeAction::Abort(HandshakeError::OutOfTurn)
    ));
    assert_eq!(h.state, HandshakeState::Failed);

    let mut h = awaiting();
    h.step(HandshakeEvent::Received(accepting_reply()));
    assert_eq!(h.state, HandshakeState::ResponseDecoded);
    assert!(matches!(
        h.step(HandshakeEvent::Woke),
        HandshakeAction::Abort(HandshakeError::OutOfTurn)
    ));
    assert_eq!(h.state, HandshakeState::ResponseDecoded);

    let mut h = Handshake::new();
    h.step(HandshakeEvent::Credentials(credentials()));
    assert!(matches!(
        h.step(HandshakeEvent::NonBlocking),
        HandshakeAction::Abort(HandshakeError::OutOfTurn)
    ));
}
