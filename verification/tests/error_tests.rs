use tf2_server_relay::error::RelayError;

#[test]
fn error_codes_by_group() {
    assert_eq!(RelayError::ConnectionRefused.code(), 1000);
    assert_eq!(RelayError::ServerFull { max: 4 }.code(), 1001);
    assert_eq!(RelayError::DuplicateId { id: 1 }.code(), 1002);
    assert_eq!(RelayError::HandshakeTimeout { timeout_ms: 5 }.code(), 1003);
    assert_eq!(RelayError::HeartbeatTimeout { timeout_ms: 5 }.code(), 1004);
    assert_eq!(RelayError::InvalidMagic { got: 0 }.code(), 2000);
    assert_eq!(RelayError::UnsupportedVersion { version: 9 }.code(), 2001);
    assert_eq!(RelayError::UnknownPacketType { packet_type: 9 }.code(), 2002);
    assert_eq!(RelayError::ChecksumMismatch { expected: 1, got: 2 }.code(), 2003);
    assert_eq!(RelayError::PayloadTooLarge { size: 5000, max: 4096 }.code(), 2004);
    assert_eq!(RelayError::MalformedPacket { reason: String::new() }.code(), 2005);
    assert_eq!(RelayError::RelayShutdown.code(), 3000);
    assert_eq!(RelayError::InternalError { message: String::new() }.code(), 3001);
    assert_eq!(RelayError::Io(std::io::Error::new(std::io::ErrorKind::Other, "x")).code(), 3001);
    assert_eq!(RelayError::Config(String::new()).code(), 3001);
    assert_eq!(RelayError::Parse(String::new()).code(), 2005);
}

#[test]
fn recoverable_errors() {
    assert!(RelayError::ChecksumMismatch { expected: 1, got: 2 }.is_recoverable());
    assert!(RelayError::UnknownPacketType { packet_type: 9 }.is_recoverable());
    assert!(RelayError::MalformedPacket { reason: String::new() }.is_recoverable());
    assert!(!RelayError::InvalidMagic { got: 0 }.is_recoverable());
    assert!(!RelayError::Parse(String::new()).is_recoverable());
    assert!(!RelayError::RelayShutdown.is_recoverable());
}

#[test]
fn error_messages() {
    assert_eq!(RelayError::ConnectionRefused.message(), "Connection refused (1000)");
    assert_eq!(
        RelayError::ServerFull { max: 4 }.message(),
        "Server full - maximum 4 servers already connected (1001)"
    );
    assert_eq!(RelayError::DuplicateId { id: 2 }.message(), "Duplicate server ID 2 already in use (1002)");
    assert_eq!(
        RelayError::HandshakeTimeout { timeout_ms: 5000 }.message(),
        "Handshake timeout - no handshake received in 5000ms (1003)"
    );
    assert_eq!(
        RelayError::HeartbeatTimeout { timeout_ms: 10 }.message(),
        "Heartbeat timeout - no heartbeat received in 10ms (1004)"
    );
    assert_eq!(
        RelayError::InvalidMagic { got: 0x12AB }.message(),
        "Invalid magic bytes: expected 0x5446, got 0x12AB (2000)"
    );
    assert_eq!(RelayError::InvalidMagic { got: 0x7 }.message(), "Invalid magic bytes: expected 0x5446, got 0x0007 (2000)");
    assert_eq!(RelayError::UnsupportedVersion { version: 2 }.message(), "Unsupported protocol version 2 (2001)");
    assert_eq!(RelayError::UnknownPacketType { packet_type: 0xA }.message(), "Unknown packet type 0x0A (2002)");
    assert_eq!(
        RelayError::ChecksumMismatch { expected: 0x8D, got: 0x1 }.message(),
        "Checksum mismatch: expected 0x8D, got 0x01 (2003)"
    );
    assert_eq!(
        RelayError::PayloadTooLarge { size: 5000, max: 4096 }.message(),
        "Payload too large: 5000 bytes exceeds maximum 4096 (2004)"
    );
    assert_eq!(
        RelayError::MalformedPacket { reason: "short".to_string() }.message(),
        "Malformed packet: short (2005)"
    );
    assert_eq!(RelayError::RelayShutdown.message(), "Relay server shutting down (3000)");
    assert_eq!(
        RelayError::InternalError { message: "x".to_string() }.message(),
        "Internal relay error: x (3001)"
    );
    assert_eq!(RelayError::Config("bad".to_string()).message(), "Configuration error: bad");
    assert_eq!(RelayError::Parse("bad".to_string()).message(), "Parse error: bad");
    let io = RelayError::Io(std::io::Error::new(std::io::ErrorKind::Other, "disk gone"));
    assert_eq!(io.message(), "IO error: disk gone");
}
