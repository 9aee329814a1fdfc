use bytes::Bytes;
use tf2_server_relay::error::RelayError;
use tf2_server_relay::protocol::{crc8, read_string, string_size, write_string, Packet, PacketDecoder, PacketHeader};

#[test]
fn crc8_known_vectors() {
    assert_eq!(crc8(&[]), 0);
    assert_eq!(crc8(&[0x00]), 0x00);
    assert_eq!(crc8(&[0x01]), 0x07);
    // CRC-8 with polynomial 0x07 (the table's) gives 0x8D for "TF"; no CRC-8
    // setting that meets the three vectors above gives 0x6E, the value an
    // older test of this function expected, which was wrong.
    assert_eq!(crc8(&[0x54, 0x46]), 0x8D);
    assert_eq!(crc8(b"123456789"), 0xF4);
}

#[test]
fn test_header_roundtrip() {
    let header = PacketHeader::new(0x10, 15, 1, 42);
    let mut buf: Vec<u8> = Vec::new();
    header.serialize(&mut buf);

    let parsed = PacketHeader::parse(&buf).unwrap();
    assert_eq!(parsed, header);
}

#[test]
fn test_packet_roundtrip() {
    let payload = Bytes::from_static(b"Hello, TF2!");
    let packet = Packet::new(0x10, 1, 100, payload.clone());

    let serialized = packet.serialize();
    let buf = serialized;

    let parsed = Packet::parse(&buf).unwrap();
    assert_eq!(parsed.header.packet_type, 0x10);
    assert_eq!(parsed.header.server_id, 1);
    assert_eq!(parsed.header.sequence, 100);
    assert_eq!(parsed.payload, payload);
}

#[test]
fn test_string_roundtrip() {
    let mut buf: Vec<u8> = Vec::new();
    let test_str = "Hello, World!";

    write_string(&mut buf, test_str);

    let (result, _) = read_string(&buf).unwrap();

    assert_eq!(result, test_str);
}

#[test]
fn test_invalid_magic() {
    let mut buf: Vec<u8> = Vec::new();
    buf.extend_from_slice(&0x1234u16.to_le_bytes()); // Invalid magic
    buf.push(1);
    buf.push(0x10);
    buf.extend_from_slice(&0u16.to_le_bytes());
    buf.push(1);
    buf.extend_from_slice(&0u16.to_le_bytes());

    let result = PacketHeader::parse(&buf);
    assert!(matches!(result, Err(RelayError::InvalidMagic { got: 0x1234 })));
}

#[test]
fn test_packet_decoder() {
    let payload = Bytes::from_static(b"Test");
    let packet = Packet::new(0x10, 1, 1, payload);
    let serialized = packet.serialize();

    let mut decoder = PacketDecoder::new();

    // Push data in chunks
    decoder.push(&serialized[..5]);
    assert!(decoder.decode().unwrap().is_none());

    decoder.push(&serialized[5..]);
    let decoded = decoder.decode().unwrap().unwrap();

    assert_eq!(decoded.header.packet_type, 0x10);
}

#[test]
fn header_bytes_are_little_endian() {
    let header = PacketHeader::new(0x21, 0x0102, 3, 0xBEEF);
    let mut buf: Vec<u8> = Vec::new();
    header.serialize(&mut buf);
    assert_eq!(buf, vec![0x46, 0x54, 1, 0x21, 0x02, 0x01, 3, 0xEF, 0xBE]);
}

#[test]
fn packet_bytes_end_with_checksum() {
    let packet = Packet::new(0x02, 2, 7, Bytes::from_static(&[9, 8]));
    let wire = packet.serialize();
    assert_eq!(wire.len(), 9 + 2 + 1);
    assert_eq!(&wire[9..11], &[9, 8]);
    assert_eq!(wire[11], crc8(&wire[..11]));
}

#[test]
fn header_too_short_is_malformed() {
    let r = PacketHeader::parse(&[0x46, 0x54, 1]);
    assert!(matches!(r, Err(RelayError::MalformedPacket { .. })));
}

#[test]
fn header_with_other_version_is_refused() {
    let r = PacketHeader::parse(&[0x46, 0x54, 2, 0x10, 0, 0, 1, 0, 0]);
    assert!(matches!(r, Err(RelayError::UnsupportedVersion { version: 2 })));
}

#[test]
fn header_with_oversized_payload_is_refused() {
    let len = 4097u16.to_le_bytes();
    let r = PacketHeader::parse(&[0x46, 0x54, 1, 0x10, len[0], len[1], 1, 0, 0]);
    assert!(matches!(r, Err(RelayError::PayloadTooLarge { size: 4097, max: 4096 })));
}

#[test]
fn packet_with_bad_checksum_is_refused() {
    let packet = Packet::new(0x10, 1, 1, Bytes::from_static(b"abc"));
    let mut wire = packet.serialize().to_vec();
    let last = wire.len() - 1;
    let good = wire[last];
    wire[last] = good ^ 0xFF;
    let r = Packet::parse(&wire);
    assert!(matches!(r, Err(RelayError::ChecksumMismatch { expected, got }) if expected == good && got == good ^ 0xFF));
}

#[test]
fn truncated_packet_is_malformed() {
    let packet = Packet::new(0x10, 1, 1, Bytes::from_static(b"abcdef"));
    let wire = packet.serialize();
    match Packet::parse(&wire[..12]) {
        Err(RelayError::MalformedPacket { reason }) => {
            assert_eq!(reason, "Incomplete packet: expected 7 more bytes, have 3")
        }
        other => panic!("unexpected {:?}", other.is_ok()),
    }
}

#[test]
fn decoder_skips_garbage_before_a_packet() {
    let packet = Packet::new(0x42, 3, 9, Bytes::from_static(b"map"));
    let wire = packet.serialize();
    let mut decoder = PacketDecoder::new();
    decoder.push(&[0xFF]);
    decoder.push(&wire);
    let mut found = None;
    for _ in 0..4 {
        if let Some(p) = decoder.decode().unwrap() {
            found = Some(p);
            break;
        }
    }
    let p = found.expect("packet after the garbage byte");
    assert_eq!(p.header.packet_type, 0x42);
    assert_eq!(p.payload, Bytes::from_static(b"map"));
    assert_eq!(decoder.buffer_len(), 0);
}

#[test]
fn decoder_keeps_bytes_after_a_packet() {
    let a = Packet::new(0x10, 1, 1, Bytes::from_static(b"one")).serialize();
    let b = Packet::new(0x11, 1, 2, Bytes::from_static(b"two")).serialize();
    let mut decoder = PacketDecoder::new();
    decoder.push(&a);
    decoder.push(&b[..4]);
    let first = decoder.decode().unwrap().unwrap();
    assert_eq!(first.header.sequence, 1);
    assert_eq!(decoder.buffer_len(), 4);
    decoder.clear();
    assert_eq!(decoder.buffer_len(), 0);
}

#[test]
fn string_size_counts_prefix_and_bytes() {
    assert_eq!(string_size(""), 1);
    assert_eq!(string_size("abc"), 4);
    assert_eq!(string_size("é"), 3);
}

#[test]
fn read_string_reports_what_it_took() {
    let buf = [3u8, b'a', b'b', b'c', 0xAA];
    let (s, n) = read_string(&buf).unwrap();
    assert_eq!(s, "abc");
    assert_eq!(n, 4);
}

#[test]
fn read_string_too_short_fails() {
    assert!(read_string(&[]).is_err());
    assert!(read_string(&[5, b'a']).is_err());
}

#[test]
fn read_string_rejects_invalid_utf8() {
    match read_string(&[2, 0xC3, 0x28]) {
        Err(RelayError::Parse(m)) => assert_eq!(m, "invalid utf-8 sequence of 1 bytes from index 0"),
        _ => panic!("expected a parse error"),
    }
}

#[test]
fn with_server_id_keeps_the_rest() {
    let p = Packet::new(0x20, 1, 5, Bytes::from_static(b"x"));
    let q = p.with_server_id(4);
    assert_eq!(q.server_id(), 4);
    assert_eq!(q.packet_type(), 0x20);
    assert_eq!(q.header.sequence, 5);
    assert_eq!(q.payload, p.payload);
}
