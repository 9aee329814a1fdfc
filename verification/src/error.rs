//! Error type of the relay and its numeric codes.
//!
//! Codes: 1000-1099 connection errors, 2000-2099 protocol errors,
//! 3000-3099 server errors.

use vstd::prelude::*;
use vstd::string::StringExecFns;

use crate::outside::io_error_text;
use crate::text::{decimal, decimal_string, hex2, hex2_string, push_text};

verus! {

/// The I/O error type of std, carried through unchanged.
#[verifier::external_type_specification]
#[verifier::external_body]
pub struct ExIoError(std::io::Error);

/// Main error type for the relay server.
#[derive(Debug)]
#[allow(inconsistent_fields)]
pub enum RelayError {
    ConnectionRefused,
    ServerFull { max: u8 },
    DuplicateId { id: u8 },
    HandshakeTimeout { timeout_ms: u64 },
    HeartbeatTimeout { timeout_ms: u64 },
    InvalidMagic { got: u16 },
    UnsupportedVersion { version: u8 },
    UnknownPacketType { packet_type: u8 },
    ChecksumMismatch { expected: u8, got: u8 },
    PayloadTooLarge { size: usize, max: usize },
    MalformedPacket { reason: String },
    RelayShutdown,
    InternalError { message: String },
    Io(std::io::Error),
    Config(String),
    Parse(String),
}

/// The mathematical content of a [`RelayError`]: every field by its value,
/// text by its characters, and an I/O error by its kind only.
#[verifier::ext_equal]
#[allow(inconsistent_fields)]
pub enum ErrorView {
    ConnectionRefused,
    ServerFull { max: u8 },
    DuplicateId { id: u8 },
    HandshakeTimeout { timeout_ms: u64 },
    HeartbeatTimeout { timeout_ms: u64 },
    InvalidMagic { got: u16 },
    UnsupportedVersion { version: u8 },
    UnknownPacketType { packet_type: u8 },
    ChecksumMismatch { expected: u8, got: u8 },
    PayloadTooLarge { size: usize, max: usize },
    MalformedPacket { reason: Seq<char> },
    RelayShutdown,
    InternalError { message: Seq<char> },
    Io,
    Config(Seq<char>),
    Parse(Seq<char>),
}

impl View for RelayError {
    type V = ErrorView;

    open spec fn view(&self) -> ErrorView {
        match self {
            RelayError::ConnectionRefused => ErrorView::ConnectionRefused,
            RelayError::ServerFull { max } => ErrorView::ServerFull { max: *max },
            RelayError::DuplicateId { id } => ErrorView::DuplicateId { id: *id },
            RelayError::HandshakeTimeout { timeout_ms } => ErrorView::HandshakeTimeout {
                timeout_ms: *timeout_ms,
            },
            RelayError::HeartbeatTimeout { timeout_ms } => ErrorView::HeartbeatTimeout {
                timeout_ms: *timeout_ms,
            },
            RelayError::InvalidMagic { got } => ErrorView::InvalidMagic { got: *got },
            RelayError::UnsupportedVersion { version } => ErrorView::UnsupportedVersion {
                version: *version,
            },
            RelayError::UnknownPacketType { packet_type } => ErrorView::UnknownPacketType {
                packet_type: *packet_type,
            },
            RelayError::ChecksumMismatch { expected, got } => ErrorView::ChecksumMismatch {
                expected: *expected,
                got: *got,
            },
            RelayError::PayloadTooLarge { size, max } => ErrorView::PayloadTooLarge {
                size: *size,
                max: *max,
            },
            RelayError::MalformedPacket { reason } => ErrorView::MalformedPacket { reason: reason@ },
            RelayError::RelayShutdown => ErrorView::RelayShutdown,
            RelayError::InternalError { message } => ErrorView::InternalError {
                message: message@,
            },
            RelayError::Io(_) => ErrorView::Io,
            RelayError::Config(m) => ErrorView::Config(m@),
            RelayError::Parse(m) => ErrorView::Parse(m@),
        }
    }
}

/// The numeric code of each kind of error.
pub open spec fn error_code(e: ErrorView) -> u16 {
    match e {
        ErrorView::ConnectionRefused => 1000,
        ErrorView::ServerFull { .. } => 1001,
        ErrorView::DuplicateId { .. } => 1002,
        ErrorView::HandshakeTimeout { .. } => 1003,
        ErrorView::HeartbeatTimeout { .. } => 1004,
        ErrorView::InvalidMagic { .. } => 2000,
        ErrorView::UnsupportedVersion { .. } => 2001,
        ErrorView::UnknownPacketType { .. } => 2002,
        ErrorView::ChecksumMismatch { .. } => 2003,
        ErrorView::PayloadTooLarge { .. } => 2004,
        ErrorView::MalformedPacket { .. } => 2005,
        ErrorView::RelayShutdown => 3000,
        ErrorView::InternalError { .. } => 3001,
        ErrorView::Io => 3001,
        ErrorView::Config(_) => 3001,
        ErrorView::Parse(_) => 2005,
    }
}

/// Four upper-case hexadecimal digits of a 16-bit number, as `{:04X}`
/// renders it.
pub open spec fn hex4(x: u16) -> Seq<char> {
    hex2((x / 256) as u8) + hex2((x % 256) as u8)
}

/// Whether the message of an error ends with its code in brackets: all but
/// I/O, configuration and parse errors.
pub open spec fn shows_code(e: ErrorView) -> bool {
    !(e is Io || e is Config || e is Parse)
}

/// The message of an error without its code (for an I/O error, the start of
/// its message).
pub open spec fn error_body(e: ErrorView) -> Seq<char> {
    match e {
        ErrorView::ConnectionRefused => "Connection refused"@,
        ErrorView::ServerFull { max } => "Server full - maximum "@ + decimal(max as nat)
            + " servers already connected"@,
        ErrorView::DuplicateId { id } => "Duplicate server ID "@ + decimal(id as nat) + " already in use"@,
        ErrorView::HandshakeTimeout { timeout_ms } => "Handshake timeout - no handshake received in "@
            + decimal(timeout_ms as nat) + "ms"@,
        ErrorView::HeartbeatTimeout { timeout_ms } => "Heartbeat timeout - no heartbeat received in "@
            + decimal(timeout_ms as nat) + "ms"@,
        ErrorView::InvalidMagic { got } => "Invalid magic bytes: expected 0x5446, got 0x"@ + hex4(got),
        ErrorView::UnsupportedVersion { version } => "Unsupported protocol version "@ + decimal(version as nat),
        ErrorView::UnknownPacketType { packet_type } => "Unknown packet type 0x"@ + hex2(packet_type),
        ErrorView::ChecksumMismatch { expected, got } => "Checksum mismatch: expected 0x"@ + hex2(expected)
            + ", got 0x"@ + hex2(got),
        ErrorView::PayloadTooLarge { size, max } => "Payload too large: "@ + decimal(size as nat)
            + " bytes exceeds maximum "@ + decimal(max as nat),
        ErrorView::MalformedPacket { reason } => "Malformed packet: "@ + reason,
        ErrorView::RelayShutdown => "Relay server shutting down"@,
        ErrorView::InternalError { message } => "Internal relay error: "@ + message,
        ErrorView::Io => "IO error: "@,
        ErrorView::Config(m) => "Configuration error: "@ + m,
        ErrorView::Parse(m) => "Parse error: "@ + m,
    }
}

/// The message of an error: its text, then its code in brackets where it
/// shows one (for an I/O error, the start of its message).
pub open spec fn error_text(e: ErrorView) -> Seq<char> {
    if shows_code(e) {
        error_body(e) + " ("@ + decimal(error_code(e) as nat) + ")"@
    } else {
        error_body(e)
    }
}

/// The errors after which a connection may go on reading packets.
pub open spec fn error_is_recoverable(e: ErrorView) -> bool {
    ||| e is ChecksumMismatch
    ||| e is UnknownPacketType
    ||| e is MalformedPacket
}

impl RelayError {
    /// Get the numeric error code for this error.
    pub fn code(&self) -> (c: u16)
        ensures
            c == error_code(self@),
    {
        match self {
            RelayError::ConnectionRefused => 1000,
            RelayError::ServerFull { .. } => 1001,
            RelayError::DuplicateId { .. } => 1002,
            RelayError::HandshakeTimeout { .. } => 1003,
            RelayError::HeartbeatTimeout { .. } => 1004,
            RelayError::InvalidMagic { .. } => 2000,
            RelayError::UnsupportedVersion { .. } => 2001,
            RelayError::UnknownPacketType { .. } => 2002,
            RelayError::ChecksumMismatch { .. } => 2003,
            RelayError::PayloadTooLarge { .. } => 2004,
            RelayError::MalformedPacket { .. } => 2005,
            RelayError::RelayShutdown => 3000,
            RelayError::InternalError { .. } => 3001,
            RelayError::Io(_) => 3001,
            RelayError::Config(_) => 3001,
            RelayError::Parse(_) => 2005,
        }
    }

    /// The human-readable message of this error; all but I/O, configuration
    /// and parse errors end with their code in brackets.
    pub fn message(&self) -> (s: String)
        ensures
            !(self@ is Io) ==> s@ == error_text(self@),
            self@ is Io ==> exists|t: Seq<char>| s@ == error_text(self@) + t,
    {
        let mut s = match self {
            RelayError::ConnectionRefused => String::from_str("Connection refused"),
            RelayError::ServerFull { max } => {
                let mut s = String::from_str("Server full - maximum ");
                push_text(&mut s, decimal_string(*max as u64).as_str());
                push_text(&mut s, " servers already connected");
                s
            },
            RelayError::DuplicateId { id } => {
                let mut s = String::from_str("Duplicate server ID ");
                push_text(&mut s, decimal_string(*id as u64).as_str());
                push_text(&mut s, " already in use");
                s
            },
            RelayError::HandshakeTimeout { timeout_ms } => {
                let mut s = String::from_str("Handshake timeout - no handshake received in ");
                push_text(&mut s, decimal_string(*timeout_ms).as_str());
                push_text(&mut s, "ms");
                s
            },
            RelayError::HeartbeatTimeout { timeout_ms } => {
                let mut s = String::from_str("Heartbeat timeout - no heartbeat received in ");
                push_text(&mut s, decimal_string(*timeout_ms).as_str());
                push_text(&mut s, "ms");
                s
            },
            RelayError::InvalidMagic { got } => {
                let mut s = String::from_str("Invalid magic bytes: expected 0x5446, got 0x");
                push_text(&mut s, hex2_string((*got / 256) as u8).as_str());
                push_text(&mut s, hex2_string((*got % 256) as u8).as_str());
                s
            },
            RelayError::UnsupportedVersion { version } => {
                let mut s = String::from_str("Unsupported protocol version ");
                push_text(&mut s, decimal_string(*version as u64).as_str());
                s
            },
            RelayError::UnknownPacketType { packet_type } => {
                let mut s = String::from_str("Unknown packet type 0x");
                push_text(&mut s, hex2_string(*packet_type).as_str());
                s
            },
            RelayError::ChecksumMismatch { expected, got } => {
                let mut s = String::from_str("Checksum mismatch: expected 0x");
                push_text(&mut s, hex2_string(*expected).as_str());
                push_text(&mut s, ", got 0x");
                push_text(&mut s, hex2_string(*got).as_str());
                s
            },
            RelayError::PayloadTooLarge { size, max } => {
                let mut s = String::from_str("Payload too large: ");
                push_text(&mut s, decimal_string(*size as u64).as_str());
                push_text(&mut s, " bytes exceeds maximum ");
                push_text(&mut s, decimal_string(*max as u64).as_str());
                s
            },
            RelayError::MalformedPacket { reason } => {
                let mut s = String::from_str("Malformed packet: ");
                push_text(&mut s, reason.as_str());
                s
            },
            RelayError::RelayShutdown => String::from_str("Relay server shutting down"),
            RelayError::InternalError { message } => {
                let mut s = String::from_str("Internal relay error: ");
                push_text(&mut s, message.as_str());
                s
            },
            RelayError::Io(e) => {
                let mut s = String::from_str("IO error: ");
                let detail = io_error_text(e);
                push_text(&mut s, detail.as_str());
                assert(s@ == error_text(self@) + detail@);
                return s;
            },
            RelayError::Config(m) => {
                let mut s = String::from_str("Configuration error: ");
                push_text(&mut s, m.as_str());
                return s;
            },
            RelayError::Parse(m) => {
                let mut s = String::from_str("Parse error: ");
                push_text(&mut s, m.as_str());
                return s;
            },
        };
        push_text(&mut s, " (");
        push_text(&mut s, decimal_string(self.code() as u64).as_str());
        push_text(&mut s, ")");
        s
    }

    /// Check if this error is recoverable (connection can continue).
    pub fn is_recoverable(&self) -> (r: bool)
        ensures
            r == error_is_recoverable(self@),
    {
        match self {
            RelayError::ChecksumMismatch { .. } => true,
            RelayError::UnknownPacketType { .. } => true,
            RelayError::MalformedPacket { .. } => true,
            _ => false,
        }
    }
}

/// Only protocol errors (the 2000 range) are recoverable, and of those only a
/// checksum mismatch, an unknown packet type and a malformed packet.
pub proof fn lemma_recoverable_errors_are_protocol_errors(e: ErrorView)
    ensures
        error_is_recoverable(e) ==> 2000 <= error_code(e) < 2100,
        error_is_recoverable(e) <==> (e is ChecksumMismatch || e is UnknownPacketType || e is MalformedPacket),
{
}

/// The message of every error that shows a code ends with that code in
/// brackets, and the code lies in the range of its group.
pub proof fn lemma_message_ends_with_code(e: ErrorView)
    requires
        shows_code(e),
    ensures
        ({
            let t = error_text(e);
            let tail = " ("@ + decimal(error_code(e) as nat) + ")"@;
            &&& t.len() >= tail.len()
            &&& t.subrange(t.len() - tail.len(), t.len() as int) == tail
        }),
        1000 <= error_code(e) < 1100 || 2000 <= error_code(e) < 2100 || 3000 <= error_code(e) < 3100,
{
    let tail = " ("@ + decimal(error_code(e) as nat) + ")"@;
    let t = error_text(e);
    assert(t == error_body(e) + tail);
    assert(t.subrange(t.len() - tail.len(), t.len() as int) =~= tail);
}

/// The documented codes: connection errors 1000 (refused), 1001 (server
/// full), 1002 (duplicate id), 1003 (handshake timeout), 1004 (heartbeat
/// timeout); protocol errors 2000 (magic), 2001 (version), 2002 (packet
/// type), 2003 (checksum), 2004 (payload size), 2005 (malformed, and parse
/// errors); server errors 3000 (shutdown) and 3001 (internal, I/O and
/// configuration errors).
pub proof fn lemma_error_codes(e: ErrorView)
    ensures
        e is ConnectionRefused ==> error_code(e) == 1000,
        e is ServerFull ==> error_code(e) == 1001,
        e is DuplicateId ==> error_code(e) == 1002,
        e is HandshakeTimeout ==> error_code(e) == 1003,
        e is HeartbeatTimeout ==> error_code(e) == 1004,
        e is InvalidMagic ==> error_code(e) == 2000,
        e is UnsupportedVersion ==> error_code(e) == 2001,
        e is UnknownPacketType ==> error_code(e) == 2002,
        e is ChecksumMismatch ==> error_code(e) == 2003,
        e is PayloadTooLarge ==> error_code(e) == 2004,
        (e is MalformedPacket || e is Parse) ==> error_code(e) == 2005,
        e is RelayShutdown ==> error_code(e) == 3000,
        (e is InternalError || e is Io || e is Config) ==> error_code(e) == 3001,
{
}

} // verus!
