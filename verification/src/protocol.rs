//! Binary protocol: packet header, packet framing with its CRC-8, the
//! length-prefixed string encoding, and the streaming decoder.
//!
//! Packet structure (little-endian):
//! `[MAGIC:2][VER:1][TYPE:1][LEN:2][SRV:1][SEQ:2][PAYLOAD:var][CRC:1]`
//!
//! - Magic: 0x5446 ('TF')
//! - Version: protocol version (currently 1)
//! - Type: packet type id
//! - Length: payload length in bytes
//! - Server ID: origin server (1-4, 0 for the relay)
//! - Sequence: packet sequence number
//! - CRC: CRC-8 (polynomial 0x07) over header and payload

use bytes::{Bytes, BytesMut};
use vstd::prelude::*;
use vstd::bytes::*;
use vstd::string::StringExecFns;

use crate::error::{ErrorView, RelayError};
use crate::outside::{
    bytes_from_vec, bytes_mut_advance, bytes_mut_clear, bytes_mut_extend, bytes_mut_slice,
    bytes_mut_split_to, bytes_mut_view, bytes_mut_with_capacity, bytes_slice, bytes_view,
};
use crate::text::{decimal, decimal_string, push_text};
use crate::wire::{lemma_text_roundtrip, read_text_at, text_at, text_fits, text_wire, write_text, TextRead};

verus! {

/// Protocol magic bytes ('TF' = 0x54, 0x46).
pub const MAGIC: u16 = 0x5446;

/// Current protocol version.
pub const PROTOCOL_VERSION: u8 = 1;

/// Fixed header size (magic:2 + version:1 + type:1 + length:2 + server_id:1 + sequence:2 = 9).
pub const HEADER_SIZE: usize = 9;

/// Checksum size.
pub const CHECKSUM_SIZE: usize = 1;

/// Maximum payload size.
pub const MAX_PAYLOAD_SIZE: usize = 4096;

/// Maximum packet size (header + max payload + checksum).
pub const MAX_PACKET_SIZE: usize = HEADER_SIZE + MAX_PAYLOAD_SIZE + CHECKSUM_SIZE;

// ============================================================================
// CRC-8 checksum (polynomial 0x07)
// ============================================================================

/// One bit step of CRC-8 with polynomial 0x07 (x^8 + x^2 + x + 1).
pub open spec fn crc8_shift(c: u8) -> u8 {
    if c & 0x80 != 0 {
        ((c << 1u8) ^ 0x07) as u8
    } else {
        (c << 1u8) as u8
    }
}

/// The CRC-8 remainder of one byte: eight bit steps.
pub open spec fn crc8_byte(c: u8) -> u8 {
    crc8_shift(crc8_shift(crc8_shift(crc8_shift(crc8_shift(crc8_shift(crc8_shift(crc8_shift(c))))))))
}

/// CRC-8 (polynomial 0x07, initial value 0, no reflection, no final xor) of `s`.
pub open spec fn crc8_spec(s: Seq<u8>) -> u8
    decreases s.len(),
{
    if s.len() == 0 {
        0
    } else {
        crc8_byte(crc8_spec(s.drop_last()) ^ s.last())
    }
}

/// CRC-8 lookup table for polynomial 0x07: entry `i` is the remainder of byte `i`.
const CRC8_TABLE: [u8; 256] = [
    0x00, 0x07, 0x0E, 0x09, 0x1C, 0x1B, 0x12, 0x15, 0x38, 0x3F, 0x36, 0x31, 0x24, 0x23, 0x2A, 0x2D,
    0x70, 0x77, 0x7E, 0x79, 0x6C, 0x6B, 0x62, 0x65, 0x48, 0x4F, 0x46, 0x41, 0x54, 0x53, 0x5A, 0x5D,
    0xE0, 0xE7, 0xEE, 0xE9, 0xFC, 0xFB, 0xF2, 0xF5, 0xD8, 0xDF, 0xD6, 0xD1, 0xC4, 0xC3, 0xCA, 0xCD,
    0x90, 0x97, 0x9E, 0x99, 0x8C, 0x8B, 0x82, 0x85, 0xA8, 0xAF, 0xA6, 0xA1, 0xB4, 0xB3, 0xBA, 0xBD,
    0xC7, 0xC0, 0xC9, 0xCE, 0xDB, 0xDC, 0xD5, 0xD2, 0xFF, 0xF8, 0xF1, 0xF6, 0xE3, 0xE4, 0xED, 0xEA,
    0xB7, 0xB0, 0xB9, 0xBE, 0xAB, 0xAC, 0xA5, 0xA2, 0x8F, 0x88, 0x81, 0x86, 0x93, 0x94, 0x9D, 0x9A,
    0x27, 0x20, 0x29, 0x2E, 0x3B, 0x3C, 0x35, 0x32, 0x1F, 0x18, 0x11, 0x16, 0x03, 0x04, 0x0D, 0x0A,
    0x57, 0x50, 0x59, 0x5E, 0x4B, 0x4C, 0x45, 0x42, 0x6F, 0x68, 0x61, 0x66, 0x73, 0x74, 0x7D, 0x7A,
    0x89, 0x8E, 0x87, 0x80, 0x95, 0x92, 0x9B, 0x9C, 0xB1, 0xB6, 0xBF, 0xB8, 0xAD, 0xAA, 0xA3, 0xA4,
    0xF9, 0xFE, 0xF7, 0xF0, 0xE5, 0xE2, 0xEB, 0xEC, 0xC1, 0xC6, 0xCF, 0xC8, 0xDD, 0xDA, 0xD3, 0xD4,
    0x69, 0x6E, 0x67, 0x60, 0x75, 0x72, 0x7B, 0x7C, 0x51, 0x56, 0x5F, 0x58, 0x4D, 0x4A, 0x43, 0x44,
    0x19, 0x1E, 0x17, 0x10, 0x05, 0x02, 0x0B, 0x0C, 0x21, 0x26, 0x2F, 0x28, 0x3D, 0x3A, 0x33, 0x34,
    0x4E, 0x49, 0x40, 0x47, 0x52, 0x55, 0x5C, 0x5B, 0x76, 0x71, 0x78, 0x7F, 0x6A, 0x6D, 0x64, 0x63,
    0x3E, 0x39, 0x30, 0x37, 0x22, 0x25, 0x2C, 0x2B, 0x06, 0x01, 0x08, 0x0F, 0x1A, 0x1D, 0x14, 0x13,
    0xAE, 0xA9, 0xA0, 0xA7, 0xB2, 0xB5, 0xBC, 0xBB, 0x96, 0x91, 0x98, 0x9F, 0x8A, 0x8D, 0x84, 0x83,
    0xDE, 0xD9, 0xD0, 0xD7, 0xC2, 0xC5, 0xCC, 0xCB, 0xE6, 0xE1, 0xE8, 0xEF, 0xFA, 0xFD, 0xF4, 0xF3,
];

/// The entries of [`CRC8_TABLE`], by index.
spec fn table_entry(b: u8) -> u8 {
    match b {
        0 => 0x00,
        1 => 0x07,
        2 => 0x0E,
        3 => 0x09,
        4 => 0x1C,
        5 => 0x1B,
        6 => 0x12,
        7 => 0x15,
        8 => 0x38,
        9 => 0x3F,
        10 => 0x36,
        11 => 0x31,
        12 => 0x24,
        13 => 0x23,
        14 => 0x2A,
        15 => 0x2D,
        16 => 0x70,
        17 => 0x77,
        18 => 0x7E,
        19 => 0x79,
        20 => 0x6C,
        21 => 0x6B,
        22 => 0x62,
        23 => 0x65,
        24 => 0x48,
        25 => 0x4F,
        26 => 0x46,
        27 => 0x41,
        28 => 0x54,
        29 => 0x53,
        30 => 0x5A,
        31 => 0x5D,
        32 => 0xE0,
        33 => 0xE7,
        34 => 0xEE,
        35 => 0xE9,
        36 => 0xFC,
        37 => 0xFB,
        38 => 0xF2,
        39 => 0xF5,
        40 => 0xD8,
        41 => 0xDF,
        42 => 0xD6,
        43 => 0xD1,
        44 => 0xC4,
        45 => 0xC3,
        46 => 0xCA,
        47 => 0xCD,
        48 => 0x90,
        49 => 0x97,
        50 => 0x9E,
        51 => 0x99,
        52 => 0x8C,
        53 => 0x8B,
        54 => 0x82,
        55 => 0x85,
        56 => 0xA8,
        57 => 0xAF,
        58 => 0xA6,
        59 => 0xA1,
        60 => 0xB4,
        61 => 0xB3,
        62 => 0xBA,
        63 => 0xBD,
        64 => 0xC7,
        65 => 0xC0,
        66 => 0xC9,
        67 => 0xCE,
        68 => 0xDB,
        69 => 0xDC,
        70 => 0xD5,
        71 => 0xD2,
        72 => 0xFF,
        73 => 0xF8,
        74 => 0xF1,
        75 => 0xF6,
        76 => 0xE3,
        77 => 0xE4,
        78 => 0xED,
        79 => 0xEA,
        80 => 0xB7,
        81 => 0xB0,
        82 => 0xB9,
        83 => 0xBE,
        84 => 0xAB,
        85 => 0xAC,
        86 => 0xA5,
        87 => 0xA2,
        88 => 0x8F,
        89 => 0x88,
        90 => 0x81,
        91 => 0x86,
        92 => 0x93,
        93 => 0x94,
        94 => 0x9D,
        95 => 0x9A,
        96 => 0x27,
        97 => 0x20,
        98 => 0x29,
        99 => 0x2E,
        100 => 0x3B,
        101 => 0x3C,
        102 => 0x35,
        103 => 0x32,
        104 => 0x1F,
        105 => 0x18,
        106 => 0x11,
        107 => 0x16,
        108 => 0x03,
        109 => 0x04,
        110 => 0x0D,
        111 => 0x0A,
        112 => 0x57,
        113 => 0x50,
        114 => 0x59,
        115 => 0x5E,
        116 => 0x4B,
        117 => 0x4C,
        118 => 0x45,
        119 => 0x42,
        120 => 0x6F,
        121 => 0x68,
        122 => 0x61,
        123 => 0x66,
        124 => 0x73,
        125 => 0x74,
        126 => 0x7D,
        127 => 0x7A,
        128 => 0x89,
        129 => 0x8E,
        130 => 0x87,
        131 => 0x80,
        132 => 0x95,
        133 => 0x92,
        134 => 0x9B,
        135 => 0x9C,
        136 => 0xB1,
        137 => 0xB6,
        138 => 0xBF,
        139 => 0xB8,
        140 => 0xAD,
        141 => 0xAA,
        142 => 0xA3,
        143 => 0xA4,
        144 => 0xF9,
        145 => 0xFE,
        146 => 0xF7,
        147 => 0xF0,
        148 => 0xE5,
        149 => 0xE2,
        150 => 0xEB,
        151 => 0xEC,
        152 => 0xC1,
        153 => 0xC6,
        154 => 0xCF,
        155 => 0xC8,
        156 => 0xDD,
        157 => 0xDA,
        158 => 0xD3,
        159 => 0xD4,
        160 => 0x69,
        161 => 0x6E,
        162 => 0x67,
        163 => 0x60,
        164 => 0x75,
        165 => 0x72,
        166 => 0x7B,
        167 => 0x7C,
        168 => 0x51,
        169 => 0x56,
        170 => 0x5F,
        171 => 0x58,
        172 => 0x4D,
        173 => 0x4A,
        174 => 0x43,
        175 => 0x44,
        176 => 0x19,
        177 => 0x1E,
        178 => 0x17,
        179 => 0x10,
        180 => 0x05,
        181 => 0x02,
        182 => 0x0B,
        183 => 0x0C,
        184 => 0x21,
        185 => 0x26,
        186 => 0x2F,
        187 => 0x28,
        188 => 0x3D,
        189 => 0x3A,
        190 => 0x33,
        191 => 0x34,
        192 => 0x4E,
        193 => 0x49,
        194 => 0x40,
        195 => 0x47,
        196 => 0x52,
        197 => 0x55,
        198 => 0x5C,
        199 => 0x5B,
        200 => 0x76,
        201 => 0x71,
        202 => 0x78,
        203 => 0x7F,
        204 => 0x6A,
        205 => 0x6D,
        206 => 0x64,
        207 => 0x63,
        208 => 0x3E,
        209 => 0x39,
        210 => 0x30,
        211 => 0x37,
        212 => 0x22,
        213 => 0x25,
        214 => 0x2C,
        215 => 0x2B,
        216 => 0x06,
        217 => 0x01,
        218 => 0x08,
        219 => 0x0F,
        220 => 0x1A,
        221 => 0x1D,
        222 => 0x14,
        223 => 0x13,
        224 => 0xAE,
        225 => 0xA9,
        226 => 0xA0,
        227 => 0xA7,
        228 => 0xB2,
        229 => 0xB5,
        230 => 0xBC,
        231 => 0xBB,
        232 => 0x96,
        233 => 0x91,
        234 => 0x98,
        235 => 0x9F,
        236 => 0x8A,
        237 => 0x8D,
        238 => 0x84,
        239 => 0x83,
        240 => 0xDE,
        241 => 0xD9,
        242 => 0xD0,
        243 => 0xD7,
        244 => 0xC2,
        245 => 0xC5,
        246 => 0xCC,
        247 => 0xCB,
        248 => 0xE6,
        249 => 0xE1,
        250 => 0xE8,
        251 => 0xEF,
        252 => 0xFA,
        253 => 0xFD,
        254 => 0xF4,
        _ => 0xF3,
    }
}

proof fn lemma_crc8_table()
    ensures
        forall|i: int| 0 <= i < 256 ==> #[trigger] CRC8_TABLE@[i] == crc8_byte(i as u8),
{
    assert(CRC8_TABLE@.len() == 256);
    assert(forall|i: int| 0 <= i < 256 ==> #[trigger] CRC8_TABLE@[i] == table_entry(i as u8));
    assert(forall|b: u8| 0 <= b < 32 ==> #[trigger] table_entry(b) == crc8_byte(b)) by (bit_vector);
    assert(forall|b: u8| 32 <= b < 64 ==> #[trigger] table_entry(b) == crc8_byte(b)) by (bit_vector);
    assert(forall|b: u8| 64 <= b < 96 ==> #[trigger] table_entry(b) == crc8_byte(b)) by (bit_vector);
    assert(forall|b: u8| 96 <= b < 128 ==> #[trigger] table_entry(b) == crc8_byte(b)) by (bit_vector);
    assert(forall|b: u8| 128 <= b < 160 ==> #[trigger] table_entry(b) == crc8_byte(b)) by (bit_vector);
    assert(forall|b: u8| 160 <= b < 192 ==> #[trigger] table_entry(b) == crc8_byte(b)) by (bit_vector);
    assert(forall|b: u8| 192 <= b < 224 ==> #[trigger] table_entry(b) == crc8_byte(b)) by (bit_vector);
    assert(forall|b: u8| 224 <= b < 256 ==> #[trigger] table_entry(b) == crc8_byte(b)) by (bit_vector);
}

/// The table entry for `i`: the CRC-8 remainder of that byte.
fn crc8_table_lookup(i: u8) -> (r: u8)
    ensures
        r == crc8_byte(i),
{
    proof { lemma_crc8_table(); }
    CRC8_TABLE[i as usize]
}

/// Calculate CRC-8 checksum for the given data.
pub fn crc8(data: &[u8]) -> (crc: u8)
    ensures
        crc == crc8_spec(data@),
{
    let mut crc: u8 = 0;
    let n = data.len();
    let mut i: usize = 0;
    assert(data@.subrange(0, 0) =~= Seq::<u8>::empty());
    while i < n
        invariant
            n == data@.len(),
            0 <= i <= n,
            crc == crc8_spec(data@.subrange(0, i as int)),
        decreases n - i,
    {
        let byte = data[i];
        let idx = crc ^ byte;
        assert(data@.subrange(0, i + 1).drop_last() =~= data@.subrange(0, i as int));
        crc = crc8_table_lookup(idx);
        i = i + 1;
    }
    assert(data@.subrange(0, n as int) =~= data@);
    crc
}

// ============================================================================
// Packet header
// ============================================================================

/// Packet header structure.
#[derive(Debug, Clone, PartialEq, Eq, Structural)]
pub struct PacketHeader {
    /// Protocol version.
    pub version: u8,
    /// Packet type ID.
    pub packet_type: u8,
    /// Payload length in bytes.
    pub payload_length: u16,
    /// Origin server ID (1-4, 0 for relay).
    pub server_id: u8,
    /// Packet sequence number.
    pub sequence: u16,
}

/// The nine bytes of a header.
pub open spec fn header_wire(h: PacketHeader) -> Seq<u8> {
    spec_u16_to_le_bytes(MAGIC) + seq![h.version, h.packet_type] + spec_u16_to_le_bytes(
        h.payload_length,
    ) + seq![h.server_id] + spec_u16_to_le_bytes(h.sequence)
}

/// What parsing a header from the start of `d` gives.
pub open spec fn header_decode(d: Seq<u8>) -> Result<PacketHeader, ErrorView> {
    if d.len() < HEADER_SIZE {
        Err(
            ErrorView::MalformedPacket {
                reason: "Header too short: "@ + decimal(d.len()) + " bytes, need "@ + decimal(
                    HEADER_SIZE as nat,
                ),
            },
        )
    } else {
        let magic = spec_u16_from_le_bytes(d.subrange(0, 2));
        let length = spec_u16_from_le_bytes(d.subrange(4, 6));
        if magic != MAGIC {
            Err(ErrorView::InvalidMagic { got: magic })
        } else if d[2] != PROTOCOL_VERSION {
            Err(ErrorView::UnsupportedVersion { version: d[2] })
        } else if length > MAX_PAYLOAD_SIZE {
            Err(ErrorView::PayloadTooLarge { size: length as usize, max: MAX_PAYLOAD_SIZE })
        } else {
            Ok(
                PacketHeader {
                    version: d[2],
                    packet_type: d[3],
                    payload_length: length,
                    server_id: d[6],
                    sequence: spec_u16_from_le_bytes(d.subrange(7, 9)),
                },
            )
        }
    }
}

impl PacketHeader {
    /// Create a new packet header of the current protocol version.
    pub fn new(packet_type: u8, payload_length: u16, server_id: u8, sequence: u16) -> (h: Self)
        ensures
            h == (PacketHeader {
                version: PROTOCOL_VERSION,
                packet_type,
                payload_length,
                server_id,
                sequence,
            }),
    {
        Self { version: PROTOCOL_VERSION, packet_type, payload_length, server_id, sequence }
    }

    /// Parse a header from the first nine bytes of `data`.
    pub fn parse(data: &[u8]) -> (r: Result<Self, RelayError>)
        ensures
            match (header_decode(data@), r) {
                (Ok(h), Ok(parsed)) => parsed == h,
                (Err(e), Err(err)) => err@ == e,
                _ => false,
            },
    {
        let n = data.len();
        if n < HEADER_SIZE {
            let mut reason = String::from_str("Header too short: ");
            push_text(&mut reason, decimal_string(n as u64).as_str());
            push_text(&mut reason, " bytes, need ");
            push_text(&mut reason, decimal_string(HEADER_SIZE as u64).as_str());
            return Err(RelayError::MalformedPacket { reason });
        }
        let magic = u16_from_le_bytes(&data[0..2]);
        if magic != MAGIC {
            return Err(RelayError::InvalidMagic { got: magic });
        }
        let version = data[2];
        if version != PROTOCOL_VERSION {
            return Err(RelayError::UnsupportedVersion { version });
        }
        let packet_type = data[3];
        let payload_length = u16_from_le_bytes(&data[4..6]);
        let server_id = data[6];
        let sequence = u16_from_le_bytes(&data[7..9]);
        if payload_length as usize > MAX_PAYLOAD_SIZE {
            return Err(
                RelayError::PayloadTooLarge { size: payload_length as usize, max: MAX_PAYLOAD_SIZE },
            );
        }
        Ok(Self { version, packet_type, payload_length, server_id, sequence })
    }

    /// Append the header's nine bytes to `buf`.
    pub fn serialize(&self, buf: &mut Vec<u8>)
        ensures
            final(buf)@ == old(buf)@ + header_wire(*self),
    {
        let magic = u16_to_le_bytes(MAGIC);
        buf.extend_from_slice(magic.as_slice());
        buf.push(self.version);
        buf.push(self.packet_type);
        let length = u16_to_le_bytes(self.payload_length);
        buf.extend_from_slice(length.as_slice());
        buf.push(self.server_id);
        let sequence = u16_to_le_bytes(self.sequence);
        buf.extend_from_slice(sequence.as_slice());
        proof {
            assert(buf@ =~= old(buf)@ + header_wire(*self));
        }
    }
}

// ============================================================================
// Packet
// ============================================================================

/// Complete packet structure.
#[derive(Debug, Clone)]
pub struct Packet {
    /// Packet header.
    pub header: PacketHeader,
    /// Packet payload.
    pub payload: Bytes,
}

/// The bytes of a packet: header, payload, and the CRC-8 of both.
pub open spec fn packet_wire(h: PacketHeader, payload: Seq<u8>) -> Seq<u8> {
    header_wire(h) + payload + seq![crc8_spec(header_wire(h) + payload)]
}

/// The bytes of a packet of the current version carrying `payload`, its
/// header giving the payload's length as a 16-bit number.
pub open spec fn frame_wire(packet_type: u8, server_id: u8, sequence: u16, payload: Seq<u8>) -> Seq<u8> {
    packet_wire(
        PacketHeader {
            version: PROTOCOL_VERSION,
            packet_type,
            payload_length: payload.len() as u16,
            server_id,
            sequence,
        },
        payload,
    )
}

/// What parsing a packet from the start of `d` gives: its header and payload.
pub open spec fn packet_decode(d: Seq<u8>) -> Result<(PacketHeader, Seq<u8>), ErrorView> {
    match header_decode(d) {
        Err(e) => Err(e),
        Ok(h) => {
            let needed = h.payload_length + CHECKSUM_SIZE;
            let have = d.len() - HEADER_SIZE;
            if have < needed {
                Err(
                    ErrorView::MalformedPacket {
                        reason: "Incomplete packet: expected "@ + decimal(needed as nat)
                            + " more bytes, have "@ + decimal(have as nat),
                    },
                )
            } else {
                let payload = d.subrange(9, 9 + h.payload_length);
                let got = d[9 + h.payload_length];
                let expected = crc8_spec(header_wire(h) + payload);
                if got != expected {
                    Err(ErrorView::ChecksumMismatch { expected, got })
                } else {
                    Ok((h, payload))
                }
            }
        },
    }
}

impl Packet {
    /// Create a new packet; the header's length is the payload's length as a
    /// 16-bit number.
    pub fn new(packet_type: u8, server_id: u8, sequence: u16, payload: Bytes) -> (p: Self)
        ensures
            p.header == (PacketHeader {
                version: PROTOCOL_VERSION,
                packet_type,
                payload_length: bytes_view(payload).len() as u16,
                server_id,
                sequence,
            }),
            bytes_view(p.payload) == bytes_view(payload),
    {
        let length = bytes_slice(&payload).len();
        let header = PacketHeader::new(packet_type, length as u16, server_id, sequence);
        Self { header, payload }
    }

    /// Parse a complete packet from the start of `data`; it takes the nine
    /// header bytes, the payload and the checksum byte.
    pub fn parse(data: &[u8]) -> (r: Result<Self, RelayError>)
        ensures
            match (packet_decode(data@), r) {
                (Ok((h, payload)), Ok(p)) => p.header == h && bytes_view(p.payload) == payload,
                (Err(e), Err(err)) => err@ == e,
                _ => false,
            },
    {
        let header = PacketHeader::parse(data)?;
        let n = data.len();
        let needed = header.payload_length as usize + CHECKSUM_SIZE;
        let have = n - HEADER_SIZE;
        if have < needed {
            let mut reason = String::from_str("Incomplete packet: expected ");
            push_text(&mut reason, decimal_string(needed as u64).as_str());
            push_text(&mut reason, " more bytes, have ");
            push_text(&mut reason, decimal_string(have as u64).as_str());
            return Err(RelayError::MalformedPacket { reason });
        }
        let end = HEADER_SIZE + header.payload_length as usize;
        let payload = vstd::slice::slice_to_vec(&data[HEADER_SIZE..end]);
        let received_crc = data[end];
        let mut check_buf: Vec<u8> = Vec::new();
        header.serialize(&mut check_buf);
        check_buf.extend_from_slice(payload.as_slice());
        proof {
            assert(check_buf@ =~= header_wire(header) + payload@);
        }
        let expected_crc = crc8(check_buf.as_slice());
        if received_crc != expected_crc {
            return Err(RelayError::ChecksumMismatch { expected: expected_crc, got: received_crc });
        }
        Ok(Self { header, payload: bytes_from_vec(payload) })
    }

    /// Serialize the complete packet: header, payload, checksum.
    pub fn serialize(&self) -> (b: Bytes)
        ensures
            bytes_view(b) == packet_wire(self.header, bytes_view(self.payload)),
    {
        let mut buf: Vec<u8> = Vec::new();
        self.header.serialize(&mut buf);
        buf.extend_from_slice(bytes_slice(&self.payload));
        proof {
            assert(buf@ =~= header_wire(self.header) + bytes_view(self.payload));
        }
        let crc = crc8(buf.as_slice());
        buf.push(crc);
        proof {
            assert(buf@ =~= packet_wire(self.header, bytes_view(self.payload)));
        }
        bytes_from_vec(buf)
    }

    /// Get the packet type.
    pub fn packet_type(&self) -> (t: u8)
        ensures
            t == self.header.packet_type,
    {
        self.header.packet_type
    }

    /// Get the server ID.
    pub fn server_id(&self) -> (id: u8)
        ensures
            id == self.header.server_id,
    {
        self.header.server_id
    }

    /// Create a packet with a different server ID (for forwarding).
    pub fn with_server_id(&self, server_id: u8) -> (p: Self)
        ensures
            p.header == (PacketHeader { server_id, ..self.header }),
            bytes_view(p.payload) == bytes_view(self.payload),
    {
        let header = PacketHeader {
            version: self.header.version,
            packet_type: self.header.packet_type,
            payload_length: self.header.payload_length,
            server_id,
            sequence: self.header.sequence,
        };
        Self { header, payload: self.payload.clone() }
    }
}

// ============================================================================
// String encoding utilities
// ============================================================================

/// Read a length-prefixed string (`[length:1][utf8_data:length]`) from the
/// start of `buf`, giving it and the number of bytes it took.
pub fn read_string(buf: &[u8]) -> (r: Result<(String, usize), RelayError>)
    ensures
        match (text_at(buf@, 0), r) {
            (TextRead::Read(s, q), Ok((st, n))) => st@ == s && n == q,
            (TextRead::Failed(e), Err(err)) => err@ == e,
            _ => false,
        },
{
    read_text_at(buf, 0)
}

/// Write a length-prefixed string (`[length:1][utf8_data:length]`); a string
/// of more than 255 bytes is cut to its first 255.
pub fn write_string(buf: &mut Vec<u8>, s: &str)
    ensures
        final(buf)@ == old(buf)@ + text_wire(s@),
{
    write_text(buf, s)
}

/// Calculate the size of a length-prefixed string.
pub fn string_size(s: &str) -> (n: usize)
    ensures
        n == text_wire(s@).len(),
{
    let len = s.as_bytes().len();
    if len < 255 {
        1 + len
    } else {
        256
    }
}


// ============================================================================
// Laws of the format
// ============================================================================

proof fn lemma_header_wire_bytes(h: PacketHeader)
    ensures
        header_wire(h).len() == 9,
        header_wire(h).subrange(0, 2) == spec_u16_to_le_bytes(MAGIC),
        header_wire(h)[2] == h.version,
        header_wire(h)[3] == h.packet_type,
        header_wire(h).subrange(4, 6) == spec_u16_to_le_bytes(h.payload_length),
        header_wire(h)[6] == h.server_id,
        header_wire(h).subrange(7, 9) == spec_u16_to_le_bytes(h.sequence),
{
    lemma_auto_spec_u16_to_from_le_bytes();
    let w = header_wire(h);
    assert(w.subrange(0, 2) =~= spec_u16_to_le_bytes(MAGIC));
    assert(w.subrange(4, 6) =~= spec_u16_to_le_bytes(h.payload_length));
    assert(w.subrange(7, 9) =~= spec_u16_to_le_bytes(h.sequence));
}

/// A header of the current version whose payload length is within bounds
/// reads back as itself from its nine bytes, whatever follows them.
pub proof fn lemma_header_roundtrip(h: PacketHeader, rest: Seq<u8>)
    requires
        h.version == PROTOCOL_VERSION,
        h.payload_length <= MAX_PAYLOAD_SIZE,
    ensures
        header_decode(header_wire(h) + rest) == Ok::<PacketHeader, ErrorView>(h),
{
    lemma_auto_spec_u16_to_from_le_bytes();
    lemma_header_wire_bytes(h);
    let d = header_wire(h) + rest;
    assert(d.subrange(0, 2) =~= header_wire(h).subrange(0, 2));
    assert(d.subrange(4, 6) =~= header_wire(h).subrange(4, 6));
    assert(d.subrange(7, 9) =~= header_wire(h).subrange(7, 9));
}

/// A frame is its nine header bytes (magic, version 1, the type at byte 3,
/// the payload length, the server id at byte 6, the sequence number), then
/// the payload, then one checksum byte over everything before it.
pub proof fn lemma_frame_layout(packet_type: u8, server_id: u8, sequence: u16, payload: Seq<u8>)
    ensures
        ({
            let w = frame_wire(packet_type, server_id, sequence, payload);
            &&& w.len() == payload.len() + 10
            &&& w[2] == PROTOCOL_VERSION
            &&& w[3] == packet_type
            &&& w[6] == server_id
            &&& w.subrange(9, 9 + payload.len() as int) == payload
            &&& w[9 + payload.len() as int] == crc8_spec(w.subrange(0, 9 + payload.len() as int))
        }),
{
    let h = PacketHeader {
        version: PROTOCOL_VERSION,
        packet_type,
        payload_length: payload.len() as u16,
        server_id,
        sequence,
    };
    lemma_header_wire_bytes(h);
    let w = frame_wire(packet_type, server_id, sequence, payload);
    assert(w.subrange(9, 9 + payload.len() as int) =~= payload);
    assert(w.subrange(0, 9 + payload.len() as int) =~= header_wire(h) + payload);
}

/// A header that parses is exactly the nine bytes it was read from.
pub proof fn lemma_header_parse_inverse(d: Seq<u8>)
    ensures
        header_decode(d) matches Ok(h) ==> header_wire(h) == d.subrange(0, 9),
{
    lemma_auto_spec_u16_to_from_le_bytes();
    if let Ok(h) = header_decode(d) {
        lemma_header_wire_bytes(h);
        assert(d.subrange(0, 2).len() == 2);
        assert(d.subrange(4, 6).len() == 2);
        assert(d.subrange(7, 9).len() == 2);
        assert(header_wire(h) =~= d.subrange(0, 9)) by {
            assert(spec_u16_to_le_bytes(MAGIC) == d.subrange(0, 2));
            assert(spec_u16_to_le_bytes(h.payload_length) == d.subrange(4, 6));
            assert(spec_u16_to_le_bytes(h.sequence) == d.subrange(7, 9));
            assert forall|k: int| 0 <= k < 9 implies header_wire(h)[k] == d.subrange(0, 9)[k] by {
                if k < 2 {
                    assert(header_wire(h).subrange(0, 2)[k] == d.subrange(0, 2)[k]);
                } else if 4 <= k < 6 {
                    assert(header_wire(h).subrange(4, 6)[k - 4] == d.subrange(4, 6)[k - 4]);
                } else if 7 <= k {
                    assert(header_wire(h).subrange(7, 9)[k - 7] == d.subrange(7, 9)[k - 7]);
                }
            }
        }
    }
}

/// A packet of the current version, whose header gives its payload's true
/// length and whose payload is within bounds, reads back from its bytes as
/// the same header and payload, whatever follows them.
pub proof fn lemma_packet_roundtrip(h: PacketHeader, payload: Seq<u8>, rest: Seq<u8>)
    requires
        h.version == PROTOCOL_VERSION,
        h.payload_length == payload.len(),
        payload.len() <= MAX_PAYLOAD_SIZE,
    ensures
        packet_decode(packet_wire(h, payload) + rest) == Ok::<(PacketHeader, Seq<u8>), ErrorView>(
            (h, payload),
        ),
{
    let w = packet_wire(h, payload);
    let d = w + rest;
    lemma_header_wire_bytes(h);
    assert(d =~= header_wire(h) + (payload + seq![crc8_spec(header_wire(h) + payload)] + rest));
    lemma_header_roundtrip(h, payload + seq![crc8_spec(header_wire(h) + payload)] + rest);
    assert(d.subrange(9, 9 + h.payload_length) =~= payload);
    assert(d[9 + h.payload_length] == crc8_spec(header_wire(h) + payload));
}

/// The decoder takes a complete packet off the front of its buffer and keeps
/// exactly the bytes after it.
pub proof fn lemma_decoder_frames_packet(h: PacketHeader, payload: Seq<u8>, rest: Seq<u8>)
    requires
        h.version == PROTOCOL_VERSION,
        h.payload_length == payload.len(),
        payload.len() <= MAX_PAYLOAD_SIZE,
    ensures
        decode_step(packet_wire(h, payload) + rest) == (
            DecodeStep::Frame(h, payload),
            rest,
        ),
{
    let w = packet_wire(h, payload);
    let d = w + rest;
    lemma_header_wire_bytes(h);
    assert(d =~= header_wire(h) + (payload + seq![crc8_spec(header_wire(h) + payload)] + rest));
    lemma_header_roundtrip(h, payload + seq![crc8_spec(header_wire(h) + payload)] + rest);
    let total = HEADER_SIZE + h.payload_length + CHECKSUM_SIZE;
    assert(w.len() == total);
    assert(d.subrange(0, total) =~= w + Seq::<u8>::empty());
    lemma_packet_roundtrip(h, payload, Seq::<u8>::empty());
    assert(d.subrange(total, d.len() as int) =~= rest);
}

/// Any proper prefix of a packet makes the decoder wait for more bytes and
/// keep what it has.
pub proof fn lemma_decoder_waits_on_prefix(h: PacketHeader, payload: Seq<u8>, k: int)
    requires
        h.version == PROTOCOL_VERSION,
        h.payload_length == payload.len(),
        payload.len() <= MAX_PAYLOAD_SIZE,
        0 <= k < packet_wire(h, payload).len(),
    ensures
        decode_step(packet_wire(h, payload).subrange(0, k)) == (
            DecodeStep::Wait,
            packet_wire(h, payload).subrange(0, k),
        ),
{
    let w = packet_wire(h, payload);
    let q = w.subrange(0, k);
    lemma_header_wire_bytes(h);
    if k >= 9 {
        assert(q =~= header_wire(h) + q.subrange(9, k));
        lemma_header_roundtrip(h, q.subrange(9, k));
    }
}

/// A string whose UTF-8 encoding fits in 255 bytes reads back as itself from
/// what [`write_string`] wrote, taking exactly [`string_size`] bytes.
pub proof fn lemma_string_roundtrip(s: Seq<char>, rest: Seq<u8>)
    requires
        text_fits(s),
    ensures
        text_at(text_wire(s) + rest, 0) == TextRead::Read(s, text_wire(s).len() as int),
{
    let d = text_wire(s) + rest;
    assert(d.subrange(0, text_wire(s).len() as int) =~= text_wire(s));
    lemma_text_roundtrip(s, d, 0);
}

// ============================================================================
// Packet frame decoder for streaming reads
// ============================================================================

/// Framed packet decoder for reading packets from a stream.
pub struct PacketDecoder {
    buffer: BytesMut,
}

/// One step of the streaming decoder on buffered bytes.
#[verifier::ext_equal]
pub enum DecodeStep {
    /// Not enough bytes for the next packet yet.
    Wait,
    /// The first byte cannot start a packet (wrong magic); it is dropped.
    Skip,
    /// An error; on a header error the bytes stay, on a bad packet they are dropped.
    Fail(ErrorView),
    /// A complete packet.
    Frame(PacketHeader, Seq<u8>),
}

/// What the decoder does with buffered bytes `b`, and the bytes it keeps.
pub open spec fn decode_step(b: Seq<u8>) -> (DecodeStep, Seq<u8>) {
    if b.len() < HEADER_SIZE {
        (DecodeStep::Wait, b)
    } else {
        match header_decode(b) {
            Err(ErrorView::InvalidMagic { .. }) => (DecodeStep::Skip, b.subrange(1, b.len() as int)),
            Err(e) => (DecodeStep::Fail(e), b),
            Ok(h) => {
                let total = HEADER_SIZE + h.payload_length + CHECKSUM_SIZE;
                if b.len() < total {
                    (DecodeStep::Wait, b)
                } else {
                    let rest = b.subrange(total, b.len() as int);
                    match packet_decode(b.subrange(0, total)) {
                        Ok((h2, payload)) => (DecodeStep::Frame(h2, payload), rest),
                        Err(e) => (DecodeStep::Fail(e), rest),
                    }
                }
            },
        }
    }
}

impl View for PacketDecoder {
    type V = Seq<u8>;

    /// The buffered bytes.
    closed spec fn view(&self) -> Seq<u8> {
        bytes_mut_view(self.buffer)
    }
}

impl PacketDecoder {
    /// Create a new packet decoder with an empty buffer.
    pub fn new() -> (d: Self)
        ensures
            d@ == Seq::<u8>::empty(),
    {
        Self { buffer: bytes_mut_with_capacity(MAX_PACKET_SIZE) }
    }

    /// Add data to the internal buffer.
    pub fn push(&mut self, data: &[u8])
        ensures
            final(self)@ == old(self)@ + data@,
    {
        bytes_mut_extend(&mut self.buffer, data);
    }

    /// Try to decode a complete packet from the buffer.
    pub fn decode(&mut self) -> (r: Result<Option<Packet>, RelayError>)
        ensures
            final(self)@ == decode_step(old(self)@).1,
            match (decode_step(old(self)@).0, r) {
                (DecodeStep::Wait, Ok(None)) => true,
                (DecodeStep::Skip, Ok(None)) => true,
                (DecodeStep::Fail(e), Err(err)) => err@ == e,
                (DecodeStep::Frame(h, payload), Ok(Some(p))) => p.header == h && bytes_view(
                    p.payload,
                ) == payload,
                _ => false,
            },
    {
        let len = bytes_mut_slice(&self.buffer).len();
        if len < HEADER_SIZE {
            return Ok(None);
        }
        let header = match PacketHeader::parse(bytes_mut_slice(&self.buffer)) {
            Ok(h) => h,
            Err(e) => {
                if let RelayError::InvalidMagic { .. } = e {
                    bytes_mut_advance(&mut self.buffer, 1);
                    return Ok(None);
                }
                return Err(e);
            },
        };
        let total = HEADER_SIZE + header.payload_length as usize + CHECKSUM_SIZE;
        if len < total {
            return Ok(None);
        }
        let frame = bytes_mut_split_to(&mut self.buffer, total);
        let packet = Packet::parse(bytes_mut_slice(&frame))?;
        Ok(Some(packet))
    }

    /// Get the current buffer length.
    pub fn buffer_len(&self) -> (n: usize)
        ensures
            n == self@.len(),
    {
        bytes_mut_slice(&self.buffer).len()
    }

    /// Clear the buffer.
    pub fn clear(&mut self)
        ensures
            final(self)@ == Seq::<u8>::empty(),
    {
        bytes_mut_clear(&mut self.buffer);
    }
}

impl Default for PacketDecoder {
    fn default() -> (d: Self)
        ensures
            d@ == Seq::<u8>::empty(),
    {
        Self::new()
    }
}

} // verus!
