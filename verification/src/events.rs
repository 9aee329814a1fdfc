//! The relay's event catalogue: event type ids, teams and classes, one
//! record per event with its payload layout, and the [`Event`] sum of them.
//!
//! Event id ranges: 0x00-0x0F system, 0x10-0x1F chat, 0x20-0x2F player,
//! 0x30-0x3F gameplay, 0x40-0x5F game, 0x70-0x7F ghost sync and cross-server.

pub mod chat;
pub mod game;
pub mod gameplay;
pub mod ghost;
pub mod player;
pub mod system;

use bytes::Bytes;
use vstd::prelude::*;
use vstd::string::StringExecFns;

use crate::error::{ErrorView, RelayError};
use crate::outside::{bytes_from_vec, bytes_slice, bytes_view};
use crate::text::{bool_string, bool_text, decimal, decimal_string, hex2, hex2_string, push_text};
use crate::wire::{
    decode_from, decode_layout, failure_matches, guarded, lemma_guarded_never_panics,
    layout_matches, lemma_decode_wire, lemma_prefix_empty, lemma_prefix_end, lemma_wire_empty,
    min_len_from, need, needs_ok, shaped, values_fit, put_byte, put_dword,
    put_flag, put_qword, put_text, put_word, read_byte, read_dword, read_flag, read_qword,
    read_text, read_text_at, read_word, record_parsed, text_at, values_wire, Decoded,
    FieldKind, FieldValue, TextRead, WireRecord,
};

verus! {

// ============================================================================
// Team & Class definitions
// ============================================================================

/// TF2 team IDs: 0 unassigned, 1 spectator, 2 RED, 3 BLU.
#[derive(Debug, Clone, Copy, PartialEq, Eq, Structural)]
pub enum Team {
    Unassigned,
    Spectator,
    Red,
    Blu,
}

/// The team of a team id; an unknown id is "unassigned".
pub open spec fn team_from(value: u8) -> Team {
    if value == 1 {
        Team::Spectator
    } else if value == 2 {
        Team::Red
    } else if value == 3 {
        Team::Blu
    } else {
        Team::Unassigned
    }
}

/// The display name of a team.
pub open spec fn team_text(t: Team) -> Seq<char> {
    match t {
        Team::Unassigned => "Unassigned"@,
        Team::Spectator => "Spectator"@,
        Team::Red => "RED"@,
        Team::Blu => "BLU"@,
    }
}

/// The display colour of a team, as 0xRRGGBB.
pub open spec fn team_color(t: Team) -> u32 {
    match t {
        Team::Unassigned => 0xCCCCCC,
        Team::Spectator => 0xBDBDBD,
        Team::Red => 0xBD3B3B,
        Team::Blu => 0x5B8DD8,
    }
}

impl Team {
    pub fn from_u8(value: u8) -> (t: Team)
        ensures
            t == team_from(value),
    {
        match value {
            0 => Team::Unassigned,
            1 => Team::Spectator,
            2 => Team::Red,
            3 => Team::Blu,
            _ => Team::Unassigned,
        }
    }

    pub fn color(&self) -> (c: u32)
        ensures
            c == team_color(*self),
    {
        match self {
            Team::Unassigned => 0xCCCCCC,
            Team::Spectator => 0xBDBDBD,
            Team::Red => 0xBD3B3B,
            Team::Blu => 0x5B8DD8,
        }
    }

    /// The team's display name.
    pub fn to_string(&self) -> (s: String)
        ensures
            s@ == team_text(*self),
    {
        match self {
            Team::Unassigned => String::from_str("Unassigned"),
            Team::Spectator => String::from_str("Spectator"),
            Team::Red => String::from_str("RED"),
            Team::Blu => String::from_str("BLU"),
        }
    }
}

/// TF2 class IDs: 1 Scout to 9 Engineer, anything else unknown.
#[derive(Debug, Clone, Copy, PartialEq, Eq, Structural)]
pub enum TfClass {
    Unknown,
    Scout,
    Sniper,
    Soldier,
    Demoman,
    Medic,
    Heavy,
    Pyro,
    Spy,
    Engineer,
}

/// The class of a class id; an unknown id is `Unknown`.
pub open spec fn class_from(value: u8) -> TfClass {
    if value == 1 {
        TfClass::Scout
    } else if value == 2 {
        TfClass::Sniper
    } else if value == 3 {
        TfClass::Soldier
    } else if value == 4 {
        TfClass::Demoman
    } else if value == 5 {
        TfClass::Medic
    } else if value == 6 {
        TfClass::Heavy
    } else if value == 7 {
        TfClass::Pyro
    } else if value == 8 {
        TfClass::Spy
    } else if value == 9 {
        TfClass::Engineer
    } else {
        TfClass::Unknown
    }
}

/// The display name of a class.
pub open spec fn class_text(c: TfClass) -> Seq<char> {
    match c {
        TfClass::Unknown => "Unknown"@,
        TfClass::Scout => "Scout"@,
        TfClass::Sniper => "Sniper"@,
        TfClass::Soldier => "Soldier"@,
        TfClass::Demoman => "Demoman"@,
        TfClass::Medic => "Medic"@,
        TfClass::Heavy => "Heavy"@,
        TfClass::Pyro => "Pyro"@,
        TfClass::Spy => "Spy"@,
        TfClass::Engineer => "Engineer"@,
    }
}

impl TfClass {
    pub fn from_u8(value: u8) -> (c: TfClass)
        ensures
            c == class_from(value),
    {
        match value {
            1 => TfClass::Scout,
            2 => TfClass::Sniper,
            3 => TfClass::Soldier,
            4 => TfClass::Demoman,
            5 => TfClass::Medic,
            6 => TfClass::Heavy,
            7 => TfClass::Pyro,
            8 => TfClass::Spy,
            9 => TfClass::Engineer,
            _ => TfClass::Unknown,
        }
    }

    /// The class's display name.
    pub fn to_string(&self) -> (s: String)
        ensures
            s@ == class_text(*self),
    {
        match self {
            TfClass::Unknown => String::from_str("Unknown"),
            TfClass::Scout => String::from_str("Scout"),
            TfClass::Sniper => String::from_str("Sniper"),
            TfClass::Soldier => String::from_str("Soldier"),
            TfClass::Demoman => String::from_str("Demoman"),
            TfClass::Medic => String::from_str("Medic"),
            TfClass::Heavy => String::from_str("Heavy"),
            TfClass::Pyro => String::from_str("Pyro"),
            TfClass::Spy => String::from_str("Spy"),
            TfClass::Engineer => String::from_str("Engineer"),
        }
    }
}

// ============================================================================
// Event records
// ============================================================================

/// Handshake from a game server announcing itself.
#[derive(Debug, Clone)]
pub struct HandshakeEvent {
    pub server_id: u8,
    pub server_name: String,
    pub map_name: String,
    pub max_players: u8,
    pub current_players: u8,
}

impl WireRecord for HandshakeEvent {
    open spec fn layout() -> Seq<FieldKind> {
        seq![
            FieldKind::Need(3, "Handshake too short"@),
            FieldKind::Byte,
            FieldKind::Text,
            FieldKind::Text,
            FieldKind::Byte,
            FieldKind::Byte,
        ]
    }

    open spec fn fields(&self) -> Seq<FieldValue> {
        seq![
            FieldValue::Byte(self.server_id),
            FieldValue::Text(self.server_name@),
            FieldValue::Text(self.map_name@),
            FieldValue::Byte(self.max_players),
            FieldValue::Byte(self.current_players),
        ]
    }
}

impl HandshakeEvent {
    /// Parses the record from the start of `data`, giving it and the number of
    /// bytes it took.
    pub fn parse(data: &[u8]) -> (r: Result<(Self, usize), RelayError>)
        requires
            !(decode_layout(Self::layout(), data@) is Panics),
        ensures
            record_parsed::<Self>(data@, r),
    {
        let ghost steps = Self::layout();
        proof {
            lemma_prefix_empty(decode_layout(steps, data@));
        }
        let _len = data.len();
        let p: usize = 0;
        let ghost done0 = Seq::<FieldValue>::empty();
        need(data, p, 3, "Handshake too short", Ghost(steps), Ghost(0), Ghost(done0))?;
        let server_id = read_byte(data, p, Ghost(steps), Ghost(1), Ghost(done0));
        let p = p + 1;
        let ghost done1 = done0.push(FieldValue::Byte(server_id));
        let (server_name, p) = read_text(data, p, Ghost(steps), Ghost(2), Ghost(done1))?;
        let ghost done2 = done1.push(FieldValue::Text(server_name@));
        let (map_name, p) = read_text(data, p, Ghost(steps), Ghost(3), Ghost(done2))?;
        let ghost done3 = done2.push(FieldValue::Text(map_name@));
        let max_players = read_byte(data, p, Ghost(steps), Ghost(4), Ghost(done3));
        let p = p + 1;
        let ghost done4 = done3.push(FieldValue::Byte(max_players));
        let current_players = read_byte(data, p, Ghost(steps), Ghost(5), Ghost(done4));
        let p = p + 1;
        let ghost done5 = done4.push(FieldValue::Byte(current_players));
        proof { lemma_prefix_end(done5, steps, data@, p as int); }
        let e = HandshakeEvent { server_id, server_name, map_name, max_players, current_players };
        proof { assert(e.fields() =~= done5); }
        Ok((e, p))
    }

    /// Every record of this kind has the fields that its layout reads, and
    /// meets every length check of it.
    pub proof fn lemma_layout(self)
        ensures
            layout_matches(self),
    {
        reveal_with_fuel(shaped, 8);
        reveal_with_fuel(needs_ok, 8);
        reveal_with_fuel(min_len_from, 8);
    }

    /// Appends the record's bytes to `buf`.
    pub fn serialize(&self, buf: &mut Vec<u8>)
        ensures
            final(buf)@ == old(buf)@ + values_wire(self.fields()),
    {
        let ghost base = buf@;
        proof { lemma_wire_empty(base); }
        let ghost done0 = Seq::<FieldValue>::empty();
        put_byte(buf, self.server_id, Ghost(base), Ghost(done0));
        let ghost done1 = done0.push(FieldValue::Byte(self.server_id));
        put_text(buf, self.server_name.as_str(), Ghost(base), Ghost(done1));
        let ghost done2 = done1.push(FieldValue::Text(self.server_name@));
        put_text(buf, self.map_name.as_str(), Ghost(base), Ghost(done2));
        let ghost done3 = done2.push(FieldValue::Text(self.map_name@));
        put_byte(buf, self.max_players, Ghost(base), Ghost(done3));
        let ghost done4 = done3.push(FieldValue::Byte(self.max_players));
        put_byte(buf, self.current_players, Ghost(base), Ghost(done4));
        let ghost done5 = done4.push(FieldValue::Byte(self.current_players));
        proof { assert(self.fields() =~= done5); }
    }
}

/// The relay's answer to a handshake.
#[derive(Debug, Clone)]
pub struct HandshakeAckEvent {
    pub success: bool,
    pub assigned_id: u8,
    pub connected_servers: u8,
}

impl WireRecord for HandshakeAckEvent {
    open spec fn layout() -> Seq<FieldKind> {
        seq![
            FieldKind::Need(3, "HandshakeAck too short"@),
            FieldKind::Flag,
            FieldKind::Byte,
            FieldKind::Byte,
        ]
    }

    open spec fn fields(&self) -> Seq<FieldValue> {
        seq![
            FieldValue::Flag(self.success),
            FieldValue::Byte(self.assigned_id),
            FieldValue::Byte(self.connected_servers),
        ]
    }
}

impl HandshakeAckEvent {
    /// Parses the record from the start of `data`, giving it and the number of
    /// bytes it took.
    pub fn parse(data: &[u8]) -> (r: Result<(Self, usize), RelayError>)
        ensures
            record_parsed::<Self>(data@, r),
    {
        let ghost steps = Self::layout();
        proof {
            lemma_prefix_empty(decode_layout(steps, data@));
            reveal_with_fuel(guarded, 5);
            assert(guarded(steps, 0, 0));
            lemma_guarded_never_panics(steps, 0, 0, data@, 0);
        }
        let _len = data.len();
        let p: usize = 0;
        let ghost done0 = Seq::<FieldValue>::empty();
        need(data, p, 3, "HandshakeAck too short", Ghost(steps), Ghost(0), Ghost(done0))?;
        let success = read_flag(data, p, Ghost(steps), Ghost(1), Ghost(done0));
        let p = p + 1;
        let ghost done1 = done0.push(FieldValue::Flag(success));
        let assigned_id = read_byte(data, p, Ghost(steps), Ghost(2), Ghost(done1));
        let p = p + 1;
        let ghost done2 = done1.push(FieldValue::Byte(assigned_id));
        let connected_servers = read_byte(data, p, Ghost(steps), Ghost(3), Ghost(done2));
        let p = p + 1;
        let ghost done3 = done2.push(FieldValue::Byte(connected_servers));
        proof { lemma_prefix_end(done3, steps, data@, p as int); }
        let e = HandshakeAckEvent { success, assigned_id, connected_servers };
        proof { assert(e.fields() =~= done3); }
        Ok((e, p))
    }

    /// Every record of this kind has the fields that its layout reads, and
    /// meets every length check of it.
    pub proof fn lemma_layout(self)
        ensures
            layout_matches(self),
    {
        reveal_with_fuel(shaped, 6);
        reveal_with_fuel(needs_ok, 6);
        reveal_with_fuel(min_len_from, 6);
    }

    /// Appends the record's bytes to `buf`.
    pub fn serialize(&self, buf: &mut Vec<u8>)
        ensures
            final(buf)@ == old(buf)@ + values_wire(self.fields()),
    {
        let ghost base = buf@;
        proof { lemma_wire_empty(base); }
        let ghost done0 = Seq::<FieldValue>::empty();
        put_flag(buf, self.success, Ghost(base), Ghost(done0));
        let ghost done1 = done0.push(FieldValue::Flag(self.success));
        put_byte(buf, self.assigned_id, Ghost(base), Ghost(done1));
        let ghost done2 = done1.push(FieldValue::Byte(self.assigned_id));
        put_byte(buf, self.connected_servers, Ghost(base), Ghost(done2));
        let ghost done3 = done2.push(FieldValue::Byte(self.connected_servers));
        proof { assert(self.fields() =~= done3); }
    }
}

/// Periodic liveness signal of a game server.
#[derive(Debug, Clone)]
pub struct HeartbeatEvent {
    pub timestamp: u32,
    pub current_players: u8,
}

impl WireRecord for HeartbeatEvent {
    open spec fn layout() -> Seq<FieldKind> {
        seq![
            FieldKind::Need(5, "Heartbeat too short"@),
            FieldKind::Dword,
            FieldKind::Byte,
        ]
    }

    open spec fn fields(&self) -> Seq<FieldValue> {
        seq![
            FieldValue::Dword(self.timestamp),
            FieldValue::Byte(self.current_players),
        ]
    }
}

impl HeartbeatEvent {
    /// Parses the record from the start of `data`, giving it and the number of
    /// bytes it took.
    pub fn parse(data: &[u8]) -> (r: Result<(Self, usize), RelayError>)
        ensures
            record_parsed::<Self>(data@, r),
    {
        let ghost steps = Self::layout();
        proof {
            lemma_prefix_empty(decode_layout(steps, data@));
            reveal_with_fuel(guarded, 4);
            assert(guarded(steps, 0, 0));
            lemma_guarded_never_panics(steps, 0, 0, data@, 0);
        }
        let _len = data.len();
        let p: usize = 0;
        let ghost done0 = Seq::<FieldValue>::empty();
        need(data, p, 5, "Heartbeat too short", Ghost(steps), Ghost(0), Ghost(done0))?;
        let timestamp = read_dword(data, p, Ghost(steps), Ghost(1), Ghost(done0));
        let p = p + 4;
        let ghost done1 = done0.push(FieldValue::Dword(timestamp));
        let current_players = read_byte(data, p, Ghost(steps), Ghost(2), Ghost(done1));
        let p = p + 1;
        let ghost done2 = done1.push(FieldValue::Byte(current_players));
        proof { lemma_prefix_end(done2, steps, data@, p as int); }
        let e = HeartbeatEvent { timestamp, current_players };
        proof { assert(e.fields() =~= done2); }
        Ok((e, p))
    }

    /// Every record of this kind has the fields that its layout reads, and
    /// meets every length check of it.
    pub proof fn lemma_layout(self)
        ensures
            layout_matches(self),
    {
        reveal_with_fuel(shaped, 5);
        reveal_with_fuel(needs_ok, 5);
        reveal_with_fuel(min_len_from, 5);
    }

    /// Appends the record's bytes to `buf`.
    pub fn serialize(&self, buf: &mut Vec<u8>)
        ensures
            final(buf)@ == old(buf)@ + values_wire(self.fields()),
    {
        let ghost base = buf@;
        proof { lemma_wire_empty(base); }
        let ghost done0 = Seq::<FieldValue>::empty();
        put_dword(buf, self.timestamp, Ghost(base), Ghost(done0));
        let ghost done1 = done0.push(FieldValue::Dword(self.timestamp));
        put_byte(buf, self.current_players, Ghost(base), Ghost(done1));
        let ghost done2 = done1.push(FieldValue::Byte(self.current_players));
        proof { assert(self.fields() =~= done2); }
    }
}

/// The relay's answer to a heartbeat.
#[derive(Debug, Clone)]
pub struct HeartbeatAckEvent {
    pub timestamp: u32,
    pub connected_servers: u8,
}

impl WireRecord for HeartbeatAckEvent {
    open spec fn layout() -> Seq<FieldKind> {
        seq![
            FieldKind::Need(5, "HeartbeatAck too short"@),
            FieldKind::Dword,
            FieldKind::Byte,
        ]
    }

    open spec fn fields(&self) -> Seq<FieldValue> {
        seq![
            FieldValue::Dword(self.timestamp),
            FieldValue::Byte(self.connected_servers),
        ]
    }
}

impl HeartbeatAckEvent {
    /// Parses the record from the start of `data`, giving it and the number of
    /// bytes it took.
    pub fn parse(data: &[u8]) -> (r: Result<(Self, usize), RelayError>)
        ensures
            record_parsed::<Self>(data@, r),
    {
        let ghost steps = Self::layout();
        proof {
            lemma_prefix_empty(decode_layout(steps, data@));
            reveal_with_fuel(guarded, 4);
            assert(guarded(steps, 0, 0));
            lemma_guarded_never_panics(steps, 0, 0, data@, 0);
        }
        let _len = data.len();
        let p: usize = 0;
        let ghost done0 = Seq::<FieldValue>::empty();
        need(data, p, 5, "HeartbeatAck too short", Ghost(steps), Ghost(0), Ghost(done0))?;
        let timestamp = read_dword(data, p, Ghost(steps), Ghost(1), Ghost(done0));
        let p = p + 4;
        let ghost done1 = done0.push(FieldValue::Dword(timestamp));
        let connected_servers = read_byte(data, p, Ghost(steps), Ghost(2), Ghost(done1));
        let p = p + 1;
        let ghost done2 = done1.push(FieldValue::Byte(connected_servers));
        proof { lemma_prefix_end(done2, steps, data@, p as int); }
        let e = HeartbeatAckEvent { timestamp, connected_servers };
        proof { assert(e.fields() =~= done2); }
        Ok((e, p))
    }

    /// Every record of this kind has the fields that its layout reads, and
    /// meets every length check of it.
    pub proof fn lemma_layout(self)
        ensures
            layout_matches(self),
    {
        reveal_with_fuel(shaped, 5);
        reveal_with_fuel(needs_ok, 5);
        reveal_with_fuel(min_len_from, 5);
    }

    /// Appends the record's bytes to `buf`.
    pub fn serialize(&self, buf: &mut Vec<u8>)
        ensures
            final(buf)@ == old(buf)@ + values_wire(self.fields()),
    {
        let ghost base = buf@;
        proof { lemma_wire_empty(base); }
        let ghost done0 = Seq::<FieldValue>::empty();
        put_dword(buf, self.timestamp, Ghost(base), Ghost(done0));
        let ghost done1 = done0.push(FieldValue::Dword(self.timestamp));
        put_byte(buf, self.connected_servers, Ghost(base), Ghost(done1));
        let ghost done2 = done1.push(FieldValue::Byte(self.connected_servers));
        proof { assert(self.fields() =~= done2); }
    }
}

/// Notice that another game server joined.
#[derive(Debug, Clone)]
pub struct ServerConnectEvent {
    pub server_id: u8,
    pub server_name: String,
}

impl WireRecord for ServerConnectEvent {
    open spec fn layout() -> Seq<FieldKind> {
        seq![
            FieldKind::Need(2, "ServerConnect too short"@),
            FieldKind::Byte,
            FieldKind::Text,
        ]
    }

    open spec fn fields(&self) -> Seq<FieldValue> {
        seq![
            FieldValue::Byte(self.server_id),
            FieldValue::Text(self.server_name@),
        ]
    }
}

impl ServerConnectEvent {
    /// Parses the record from the start of `data`, giving it and the number of
    /// bytes it took.
    pub fn parse(data: &[u8]) -> (r: Result<(Self, usize), RelayError>)
        ensures
            record_parsed::<Self>(data@, r),
    {
        let ghost steps = Self::layout();
        proof {
            lemma_prefix_empty(decode_layout(steps, data@));
            reveal_with_fuel(guarded, 4);
            assert(guarded(steps, 0, 0));
            lemma_guarded_never_panics(steps, 0, 0, data@, 0);
        }
        let _len = data.len();
        let p: usize = 0;
        let ghost done0 = Seq::<FieldValue>::empty();
        need(data, p, 2, "ServerConnect too short", Ghost(steps), Ghost(0), Ghost(done0))?;
        let server_id = read_byte(data, p, Ghost(steps), Ghost(1), Ghost(done0));
        let p = p + 1;
        let ghost done1 = done0.push(FieldValue::Byte(server_id));
        let (server_name, p) = read_text(data, p, Ghost(steps), Ghost(2), Ghost(done1))?;
        let ghost done2 = done1.push(FieldValue::Text(server_name@));
        proof { lemma_prefix_end(done2, steps, data@, p as int); }
        let e = ServerConnectEvent { server_id, server_name };
        proof { assert(e.fields() =~= done2); }
        Ok((e, p))
    }

    /// Every record of this kind has the fields that its layout reads, and
    /// meets every length check of it.
    pub proof fn lemma_layout(self)
        ensures
            layout_matches(self),
    {
        reveal_with_fuel(shaped, 5);
        reveal_with_fuel(needs_ok, 5);
        reveal_with_fuel(min_len_from, 5);
    }

    /// Appends the record's bytes to `buf`.
    pub fn serialize(&self, buf: &mut Vec<u8>)
        ensures
            final(buf)@ == old(buf)@ + values_wire(self.fields()),
    {
        let ghost base = buf@;
        proof { lemma_wire_empty(base); }
        let ghost done0 = Seq::<FieldValue>::empty();
        put_byte(buf, self.server_id, Ghost(base), Ghost(done0));
        let ghost done1 = done0.push(FieldValue::Byte(self.server_id));
        put_text(buf, self.server_name.as_str(), Ghost(base), Ghost(done1));
        let ghost done2 = done1.push(FieldValue::Text(self.server_name@));
        proof { assert(self.fields() =~= done2); }
    }
}

/// Notice that another game server left.
#[derive(Debug, Clone)]
pub struct ServerDisconnectEvent {
    pub server_id: u8,
    pub reason: String,
}

impl WireRecord for ServerDisconnectEvent {
    open spec fn layout() -> Seq<FieldKind> {
        seq![
            FieldKind::Need(2, "ServerDisconnect too short"@),
            FieldKind::Byte,
            FieldKind::Text,
        ]
    }

    open spec fn fields(&self) -> Seq<FieldValue> {
        seq![
            FieldValue::Byte(self.server_id),
            FieldValue::Text(self.reason@),
        ]
    }
}

impl ServerDisconnectEvent {
    /// Parses the record from the start of `data`, giving it and the number of
    /// bytes it took.
    pub fn parse(data: &[u8]) -> (r: Result<(Self, usize), RelayError>)
        ensures
            record_parsed::<Self>(data@, r),
    {
        let ghost steps = Self::layout();
        proof {
            lemma_prefix_empty(decode_layout(steps, data@));
            reveal_with_fuel(guarded, 4);
            assert(guarded(steps, 0, 0));
            lemma_guarded_never_panics(steps, 0, 0, data@, 0);
        }
        let _len = data.len();
        let p: usize = 0;
        let ghost done0 = Seq::<FieldValue>::empty();
        need(data, p, 2, "ServerDisconnect too short", Ghost(steps), Ghost(0), Ghost(done0))?;
        let server_id = read_byte(data, p, Ghost(steps), Ghost(1), Ghost(done0));
        let p = p + 1;
        let ghost done1 = done0.push(FieldValue::Byte(server_id));
        let (reason, p) = read_text(data, p, Ghost(steps), Ghost(2), Ghost(done1))?;
        let ghost done2 = done1.push(FieldValue::Text(reason@));
        proof { lemma_prefix_end(done2, steps, data@, p as int); }
        let e = ServerDisconnectEvent { server_id, reason };
        proof { assert(e.fields() =~= done2); }
        Ok((e, p))
    }

    /// Every record of this kind has the fields that its layout reads, and
    /// meets every length check of it.
    pub proof fn lemma_layout(self)
        ensures
            layout_matches(self),
    {
        reveal_with_fuel(shaped, 5);
        reveal_with_fuel(needs_ok, 5);
        reveal_with_fuel(min_len_from, 5);
    }

    /// Appends the record's bytes to `buf`.
    pub fn serialize(&self, buf: &mut Vec<u8>)
        ensures
            final(buf)@ == old(buf)@ + values_wire(self.fields()),
    {
        let ghost base = buf@;
        proof { lemma_wire_empty(base); }
        let ghost done0 = Seq::<FieldValue>::empty();
        put_byte(buf, self.server_id, Ghost(base), Ghost(done0));
        let ghost done1 = done0.push(FieldValue::Byte(self.server_id));
        put_text(buf, self.reason.as_str(), Ghost(base), Ghost(done1));
        let ghost done2 = done1.push(FieldValue::Text(self.reason@));
        proof { assert(self.fields() =~= done2); }
    }
}

/// An error report.
#[derive(Debug, Clone)]
pub struct ErrorEvent {
    pub error_code: u16,
    pub error_message: String,
}

impl WireRecord for ErrorEvent {
    open spec fn layout() -> Seq<FieldKind> {
        seq![
            FieldKind::Need(3, "Error event too short"@),
            FieldKind::Word,
            FieldKind::Text,
        ]
    }

    open spec fn fields(&self) -> Seq<FieldValue> {
        seq![
            FieldValue::Word(self.error_code),
            FieldValue::Text(self.error_message@),
        ]
    }
}

impl ErrorEvent {
    /// Parses the record from the start of `data`, giving it and the number of
    /// bytes it took.
    pub fn parse(data: &[u8]) -> (r: Result<(Self, usize), RelayError>)
        ensures
            record_parsed::<Self>(data@, r),
    {
        let ghost steps = Self::layout();
        proof {
            lemma_prefix_empty(decode_layout(steps, data@));
            reveal_with_fuel(guarded, 4);
            assert(guarded(steps, 0, 0));
            lemma_guarded_never_panics(steps, 0, 0, data@, 0);
        }
        let _len = data.len();
        let p: usize = 0;
        let ghost done0 = Seq::<FieldValue>::empty();
        need(data, p, 3, "Error event too short", Ghost(steps), Ghost(0), Ghost(done0))?;
        let error_code = read_word(data, p, Ghost(steps), Ghost(1), Ghost(done0));
        let p = p + 2;
        let ghost done1 = done0.push(FieldValue::Word(error_code));
        let (error_message, p) = read_text(data, p, Ghost(steps), Ghost(2), Ghost(done1))?;
        let ghost done2 = done1.push(FieldValue::Text(error_message@));
        proof { lemma_prefix_end(done2, steps, data@, p as int); }
        let e = ErrorEvent { error_code, error_message };
        proof { assert(e.fields() =~= done2); }
        Ok((e, p))
    }

    /// Every record of this kind has the fields that its layout reads, and
    /// meets every length check of it.
    pub proof fn lemma_layout(self)
        ensures
            layout_matches(self),
    {
        reveal_with_fuel(shaped, 5);
        reveal_with_fuel(needs_ok, 5);
        reveal_with_fuel(min_len_from, 5);
    }

    /// Appends the record's bytes to `buf`.
    pub fn serialize(&self, buf: &mut Vec<u8>)
        ensures
            final(buf)@ == old(buf)@ + values_wire(self.fields()),
    {
        let ghost base = buf@;
        proof { lemma_wire_empty(base); }
        let ghost done0 = Seq::<FieldValue>::empty();
        put_word(buf, self.error_code, Ghost(base), Ghost(done0));
        let ghost done1 = done0.push(FieldValue::Word(self.error_code));
        put_text(buf, self.error_message.as_str(), Ghost(base), Ghost(done1));
        let ghost done2 = done1.push(FieldValue::Text(self.error_message@));
        proof { assert(self.fields() =~= done2); }
    }
}

/// A chat line (`chat_type` 0 = all, 1 = team).
#[derive(Debug, Clone)]
pub struct ChatMessageEvent {
    pub player_name: String,
    pub steam_id: u64,
    pub team: u8,
    pub chat_type: u8,
    pub message: String,
}

impl WireRecord for ChatMessageEvent {
    open spec fn layout() -> Seq<FieldKind> {
        seq![
            FieldKind::Text,
            FieldKind::Need(10, "ChatMessage too short"@),
            FieldKind::Qword,
            FieldKind::Byte,
            FieldKind::Byte,
            FieldKind::Text,
        ]
    }

    open spec fn fields(&self) -> Seq<FieldValue> {
        seq![
            FieldValue::Text(self.player_name@),
            FieldValue::Qword(self.steam_id),
            FieldValue::Byte(self.team),
            FieldValue::Byte(self.chat_type),
            FieldValue::Text(self.message@),
        ]
    }
}

impl ChatMessageEvent {
    /// Parses the record from the start of `data`, giving it and the number of
    /// bytes it took.
    pub fn parse(data: &[u8]) -> (r: Result<(Self, usize), RelayError>)
        ensures
            record_parsed::<Self>(data@, r),
    {
        let ghost steps = Self::layout();
        proof {
            lemma_prefix_empty(decode_layout(steps, data@));
            reveal_with_fuel(guarded, 7);
            assert(guarded(steps, 0, 0));
            lemma_guarded_never_panics(steps, 0, 0, data@, 0);
        }
        let _len = data.len();
        let p: usize = 0;
        let ghost done0 = Seq::<FieldValue>::empty();
        let (player_name, p) = read_text(data, p, Ghost(steps), Ghost(0), Ghost(done0))?;
        let ghost done1 = done0.push(FieldValue::Text(player_name@));
        need(data, p, 10, "ChatMessage too short", Ghost(steps), Ghost(1), Ghost(done1))?;
        let steam_id = read_qword(data, p, Ghost(steps), Ghost(2), Ghost(done1));
        let p = p + 8;
        let ghost done2 = done1.push(FieldValue::Qword(steam_id));
        let team = read_byte(data, p, Ghost(steps), Ghost(3), Ghost(done2));
        let p = p + 1;
        let ghost done3 = done2.push(FieldValue::Byte(team));
        let chat_type = read_byte(data, p, Ghost(steps), Ghost(4), Ghost(done3));
        let p = p + 1;
        let ghost done4 = done3.push(FieldValue::Byte(chat_type));
        let (message, p) = read_text(data, p, Ghost(steps), Ghost(5), Ghost(done4))?;
        let ghost done5 = done4.push(FieldValue::Text(message@));
        proof { lemma_prefix_end(done5, steps, data@, p as int); }
        let e = ChatMessageEvent { player_name, steam_id, team, chat_type, message };
        proof { assert(e.fields() =~= done5); }
        Ok((e, p))
    }

    /// Every record of this kind has the fields that its layout reads, and
    /// meets every length check of it.
    pub proof fn lemma_layout(self)
        ensures
            layout_matches(self),
    {
        reveal_with_fuel(shaped, 8);
        reveal_with_fuel(needs_ok, 8);
        reveal_with_fuel(min_len_from, 8);
    }

    /// Appends the record's bytes to `buf`.
    pub fn serialize(&self, buf: &mut Vec<u8>)
        ensures
            final(buf)@ == old(buf)@ + values_wire(self.fields()),
    {
        let ghost base = buf@;
        proof { lemma_wire_empty(base); }
        let ghost done0 = Seq::<FieldValue>::empty();
        put_text(buf, self.player_name.as_str(), Ghost(base), Ghost(done0));
        let ghost done1 = done0.push(FieldValue::Text(self.player_name@));
        put_qword(buf, self.steam_id, Ghost(base), Ghost(done1));
        let ghost done2 = done1.push(FieldValue::Qword(self.steam_id));
        put_byte(buf, self.team, Ghost(base), Ghost(done2));
        let ghost done3 = done2.push(FieldValue::Byte(self.team));
        put_byte(buf, self.chat_type, Ghost(base), Ghost(done3));
        let ghost done4 = done3.push(FieldValue::Byte(self.chat_type));
        put_text(buf, self.message.as_str(), Ghost(base), Ghost(done4));
        let ghost done5 = done4.push(FieldValue::Text(self.message@));
        proof { assert(self.fields() =~= done5); }
    }
}

/// An administrator's announcement.
#[derive(Debug, Clone)]
pub struct AdminMessageEvent {
    pub admin_name: String,
    pub message: String,
    pub color: u32,
}

impl WireRecord for AdminMessageEvent {
    open spec fn layout() -> Seq<FieldKind> {
        seq![
            FieldKind::Text,
            FieldKind::Text,
            FieldKind::Need(4, "AdminMessage too short"@),
            FieldKind::Dword,
        ]
    }

    open spec fn fields(&self) -> Seq<FieldValue> {
        seq![
            FieldValue::Text(self.admin_name@),
            FieldValue::Text(self.message@),
            FieldValue::Dword(self.color),
        ]
    }
}

impl AdminMessageEvent {
    /// Parses the record from the start of `data`, giving it and the number of
    /// bytes it took.
    pub fn parse(data: &[u8]) -> (r: Result<(Self, usize), RelayError>)
        ensures
            record_parsed::<Self>(data@, r),
    {
        let ghost steps = Self::layout();
        proof {
            lemma_prefix_empty(decode_layout(steps, data@));
            reveal_with_fuel(guarded, 5);
            assert(guarded(steps, 0, 0));
            lemma_guarded_never_panics(steps, 0, 0, data@, 0);
        }
        let _len = data.len();
        let p: usize = 0;
        let ghost done0 = Seq::<FieldValue>::empty();
        let (admin_name, p) = read_text(data, p, Ghost(steps), Ghost(0), Ghost(done0))?;
        let ghost done1 = done0.push(FieldValue::Text(admin_name@));
        let (message, p) = read_text(data, p, Ghost(steps), Ghost(1), Ghost(done1))?;
        let ghost done2 = done1.push(FieldValue::Text(message@));
        need(data, p, 4, "AdminMessage too short", Ghost(steps), Ghost(2), Ghost(done2))?;
        let color = read_dword(data, p, Ghost(steps), Ghost(3), Ghost(done2));
        let p = p + 4;
        let ghost done3 = done2.push(FieldValue::Dword(color));
        proof { lemma_prefix_end(done3, steps, data@, p as int); }
        let e = AdminMessageEvent { admin_name, message, color };
        proof { assert(e.fields() =~= done3); }
        Ok((e, p))
    }

    /// Every record of this kind has the fields that its layout reads, and
    /// meets every length check of it.
    pub proof fn lemma_layout(self)
        ensures
            layout_matches(self),
    {
        reveal_with_fuel(shaped, 6);
        reveal_with_fuel(needs_ok, 6);
        reveal_with_fuel(min_len_from, 6);
    }

    /// Appends the record's bytes to `buf`.
    pub fn serialize(&self, buf: &mut Vec<u8>)
        ensures
            final(buf)@ == old(buf)@ + values_wire(self.fields()),
    {
        let ghost base = buf@;
        proof { lemma_wire_empty(base); }
        let ghost done0 = Seq::<FieldValue>::empty();
        put_text(buf, self.admin_name.as_str(), Ghost(base), Ghost(done0));
        let ghost done1 = done0.push(FieldValue::Text(self.admin_name@));
        put_text(buf, self.message.as_str(), Ghost(base), Ghost(done1));
        let ghost done2 = done1.push(FieldValue::Text(self.message@));
        put_dword(buf, self.color, Ghost(base), Ghost(done2));
        let ghost done3 = done2.push(FieldValue::Dword(self.color));
        proof { assert(self.fields() =~= done3); }
    }
}

/// A kill (`crit_type` 0 = normal, 1 = mini-crit, 2 = crit).
#[derive(Debug, Clone)]
pub struct PlayerDeathEvent {
    pub victim_name: String,
    pub victim_steam_id: u64,
    pub victim_team: u8,
    pub victim_class: u8,
    pub attacker_name: String,
    pub attacker_steam_id: u64,
    pub attacker_team: u8,
    pub attacker_class: u8,
    pub weapon: String,
    pub crit_type: u8,
    pub death_flags: u16,
}

impl WireRecord for PlayerDeathEvent {
    open spec fn layout() -> Seq<FieldKind> {
        seq![
            FieldKind::Text,
            FieldKind::Need(10, "PlayerDeath too short"@),
            FieldKind::Qword,
            FieldKind::Byte,
            FieldKind::Byte,
            FieldKind::Text,
            FieldKind::Need(10, "PlayerDeath too short"@),
            FieldKind::Qword,
            FieldKind::Byte,
            FieldKind::Byte,
            FieldKind::Text,
            FieldKind::Need(3, "PlayerDeath too short"@),
            FieldKind::Byte,
            FieldKind::Word,
        ]
    }

    open spec fn fields(&self) -> Seq<FieldValue> {
        seq![
            FieldValue::Text(self.victim_name@),
            FieldValue::Qword(self.victim_steam_id),
            FieldValue::Byte(self.victim_team),
            FieldValue::Byte(self.victim_class),
            FieldValue::Text(self.attacker_name@),
            FieldValue::Qword(self.attacker_steam_id),
            FieldValue::Byte(self.attacker_team),
            FieldValue::Byte(self.attacker_class),
            FieldValue::Text(self.weapon@),
            FieldValue::Byte(self.crit_type),
            FieldValue::Word(self.death_flags),
        ]
    }
}

impl PlayerDeathEvent {
    /// Parses the record from the start of `data`, giving it and the number of
    /// bytes it took.
    pub fn parse(data: &[u8]) -> (r: Result<(Self, usize), RelayError>)
        ensures
            record_parsed::<Self>(data@, r),
    {
        let ghost steps = Self::layout();
        proof {
            lemma_prefix_empty(decode_layout(steps, data@));
            reveal_with_fuel(guarded, 15);
            assert(guarded(steps, 0, 0));
            lemma_guarded_never_panics(steps, 0, 0, data@, 0);
        }
        let _len = data.len();
        let p: usize = 0;
        let ghost done0 = Seq::<FieldValue>::empty();
        let (victim_name, p) = read_text(data, p, Ghost(steps), Ghost(0), Ghost(done0))?;
        let ghost done1 = done0.push(FieldValue::Text(victim_name@));
        need(data, p, 10, "PlayerDeath too short", Ghost(steps), Ghost(1), Ghost(done1))?;
        let victim_steam_id = read_qword(data, p, Ghost(steps), Ghost(2), Ghost(done1));
        let p = p + 8;
        let ghost done2 = done1.push(FieldValue::Qword(victim_steam_id));
        let victim_team = read_byte(data, p, Ghost(steps), Ghost(3), Ghost(done2));
        let p = p + 1;
        let ghost done3 = done2.push(FieldValue::Byte(victim_team));
        let victim_class = read_byte(data, p, Ghost(steps), Ghost(4), Ghost(done3));
        let p = p + 1;
        let ghost done4 = done3.push(FieldValue::Byte(victim_class));
        let (attacker_name, p) = read_text(data, p, Ghost(steps), Ghost(5), Ghost(done4))?;
        let ghost done5 = done4.push(FieldValue::Text(attacker_name@));
        need(data, p, 10, "PlayerDeath too short", Ghost(steps), Ghost(6), Ghost(done5))?;
        let attacker_steam_id = read_qword(data, p, Ghost(steps), Ghost(7), Ghost(done5));
        let p = p + 8;
        let ghost done6 = done5.push(FieldValue::Qword(attacker_steam_id));
        let attacker_team = read_byte(data, p, Ghost(steps), Ghost(8), Ghost(done6));
        let p = p + 1;
        let ghost done7 = done6.push(FieldValue::Byte(attacker_team));
        let attacker_class = read_byte(data, p, Ghost(steps), Ghost(9), Ghost(done7));
        let p = p + 1;
        let ghost done8 = done7.push(FieldValue::Byte(attacker_class));
        let (weapon, p) = read_text(data, p, Ghost(steps), Ghost(10), Ghost(done8))?;
        let ghost done9 = done8.push(FieldValue::Text(weapon@));
        need(data, p, 3, "PlayerDeath too short", Ghost(steps), Ghost(11), Ghost(done9))?;
        let crit_type = read_byte(data, p, Ghost(steps), Ghost(12), Ghost(done9));
        let p = p + 1;
        let ghost done10 = done9.push(FieldValue::Byte(crit_type));
        let death_flags = read_word(data, p, Ghost(steps), Ghost(13), Ghost(done10));
        let p = p + 2;
        let ghost done11 = done10.push(FieldValue::Word(death_flags));
        proof { lemma_prefix_end(done11, steps, data@, p as int); }
        let e = PlayerDeathEvent { victim_name, victim_steam_id, victim_team, victim_class, attacker_name, attacker_steam_id, attacker_team, attacker_class, weapon, crit_type, death_flags };
        proof { assert(e.fields() =~= done11); }
        Ok((e, p))
    }

    /// Every record of this kind has the fields that its layout reads, and
    /// meets every length check of it.
    pub proof fn lemma_layout(self)
        ensures
            layout_matches(self),
    {
        reveal_with_fuel(shaped, 16);
        reveal_with_fuel(needs_ok, 16);
        reveal_with_fuel(min_len_from, 16);
    }

    /// Appends the record's bytes to `buf`.
    pub fn serialize(&self, buf: &mut Vec<u8>)
        ensures
            final(buf)@ == old(buf)@ + values_wire(self.fields()),
    {
        let ghost base = buf@;
        proof { lemma_wire_empty(base); }
        let ghost done0 = Seq::<FieldValue>::empty();
        put_text(buf, self.victim_name.as_str(), Ghost(base), Ghost(done0));
        let ghost done1 = done0.push(FieldValue::Text(self.victim_name@));
        put_qword(buf, self.victim_steam_id, Ghost(base), Ghost(done1));
        let ghost done2 = done1.push(FieldValue::Qword(self.victim_steam_id));
        put_byte(buf, self.victim_team, Ghost(base), Ghost(done2));
        let ghost done3 = done2.push(FieldValue::Byte(self.victim_team));
        put_byte(buf, self.victim_class, Ghost(base), Ghost(done3));
        let ghost done4 = done3.push(FieldValue::Byte(self.victim_class));
        put_text(buf, self.attacker_name.as_str(), Ghost(base), Ghost(done4));
        let ghost done5 = done4.push(FieldValue::Text(self.attacker_name@));
        put_qword(buf, self.attacker_steam_id, Ghost(base), Ghost(done5));
        let ghost done6 = done5.push(FieldValue::Qword(self.attacker_steam_id));
        put_byte(buf, self.attacker_team, Ghost(base), Ghost(done6));
        let ghost done7 = done6.push(FieldValue::Byte(self.attacker_team));
        put_byte(buf, self.attacker_class, Ghost(base), Ghost(done7));
        let ghost done8 = done7.push(FieldValue::Byte(self.attacker_class));
        put_text(buf, self.weapon.as_str(), Ghost(base), Ghost(done8));
        let ghost done9 = done8.push(FieldValue::Text(self.weapon@));
        put_byte(buf, self.crit_type, Ghost(base), Ghost(done9));
        let ghost done10 = done9.push(FieldValue::Byte(self.crit_type));
        put_word(buf, self.death_flags, Ghost(base), Ghost(done10));
        let ghost done11 = done10.push(FieldValue::Word(self.death_flags));
        proof { assert(self.fields() =~= done11); }
    }
}

/// A player joined a game server.
#[derive(Debug, Clone)]
pub struct PlayerConnectEvent {
    pub player_name: String,
    pub steam_id: u64,
    pub ip_hash: u32,
}

impl WireRecord for PlayerConnectEvent {
    open spec fn layout() -> Seq<FieldKind> {
        seq![
            FieldKind::Text,
            FieldKind::Need(12, "PlayerConnect too short"@),
            FieldKind::Qword,
            FieldKind::Dword,
        ]
    }

    open spec fn fields(&self) -> Seq<FieldValue> {
        seq![
            FieldValue::Text(self.player_name@),
            FieldValue::Qword(self.steam_id),
            FieldValue::Dword(self.ip_hash),
        ]
    }
}

impl PlayerConnectEvent {
    /// Parses the record from the start of `data`, giving it and the number of
    /// bytes it took.
    pub fn parse(data: &[u8]) -> (r: Result<(Self, usize), RelayError>)
        ensures
            record_parsed::<Self>(data@, r),
    {
        let ghost steps = Self::layout();
        proof {
            lemma_prefix_empty(decode_layout(steps, data@));
            reveal_with_fuel(guarded, 5);
            assert(guarded(steps, 0, 0));
            lemma_guarded_never_panics(steps, 0, 0, data@, 0);
        }
        let _len = data.len();
        let p: usize = 0;
        let ghost done0 = Seq::<FieldValue>::empty();
        let (player_name, p) = read_text(data, p, Ghost(steps), Ghost(0), Ghost(done0))?;
        let ghost done1 = done0.push(FieldValue::Text(player_name@));
        need(data, p, 12, "PlayerConnect too short", Ghost(steps), Ghost(1), Ghost(done1))?;
        let steam_id = read_qword(data, p, Ghost(steps), Ghost(2), Ghost(done1));
        let p = p + 8;
        let ghost done2 = done1.push(FieldValue::Qword(steam_id));
        let ip_hash = read_dword(data, p, Ghost(steps), Ghost(3), Ghost(done2));
        let p = p + 4;
        let ghost done3 = done2.push(FieldValue::Dword(ip_hash));
        proof { lemma_prefix_end(done3, steps, data@, p as int); }
        let e = PlayerConnectEvent { player_name, steam_id, ip_hash };
        proof { assert(e.fields() =~= done3); }
        Ok((e, p))
    }

    /// Every record of this kind has the fields that its layout reads, and
    /// meets every length check of it.
    pub proof fn lemma_layout(self)
        ensures
            layout_matches(self),
    {
        reveal_with_fuel(shaped, 6);
        reveal_with_fuel(needs_ok, 6);
        reveal_with_fuel(min_len_from, 6);
    }

    /// Appends the record's bytes to `buf`.
    pub fn serialize(&self, buf: &mut Vec<u8>)
        ensures
            final(buf)@ == old(buf)@ + values_wire(self.fields()),
    {
        let ghost base = buf@;
        proof { lemma_wire_empty(base); }
        let ghost done0 = Seq::<FieldValue>::empty();
        put_text(buf, self.player_name.as_str(), Ghost(base), Ghost(done0));
        let ghost done1 = done0.push(FieldValue::Text(self.player_name@));
        put_qword(buf, self.steam_id, Ghost(base), Ghost(done1));
        let ghost done2 = done1.push(FieldValue::Qword(self.steam_id));
        put_dword(buf, self.ip_hash, Ghost(base), Ghost(done2));
        let ghost done3 = done2.push(FieldValue::Dword(self.ip_hash));
        proof { assert(self.fields() =~= done3); }
    }
}

/// A player left a game server.
#[derive(Debug, Clone)]
pub struct PlayerDisconnectEvent {
    pub player_name: String,
    pub steam_id: u64,
    pub reason: String,
}

impl WireRecord for PlayerDisconnectEvent {
    open spec fn layout() -> Seq<FieldKind> {
        seq![
            FieldKind::Text,
            FieldKind::Need(8, "PlayerDisconnect too short"@),
            FieldKind::Qword,
            FieldKind::Text,
        ]
    }

    open spec fn fields(&self) -> Seq<FieldValue> {
        seq![
            FieldValue::Text(self.player_name@),
            FieldValue::Qword(self.steam_id),
            FieldValue::Text(self.reason@),
        ]
    }
}

impl PlayerDisconnectEvent {
    /// Parses the record from the start of `data`, giving it and the number of
    /// bytes it took.
    pub fn parse(data: &[u8]) -> (r: Result<(Self, usize), RelayError>)
        ensures
            record_parsed::<Self>(data@, r),
    {
        let ghost steps = Self::layout();
        proof {
            lemma_prefix_empty(decode_layout(steps, data@));
            reveal_with_fuel(guarded, 5);
            assert(guarded(steps, 0, 0));
            lemma_guarded_never_panics(steps, 0, 0, data@, 0);
        }
        let _len = data.len();
        let p: usize = 0;
        let ghost done0 = Seq::<FieldValue>::empty();
        let (player_name, p) = read_text(data, p, Ghost(steps), Ghost(0), Ghost(done0))?;
        let ghost done1 = done0.push(FieldValue::Text(player_name@));
        need(data, p, 8, "PlayerDisconnect too short", Ghost(steps), Ghost(1), Ghost(done1))?;
        let steam_id = read_qword(data, p, Ghost(steps), Ghost(2), Ghost(done1));
        let p = p + 8;
        let ghost done2 = done1.push(FieldValue::Qword(steam_id));
        let (reason, p) = read_text(data, p, Ghost(steps), Ghost(3), Ghost(done2))?;
        let ghost done3 = done2.push(FieldValue::Text(reason@));
        proof { lemma_prefix_end(done3, steps, data@, p as int); }
        let e = PlayerDisconnectEvent { player_name, steam_id, reason };
        proof { assert(e.fields() =~= done3); }
        Ok((e, p))
    }

    /// Every record of this kind has the fields that its layout reads, and
    /// meets every length check of it.
    pub proof fn lemma_layout(self)
        ensures
            layout_matches(self),
    {
        reveal_with_fuel(shaped, 6);
        reveal_with_fuel(needs_ok, 6);
        reveal_with_fuel(min_len_from, 6);
    }

    /// Appends the record's bytes to `buf`.
    pub fn serialize(&self, buf: &mut Vec<u8>)
        ensures
            final(buf)@ == old(buf)@ + values_wire(self.fields()),
    {
        let ghost base = buf@;
        proof { lemma_wire_empty(base); }
        let ghost done0 = Seq::<FieldValue>::empty();
        put_text(buf, self.player_name.as_str(), Ghost(base), Ghost(done0));
        let ghost done1 = done0.push(FieldValue::Text(self.player_name@));
        put_qword(buf, self.steam_id, Ghost(base), Ghost(done1));
        let ghost done2 = done1.push(FieldValue::Qword(self.steam_id));
        put_text(buf, self.reason.as_str(), Ghost(base), Ghost(done2));
        let ghost done3 = done2.push(FieldValue::Text(self.reason@));
        proof { assert(self.fields() =~= done3); }
    }
}

/// A player changed team.
#[derive(Debug, Clone)]
pub struct PlayerTeamChangeEvent {
    pub player_name: String,
    pub steam_id: u64,
    pub old_team: u8,
    pub new_team: u8,
}

impl WireRecord for PlayerTeamChangeEvent {
    open spec fn layout() -> Seq<FieldKind> {
        seq![
            FieldKind::Text,
            FieldKind::Need(10, "PlayerTeamChange too short"@),
            FieldKind::Qword,
            FieldKind::Byte,
            FieldKind::Byte,
        ]
    }

    open spec fn fields(&self) -> Seq<FieldValue> {
        seq![
            FieldValue::Text(self.player_name@),
            FieldValue::Qword(self.steam_id),
            FieldValue::Byte(self.old_team),
            FieldValue::Byte(self.new_team),
        ]
    }
}

impl PlayerTeamChangeEvent {
    /// Parses the record from the start of `data`, giving it and the number of
    /// bytes it took.
    pub fn parse(data: &[u8]) -> (r: Result<(Self, usize), RelayError>)
        ensures
            record_parsed::<Self>(data@, r),
    {
        let ghost steps = Self::layout();
        proof {
            lemma_prefix_empty(decode_layout(steps, data@));
            reveal_with_fuel(guarded, 6);
            assert(guarded(steps, 0, 0));
            lemma_guarded_never_panics(steps, 0, 0, data@, 0);
        }
        let _len = data.len();
        let p: usize = 0;
        let ghost done0 = Seq::<FieldValue>::empty();
        let (player_name, p) = read_text(data, p, Ghost(steps), Ghost(0), Ghost(done0))?;
        let ghost done1 = done0.push(FieldValue::Text(player_name@));
        need(data, p, 10, "PlayerTeamChange too short", Ghost(steps), Ghost(1), Ghost(done1))?;
        let steam_id = read_qword(data, p, Ghost(steps), Ghost(2), Ghost(done1));
        let p = p + 8;
        let ghost done2 = done1.push(FieldValue::Qword(steam_id));
        let old_team = read_byte(data, p, Ghost(steps), Ghost(3), Ghost(done2));
        let p = p + 1;
        let ghost done3 = done2.push(FieldValue::Byte(old_team));
        let new_team = read_byte(data, p, Ghost(steps), Ghost(4), Ghost(done3));
        let p = p + 1;
        let ghost done4 = done3.push(FieldValue::Byte(new_team));
        proof { lemma_prefix_end(done4, steps, data@, p as int); }
        let e = PlayerTeamChangeEvent { player_name, steam_id, old_team, new_team };
        proof { assert(e.fields() =~= done4); }
        Ok((e, p))
    }

    /// Every record of this kind has the fields that its layout reads, and
    /// meets every length check of it.
    pub proof fn lemma_layout(self)
        ensures
            layout_matches(self),
    {
        reveal_with_fuel(shaped, 7);
        reveal_with_fuel(needs_ok, 7);
        reveal_with_fuel(min_len_from, 7);
    }

    /// Appends the record's bytes to `buf`.
    pub fn serialize(&self, buf: &mut Vec<u8>)
        ensures
            final(buf)@ == old(buf)@ + values_wire(self.fields()),
    {
        let ghost base = buf@;
        proof { lemma_wire_empty(base); }
        let ghost done0 = Seq::<FieldValue>::empty();
        put_text(buf, self.player_name.as_str(), Ghost(base), Ghost(done0));
        let ghost done1 = done0.push(FieldValue::Text(self.player_name@));
        put_qword(buf, self.steam_id, Ghost(base), Ghost(done1));
        let ghost done2 = done1.push(FieldValue::Qword(self.steam_id));
        put_byte(buf, self.old_team, Ghost(base), Ghost(done2));
        let ghost done3 = done2.push(FieldValue::Byte(self.old_team));
        put_byte(buf, self.new_team, Ghost(base), Ghost(done3));
        let ghost done4 = done3.push(FieldValue::Byte(self.new_team));
        proof { assert(self.fields() =~= done4); }
    }
}

/// A player changed class.
#[derive(Debug, Clone)]
pub struct PlayerClassChangeEvent {
    pub player_name: String,
    pub steam_id: u64,
    pub new_class: u8,
}

impl WireRecord for PlayerClassChangeEvent {
    open spec fn layout() -> Seq<FieldKind> {
        seq![
            FieldKind::Text,
            FieldKind::Need(9, "PlayerClassChange too short"@),
            FieldKind::Qword,
            FieldKind::Byte,
        ]
    }

    open spec fn fields(&self) -> Seq<FieldValue> {
        seq![
            FieldValue::Text(self.player_name@),
            FieldValue::Qword(self.steam_id),
            FieldValue::Byte(self.new_class),
        ]
    }
}

impl PlayerClassChangeEvent {
    /// Parses the record from the start of `data`, giving it and the number of
    /// bytes it took.
    pub fn parse(data: &[u8]) -> (r: Result<(Self, usize), RelayError>)
        ensures
            record_parsed::<Self>(data@, r),
    {
        let ghost steps = Self::layout();
        proof {
            lemma_prefix_empty(decode_layout(steps, data@));
            reveal_with_fuel(guarded, 5);
            assert(guarded(steps, 0, 0));
            lemma_guarded_never_panics(steps, 0, 0, data@, 0);
        }
        let _len = data.len();
        let p: usize = 0;
        let ghost done0 = Seq::<FieldValue>::empty();
        let (player_name, p) = read_text(data, p, Ghost(steps), Ghost(0), Ghost(done0))?;
        let ghost done1 = done0.push(FieldValue::Text(player_name@));
        need(data, p, 9, "PlayerClassChange too short", Ghost(steps), Ghost(1), Ghost(done1))?;
        let steam_id = read_qword(data, p, Ghost(steps), Ghost(2), Ghost(done1));
        let p = p + 8;
        let ghost done2 = done1.push(FieldValue::Qword(steam_id));
        let new_class = read_byte(data, p, Ghost(steps), Ghost(3), Ghost(done2));
        let p = p + 1;
        let ghost done3 = done2.push(FieldValue::Byte(new_class));
        proof { lemma_prefix_end(done3, steps, data@, p as int); }
        let e = PlayerClassChangeEvent { player_name, steam_id, new_class };
        proof { assert(e.fields() =~= done3); }
        Ok((e, p))
    }

    /// Every record of this kind has the fields that its layout reads, and
    /// meets every length check of it.
    pub proof fn lemma_layout(self)
        ensures
            layout_matches(self),
    {
        reveal_with_fuel(shaped, 6);
        reveal_with_fuel(needs_ok, 6);
        reveal_with_fuel(min_len_from, 6);
    }

    /// Appends the record's bytes to `buf`.
    pub fn serialize(&self, buf: &mut Vec<u8>)
        ensures
            final(buf)@ == old(buf)@ + values_wire(self.fields()),
    {
        let ghost base = buf@;
        proof { lemma_wire_empty(base); }
        let ghost done0 = Seq::<FieldValue>::empty();
        put_text(buf, self.player_name.as_str(), Ghost(base), Ghost(done0));
        let ghost done1 = done0.push(FieldValue::Text(self.player_name@));
        put_qword(buf, self.steam_id, Ghost(base), Ghost(done1));
        let ghost done2 = done1.push(FieldValue::Qword(self.steam_id));
        put_byte(buf, self.new_class, Ghost(base), Ghost(done2));
        let ghost done3 = done2.push(FieldValue::Byte(self.new_class));
        proof { assert(self.fields() =~= done3); }
    }
}

/// A player was healed.
#[derive(Debug, Clone)]
pub struct PlayerHealedEvent {
    pub patient_steam_id: u64,
    pub healer_steam_id: u64,
    pub amount: u16,
    pub heal_source: u8,
}

impl WireRecord for PlayerHealedEvent {
    open spec fn layout() -> Seq<FieldKind> {
        seq![
            FieldKind::Need(19, "PlayerHealed too short"@),
            FieldKind::Qword,
            FieldKind::Qword,
            FieldKind::Word,
            FieldKind::Byte,
        ]
    }

    open spec fn fields(&self) -> Seq<FieldValue> {
        seq![
            FieldValue::Qword(self.patient_steam_id),
            FieldValue::Qword(self.healer_steam_id),
            FieldValue::Word(self.amount),
            FieldValue::Byte(self.heal_source),
        ]
    }
}

impl PlayerHealedEvent {
    /// Parses the record from the start of `data`, giving it and the number of
    /// bytes it took.
    pub fn parse(data: &[u8]) -> (r: Result<(Self, usize), RelayError>)
        ensures
            record_parsed::<Self>(data@, r),
    {
        let ghost steps = Self::layout();
        proof {
            lemma_prefix_empty(decode_layout(steps, data@));
            reveal_with_fuel(guarded, 6);
            assert(guarded(steps, 0, 0));
            lemma_guarded_never_panics(steps, 0, 0, data@, 0);
        }
        let _len = data.len();
        let p: usize = 0;
        let ghost done0 = Seq::<FieldValue>::empty();
        need(data, p, 19, "PlayerHealed too short", Ghost(steps), Ghost(0), Ghost(done0))?;
        let patient_steam_id = read_qword(data, p, Ghost(steps), Ghost(1), Ghost(done0));
        let p = p + 8;
        let ghost done1 = done0.push(FieldValue::Qword(patient_steam_id));
        let healer_steam_id = read_qword(data, p, Ghost(steps), Ghost(2), Ghost(done1));
        let p = p + 8;
        let ghost done2 = done1.push(FieldValue::Qword(healer_steam_id));
        let amount = read_word(data, p, Ghost(steps), Ghost(3), Ghost(done2));
        let p = p + 2;
        let ghost done3 = done2.push(FieldValue::Word(amount));
        let heal_source = read_byte(data, p, Ghost(steps), Ghost(4), Ghost(done3));
        let p = p + 1;
        let ghost done4 = done3.push(FieldValue::Byte(heal_source));
        proof { lemma_prefix_end(done4, steps, data@, p as int); }
        let e = PlayerHealedEvent { patient_steam_id, healer_steam_id, amount, heal_source };
        proof { assert(e.fields() =~= done4); }
        Ok((e, p))
    }

    /// Every record of this kind has the fields that its layout reads, and
    /// meets every length check of it.
    pub proof fn lemma_layout(self)
        ensures
            layout_matches(self),
    {
        reveal_with_fuel(shaped, 7);
        reveal_with_fuel(needs_ok, 7);
        reveal_with_fuel(min_len_from, 7);
    }

    /// Appends the record's bytes to `buf`.
    pub fn serialize(&self, buf: &mut Vec<u8>)
        ensures
            final(buf)@ == old(buf)@ + values_wire(self.fields()),
    {
        let ghost base = buf@;
        proof { lemma_wire_empty(base); }
        let ghost done0 = Seq::<FieldValue>::empty();
        put_qword(buf, self.patient_steam_id, Ghost(base), Ghost(done0));
        let ghost done1 = done0.push(FieldValue::Qword(self.patient_steam_id));
        put_qword(buf, self.healer_steam_id, Ghost(base), Ghost(done1));
        let ghost done2 = done1.push(FieldValue::Qword(self.healer_steam_id));
        put_word(buf, self.amount, Ghost(base), Ghost(done2));
        let ghost done3 = done2.push(FieldValue::Word(self.amount));
        put_byte(buf, self.heal_source, Ghost(base), Ghost(done3));
        let ghost done4 = done3.push(FieldValue::Byte(self.heal_source));
        proof { assert(self.fields() =~= done4); }
    }
}

/// A player took damage.
#[derive(Debug, Clone)]
pub struct PlayerHurtEvent {
    pub victim_steam_id: u64,
    pub attacker_steam_id: u64,
    pub damage_amount: u16,
    pub health_remaining: u16,
    pub weapon_id: u16,
    pub damage_type: u8,
    pub crit_type: u8,
    pub hitgroup: u8,
}

impl WireRecord for PlayerHurtEvent {
    open spec fn layout() -> Seq<FieldKind> {
        seq![
            FieldKind::Need(23, "PlayerHurt too short"@),
            FieldKind::Qword,
            FieldKind::Qword,
            FieldKind::Word,
            FieldKind::Word,
            FieldKind::Word,
            FieldKind::Byte,
            FieldKind::Byte,
            FieldKind::Byte,
        ]
    }

    open spec fn fields(&self) -> Seq<FieldValue> {
        seq![
            FieldValue::Qword(self.victim_steam_id),
            FieldValue::Qword(self.attacker_steam_id),
            FieldValue::Word(self.damage_amount),
            FieldValue::Word(self.health_remaining),
            FieldValue::Word(self.weapon_id),
            FieldValue::Byte(self.damage_type),
            FieldValue::Byte(self.crit_type),
            FieldValue::Byte(self.hitgroup),
        ]
    }
}

impl PlayerHurtEvent {
    /// Parses the record from the start of `data`, giving it and the number of
    /// bytes it took.
    pub fn parse(data: &[u8]) -> (r: Result<(Self, usize), RelayError>)
        requires
            !(decode_layout(Self::layout(), data@) is Panics),
        ensures
            record_parsed::<Self>(data@, r),
    {
        let ghost steps = Self::layout();
        proof {
            lemma_prefix_empty(decode_layout(steps, data@));
        }
        let _len = data.len();
        let p: usize = 0;
        let ghost done0 = Seq::<FieldValue>::empty();
        need(data, p, 23, "PlayerHurt too short", Ghost(steps), Ghost(0), Ghost(done0))?;
        let victim_steam_id = read_qword(data, p, Ghost(steps), Ghost(1), Ghost(done0));
        let p = p + 8;
        let ghost done1 = done0.push(FieldValue::Qword(victim_steam_id));
        let attacker_steam_id = read_qword(data, p, Ghost(steps), Ghost(2), Ghost(done1));
        let p = p + 8;
        let ghost done2 = done1.push(FieldValue::Qword(attacker_steam_id));
        let damage_amount = read_word(data, p, Ghost(steps), Ghost(3), Ghost(done2));
        let p = p + 2;
        let ghost done3 = done2.push(FieldValue::Word(damage_amount));
        let health_remaining = read_word(data, p, Ghost(steps), Ghost(4), Ghost(done3));
        let p = p + 2;
        let ghost done4 = done3.push(FieldValue::Word(health_remaining));
        let weapon_id = read_word(data, p, Ghost(steps), Ghost(5), Ghost(done4));
        let p = p + 2;
        let ghost done5 = done4.push(FieldValue::Word(weapon_id));
        let damage_type = read_byte(data, p, Ghost(steps), Ghost(6), Ghost(done5));
        let p = p + 1;
        let ghost done6 = done5.push(FieldValue::Byte(damage_type));
        let crit_type = read_byte(data, p, Ghost(steps), Ghost(7), Ghost(done6));
        let p = p + 1;
        let ghost done7 = done6.push(FieldValue::Byte(crit_type));
        let hitgroup = read_byte(data, p, Ghost(steps), Ghost(8), Ghost(done7));
        let p = p + 1;
        let ghost done8 = done7.push(FieldValue::Byte(hitgroup));
        proof { lemma_prefix_end(done8, steps, data@, p as int); }
        let e = PlayerHurtEvent { victim_steam_id, attacker_steam_id, damage_amount, health_remaining, weapon_id, damage_type, crit_type, hitgroup };
        proof { assert(e.fields() =~= done8); }
        Ok((e, p))
    }

    /// Every record of this kind has the fields that its layout reads, and
    /// meets every length check of it.
    pub proof fn lemma_layout(self)
        ensures
            layout_matches(self),
    {
        reveal_with_fuel(shaped, 11);
        reveal_with_fuel(needs_ok, 11);
        reveal_with_fuel(min_len_from, 11);
    }

    /// Appends the record's bytes to `buf`.
    pub fn serialize(&self, buf: &mut Vec<u8>)
        ensures
            final(buf)@ == old(buf)@ + values_wire(self.fields()),
    {
        let ghost base = buf@;
        proof { lemma_wire_empty(base); }
        let ghost done0 = Seq::<FieldValue>::empty();
        put_qword(buf, self.victim_steam_id, Ghost(base), Ghost(done0));
        let ghost done1 = done0.push(FieldValue::Qword(self.victim_steam_id));
        put_qword(buf, self.attacker_steam_id, Ghost(base), Ghost(done1));
        let ghost done2 = done1.push(FieldValue::Qword(self.attacker_steam_id));
        put_word(buf, self.damage_amount, Ghost(base), Ghost(done2));
        let ghost done3 = done2.push(FieldValue::Word(self.damage_amount));
        put_word(buf, self.health_remaining, Ghost(base), Ghost(done3));
        let ghost done4 = done3.push(FieldValue::Word(self.health_remaining));
        put_word(buf, self.weapon_id, Ghost(base), Ghost(done4));
        let ghost done5 = done4.push(FieldValue::Word(self.weapon_id));
        put_byte(buf, self.damage_type, Ghost(base), Ghost(done5));
        let ghost done6 = done5.push(FieldValue::Byte(self.damage_type));
        put_byte(buf, self.crit_type, Ghost(base), Ghost(done6));
        let ghost done7 = done6.push(FieldValue::Byte(self.crit_type));
        put_byte(buf, self.hitgroup, Ghost(base), Ghost(done7));
        let ghost done8 = done7.push(FieldValue::Byte(self.hitgroup));
        proof { assert(self.fields() =~= done8); }
    }
}

/// A medic deployed an uber charge.
#[derive(Debug, Clone)]
pub struct UberDeployedEvent {
    pub medic_steam_id: u64,
    pub target_steam_id: u64,
    pub uber_type: u8,
}

impl WireRecord for UberDeployedEvent {
    open spec fn layout() -> Seq<FieldKind> {
        seq![
            FieldKind::Need(17, "UberDeployed too short"@),
            FieldKind::Qword,
            FieldKind::Qword,
            FieldKind::Byte,
        ]
    }

    open spec fn fields(&self) -> Seq<FieldValue> {
        seq![
            FieldValue::Qword(self.medic_steam_id),
            FieldValue::Qword(self.target_steam_id),
            FieldValue::Byte(self.uber_type),
        ]
    }
}

impl UberDeployedEvent {
    /// Parses the record from the start of `data`, giving it and the number of
    /// bytes it took.
    pub fn parse(data: &[u8]) -> (r: Result<(Self, usize), RelayError>)
        ensures
            record_parsed::<Self>(data@, r),
    {
        let ghost steps = Self::layout();
        proof {
            lemma_prefix_empty(decode_layout(steps, data@));
            reveal_with_fuel(guarded, 5);
            assert(guarded(steps, 0, 0));
            lemma_guarded_never_panics(steps, 0, 0, data@, 0);
        }
        let _len = data.len();
        let p: usize = 0;
        let ghost done0 = Seq::<FieldValue>::empty();
        need(data, p, 17, "UberDeployed too short", Ghost(steps), Ghost(0), Ghost(done0))?;
        let medic_steam_id = read_qword(data, p, Ghost(steps), Ghost(1), Ghost(done0));
        let p = p + 8;
        let ghost done1 = done0.push(FieldValue::Qword(medic_steam_id));
        let target_steam_id = read_qword(data, p, Ghost(steps), Ghost(2), Ghost(done1));
        let p = p + 8;
        let ghost done2 = done1.push(FieldValue::Qword(target_steam_id));
        let uber_type = read_byte(data, p, Ghost(steps), Ghost(3), Ghost(done2));
        let p = p + 1;
        let ghost done3 = done2.push(FieldValue::Byte(uber_type));
        proof { lemma_prefix_end(done3, steps, data@, p as int); }
        let e = UberDeployedEvent { medic_steam_id, target_steam_id, uber_type };
        proof { assert(e.fields() =~= done3); }
        Ok((e, p))
    }

    /// Every record of this kind has the fields that its layout reads, and
    /// meets every length check of it.
    pub proof fn lemma_layout(self)
        ensures
            layout_matches(self),
    {
        reveal_with_fuel(shaped, 6);
        reveal_with_fuel(needs_ok, 6);
        reveal_with_fuel(min_len_from, 6);
    }

    /// Appends the record's bytes to `buf`.
    pub fn serialize(&self, buf: &mut Vec<u8>)
        ensures
            final(buf)@ == old(buf)@ + values_wire(self.fields()),
    {
        let ghost base = buf@;
        proof { lemma_wire_empty(base); }
        let ghost done0 = Seq::<FieldValue>::empty();
        put_qword(buf, self.medic_steam_id, Ghost(base), Ghost(done0));
        let ghost done1 = done0.push(FieldValue::Qword(self.medic_steam_id));
        put_qword(buf, self.target_steam_id, Ghost(base), Ghost(done1));
        let ghost done2 = done1.push(FieldValue::Qword(self.target_steam_id));
        put_byte(buf, self.uber_type, Ghost(base), Ghost(done2));
        let ghost done3 = done2.push(FieldValue::Byte(self.uber_type));
        proof { assert(self.fields() =~= done3); }
    }
}

/// A player spawned.
#[derive(Debug, Clone)]
pub struct PlayerSpawnEvent {
    pub player_steam_id: u64,
    pub team: u8,
    pub class: u8,
}

impl WireRecord for PlayerSpawnEvent {
    open spec fn layout() -> Seq<FieldKind> {
        seq![
            FieldKind::Need(10, "PlayerSpawn too short"@),
            FieldKind::Qword,
            FieldKind::Byte,
            FieldKind::Byte,
        ]
    }

    open spec fn fields(&self) -> Seq<FieldValue> {
        seq![
            FieldValue::Qword(self.player_steam_id),
            FieldValue::Byte(self.team),
            FieldValue::Byte(self.class),
        ]
    }
}

impl PlayerSpawnEvent {
    /// Parses the record from the start of `data`, giving it and the number of
    /// bytes it took.
    pub fn parse(data: &[u8]) -> (r: Result<(Self, usize), RelayError>)
        ensures
            record_parsed::<Self>(data@, r),
    {
        let ghost steps = Self::layout();
        proof {
            lemma_prefix_empty(decode_layout(steps, data@));
            reveal_with_fuel(guarded, 5);
            assert(guarded(steps, 0, 0));
            lemma_guarded_never_panics(steps, 0, 0, data@, 0);
        }
        let _len = data.len();
        let p: usize = 0;
        let ghost done0 = Seq::<FieldValue>::empty();
        need(data, p, 10, "PlayerSpawn too short", Ghost(steps), Ghost(0), Ghost(done0))?;
        let player_steam_id = read_qword(data, p, Ghost(steps), Ghost(1), Ghost(done0));
        let p = p + 8;
        let ghost done1 = done0.push(FieldValue::Qword(player_steam_id));
        let team = read_byte(data, p, Ghost(steps), Ghost(2), Ghost(done1));
        let p = p + 1;
        let ghost done2 = done1.push(FieldValue::Byte(team));
        let class = read_byte(data, p, Ghost(steps), Ghost(3), Ghost(done2));
        let p = p + 1;
        let ghost done3 = done2.push(FieldValue::Byte(class));
        proof { lemma_prefix_end(done3, steps, data@, p as int); }
        let e = PlayerSpawnEvent { player_steam_id, team, class };
        proof { assert(e.fields() =~= done3); }
        Ok((e, p))
    }

    /// Every record of this kind has the fields that its layout reads, and
    /// meets every length check of it.
    pub proof fn lemma_layout(self)
        ensures
            layout_matches(self),
    {
        reveal_with_fuel(shaped, 6);
        reveal_with_fuel(needs_ok, 6);
        reveal_with_fuel(min_len_from, 6);
    }

    /// Appends the record's bytes to `buf`.
    pub fn serialize(&self, buf: &mut Vec<u8>)
        ensures
            final(buf)@ == old(buf)@ + values_wire(self.fields()),
    {
        let ghost base = buf@;
        proof { lemma_wire_empty(base); }
        let ghost done0 = Seq::<FieldValue>::empty();
        put_qword(buf, self.player_steam_id, Ghost(base), Ghost(done0));
        let ghost done1 = done0.push(FieldValue::Qword(self.player_steam_id));
        put_byte(buf, self.team, Ghost(base), Ghost(done1));
        let ghost done2 = done1.push(FieldValue::Byte(self.team));
        put_byte(buf, self.class, Ghost(base), Ghost(done2));
        let ghost done3 = done2.push(FieldValue::Byte(self.class));
        proof { assert(self.fields() =~= done3); }
    }
}

/// A round started.
#[derive(Debug, Clone)]
pub struct RoundStartEvent {
    pub map_name: String,
    pub round_number: u8,
    pub time_limit: u16,
}

impl WireRecord for RoundStartEvent {
    open spec fn layout() -> Seq<FieldKind> {
        seq![
            FieldKind::Text,
            FieldKind::Need(3, "RoundStart too short"@),
            FieldKind::Byte,
            FieldKind::Word,
        ]
    }

    open spec fn fields(&self) -> Seq<FieldValue> {
        seq![
            FieldValue::Text(self.map_name@),
            FieldValue::Byte(self.round_number),
            FieldValue::Word(self.time_limit),
        ]
    }
}

impl RoundStartEvent {
    /// Parses the record from the start of `data`, giving it and the number of
    /// bytes it took.
    pub fn parse(data: &[u8]) -> (r: Result<(Self, usize), RelayError>)
        ensures
            record_parsed::<Self>(data@, r),
    {
        let ghost steps = Self::layout();
        proof {
            lemma_prefix_empty(decode_layout(steps, data@));
            reveal_with_fuel(guarded, 5);
            assert(guarded(steps, 0, 0));
            lemma_guarded_never_panics(steps, 0, 0, data@, 0);
        }
        let _len = data.len();
        let p: usize = 0;
        let ghost done0 = Seq::<FieldValue>::empty();
        let (map_name, p) = read_text(data, p, Ghost(steps), Ghost(0), Ghost(done0))?;
        let ghost done1 = done0.push(FieldValue::Text(map_name@));
        need(data, p, 3, "RoundStart too short", Ghost(steps), Ghost(1), Ghost(done1))?;
        let round_number = read_byte(data, p, Ghost(steps), Ghost(2), Ghost(done1));
        let p = p + 1;
        let ghost done2 = done1.push(FieldValue::Byte(round_number));
        let time_limit = read_word(data, p, Ghost(steps), Ghost(3), Ghost(done2));
        let p = p + 2;
        let ghost done3 = done2.push(FieldValue::Word(time_limit));
        proof { lemma_prefix_end(done3, steps, data@, p as int); }
        let e = RoundStartEvent { map_name, round_number, time_limit };
        proof { assert(e.fields() =~= done3); }
        Ok((e, p))
    }

    /// Every record of this kind has the fields that its layout reads, and
    /// meets every length check of it.
    pub proof fn lemma_layout(self)
        ensures
            layout_matches(self),
    {
        reveal_with_fuel(shaped, 6);
        reveal_with_fuel(needs_ok, 6);
        reveal_with_fuel(min_len_from, 6);
    }

    /// Appends the record's bytes to `buf`.
    pub fn serialize(&self, buf: &mut Vec<u8>)
        ensures
            final(buf)@ == old(buf)@ + values_wire(self.fields()),
    {
        let ghost base = buf@;
        proof { lemma_wire_empty(base); }
        let ghost done0 = Seq::<FieldValue>::empty();
        put_text(buf, self.map_name.as_str(), Ghost(base), Ghost(done0));
        let ghost done1 = done0.push(FieldValue::Text(self.map_name@));
        put_byte(buf, self.round_number, Ghost(base), Ghost(done1));
        let ghost done2 = done1.push(FieldValue::Byte(self.round_number));
        put_word(buf, self.time_limit, Ghost(base), Ghost(done2));
        let ghost done3 = done2.push(FieldValue::Word(self.time_limit));
        proof { assert(self.fields() =~= done3); }
    }
}

/// A round ended.
#[derive(Debug, Clone)]
pub struct RoundEndEvent {
    pub winning_team: u8,
    pub reason: u8,
    pub round_time: u16,
    pub red_score: u16,
    pub blu_score: u16,
}

impl WireRecord for RoundEndEvent {
    open spec fn layout() -> Seq<FieldKind> {
        seq![
            FieldKind::Need(8, "RoundEnd too short"@),
            FieldKind::Byte,
            FieldKind::Byte,
            FieldKind::Word,
            FieldKind::Word,
            FieldKind::Word,
        ]
    }

    open spec fn fields(&self) -> Seq<FieldValue> {
        seq![
            FieldValue::Byte(self.winning_team),
            FieldValue::Byte(self.reason),
            FieldValue::Word(self.round_time),
            FieldValue::Word(self.red_score),
            FieldValue::Word(self.blu_score),
        ]
    }
}

impl RoundEndEvent {
    /// Parses the record from the start of `data`, giving it and the number of
    /// bytes it took.
    pub fn parse(data: &[u8]) -> (r: Result<(Self, usize), RelayError>)
        ensures
            record_parsed::<Self>(data@, r),
    {
        let ghost steps = Self::layout();
        proof {
            lemma_prefix_empty(decode_layout(steps, data@));
            reveal_with_fuel(guarded, 7);
            assert(guarded(steps, 0, 0));
            lemma_guarded_never_panics(steps, 0, 0, data@, 0);
        }
        let _len = data.len();
        let p: usize = 0;
        let ghost done0 = Seq::<FieldValue>::empty();
        need(data, p, 8, "RoundEnd too short", Ghost(steps), Ghost(0), Ghost(done0))?;
        let winning_team = read_byte(data, p, Ghost(steps), Ghost(1), Ghost(done0));
        let p = p + 1;
        let ghost done1 = done0.push(FieldValue::Byte(winning_team));
        let reason = read_byte(data, p, Ghost(steps), Ghost(2), Ghost(done1));
        let p = p + 1;
        let ghost done2 = done1.push(FieldValue::Byte(reason));
        let round_time = read_word(data, p, Ghost(steps), Ghost(3), Ghost(done2));
        let p = p + 2;
        let ghost done3 = done2.push(FieldValue::Word(round_time));
        let red_score = read_word(data, p, Ghost(steps), Ghost(4), Ghost(done3));
        let p = p + 2;
        let ghost done4 = done3.push(FieldValue::Word(red_score));
        let blu_score = read_word(data, p, Ghost(steps), Ghost(5), Ghost(done4));
        let p = p + 2;
        let ghost done5 = done4.push(FieldValue::Word(blu_score));
        proof { lemma_prefix_end(done5, steps, data@, p as int); }
        let e = RoundEndEvent { winning_team, reason, round_time, red_score, blu_score };
        proof { assert(e.fields() =~= done5); }
        Ok((e, p))
    }

    /// Every record of this kind has the fields that its layout reads, and
    /// meets every length check of it.
    pub proof fn lemma_layout(self)
        ensures
            layout_matches(self),
    {
        reveal_with_fuel(shaped, 8);
        reveal_with_fuel(needs_ok, 8);
        reveal_with_fuel(min_len_from, 8);
    }

    /// Appends the record's bytes to `buf`.
    pub fn serialize(&self, buf: &mut Vec<u8>)
        ensures
            final(buf)@ == old(buf)@ + values_wire(self.fields()),
    {
        let ghost base = buf@;
        proof { lemma_wire_empty(base); }
        let ghost done0 = Seq::<FieldValue>::empty();
        put_byte(buf, self.winning_team, Ghost(base), Ghost(done0));
        let ghost done1 = done0.push(FieldValue::Byte(self.winning_team));
        put_byte(buf, self.reason, Ghost(base), Ghost(done1));
        let ghost done2 = done1.push(FieldValue::Byte(self.reason));
        put_word(buf, self.round_time, Ghost(base), Ghost(done2));
        let ghost done3 = done2.push(FieldValue::Word(self.round_time));
        put_word(buf, self.red_score, Ghost(base), Ghost(done3));
        let ghost done4 = done3.push(FieldValue::Word(self.red_score));
        put_word(buf, self.blu_score, Ghost(base), Ghost(done4));
        let ghost done5 = done4.push(FieldValue::Word(self.blu_score));
        proof { assert(self.fields() =~= done5); }
    }
}

/// The map changed.
#[derive(Debug, Clone)]
pub struct MapChangeEvent {
    pub old_map: String,
    pub new_map: String,
}

impl WireRecord for MapChangeEvent {
    open spec fn layout() -> Seq<FieldKind> {
        seq![
            FieldKind::Text,
            FieldKind::Text,
        ]
    }

    open spec fn fields(&self) -> Seq<FieldValue> {
        seq![
            FieldValue::Text(self.old_map@),
            FieldValue::Text(self.new_map@),
        ]
    }
}

impl MapChangeEvent {
    /// Parses the record from the start of `data`, giving it and the number of
    /// bytes it took.
    pub fn parse(data: &[u8]) -> (r: Result<(Self, usize), RelayError>)
        ensures
            record_parsed::<Self>(data@, r),
    {
        let ghost steps = Self::layout();
        proof {
            lemma_prefix_empty(decode_layout(steps, data@));
            reveal_with_fuel(guarded, 3);
            assert(guarded(steps, 0, 0));
            lemma_guarded_never_panics(steps, 0, 0, data@, 0);
        }
        let _len = data.len();
        let p: usize = 0;
        let ghost done0 = Seq::<FieldValue>::empty();
        let (old_map, p) = read_text(data, p, Ghost(steps), Ghost(0), Ghost(done0))?;
        let ghost done1 = done0.push(FieldValue::Text(old_map@));
        let (new_map, p) = read_text(data, p, Ghost(steps), Ghost(1), Ghost(done1))?;
        let ghost done2 = done1.push(FieldValue::Text(new_map@));
        proof { lemma_prefix_end(done2, steps, data@, p as int); }
        let e = MapChangeEvent { old_map, new_map };
        proof { assert(e.fields() =~= done2); }
        Ok((e, p))
    }

    /// Every record of this kind has the fields that its layout reads, and
    /// meets every length check of it.
    pub proof fn lemma_layout(self)
        ensures
            layout_matches(self),
    {
        reveal_with_fuel(shaped, 4);
        reveal_with_fuel(needs_ok, 4);
        reveal_with_fuel(min_len_from, 4);
    }

    /// Appends the record's bytes to `buf`.
    pub fn serialize(&self, buf: &mut Vec<u8>)
        ensures
            final(buf)@ == old(buf)@ + values_wire(self.fields()),
    {
        let ghost base = buf@;
        proof { lemma_wire_empty(base); }
        let ghost done0 = Seq::<FieldValue>::empty();
        put_text(buf, self.old_map.as_str(), Ghost(base), Ghost(done0));
        let ghost done1 = done0.push(FieldValue::Text(self.old_map@));
        put_text(buf, self.new_map.as_str(), Ghost(base), Ghost(done1));
        let ghost done2 = done1.push(FieldValue::Text(self.new_map@));
        proof { assert(self.fields() =~= done2); }
    }
}

/// Full state of a player for its ghost on other servers; positions and angle are the IEEE-754 bits of 32-bit floats.
#[derive(Debug, Clone)]
pub struct PlayerSyncEvent {
    pub steam_id: u64,
    pub player_name: String,
    pub team: u8,
    pub class: u8,
    pub health: u16,
    pub max_health: u16,
    pub is_alive: bool,
    pub position_x_bits: u32,
    pub position_y_bits: u32,
    pub position_z_bits: u32,
    pub angle_yaw_bits: u32,
}

impl WireRecord for PlayerSyncEvent {
    open spec fn layout() -> Seq<FieldKind> {
        seq![
            FieldKind::Need(8, "PlayerSync too short"@),
            FieldKind::Qword,
            FieldKind::Text,
            FieldKind::Need(23, "PlayerSync too short"@),
            FieldKind::Byte,
            FieldKind::Byte,
            FieldKind::Word,
            FieldKind::Word,
            FieldKind::Flag,
            FieldKind::Dword,
            FieldKind::Dword,
            FieldKind::Dword,
            FieldKind::Dword,
        ]
    }

    open spec fn fields(&self) -> Seq<FieldValue> {
        seq![
            FieldValue::Qword(self.steam_id),
            FieldValue::Text(self.player_name@),
            FieldValue::Byte(self.team),
            FieldValue::Byte(self.class),
            FieldValue::Word(self.health),
            FieldValue::Word(self.max_health),
            FieldValue::Flag(self.is_alive),
            FieldValue::Dword(self.position_x_bits),
            FieldValue::Dword(self.position_y_bits),
            FieldValue::Dword(self.position_z_bits),
            FieldValue::Dword(self.angle_yaw_bits),
        ]
    }
}

impl PlayerSyncEvent {
    /// Parses the record from the start of `data`, giving it and the number of
    /// bytes it took.
    pub fn parse(data: &[u8]) -> (r: Result<(Self, usize), RelayError>)
        ensures
            record_parsed::<Self>(data@, r),
    {
        let ghost steps = Self::layout();
        proof {
            lemma_prefix_empty(decode_layout(steps, data@));
            reveal_with_fuel(guarded, 14);
            assert(guarded(steps, 0, 0));
            lemma_guarded_never_panics(steps, 0, 0, data@, 0);
        }
        let _len = data.len();
        let p: usize = 0;
        let ghost done0 = Seq::<FieldValue>::empty();
        need(data, p, 8, "PlayerSync too short", Ghost(steps), Ghost(0), Ghost(done0))?;
        let steam_id = read_qword(data, p, Ghost(steps), Ghost(1), Ghost(done0));
        let p = p + 8;
        let ghost done1 = done0.push(FieldValue::Qword(steam_id));
        let (player_name, p) = read_text(data, p, Ghost(steps), Ghost(2), Ghost(done1))?;
        let ghost done2 = done1.push(FieldValue::Text(player_name@));
        need(data, p, 23, "PlayerSync too short", Ghost(steps), Ghost(3), Ghost(done2))?;
        let team = read_byte(data, p, Ghost(steps), Ghost(4), Ghost(done2));
        let p = p + 1;
        let ghost done3 = done2.push(FieldValue::Byte(team));
        let class = read_byte(data, p, Ghost(steps), Ghost(5), Ghost(done3));
        let p = p + 1;
        let ghost done4 = done3.push(FieldValue::Byte(class));
        let health = read_word(data, p, Ghost(steps), Ghost(6), Ghost(done4));
        let p = p + 2;
        let ghost done5 = done4.push(FieldValue::Word(health));
        let max_health = read_word(data, p, Ghost(steps), Ghost(7), Ghost(done5));
        let p = p + 2;
        let ghost done6 = done5.push(FieldValue::Word(max_health));
        let is_alive = read_flag(data, p, Ghost(steps), Ghost(8), Ghost(done6));
        let p = p + 1;
        let ghost done7 = done6.push(FieldValue::Flag(is_alive));
        let position_x_bits = read_dword(data, p, Ghost(steps), Ghost(9), Ghost(done7));
        let p = p + 4;
        let ghost done8 = done7.push(FieldValue::Dword(position_x_bits));
        let position_y_bits = read_dword(data, p, Ghost(steps), Ghost(10), Ghost(done8));
        let p = p + 4;
        let ghost done9 = done8.push(FieldValue::Dword(position_y_bits));
        let position_z_bits = read_dword(data, p, Ghost(steps), Ghost(11), Ghost(done9));
        let p = p + 4;
        let ghost done10 = done9.push(FieldValue::Dword(position_z_bits));
        let angle_yaw_bits = read_dword(data, p, Ghost(steps), Ghost(12), Ghost(done10));
        let p = p + 4;
        let ghost done11 = done10.push(FieldValue::Dword(angle_yaw_bits));
        proof { lemma_prefix_end(done11, steps, data@, p as int); }
        let e = PlayerSyncEvent { steam_id, player_name, team, class, health, max_health, is_alive, position_x_bits, position_y_bits, position_z_bits, angle_yaw_bits };
        proof { assert(e.fields() =~= done11); }
        Ok((e, p))
    }

    /// Every record of this kind has the fields that its layout reads, and
    /// meets every length check of it.
    pub proof fn lemma_layout(self)
        ensures
            layout_matches(self),
    {
        reveal_with_fuel(shaped, 15);
        reveal_with_fuel(needs_ok, 15);
        reveal_with_fuel(min_len_from, 15);
    }

    /// Appends the record's bytes to `buf`.
    pub fn serialize(&self, buf: &mut Vec<u8>)
        ensures
            final(buf)@ == old(buf)@ + values_wire(self.fields()),
    {
        let ghost base = buf@;
        proof { lemma_wire_empty(base); }
        let ghost done0 = Seq::<FieldValue>::empty();
        put_qword(buf, self.steam_id, Ghost(base), Ghost(done0));
        let ghost done1 = done0.push(FieldValue::Qword(self.steam_id));
        put_text(buf, self.player_name.as_str(), Ghost(base), Ghost(done1));
        let ghost done2 = done1.push(FieldValue::Text(self.player_name@));
        put_byte(buf, self.team, Ghost(base), Ghost(done2));
        let ghost done3 = done2.push(FieldValue::Byte(self.team));
        put_byte(buf, self.class, Ghost(base), Ghost(done3));
        let ghost done4 = done3.push(FieldValue::Byte(self.class));
        put_word(buf, self.health, Ghost(base), Ghost(done4));
        let ghost done5 = done4.push(FieldValue::Word(self.health));
        put_word(buf, self.max_health, Ghost(base), Ghost(done5));
        let ghost done6 = done5.push(FieldValue::Word(self.max_health));
        put_flag(buf, self.is_alive, Ghost(base), Ghost(done6));
        let ghost done7 = done6.push(FieldValue::Flag(self.is_alive));
        put_dword(buf, self.position_x_bits, Ghost(base), Ghost(done7));
        let ghost done8 = done7.push(FieldValue::Dword(self.position_x_bits));
        put_dword(buf, self.position_y_bits, Ghost(base), Ghost(done8));
        let ghost done9 = done8.push(FieldValue::Dword(self.position_y_bits));
        put_dword(buf, self.position_z_bits, Ghost(base), Ghost(done9));
        let ghost done10 = done9.push(FieldValue::Dword(self.position_z_bits));
        put_dword(buf, self.angle_yaw_bits, Ghost(base), Ghost(done10));
        let ghost done11 = done10.push(FieldValue::Dword(self.angle_yaw_bits));
        proof { assert(self.fields() =~= done11); }
    }
}

/// Position update of a player; positions, angle and velocities are the IEEE-754 bits of 32-bit floats.
#[derive(Debug, Clone)]
pub struct PlayerPositionEvent {
    pub steam_id: u64,
    pub position_x_bits: u32,
    pub position_y_bits: u32,
    pub position_z_bits: u32,
    pub angle_yaw_bits: u32,
    pub velocity_x_bits: u32,
    pub velocity_y_bits: u32,
    pub velocity_z_bits: u32,
}

impl WireRecord for PlayerPositionEvent {
    open spec fn layout() -> Seq<FieldKind> {
        seq![
            FieldKind::Need(36, "PlayerPosition too short"@),
            FieldKind::Qword,
            FieldKind::Dword,
            FieldKind::Dword,
            FieldKind::Dword,
            FieldKind::Dword,
            FieldKind::Dword,
            FieldKind::Dword,
            FieldKind::Dword,
        ]
    }

    open spec fn fields(&self) -> Seq<FieldValue> {
        seq![
            FieldValue::Qword(self.steam_id),
            FieldValue::Dword(self.position_x_bits),
            FieldValue::Dword(self.position_y_bits),
            FieldValue::Dword(self.position_z_bits),
            FieldValue::Dword(self.angle_yaw_bits),
            FieldValue::Dword(self.velocity_x_bits),
            FieldValue::Dword(self.velocity_y_bits),
            FieldValue::Dword(self.velocity_z_bits),
        ]
    }
}

impl PlayerPositionEvent {
    /// Parses the record from the start of `data`, giving it and the number of
    /// bytes it took.
    pub fn parse(data: &[u8]) -> (r: Result<(Self, usize), RelayError>)
        ensures
            record_parsed::<Self>(data@, r),
    {
        let ghost steps = Self::layout();
        proof {
            lemma_prefix_empty(decode_layout(steps, data@));
            reveal_with_fuel(guarded, 10);
            assert(guarded(steps, 0, 0));
            lemma_guarded_never_panics(steps, 0, 0, data@, 0);
        }
        let _len = data.len();
        let p: usize = 0;
        let ghost done0 = Seq::<FieldValue>::empty();
        need(data, p, 36, "PlayerPosition too short", Ghost(steps), Ghost(0), Ghost(done0))?;
        let steam_id = read_qword(data, p, Ghost(steps), Ghost(1), Ghost(done0));
        let p = p + 8;
        let ghost done1 = done0.push(FieldValue::Qword(steam_id));
        let position_x_bits = read_dword(data, p, Ghost(steps), Ghost(2), Ghost(done1));
        let p = p + 4;
        let ghost done2 = done1.push(FieldValue::Dword(position_x_bits));
        let position_y_bits = read_dword(data, p, Ghost(steps), Ghost(3), Ghost(done2));
        let p = p + 4;
        let ghost done3 = done2.push(FieldValue::Dword(position_y_bits));
        let position_z_bits = read_dword(data, p, Ghost(steps), Ghost(4), Ghost(done3));
        let p = p + 4;
        let ghost done4 = done3.push(FieldValue::Dword(position_z_bits));
        let angle_yaw_bits = read_dword(data, p, Ghost(steps), Ghost(5), Ghost(done4));
        let p = p + 4;
        let ghost done5 = done4.push(FieldValue::Dword(angle_yaw_bits));
        let velocity_x_bits = read_dword(data, p, Ghost(steps), Ghost(6), Ghost(done5));
        let p = p + 4;
        let ghost done6 = done5.push(FieldValue::Dword(velocity_x_bits));
        let velocity_y_bits = read_dword(data, p, Ghost(steps), Ghost(7), Ghost(done6));
        let p = p + 4;
        let ghost done7 = done6.push(FieldValue::Dword(velocity_y_bits));
        let velocity_z_bits = read_dword(data, p, Ghost(steps), Ghost(8), Ghost(done7));
        let p = p + 4;
        let ghost done8 = done7.push(FieldValue::Dword(velocity_z_bits));
        proof { lemma_prefix_end(done8, steps, data@, p as int); }
        let e = PlayerPositionEvent { steam_id, position_x_bits, position_y_bits, position_z_bits, angle_yaw_bits, velocity_x_bits, velocity_y_bits, velocity_z_bits };
        proof { assert(e.fields() =~= done8); }
        Ok((e, p))
    }

    /// Every record of this kind has the fields that its layout reads, and
    /// meets every length check of it.
    pub proof fn lemma_layout(self)
        ensures
            layout_matches(self),
    {
        reveal_with_fuel(shaped, 11);
        reveal_with_fuel(needs_ok, 11);
        reveal_with_fuel(min_len_from, 11);
    }

    /// Appends the record's bytes to `buf`.
    pub fn serialize(&self, buf: &mut Vec<u8>)
        ensures
            final(buf)@ == old(buf)@ + values_wire(self.fields()),
    {
        let ghost base = buf@;
        proof { lemma_wire_empty(base); }
        let ghost done0 = Seq::<FieldValue>::empty();
        put_qword(buf, self.steam_id, Ghost(base), Ghost(done0));
        let ghost done1 = done0.push(FieldValue::Qword(self.steam_id));
        put_dword(buf, self.position_x_bits, Ghost(base), Ghost(done1));
        let ghost done2 = done1.push(FieldValue::Dword(self.position_x_bits));
        put_dword(buf, self.position_y_bits, Ghost(base), Ghost(done2));
        let ghost done3 = done2.push(FieldValue::Dword(self.position_y_bits));
        put_dword(buf, self.position_z_bits, Ghost(base), Ghost(done3));
        let ghost done4 = done3.push(FieldValue::Dword(self.position_z_bits));
        put_dword(buf, self.angle_yaw_bits, Ghost(base), Ghost(done4));
        let ghost done5 = done4.push(FieldValue::Dword(self.angle_yaw_bits));
        put_dword(buf, self.velocity_x_bits, Ghost(base), Ghost(done5));
        let ghost done6 = done5.push(FieldValue::Dword(self.velocity_x_bits));
        put_dword(buf, self.velocity_y_bits, Ghost(base), Ghost(done6));
        let ghost done7 = done6.push(FieldValue::Dword(self.velocity_y_bits));
        put_dword(buf, self.velocity_z_bits, Ghost(base), Ghost(done7));
        let ghost done8 = done7.push(FieldValue::Dword(self.velocity_z_bits));
        proof { assert(self.fields() =~= done8); }
    }
}

/// A ghost entity is to be removed.
#[derive(Debug, Clone)]
pub struct GhostRemoveEvent {
    pub steam_id: u64,
    pub reason: String,
}

impl WireRecord for GhostRemoveEvent {
    open spec fn layout() -> Seq<FieldKind> {
        seq![
            FieldKind::Need(8, "GhostRemove too short"@),
            FieldKind::Qword,
            FieldKind::Text,
        ]
    }

    open spec fn fields(&self) -> Seq<FieldValue> {
        seq![
            FieldValue::Qword(self.steam_id),
            FieldValue::Text(self.reason@),
        ]
    }
}

impl GhostRemoveEvent {
    /// Parses the record from the start of `data`, giving it and the number of
    /// bytes it took.
    pub fn parse(data: &[u8]) -> (r: Result<(Self, usize), RelayError>)
        ensures
            record_parsed::<Self>(data@, r),
    {
        let ghost steps = Self::layout();
        proof {
            lemma_prefix_empty(decode_layout(steps, data@));
            reveal_with_fuel(guarded, 4);
            assert(guarded(steps, 0, 0));
            lemma_guarded_never_panics(steps, 0, 0, data@, 0);
        }
        let _len = data.len();
        let p: usize = 0;
        let ghost done0 = Seq::<FieldValue>::empty();
        need(data, p, 8, "GhostRemove too short", Ghost(steps), Ghost(0), Ghost(done0))?;
        let steam_id = read_qword(data, p, Ghost(steps), Ghost(1), Ghost(done0));
        let p = p + 8;
        let ghost done1 = done0.push(FieldValue::Qword(steam_id));
        let (reason, p) = read_text(data, p, Ghost(steps), Ghost(2), Ghost(done1))?;
        let ghost done2 = done1.push(FieldValue::Text(reason@));
        proof { lemma_prefix_end(done2, steps, data@, p as int); }
        let e = GhostRemoveEvent { steam_id, reason };
        proof { assert(e.fields() =~= done2); }
        Ok((e, p))
    }

    /// Every record of this kind has the fields that its layout reads, and
    /// meets every length check of it.
    pub proof fn lemma_layout(self)
        ensures
            layout_matches(self),
    {
        reveal_with_fuel(shaped, 5);
        reveal_with_fuel(needs_ok, 5);
        reveal_with_fuel(min_len_from, 5);
    }

    /// Appends the record's bytes to `buf`.
    pub fn serialize(&self, buf: &mut Vec<u8>)
        ensures
            final(buf)@ == old(buf)@ + values_wire(self.fields()),
    {
        let ghost base = buf@;
        proof { lemma_wire_empty(base); }
        let ghost done0 = Seq::<FieldValue>::empty();
        put_qword(buf, self.steam_id, Ghost(base), Ghost(done0));
        let ghost done1 = done0.push(FieldValue::Qword(self.steam_id));
        put_text(buf, self.reason.as_str(), Ghost(base), Ghost(done1));
        let ghost done2 = done1.push(FieldValue::Text(self.reason@));
        proof { assert(self.fields() =~= done2); }
    }
}

/// A medic on one server heals a player on another.
#[derive(Debug, Clone)]
pub struct HealRequestEvent {
    pub healer_steam_id: u64,
    pub target_steam_id: u64,
    pub heal_amount: u16,
    pub heal_rate: u8,
    pub medigun_type: u8,
    pub is_healing: bool,
}

impl WireRecord for HealRequestEvent {
    open spec fn layout() -> Seq<FieldKind> {
        seq![
            FieldKind::Need(21, "HealRequest too short"@),
            FieldKind::Qword,
            FieldKind::Qword,
            FieldKind::Word,
            FieldKind::Byte,
            FieldKind::Byte,
            FieldKind::Flag,
        ]
    }

    open spec fn fields(&self) -> Seq<FieldValue> {
        seq![
            FieldValue::Qword(self.healer_steam_id),
            FieldValue::Qword(self.target_steam_id),
            FieldValue::Word(self.heal_amount),
            FieldValue::Byte(self.heal_rate),
            FieldValue::Byte(self.medigun_type),
            FieldValue::Flag(self.is_healing),
        ]
    }
}

impl HealRequestEvent {
    /// Parses the record from the start of `data`, giving it and the number of
    /// bytes it took.
    pub fn parse(data: &[u8]) -> (r: Result<(Self, usize), RelayError>)
        ensures
            record_parsed::<Self>(data@, r),
    {
        let ghost steps = Self::layout();
        proof {
            lemma_prefix_empty(decode_layout(steps, data@));
            reveal_with_fuel(guarded, 8);
            assert(guarded(steps, 0, 0));
            lemma_guarded_never_panics(steps, 0, 0, data@, 0);
        }
        let _len = data.len();
        let p: usize = 0;
        let ghost done0 = Seq::<FieldValue>::empty();
        need(data, p, 21, "HealRequest too short", Ghost(steps), Ghost(0), Ghost(done0))?;
        let healer_steam_id = read_qword(data, p, Ghost(steps), Ghost(1), Ghost(done0));
        let p = p + 8;
        let ghost done1 = done0.push(FieldValue::Qword(healer_steam_id));
        let target_steam_id = read_qword(data, p, Ghost(steps), Ghost(2), Ghost(done1));
        let p = p + 8;
        let ghost done2 = done1.push(FieldValue::Qword(target_steam_id));
        let heal_amount = read_word(data, p, Ghost(steps), Ghost(3), Ghost(done2));
        let p = p + 2;
        let ghost done3 = done2.push(FieldValue::Word(heal_amount));
        let heal_rate = read_byte(data, p, Ghost(steps), Ghost(4), Ghost(done3));
        let p = p + 1;
        let ghost done4 = done3.push(FieldValue::Byte(heal_rate));
        let medigun_type = read_byte(data, p, Ghost(steps), Ghost(5), Ghost(done4));
        let p = p + 1;
        let ghost done5 = done4.push(FieldValue::Byte(medigun_type));
        let is_healing = read_flag(data, p, Ghost(steps), Ghost(6), Ghost(done5));
        let p = p + 1;
        let ghost done6 = done5.push(FieldValue::Flag(is_healing));
        proof { lemma_prefix_end(done6, steps, data@, p as int); }
        let e = HealRequestEvent { healer_steam_id, target_steam_id, heal_amount, heal_rate, medigun_type, is_healing };
        proof { assert(e.fields() =~= done6); }
        Ok((e, p))
    }

    /// Every record of this kind has the fields that its layout reads, and
    /// meets every length check of it.
    pub proof fn lemma_layout(self)
        ensures
            layout_matches(self),
    {
        reveal_with_fuel(shaped, 9);
        reveal_with_fuel(needs_ok, 9);
        reveal_with_fuel(min_len_from, 9);
    }

    /// Appends the record's bytes to `buf`.
    pub fn serialize(&self, buf: &mut Vec<u8>)
        ensures
            final(buf)@ == old(buf)@ + values_wire(self.fields()),
    {
        let ghost base = buf@;
        proof { lemma_wire_empty(base); }
        let ghost done0 = Seq::<FieldValue>::empty();
        put_qword(buf, self.healer_steam_id, Ghost(base), Ghost(done0));
        let ghost done1 = done0.push(FieldValue::Qword(self.healer_steam_id));
        put_qword(buf, self.target_steam_id, Ghost(base), Ghost(done1));
        let ghost done2 = done1.push(FieldValue::Qword(self.target_steam_id));
        put_word(buf, self.heal_amount, Ghost(base), Ghost(done2));
        let ghost done3 = done2.push(FieldValue::Word(self.heal_amount));
        put_byte(buf, self.heal_rate, Ghost(base), Ghost(done3));
        let ghost done4 = done3.push(FieldValue::Byte(self.heal_rate));
        put_byte(buf, self.medigun_type, Ghost(base), Ghost(done4));
        let ghost done5 = done4.push(FieldValue::Byte(self.medigun_type));
        put_flag(buf, self.is_healing, Ghost(base), Ghost(done5));
        let ghost done6 = done5.push(FieldValue::Flag(self.is_healing));
        proof { assert(self.fields() =~= done6); }
    }
}

/// The target's server confirms a heal.
#[derive(Debug, Clone)]
pub struct HealConfirmEvent {
    pub target_steam_id: u64,
    pub new_health: u16,
    pub max_health: u16,
    pub overheal_amount: u16,
    pub heal_applied: u16,
}

impl WireRecord for HealConfirmEvent {
    open spec fn layout() -> Seq<FieldKind> {
        seq![
            FieldKind::Need(16, "HealConfirm too short"@),
            FieldKind::Qword,
            FieldKind::Word,
            FieldKind::Word,
            FieldKind::Word,
            FieldKind::Word,
        ]
    }

    open spec fn fields(&self) -> Seq<FieldValue> {
        seq![
            FieldValue::Qword(self.target_steam_id),
            FieldValue::Word(self.new_health),
            FieldValue::Word(self.max_health),
            FieldValue::Word(self.overheal_amount),
            FieldValue::Word(self.heal_applied),
        ]
    }
}

impl HealConfirmEvent {
    /// Parses the record from the start of `data`, giving it and the number of
    /// bytes it took.
    pub fn parse(data: &[u8]) -> (r: Result<(Self, usize), RelayError>)
        ensures
            record_parsed::<Self>(data@, r),
    {
        let ghost steps = Self::layout();
        proof {
            lemma_prefix_empty(decode_layout(steps, data@));
            reveal_with_fuel(guarded, 7);
            assert(guarded(steps, 0, 0));
            lemma_guarded_never_panics(steps, 0, 0, data@, 0);
        }
        let _len = data.len();
        let p: usize = 0;
        let ghost done0 = Seq::<FieldValue>::empty();
        need(data, p, 16, "HealConfirm too short", Ghost(steps), Ghost(0), Ghost(done0))?;
        let target_steam_id = read_qword(data, p, Ghost(steps), Ghost(1), Ghost(done0));
        let p = p + 8;
        let ghost done1 = done0.push(FieldValue::Qword(target_steam_id));
        let new_health = read_word(data, p, Ghost(steps), Ghost(2), Ghost(done1));
        let p = p + 2;
        let ghost done2 = done1.push(FieldValue::Word(new_health));
        let max_health = read_word(data, p, Ghost(steps), Ghost(3), Ghost(done2));
        let p = p + 2;
        let ghost done3 = done2.push(FieldValue::Word(max_health));
        let overheal_amount = read_word(data, p, Ghost(steps), Ghost(4), Ghost(done3));
        let p = p + 2;
        let ghost done4 = done3.push(FieldValue::Word(overheal_amount));
        let heal_applied = read_word(data, p, Ghost(steps), Ghost(5), Ghost(done4));
        let p = p + 2;
        let ghost done5 = done4.push(FieldValue::Word(heal_applied));
        proof { lemma_prefix_end(done5, steps, data@, p as int); }
        let e = HealConfirmEvent { target_steam_id, new_health, max_health, overheal_amount, heal_applied };
        proof { assert(e.fields() =~= done5); }
        Ok((e, p))
    }

    /// Every record of this kind has the fields that its layout reads, and
    /// meets every length check of it.
    pub proof fn lemma_layout(self)
        ensures
            layout_matches(self),
    {
        reveal_with_fuel(shaped, 8);
        reveal_with_fuel(needs_ok, 8);
        reveal_with_fuel(min_len_from, 8);
    }

    /// Appends the record's bytes to `buf`.
    pub fn serialize(&self, buf: &mut Vec<u8>)
        ensures
            final(buf)@ == old(buf)@ + values_wire(self.fields()),
    {
        let ghost base = buf@;
        proof { lemma_wire_empty(base); }
        let ghost done0 = Seq::<FieldValue>::empty();
        put_qword(buf, self.target_steam_id, Ghost(base), Ghost(done0));
        let ghost done1 = done0.push(FieldValue::Qword(self.target_steam_id));
        put_word(buf, self.new_health, Ghost(base), Ghost(done1));
        let ghost done2 = done1.push(FieldValue::Word(self.new_health));
        put_word(buf, self.max_health, Ghost(base), Ghost(done2));
        let ghost done3 = done2.push(FieldValue::Word(self.max_health));
        put_word(buf, self.overheal_amount, Ghost(base), Ghost(done3));
        let ghost done4 = done3.push(FieldValue::Word(self.overheal_amount));
        put_word(buf, self.heal_applied, Ghost(base), Ghost(done4));
        let ghost done5 = done4.push(FieldValue::Word(self.heal_applied));
        proof { assert(self.fields() =~= done5); }
    }
}

/// A player on one server damages a player on another.
#[derive(Debug, Clone)]
pub struct DamageRequestEvent {
    pub attacker_steam_id: u64,
    pub victim_steam_id: u64,
    pub damage_amount: u16,
    pub weapon_id: u16,
    pub damage_type: u8,
    pub crit_type: u8,
    pub hitgroup: u8,
}

impl WireRecord for DamageRequestEvent {
    open spec fn layout() -> Seq<FieldKind> {
        seq![
            FieldKind::Need(23, "DamageRequest too short"@),
            FieldKind::Qword,
            FieldKind::Qword,
            FieldKind::Word,
            FieldKind::Word,
            FieldKind::Byte,
            FieldKind::Byte,
            FieldKind::Byte,
        ]
    }

    open spec fn fields(&self) -> Seq<FieldValue> {
        seq![
            FieldValue::Qword(self.attacker_steam_id),
            FieldValue::Qword(self.victim_steam_id),
            FieldValue::Word(self.damage_amount),
            FieldValue::Word(self.weapon_id),
            FieldValue::Byte(self.damage_type),
            FieldValue::Byte(self.crit_type),
            FieldValue::Byte(self.hitgroup),
        ]
    }
}

impl DamageRequestEvent {
    /// Parses the record from the start of `data`, giving it and the number of
    /// bytes it took.
    pub fn parse(data: &[u8]) -> (r: Result<(Self, usize), RelayError>)
        ensures
            record_parsed::<Self>(data@, r),
    {
        let ghost steps = Self::layout();
        proof {
            lemma_prefix_empty(decode_layout(steps, data@));
            reveal_with_fuel(guarded, 9);
            assert(guarded(steps, 0, 0));
            lemma_guarded_never_panics(steps, 0, 0, data@, 0);
        }
        let _len = data.len();
        let p: usize = 0;
        let ghost done0 = Seq::<FieldValue>::empty();
        need(data, p, 23, "DamageRequest too short", Ghost(steps), Ghost(0), Ghost(done0))?;
        let attacker_steam_id = read_qword(data, p, Ghost(steps), Ghost(1), Ghost(done0));
        let p = p + 8;
        let ghost done1 = done0.push(FieldValue::Qword(attacker_steam_id));
        let victim_steam_id = read_qword(data, p, Ghost(steps), Ghost(2), Ghost(done1));
        let p = p + 8;
        let ghost done2 = done1.push(FieldValue::Qword(victim_steam_id));
        let damage_amount = read_word(data, p, Ghost(steps), Ghost(3), Ghost(done2));
        let p = p + 2;
        let ghost done3 = done2.push(FieldValue::Word(damage_amount));
        let weapon_id = read_word(data, p, Ghost(steps), Ghost(4), Ghost(done3));
        let p = p + 2;
        let ghost done4 = done3.push(FieldValue::Word(weapon_id));
        let damage_type = read_byte(data, p, Ghost(steps), Ghost(5), Ghost(done4));
        let p = p + 1;
        let ghost done5 = done4.push(FieldValue::Byte(damage_type));
        let crit_type = read_byte(data, p, Ghost(steps), Ghost(6), Ghost(done5));
        let p = p + 1;
        let ghost done6 = done5.push(FieldValue::Byte(crit_type));
        let hitgroup = read_byte(data, p, Ghost(steps), Ghost(7), Ghost(done6));
        let p = p + 1;
        let ghost done7 = done6.push(FieldValue::Byte(hitgroup));
        proof { lemma_prefix_end(done7, steps, data@, p as int); }
        let e = DamageRequestEvent { attacker_steam_id, victim_steam_id, damage_amount, weapon_id, damage_type, crit_type, hitgroup };
        proof { assert(e.fields() =~= done7); }
        Ok((e, p))
    }

    /// Every record of this kind has the fields that its layout reads, and
    /// meets every length check of it.
    pub proof fn lemma_layout(self)
        ensures
            layout_matches(self),
    {
        reveal_with_fuel(shaped, 10);
        reveal_with_fuel(needs_ok, 10);
        reveal_with_fuel(min_len_from, 10);
    }

    /// Appends the record's bytes to `buf`.
    pub fn serialize(&self, buf: &mut Vec<u8>)
        ensures
            final(buf)@ == old(buf)@ + values_wire(self.fields()),
    {
        let ghost base = buf@;
        proof { lemma_wire_empty(base); }
        let ghost done0 = Seq::<FieldValue>::empty();
        put_qword(buf, self.attacker_steam_id, Ghost(base), Ghost(done0));
        let ghost done1 = done0.push(FieldValue::Qword(self.attacker_steam_id));
        put_qword(buf, self.victim_steam_id, Ghost(base), Ghost(done1));
        let ghost done2 = done1.push(FieldValue::Qword(self.victim_steam_id));
        put_word(buf, self.damage_amount, Ghost(base), Ghost(done2));
        let ghost done3 = done2.push(FieldValue::Word(self.damage_amount));
        put_word(buf, self.weapon_id, Ghost(base), Ghost(done3));
        let ghost done4 = done3.push(FieldValue::Word(self.weapon_id));
        put_byte(buf, self.damage_type, Ghost(base), Ghost(done4));
        let ghost done5 = done4.push(FieldValue::Byte(self.damage_type));
        put_byte(buf, self.crit_type, Ghost(base), Ghost(done5));
        let ghost done6 = done5.push(FieldValue::Byte(self.crit_type));
        put_byte(buf, self.hitgroup, Ghost(base), Ghost(done6));
        let ghost done7 = done6.push(FieldValue::Byte(self.hitgroup));
        proof { assert(self.fields() =~= done7); }
    }
}

/// The victim's server confirms damage.
#[derive(Debug, Clone)]
pub struct DamageConfirmEvent {
    pub victim_steam_id: u64,
    pub new_health: u16,
    pub damage_applied: u16,
    pub is_dead: bool,
}

impl WireRecord for DamageConfirmEvent {
    open spec fn layout() -> Seq<FieldKind> {
        seq![
            FieldKind::Need(13, "DamageConfirm too short"@),
            FieldKind::Qword,
            FieldKind::Word,
            FieldKind::Word,
            FieldKind::Flag,
        ]
    }

    open spec fn fields(&self) -> Seq<FieldValue> {
        seq![
            FieldValue::Qword(self.victim_steam_id),
            FieldValue::Word(self.new_health),
            FieldValue::Word(self.damage_applied),
            FieldValue::Flag(self.is_dead),
        ]
    }
}

impl DamageConfirmEvent {
    /// Parses the record from the start of `data`, giving it and the number of
    /// bytes it took.
    pub fn parse(data: &[u8]) -> (r: Result<(Self, usize), RelayError>)
        ensures
            record_parsed::<Self>(data@, r),
    {
        let ghost steps = Self::layout();
        proof {
            lemma_prefix_empty(decode_layout(steps, data@));
            reveal_with_fuel(guarded, 6);
            assert(guarded(steps, 0, 0));
            lemma_guarded_never_panics(steps, 0, 0, data@, 0);
        }
        let _len = data.len();
        let p: usize = 0;
        let ghost done0 = Seq::<FieldValue>::empty();
        need(data, p, 13, "DamageConfirm too short", Ghost(steps), Ghost(0), Ghost(done0))?;
        let victim_steam_id = read_qword(data, p, Ghost(steps), Ghost(1), Ghost(done0));
        let p = p + 8;
        let ghost done1 = done0.push(FieldValue::Qword(victim_steam_id));
        let new_health = read_word(data, p, Ghost(steps), Ghost(2), Ghost(done1));
        let p = p + 2;
        let ghost done2 = done1.push(FieldValue::Word(new_health));
        let damage_applied = read_word(data, p, Ghost(steps), Ghost(3), Ghost(done2));
        let p = p + 2;
        let ghost done3 = done2.push(FieldValue::Word(damage_applied));
        let is_dead = read_flag(data, p, Ghost(steps), Ghost(4), Ghost(done3));
        let p = p + 1;
        let ghost done4 = done3.push(FieldValue::Flag(is_dead));
        proof { lemma_prefix_end(done4, steps, data@, p as int); }
        let e = DamageConfirmEvent { victim_steam_id, new_health, damage_applied, is_dead };
        proof { assert(e.fields() =~= done4); }
        Ok((e, p))
    }

    /// Every record of this kind has the fields that its layout reads, and
    /// meets every length check of it.
    pub proof fn lemma_layout(self)
        ensures
            layout_matches(self),
    {
        reveal_with_fuel(shaped, 7);
        reveal_with_fuel(needs_ok, 7);
        reveal_with_fuel(min_len_from, 7);
    }

    /// Appends the record's bytes to `buf`.
    pub fn serialize(&self, buf: &mut Vec<u8>)
        ensures
            final(buf)@ == old(buf)@ + values_wire(self.fields()),
    {
        let ghost base = buf@;
        proof { lemma_wire_empty(base); }
        let ghost done0 = Seq::<FieldValue>::empty();
        put_qword(buf, self.victim_steam_id, Ghost(base), Ghost(done0));
        let ghost done1 = done0.push(FieldValue::Qword(self.victim_steam_id));
        put_word(buf, self.new_health, Ghost(base), Ghost(done1));
        let ghost done2 = done1.push(FieldValue::Word(self.new_health));
        put_word(buf, self.damage_applied, Ghost(base), Ghost(done2));
        let ghost done3 = done2.push(FieldValue::Word(self.damage_applied));
        put_flag(buf, self.is_dead, Ghost(base), Ghost(done3));
        let ghost done4 = done3.push(FieldValue::Flag(self.is_dead));
        proof { assert(self.fields() =~= done4); }
    }
}

impl PlayerDeathEvent {
    /// Check if death was a headshot.
    pub fn is_headshot(&self) -> (b: bool)
        ensures
            b == (self.death_flags & 0x0001 != 0),
    {
        self.death_flags & 0x0001 != 0
    }

    /// Check if death was a backstab.
    pub fn is_backstab(&self) -> (b: bool)
        ensures
            b == (self.death_flags & 0x0002 != 0),
    {
        self.death_flags & 0x0002 != 0
    }

    /// Check if death was a domination.
    pub fn is_domination(&self) -> (b: bool)
        ensures
            b == (self.death_flags & 0x0008 != 0),
    {
        self.death_flags & 0x0008 != 0
    }

    /// Check if death was a revenge.
    pub fn is_revenge(&self) -> (b: bool)
        ensures
            b == (self.death_flags & 0x0010 != 0),
    {
        self.death_flags & 0x0010 != 0
    }
}

/// Relay event containing parsed event data.
#[derive(Debug, Clone)]
pub enum Event {
    Handshake(HandshakeEvent),
    HandshakeAck(HandshakeAckEvent),
    Heartbeat(HeartbeatEvent),
    HeartbeatAck(HeartbeatAckEvent),
    ServerConnect(ServerConnectEvent),
    ServerDisconnect(ServerDisconnectEvent),
    Error(ErrorEvent),
    ChatMessage(ChatMessageEvent),
    AdminMessage(AdminMessageEvent),
    PlayerDeath(PlayerDeathEvent),
    PlayerConnect(PlayerConnectEvent),
    PlayerDisconnect(PlayerDisconnectEvent),
    PlayerTeamChange(PlayerTeamChangeEvent),
    PlayerClassChange(PlayerClassChangeEvent),
    PlayerHealed(PlayerHealedEvent),
    PlayerHurt(PlayerHurtEvent),
    UberDeployed(UberDeployedEvent),
    PlayerSpawn(PlayerSpawnEvent),
    RoundStart(RoundStartEvent),
    RoundEnd(RoundEndEvent),
    MapChange(MapChangeEvent),
    PlayerSync(PlayerSyncEvent),
    PlayerPosition(PlayerPositionEvent),
    GhostRemove(GhostRemoveEvent),
    HealRequest(HealRequestEvent),
    HealConfirm(HealConfirmEvent),
    DamageRequest(DamageRequestEvent),
    DamageConfirm(DamageConfirmEvent),
    /// Unknown event type, kept for forward compatibility.
    Unknown { event_type: u8, payload: Bytes },
}

impl Event {
    /// The event's type id.
    pub open spec fn type_id(&self) -> u8 {
        match self {
            Event::Handshake(_) => system::HANDSHAKE,
            Event::HandshakeAck(_) => system::HANDSHAKE_ACK,
            Event::Heartbeat(_) => system::HEARTBEAT,
            Event::HeartbeatAck(_) => system::HEARTBEAT_ACK,
            Event::ServerConnect(_) => system::SERVER_CONNECT,
            Event::ServerDisconnect(_) => system::SERVER_DISCONNECT,
            Event::Error(_) => system::ERROR,
            Event::ChatMessage(_) => chat::CHAT_MESSAGE,
            Event::AdminMessage(_) => chat::ADMIN_MESSAGE,
            Event::PlayerDeath(_) => player::PLAYER_DEATH,
            Event::PlayerConnect(_) => player::PLAYER_CONNECT,
            Event::PlayerDisconnect(_) => player::PLAYER_DISCONNECT,
            Event::PlayerTeamChange(_) => player::PLAYER_TEAM_CHANGE,
            Event::PlayerClassChange(_) => player::PLAYER_CLASS_CHANGE,
            Event::PlayerHealed(_) => gameplay::PLAYER_HEALED,
            Event::PlayerHurt(_) => gameplay::PLAYER_HURT,
            Event::UberDeployed(_) => gameplay::UBER_DEPLOYED,
            Event::PlayerSpawn(_) => gameplay::PLAYER_SPAWN,
            Event::RoundStart(_) => game::ROUND_START,
            Event::RoundEnd(_) => game::ROUND_END,
            Event::MapChange(_) => game::MAP_CHANGE,
            Event::PlayerSync(_) => ghost::PLAYER_SYNC,
            Event::PlayerPosition(_) => ghost::PLAYER_POSITION,
            Event::GhostRemove(_) => ghost::GHOST_REMOVE,
            Event::HealRequest(_) => ghost::HEAL_REQUEST,
            Event::HealConfirm(_) => ghost::HEAL_CONFIRM,
            Event::DamageRequest(_) => ghost::DAMAGE_REQUEST,
            Event::DamageConfirm(_) => ghost::DAMAGE_CONFIRM,
            Event::Unknown { event_type, .. } => *event_type,
        }
    }

    /// The payload layout of a type id that has a record.
    pub open spec fn layout_of(t: u8) -> Option<Seq<FieldKind>> {
        if t == system::HANDSHAKE {
            Some(HandshakeEvent::layout())
        } else if t == system::HANDSHAKE_ACK {
            Some(HandshakeAckEvent::layout())
        } else if t == system::HEARTBEAT {
            Some(HeartbeatEvent::layout())
        } else if t == system::HEARTBEAT_ACK {
            Some(HeartbeatAckEvent::layout())
        } else if t == system::SERVER_CONNECT {
            Some(ServerConnectEvent::layout())
        } else if t == system::SERVER_DISCONNECT {
            Some(ServerDisconnectEvent::layout())
        } else if t == system::ERROR {
            Some(ErrorEvent::layout())
        } else if t == chat::CHAT_MESSAGE {
            Some(ChatMessageEvent::layout())
        } else if t == chat::ADMIN_MESSAGE {
            Some(AdminMessageEvent::layout())
        } else if t == player::PLAYER_DEATH {
            Some(PlayerDeathEvent::layout())
        } else if t == player::PLAYER_CONNECT {
            Some(PlayerConnectEvent::layout())
        } else if t == player::PLAYER_DISCONNECT {
            Some(PlayerDisconnectEvent::layout())
        } else if t == player::PLAYER_TEAM_CHANGE {
            Some(PlayerTeamChangeEvent::layout())
        } else if t == player::PLAYER_CLASS_CHANGE {
            Some(PlayerClassChangeEvent::layout())
        } else if t == gameplay::PLAYER_HEALED {
            Some(PlayerHealedEvent::layout())
        } else if t == gameplay::PLAYER_HURT {
            Some(PlayerHurtEvent::layout())
        } else if t == gameplay::UBER_DEPLOYED {
            Some(UberDeployedEvent::layout())
        } else if t == gameplay::PLAYER_SPAWN {
            Some(PlayerSpawnEvent::layout())
        } else if t == game::ROUND_START {
            Some(RoundStartEvent::layout())
        } else if t == game::ROUND_END {
            Some(RoundEndEvent::layout())
        } else if t == game::MAP_CHANGE {
            Some(MapChangeEvent::layout())
        } else if t == ghost::PLAYER_SYNC {
            Some(PlayerSyncEvent::layout())
        } else if t == ghost::PLAYER_POSITION {
            Some(PlayerPositionEvent::layout())
        } else if t == ghost::GHOST_REMOVE {
            Some(GhostRemoveEvent::layout())
        } else if t == ghost::HEAL_REQUEST {
            Some(HealRequestEvent::layout())
        } else if t == ghost::HEAL_CONFIRM {
            Some(HealConfirmEvent::layout())
        } else if t == ghost::DAMAGE_REQUEST {
            Some(DamageRequestEvent::layout())
        } else if t == ghost::DAMAGE_CONFIRM {
            Some(DamageConfirmEvent::layout())
        } else {
            None
        }
    }

    /// The fields of the event's record (none for an unknown event).
    pub open spec fn fields(&self) -> Seq<FieldValue> {
        match self {
            Event::Handshake(e) => e.fields(),
            Event::HandshakeAck(e) => e.fields(),
            Event::Heartbeat(e) => e.fields(),
            Event::HeartbeatAck(e) => e.fields(),
            Event::ServerConnect(e) => e.fields(),
            Event::ServerDisconnect(e) => e.fields(),
            Event::Error(e) => e.fields(),
            Event::ChatMessage(e) => e.fields(),
            Event::AdminMessage(e) => e.fields(),
            Event::PlayerDeath(e) => e.fields(),
            Event::PlayerConnect(e) => e.fields(),
            Event::PlayerDisconnect(e) => e.fields(),
            Event::PlayerTeamChange(e) => e.fields(),
            Event::PlayerClassChange(e) => e.fields(),
            Event::PlayerHealed(e) => e.fields(),
            Event::PlayerHurt(e) => e.fields(),
            Event::UberDeployed(e) => e.fields(),
            Event::PlayerSpawn(e) => e.fields(),
            Event::RoundStart(e) => e.fields(),
            Event::RoundEnd(e) => e.fields(),
            Event::MapChange(e) => e.fields(),
            Event::PlayerSync(e) => e.fields(),
            Event::PlayerPosition(e) => e.fields(),
            Event::GhostRemove(e) => e.fields(),
            Event::HealRequest(e) => e.fields(),
            Event::HealConfirm(e) => e.fields(),
            Event::DamageRequest(e) => e.fields(),
            Event::DamageConfirm(e) => e.fields(),
            Event::Unknown { .. } => seq![],
        }
    }

    /// The payload bytes of the event: its record's fields, or the kept bytes
    /// of an unknown event.
    pub open spec fn payload_wire(&self) -> Seq<u8> {
        match self {
            Event::Unknown { payload, .. } => bytes_view(*payload),
            _ => values_wire(self.fields()),
        }
    }

    /// Parsing a payload of type `t` would read past its end (where the record
    /// reads fields without checking the length first).
    pub open spec fn parse_panics(t: u8, payload: Seq<u8>) -> bool {
        Event::layout_of(t) matches Some(steps) && decode_layout(steps, payload) is Panics
    }

    /// `ev` is what parsing a payload `d` of type `t` gives: an unknown event
    /// keeping the payload when `t` has no record, else the event of type `t`
    /// with the fields that decoding its layout gives.
    pub open spec fn parsed_as(t: u8, d: Seq<u8>, ev: Event) -> bool {
        match Event::layout_of(t) {
            None => ev is Unknown && ev.type_id() == t && ev.payload_wire() == d,
            Some(steps) => {
                let dec = decode_layout(steps, d);
                &&& !(ev is Unknown)
                &&& ev.type_id() == t
                &&& dec is Done
                &&& ev.fields() == dec->values
            },
        }
    }

    /// Parsing a payload `d` of type `t` fails, and `e` agrees with the failure.
    pub open spec fn parse_fails_with(t: u8, d: Seq<u8>, e: ErrorView) -> bool {
        Event::layout_of(t) matches Some(steps) && failure_matches(decode_layout(steps, d), e)
    }

    /// Parsing a payload `d` of type `t` fails.
    pub open spec fn parse_fails(t: u8, d: Seq<u8>) -> bool {
        Event::layout_of(t) matches Some(steps) && !(decode_layout(steps, d) is Done)
    }

    /// The human-readable description of the event.
    pub open spec fn description_text(&self) -> Seq<char> {
        match self {
            Event::Handshake(e) => "Handshake from server "@ + decimal(e.server_id as nat) + " '"@ + e.server_name@ + "'"@,
            Event::HandshakeAck(e) => "Handshake ACK (success: "@ + bool_text(e.success) + ")"@,
            Event::Heartbeat(e) => "Heartbeat"@,
            Event::HeartbeatAck(e) => "Heartbeat ACK"@,
            Event::ServerConnect(e) => "Server "@ + decimal(e.server_id as nat) + " '"@ + e.server_name@ + "' connected"@,
            Event::ServerDisconnect(e) => "Server "@ + decimal(e.server_id as nat) + " disconnected: "@ + e.reason@,
            Event::Error(e) => "Error "@ + decimal(e.error_code as nat) + ": "@ + e.error_message@,
            Event::ChatMessage(e) => "["@ + team_text(team_from(e.team)) + "] "@ + e.player_name@ + ": "@ + e.message@,
            Event::AdminMessage(e) => "[ADMIN] "@ + e.admin_name@ + ": "@ + e.message@,
            Event::PlayerDeath(e) => e.attacker_name@ + " killed "@ + e.victim_name@ + " with "@ + e.weapon@,
            Event::PlayerConnect(e) => e.player_name@ + " connected"@,
            Event::PlayerDisconnect(e) => e.player_name@ + " disconnected: "@ + e.reason@,
            Event::PlayerTeamChange(e) => e.player_name@ + " joined "@ + team_text(team_from(e.new_team)),
            Event::PlayerClassChange(e) => e.player_name@ + " changed class to "@ + class_text(class_from(e.new_class)),
            Event::PlayerHealed(e) => "Player healed for "@ + decimal(e.amount as nat) + " HP"@,
            Event::PlayerHurt(e) => "Player took "@ + decimal(e.damage_amount as nat) + " damage"@,
            Event::UberDeployed(e) => "Über deployed!"@,
            Event::PlayerSpawn(e) => "Player spawned as "@ + class_text(class_from(e.class)),
            Event::RoundStart(e) => "Round "@ + decimal(e.round_number as nat) + " started on "@ + e.map_name@,
            Event::RoundEnd(e) => "Round ended - "@ + team_text(team_from(e.winning_team)) + " wins!"@,
            Event::MapChange(e) => "Map change: "@ + e.old_map@ + " → "@ + e.new_map@,
            Event::PlayerSync(e) => "Player sync"@,
            Event::PlayerPosition(e) => "Position update"@,
            Event::GhostRemove(e) => "Ghost removed"@,
            Event::HealRequest(e) => "Heal request: "@ + decimal(e.heal_amount as nat) + " HP"@,
            Event::HealConfirm(e) => "Heal confirmed: "@ + decimal(e.heal_applied as nat) + " HP applied"@,
            Event::DamageRequest(e) => "Damage request: "@ + decimal(e.damage_amount as nat) + " HP"@,
            Event::DamageConfirm(e) => "Damage confirmed: "@ + decimal(e.damage_applied as nat) + " HP applied"@,
            Event::Unknown { event_type, .. } => "Unknown event 0x"@ + hex2(*event_type),
        }
    }

    /// Whether the event is forwarded to the other servers.
    pub open spec fn broadcastable(&self) -> bool {
        !(self is Handshake || self is HandshakeAck || self is Heartbeat || self is HeartbeatAck
            || self is Error || self is Unknown)
    }

    /// Get the event type ID.
    pub fn event_type(&self) -> (t: u8)
        ensures
            t == self.type_id(),
    {
        match self {
            Event::Handshake(_) => system::HANDSHAKE,
            Event::HandshakeAck(_) => system::HANDSHAKE_ACK,
            Event::Heartbeat(_) => system::HEARTBEAT,
            Event::HeartbeatAck(_) => system::HEARTBEAT_ACK,
            Event::ServerConnect(_) => system::SERVER_CONNECT,
            Event::ServerDisconnect(_) => system::SERVER_DISCONNECT,
            Event::Error(_) => system::ERROR,
            Event::ChatMessage(_) => chat::CHAT_MESSAGE,
            Event::AdminMessage(_) => chat::ADMIN_MESSAGE,
            Event::PlayerDeath(_) => player::PLAYER_DEATH,
            Event::PlayerConnect(_) => player::PLAYER_CONNECT,
            Event::PlayerDisconnect(_) => player::PLAYER_DISCONNECT,
            Event::PlayerTeamChange(_) => player::PLAYER_TEAM_CHANGE,
            Event::PlayerClassChange(_) => player::PLAYER_CLASS_CHANGE,
            Event::PlayerHealed(_) => gameplay::PLAYER_HEALED,
            Event::PlayerHurt(_) => gameplay::PLAYER_HURT,
            Event::UberDeployed(_) => gameplay::UBER_DEPLOYED,
            Event::PlayerSpawn(_) => gameplay::PLAYER_SPAWN,
            Event::RoundStart(_) => game::ROUND_START,
            Event::RoundEnd(_) => game::ROUND_END,
            Event::MapChange(_) => game::MAP_CHANGE,
            Event::PlayerSync(_) => ghost::PLAYER_SYNC,
            Event::PlayerPosition(_) => ghost::PLAYER_POSITION,
            Event::GhostRemove(_) => ghost::GHOST_REMOVE,
            Event::HealRequest(_) => ghost::HEAL_REQUEST,
            Event::HealConfirm(_) => ghost::HEAL_CONFIRM,
            Event::DamageRequest(_) => ghost::DAMAGE_REQUEST,
            Event::DamageConfirm(_) => ghost::DAMAGE_CONFIRM,
            Event::Unknown { event_type, .. } => *event_type,
        }
    }

    /// Parse an event from a packet type and payload. A type without a record
    /// gives an unknown event that keeps the payload; bytes after a record are
    /// ignored.
    pub fn parse(event_type: u8, payload: Bytes) -> (r: Result<Event, RelayError>)
        requires
            !Event::parse_panics(event_type, bytes_view(payload)),
        ensures
            match r {
                Ok(ev) => Event::parsed_as(event_type, bytes_view(payload), ev),
                Err(e) => Event::parse_fails_with(event_type, bytes_view(payload), e@),
            },
    {
        let parsed: Option<Result<Event, RelayError>> = {
            let data = bytes_slice(&payload);
            if event_type == system::HANDSHAKE {
                Some(match HandshakeEvent::parse(data) {
                    Ok((e, _)) => Ok(Event::Handshake(e)),
                    Err(err) => Err(err),
                })
            } else if event_type == system::HANDSHAKE_ACK {
                Some(match HandshakeAckEvent::parse(data) {
                    Ok((e, _)) => Ok(Event::HandshakeAck(e)),
                    Err(err) => Err(err),
                })
            } else if event_type == system::HEARTBEAT {
                Some(match HeartbeatEvent::parse(data) {
                    Ok((e, _)) => Ok(Event::Heartbeat(e)),
                    Err(err) => Err(err),
                })
            } else if event_type == system::HEARTBEAT_ACK {
                Some(match HeartbeatAckEvent::parse(data) {
                    Ok((e, _)) => Ok(Event::HeartbeatAck(e)),
                    Err(err) => Err(err),
                })
            } else if event_type == system::SERVER_CONNECT {
                Some(match ServerConnectEvent::parse(data) {
                    Ok((e, _)) => Ok(Event::ServerConnect(e)),
                    Err(err) => Err(err),
                })
            } else if event_type == system::SERVER_DISCONNECT {
                Some(match ServerDisconnectEvent::parse(data) {
                    Ok((e, _)) => Ok(Event::ServerDisconnect(e)),
                    Err(err) => Err(err),
                })
            } else if event_type == system::ERROR {
                Some(match ErrorEvent::parse(data) {
                    Ok((e, _)) => Ok(Event::Error(e)),
                    Err(err) => Err(err),
                })
            } else if event_type == chat::CHAT_MESSAGE {
                Some(match ChatMessageEvent::parse(data) {
                    Ok((e, _)) => Ok(Event::ChatMessage(e)),
                    Err(err) => Err(err),
                })
            } else if event_type == chat::ADMIN_MESSAGE {
                Some(match AdminMessageEvent::parse(data) {
                    Ok((e, _)) => Ok(Event::AdminMessage(e)),
                    Err(err) => Err(err),
                })
            } else if event_type == player::PLAYER_DEATH {
                Some(match PlayerDeathEvent::parse(data) {
                    Ok((e, _)) => Ok(Event::PlayerDeath(e)),
                    Err(err) => Err(err),
                })
            } else if event_type == player::PLAYER_CONNECT {
                Some(match PlayerConnectEvent::parse(data) {
                    Ok((e, _)) => Ok(Event::PlayerConnect(e)),
                    Err(err) => Err(err),
                })
            } else if event_type == player::PLAYER_DISCONNECT {
                Some(match PlayerDisconnectEvent::parse(data) {
                    Ok((e, _)) => Ok(Event::PlayerDisconnect(e)),
                    Err(err) => Err(err),
                })
            } else if event_type == player::PLAYER_TEAM_CHANGE {
                Some(match PlayerTeamChangeEvent::parse(data) {
                    Ok((e, _)) => Ok(Event::PlayerTeamChange(e)),
                    Err(err) => Err(err),
                })
            } else if event_type == player::PLAYER_CLASS_CHANGE {
                Some(match PlayerClassChangeEvent::parse(data) {
                    Ok((e, _)) => Ok(Event::PlayerClassChange(e)),
                    Err(err) => Err(err),
                })
            } else if event_type == gameplay::PLAYER_HEALED {
                Some(match PlayerHealedEvent::parse(data) {
                    Ok((e, _)) => Ok(Event::PlayerHealed(e)),
                    Err(err) => Err(err),
                })
            } else if event_type == gameplay::PLAYER_HURT {
                Some(match PlayerHurtEvent::parse(data) {
                    Ok((e, _)) => Ok(Event::PlayerHurt(e)),
                    Err(err) => Err(err),
                })
            } else if event_type == gameplay::UBER_DEPLOYED {
                Some(match UberDeployedEvent::parse(data) {
                    Ok((e, _)) => Ok(Event::UberDeployed(e)),
                    Err(err) => Err(err),
                })
            } else if event_type == gameplay::PLAYER_SPAWN {
                Some(match PlayerSpawnEvent::parse(data) {
                    Ok((e, _)) => Ok(Event::PlayerSpawn(e)),
                    Err(err) => Err(err),
                })
            } else if event_type == game::ROUND_START {
                Some(match RoundStartEvent::parse(data) {
                    Ok((e, _)) => Ok(Event::RoundStart(e)),
                    Err(err) => Err(err),
                })
            } else if event_type == game::ROUND_END {
                Some(match RoundEndEvent::parse(data) {
                    Ok((e, _)) => Ok(Event::RoundEnd(e)),
                    Err(err) => Err(err),
                })
            } else if event_type == game::MAP_CHANGE {
                Some(match MapChangeEvent::parse(data) {
                    Ok((e, _)) => Ok(Event::MapChange(e)),
                    Err(err) => Err(err),
                })
            } else if event_type == ghost::PLAYER_SYNC {
                Some(match PlayerSyncEvent::parse(data) {
                    Ok((e, _)) => Ok(Event::PlayerSync(e)),
                    Err(err) => Err(err),
                })
            } else if event_type == ghost::PLAYER_POSITION {
                Some(match PlayerPositionEvent::parse(data) {
                    Ok((e, _)) => Ok(Event::PlayerPosition(e)),
                    Err(err) => Err(err),
                })
            } else if event_type == ghost::GHOST_REMOVE {
                Some(match GhostRemoveEvent::parse(data) {
                    Ok((e, _)) => Ok(Event::GhostRemove(e)),
                    Err(err) => Err(err),
                })
            } else if event_type == ghost::HEAL_REQUEST {
                Some(match HealRequestEvent::parse(data) {
                    Ok((e, _)) => Ok(Event::HealRequest(e)),
                    Err(err) => Err(err),
                })
            } else if event_type == ghost::HEAL_CONFIRM {
                Some(match HealConfirmEvent::parse(data) {
                    Ok((e, _)) => Ok(Event::HealConfirm(e)),
                    Err(err) => Err(err),
                })
            } else if event_type == ghost::DAMAGE_REQUEST {
                Some(match DamageRequestEvent::parse(data) {
                    Ok((e, _)) => Ok(Event::DamageRequest(e)),
                    Err(err) => Err(err),
                })
            } else if event_type == ghost::DAMAGE_CONFIRM {
                Some(match DamageConfirmEvent::parse(data) {
                    Ok((e, _)) => Ok(Event::DamageConfirm(e)),
                    Err(err) => Err(err),
                })
            } else {
                None
            }
        };
        match parsed {
            Some(r) => r,
            None => Ok(Event::Unknown { event_type, payload }),
        }
    }

    /// Serialize the event's payload.
    pub fn serialize(&self) -> (b: Bytes)
        ensures
            bytes_view(b) == self.payload_wire(),
    {
        let mut buf: Vec<u8> = Vec::new();
        match self {
            Event::Handshake(e) => e.serialize(&mut buf),
            Event::HandshakeAck(e) => e.serialize(&mut buf),
            Event::Heartbeat(e) => e.serialize(&mut buf),
            Event::HeartbeatAck(e) => e.serialize(&mut buf),
            Event::ServerConnect(e) => e.serialize(&mut buf),
            Event::ServerDisconnect(e) => e.serialize(&mut buf),
            Event::Error(e) => e.serialize(&mut buf),
            Event::ChatMessage(e) => e.serialize(&mut buf),
            Event::AdminMessage(e) => e.serialize(&mut buf),
            Event::PlayerDeath(e) => e.serialize(&mut buf),
            Event::PlayerConnect(e) => e.serialize(&mut buf),
            Event::PlayerDisconnect(e) => e.serialize(&mut buf),
            Event::PlayerTeamChange(e) => e.serialize(&mut buf),
            Event::PlayerClassChange(e) => e.serialize(&mut buf),
            Event::PlayerHealed(e) => e.serialize(&mut buf),
            Event::PlayerHurt(e) => e.serialize(&mut buf),
            Event::UberDeployed(e) => e.serialize(&mut buf),
            Event::PlayerSpawn(e) => e.serialize(&mut buf),
            Event::RoundStart(e) => e.serialize(&mut buf),
            Event::RoundEnd(e) => e.serialize(&mut buf),
            Event::MapChange(e) => e.serialize(&mut buf),
            Event::PlayerSync(e) => e.serialize(&mut buf),
            Event::PlayerPosition(e) => e.serialize(&mut buf),
            Event::GhostRemove(e) => e.serialize(&mut buf),
            Event::HealRequest(e) => e.serialize(&mut buf),
            Event::HealConfirm(e) => e.serialize(&mut buf),
            Event::DamageRequest(e) => e.serialize(&mut buf),
            Event::DamageConfirm(e) => e.serialize(&mut buf),
            Event::Unknown { payload, .. } => buf.extend_from_slice(bytes_slice(payload)),
        }
        proof {
            assert(buf@ =~= self.payload_wire());
        }
        bytes_from_vec(buf)
    }

    /// Get a human-readable description of the event.
    pub fn description(&self) -> (s: String)
        ensures
            s@ == self.description_text(),
    {
        match self {
            Event::Handshake(e) => {
                let mut s = String::from_str("Handshake from server ");
                push_text(&mut s, decimal_string(e.server_id as u64).as_str());
                push_text(&mut s, " '");
                push_text(&mut s, e.server_name.as_str());
                push_text(&mut s, "'");
                s
            },
            Event::HandshakeAck(e) => {
                let mut s = String::from_str("Handshake ACK (success: ");
                push_text(&mut s, bool_string(e.success).as_str());
                push_text(&mut s, ")");
                s
            },
            Event::Heartbeat(e) => {
                let mut s = String::from_str("Heartbeat");
                s
            },
            Event::HeartbeatAck(e) => {
                let mut s = String::from_str("Heartbeat ACK");
                s
            },
            Event::ServerConnect(e) => {
                let mut s = String::from_str("Server ");
                push_text(&mut s, decimal_string(e.server_id as u64).as_str());
                push_text(&mut s, " '");
                push_text(&mut s, e.server_name.as_str());
                push_text(&mut s, "' connected");
                s
            },
            Event::ServerDisconnect(e) => {
                let mut s = String::from_str("Server ");
                push_text(&mut s, decimal_string(e.server_id as u64).as_str());
                push_text(&mut s, " disconnected: ");
                push_text(&mut s, e.reason.as_str());
                s
            },
            Event::Error(e) => {
                let mut s = String::from_str("Error ");
                push_text(&mut s, decimal_string(e.error_code as u64).as_str());
                push_text(&mut s, ": ");
                push_text(&mut s, e.error_message.as_str());
                s
            },
            Event::ChatMessage(e) => {
                let mut s = String::from_str("[");
                push_text(&mut s, Team::from_u8(e.team).to_string().as_str());
                push_text(&mut s, "] ");
                push_text(&mut s, e.player_name.as_str());
                push_text(&mut s, ": ");
                push_text(&mut s, e.message.as_str());
                s
            },
            Event::AdminMessage(e) => {
                let mut s = String::from_str("[ADMIN] ");
                push_text(&mut s, e.admin_name.as_str());
                push_text(&mut s, ": ");
                push_text(&mut s, e.message.as_str());
                s
            },
            Event::PlayerDeath(e) => {
                let mut s = e.attacker_name.clone();
                push_text(&mut s, " killed ");
                push_text(&mut s, e.victim_name.as_str());
                push_text(&mut s, " with ");
                push_text(&mut s, e.weapon.as_str());
                s
            },
            Event::PlayerConnect(e) => {
                let mut s = e.player_name.clone();
                push_text(&mut s, " connected");
                s
            },
            Event::PlayerDisconnect(e) => {
                let mut s = e.player_name.clone();
                push_text(&mut s, " disconnected: ");
                push_text(&mut s, e.reason.as_str());
                s
            },
            Event::PlayerTeamChange(e) => {
                let mut s = e.player_name.clone();
                push_text(&mut s, " joined ");
                push_text(&mut s, Team::from_u8(e.new_team).to_string().as_str());
                s
            },
            Event::PlayerClassChange(e) => {
                let mut s = e.player_name.clone();
                push_text(&mut s, " changed class to ");
                push_text(&mut s, TfClass::from_u8(e.new_class).to_string().as_str());
                s
            },
            Event::PlayerHealed(e) => {
                let mut s = String::from_str("Player healed for ");
                push_text(&mut s, decimal_string(e.amount as u64).as_str());
                push_text(&mut s, " HP");
                s
            },
            Event::PlayerHurt(e) => {
                let mut s = String::from_str("Player took ");
                push_text(&mut s, decimal_string(e.damage_amount as u64).as_str());
                push_text(&mut s, " damage");
                s
            },
            Event::UberDeployed(e) => {
                let mut s = String::from_str("Über deployed!");
                s
            },
            Event::PlayerSpawn(e) => {
                let mut s = String::from_str("Player spawned as ");
                push_text(&mut s, TfClass::from_u8(e.class).to_string().as_str());
                s
            },
            Event::RoundStart(e) => {
                let mut s = String::from_str("Round ");
                push_text(&mut s, decimal_string(e.round_number as u64).as_str());
                push_text(&mut s, " started on ");
                push_text(&mut s, e.map_name.as_str());
                s
            },
            Event::RoundEnd(e) => {
                let mut s = String::from_str("Round ended - ");
                push_text(&mut s, Team::from_u8(e.winning_team).to_string().as_str());
                push_text(&mut s, " wins!");
                s
            },
            Event::MapChange(e) => {
                let mut s = String::from_str("Map change: ");
                push_text(&mut s, e.old_map.as_str());
                push_text(&mut s, " → ");
                push_text(&mut s, e.new_map.as_str());
                s
            },
            Event::PlayerSync(e) => {
                let mut s = String::from_str("Player sync");
                s
            },
            Event::PlayerPosition(e) => {
                let mut s = String::from_str("Position update");
                s
            },
            Event::GhostRemove(e) => {
                let mut s = String::from_str("Ghost removed");
                s
            },
            Event::HealRequest(e) => {
                let mut s = String::from_str("Heal request: ");
                push_text(&mut s, decimal_string(e.heal_amount as u64).as_str());
                push_text(&mut s, " HP");
                s
            },
            Event::HealConfirm(e) => {
                let mut s = String::from_str("Heal confirmed: ");
                push_text(&mut s, decimal_string(e.heal_applied as u64).as_str());
                push_text(&mut s, " HP applied");
                s
            },
            Event::DamageRequest(e) => {
                let mut s = String::from_str("Damage request: ");
                push_text(&mut s, decimal_string(e.damage_amount as u64).as_str());
                push_text(&mut s, " HP");
                s
            },
            Event::DamageConfirm(e) => {
                let mut s = String::from_str("Damage confirmed: ");
                push_text(&mut s, decimal_string(e.damage_applied as u64).as_str());
                push_text(&mut s, " HP applied");
                s
            },
            Event::Unknown { event_type, .. } => {
                let mut s = String::from_str("Unknown event 0x");
                push_text(&mut s, hex2_string(*event_type).as_str());
                s
            },
        }
    }

    /// Check if this event should be broadcast to other servers.
    pub fn is_broadcastable(&self) -> (b: bool)
        ensures
            b == self.broadcastable(),
    {
        match self {
            Event::Handshake(_) | Event::HandshakeAck(_) | Event::Heartbeat(_) | Event::HeartbeatAck(_)
            | Event::Error(_) | Event::Unknown { .. } => false,
            _ => true,
        }
    }
}

impl Event {
    /// Whether parsing a payload of type `event_type` would read past its end;
    /// only handshakes and player-hurt events can.
    pub fn parse_would_panic(event_type: u8, payload: &[u8]) -> (b: bool)
        ensures
            b == Event::parse_panics(event_type, payload@),
    {
        if event_type == system::HANDSHAKE {
            proof { reveal_with_fuel(decode_from, 7); }
            if payload.len() < 3 {
                return false;
            }
            match read_text_at(payload, 1) {
                Err(_) => false,
                Ok((_, q)) => match read_text_at(payload, q) {
                    Err(_) => false,
                    Ok((_, r)) => payload.len() - r < 2,
                },
            }
        } else if event_type == gameplay::PLAYER_HURT {
            proof { reveal_with_fuel(decode_from, 10); }
            payload.len() >= 23 && payload.len() < 25
        } else {
            proof {
                if let Some(steps) = Event::layout_of(event_type) {
                    reveal_with_fuel(guarded, 16);
                    assert(guarded(steps, 0, 0));
                    lemma_guarded_never_panics(steps, 0, 0, payload@, 0);
                }
            }
            false
        }
    }
}

/// An event written by [`Event::serialize`] reads back, under its own type id,
/// as an event of the same kind with the same fields, whatever bytes follow
/// it, when each of its strings fits in 255 bytes of UTF-8.
pub proof fn lemma_event_roundtrip(ev: Event, rest: Seq<u8>)
    requires
        !(ev is Unknown),
        values_fit(ev.fields()),
    ensures
        Event::layout_of(ev.type_id()) matches Some(steps) && decode_layout(steps, ev.payload_wire() + rest)
            == (Decoded::Done { values: ev.fields(), end: ev.payload_wire().len() as int }),
{
    match ev {
        Event::Handshake(e) => e.lemma_layout(),
        Event::HandshakeAck(e) => e.lemma_layout(),
        Event::Heartbeat(e) => e.lemma_layout(),
        Event::HeartbeatAck(e) => e.lemma_layout(),
        Event::ServerConnect(e) => e.lemma_layout(),
        Event::ServerDisconnect(e) => e.lemma_layout(),
        Event::Error(e) => e.lemma_layout(),
        Event::ChatMessage(e) => e.lemma_layout(),
        Event::AdminMessage(e) => e.lemma_layout(),
        Event::PlayerDeath(e) => e.lemma_layout(),
        Event::PlayerConnect(e) => e.lemma_layout(),
        Event::PlayerDisconnect(e) => e.lemma_layout(),
        Event::PlayerTeamChange(e) => e.lemma_layout(),
        Event::PlayerClassChange(e) => e.lemma_layout(),
        Event::PlayerHealed(e) => e.lemma_layout(),
        Event::PlayerHurt(e) => e.lemma_layout(),
        Event::UberDeployed(e) => e.lemma_layout(),
        Event::PlayerSpawn(e) => e.lemma_layout(),
        Event::RoundStart(e) => e.lemma_layout(),
        Event::RoundEnd(e) => e.lemma_layout(),
        Event::MapChange(e) => e.lemma_layout(),
        Event::PlayerSync(e) => e.lemma_layout(),
        Event::PlayerPosition(e) => e.lemma_layout(),
        Event::GhostRemove(e) => e.lemma_layout(),
        Event::HealRequest(e) => e.lemma_layout(),
        Event::HealConfirm(e) => e.lemma_layout(),
        Event::DamageRequest(e) => e.lemma_layout(),
        Event::DamageConfirm(e) => e.lemma_layout(),
        Event::Unknown { .. } => {},
    }
    let steps = Event::layout_of(ev.type_id()).unwrap();
    let vs = ev.fields();
    let d = ev.payload_wire() + rest;
    assert(d.subrange(0, ev.payload_wire().len() as int) =~= ev.payload_wire());
    lemma_decode_wire(steps, 0, vs, 0, d, 0);
    assert(vs.subrange(0, vs.len() as int) =~= vs);
}

/// Parsing what [`Event::serialize`] wrote, under the event's type id,
/// succeeds and gives an event of the same kind with the same fields, when
/// each of its strings fits in 255 bytes of UTF-8; an unknown event (of a
/// type id that no record has) keeps its payload.
pub proof fn lemma_parse_after_serialize(ev: Event, parsed: Event)
    requires
        values_fit(ev.fields()),
        ev is Unknown ==> Event::layout_of(ev.type_id()) is None,
        Event::parsed_as(ev.type_id(), ev.payload_wire(), parsed),
    ensures
        parsed.type_id() == ev.type_id(),
        !(ev is Unknown) ==> parsed.fields() == ev.fields(),
        ev is Unknown ==> parsed.payload_wire() == ev.payload_wire(),
        !Event::parse_fails(ev.type_id(), ev.payload_wire()),
        !Event::parse_panics(ev.type_id(), ev.payload_wire()),
{
    if !(ev is Unknown) {
        lemma_event_roundtrip(ev, Seq::empty());
        assert(ev.payload_wire() + Seq::<u8>::empty() =~= ev.payload_wire());
    }
}

/// The descriptions of events that name two people or two things put them
/// in their roles: the attacker kills the victim with the weapon; a chat
/// line shows the team, then who spoke, then what was said; an admin
/// message shows who sent it, then the text; a map change goes from the old
/// map to the new; a leaving player or server comes before the reason.
pub proof fn lemma_description_roles(
    death: PlayerDeathEvent,
    chat: ChatMessageEvent,
    admin: AdminMessageEvent,
    map: MapChangeEvent,
    left: PlayerDisconnectEvent,
    server_left: ServerDisconnectEvent,
)
    ensures
        Event::PlayerDeath(death).description_text() == death.attacker_name@ + " killed "@ + death.victim_name@
            + " with "@ + death.weapon@,
        Event::ChatMessage(chat).description_text() == "["@ + team_text(team_from(chat.team)) + "] "@
            + chat.player_name@ + ": "@ + chat.message@,
        Event::AdminMessage(admin).description_text() == "[ADMIN] "@ + admin.admin_name@ + ": "@ + admin.message@,
        Event::MapChange(map).description_text() == "Map change: "@ + map.old_map@ + " → "@ + map.new_map@,
        Event::PlayerDisconnect(left).description_text() == left.player_name@ + " disconnected: "@ + left.reason@,
        Event::ServerDisconnect(server_left).description_text() == "Server "@ + decimal(
            server_left.server_id as nat,
        ) + " disconnected: "@ + server_left.reason@,
{
}

/// The descriptions that report one value show the value the event is
/// about: the team joined (not the one left), the class changed to, the
/// damage taken (not the health left), the amount healed, the round number
/// and its map, the winning team, the class spawned as, the requested heal
/// and damage, and the id and name of a server or an error.
pub proof fn lemma_description_values(
    team: PlayerTeamChangeEvent,
    class: PlayerClassChangeEvent,
    hurt: PlayerHurtEvent,
    healed: PlayerHealedEvent,
    start: RoundStartEvent,
    end: RoundEndEvent,
    spawn: PlayerSpawnEvent,
    heal: HealRequestEvent,
    damage: DamageRequestEvent,
    hello: HandshakeEvent,
    joined: ServerConnectEvent,
    err: ErrorEvent,
)
    ensures
        Event::PlayerTeamChange(team).description_text() == team.player_name@ + " joined "@ + team_text(
            team_from(team.new_team),
        ),
        Event::PlayerClassChange(class).description_text() == class.player_name@ + " changed class to "@
            + class_text(class_from(class.new_class)),
        Event::PlayerHurt(hurt).description_text() == "Player took "@ + decimal(hurt.damage_amount as nat)
            + " damage"@,
        Event::PlayerHealed(healed).description_text() == "Player healed for "@ + decimal(healed.amount as nat)
            + " HP"@,
        Event::RoundStart(start).description_text() == "Round "@ + decimal(start.round_number as nat)
            + " started on "@ + start.map_name@,
        Event::RoundEnd(end).description_text() == "Round ended - "@ + team_text(team_from(end.winning_team))
            + " wins!"@,
        Event::PlayerSpawn(spawn).description_text() == "Player spawned as "@ + class_text(class_from(spawn.class)),
        Event::HealRequest(heal).description_text() == "Heal request: "@ + decimal(heal.heal_amount as nat) + " HP"@,
        Event::DamageRequest(damage).description_text() == "Damage request: "@ + decimal(
            damage.damage_amount as nat,
        ) + " HP"@,
        Event::Handshake(hello).description_text() == "Handshake from server "@ + decimal(hello.server_id as nat)
            + " '"@ + hello.server_name@ + "'"@,
        Event::ServerConnect(joined).description_text() == "Server "@ + decimal(joined.server_id as nat) + " '"@
            + joined.server_name@ + "' connected"@,
        Event::Error(err).description_text() == "Error "@ + decimal(err.error_code as nat) + ": "@
            + err.error_message@,
{
}

/// Team ids 1, 2 and 3 are spectators, RED and BLU, anything else is
/// unassigned; class ids 1 to 9 are, in order, Scout, Sniper, Soldier,
/// Demoman, Medic, Heavy, Pyro, Spy and Engineer, anything else unknown; the
/// team names read "RED" and "BLU".
pub proof fn lemma_team_and_class_ids(id: u8)
    ensures
        team_from(1) == Team::Spectator,
        team_from(2) == Team::Red,
        team_from(3) == Team::Blu,
        (id == 0 || id > 3) ==> team_from(id) == Team::Unassigned,
        team_text(Team::Red) == "RED"@,
        team_text(Team::Blu) == "BLU"@,
        class_from(1) == TfClass::Scout,
        class_from(2) == TfClass::Sniper,
        class_from(3) == TfClass::Soldier,
        class_from(4) == TfClass::Demoman,
        class_from(5) == TfClass::Medic,
        class_from(6) == TfClass::Heavy,
        class_from(7) == TfClass::Pyro,
        class_from(8) == TfClass::Spy,
        class_from(9) == TfClass::Engineer,
        (id == 0 || id > 9) ==> class_from(id) == TfClass::Unknown,
        class_text(TfClass::Medic) == "Medic"@,
{
}

/// Connection bookkeeping (handshakes, heartbeats and their answers), errors
/// and unknown events stay with the relay; every game event is forwarded.
pub proof fn lemma_forwarded_kinds(ev: Event)
    ensures
        !ev.broadcastable() <==> (ev is Handshake || ev is HandshakeAck || ev is Heartbeat || ev is HeartbeatAck
            || ev is Error || ev is Unknown),
{
}

} // verus!
