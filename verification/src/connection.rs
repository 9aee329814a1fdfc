//! Per-connection logic for a game server: its state, the handshake, and
//! what each incoming event does to the hub and what it sends back.
//!
//! The program around it owns the socket: it reads bytes into a
//! [`crate::protocol::PacketDecoder`], parses each packet's event, hands it
//! here, and writes out the replies and deliveries that come back.

use bytes::Bytes;
use std::time::Instant;
use vstd::prelude::*;
use vstd::string::StringExecFns;
use vstd::wrapping::u16_specs;

use crate::config::{Config, RelayConfig};
use crate::error::{ErrorView, RelayError};
use crate::events::{
    system, DamageConfirmEvent, DamageRequestEvent, Event, HandshakeAckEvent, HealConfirmEvent, HealRequestEvent,
    HeartbeatAckEvent, HeartbeatEvent, MapChangeEvent, PlayerConnectEvent, PlayerDisconnectEvent,
};
use crate::outside::bytes_view;
use crate::protocol::{frame_wire, Packet};
use crate::relay::{lemma_broadcast_skips_origin, broadcast_allowed, delivers_to, event_packet_wire, others, trimmed, Delivery, RecordedEvent, Relay};
use crate::text::{decimal, decimal_string, push_text};
use crate::wire::{values_wire, FieldValue, WireRecord};

verus! {

/// Connection state machine states.
#[derive(Debug, Clone, Copy, PartialEq, Eq, Structural)]
pub enum ConnectionState {
    /// Waiting for handshake.
    Pending,
    /// Handshake received, processing.
    Handshaking,
    /// Fully connected and operational.
    Connected,
    /// Connection terminated.
    Disconnected,
}

/// Information about a connected server.
#[derive(Debug, Clone)]
pub struct ServerInfo {
    /// Server ID (1-4).
    pub server_id: u8,
    /// Human-readable server name.
    pub server_name: String,
    /// Current map name.
    pub map_name: String,
    /// Maximum player slots.
    pub max_players: u8,
    /// Current player count.
    pub current_players: u8,
    /// Connection time.
    pub connected_at: Instant,
    /// Last heartbeat time.
    pub last_heartbeat: Instant,
}

/// The state of one game-server connection.
pub struct Session {
    /// Connection state.
    pub state: ConnectionState,
    /// Server info (set after handshake).
    pub server_info: Option<ServerInfo>,
    /// Sequence number of the next packet sent on this connection.
    pub sequence: u16,
}

/// What a handshake packet leads to.
pub struct HandshakeOutcome {
    /// The acknowledgement to send back, if any.
    pub reply: Option<Bytes>,
    /// Whether the connection is accepted.
    pub result: Result<(), RelayError>,
}

/// What an incoming event leads to.
pub struct PacketOutcome {
    /// A packet to send back on this connection.
    pub reply: Option<Bytes>,
    /// Packets to hand to other servers.
    pub deliveries: Vec<Delivery>,
    /// Whether the event was a heartbeat.
    pub heartbeat: bool,
}

/// The verdict on a handshake.
pub enum HandshakeVerdict {
    /// The event is not a handshake.
    NotHandshake,
    /// The server id is 0 or above the maximum.
    BadId(u8),
    /// A server with that id is already connected.
    Duplicate(u8),
    /// The server is accepted.
    Accept,
}

/// The verdict on an event received while waiting for a handshake.
pub open spec fn handshake_verdict(ev: Event, max_servers: u8, connected: Set<u8>) -> HandshakeVerdict {
    match ev {
        Event::Handshake(h) => if h.server_id == 0 || h.server_id > max_servers {
            HandshakeVerdict::BadId(h.server_id)
        } else if connected.contains(h.server_id) {
            HandshakeVerdict::Duplicate(h.server_id)
        } else {
            HandshakeVerdict::Accept
        },
        _ => HandshakeVerdict::NotHandshake,
    }
}

/// The bytes of a handshake acknowledgement sent with sequence number `seq`.
pub open spec fn handshake_ack_wire(seq: u16, success: bool, assigned_id: u8, connected: u8) -> Seq<u8> {
    frame_wire(
        system::HANDSHAKE_ACK,
        0,
        seq,
        values_wire(
            seq![FieldValue::Flag(success), FieldValue::Byte(assigned_id), FieldValue::Byte(connected)],
        ),
    )
}

/// How an incoming event is passed on.
pub enum Route {
    /// Not passed on.
    Silent,
    /// To every other connected server (if the configuration allows it).
    Broadcast,
    /// Straight to the server of the player it concerns.
    Direct(u8),
}

/// How an event from `origin` is passed on, given the relay switches of the
/// configuration and the hub's player registrations: heal and damage requests go to the server of their
/// target (nowhere if that is the origin, to everyone if the target is
/// unknown); confirmations go to everyone; each only when its kind of
/// cross-server play is enabled; heartbeats are answered, not passed on; any
/// other event is broadcast if it is of a broadcast kind.
pub open spec fn route_of(settings: RelayConfig, players: Map<u64, u8>, origin: u8, ev: Event) -> Route {
    match ev {
        Event::Heartbeat(_) => Route::Silent,
        Event::HealRequest(hr) => if !settings.enable_cross_healing {
            Route::Silent
        } else {
            match players.get(hr.target_steam_id) {
                Some(t) => if t != origin { Route::Direct(t) } else { Route::Silent },
                None => Route::Broadcast,
            }
        },
        Event::HealConfirm(_) => if settings.enable_cross_healing {
            Route::Broadcast
        } else {
            Route::Silent
        },
        Event::DamageRequest(dr) => if !settings.enable_cross_damage {
            Route::Silent
        } else {
            match players.get(dr.victim_steam_id) {
                Some(t) => if t != origin { Route::Direct(t) } else { Route::Silent },
                None => Route::Broadcast,
            }
        },
        Event::DamageConfirm(_) => if settings.enable_cross_damage {
            Route::Broadcast
        } else {
            Route::Silent
        },
        _ => if ev.broadcastable() { Route::Broadcast } else { Route::Silent },
    }
}

/// The player registrations after an event from `origin`: a player who
/// connects is registered with the origin, one who disconnects is forgotten.
pub open spec fn players_after(players: Map<u64, u8>, origin: u8, ev: Event) -> Map<u64, u8> {
    match ev {
        Event::PlayerConnect(pc) => players.insert(pc.steam_id, origin),
        Event::PlayerDisconnect(pd) => players.remove(pd.steam_id),
        _ => players,
    }
}

/// The server info after an event: a heartbeat updates the player count and
/// the heartbeat time, a map change the map.
pub open spec fn info_after(info: Option<ServerInfo>, ev: Event, now: Instant) -> Option<ServerInfo> {
    match (info, ev) {
        (Some(i), Event::Heartbeat(hb)) => Some(
            ServerInfo { current_players: hb.current_players, last_heartbeat: now, ..i },
        ),
        (Some(i), Event::MapChange(mc)) => Some(ServerInfo { map_name: mc.new_map, ..i }),
        _ => info,
    }
}

/// The id under which events of a connection are recorded: its server id, or
/// 0 before the handshake.
pub open spec fn recorder_id(info: Option<ServerInfo>) -> u8 {
    match info {
        Some(i) => i.server_id,
        None => 0,
    }
}

/// The deliveries and counter changes of an event from `origin` that goes by
/// `route`: a broadcast (when allowed) reaches every other connected server
/// and is counted; a direct event reaches its server if that one is connected.
pub open spec fn passed_on(old: Relay, new: Relay, origin: u8, ev: Event, route: Route, ds: Seq<Delivery>) -> bool {
    let counted = route is Broadcast && broadcast_allowed(old.settings(), ev);
    &&& counted ==> {
        &&& delivers_to(ds, others(old.server_map(), origin), event_packet_wire(origin, ev))
        &&& new.event_count() == vstd::wrapping::u64_specs::wrapping_add(old.event_count(), 1)
        &&& new.byte_count() == vstd::wrapping::u64_specs::wrapping_add(
            old.byte_count(),
            event_packet_wire(origin, ev).len() as u64,
        )
    }
    &&& !counted ==> {
        &&& new.event_count() == old.event_count()
        &&& new.byte_count() == old.byte_count()
    }
    &&& route matches Route::Direct(t) ==> if old.server_map().contains_key(t) {
        &&& ds.len() == 1
        &&& ds[0].server_id == t
        &&& bytes_view(ds[0].data) == event_packet_wire(0, ev)
    } else {
        ds.len() == 0
    }
    &&& route is Silent ==> ds.len() == 0
    &&& (route is Broadcast && !broadcast_allowed(old.settings(), ev)) ==> ds.len() == 0
}

/// A handshake is accepted only for an id between 1 and the maximum that no
/// connected server has.
pub proof fn lemma_accepted_ids(ev: Event, max_servers: u8, connected: Set<u8>)
    ensures
        handshake_verdict(ev, max_servers, connected) is Accept ==> {
            &&& ev is Handshake
            &&& 1 <= ev->Handshake_0.server_id <= max_servers
            &&& !connected.contains(ev->Handshake_0.server_id)
        },
{
}

/// What a handshake is answered: an id between 1 and the maximum that no
/// connected server has is accepted; an id of 0 or above the maximum is
/// refused as invalid; an id in range that is taken is refused as a
/// duplicate; any other first event is no handshake.
pub proof fn lemma_handshake_verdicts(ev: Event, max_servers: u8, connected: Set<u8>)
    ensures
        ev matches Event::Handshake(h) ==> {
            &&& (1 <= h.server_id && h.server_id <= max_servers && !connected.contains(h.server_id))
                <==> handshake_verdict(ev, max_servers, connected) is Accept
            &&& (h.server_id == 0 || h.server_id > max_servers) ==> handshake_verdict(ev, max_servers, connected)
                == HandshakeVerdict::BadId(h.server_id)
            &&& (1 <= h.server_id && h.server_id <= max_servers && connected.contains(h.server_id))
                ==> handshake_verdict(ev, max_servers, connected) == HandshakeVerdict::Duplicate(h.server_id)
        },
        !(ev is Handshake) ==> handshake_verdict(ev, max_servers, connected) is NotHandshake,
{
}

/// A handshake acknowledgement carries, after the header, one byte for
/// success (1 or 0), the assigned id and the number of connected servers.
pub proof fn lemma_handshake_ack_bytes(seq: u16, success: bool, assigned_id: u8, connected: u8)
    ensures
        handshake_ack_wire(seq, success, assigned_id, connected) == frame_wire(
            system::HANDSHAKE_ACK,
            0,
            seq,
            seq![if success { 1u8 } else { 0u8 }, assigned_id, connected],
        ),
{
    let vs = seq![FieldValue::Flag(success), FieldValue::Byte(assigned_id), FieldValue::Byte(connected)];
    reveal_with_fuel(crate::wire::wire_from, 4);
    assert(values_wire(vs) =~= seq![if success { 1u8 } else { 0u8 }, assigned_id, connected]);
}

/// Heal and damage requests go to the server of the player they aim at (the
/// heal's target, the damage's victim) when that player is registered on
/// another server, stay put when the player is on the origin, and go to
/// everyone when the player is unknown; nothing moves while the kind of
/// cross-server play is switched off. Confirmations go to everyone exactly
/// when their kind is on, and heartbeats are never passed on.
pub proof fn lemma_request_routing(
    settings: RelayConfig,
    players: Map<u64, u8>,
    origin: u8,
    hr: HealRequestEvent,
    hc: HealConfirmEvent,
    dr: DamageRequestEvent,
    dc: DamageConfirmEvent,
    hb: HeartbeatEvent,
)
    ensures
        !settings.enable_cross_healing ==> route_of(settings, players, origin, Event::HealRequest(hr)) is Silent,
        settings.enable_cross_healing && players.contains_key(hr.target_steam_id)
            && players[hr.target_steam_id] != origin ==> route_of(settings, players, origin, Event::HealRequest(hr))
            == Route::Direct(players[hr.target_steam_id]),
        settings.enable_cross_healing && players.contains_key(hr.target_steam_id)
            && players[hr.target_steam_id] == origin ==> route_of(settings, players, origin, Event::HealRequest(hr)) is Silent,
        settings.enable_cross_healing && !players.contains_key(hr.target_steam_id) ==> route_of(
            settings,
            players,
            origin,
            Event::HealRequest(hr),
        ) is Broadcast,
        !settings.enable_cross_damage ==> route_of(settings, players, origin, Event::DamageRequest(dr)) is Silent,
        settings.enable_cross_damage && players.contains_key(dr.victim_steam_id)
            && players[dr.victim_steam_id] != origin ==> route_of(settings, players, origin, Event::DamageRequest(dr))
            == Route::Direct(players[dr.victim_steam_id]),
        settings.enable_cross_damage && players.contains_key(dr.victim_steam_id)
            && players[dr.victim_steam_id] == origin ==> route_of(settings, players, origin, Event::DamageRequest(dr)) is Silent,
        settings.enable_cross_damage && !players.contains_key(dr.victim_steam_id) ==> route_of(
            settings,
            players,
            origin,
            Event::DamageRequest(dr),
        ) is Broadcast,
        (route_of(settings, players, origin, Event::HealConfirm(hc)) is Broadcast) == settings.enable_cross_healing,
        (route_of(settings, players, origin, Event::HealConfirm(hc)) is Silent) == !settings.enable_cross_healing,
        (route_of(settings, players, origin, Event::DamageConfirm(dc)) is Broadcast) == settings.enable_cross_damage,
        (route_of(settings, players, origin, Event::DamageConfirm(dc)) is Silent) == !settings.enable_cross_damage,
        route_of(settings, players, origin, Event::Heartbeat(hb)) is Silent,
{
}

/// A player who connects is registered with the server the event came from;
/// one who disconnects is no longer registered; no other registration
/// changes.
pub proof fn lemma_player_bookkeeping(
    players: Map<u64, u8>,
    origin: u8,
    pc: PlayerConnectEvent,
    pd: PlayerDisconnectEvent,
    other: u64,
)
    ensures
        players_after(players, origin, Event::PlayerConnect(pc)).get(pc.steam_id) == Some(origin),
        other != pc.steam_id ==> players_after(players, origin, Event::PlayerConnect(pc)).get(other)
            == players.get(other),
        players_after(players, origin, Event::PlayerDisconnect(pd)).get(pd.steam_id) == None::<u8>,
        other != pd.steam_id ==> players_after(players, origin, Event::PlayerDisconnect(pd)).get(other)
            == players.get(other),
{
}

/// A heartbeat sets the player count it reports and the time it came, a map
/// change sets the new map (not the old one), and nothing else of the server
/// info changes; before the handshake there is no info to change.
pub proof fn lemma_info_updates(info: ServerInfo, hb: HeartbeatEvent, mc: MapChangeEvent, now: Instant)
    ensures
        info_after(Some(info), Event::Heartbeat(hb), now) matches Some(i) && {
            &&& i.current_players == hb.current_players
            &&& i.last_heartbeat == now
            &&& i.server_id == info.server_id
            &&& i.server_name == info.server_name
            &&& i.map_name == info.map_name
            &&& i.max_players == info.max_players
            &&& i.connected_at == info.connected_at
        },
        info_after(Some(info), Event::MapChange(mc), now) matches Some(i) && {
            &&& i.map_name == mc.new_map
            &&& i.server_id == info.server_id
            &&& i.server_name == info.server_name
            &&& i.current_players == info.current_players
            &&& i.max_players == info.max_players
            &&& i.connected_at == info.connected_at
            &&& i.last_heartbeat == info.last_heartbeat
        },
        info_after(None, Event::Heartbeat(hb), now) is None,
        info_after(None, Event::MapChange(mc), now) is None,
{
}

/// An event is never passed back to the server it came from.
pub proof fn lemma_never_echoed(
    old: Relay,
    new: Relay,
    settings: RelayConfig,
    origin: u8,
    ev: Event,
    ds: Seq<Delivery>,
)
    requires
        passed_on(old, new, origin, ev, route_of(settings, old.player_servers(), origin, ev), ds),
    ensures
        forall|i: int| 0 <= i < ds.len() ==> (#[trigger] ds[i]).server_id != origin,
{
    let route = route_of(settings, old.player_servers(), origin, ev);
    if route is Broadcast && broadcast_allowed(old.settings(), ev) {
        lemma_broadcast_skips_origin(ds, old.server_map(), origin, event_packet_wire(origin, ev));
    }
}

impl Session {
    /// A new connection, waiting for its handshake.
    pub fn new() -> (s: Self)
        ensures
            s.state == ConnectionState::Pending,
            s.server_info is None,
            s.sequence == 0,
    {
        Session { state: ConnectionState::Pending, server_info: None, sequence: 0 }
    }

    /// Get the next sequence number (numbers wrap around after 65535).
    pub fn next_sequence(&mut self) -> (seq: u16)
        ensures
            seq == old(self).sequence,
            final(self).sequence == u16_specs::wrapping_add(old(self).sequence, 1),
            final(self).state == old(self).state,
            final(self).server_info == old(self).server_info,
    {
        let seq = self.sequence;
        self.sequence = self.sequence.wrapping_add(1);
        seq
    }

    /// The packet that sends `event` on this connection, with the next
    /// sequence number.
    pub fn event_packet(&mut self, event: &Event) -> (b: Bytes)
        ensures
            bytes_view(b) == frame_wire(event.type_id(), 0, old(self).sequence, event.payload_wire()),
            final(self).sequence == u16_specs::wrapping_add(old(self).sequence, 1),
            final(self).state == old(self).state,
            final(self).server_info == old(self).server_info,
    {
        let payload = event.serialize();
        let seq = self.next_sequence();
        let packet = Packet::new(event.event_type(), 0, seq, payload);
        packet.serialize()
    }

    /// Process the event of the first packet: accept the server if it is a
    /// handshake with a free id between 1 and `max_servers`, answering with
    /// an acknowledgement; refuse it otherwise.
    pub fn process_handshake(&mut self, event: Event, relay: &Relay, max_servers: u8, now: Instant) -> (out: HandshakeOutcome)
        ensures
            match handshake_verdict(event, max_servers, relay.server_map().dom()) {
                HandshakeVerdict::NotHandshake => {
                    &&& out.reply is None
                    &&& out.result matches Err(e) && e@ == (ErrorView::MalformedPacket { reason: "Expected handshake packet"@ })
                    &&& final(self).state == ConnectionState::Handshaking
                    &&& final(self).server_info == old(self).server_info
                    &&& final(self).sequence == old(self).sequence
                },
                HandshakeVerdict::BadId(id) => {
                    &&& out.reply matches Some(b) && bytes_view(b) == handshake_ack_wire(
                        old(self).sequence, false, 0, relay.server_map().len() as u8)
                    &&& out.result matches Err(e) && e@ == (ErrorView::MalformedPacket {
                        reason: "Invalid server ID "@ + decimal(id as nat),
                    })
                    &&& final(self).state == ConnectionState::Handshaking
                    &&& final(self).server_info == old(self).server_info
                    &&& final(self).sequence == u16_specs::wrapping_add(old(self).sequence, 1)
                },
                HandshakeVerdict::Duplicate(id) => {
                    &&& out.reply matches Some(b) && bytes_view(b) == handshake_ack_wire(
                        old(self).sequence, false, 0, relay.server_map().len() as u8)
                    &&& out.result matches Err(e) && e@ == (ErrorView::DuplicateId { id })
                    &&& final(self).state == ConnectionState::Handshaking
                    &&& final(self).server_info == old(self).server_info
                    &&& final(self).sequence == u16_specs::wrapping_add(old(self).sequence, 1)
                },
                HandshakeVerdict::Accept => {
                    let h = event->Handshake_0;
                    &&& out.reply matches Some(b) && bytes_view(b) == handshake_ack_wire(
                        old(self).sequence,
                        true,
                        h.server_id,
                        vstd::wrapping::u8_specs::wrapping_add(relay.server_map().len() as u8, 1),
                    )
                    &&& out.result is Ok
                    &&& final(self).state == ConnectionState::Connected
                    &&& final(self).server_info == Some(ServerInfo {
                        server_id: h.server_id,
                        server_name: h.server_name,
                        map_name: h.map_name,
                        max_players: h.max_players,
                        current_players: h.current_players,
                        connected_at: now,
                        last_heartbeat: now,
                    })
                    &&& final(self).sequence == u16_specs::wrapping_add(old(self).sequence, 1)
                },
            },
    {
        self.state = ConnectionState::Handshaking;
        if let Event::Handshake(handshake) = event {
            let count = relay.connected_count();
            if handshake.server_id == 0 || handshake.server_id > max_servers {
                let ack = HandshakeAckEvent { success: false, assigned_id: 0, connected_servers: count as u8 };
                let reply = self.event_packet(&Event::HandshakeAck(ack));
                proof { assert(Event::HandshakeAck(ack).payload_wire() =~= values_wire(seq![FieldValue::Flag(false), FieldValue::Byte(0), FieldValue::Byte(count as u8)])); }
                let mut reason = String::from_str("Invalid server ID ");
                push_text(&mut reason, decimal_string(handshake.server_id as u64).as_str());
                return HandshakeOutcome { reply: Some(reply), result: Err(RelayError::MalformedPacket { reason }) };
            }
            if relay.is_server_connected(handshake.server_id) {
                let ack = HandshakeAckEvent { success: false, assigned_id: 0, connected_servers: count as u8 };
                let reply = self.event_packet(&Event::HandshakeAck(ack));
                proof { assert(Event::HandshakeAck(ack).payload_wire() =~= values_wire(seq![FieldValue::Flag(false), FieldValue::Byte(0), FieldValue::Byte(count as u8)])); }
                return HandshakeOutcome {
                    reply: Some(reply),
                    result: Err(RelayError::DuplicateId { id: handshake.server_id }),
                };
            }
            self.server_info = Some(ServerInfo {
                server_id: handshake.server_id,
                server_name: handshake.server_name.clone(),
                map_name: handshake.map_name.clone(),
                max_players: handshake.max_players,
                current_players: handshake.current_players,
                connected_at: now,
                last_heartbeat: now,
            });
            let connected = (count as u8).wrapping_add(1);
            let ack = HandshakeAckEvent { success: true, assigned_id: handshake.server_id, connected_servers: connected };
            let reply = self.event_packet(&Event::HandshakeAck(ack));
            proof { assert(Event::HandshakeAck(ack).payload_wire() =~= values_wire(seq![FieldValue::Flag(true), FieldValue::Byte(handshake.server_id), FieldValue::Byte(connected)])); }
            self.state = ConnectionState::Connected;
            HandshakeOutcome { reply: Some(reply), result: Ok(()) }
        } else {
            HandshakeOutcome {
                reply: None,
                result: Err(RelayError::MalformedPacket { reason: String::from_str("Expected handshake packet") }),
            }
        }
    }

    /// Process an event received from server `origin` after the handshake:
    /// answer a heartbeat, keep the server info and the player registrations
    /// up to date, pass the event on as [`route_of`] says, and record it.
    pub fn process_packet(&mut self, relay: &mut Relay, config: &Config, origin: u8, event: Event, now: Instant) -> (out: PacketOutcome)
        requires
            old(relay).wf(),
        ensures
            final(relay).wf(),
            final(relay).settings() == old(relay).settings(),
            final(relay).history_limit() == old(relay).history_limit(),
            final(relay).server_map() == old(relay).server_map(),
            final(relay).player_servers() == players_after(old(relay).player_servers(), origin, event),
            final(relay).history() == trimmed(
                old(relay).history().push(
                    RecordedEvent { server_id: recorder_id(old(self).server_info), event, timestamp: now },
                ),
                old(relay).history_limit() as int,
            ),
            passed_on(
                *old(relay),
                *final(relay),
                origin,
                event,
                route_of(config.relay, old(relay).player_servers(), origin, event),
                out.deliveries@,
            ),
            out.heartbeat == event is Heartbeat,
            event matches Event::Heartbeat(hb) ==> {
                &&& out.reply matches Some(b) && bytes_view(b) == frame_wire(
                    system::HEARTBEAT_ACK,
                    0,
                    old(self).sequence,
                    values_wire(
                        seq![FieldValue::Dword(hb.timestamp), FieldValue::Byte(old(relay).server_map().len() as u8)],
                    ),
                )
                &&& final(self).sequence == u16_specs::wrapping_add(old(self).sequence, 1)
            },
            !(event is Heartbeat) ==> out.reply is None && final(self).sequence == old(self).sequence,
            final(self).server_info == info_after(old(self).server_info, event, now),
            final(self).state == old(self).state,
    {
        let ghost r0 = *relay;
        let mut reply: Option<Bytes> = None;
        let mut deliveries: Vec<Delivery> = Vec::new();
        let mut heartbeat = false;
        match &event {
            Event::Heartbeat(hb) => {
                heartbeat = true;
                match self.server_info.take() {
                    Some(mut info) => {
                        info.current_players = hb.current_players;
                        info.last_heartbeat = now;
                        self.server_info = Some(info);
                    },
                    None => {},
                }
                let count = relay.connected_count();
                let ack = HeartbeatAckEvent { timestamp: hb.timestamp, connected_servers: count as u8 };
                reply = Some(self.event_packet(&Event::HeartbeatAck(ack)));
                proof {
                    assert(Event::HeartbeatAck(ack).payload_wire() =~= values_wire(
                        seq![FieldValue::Dword(hb.timestamp), FieldValue::Byte(count as u8)],
                    ));
                }
            },
            Event::MapChange(mc) => {
                match self.server_info.take() {
                    Some(mut info) => {
                        info.map_name = mc.new_map.clone();
                        self.server_info = Some(info);
                    },
                    None => {},
                }
                deliveries = relay.broadcast(origin, &event);
            },
            Event::PlayerConnect(pc) => {
                relay.register_player(pc.steam_id, origin);
                deliveries = relay.broadcast(origin, &event);
            },
            Event::PlayerDisconnect(pd) => {
                relay.unregister_player(pd.steam_id);
                deliveries = relay.broadcast(origin, &event);
            },
            Event::HealRequest(hr) => {
                if config.relay.enable_cross_healing {
                    match relay.get_player_server(hr.target_steam_id) {
                        Some(target) => {
                            if target != origin {
                                if let Ok(d) = relay.send_to_server(target, &event) {
                                    deliveries.push(d);
                                }
                            }
                        },
                        None => {
                            deliveries = relay.broadcast(origin, &event);
                        },
                    }
                }
            },
            Event::HealConfirm(_) => {
                if config.relay.enable_cross_healing {
                    deliveries = relay.broadcast(origin, &event);
                }
            },
            Event::DamageRequest(dr) => {
                if config.relay.enable_cross_damage {
                    match relay.get_player_server(dr.victim_steam_id) {
                        Some(target) => {
                            if target != origin {
                                if let Ok(d) = relay.send_to_server(target, &event) {
                                    deliveries.push(d);
                                }
                            }
                        },
                        None => {
                            deliveries = relay.broadcast(origin, &event);
                        },
                    }
                }
            },
            Event::DamageConfirm(_) => {
                if config.relay.enable_cross_damage {
                    deliveries = relay.broadcast(origin, &event);
                }
            },
            _ => {
                if event.is_broadcastable() {
                    deliveries = relay.broadcast(origin, &event);
                }
            },
        }
        let recorder = match &self.server_info {
            Some(info) => info.server_id,
            None => 0,
        };
        relay.record_event(recorder, event, now);
        PacketOutcome { reply, deliveries, heartbeat }
    }
}

} // verus!
