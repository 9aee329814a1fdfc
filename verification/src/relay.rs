//! The routing hub: which game servers are connected, which server each
//! player is on, what is sent to whom, the recorded event history and the
//! traffic counters.
//!
//! The hub computes every packet to send and to which server; the program
//! around it owns the sockets and channels that carry them.

use bytes::Bytes;
use std::collections::HashMap;
use std::time::Instant;
use vstd::prelude::*;
use vstd::string::StringExecFns;

use crate::config::{Config, RelayConfig};
use crate::connection::ServerInfo;
use crate::error::{ErrorView, RelayError};
use crate::events::{system, Event, ServerConnectEvent, ServerDisconnectEvent};
use crate::outside::{bytes_slice, bytes_view};
use crate::protocol::{frame_wire, Packet};
use crate::text::{decimal, decimal_string, push_text};
use crate::wire::{values_wire, FieldValue, WireRecord};
use vstd::std_specs::hash::spec_keys_iter;
use vstd::std_specs::iter::IteratorSpec;
use vstd::wrapping::u64_specs;

verus! {

broadcast use vstd::std_specs::hash::group_hash_axioms;

/// Recorded event with metadata for TUI display.
#[derive(Debug, Clone)]
pub struct RecordedEvent {
    /// Server ID that generated the event.
    pub server_id: u8,
    /// The event itself.
    pub event: Event,
    /// Timestamp when the event was recorded.
    pub timestamp: Instant,
}

/// Bytes to hand to one connected server.
#[derive(Debug, Clone)]
pub struct Delivery {
    /// The receiving server.
    pub server_id: u8,
    /// A complete serialized packet.
    pub data: Bytes,
}

/// The packet bytes with which the relay sends `event` on behalf of `origin`
/// (sequence number 0).
pub open spec fn event_packet_wire(origin: u8, event: Event) -> Seq<u8> {
    frame_wire(event.type_id(), origin, 0, event.payload_wire())
}

/// Whether the configuration lets an event be broadcast: chat, deaths,
/// joins and leaves, healing and damage each have their switch; anything
/// else goes.
pub open spec fn broadcast_allowed(r: RelayConfig, event: Event) -> bool {
    match event {
        Event::ChatMessage(_) | Event::AdminMessage(_) => r.broadcast_chat,
        Event::PlayerDeath(_) => r.broadcast_deaths,
        Event::PlayerConnect(_) | Event::PlayerDisconnect(_) => r.broadcast_connect,
        Event::HealRequest(_) | Event::HealConfirm(_) => r.enable_cross_healing,
        Event::DamageRequest(_) | Event::DamageConfirm(_) => r.enable_cross_damage,
        _ => true,
    }
}

/// Each kind of event is broadcast by its own switch: chat and admin
/// messages by `broadcast_chat`, deaths by `broadcast_deaths`, joins and
/// leaves by `broadcast_connect`, healing by `enable_cross_healing`, damage
/// by `enable_cross_damage`; every other event always.
pub proof fn lemma_broadcast_switches(r: RelayConfig, ev: Event)
    ensures
        (ev is ChatMessage || ev is AdminMessage) ==> broadcast_allowed(r, ev) == r.broadcast_chat,
        ev is PlayerDeath ==> broadcast_allowed(r, ev) == r.broadcast_deaths,
        (ev is PlayerConnect || ev is PlayerDisconnect) ==> broadcast_allowed(r, ev) == r.broadcast_connect,
        (ev is HealRequest || ev is HealConfirm) ==> broadcast_allowed(r, ev) == r.enable_cross_healing,
        (ev is DamageRequest || ev is DamageConfirm) ==> broadcast_allowed(r, ev) == r.enable_cross_damage,
        !(ev is ChatMessage || ev is AdminMessage || ev is PlayerDeath || ev is PlayerConnect
            || ev is PlayerDisconnect || ev is HealRequest || ev is HealConfirm || ev is DamageRequest
            || ev is DamageConfirm) ==> broadcast_allowed(r, ev),
{
}

/// A packet the relay sends on behalf of a server names that server in its
/// header and carries the event's own type and payload.
pub proof fn lemma_event_packet_names_origin(origin: u8, ev: Event)
    ensures
        event_packet_wire(origin, ev)[6] == origin,
        event_packet_wire(origin, ev)[3] == ev.type_id(),
        event_packet_wire(origin, ev).subrange(9, 9 + ev.payload_wire().len() as int) == ev.payload_wire(),
{
    crate::protocol::lemma_frame_layout(ev.type_id(), origin, 0, ev.payload_wire());
}

/// Deliveries that send the same bytes to exactly the servers of `targets`,
/// each once.
pub open spec fn delivers_to(ds: Seq<Delivery>, targets: Set<u8>, data: Seq<u8>) -> bool {
    &&& forall|i: int| 0 <= i < ds.len() ==> bytes_view(#[trigger] ds[i].data) == data
    &&& forall|i: int| 0 <= i < ds.len() ==> targets.contains(#[trigger] ds[i].server_id)
    &&& forall|id: u8| targets.contains(id) ==> exists|i: int| 0 <= i < ds.len() && #[trigger] ds[i].server_id == id
    &&& forall|i: int, j: int| 0 <= i < j < ds.len() ==> ds[i].server_id != ds[j].server_id
}

/// The connected servers other than `origin`.
pub open spec fn others(servers: Map<u8, ServerInfo>, origin: u8) -> Set<u8> {
    servers.dom().remove(origin)
}

/// Central relay hub.
pub struct Relay {
    settings: RelayConfig,
    max_event_history: usize,
    servers: HashMap<u8, ServerInfo>,
    player_map: HashMap<u64, u8>,
    event_history: Vec<RecordedEvent>,
    total_events: u64,
    bytes_transferred: u64,
}

impl Relay {
    /// The relay switches of the configuration the hub was made with.
    pub closed spec fn settings(&self) -> RelayConfig {
        self.settings
    }

    /// The most events the history keeps.
    pub closed spec fn history_limit(&self) -> usize {
        self.max_event_history
    }

    /// Connected servers by id.
    pub closed spec fn server_map(&self) -> Map<u8, ServerInfo> {
        self.servers@
    }

    /// The server of each registered player, by Steam id.
    pub closed spec fn player_servers(&self) -> Map<u64, u8> {
        self.player_map@
    }

    /// Recorded events, oldest first.
    pub closed spec fn history(&self) -> Seq<RecordedEvent> {
        self.event_history@
    }

    /// Events broadcast so far (wrapping at 2^64).
    pub closed spec fn event_count(&self) -> u64 {
        self.total_events
    }

    /// Bytes broadcast so far (wrapping at 2^64).
    pub closed spec fn byte_count(&self) -> u64 {
        self.bytes_transferred
    }

    /// The history never holds more events than its limit.
    pub closed spec fn wf(&self) -> bool {
        self.event_history@.len() <= self.max_event_history
    }

    /// Create a new relay hub with no servers, players or history.
    pub fn new(config: &Config) -> (r: Self)
        ensures
            r.wf(),
            r.settings() == config.relay,
            r.history_limit() == config.tui.max_event_history,
            r.server_map() == Map::<u8, ServerInfo>::empty(),
            r.player_servers() == Map::<u64, u8>::empty(),
            r.history() == Seq::<RecordedEvent>::empty(),
            r.event_count() == 0,
            r.byte_count() == 0,
    {
        let settings = RelayConfig {
            broadcast_chat: config.relay.broadcast_chat,
            broadcast_deaths: config.relay.broadcast_deaths,
            broadcast_connect: config.relay.broadcast_connect,
            enable_cross_healing: config.relay.enable_cross_healing,
            enable_cross_damage: config.relay.enable_cross_damage,
        };
        Self {
            settings,
            max_event_history: config.tui.max_event_history,
            servers: HashMap::new(),
            player_map: HashMap::new(),
            event_history: Vec::new(),
            total_events: 0,
            bytes_transferred: 0,
        }
    }

    /// The ids of the connected servers other than `origin`, in increasing order.
    fn other_ids(&self, origin: u8) -> (ids: Vec<u8>)
        ensures
            forall|i: int| 0 <= i < ids@.len() ==> others(self.server_map(), origin).contains(#[trigger] ids@[i]),
            forall|id: u8| others(self.server_map(), origin).contains(id) ==> #[trigger] ids@.contains(id),
            forall|i: int, j: int| 0 <= i < j < ids@.len() ==> ids@[i] < ids@[j],
    {
        let mut ids: Vec<u8> = Vec::new();
        let mut id: u16 = 0;
        while id < 256
            invariant
                id <= 256,
                forall|i: int| 0 <= i < ids@.len() ==> others(self.server_map(), origin).contains(#[trigger] ids@[i]),
                forall|i: int| 0 <= i < ids@.len() ==> #[trigger] ids@[i] < id,
                forall|x: u8| x < id && others(self.server_map(), origin).contains(x) ==> #[trigger] ids@.contains(x),
                forall|i: int, j: int| 0 <= i < j < ids@.len() ==> ids@[i] < ids@[j],
            decreases 256 - id,
        {
            let candidate = id as u8;
            let ghost before = ids@;
            if candidate != origin && self.servers.contains_key(&candidate) {
                ids.push(candidate);
                proof {
                    assert(ids@[ids@.len() - 1] == candidate);
                }
            }
            proof {
                assert(candidate == id);
                assert forall|x: u8| before.contains(x) implies #[trigger] ids@.contains(x) by {
                    let k = choose|k: int| 0 <= k < before.len() && before[k] == x;
                    assert(ids@[k] == x);
                }
            }
            id = id + 1;
        }
        ids
    }

    /// One delivery of `data` to each server of `ids`.
    fn deliveries(ids: &Vec<u8>, data: &Bytes) -> (ds: Vec<Delivery>)
        ensures
            ds@.len() == ids@.len(),
            forall|i: int| 0 <= i < ds@.len() ==> (#[trigger] ds@[i]).server_id == ids@[i]
                && bytes_view(ds@[i].data) == bytes_view(*data),
    {
        let mut ds: Vec<Delivery> = Vec::new();
        let mut i: usize = 0;
        while i < ids.len()
            invariant
                i <= ids@.len(),
                ds@.len() == i,
                forall|k: int| 0 <= k < i ==> (#[trigger] ds@[k]).server_id == ids@[k]
                    && bytes_view(ds@[k].data) == bytes_view(*data),
            decreases ids@.len() - i,
        {
            ds.push(Delivery { server_id: ids[i], data: data.clone() });
            i = i + 1;
        }
        ds
    }

    proof fn lemma_deliveries(ds: Seq<Delivery>, ids: Seq<u8>, targets: Set<u8>, data: Seq<u8>)
        requires
            ds.len() == ids.len(),
            forall|i: int| 0 <= i < ds.len() ==> (#[trigger] ds[i]).server_id == ids[i]
                && bytes_view(ds[i].data) == data,
            forall|i: int| 0 <= i < ids.len() ==> targets.contains(#[trigger] ids[i]),
            forall|id: u8| targets.contains(id) ==> #[trigger] ids.contains(id),
            forall|i: int, j: int| 0 <= i < j < ids.len() ==> ids[i] < ids[j],
        ensures
            delivers_to(ds, targets, data),
    {
        assert forall|id: u8| targets.contains(id) implies exists|i: int| 0 <= i < ds.len() && #[trigger] ds[i].server_id == id by {
            assert(ids.contains(id));
            let i = choose|i: int| 0 <= i < ids.len() && ids[i] == id;
            assert(ds[i].server_id == id);
        }
    }

    /// Serialize `event` as a packet from `origin`.
    fn event_packet(origin: u8, event: &Event) -> (b: Bytes)
        ensures
            bytes_view(b) == event_packet_wire(origin, *event),
    {
        let payload = event.serialize();
        let packet = Packet::new(event.event_type(), origin, 0, payload);
        packet.serialize()
    }

    /// Register a new server connection: fails if the id is taken; otherwise
    /// tells every server already connected, then adds the new one.
    pub fn register_server(&mut self, server_id: u8, info: ServerInfo) -> (r: Result<Vec<Delivery>, RelayError>)
        requires
            old(self).wf(),
        ensures
            final(self).wf(),
            final(self).settings() == old(self).settings(),
            final(self).history_limit() == old(self).history_limit(),
            final(self).player_servers() == old(self).player_servers(),
            final(self).history() == old(self).history(),
            final(self).event_count() == old(self).event_count(),
            final(self).byte_count() == old(self).byte_count(),
            old(self).server_map().contains_key(server_id) ==> {
                &&& r matches Err(e) && e@ == (ErrorView::DuplicateId { id: server_id })
                &&& final(self).server_map() == old(self).server_map()
            },
            !old(self).server_map().contains_key(server_id) ==> {
                &&& final(self).server_map() == old(self).server_map().insert(server_id, info)
                &&& r matches Ok(ds) && delivers_to(
                    ds@,
                    others(old(self).server_map(), server_id),
                    frame_wire(
                        system::SERVER_CONNECT,
                        0,
                        0,
                        values_wire(seq![FieldValue::Byte(server_id), FieldValue::Text(info.server_name@)]),
                    ),
                )
            },
    {
        if self.servers.contains_key(&server_id) {
            return Err(RelayError::DuplicateId { id: server_id });
        }
        let connect_event = Event::ServerConnect(
            ServerConnectEvent { server_id, server_name: info.server_name.clone() },
        );
        let data = Self::event_packet(0, &connect_event);
        let ids = self.other_ids(server_id);
        let ds = Self::deliveries(&ids, &data);
        proof {
            Self::lemma_deliveries(ds@, ids@, others(self.server_map(), server_id), bytes_view(data));
        }
        self.servers.insert(server_id, info);
        Ok(ds)
    }

    /// Unregister a server connection: if it was connected, tell the other
    /// servers; in any case forget the players registered with it.
    pub fn unregister_server(&mut self, server_id: u8) -> (ds: Vec<Delivery>)
        requires
            old(self).wf(),
        ensures
            final(self).wf(),
            final(self).settings() == old(self).settings(),
            final(self).history_limit() == old(self).history_limit(),
            final(self).history() == old(self).history(),
            final(self).event_count() == old(self).event_count(),
            final(self).byte_count() == old(self).byte_count(),
            final(self).server_map() == old(self).server_map().remove(server_id),
            forall|steam_id: u64| #[trigger] final(self).player_servers().contains_key(steam_id) <==> (
                old(self).player_servers().contains_key(steam_id) && old(self).player_servers()[steam_id]
                    != server_id),
            forall|steam_id: u64| #[trigger] final(self).player_servers().contains_key(steam_id) ==>
                final(self).player_servers()[steam_id] == old(self).player_servers()[steam_id],
            old(self).server_map().contains_key(server_id) ==> delivers_to(
                ds@,
                others(old(self).server_map(), server_id),
                frame_wire(
                    system::SERVER_DISCONNECT,
                    0,
                    0,
                    values_wire(seq![FieldValue::Byte(server_id), FieldValue::Text("Disconnected"@)]),
                ),
            ),
            !old(self).server_map().contains_key(server_id) ==> ds@.len() == 0,
    {
        let mut ds: Vec<Delivery> = Vec::new();
        if self.servers.contains_key(&server_id) {
            self.servers.remove(&server_id);
            let disconnect_event = Event::ServerDisconnect(
                ServerDisconnectEvent { server_id, reason: String::from_str("Disconnected") },
            );
            let data = Self::event_packet(0, &disconnect_event);
            let ids = self.other_ids(server_id);
            ds = Self::deliveries(&ids, &data);
            proof {
                Self::lemma_deliveries(ds@, ids@, others(old(self).server_map(), server_id), bytes_view(data));
            }
        }
        self.forget_players_of(server_id);
        ds
    }

    /// Remove every player registered with `server_id`.
    fn forget_players_of(&mut self, server_id: u8)
        ensures
            final(self).settings() == old(self).settings(),
            final(self).history_limit() == old(self).history_limit(),
            final(self).server_map() == old(self).server_map(),
            final(self).history() == old(self).history(),
            final(self).event_count() == old(self).event_count(),
            final(self).byte_count() == old(self).byte_count(),
            forall|steam_id: u64| #[trigger] final(self).player_servers().contains_key(steam_id) <==> (
                old(self).player_servers().contains_key(steam_id) && old(self).player_servers()[steam_id]
                    != server_id),
            forall|steam_id: u64| #[trigger] final(self).player_servers().contains_key(steam_id) ==>
                final(self).player_servers()[steam_id] == old(self).player_servers()[steam_id],
    {
        let mut doomed: Vec<u64> = Vec::new();
        let ghost m = self.player_map@;
        proof {
            assert(spec_keys_iter(&self.player_map).remaining().unref().to_set() == m.dom());
        }
        for k in it: self.player_map.keys()
            invariant
                m == self.player_map@,
                it.seq().unref().to_set() == m.dom(),
                forall|i: int| 0 <= i < doomed@.len() ==> m.contains_key(#[trigger] doomed@[i]) && m[doomed@[i]] == server_id,
                forall|j: int| 0 <= j < it.index() ==> (m[*#[trigger] it.seq()[j]] == server_id ==> doomed@.contains(*it.seq()[j])),
            ensures
                forall|key: u64| m.contains_key(key) && m[key] == server_id ==> doomed@.contains(key),
        {
            let ghost before = doomed@;
            let ghost j0 = it.index();
            proof {
                assert(*k == *it.seq()[j0]);
            }
            let v = *self.player_map.get(k).unwrap();
            if v == server_id {
                doomed.push(*k);
                proof {
                    assert(doomed@[doomed@.len() - 1] == *k);
                }
            }
            proof {
                assert forall|x: u64| before.contains(x) implies #[trigger] doomed@.contains(x) by {
                    let q = choose|q: int| 0 <= q < before.len() && before[q] == x;
                    assert(doomed@[q] == x);
                }
            }
        }
        let mut i: usize = 0;
        assert(doomed@.subrange(0, 0) =~= Seq::<u64>::empty());
        while i < doomed.len()
            invariant
                i <= doomed@.len(),
                self.settings == old(self).settings,
                self.max_event_history == old(self).max_event_history,
                self.servers@ == old(self).servers@,
                self.event_history@ == old(self).event_history@,
                self.total_events == old(self).total_events,
                self.bytes_transferred == old(self).bytes_transferred,
                m == old(self).player_map@,
                forall|k: int| 0 <= k < doomed@.len() ==> m.contains_key(#[trigger] doomed@[k]) && m[doomed@[k]] == server_id,
                forall|key: u64| m.contains_key(key) && m[key] == server_id ==> doomed@.contains(key),
                forall|id: u64| #[trigger] self.player_map@.contains_key(id) <==> (m.contains_key(id)
                    && !doomed@.subrange(0, i as int).contains(id)),
                forall|id: u64| #[trigger] self.player_map@.contains_key(id) ==> self.player_map@[id] == m[id],
            decreases doomed@.len() - i,
        {
            assert(doomed@.subrange(0, i + 1) =~= doomed@.subrange(0, i as int).push(doomed@[i as int]));
            proof {
                broadcast use vstd::seq_lib::lemma_seq_contains_after_push;
            }
            self.player_map.remove(&doomed[i]);
            i = i + 1;
        }
        assert(doomed@.subrange(0, doomed@.len() as int) =~= doomed@);
    }

    /// Check if a server ID is connected.
    pub fn is_server_connected(&self, server_id: u8) -> (b: bool)
        ensures
            b == self.server_map().contains_key(server_id),
    {
        self.servers.contains_key(&server_id)
    }

    /// Get the number of connected servers.
    pub fn connected_count(&self) -> (n: usize)
        ensures
            n == self.server_map().len(),
    {
        self.servers.len()
    }

    /// Whether one more server may connect.
    pub fn has_room(&self, max_servers: u8) -> (b: bool)
        ensures
            b == (self.server_map().len() < max_servers),
    {
        self.servers.len() < max_servers as usize
    }

    /// The connected servers, in increasing order of id.
    pub fn get_servers(&self) -> (v: Vec<ServerInfo>)
        ensures
            v@ == ids_below(self.server_map().dom(), 256).map_values(|id: u8| self.server_map()[id]),
    {
        let mut v: Vec<ServerInfo> = Vec::new();
        let mut id: u16 = 0;
        while id < 256
            invariant
                id <= 256,
                v@ == ids_below(self.server_map().dom(), id as nat).map_values(|k: u8| self.server_map()[k]),
            decreases 256 - id,
        {
            let key = id as u8;
            let ghost m = self.server_map();
            proof {
                assert(key as nat == id as nat);
            }
            match self.servers.get(&key) {
                Some(info) => {
                    v.push(copy_info(info));
                },
                None => {},
            }
            proof {
                assert(v@ =~= ids_below(m.dom(), (id + 1) as nat).map_values(|k: u8| m[k]));
            }
            id = id + 1;
        }
        v
    }

    /// Broadcast an event to all servers except the origin, if the
    /// configuration allows it; counts the event and its bytes.
    pub fn broadcast(&mut self, origin_server_id: u8, event: &Event) -> (ds: Vec<Delivery>)
        requires
            old(self).wf(),
        ensures
            final(self).wf(),
            final(self).settings() == old(self).settings(),
            final(self).history_limit() == old(self).history_limit(),
            final(self).server_map() == old(self).server_map(),
            final(self).player_servers() == old(self).player_servers(),
            final(self).history() == old(self).history(),
            !broadcast_allowed(old(self).settings(), *event) ==> {
                &&& ds@.len() == 0
                &&& final(self).event_count() == old(self).event_count()
                &&& final(self).byte_count() == old(self).byte_count()
            },
            broadcast_allowed(old(self).settings(), *event) ==> {
                &&& delivers_to(ds@, others(old(self).server_map(), origin_server_id), event_packet_wire(origin_server_id, *event))
                &&& final(self).event_count() == u64_specs::wrapping_add(old(self).event_count(), 1)
                &&& final(self).byte_count() == u64_specs::wrapping_add(
                    old(self).byte_count(),
                    event_packet_wire(origin_server_id, *event).len() as u64,
                )
            },
    {
        let should_broadcast = match event {
            Event::ChatMessage(_) | Event::AdminMessage(_) => self.settings.broadcast_chat,
            Event::PlayerDeath(_) => self.settings.broadcast_deaths,
            Event::PlayerConnect(_) | Event::PlayerDisconnect(_) => self.settings.broadcast_connect,
            Event::HealRequest(_) | Event::HealConfirm(_) => self.settings.enable_cross_healing,
            Event::DamageRequest(_) | Event::DamageConfirm(_) => self.settings.enable_cross_damage,
            _ => true,
        };
        if !should_broadcast {
            return Vec::new();
        }
        let data = Self::event_packet(origin_server_id, event);
        let len = bytes_slice(&data).len();
        self.total_events = self.total_events.wrapping_add(1);
        self.bytes_transferred = self.bytes_transferred.wrapping_add(len as u64);
        let ids = self.other_ids(origin_server_id);
        let ds = Self::deliveries(&ids, &data);
        proof {
            Self::lemma_deliveries(ds@, ids@, others(self.server_map(), origin_server_id), bytes_view(data));
        }
        ds
    }

    /// Send an event to a specific server: the packet to hand to it, or an
    /// error if it is not connected.
    pub fn send_to_server(&self, server_id: u8, event: &Event) -> (r: Result<Delivery, RelayError>)
        ensures
            self.server_map().contains_key(server_id) ==> (r matches Ok(d) && d.server_id == server_id
                && bytes_view(d.data) == event_packet_wire(0, *event)),
            !self.server_map().contains_key(server_id) ==> (r matches Err(e) && e@ == (ErrorView::InternalError {
                message: "Server "@ + decimal(server_id as nat) + " not connected"@,
            })),
    {
        if self.servers.contains_key(&server_id) {
            Ok(Delivery { server_id, data: Self::event_packet(0, event) })
        } else {
            let mut message = String::from_str("Server ");
            push_text(&mut message, decimal_string(server_id as u64).as_str());
            push_text(&mut message, " not connected");
            Err(RelayError::InternalError { message })
        }
    }

    /// Route an event to the server that owns a specific player.
    pub fn route_to_player(&self, steam_id: u64, event: &Event) -> (r: Result<Delivery, RelayError>)
        ensures
            match self.player_servers().get(steam_id) {
                Some(server_id) => if self.server_map().contains_key(server_id) {
                    r matches Ok(d) && d.server_id == server_id && bytes_view(d.data) == event_packet_wire(0, *event)
                } else {
                    r matches Err(e) && e@ == (ErrorView::InternalError {
                        message: "Server "@ + decimal(server_id as nat) + " not connected"@,
                    })
                },
                None => r matches Err(e) && e@ == (ErrorView::InternalError {
                    message: "Player "@ + decimal(steam_id as nat) + " not found"@,
                }),
            },
    {
        match self.player_map.get(&steam_id) {
            Some(server_id) => self.send_to_server(*server_id, event),
            None => {
                let mut message = String::from_str("Player ");
                push_text(&mut message, decimal_string(steam_id).as_str());
                push_text(&mut message, " not found");
                Err(RelayError::InternalError { message })
            },
        }
    }

    /// Register a player with a server (replacing an earlier registration).
    pub fn register_player(&mut self, steam_id: u64, server_id: u8)
        requires
            old(self).wf(),
        ensures
            final(self).wf(),
            final(self).settings() == old(self).settings(),
            final(self).history_limit() == old(self).history_limit(),
            final(self).server_map() == old(self).server_map(),
            final(self).player_servers() == old(self).player_servers().insert(steam_id, server_id),
            final(self).history() == old(self).history(),
            final(self).event_count() == old(self).event_count(),
            final(self).byte_count() == old(self).byte_count(),
    {
        self.player_map.insert(steam_id, server_id);
    }

    /// Unregister a player.
    pub fn unregister_player(&mut self, steam_id: u64)
        requires
            old(self).wf(),
        ensures
            final(self).wf(),
            final(self).settings() == old(self).settings(),
            final(self).history_limit() == old(self).history_limit(),
            final(self).server_map() == old(self).server_map(),
            final(self).player_servers() == old(self).player_servers().remove(steam_id),
            final(self).history() == old(self).history(),
            final(self).event_count() == old(self).event_count(),
            final(self).byte_count() == old(self).byte_count(),
    {
        self.player_map.remove(&steam_id);
    }

    /// Get the server ID for a player.
    pub fn get_player_server(&self, steam_id: u64) -> (r: Option<u8>)
        ensures
            r == self.player_servers().get(steam_id),
    {
        match self.player_map.get(&steam_id) {
            Some(id) => Some(*id),
            None => None,
        }
    }

    /// Record an event for TUI display, dropping the oldest event when the
    /// history is full.
    pub fn record_event(&mut self, server_id: u8, event: Event, timestamp: Instant)
        requires
            old(self).wf(),
        ensures
            final(self).wf(),
            final(self).settings() == old(self).settings(),
            final(self).history_limit() == old(self).history_limit(),
            final(self).server_map() == old(self).server_map(),
            final(self).player_servers() == old(self).player_servers(),
            final(self).event_count() == old(self).event_count(),
            final(self).byte_count() == old(self).byte_count(),
            final(self).history() == trimmed(
                old(self).history().push(RecordedEvent { server_id, event, timestamp }),
                old(self).history_limit() as int,
            ),
    {
        self.event_history.push(RecordedEvent { server_id, event, timestamp });
        if self.event_history.len() > self.max_event_history {
            self.event_history.remove(0);
        }
    }

    /// Get event history, oldest first.
    pub fn get_event_history(&self) -> (h: &Vec<RecordedEvent>)
        ensures
            h@ == self.history(),
    {
        &self.event_history
    }

    /// Clear event history.
    pub fn clear_event_history(&mut self)
        requires
            old(self).wf(),
        ensures
            final(self).wf(),
            final(self).settings() == old(self).settings(),
            final(self).history_limit() == old(self).history_limit(),
            final(self).server_map() == old(self).server_map(),
            final(self).player_servers() == old(self).player_servers(),
            final(self).event_count() == old(self).event_count(),
            final(self).byte_count() == old(self).byte_count(),
            final(self).history() == Seq::<RecordedEvent>::empty(),
    {
        self.event_history.clear();
    }

    /// Total events broadcast.
    pub fn total_events(&self) -> (n: u64)
        ensures
            n == self.event_count(),
    {
        self.total_events
    }

    /// Total bytes broadcast.
    pub fn bytes_transferred(&self) -> (n: u64)
        ensures
            n == self.byte_count(),
    {
        self.bytes_transferred
    }
}

/// A broadcast never reaches the server it came from: every delivery goes
/// to a connected server other than the origin.
pub proof fn lemma_broadcast_skips_origin(ds: Seq<Delivery>, servers: Map<u8, ServerInfo>, origin: u8, data: Seq<u8>)
    requires
        delivers_to(ds, others(servers, origin), data),
    ensures
        forall|i: int| 0 <= i < ds.len() ==> (#[trigger] ds[i]).server_id != origin
            && servers.contains_key(ds[i].server_id),
{
    assert forall|i: int| 0 <= i < ds.len() implies (#[trigger] ds[i]).server_id != origin
        && servers.contains_key(ds[i].server_id) by {
        assert(others(servers, origin).contains(ds[i].server_id));
    }
}

/// Registering a server under a free id and then unregistering it leaves
/// the connected servers as they were.
pub proof fn lemma_register_then_unregister(servers: Map<u8, ServerInfo>, id: u8, info: ServerInfo)
    requires
        !servers.contains_key(id),
    ensures
        servers.insert(id, info).remove(id) == servers,
{
    assert(servers.insert(id, info).remove(id) =~= servers);
}

/// A registered player is found on the server it was registered with, and
/// not found once unregistered.
pub proof fn lemma_player_lookup(players: Map<u64, u8>, steam_id: u64, server_id: u8)
    ensures
        players.insert(steam_id, server_id).get(steam_id) == Some(server_id),
        players.insert(steam_id, server_id).remove(steam_id).get(steam_id) == None::<u8>,
{
}

/// Recording into a history of at most `limit` events keeps at most `limit`
/// events, and the newest one when the limit is positive.
pub proof fn lemma_history_keeps_newest(history: Seq<RecordedEvent>, e: RecordedEvent, limit: usize)
    requires
        history.len() <= limit,
    ensures
        trimmed(history.push(e), limit as int).len() <= limit,
        limit > 0 ==> trimmed(history.push(e), limit as int).last() == e,
        limit > 0 ==> trimmed(history.push(e), limit as int).drop_last() == history.subrange(
            history.len() - (trimmed(history.push(e), limit as int).len() - 1),
            history.len() as int,
        ),
{
    let t = trimmed(history.push(e), limit as int);
    if limit > 0 {
        assert(t.drop_last() =~= history.subrange(history.len() - (t.len() - 1), history.len() as int));
    }
}

/// The elements of `keys` below `n`, in increasing order.
pub open spec fn ids_below(keys: Set<u8>, n: nat) -> Seq<u8>
    decreases n,
{
    if n == 0 {
        Seq::empty()
    } else {
        let rest = ids_below(keys, (n - 1) as nat);
        if keys.contains((n - 1) as u8) {
            rest.push((n - 1) as u8)
        } else {
            rest
        }
    }
}

/// A copy of a server's info.
fn copy_info(info: &ServerInfo) -> (c: ServerInfo)
    ensures
        c == *info,
{
    ServerInfo {
        server_id: info.server_id,
        server_name: info.server_name.clone(),
        map_name: info.map_name.clone(),
        max_players: info.max_players,
        current_players: info.current_players,
        connected_at: info.connected_at.clone(),
        last_heartbeat: info.last_heartbeat.clone(),
    }
}

/// The last `limit` elements of `s` (all of them when there are fewer).
pub open spec fn trimmed<T>(s: Seq<T>, limit: int) -> Seq<T> {
    if s.len() > limit {
        s.subrange(s.len() - limit, s.len() as int)
    } else {
        s
    }
}

} // verus!
