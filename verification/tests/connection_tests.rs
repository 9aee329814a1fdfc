use bytes::Bytes;
use std::time::Instant;
use tf2_server_relay::config::Config;
use tf2_server_relay::connection::{ConnectionState, ServerInfo, Session};
use tf2_server_relay::error::RelayError;
use tf2_server_relay::events::{
    ghost, system, Event, HandshakeEvent, HealRequestEvent, HeartbeatEvent, MapChangeEvent, PlayerConnectEvent,
    PlayerDisconnectEvent,
};
use tf2_server_relay::protocol::Packet;
use tf2_server_relay::relay::Relay;

fn handshake(id: u8) -> Event {
    Event::Handshake(HandshakeEvent {
        server_id: id,
        server_name: "Alpha".to_string(),
        map_name: "pl_upward".to_string(),
        max_players: 24,
        current_players: 3,
    })
}

fn info(id: u8) -> ServerInfo {
    let now = Instant::now();
    ServerInfo {
        server_id: id,
        server_name: "S".to_string(),
        map_name: "m".to_string(),
        max_players: 24,
        current_players: 0,
        connected_at: now,
        last_heartbeat: now,
    }
}

fn connected_session(relay: &mut Relay, id: u8) -> Session {
    let mut s = Session::new();
    let out = s.process_handshake(handshake(id), relay, 4, Instant::now());
    assert!(out.result.is_ok());
    relay.register_server(id, s.server_info.clone().unwrap()).unwrap();
    s
}

#[test]
fn handshake_accepts_a_free_id() {
    let config = Config::default();
    let relay = Relay::new(&config);
    let mut s = Session::new();
    let out = s.process_handshake(handshake(2), &relay, 4, Instant::now());
    assert!(out.result.is_ok());
    assert_eq!(s.state, ConnectionState::Connected);
    let info = s.server_info.as_ref().unwrap();
    assert_eq!(info.server_id, 2);
    assert_eq!(info.server_name, "Alpha");
    assert_eq!(info.current_players, 3);
    let ack = Packet::parse(&out.reply.unwrap()).unwrap();
    assert_eq!(ack.packet_type(), system::HANDSHAKE_ACK);
    assert_eq!(ack.header.sequence, 0);
    assert_eq!(ack.payload, Bytes::from_static(&[1, 2, 1]));
    assert_eq!(s.sequence, 1);
}

#[test]
fn handshake_refuses_out_of_range_id() {
    let config = Config::default();
    let relay = Relay::new(&config);
    let mut s = Session::new();
    let out = s.process_handshake(handshake(5), &relay, 4, Instant::now());
    match out.result {
        Err(RelayError::MalformedPacket { reason }) => assert_eq!(reason, "Invalid server ID 5"),
        _ => panic!("expected a malformed packet"),
    }
    let ack = Packet::parse(&out.reply.unwrap()).unwrap();
    assert_eq!(ack.payload, Bytes::from_static(&[0, 0, 0]));
    assert_eq!(s.state, ConnectionState::Handshaking);
    assert!(s.server_info.is_none());
}

#[test]
fn handshake_refuses_duplicate_id() {
    let config = Config::default();
    let mut relay = Relay::new(&config);
    relay.register_server(1, info(1)).unwrap();
    let mut s = Session::new();
    let out = s.process_handshake(handshake(1), &relay, 4, Instant::now());
    assert!(matches!(out.result, Err(RelayError::DuplicateId { id: 1 })));
    let ack = Packet::parse(&out.reply.unwrap()).unwrap();
    assert_eq!(ack.payload, Bytes::from_static(&[0, 0, 1]));
}

#[test]
fn handshake_expected_first() {
    let config = Config::default();
    let relay = Relay::new(&config);
    let mut s = Session::new();
    let hb = Event::Heartbeat(HeartbeatEvent { timestamp: 1, current_players: 0 });
    let out = s.process_handshake(hb, &relay, 4, Instant::now());
    assert!(out.reply.is_none());
    match out.result {
        Err(RelayError::MalformedPacket { reason }) => assert_eq!(reason, "Expected handshake packet"),
        _ => panic!("expected a malformed packet"),
    }
}

#[test]
fn sequence_numbers_wrap() {
    let mut s = Session::new();
    s.sequence = u16::MAX;
    assert_eq!(s.next_sequence(), u16::MAX);
    assert_eq!(s.next_sequence(), 0);
}

#[test]
fn heartbeat_is_answered_and_updates_info() {
    let config = Config::default();
    let mut relay = Relay::new(&config);
    let mut s = connected_session(&mut relay, 1);
    let hb = Event::Heartbeat(HeartbeatEvent { timestamp: 0xAABBCCDD, current_players: 9 });
    let out = s.process_packet(&mut relay, &config, 1, hb, Instant::now());
    assert!(out.heartbeat);
    assert!(out.deliveries.is_empty());
    let ack = Packet::parse(&out.reply.unwrap()).unwrap();
    assert_eq!(ack.packet_type(), system::HEARTBEAT_ACK);
    assert_eq!(ack.header.sequence, 1);
    assert_eq!(ack.payload, Bytes::from_static(&[0xDD, 0xCC, 0xBB, 0xAA, 1]));
    assert_eq!(s.server_info.as_ref().unwrap().current_players, 9);
    assert_eq!(relay.get_event_history().len(), 1);
    assert_eq!(relay.get_event_history()[0].server_id, 1);
}

#[test]
fn map_change_updates_info_and_is_broadcast() {
    let config = Config::default();
    let mut relay = Relay::new(&config);
    let mut s = connected_session(&mut relay, 1);
    let _other = connected_session(&mut relay, 2);
    let mc = Event::MapChange(MapChangeEvent { old_map: "a".to_string(), new_map: "koth_viaduct".to_string() });
    let out = s.process_packet(&mut relay, &config, 1, mc, Instant::now());
    assert!(out.reply.is_none());
    assert_eq!(out.deliveries.len(), 1);
    assert_eq!(out.deliveries[0].server_id, 2);
    assert_eq!(s.server_info.as_ref().unwrap().map_name, "koth_viaduct");
}

#[test]
fn players_are_registered_and_forgotten() {
    let config = Config::default();
    let mut relay = Relay::new(&config);
    let mut s = connected_session(&mut relay, 1);
    let pc = Event::PlayerConnect(PlayerConnectEvent { player_name: "Heavy".to_string(), steam_id: 42, ip_hash: 0 });
    s.process_packet(&mut relay, &config, 1, pc, Instant::now());
    assert_eq!(relay.get_player_server(42), Some(1));
    let pd = Event::PlayerDisconnect(PlayerDisconnectEvent {
        player_name: "Heavy".to_string(),
        steam_id: 42,
        reason: "bye".to_string(),
    });
    s.process_packet(&mut relay, &config, 1, pd, Instant::now());
    assert_eq!(relay.get_player_server(42), None);
}

fn heal(target: u64) -> Event {
    Event::HealRequest(HealRequestEvent {
        healer_steam_id: 1,
        target_steam_id: target,
        heal_amount: 24,
        heal_rate: 1,
        medigun_type: 0,
        is_healing: true,
    })
}

#[test]
fn heal_request_goes_to_the_target_server() {
    let config = Config::default();
    let mut relay = Relay::new(&config);
    let mut s = connected_session(&mut relay, 1);
    let _two = connected_session(&mut relay, 2);
    let _three = connected_session(&mut relay, 3);
    relay.register_player(500, 3);
    let out = s.process_packet(&mut relay, &config, 1, heal(500), Instant::now());
    assert_eq!(out.deliveries.len(), 1);
    assert_eq!(out.deliveries[0].server_id, 3);
    let p = Packet::parse(&out.deliveries[0].data).unwrap();
    assert_eq!(p.packet_type(), ghost::HEAL_REQUEST);
    assert_eq!(p.server_id(), 0);
    assert_eq!(relay.total_events(), 0);
}

#[test]
fn heal_request_for_unknown_target_is_broadcast() {
    let config = Config::default();
    let mut relay = Relay::new(&config);
    let mut s = connected_session(&mut relay, 1);
    let _two = connected_session(&mut relay, 2);
    let _three = connected_session(&mut relay, 3);
    let out = s.process_packet(&mut relay, &config, 1, heal(501), Instant::now());
    assert_eq!(out.deliveries.len(), 2);
    assert_eq!(relay.total_events(), 1);
}

#[test]
fn heal_request_for_local_target_stays() {
    let config = Config::default();
    let mut relay = Relay::new(&config);
    let mut s = connected_session(&mut relay, 1);
    let _two = connected_session(&mut relay, 2);
    relay.register_player(502, 1);
    let out = s.process_packet(&mut relay, &config, 1, heal(502), Instant::now());
    assert!(out.deliveries.is_empty());
}

#[test]
fn heal_request_ignored_when_disabled() {
    let mut config = Config::default();
    config.relay.enable_cross_healing = false;
    let mut relay = Relay::new(&config);
    let mut s = connected_session(&mut relay, 1);
    let _two = connected_session(&mut relay, 2);
    let out = s.process_packet(&mut relay, &config, 1, heal(503), Instant::now());
    assert!(out.deliveries.is_empty());
    assert_eq!(relay.get_event_history().len(), 1);
}
