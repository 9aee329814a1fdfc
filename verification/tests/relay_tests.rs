use bytes::Bytes;
use std::time::Instant;
use tf2_server_relay::config::Config;
use tf2_server_relay::connection::ServerInfo;
use tf2_server_relay::error::RelayError;
use tf2_server_relay::events::{system, ChatMessageEvent, Event, HeartbeatEvent};
use tf2_server_relay::protocol::Packet;
use tf2_server_relay::relay::Relay;

fn info(id: u8, name: &str) -> ServerInfo {
    let now = Instant::now();
    ServerInfo {
        server_id: id,
        server_name: name.to_string(),
        map_name: "cp_dustbowl".to_string(),
        max_players: 24,
        current_players: 0,
        connected_at: now,
        last_heartbeat: now,
    }
}

fn chat() -> Event {
    Event::ChatMessage(ChatMessageEvent {
        player_name: "Scout".to_string(),
        steam_id: 5,
        team: 2,
        chat_type: 0,
        message: "hi".to_string(),
    })
}

#[test]
fn test_relay_creation() {
    let config = Config::default();
    let relay = Relay::new(&config);

    assert_eq!(relay.connected_count(), 0);
}

#[test]
fn test_player_registration() {
    let config = Config::default();
    let mut relay = Relay::new(&config);

    relay.register_player(76561198000000000, 1);
    assert_eq!(relay.get_player_server(76561198000000000), Some(1));

    relay.unregister_player(76561198000000000);
    assert_eq!(relay.get_player_server(76561198000000000), None);
}

#[test]
fn register_announces_to_the_others() {
    let config = Config::default();
    let mut relay = Relay::new(&config);
    assert!(relay.register_server(1, info(1, "One")).unwrap().is_empty());
    let ds = relay.register_server(2, info(2, "Two")).unwrap();
    assert_eq!(ds.len(), 1);
    assert_eq!(ds[0].server_id, 1);
    let p = Packet::parse(&ds[0].data).unwrap();
    assert_eq!(p.packet_type(), system::SERVER_CONNECT);
    assert_eq!(p.payload, Bytes::from_static(&[2, 3, b'T', b'w', b'o']));
    assert!(relay.is_server_connected(2));
    assert_eq!(relay.connected_count(), 2);
}

#[test]
fn duplicate_registration_is_refused() {
    let config = Config::default();
    let mut relay = Relay::new(&config);
    relay.register_server(3, info(3, "A")).unwrap();
    assert!(matches!(relay.register_server(3, info(3, "B")), Err(RelayError::DuplicateId { id: 3 })));
    assert_eq!(relay.get_servers()[0].server_name, "A");
}

#[test]
fn unregister_tells_others_and_forgets_players() {
    let config = Config::default();
    let mut relay = Relay::new(&config);
    relay.register_server(1, info(1, "One")).unwrap();
    relay.register_server(2, info(2, "Two")).unwrap();
    relay.register_player(10, 1);
    relay.register_player(11, 2);
    let ds = relay.unregister_server(1);
    assert_eq!(ds.len(), 1);
    assert_eq!(ds[0].server_id, 2);
    let p = Packet::parse(&ds[0].data).unwrap();
    assert_eq!(p.packet_type(), system::SERVER_DISCONNECT);
    assert_eq!(relay.get_player_server(10), None);
    assert_eq!(relay.get_player_server(11), Some(2));
    assert!(relay.unregister_server(1).is_empty());
}

#[test]
fn broadcast_skips_origin_and_counts() {
    let config = Config::default();
    let mut relay = Relay::new(&config);
    for id in 1..=3 {
        relay.register_server(id, info(id, "S")).unwrap();
    }
    let ds = relay.broadcast(2, &chat());
    let mut ids: Vec<u8> = ds.iter().map(|d| d.server_id).collect();
    ids.sort();
    assert_eq!(ids, vec![1, 3]);
    let p = Packet::parse(&ds[0].data).unwrap();
    assert_eq!(p.server_id(), 2);
    assert_eq!(relay.total_events(), 1);
    assert_eq!(relay.bytes_transferred(), ds[0].data.len() as u64);
}

#[test]
fn broadcast_respects_switches() {
    let mut config = Config::default();
    config.relay.broadcast_chat = false;
    let mut relay = Relay::new(&config);
    relay.register_server(1, info(1, "S")).unwrap();
    relay.register_server(2, info(2, "S")).unwrap();
    assert!(relay.broadcast(1, &chat()).is_empty());
    assert_eq!(relay.total_events(), 0);
    let hb = Event::Heartbeat(HeartbeatEvent { timestamp: 1, current_players: 0 });
    assert_eq!(relay.broadcast(1, &hb).len(), 1);
}

#[test]
fn send_to_missing_server_fails() {
    let config = Config::default();
    let relay = Relay::new(&config);
    match relay.send_to_server(4, &chat()) {
        Err(RelayError::InternalError { message }) => assert_eq!(message, "Server 4 not connected"),
        _ => panic!("expected an internal error"),
    }
}

#[test]
fn route_to_player_finds_the_server() {
    let config = Config::default();
    let mut relay = Relay::new(&config);
    relay.register_server(2, info(2, "S")).unwrap();
    relay.register_player(77, 2);
    let d = relay.route_to_player(77, &chat()).unwrap();
    assert_eq!(d.server_id, 2);
    match relay.route_to_player(78, &chat()) {
        Err(RelayError::InternalError { message }) => assert_eq!(message, "Player 78 not found"),
        _ => panic!("expected an internal error"),
    }
}

#[test]
fn history_keeps_the_newest() {
    let mut config = Config::default();
    config.tui.max_event_history = 2;
    let mut relay = Relay::new(&config);
    let now = Instant::now();
    for id in 1..=3u8 {
        relay.record_event(id, chat(), now);
    }
    let h = relay.get_event_history();
    assert_eq!(h.len(), 2);
    assert_eq!(h[0].server_id, 2);
    assert_eq!(h[1].server_id, 3);
    relay.clear_event_history();
    assert!(relay.get_event_history().is_empty());
}

#[test]
fn servers_come_in_id_order() {
    let config = Config::default();
    let mut relay = Relay::new(&config);
    relay.register_server(4, info(4, "D")).unwrap();
    relay.register_server(1, info(1, "A")).unwrap();
    relay.register_server(3, info(3, "C")).unwrap();
    let names: Vec<String> = relay.get_servers().into_iter().map(|s| s.server_name).collect();
    assert_eq!(names, vec!["A", "C", "D"]);
    assert!(relay.has_room(4));
    assert!(!relay.has_room(3));
}
