use bytes::Bytes;
use tf2_server_relay::error::RelayError;
use tf2_server_relay::events::{
    chat, gameplay, system, ChatMessageEvent, Event, HandshakeEvent, HeartbeatEvent, MapChangeEvent,
    PlayerDeathEvent, Team, TfClass,
};

#[test]
fn test_chat_message_roundtrip() {
    let event = ChatMessageEvent {
        player_name: "TestPlayer".to_string(),
        steam_id: 76561198000000000,
        team: 2,
        chat_type: 0,
        message: "Hello, world!".to_string(),
    };

    let mut buf: Vec<u8> = Vec::new();
    event.serialize(&mut buf);

    let (parsed, _) = ChatMessageEvent::parse(&buf).unwrap();
    assert_eq!(parsed.player_name, event.player_name);
    assert_eq!(parsed.steam_id, event.steam_id);
    assert_eq!(parsed.message, event.message);
}

#[test]
fn test_player_death_flags() {
    let event = PlayerDeathEvent {
        victim_name: "Victim".to_string(),
        victim_steam_id: 1,
        victim_team: 2,
        victim_class: 1,
        attacker_name: "Attacker".to_string(),
        attacker_steam_id: 2,
        attacker_team: 3,
        attacker_class: 2,
        weapon: "sniperrifle".to_string(),
        crit_type: 0,
        death_flags: 0x0001, // HEADSHOT
    };

    assert!(event.is_headshot());
    assert!(!event.is_backstab());
}

#[test]
fn test_team_display() {
    assert_eq!(Team::Red.to_string(), "RED");
    assert_eq!(Team::Blu.to_string(), "BLU");
}

#[test]
fn test_class_display() {
    assert_eq!(TfClass::Medic.to_string(), "Medic");
    assert_eq!(TfClass::from_u8(5), TfClass::Medic);
}

#[test]
fn team_ids_and_colors() {
    assert_eq!(Team::from_u8(0), Team::Unassigned);
    assert_eq!(Team::from_u8(1), Team::Spectator);
    assert_eq!(Team::from_u8(2), Team::Red);
    assert_eq!(Team::from_u8(3), Team::Blu);
    assert_eq!(Team::from_u8(200), Team::Unassigned);
    assert_eq!(Team::Red.color(), 0xBD3B3B);
    assert_eq!(Team::Blu.color(), 0x5B8DD8);
    assert_eq!(Team::Spectator.to_string(), "Spectator");
}

#[test]
fn class_ids() {
    assert_eq!(TfClass::from_u8(1), TfClass::Scout);
    assert_eq!(TfClass::from_u8(9), TfClass::Engineer);
    assert_eq!(TfClass::from_u8(0), TfClass::Unknown);
    assert_eq!(TfClass::from_u8(10), TfClass::Unknown);
    assert_eq!(TfClass::Engineer.to_string(), "Engineer");
}

#[test]
fn death_flags_each_bit() {
    let mut e = PlayerDeathEvent {
        victim_name: "v".to_string(),
        victim_steam_id: 1,
        victim_team: 2,
        victim_class: 1,
        attacker_name: "a".to_string(),
        attacker_steam_id: 2,
        attacker_team: 3,
        attacker_class: 2,
        weapon: "knife".to_string(),
        crit_type: 0,
        death_flags: 0x0002,
    };
    assert!(e.is_backstab() && !e.is_headshot());
    e.death_flags = 0x0008;
    assert!(e.is_domination() && !e.is_revenge());
    e.death_flags = 0x0010;
    assert!(e.is_revenge() && !e.is_domination());
}

#[test]
fn event_roundtrip_through_bytes() {
    let event = Event::Handshake(HandshakeEvent {
        server_id: 2,
        server_name: "Two".to_string(),
        map_name: "ctf_2fort".to_string(),
        max_players: 24,
        current_players: 7,
    });
    let payload = event.serialize();
    assert_eq!(&payload[..], &[2, 3, b'T', b'w', b'o', 9, b'c', b't', b'f', b'_', b'2', b'f', b'o', b'r', b't', 24, 7]);
    match Event::parse(event.event_type(), payload).unwrap() {
        Event::Handshake(h) => {
            assert_eq!(h.server_id, 2);
            assert_eq!(h.server_name, "Two");
            assert_eq!(h.map_name, "ctf_2fort");
            assert_eq!(h.max_players, 24);
            assert_eq!(h.current_players, 7);
        }
        _ => panic!("wrong variant"),
    }
}

#[test]
fn heartbeat_wire_layout() {
    let hb = HeartbeatEvent { timestamp: 0x01020304, current_players: 5 };
    let mut buf: Vec<u8> = Vec::new();
    hb.serialize(&mut buf);
    assert_eq!(buf, vec![4, 3, 2, 1, 5]);
}

#[test]
fn short_payload_is_malformed() {
    let r = Event::parse(system::HEARTBEAT, Bytes::from_static(&[1, 2]));
    match r {
        Err(RelayError::MalformedPacket { reason }) => assert_eq!(reason, "Heartbeat too short"),
        _ => panic!("expected a malformed packet"),
    }
}

#[test]
fn unknown_type_keeps_payload() {
    let r = Event::parse(0xEE, Bytes::from_static(&[1, 2, 3])).unwrap();
    assert_eq!(r.event_type(), 0xEE);
    assert_eq!(r.serialize(), Bytes::from_static(&[1, 2, 3]));
    assert!(!r.is_broadcastable());
    assert_eq!(r.description(), "Unknown event 0xEE");
}

#[test]
fn descriptions() {
    let chat = Event::ChatMessage(ChatMessageEvent {
        player_name: "Pyro".to_string(),
        steam_id: 1,
        team: 3,
        chat_type: 0,
        message: "mmph".to_string(),
    });
    assert_eq!(chat.description(), "[BLU] Pyro: mmph");
    assert_eq!(chat.event_type(), chat::CHAT_MESSAGE);
    assert!(chat.is_broadcastable());
    let map = Event::MapChange(MapChangeEvent { old_map: "a".to_string(), new_map: "b".to_string() });
    assert_eq!(map.description(), "Map change: a → b");
}

#[test]
fn parse_panic_check() {
    // A handshake whose two names fit but whose two counters are missing.
    assert!(Event::parse_would_panic(system::HANDSHAKE, &[1, 0, 0]));
    assert!(!Event::parse_would_panic(system::HANDSHAKE, &[1, 0, 0, 4, 7]));
    assert!(Event::parse_would_panic(gameplay::PLAYER_HURT, &[0u8; 23]));
    assert!(!Event::parse_would_panic(gameplay::PLAYER_HURT, &[0u8; 25]));
    assert!(!Event::parse_would_panic(system::HEARTBEAT, &[]));
}
