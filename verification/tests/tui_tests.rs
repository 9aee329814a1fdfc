use std::time::Instant;
use tf2_server_relay::config::Config;
use tf2_server_relay::connection::ServerInfo;
use tf2_server_relay::events::{Event, HeartbeatEvent};
use tf2_server_relay::relay::RecordedEvent;
use tf2_server_relay::tui::{
    age_label, events_title, overlay_area, server_lines, settings_lines, total_players, uptime_text, visible_range, AppState, Key,
    Panel,
};

fn recorded(server_id: u8) -> RecordedEvent {
    RecordedEvent {
        server_id,
        event: Event::Heartbeat(HeartbeatEvent { timestamp: 0, current_players: 0 }),
        timestamp: Instant::now(),
    }
}

fn with_events(ids: &[u8]) -> AppState {
    let mut s = AppState::new();
    for &id in ids {
        s.receive(recorded(id));
    }
    s
}

#[test]
fn quit_keys() {
    for (key, ctrl) in [(Key::Char('q'), false), (Key::Char('Q'), false), (Key::Esc, false), (Key::Char('c'), true)] {
        let mut s = AppState::new();
        s.handle_key(key, ctrl);
        assert!(s.should_quit);
    }
}

#[test]
fn pause_stops_the_feed() {
    let mut s = AppState::new();
    s.handle_key(Key::Char('p'), false);
    assert!(s.paused);
    s.receive(recorded(1));
    assert!(s.events.is_empty());
    s.handle_key(Key::Char('P'), false);
    s.receive(recorded(1));
    assert_eq!(s.events.len(), 1);
}

#[test]
fn clear_key_empties_the_feed() {
    let mut s = with_events(&[1, 2, 3]);
    s.handle_key(Key::Up, false);
    s.handle_key(Key::Char('c'), false);
    assert!(s.events.is_empty());
    assert_eq!(s.events_scroll, 0);
    assert!(!s.should_quit);
}

#[test]
fn tab_cycles_panels() {
    let mut s = AppState::new();
    assert_eq!(s.focused_panel, Panel::Events);
    s.handle_key(Key::Tab, false);
    assert_eq!(s.focused_panel, Panel::Stats);
    s.handle_key(Key::Tab, false);
    assert_eq!(s.focused_panel, Panel::Servers);
    s.handle_key(Key::Tab, false);
    assert_eq!(s.focused_panel, Panel::Events);
}

#[test]
fn server_selection_keys() {
    let mut s = AppState::new();
    s.handle_key(Key::Char('3'), false);
    assert_eq!(s.selected_server, 3);
    s.handle_key(Key::Char('a'), false);
    assert_eq!(s.selected_server, 0);
    s.handle_key(Key::Char('9'), false);
    assert_eq!(s.selected_server, 0);
}

#[test]
fn scrolling_stays_within_the_feed() {
    let mut s = with_events(&[1, 1, 1, 1, 1]);
    s.handle_key(Key::PageUp, false);
    assert_eq!(s.events_scroll, 4);
    s.handle_key(Key::Up, false);
    assert_eq!(s.events_scroll, 4);
    s.handle_key(Key::Down, false);
    assert_eq!(s.events_scroll, 3);
    s.handle_key(Key::PageDown, false);
    assert_eq!(s.events_scroll, 0);
    s.handle_key(Key::Home, false);
    assert_eq!(s.events_scroll, 4);
    s.handle_key(Key::End, false);
    assert_eq!(s.events_scroll, 0);
}

#[test]
fn overlays_take_the_keys() {
    let mut s = AppState::new();
    s.handle_key(Key::Char('?'), false);
    assert!(s.show_help);
    s.handle_key(Key::Char('q'), false);
    assert!(!s.show_help);
    assert!(!s.should_quit);
    s.handle_key(Key::F(2), false);
    assert!(s.show_settings);
    s.handle_key(Key::Char('q'), false);
    assert!(s.show_settings && !s.should_quit);
    s.handle_key(Key::Esc, false);
    assert!(!s.show_settings && !s.should_quit);
}

#[test]
fn trim_keeps_newest() {
    let mut s = with_events(&[1, 2, 3, 4]);
    s.trim_events(2);
    let ids: Vec<u8> = s.events.iter().map(|e| e.server_id).collect();
    assert_eq!(ids, vec![3, 4]);
}

#[test]
fn visible_range_examples() {
    assert_eq!(visible_range(3, 10, 0), (0, 3));
    assert_eq!(visible_range(20, 5, 0), (15, 20));
    assert_eq!(visible_range(20, 5, 3), (12, 17));
    assert_eq!(visible_range(20, 5, 100), (0, 5));
}

#[test]
fn visible_indices_filter_by_server() {
    let mut s = with_events(&[1, 2, 1, 2, 1]);
    s.handle_key(Key::Char('2'), false);
    assert_eq!(s.visible_event_indices(10), vec![1, 3]);
    s.handle_key(Key::Char('0'), false);
    assert_eq!(s.visible_event_indices(2), vec![3, 4]);
}

#[test]
fn labels() {
    assert_eq!(age_label(5), " 5s ");
    assert_eq!(age_label(59), "59s ");
    assert_eq!(age_label(125), " 2m ");
    assert_eq!(uptime_text(3725), "01:02:05");
    assert_eq!(uptime_text(360000), "100:00:00");
    assert_eq!(events_title(0), " Events (All) ");
    assert_eq!(events_title(2), " Events (Server 2) ");
}

#[test]
fn settings_panel_text() {
    let config = Config::default();
    let lines = settings_lines(&config);
    assert_eq!(lines.len(), 11);
    assert_eq!(lines[2], "  Bind Address: 0.0.0.0:27050");
    assert_eq!(lines[3], "  Max Servers: 4");
    assert_eq!(lines[4], "  Heartbeat: 1000ms");
    assert_eq!(lines[6], "  Broadcast Chat: Yes");
}

#[test]
fn overlay_is_centred() {
    assert_eq!(overlay_area(100, 40, 44, 17), (28, 11, 44, 17));
    assert_eq!(overlay_area(30, 10, 44, 17), (0, 0, 30, 10));
}

#[test]
fn players_add_up() {
    let now = Instant::now();
    let mk = |id: u8, n: u8| ServerInfo {
        server_id: id,
        server_name: String::new(),
        map_name: String::new(),
        max_players: 24,
        current_players: n,
        connected_at: now,
        last_heartbeat: now,
    };
    assert_eq!(total_players(&vec![mk(1, 5), mk(2, 7)]), 12);
    assert_eq!(total_players(&vec![]), 0);
}

#[test]
fn server_panel_text() {
    let now = Instant::now();
    let info = ServerInfo {
        server_id: 3,
        server_name: "Gamma".to_string(),
        map_name: "cp_badlands".to_string(),
        max_players: 24,
        current_players: 17,
        connected_at: now,
        last_heartbeat: now,
    };
    assert_eq!(server_lines(&info, 3), vec!["▶ ", "Server 3 ", "  Gamma", "  cp_badlands", "  Players: 17/24"]);
    assert_eq!(server_lines(&info, 0)[0], "  ");
}
