//! State and decisions of the terminal monitoring interface: what each key
//! does, which events the feed keeps and shows, and the text of the panels
//! that is computed rather than fixed.
//!
//! Drawing on the terminal, reading keys and the clock belong to the program
//! around it.

use vstd::prelude::*;
use vstd::string::StringExecFns;

use crate::config::Config;
use crate::connection::ServerInfo;
use crate::relay::{trimmed, RecordedEvent};
use crate::text::{decimal, decimal_string, push_text};

verus! {

/// Panel identifiers.
#[derive(Debug, Clone, Copy, PartialEq, Eq, Structural)]
pub enum Panel {
    Servers,
    Events,
    Stats,
}

/// The panel that Tab moves the focus to.
pub open spec fn next_panel(p: Panel) -> Panel {
    match p {
        Panel::Servers => Panel::Events,
        Panel::Events => Panel::Stats,
        Panel::Stats => Panel::Servers,
    }
}

impl Panel {
    /// The panel that Tab moves the focus to.
    pub fn next(self) -> (n: Panel)
        ensures
            n == next_panel(self),
    {
        match self {
            Panel::Servers => Panel::Events,
            Panel::Events => Panel::Stats,
            Panel::Stats => Panel::Servers,
        }
    }
}

/// A key press, as far as the interface tells keys apart.
#[derive(Debug, Clone, Copy, PartialEq, Eq, Structural)]
pub enum Key {
    Char(char),
    Esc,
    Tab,
    Up,
    Down,
    PageUp,
    PageDown,
    Home,
    End,
    F(u8),
    Other,
}

/// The interface's settings that keys change.
#[derive(Debug, Clone, Copy, PartialEq, Eq, Structural)]
pub struct Controls {
    /// Whether the app should quit.
    pub should_quit: bool,
    /// Whether the event feed is paused.
    pub paused: bool,
    /// Currently focused panel.
    pub focused_panel: Panel,
    /// Scroll offset for events panel, counted back from the newest event.
    pub events_scroll: usize,
    /// Selected server (1-4, 0 for all).
    pub selected_server: u8,
    /// Show help overlay.
    pub show_help: bool,
    /// Show settings panel.
    pub show_settings: bool,
}

/// The largest scroll offset for a feed of `len` events.
pub open spec fn top_scroll(len: nat) -> nat {
    if len == 0 { 0 } else { (len - 1) as nat }
}

/// The scroll offset after a navigation key, with `len` events in the feed:
/// Up and Down move by one, PageUp and PageDown by ten, Home to the oldest
/// event and End to the newest, never beyond either end.
pub open spec fn scroll_after(scroll: usize, len: nat, key: Key) -> usize {
    let top = top_scroll(len);
    match key {
        Key::Up => if scroll < top { (scroll + 1) as usize } else { scroll },
        Key::Down => if scroll > 0 { (scroll - 1) as usize } else { scroll },
        Key::PageUp => {
            let up = if scroll + 10 > usize::MAX { usize::MAX as int } else { scroll + 10 };
            if up < top { up as usize } else { top as usize }
        },
        Key::PageDown => if scroll >= 10 { (scroll - 10) as usize } else { 0 },
        Key::Home => top as usize,
        Key::End => 0,
        _ => scroll,
    }
}

/// The server that a digit key selects (0 for all servers).
pub open spec fn selection_key(ch: char) -> Option<u8> {
    if ch == '1' {
        Some(1u8)
    } else if ch == '2' {
        Some(2u8)
    } else if ch == '3' {
        Some(3u8)
    } else if ch == '4' {
        Some(4u8)
    } else if ch == '0' || ch == 'a' || ch == 'A' {
        Some(0u8)
    } else {
        None
    }
}

/// Whether a key with no overlay open clears the feed: `c` without Control,
/// or `C`.
pub open spec fn clear_key(key: Key, ctrl: bool) -> bool {
    key matches Key::Char(ch) && ((ch == 'c' && !ctrl) || ch == 'C')
}

/// What a key press does to the controls, with `len` events in the feed.
/// With the help overlay open any key closes it; with the settings panel
/// open only Esc and F2 close it; otherwise Q, Control-C and Esc quit, P
/// pauses or resumes, C clears, Tab moves the focus, 1-4 select a server and
/// 0 or A all of them, the navigation keys scroll, ? and F1 open the help and
/// F2 the settings.
pub open spec fn key_outcome(c: Controls, len: nat, key: Key, ctrl: bool) -> Controls {
    if c.show_help {
        Controls { show_help: false, ..c }
    } else if c.show_settings {
        if key == Key::Esc || key == Key::F(2) {
            Controls { show_settings: false, ..c }
        } else {
            c
        }
    } else {
        match key {
            Key::Char(ch) => if ch == 'q' || ch == 'Q' || (ch == 'c' && ctrl) {
                Controls { should_quit: true, ..c }
            } else if ch == 'p' || ch == 'P' {
                Controls { paused: !c.paused, ..c }
            } else if ch == 'c' || ch == 'C' {
                Controls { events_scroll: 0, ..c }
            } else if selection_key(ch) is Some {
                Controls { selected_server: selection_key(ch)->0, ..c }
            } else if ch == '?' {
                Controls { show_help: true, ..c }
            } else {
                c
            },
            Key::Esc => Controls { should_quit: true, ..c },
            Key::Tab => Controls { focused_panel: next_panel(c.focused_panel), ..c },
            Key::F(n) => if n == 1 {
                Controls { show_help: true, ..c }
            } else if n == 2 {
                Controls { show_settings: true, ..c }
            } else {
                c
            },
            Key::Other => c,
            _ => Controls { events_scroll: scroll_after(c.events_scroll, len, key), ..c },
        }
    }
}

/// Keys never scroll the feed beyond its oldest event.
pub proof fn lemma_scroll_stays_in_range(c: Controls, len: nat, key: Key, ctrl: bool)
    requires
        c.events_scroll <= top_scroll(len),
        len <= usize::MAX,
    ensures
        key_outcome(c, len, key, ctrl).events_scroll <= top_scroll(len),
{
}

/// What keys do with no overlay open: Q, Esc and Control-C quit; P flips the
/// pause; C (or c without Control) goes back to the newest event and clears
/// the feed while Control-C does not; digits 1 to 4 select that server and 0
/// or A all of them; Tab moves the focus; ? and F1 open the help and F2 the
/// settings; Up and Down move one event back and forward, Home to the oldest
/// and End to the newest, PageUp ten back (at most to the oldest) and
/// PageDown ten forward (at most to the newest).
pub proof fn lemma_key_effects(c: Controls, len: nat, ctrl: bool)
    requires
        !c.show_help,
        !c.show_settings,
        c.events_scroll <= top_scroll(len),
        len <= usize::MAX,
    ensures
        key_outcome(c, len, Key::Char('q'), ctrl).should_quit,
        key_outcome(c, len, Key::Char('Q'), ctrl).should_quit,
        key_outcome(c, len, Key::Esc, ctrl).should_quit,
        key_outcome(c, len, Key::Char('c'), true).should_quit,
        !clear_key(Key::Char('c'), true),
        clear_key(Key::Char('c'), false) && clear_key(Key::Char('C'), ctrl),
        key_outcome(c, len, Key::Char('c'), false) == (Controls { events_scroll: 0, ..c }),
        key_outcome(c, len, Key::Char('p'), ctrl) == (Controls { paused: !c.paused, ..c }),
        key_outcome(c, len, Key::Char('P'), ctrl) == (Controls { paused: !c.paused, ..c }),
        key_outcome(c, len, Key::Char('1'), ctrl) == (Controls { selected_server: 1, ..c }),
        key_outcome(c, len, Key::Char('2'), ctrl) == (Controls { selected_server: 2, ..c }),
        key_outcome(c, len, Key::Char('3'), ctrl) == (Controls { selected_server: 3, ..c }),
        key_outcome(c, len, Key::Char('4'), ctrl) == (Controls { selected_server: 4, ..c }),
        key_outcome(c, len, Key::Char('0'), ctrl) == (Controls { selected_server: 0, ..c }),
        key_outcome(c, len, Key::Char('a'), ctrl) == (Controls { selected_server: 0, ..c }),
        key_outcome(c, len, Key::Char('A'), ctrl) == (Controls { selected_server: 0, ..c }),
        key_outcome(c, len, Key::Tab, ctrl) == (Controls { focused_panel: next_panel(c.focused_panel), ..c }),
        key_outcome(c, len, Key::Char('?'), ctrl) == (Controls { show_help: true, ..c }),
        key_outcome(c, len, Key::F(1), ctrl) == (Controls { show_help: true, ..c }),
        key_outcome(c, len, Key::F(2), ctrl) == (Controls { show_settings: true, ..c }),
        c.events_scroll + 1 <= top_scroll(len) ==> key_outcome(c, len, Key::Up, ctrl).events_scroll
            == c.events_scroll + 1,
        c.events_scroll == top_scroll(len) ==> key_outcome(c, len, Key::Up, ctrl).events_scroll == c.events_scroll,
        c.events_scroll > 0 ==> key_outcome(c, len, Key::Down, ctrl).events_scroll == c.events_scroll - 1,
        c.events_scroll == 0 ==> key_outcome(c, len, Key::Down, ctrl).events_scroll == 0,
        key_outcome(c, len, Key::Home, ctrl).events_scroll == top_scroll(len),
        key_outcome(c, len, Key::End, ctrl).events_scroll == 0,
        key_outcome(c, len, Key::PageUp, ctrl).events_scroll == if c.events_scroll + 10 <= top_scroll(len) {
            c.events_scroll + 10
        } else {
            top_scroll(len) as int
        },
        key_outcome(c, len, Key::PageDown, ctrl).events_scroll == if c.events_scroll >= 10 {
            c.events_scroll - 10
        } else {
            0
        },
        key_outcome(c, len, Key::Up, ctrl) == (Controls {
            events_scroll: key_outcome(c, len, Key::Up, ctrl).events_scroll,
            ..c
        }),
{
}

/// An open help overlay takes any key and only closes; an open settings
/// panel closes on Esc or F2 and takes every other key without effect (Q
/// does not quit there).
pub proof fn lemma_overlays_take_keys(c: Controls, len: nat, key: Key, ctrl: bool)
    ensures
        c.show_help ==> key_outcome(c, len, key, ctrl) == (Controls { show_help: false, ..c }),
        !c.show_help && c.show_settings && (key == Key::Esc || key == Key::F(2)) ==> key_outcome(c, len, key, ctrl)
            == (Controls { show_settings: false, ..c }),
        !c.show_help && c.show_settings && !(key == Key::Esc || key == Key::F(2)) ==> key_outcome(
            c,
            len,
            key,
            ctrl,
        ) == c,
{
}

/// Unscrolled, the feed shows the newest events; it shows as many rows as fit
/// (all events when fewer), and scrolling back by one moves the window one
/// event back until it reaches the oldest.
pub proof fn lemma_visible_window(total: usize, height: usize, scroll: usize)
    ensures
        visible_range_spec(total, height, 0).1 == total,
        visible_range_spec(total, height, scroll).1 - visible_range_spec(total, height, scroll).0 == if total
            < height {
            total as int
        } else {
            height as int
        },
        visible_range_spec(total, height, scroll).0 <= visible_range_spec(total, height, scroll).1 <= total,
        scroll < usize::MAX && total > height && scroll + 1 <= total - height ==> visible_range_spec(
            total,
            height,
            (scroll + 1) as usize,
        ).0 == visible_range_spec(total, height, scroll).0 - 1,
{
}

/// The feed shows, in order, exactly the positions of the events of the
/// selected server, or of all events when none is selected.
pub proof fn lemma_shown_indices(events: Seq<RecordedEvent>, selected: u8, n: nat)
    requires
        n <= events.len(),
        events.len() <= usize::MAX,
    ensures
        forall|i: int| 0 <= i < n ==> (shown_indices(events, selected, n).contains(i as usize) <==> (selected
            == 0 || events[i].server_id == selected)),
        forall|k: int| 0 <= k < shown_indices(events, selected, n).len() ==> #[trigger] shown_indices(
            events,
            selected,
            n,
        )[k] < n,
        forall|k: int, j: int|
            0 <= k < j < shown_indices(events, selected, n).len() ==> shown_indices(events, selected, n)[k]
                < shown_indices(events, selected, n)[j],
    decreases n,
{
    if n > 0 {
        lemma_shown_indices(events, selected, (n - 1) as nat);
        let rest = shown_indices(events, selected, (n - 1) as nat);
        let all = shown_indices(events, selected, n);
        assert forall|i: int| 0 <= i < n implies (all.contains(i as usize) <==> (selected == 0
            || events[i].server_id == selected)) by {
            if i < n - 1 {
                if all.contains(i as usize) {
                    let k = choose|k: int| 0 <= k < all.len() && all[k] == i as usize;
                    if k < rest.len() {
                        assert(rest[k] == i as usize);
                    }
                }
                if rest.contains(i as usize) {
                    let k = choose|k: int| 0 <= k < rest.len() && rest[k] == i as usize;
                    assert(all[k] == i as usize);
                }
            } else {
                if all.contains(i as usize) && !shown(selected, events[n - 1].server_id) {
                    let k = choose|k: int| 0 <= k < all.len() && all[k] == i as usize;
                    assert(rest[k] < n - 1);
                }
                if shown(selected, events[n - 1].server_id) {
                    assert(all[all.len() - 1] == i as usize);
                }
            }
        }
    }
}

/// Tab visits the three panels in turn and comes back after three presses.
pub proof fn lemma_tab_cycles(p: Panel)
    ensures
        next_panel(p) != p,
        next_panel(next_panel(next_panel(p))) == p,
{
}

/// The first and one-past-last positions, among `total` shown events, of the
/// `height` rows on screen when scrolled back by `scroll`.
pub open spec fn visible_range_spec(total: usize, height: usize, scroll: usize) -> (usize, usize) {
    let start: int = if total > height {
        let back = if scroll < total - height { scroll as int } else { total - height };
        total - height - back
    } else {
        0
    };
    let end: int = if start + height < total { start + height } else { total as int };
    (start as usize, end as usize)
}

/// Whether the feed shows an event of `server_id` when `selected` is chosen.
pub open spec fn shown(selected: u8, server_id: u8) -> bool {
    selected == 0 || server_id == selected
}

/// The positions, among the first `n` events, of those the feed shows.
pub open spec fn shown_indices(events: Seq<RecordedEvent>, selected: u8, n: nat) -> Seq<usize>
    decreases n,
{
    if n == 0 {
        Seq::empty()
    } else {
        let rest = shown_indices(events, selected, (n - 1) as nat);
        if shown(selected, events[n - 1].server_id) {
            rest.push((n - 1) as usize)
        } else {
            rest
        }
    }
}

/// `s` padded on the left with spaces to at least two characters.
pub open spec fn pad2(s: Seq<char>) -> Seq<char> {
    if s.len() < 2 { seq![' '] + s } else { s }
}

/// `s` padded on the left with zeros to at least two characters.
pub open spec fn zero_pad2(s: Seq<char>) -> Seq<char> {
    if s.len() < 2 { seq!['0'] + s } else { s }
}

/// The age shown before an event `secs` seconds old: seconds under a
/// minute, whole minutes after.
pub open spec fn age_text(secs: u64) -> Seq<char> {
    if secs < 60 {
        pad2(decimal(secs as nat)) + "s "@
    } else {
        pad2(decimal((secs / 60) as nat)) + "m "@
    }
}

/// An uptime of `secs` seconds as hours, minutes and seconds.
pub open spec fn uptime_spec(secs: u64) -> Seq<char> {
    zero_pad2(decimal((secs / 3600) as nat)) + ":"@ + zero_pad2(decimal(((secs % 3600) / 60) as nat)) + ":"@
        + zero_pad2(decimal((secs % 60) as nat))
}

/// The title of the events panel.
pub open spec fn events_title_spec(selected: u8) -> Seq<char> {
    if selected > 0 {
        " Events (Server "@ + decimal(selected as nat) + ") "@
    } else {
        " Events (All) "@
    }
}

/// The sum of the player counts of `servers`.
pub open spec fn players_sum(servers: Seq<ServerInfo>) -> nat
    decreases servers.len(),
{
    if servers.len() == 0 {
        0
    } else {
        players_sum(servers.drop_last()) + servers.last().current_players as nat
    }
}

/// The texts of a server's entry in the servers panel: the selection marker,
/// its label, and the lines of its name, its map and its player count.
pub open spec fn server_text(info: ServerInfo, selected_server: u8) -> Seq<Seq<char>> {
    seq![
        if selected_server == info.server_id { "▶ "@ } else { "  "@ },
        "Server "@ + decimal(info.server_id as nat) + " "@,
        "  "@ + info.server_name@,
        "  "@ + info.map_name@,
        "  Players: "@ + decimal(info.current_players as nat) + "/"@ + decimal(info.max_players as nat),
    ]
}

/// "Yes" or "No".
pub open spec fn yes_no(b: bool) -> Seq<char> {
    if b { "Yes"@ } else { "No"@ }
}

/// The lines of the settings panel.
pub open spec fn settings_text(config: Config) -> Seq<Seq<char>> {
    seq![
        "Settings (Read-Only)"@,
        ""@,
        "  Bind Address: "@ + config.server.bind_address@,
        "  Max Servers: "@ + decimal(config.server.max_servers as nat),
        "  Heartbeat: "@ + decimal(config.server.heartbeat_interval_ms as nat) + "ms"@,
        ""@,
        "  Broadcast Chat: "@ + yes_no(config.relay.broadcast_chat),
        "  Broadcast Deaths: "@ + yes_no(config.relay.broadcast_deaths),
        "  Cross Healing: "@ + yes_no(config.relay.enable_cross_healing),
        ""@,
        "Press Esc or F2 to close"@,
    ]
}

/// The area of an overlay of `width` by `height` centred in an area of
/// `area_width` by `area_height`, as x, y, width and height.
pub open spec fn overlay_spec(area_width: u16, area_height: u16, width: u16, height: u16) -> (u16, u16, u16, u16) {
    let free_w: int = if area_width > width { area_width - width } else { 0 };
    let free_h: int = if area_height > height { area_height - height } else { 0 };
    (
        (free_w / 2) as u16,
        (free_h / 2) as u16,
        if width < area_width { width } else { area_width },
        if height < area_height { height } else { area_height },
    )
}

/// The interface's state.
pub struct AppState {
    /// Whether the app should quit.
    pub should_quit: bool,
    /// Whether the event feed is paused.
    pub paused: bool,
    /// Currently focused panel.
    pub focused_panel: Panel,
    /// Event history for display, oldest first.
    pub events: Vec<RecordedEvent>,
    /// Scroll offset for events panel.
    pub events_scroll: usize,
    /// Selected server (1-4, 0 for all).
    pub selected_server: u8,
    /// Show help overlay.
    pub show_help: bool,
    /// Show settings panel.
    pub show_settings: bool,
}

impl AppState {
    /// The settings that keys change.
    pub open spec fn controls(&self) -> Controls {
        Controls {
            should_quit: self.should_quit,
            paused: self.paused,
            focused_panel: self.focused_panel,
            events_scroll: self.events_scroll,
            selected_server: self.selected_server,
            show_help: self.show_help,
            show_settings: self.show_settings,
        }
    }

    /// The state of a new interface: running, not paused, the event feed in
    /// focus, empty, scrolled to the newest event, showing all servers.
    pub fn new() -> (s: Self)
        ensures
            s.controls() == (Controls {
                should_quit: false,
                paused: false,
                focused_panel: Panel::Events,
                events_scroll: 0,
                selected_server: 0,
                show_help: false,
                show_settings: false,
            }),
            s.events@.len() == 0,
    {
        AppState {
            should_quit: false,
            paused: false,
            focused_panel: Panel::Events,
            events: Vec::new(),
            events_scroll: 0,
            selected_server: 0,
            show_help: false,
            show_settings: false,
        }
    }

    /// Handle a key press (`ctrl` tells whether Control was held).
    pub fn handle_key(&mut self, code: Key, ctrl: bool)
        ensures
            final(self).controls() == key_outcome(old(self).controls(), old(self).events@.len(), code, ctrl),
            final(self).events@ == if !old(self).show_help && !old(self).show_settings && clear_key(code, ctrl) {
                Seq::<RecordedEvent>::empty()
            } else {
                old(self).events@
            },
    {
        if self.show_help {
            self.show_help = false;
            return;
        }
        if self.show_settings {
            match code {
                Key::Esc | Key::F(2) => self.show_settings = false,
                _ => {},
            }
            return;
        }
        let top = if self.events.len() > 0 { self.events.len() - 1 } else { 0 };
        match code {
            Key::Char('q') | Key::Char('Q') => self.should_quit = true,
            Key::Char('c') if ctrl => self.should_quit = true,
            Key::Esc => self.should_quit = true,
            Key::Char('p') | Key::Char('P') => self.paused = !self.paused,
            Key::Char('c') | Key::Char('C') => {
                self.events.clear();
                self.events_scroll = 0;
            },
            Key::Tab => self.focused_panel = self.focused_panel.next(),
            Key::Char('1') => self.selected_server = 1,
            Key::Char('2') => self.selected_server = 2,
            Key::Char('3') => self.selected_server = 3,
            Key::Char('4') => self.selected_server = 4,
            Key::Char('0') | Key::Char('a') | Key::Char('A') => self.selected_server = 0,
            Key::Up => {
                if self.events_scroll < top {
                    self.events_scroll = self.events_scroll + 1;
                }
            },
            Key::Down => {
                if self.events_scroll > 0 {
                    self.events_scroll = self.events_scroll - 1;
                }
            },
            Key::PageUp => {
                let up = if self.events_scroll > usize::MAX - 10 { usize::MAX } else { self.events_scroll + 10 };
                self.events_scroll = if up < top { up } else { top };
            },
            Key::PageDown => {
                self.events_scroll = if self.events_scroll >= 10 { self.events_scroll - 10 } else { 0 };
            },
            Key::Home => self.events_scroll = top,
            Key::End => self.events_scroll = 0,
            Key::Char('?') | Key::F(1) => self.show_help = true,
            Key::F(2) => self.show_settings = true,
            _ => {},
        }
    }

    /// Take an event from the hub into the feed, unless the feed is paused.
    pub fn receive(&mut self, event: RecordedEvent)
        ensures
            final(self).controls() == old(self).controls(),
            final(self).events@ == if old(self).paused {
                old(self).events@
            } else {
                old(self).events@.push(event)
            },
    {
        if !self.paused {
            self.events.push(event);
        }
    }

    /// Keep only the newest `max_events` events of the feed.
    pub fn trim_events(&mut self, max_events: usize)
        ensures
            final(self).controls() == old(self).controls(),
            final(self).events@ == trimmed(old(self).events@, max_events as int),
    {
        if self.events.len() > max_events {
            let drain_count = self.events.len() - max_events;
            let kept = self.events.split_off(drain_count);
            self.events = kept;
        }
    }

    /// The positions in `events` of the feed's rows on a panel `height` rows
    /// high: the events of the selected server (or all), the newest that fit
    /// after scrolling back.
    pub fn visible_event_indices(&self, height: usize) -> (r: Vec<usize>)
        ensures
            ({
                let all = shown_indices(self.events@, self.selected_server, self.events@.len());
                let (start, end) = visible_range_spec(all.len() as usize, height, self.events_scroll);
                r@ == all.subrange(start as int, end as int)
            }),
    {
        let mut shown_at: Vec<usize> = Vec::new();
        let mut i: usize = 0;
        while i < self.events.len()
            invariant
                i <= self.events@.len(),
                shown_at@ == shown_indices(self.events@, self.selected_server, i as nat),
                shown_at@.len() <= i,
            decreases self.events@.len() - i,
        {
            let sid = self.events[i].server_id;
            if self.selected_server == 0 || sid == self.selected_server {
                shown_at.push(i);
            }
            i = i + 1;
        }
        let (start, end) = visible_range(shown_at.len(), height, self.events_scroll);
        let mut r: Vec<usize> = Vec::new();
        let mut k: usize = start;
        while k < end
            invariant
                start <= k <= end,
                end <= shown_at@.len(),
                r@ == shown_at@.subrange(start as int, k as int),
            decreases end - k,
        {
            r.push(shown_at[k]);
            k = k + 1;
        }
        r
    }
}

/// The first and one-past-last positions, among `total` shown events, of the
/// `height` rows on screen when scrolled back by `scroll`.
pub fn visible_range(total: usize, height: usize, scroll: usize) -> (r: (usize, usize))
    ensures
        r == visible_range_spec(total, height, scroll),
        r.0 <= r.1 <= total,
        r.1 - r.0 <= height,
        r.1 - r.0 == if total < height { total as int } else { height as int },
{
    let start = if total > height {
        let back = if scroll < total - height { scroll } else { total - height };
        total - height - back
    } else {
        0
    };
    let end = if start + height < total { start + height } else { total };
    (start, end)
}

/// `s` padded on the left with `fill` to at least two characters.
fn padded(s: String, fill: &str) -> (r: String)
    requires
        fill@.len() == 1,
    ensures
        r@ == if s@.len() < 2 { fill@ + s@ } else { s@ },
{
    if s.as_str().unicode_len() < 2 {
        let mut r = String::from_str(fill);
        push_text(&mut r, s.as_str());
        r
    } else {
        s
    }
}

/// The age shown before an event `secs` seconds old.
pub fn age_label(secs: u64) -> (s: String)
    ensures
        s@ == age_text(secs),
{
    let (n, unit) = if secs < 60 { (secs, "s ") } else { (secs / 60, "m ") };
    proof {
        reveal_strlit(" ");
    }
    let mut s = padded(decimal_string(n), " ");
    push_text(&mut s, unit);
    s
}

/// The relay's uptime of `secs` seconds as hours, minutes and seconds, each
/// of at least two digits.
pub fn uptime_text(secs: u64) -> (s: String)
    ensures
        s@ == uptime_spec(secs),
{
    proof {
        reveal_strlit("0");
    }
    let mut s = padded(decimal_string(secs / 3600), "0");
    push_text(&mut s, ":");
    let m = padded(decimal_string((secs % 3600) / 60), "0");
    push_text(&mut s, m.as_str());
    push_text(&mut s, ":");
    let sec = padded(decimal_string(secs % 60), "0");
    push_text(&mut s, sec.as_str());
    s
}

/// The title of the events panel.
pub fn events_title(selected: u8) -> (s: String)
    ensures
        s@ == events_title_spec(selected),
{
    if selected > 0 {
        let mut s = String::from_str(" Events (Server ");
        push_text(&mut s, decimal_string(selected as u64).as_str());
        push_text(&mut s, ") ");
        s
    } else {
        String::from_str(" Events (All) ")
    }
}

/// The total number of players on `servers`.
pub fn total_players(servers: &Vec<ServerInfo>) -> (n: u8)
    requires
        players_sum(servers@) <= u8::MAX,
    ensures
        n == players_sum(servers@),
{
    let mut n: u8 = 0;
    let mut i: usize = 0;
    while i < servers.len()
        invariant
            i <= servers@.len(),
            players_sum(servers@) <= u8::MAX,
            n == players_sum(servers@.subrange(0, i as int)),
        decreases servers@.len() - i,
    {
        proof {
            assert(servers@.subrange(0, i + 1).drop_last() =~= servers@.subrange(0, i as int));
            lemma_players_sum_prefix(servers@, i + 1);
        }
        n = n + servers[i].current_players;
        i = i + 1;
    }
    proof {
        assert(servers@.subrange(0, servers@.len() as int) =~= servers@);
    }
    n
}

/// The sum over a prefix is at most the sum over the whole.
proof fn lemma_players_sum_prefix(s: Seq<ServerInfo>, k: int)
    requires
        0 <= k <= s.len(),
    ensures
        players_sum(s.subrange(0, k)) <= players_sum(s),
    decreases s.len() - k,
{
    if k < s.len() {
        lemma_players_sum_prefix(s, k + 1);
        assert(s.subrange(0, k + 1).drop_last() =~= s.subrange(0, k));
    } else {
        assert(s.subrange(0, k) =~= s);
    }
}

/// The texts of a server's entry in the servers panel, given the selected
/// server: the selection marker, the label, the name, map and player lines.
pub fn server_lines(info: &ServerInfo, selected_server: u8) -> (lines: Vec<String>)
    ensures
        lines@.map_values(|l: String| l@) == server_text(*info, selected_server),
{
    let mut lines: Vec<String> = Vec::new();
    if selected_server == info.server_id {
        lines.push(String::from_str("▶ "));
    } else {
        lines.push(String::from_str("  "));
    }
    let mut l = String::from_str("Server ");
    push_text(&mut l, decimal_string(info.server_id as u64).as_str());
    push_text(&mut l, " ");
    lines.push(l);
    let mut l = String::from_str("  ");
    push_text(&mut l, info.server_name.as_str());
    lines.push(l);
    let mut l = String::from_str("  ");
    push_text(&mut l, info.map_name.as_str());
    lines.push(l);
    let mut l = String::from_str("  Players: ");
    push_text(&mut l, decimal_string(info.current_players as u64).as_str());
    push_text(&mut l, "/");
    push_text(&mut l, decimal_string(info.max_players as u64).as_str());
    lines.push(l);
    proof {
        assert(lines@.map_values(|l: String| l@) =~= server_text(*info, selected_server));
    }
    lines
}

/// "Yes" or "No".
fn yes_no_text(b: bool) -> (s: &'static str)
    ensures
        s@ == yes_no(b),
{
    if b { "Yes" } else { "No" }
}

/// The lines of the settings panel.
pub fn settings_lines(config: &Config) -> (lines: Vec<String>)
    ensures
        lines@.map_values(|l: String| l@) == settings_text(*config),
{
    let mut lines: Vec<String> = Vec::new();
    lines.push(String::from_str("Settings (Read-Only)"));
    lines.push(String::from_str(""));
    let mut l = String::from_str("  Bind Address: ");
    push_text(&mut l, config.server.bind_address.as_str());
    lines.push(l);
    let mut l = String::from_str("  Max Servers: ");
    push_text(&mut l, decimal_string(config.server.max_servers as u64).as_str());
    lines.push(l);
    let mut l = String::from_str("  Heartbeat: ");
    push_text(&mut l, decimal_string(config.server.heartbeat_interval_ms).as_str());
    push_text(&mut l, "ms");
    lines.push(l);
    lines.push(String::from_str(""));
    let mut l = String::from_str("  Broadcast Chat: ");
    push_text(&mut l, yes_no_text(config.relay.broadcast_chat));
    lines.push(l);
    let mut l = String::from_str("  Broadcast Deaths: ");
    push_text(&mut l, yes_no_text(config.relay.broadcast_deaths));
    lines.push(l);
    let mut l = String::from_str("  Cross Healing: ");
    push_text(&mut l, yes_no_text(config.relay.enable_cross_healing));
    lines.push(l);
    lines.push(String::from_str(""));
    lines.push(String::from_str("Press Esc or F2 to close"));
    proof {
        assert(lines@.map_values(|l: String| l@) =~= settings_text(*config));
    }
    lines
}

/// The area of an overlay of `width` by `height` centred in an area of
/// `area_width` by `area_height`, as x, y, width and height.
pub fn overlay_area(area_width: u16, area_height: u16, width: u16, height: u16) -> (r: (u16, u16, u16, u16))
    ensures
        r == overlay_spec(area_width, area_height, width, height),
{
    let free_w = if area_width > width { area_width - width } else { 0 };
    let free_h = if area_height > height { area_height - height } else { 0 };
    (
        free_w / 2,
        free_h / 2,
        if width < area_width { width } else { area_width },
        if height < area_height { height } else { area_height },
    )
}

} // verus!
