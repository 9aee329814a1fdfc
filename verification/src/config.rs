//! Configuration of the relay, loaded from `settings.toml`, and its checks.
//!
//! Settings are either STATIC (changed only at startup) or DYNAMIC
//! (changeable at runtime through the terminal UI).

use vstd::prelude::*;
use vstd::string::StringExecFns;

use crate::error::{ErrorView, RelayError};
use crate::text::{decimal, decimal_string, push_text, text_eq};

verus! {

/// Main configuration structure.
#[derive(Debug, Clone)]
pub struct Config {
    /// Core relay server settings.
    pub server: ServerConfig,
    /// Cross-server synchronization settings.
    pub sync: SyncConfig,
    /// Logging configuration.
    pub logging: LoggingConfig,
    /// Terminal UI settings.
    pub tui: TuiConfig,
    /// Event relay behavior settings.
    pub relay: RelayConfig,
}

/// Server configuration section.
#[derive(Debug, Clone)]
pub struct ServerConfig {
    /// IP and port to bind the relay server. [STATIC]
    pub bind_address: String,
    /// Maximum number of TF2 servers (1-4). [STATIC]
    pub max_servers: u8,
    /// Timeout before considering a connection dead (ms). [DYNAMIC]
    pub connection_timeout_ms: u64,
    /// Interval between heartbeat packets (ms). [DYNAMIC]
    pub heartbeat_interval_ms: u64,
}

/// Synchronization settings for cross-server features.
#[derive(Debug, Clone)]
pub struct SyncConfig {
    /// How often to sync ghost positions per second. [DYNAMIC]
    pub position_sync_rate_hz: u8,
    /// Enable optimistic healing for lower perceived latency. [DYNAMIC]
    pub predictive_healing: bool,
    /// Smooth ghost movement between position updates. [DYNAMIC]
    pub ghost_interpolation: bool,
    /// Maximum acceptable latency for ghost updates (ms). [DYNAMIC]
    pub max_ghost_latency_ms: u64,
}

/// Logging configuration.
#[derive(Debug, Clone)]
pub struct LoggingConfig {
    /// Log verbosity: trace, debug, info, warn, error. [DYNAMIC]
    pub level: String,
    /// Optional file path to write logs. [STATIC]
    pub file: Option<String>,
    /// Log all relayed events. [DYNAMIC]
    pub log_events: bool,
    /// Log raw packet data (debug only, high volume). [DYNAMIC]
    pub log_packets: bool,
}

/// TUI configuration.
#[derive(Debug, Clone)]
pub struct TuiConfig {
    /// UI refresh interval in milliseconds. [DYNAMIC]
    pub refresh_rate_ms: u64,
    /// Maximum events to keep in history. [DYNAMIC]
    pub max_event_history: usize,
    /// TUI color theme. [DYNAMIC]
    pub color_scheme: String,
    /// Show timestamps in event feed. [DYNAMIC]
    pub show_timestamps: bool,
    /// Use compact layout for smaller terminals. [DYNAMIC]
    pub compact_mode: bool,
}

/// Relay behavior configuration.
#[derive(Debug, Clone)]
pub struct RelayConfig {
    /// Relay chat messages between servers. [DYNAMIC]
    pub broadcast_chat: bool,
    /// Relay death events between servers. [DYNAMIC]
    pub broadcast_deaths: bool,
    /// Relay player connect/disconnect events. [DYNAMIC]
    pub broadcast_connect: bool,
    /// Allow Medics to heal players on other servers. [DYNAMIC]
    pub enable_cross_healing: bool,
    /// Allow damage between players on different servers. [DYNAMIC]
    pub enable_cross_damage: bool,
}

// ============================================================================
// Default values
// ============================================================================

/// The default server section: bind to 0.0.0.0:27050, four servers, a
/// five-second timeout and one heartbeat a second.
pub open spec fn default_server(c: ServerConfig) -> bool {
    &&& c.bind_address@ == "0.0.0.0:27050"@
    &&& c.max_servers == 4
    &&& c.connection_timeout_ms == 5000
    &&& c.heartbeat_interval_ms == 1000
}

/// The default sync section.
pub open spec fn default_sync(c: SyncConfig) -> bool {
    &&& c.position_sync_rate_hz == 20
    &&& c.predictive_healing
    &&& c.ghost_interpolation
    &&& c.max_ghost_latency_ms == 100
}

/// The default logging section.
pub open spec fn default_logging(c: LoggingConfig) -> bool {
    &&& c.level@ == "info"@
    &&& c.file is None
    &&& c.log_events
    &&& !c.log_packets
}

/// The default TUI section.
pub open spec fn default_tui(c: TuiConfig) -> bool {
    &&& c.refresh_rate_ms == 100
    &&& c.max_event_history == 1000
    &&& c.color_scheme@ == "default"@
    &&& c.show_timestamps
    &&& !c.compact_mode
}

/// The default relay section: everything is relayed.
pub open spec fn default_relay(c: RelayConfig) -> bool {
    &&& c.broadcast_chat
    &&& c.broadcast_deaths
    &&& c.broadcast_connect
    &&& c.enable_cross_healing
    &&& c.enable_cross_damage
}

impl Default for Config {
    fn default() -> (c: Self)
        ensures
            default_server(c.server),
            default_sync(c.sync),
            default_logging(c.logging),
            default_tui(c.tui),
            default_relay(c.relay),
    {
        Self {
            server: ServerConfig::default(),
            sync: SyncConfig::default(),
            logging: LoggingConfig::default(),
            tui: TuiConfig::default(),
            relay: RelayConfig::default(),
        }
    }
}

impl Default for ServerConfig {
    fn default() -> (c: Self)
        ensures
            default_server(c),
    {
        Self {
            bind_address: String::from_str("0.0.0.0:27050"),
            max_servers: 4,
            connection_timeout_ms: 5000,
            heartbeat_interval_ms: 1000,
        }
    }
}

impl Default for SyncConfig {
    fn default() -> (c: Self)
        ensures
            default_sync(c),
    {
        Self {
            position_sync_rate_hz: 20,
            predictive_healing: true,
            ghost_interpolation: true,
            max_ghost_latency_ms: 100,
        }
    }
}

impl Default for LoggingConfig {
    fn default() -> (c: Self)
        ensures
            default_logging(c),
    {
        Self { level: String::from_str("info"), file: None, log_events: true, log_packets: false }
    }
}

impl Default for TuiConfig {
    fn default() -> (c: Self)
        ensures
            default_tui(c),
    {
        Self {
            refresh_rate_ms: 100,
            max_event_history: 1000,
            color_scheme: String::from_str("default"),
            show_timestamps: true,
            compact_mode: false,
        }
    }
}

impl Default for RelayConfig {
    fn default() -> (c: Self)
        ensures
            default_relay(c),
    {
        Self {
            broadcast_chat: true,
            broadcast_deaths: true,
            broadcast_connect: true,
            enable_cross_healing: true,
            enable_cross_damage: true,
        }
    }
}

// ============================================================================
// Validation
// ============================================================================

/// The accepted log levels.
pub open spec fn valid_level(level: Seq<char>) -> bool {
    level == "trace"@ || level == "debug"@ || level == "info"@ || level == "warn"@ || level
        == "error"@
}

/// The accepted colour schemes.
pub open spec fn valid_scheme(scheme: Seq<char>) -> bool {
    scheme == "default"@ || scheme == "dark"@ || scheme == "light"@ || scheme == "high_contrast"@
}

/// The first rule that a configuration breaks, as its error message, or
/// `None` when it keeps them all. The rules, in order: 1 <= max_servers <= 4;
/// 1000 <= connection_timeout_ms <= 30000; 100 <= heartbeat_interval_ms <= 5000;
/// 5 <= position_sync_rate_hz <= 60; a known log level; a known colour scheme.
pub open spec fn config_problem(c: Config) -> Option<Seq<char>> {
    if c.server.max_servers == 0 || c.server.max_servers > 4 {
        Some("max_servers must be between 1 and 4, got "@ + decimal(c.server.max_servers as nat))
    } else if c.server.connection_timeout_ms < 1000 || c.server.connection_timeout_ms > 30000 {
        Some(
            "connection_timeout_ms must be between 1000 and 30000, got "@ + decimal(
                c.server.connection_timeout_ms as nat,
            ),
        )
    } else if c.server.heartbeat_interval_ms < 100 || c.server.heartbeat_interval_ms > 5000 {
        Some(
            "heartbeat_interval_ms must be between 100 and 5000, got "@ + decimal(
                c.server.heartbeat_interval_ms as nat,
            ),
        )
    } else if c.sync.position_sync_rate_hz < 5 || c.sync.position_sync_rate_hz > 60 {
        Some(
            "position_sync_rate_hz must be between 5 and 60, got "@ + decimal(
                c.sync.position_sync_rate_hz as nat,
            ),
        )
    } else if !valid_level(c.logging.level@) {
        Some(
            "Invalid log level '"@ + c.logging.level@
                + "', must be one of: [\"trace\", \"debug\", \"info\", \"warn\", \"error\"]"@,
        )
    } else if !valid_scheme(c.tui.color_scheme@) {
        Some(
            "Invalid color_scheme '"@ + c.tui.color_scheme@
                + "', must be one of: [\"default\", \"dark\", \"light\", \"high_contrast\"]"@,
        )
    } else {
        None
    }
}

impl Config {
    /// Validate configuration values: fails with a configuration error that
    /// names the first rule broken.
    pub fn validate(&self) -> (r: Result<(), RelayError>)
        ensures
            match config_problem(*self) {
                None => r is Ok,
                Some(m) => r matches Err(e) && e@ == ErrorView::Config(m),
            },
    {
        if self.server.max_servers == 0 || self.server.max_servers > 4 {
            let mut m = String::from_str("max_servers must be between 1 and 4, got ");
            push_text(&mut m, decimal_string(self.server.max_servers as u64).as_str());
            return Err(RelayError::Config(m));
        }
        if self.server.connection_timeout_ms < 1000 || self.server.connection_timeout_ms > 30000 {
            let mut m = String::from_str("connection_timeout_ms must be between 1000 and 30000, got ");
            push_text(&mut m, decimal_string(self.server.connection_timeout_ms).as_str());
            return Err(RelayError::Config(m));
        }
        if self.server.heartbeat_interval_ms < 100 || self.server.heartbeat_interval_ms > 5000 {
            let mut m = String::from_str("heartbeat_interval_ms must be between 100 and 5000, got ");
            push_text(&mut m, decimal_string(self.server.heartbeat_interval_ms).as_str());
            return Err(RelayError::Config(m));
        }
        if self.sync.position_sync_rate_hz < 5 || self.sync.position_sync_rate_hz > 60 {
            let mut m = String::from_str("position_sync_rate_hz must be between 5 and 60, got ");
            push_text(&mut m, decimal_string(self.sync.position_sync_rate_hz as u64).as_str());
            return Err(RelayError::Config(m));
        }
        let level = self.logging.level.as_str();
        if !(text_eq(level, "trace") || text_eq(level, "debug") || text_eq(level, "info")
            || text_eq(level, "warn") || text_eq(level, "error")) {
            let mut m = String::from_str("Invalid log level '");
            push_text(&mut m, level);
            push_text(
                &mut m,
                "', must be one of: [\"trace\", \"debug\", \"info\", \"warn\", \"error\"]",
            );
            return Err(RelayError::Config(m));
        }
        let scheme = self.tui.color_scheme.as_str();
        if !(text_eq(scheme, "default") || text_eq(scheme, "dark") || text_eq(scheme, "light")
            || text_eq(scheme, "high_contrast")) {
            let mut m = String::from_str("Invalid color_scheme '");
            push_text(&mut m, scheme);
            push_text(
                &mut m,
                "', must be one of: [\"default\", \"dark\", \"light\", \"high_contrast\"]",
            );
            return Err(RelayError::Config(m));
        }
        Ok(())
    }
}

/// The default configuration passes validation.
pub proof fn lemma_default_config_is_valid(c: Config)
    requires
        default_server(c.server),
        default_sync(c.sync),
        default_logging(c.logging),
        default_tui(c.tui),
        default_relay(c.relay),
    ensures
        config_problem(c) is None,
{
}

/// A configuration passes validation exactly when 1 <= max_servers <= 4,
/// 1000 <= connection_timeout_ms <= 30000, 100 <= heartbeat_interval_ms <=
/// 5000, 5 <= position_sync_rate_hz <= 60, the log level is one of trace,
/// debug, info, warn and error, and the colour scheme one of default, dark,
/// light and high_contrast.
pub proof fn lemma_config_acceptance(c: Config)
    ensures
        config_problem(c) is None <==> {
            &&& 1 <= c.server.max_servers && c.server.max_servers <= 4
            &&& 1000 <= c.server.connection_timeout_ms && c.server.connection_timeout_ms <= 30000
            &&& 100 <= c.server.heartbeat_interval_ms && c.server.heartbeat_interval_ms <= 5000
            &&& 5 <= c.sync.position_sync_rate_hz && c.sync.position_sync_rate_hz <= 60
            &&& (c.logging.level@ == "trace"@ || c.logging.level@ == "debug"@ || c.logging.level@ == "info"@
                || c.logging.level@ == "warn"@ || c.logging.level@ == "error"@)
            &&& (c.tui.color_scheme@ == "default"@ || c.tui.color_scheme@ == "dark"@
                || c.tui.color_scheme@ == "light"@ || c.tui.color_scheme@ == "high_contrast"@)
        },
{
}

} // verus!
