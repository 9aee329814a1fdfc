//! Cross-server relay for TF2 game servers: the binary wire protocol, the
//! event catalogue, configuration checks, the routing hub and the per-connection
//! and terminal-UI decision logic, each with its contract.

pub mod config;
pub mod connection;
pub mod error;
pub mod events;
pub mod outside;
pub mod protocol;
pub mod relay;
pub mod text;
pub mod tui;
pub mod wire;
