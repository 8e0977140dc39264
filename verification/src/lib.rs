//! Verified core of the PengPort Minecraft adapter: the log-line and RCON `list`
//! grammars, the presence state machines and the events they announce, the PSP manifest,
//! the settings check, the event-stream access check, and the decisions of the log
//! followers and the RCON poller.

pub mod config;
pub mod docker_tail;
pub mod log_tail;
pub mod manifest;
pub mod parser;
pub mod players;
pub mod presence;
pub mod rcon;
pub mod routes;
pub mod secret;
pub mod service_state;
pub mod state;
pub mod status;
pub mod text;
