//! Decision logic of a Discord bot that announces the games its members start
//! playing and keeps one role per game: message texts, log lines, role names and
//! colours, event routing, the per-server handler registry and the per-server
//! configuration paths.

pub mod event_handler;
pub mod game_message;
pub mod incoming;
pub mod model;
pub mod server_config;
pub mod server_handler;
pub mod text;
