//! Decision core of a gateway between a private chat and the `pi` agent.

pub mod agent;
pub mod chat;
pub mod commands;
pub mod config;
pub mod format;
pub mod gateway;
pub mod json;
pub mod path;
pub mod router;
pub mod text;
pub mod time;
pub mod worker;
