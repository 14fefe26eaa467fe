//! Liveness tracking for remote probe clients: a client registry, the
//! handling of register and heartbeat events, the watchdog that detects
//! clients going silent, and the notifier that drains queued messages.
pub mod admin;
pub mod command;
pub mod configparser;
pub mod database;
pub mod ingest;
pub mod laws;
pub mod message;
pub mod notifier;
pub mod registry;
pub mod structs;
pub mod text;
pub mod watchdog;
