//! An end-to-end encryption aware reverse proxy for Matrix: the rules by which it
//! reads its configuration, keeps its records, rewrites traffic and answers its users.

pub mod client;
pub mod config;
pub mod dbus;
pub mod error;
pub mod ids;
pub mod json;
pub mod laws;
pub mod maps;
pub mod messages;
pub mod panctl;
pub mod proxy;
pub mod store;
pub mod table;
pub mod text;
pub mod wire;
