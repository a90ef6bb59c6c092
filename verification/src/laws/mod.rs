//! What the library is for, stated over its public functions: each law speaks of what a call
//! is given and what it gives back, and holds of every such call.

pub mod commands;
pub mod control;
pub mod keys;
pub mod media;
pub mod records;
pub mod requests;
pub mod routes;
pub mod sending;
pub mod sessions;
pub mod settings;
pub mod syncs;
pub mod texts;
pub mod values;
pub mod verifications;
pub mod wire;
