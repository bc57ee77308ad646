//! Core of a real-time presence and co-watching relay.
//!
//! The crate tracks which authenticated identities are currently connected
//! (`registry`), keeps the social graph and watch history with idempotent
//! insert-or-update semantics (`store`), decides for every inbound event which
//! other open connections must receive a derived notification (`dispatch`),
//! and extracts canonical video ids from watched-content URLs (`utils`).
//! Transport framing, JSON encoding, and network lookups live outside the
//! crate; every function here is pure decision logic over plain values.
#![allow(non_snake_case)]

pub mod dispatch;
pub mod models;
pub mod registry;
pub mod scan;
pub mod store;
pub mod utils;
pub mod ws_dto;
