//! Server-side core of a multi-tenant, replicated SQLite-compatible database:
//! the protocol rules, state machines and log structures, with their contracts.

pub mod allocation;
pub mod baton;
pub mod bus;
pub mod config;
pub mod error;
pub mod frame;
pub mod handshake;
pub mod host;
pub mod http;
pub mod log;
pub mod pipeline;
pub mod program;
pub mod proxy;
pub mod replica;
pub mod replication;
pub mod stmt;
pub mod stream;
pub mod text;
pub mod value;
pub mod version;
pub mod wire;
pub mod worker;
pub mod ws;
