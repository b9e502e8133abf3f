//! Core of an Ethereum JSON-RPC client: request building, response framing and
//! routing, and the connection and buffer state machines of its transports.

pub mod error;
pub mod rpc;
pub mod text;
pub mod types;
pub mod api;
pub mod dispatch;
pub mod ipc;
pub mod ws;
pub mod http;
pub mod contract;
