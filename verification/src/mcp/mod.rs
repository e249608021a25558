//! The MCP gateway: which REST routes it reaches, how its requests are read, and how it
//! shapes what it sends back.

pub mod catalog;
pub mod gate;
pub mod rpc;
pub mod shape;
