//! Verified core logic of the OpenTraderWorld server: live market-data routing and
//! fault classification, mail hygiene, the MCP gateway allowlist, and the small parsers
//! and validators that sit between the HTTP handlers and the store.

pub mod text;
pub mod json;
pub mod settings;
pub mod live;
pub mod mailbox;
pub mod access;
pub mod mcp;
pub mod mportfolios;
pub mod network;
pub mod checks;
