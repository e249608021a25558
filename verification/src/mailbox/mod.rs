//! Mailboxes: what is kept of a mail, how it is cleaned, and how a poll decides what to
//! fetch.

pub mod sanitize;
pub mod body;
pub mod parse;
pub mod message;
pub mod imap;
pub mod oauth;
pub mod presets;
pub mod forms;
pub mod ingest;
