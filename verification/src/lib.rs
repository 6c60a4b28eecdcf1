//! Verified logic of a per-host agent messaging daemon.
pub mod backoff;
pub mod boot;
pub mod claims;
pub mod cli;
pub mod coldstart;
pub mod completion;
pub mod conn;
pub mod egress;
pub mod envelope;
pub mod identifiers;
pub mod history;
pub mod inbound;
pub mod json;
pub mod laws;
pub mod mailbox;
pub mod mcp;
pub mod ops;
pub mod provision;
pub mod redaction;
pub mod registry;
pub mod replies;
pub mod rooms;
pub mod send;
pub mod settings;
pub mod text;
pub mod threads;
