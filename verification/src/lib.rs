//! Advises a host coding tool on command alternatives: word-bounded command
//! rewriting driven by a user configuration file, a configuration discovery
//! and migration protocol, and a dispatcher for the host's hook events.

pub mod cache;
pub mod config;
pub mod hooks;
pub mod matcher;
pub mod migrate;
pub mod parser;
pub mod text;
