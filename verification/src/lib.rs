//! Cloak core library: secret scoping, rule-driven secret injection,
//! proxy request decisions, vault data and crypto wrappers.

pub mod cli;
pub mod codec;
pub mod collections;
pub mod crypto;
pub mod gui;
pub mod paths;
pub mod project;
pub mod proxy;
pub mod runner;
pub mod security;
pub mod storage;
pub mod text;
