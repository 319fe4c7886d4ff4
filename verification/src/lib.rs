//! A small chat-bot library: per-guild settings (command prefix, command
//! enablement), the `enable`/`disable` argument tokenizer, command replies,
//! configuration validation, and the startup sequence, all with verified
//! contracts. Network, gateway, and database wiring live outside the library
//! and hand it plain values.

pub mod args;
pub mod commands;
pub mod config;
pub mod startup;
pub mod store;
pub mod text;
