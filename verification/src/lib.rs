//! Extension registry and command dispatch for the `agent-browser` tool.
//!
//! An extension is a package described by a manifest of named, typed
//! commands. This crate keeps the loaded manifests, resolves the words of a
//! command line against them, binds and coerces the positional arguments,
//! fills the request templates of a command, and decides, answer by answer,
//! how a run of daemon requests goes on and ends. It also decides where
//! extensions are looked for and what the `plugins` subcommands mean.
//!
//! Every function is verified against its contract. The crate reads no
//! file, sends nothing to the daemon and prints nothing: its caller lists
//! directories, reads manifests, sends requests and shows lines, and hands
//! the library what it found. Three things are taken on trust from other
//! crates: the JSON text of a document and the reading of a document from
//! text, both by `serde_json`, and the user's configuration directory, by
//! `dirs`.

pub mod bindings;
pub mod commands;
pub mod decode;
pub mod discovery;
pub mod dispatch;
pub mod help;
pub mod interpolate;
pub mod json;
pub mod manifest;
pub mod package;
pub mod registry;
pub mod reports;
pub mod resolve;
pub mod text;
