//! The verified core of omarkeyd, a credential daemon for KeePass databases, and
//! of `omarkey`, its client.
//!
//! [`daemon`] says what each request does and what is answered, on top of
//! [`vault`], which keeps the decrypted entries ([`entry`], [`search`], [`totp`],
//! [`kdbx`]), [`actions`] for the clipboard and the keyboard, [`security`] for the
//! socket and the auto-lock triggers, [`pinentry`] for the master password and
//! [`config`] for the settings. [`reader`] takes over what other crates read from
//! TOML and JSON text. [`laws`] holds what is true of all of it together.
//! Files, sockets, processes and timers belong to the caller.

pub mod actions;
pub mod client;
pub mod config;
pub mod daemon;
pub mod duration;
pub mod entry;
pub mod ipc;
pub mod json;
pub mod kdbx;
pub mod laws;
pub mod paths;
pub mod pinentry;
pub mod reader;
pub mod search;
pub mod secret;
pub mod security;
pub mod text;
pub mod totp;
pub mod vault;
