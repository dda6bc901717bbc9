//! Authentication that reacts to current Lineage chain state.
//!
//! A player registers an address of a wallet ([`registry`]), signs a fresh challenge of the server
//! ([`challenge`]) with the key of that address ([`client`], [`keys`], [`wallet`]), and is let in
//! if the address owns the required item now ([`server`], [`ownership`]). The library decides; its
//! caller reads and writes files and talks to the balance service.
//!
//! What is taken on trust from outside crates stands in [`crypto`] and [`json`], and what is taken
//! from the standard library in [`clock`] and [`text`].

pub mod challenge;

pub mod client;

pub mod clock;

pub mod config;

pub mod crypto;

pub mod error;

pub mod hex;

pub mod json;

pub mod keys;

pub mod ownership;

pub mod registry;

pub mod search;

pub mod server;

pub mod storage;

pub mod text;

pub mod wallet;
