//! Civium: sovereign networks of members, connected by explicit, signed agreements.
pub mod activity;
pub mod bootstrap;
pub mod cli;
pub mod cipher;
pub mod connection;
pub mod crypto;
pub mod directory;
pub mod document;
pub mod encoding;
pub mod entropy;
pub mod error;
pub mod governance;
pub mod hashing;
pub mod identity;
pub mod invitation;
pub mod json;
pub mod member;
pub mod messaging;
pub mod minor;
pub mod mobile;
pub mod network;
pub mod node;
pub mod pairing;
pub mod plugin;
pub mod rcc;
pub mod records;
pub mod revocation;
pub mod sdk;
pub mod signing;
pub mod sorting;
pub mod text;
