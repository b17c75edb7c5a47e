//! TanOS: identity, cryptography, wire formats and the rules of a decentralised
//! peer-to-peer mesh node.
//!
//! Everything here is synchronous, and touches nothing outside but the clock and the
//! system's random source: sockets, files, the database connection and the web server live
//! in the application, which hands this library plain values and carries out the actions
//! it answers with.
pub mod bytes;
pub mod cli;
pub mod clock;
pub mod crypto;
pub mod db;
pub mod discovery;
pub mod hex_text;
pub mod identity;
pub mod message;
pub mod network;
pub mod node;
pub mod peers;
pub mod setup;
pub mod table;
pub mod text;
pub mod transport;
pub mod web;
pub mod wire;
