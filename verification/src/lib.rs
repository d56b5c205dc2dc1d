//! An in-memory key-value engine: a typed keyspace with expiration, append-only
//! streams, a registry of blocked clients, and the command layer that drives them.

pub mod blocking;
pub mod commands;
pub mod db;
pub mod decode;
pub mod error;
pub mod executor;
pub mod keyspace;
pub mod laws;
pub mod parser;
pub mod resp;
pub mod stream;
pub mod stream_types;
pub mod text;
