//! Verified core of a Discord gateway proxy: the payload scanner that locates
//! opcodes, sequence numbers and event names without parsing JSON, the
//! sequence rewriting that gives every client its own numbering, the client
//! protocol decisions, the session store and the shard bookkeeping.
pub mod text;
pub mod deserializer;
pub mod relay;
pub mod splice;
pub mod state;
pub mod model;
pub mod server;
pub mod upgrade;
pub mod dispatch;
pub mod cache;
pub mod zlib_sys;
pub mod config;
pub mod startup;
