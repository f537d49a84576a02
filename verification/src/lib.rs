//! Distributed stateful services: the verified core of the framework.
//!
//! The modules here hold the decisions and data structures of the
//! framework; the networking, storage back-ends and async plumbing
//! drive them from the outside.

pub mod sort_key;
pub mod sorted_set;
pub mod text;
pub mod time;
pub mod errors;
pub mod protocol;
pub mod object_placement;
pub mod seq_keep;
pub mod service_object;
pub mod cluster;
pub mod client;
pub mod service;
pub mod server;
pub mod sql_migration;
pub mod state;
