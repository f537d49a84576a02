//! Cluster providers: the algorithms that decide which servers are healthy.

pub mod local;
pub mod peer_to_peer;
