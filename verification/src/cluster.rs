//! Cluster membership: which servers exist and which of them are healthy.

pub mod membership_protocol;
pub mod storage;
