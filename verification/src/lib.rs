//! Verified core of a replicated object-reference middleware: command-line
//! validation, object reference encoding, request routing for a raft-backed
//! key/value store, cluster membership steps and object chunking.

pub mod decimal;
pub mod text;
pub mod object_ref;
pub mod cli;
pub mod storage;
pub mod network;
pub mod raft_node;
pub mod membership;
pub mod file_transfer;
