//! The protocol core of an etcd key-value client.
//!
//! The crate turns put, get, delete, compare-and-swap and prefix operations
//! into the messages of etcd's KV service and reads the replies back. It
//! performs no I/O: a caller sends each request over a connection of its own
//! and hands the reply to the function that interprets it.

use vstd::prelude::*;

pub mod bulk;
pub mod client;
pub mod error;
pub mod guarantees;
pub mod kv_map;
pub mod message;
pub mod range;
pub mod store;
pub mod transaction;

use crate::error::EtcdError;
use crate::kv_map::KvMap;

verus! {

/// A client of the store with blocking calls: each method returns when
/// the store has answered or the call has failed.
pub trait Etcd {
    /// Stores `v` under `k`.
    fn put(&mut self, k: &[u8], v: &[u8]) -> Result<(), EtcdError>;

    /// Loads `keys` into the store, each with an empty value, in batches
    /// that are atomic one by one.
    fn bulk_put(&mut self, keys: &[Vec<u8>]) -> Result<(), EtcdError>;

    /// Retrieves the value stored under `k`, if there is one.
    fn get(&mut self, k: &[u8]) -> Result<Option<Vec<u8>>, EtcdError>;

    /// Retrieves every entry whose key starts with `prefix`.
    fn get_prefix(&mut self, prefix: &[u8]) -> Result<KvMap, EtcdError>;

    /// Removes `keys`, all of them or none.
    fn delete(&mut self, keys: &[Vec<u8>]) -> Result<(), EtcdError>;

    /// Removes every key that starts with `prefix`, atomically.
    fn delete_prefix(&mut self, prefix: &[u8]) -> Result<(), EtcdError>;

    /// Stores `new_v` under `k` if the store holds `old_v` there, and
    /// fails with [`EtcdError::Swap`] otherwise.
    fn swap(&mut self, k: &[u8], old_v: &[u8], new_v: &[u8]) -> Result<(), EtcdError>;
}

} // verus!
