//! Cache-aside consistency layer of an order service.
//!
//! Reads are served from a bounded in-process cache and fall through to the
//! relational store on a miss; writes go to the store first and then refresh
//! the cache. Storage access, transport and encoding are performed by the
//! caller, which hands their results to the functions of this crate as plain
//! values.

pub mod cache;
pub mod config;
pub mod data;
pub mod db;
pub mod errors;
pub mod handlers;
pub mod laws;
pub mod registry;
pub mod responses;
