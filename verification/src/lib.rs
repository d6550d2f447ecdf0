//! A small local DNS resolver library: an expiring key-value cache with
//! explicit time, a tiered resolution engine (cache, static table, remote
//! resolver, system resolver) that writes every fresh answer through to the
//! cache and never caches a failure, and the control state machine a server
//! loop drives.

pub mod cache;
pub mod dns;
pub mod logger;
pub mod utils;
