//! HTTP client backend for a caching proxy: request transactions, streamed
//! response delivery and probe-driven backend health.

#![allow(non_camel_case_types)]

pub mod backend;
pub mod exchange;
pub mod foreign;
pub mod health;
pub mod message;
pub mod probe;
pub mod stream;
pub mod transaction;
