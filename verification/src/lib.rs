//! Transactional and replication core of a point-of-sale inventory
//! application: an atomic sale/return/purchase processor with FIFO lot-cost
//! tracking, an outbox-based multi-device synchronization protocol, and a
//! bounded read cache.

pub mod accounts;
pub mod cache;
pub mod chars;
pub mod error;
pub mod ids;
pub mod lots;
pub mod models;
pub mod outbox;
pub mod replication;
pub mod sale;
pub mod scanner;
pub mod stock;
pub mod store;
pub mod updater;
pub mod validation;
pub mod worker;
