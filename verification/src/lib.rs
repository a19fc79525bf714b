//! Partition-template key codec and query-lifecycle log of a time-series
//! database.
//!
//! [`partition_template`] maps rows to partition keys and back; its template
//! messages are modelled in [`proto`]. [`query_log`] records the phases a
//! query moves through. [`catalog_cache`] and [`panic_logging`] hold the
//! rules of two smaller services, and [`bytes`] what they all share.

pub mod bytes;
pub mod catalog_cache;
pub mod panic_logging;
pub mod partition_template;
pub mod proto;
pub mod query_log;
