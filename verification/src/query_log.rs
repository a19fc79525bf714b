//! A bounded log of the queries that were run, and the token that drives
//! each entry through its phases.
//!
//! An entry is created when a query is received. The token that comes with
//! it records planning, the grant of a permit and the end of the query, with
//! the time each took; a token that is given up before the query ended
//! records a cancellation.

pub mod duration;
pub mod entry;
pub mod log;
pub mod phase;
pub mod plan;
pub mod state;
pub mod time;
pub mod token;

pub use duration::AtomicDuration;
pub use entry::QueryLogEntry;
pub use log::QueryLog;
pub use log::QueryLogEntries;
pub use phase::QueryPhase;
pub use plan::collect_compute_duration;
pub use plan::PlanNode;
pub use state::EntryState;
pub use time::Time;
pub use token::QueryCompletedToken;
pub use token::StatePermit;
pub use token::StatePlanned;
pub use token::StateReceived;
