//! Live-stream watcher core: tracked channels, per-channel live state,
//! capture bookkeeping and output naming.

pub mod sanitize;
pub mod registry;
pub mod live_state;
pub mod scheduler;
pub mod naming;
pub mod provider;
pub mod control;
pub mod capture;
