//! Bookkeeping for long-running child processes: bounded output logs, the
//! lifecycle of each process, identifiers, and the registry that holds them.

pub mod errors;
pub mod ids;
pub mod log;
pub mod registry;
pub mod state;
