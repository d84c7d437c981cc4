//! Supervision of a network-client child process: installation layout, update
//! and driver decisions, credential upkeep, the child's log-line grammar, the
//! supervisor state machine and the registry of live process ids.

pub mod address;
pub mod credential;
pub mod driver;
pub mod endpoints;
pub mod launch;
pub mod layout;
pub mod log_line;
pub mod manifest;
pub mod registry;
pub mod status;
pub mod supervisor;
pub mod text;
