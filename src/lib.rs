//! Audits network reachability of a fleet of servers against a declared
//! port policy: every policy port is probed once per resolved server and the
//! outcome is classified against the expectation.
pub mod result;
pub mod services;
pub mod ports;
pub mod text;
pub mod server;
pub mod role;
pub mod inventory;
pub mod reporting;
pub mod fleet;

pub use inventory::collect_ports;
