//! Coordination of shared mutable state.
//!
//! Many contexts may read one value at a time and exactly one may change it,
//! while any number of them hold long-lived handles to it.
//!
//! - [`lock`] is the reader-writer lock protocol, with its admission policy
//!   and its poisoning.
//! - [`cell`] is the shared cell: the value, its lock, and the count of the
//!   handles that keep it alive.
//! - [`worker`] holds the programmes of the reader and the writer contexts.
//! - [`coordinator`] is the script of a run: start the readers, start the
//!   writer after a delay, join everyone, then read the cell.
//! - [`ensemble`] states what holds of a run under every schedule.
//! - [`config`] is the configuration record that the standard run protects.
//! - [`sort`] is an in-place bubble sort.
//!
//! The library takes no time and starts no context. Each call is one atomic
//! step; whoever shares a cell between contexts serialises the calls, waits
//! where the library says that access is busy, and lets the pauses pass.

pub mod cell;
pub mod config;
pub mod coordinator;
pub mod ensemble;
pub mod lock;
pub mod sort;
pub mod worker;
