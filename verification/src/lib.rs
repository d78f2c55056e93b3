//! A health-check agent library.
//!
//! The crate contains the logic of an agent that periodically probes a set of
//! network services, derives a stable status per monitored component through a
//! hysteresis algorithm, and persists confirmed statuses in a crash-safe cache
//! so the agent can resume with its last known state after a restart.
//!
//! Network and file I/O live outside this crate; the modules here hold the
//! decisions: wire-level success predicates for each probe kind, status
//! derivation for multi-address components, the pending-counter state machine,
//! the scheduling rules for probe rounds, and the cache snapshot format.

pub mod cache;
pub mod configure;
pub mod connlib;
pub mod database;
pub mod datastructures;
pub mod jsontext;
pub mod scheduler;
pub mod statuspagelib;
pub mod strutil;

