//! Rule lifecycle and reconciliation engine for declared app-blocking rules.
//!
//! An operator declares intent ("block these apps for these devices, for this
//! time window") against a remote network-policy controller that keeps its own
//! authoritative enforcement state. This crate holds the verified core of that
//! system: the durable rule store with its uniqueness invariant, the
//! create/delete state machine for a single rule, time-based expiry, and the
//! two reconciliation algorithms that converge local declared state and remote
//! enforcement state (`sync`: link local rules to remote identifiers;
//! `cleanup`: delete remote objects with no local owner).
//!
//! The raw HTTP transport, session login, JSON shaping and timers are thin
//! collaborators around this engine; they hand plain values in and take plain
//! values back, so every decision the engine makes is verified.

pub mod naming;

pub mod rule;

pub mod catalog;

pub(crate) mod clock;

pub mod store;

pub mod lifecycle;

pub mod expiry;

pub mod reconcile;

pub mod device;
