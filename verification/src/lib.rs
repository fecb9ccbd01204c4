//! Decision logic of a TCP backend: when a non-blocking socket operation
//! is retried, parked or reported; how the user-space stack's settings are
//! read; and what the user-space stack answers on its own.
pub mod decimal;
pub mod ipv4;
pub mod config;
pub mod readiness;
pub mod netstack;
