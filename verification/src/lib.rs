//! Residency of spawned agents.
//!
//! A session keeps at most a configured number of spawned agents loaded. This crate decides which
//! agents stay: it counts the slots in use, remembers the loaded agents from least to most recently
//! used, protects agents with unfinished submissions, and walks a caller through unloading an idle
//! agent, one request and one reply at a time.
pub mod error;
pub mod exchange;
pub mod gate_laws;
pub mod gates;
pub mod history;
pub mod operation_laws;
pub mod release;
pub mod release_laws;
pub mod reservation;
pub mod reservation_laws;
pub mod residency;
pub mod residency_laws;
pub mod retire;
mod seqs;
pub mod state;
pub mod thread;
pub mod unload;
pub mod unload_laws;
