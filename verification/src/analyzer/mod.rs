//! Looking into heap dumps with an analyzer, a process of its own.

pub mod call_laws;
pub mod client;
pub mod java;
pub mod manager;
pub mod open_laws;
pub mod session;
