//! Sessions with arthas, an agent inside a running JVM of another machine.

pub mod attach;
pub mod attach_laws;
pub mod attach_run;
pub mod bridge;
pub mod bridge_laws;
pub mod manager;
pub mod open_laws;
pub mod session_laws;
