//! Running commands on other machines.

pub mod channel;
pub mod k8s;
pub mod pool;
pub mod reach_laws;
pub mod reaching;
pub mod ssh;
pub mod ssh_run;
pub mod tunnel;
