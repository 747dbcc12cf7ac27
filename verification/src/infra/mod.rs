//! Paths and names of the local machine.

pub mod db;
pub mod logging;
pub mod path_laws;
pub mod pathname;
pub mod paths;
pub mod posix;
pub mod ssh_paths;
