//! Reading the code of a service: repositories, checkouts, files.

pub mod git;
pub mod git_laws;
pub mod manager;
pub mod pipeline;
pub mod repo_laws;
pub mod search;
pub mod search_laws;
