//! The agents that carry out a diagnosis.

pub mod attempt;
pub mod detect;
pub mod event_laws;
pub mod history_laws;
pub mod prompt;
pub mod prompt_laws;
pub mod registry;
pub mod spawn;
pub mod stream;
