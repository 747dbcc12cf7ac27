//! Friday: the decision core of a diagnosis assistant.

pub mod agent;
pub mod analyzer;
pub mod app;
pub mod arthas;
pub mod chars;
pub mod chars_laws;
pub mod code;
pub mod exec;
pub mod ids;
pub mod infra;
pub mod json;
pub mod json_laws;
pub mod knowledge;
pub mod order;
pub mod outside;
pub mod regexes;
pub mod text;
