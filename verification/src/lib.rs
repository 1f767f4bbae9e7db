//! A verified core for a Code Dx command-line client: the REPL argument
//! tokenizer, the project-context grammar, the layered API error model,
//! and the job-polling engine, with the surrounding data shapes.

pub mod branching;
pub mod client;
pub mod config;
pub mod errors;
pub mod polling;
pub mod repl;
pub mod text;
