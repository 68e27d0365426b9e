//! Verified core of a two-model collaboration runner: one model plans and
//! reviews, the other executes with file tools inside authorised paths.
//! Prompt building, reply parsing, the success rule, task bookkeeping, the
//! round-by-round run machine, the tool loop and the file tools' decisions
//! and reports live here; the application performs the I/O.

pub mod text;
pub mod model;
pub mod prompts;
pub mod json;
pub mod blocks;
pub mod config;
pub mod run;
pub mod agent;
pub mod store;
pub mod preview;
pub mod pe;
pub mod paths;
pub mod tools;
pub mod reports;
pub mod search;
