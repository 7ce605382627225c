//! Planning logic of the domain replay supervisor: argument parsing, manifest
//! validation, trigger matching, workflow commands, control-plane records and
//! the storage keys and file names of the outputs.

pub mod text;
pub mod order;
pub mod constants;
pub mod types;
pub mod path;
pub mod number;
pub mod args;
pub mod time;
pub mod keys;
pub mod hash;
pub mod json;
pub mod planning;
pub mod run;
pub mod output;
