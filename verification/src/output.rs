//! The outputs of a run: their contents, local file paths and storage keys.
pub mod jsonl;
pub mod local;
pub mod s3;
