//! Redis-backed queue library for ASAP and timed jobs: the verified core.

pub mod text;
pub mod time;
pub mod types;
pub mod error;
pub mod config;
pub mod store;
pub mod builder;
pub mod protocol;
pub mod codec;
pub mod keys;
pub mod records;
pub mod worker;
pub mod scripts;
pub mod cli;
