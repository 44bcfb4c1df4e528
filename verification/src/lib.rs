//! Block-level backup engine: block mapping, change tracking, repository
//! formats, configuration rules and the cryptographic framing around them.

pub mod backup;
pub mod block;
pub mod cli;
pub mod config;
pub mod crypto;
pub mod repository;
pub mod restore;
pub mod tracker;
pub mod utils;

pub use utils::errors::HelixError;
