pub mod compression;
pub mod encryption;
