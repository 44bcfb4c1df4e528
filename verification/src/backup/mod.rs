pub mod engine;
pub mod full;
pub mod incremental;
