pub mod block_records;
pub mod index;
pub mod layout;
pub mod manifest;
