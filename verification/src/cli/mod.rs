pub mod commands;
pub mod parser;
