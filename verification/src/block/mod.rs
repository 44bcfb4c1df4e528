pub mod hasher;
pub mod mapper;
