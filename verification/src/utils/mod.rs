pub mod errors;
pub mod text;
pub mod number;
pub mod clock;
pub mod ids;
