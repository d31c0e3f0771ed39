pub mod error;
pub mod path;
pub mod position;
pub mod string;
