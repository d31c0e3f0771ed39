pub mod object;
pub mod values;
pub mod vm;
pub mod utils;
