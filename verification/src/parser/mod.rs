pub mod common;
pub mod expressions;
pub mod statement;
pub mod toplevel;
pub mod parser;
pub mod grammar;
pub mod extent;
