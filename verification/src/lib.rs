//! A verified core of the AiScript engine: UTF-16 strings and name paths,
//! tokens and token streams, the syntax tree with its parser, the type
//! model, the register-machine IR with its translator, and the virtual machine.

pub mod common;
pub mod lexer;
pub mod ast;
pub mod types;
pub mod parser;
pub mod ir;
pub mod vm;
pub mod library;
pub mod interpreter;
pub mod laws;
