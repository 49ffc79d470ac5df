//! Translation of stack-machine (VM) instructions into Hack assembly.

pub mod text;
pub mod operations;
pub mod hack;
pub mod codegen;
pub mod command;
pub mod parser;
pub mod laws;
pub mod machine;
