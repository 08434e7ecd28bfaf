//! A compiler and virtual machine for a branching-dialogue scripting
//! language. Source texts are compiled into a linkable bytecode `Program`,
//! which a suspendable stack-machine interpreter executes under the control
//! of a host application.

pub mod analyzer;
pub mod ast;
pub mod codegen;
pub mod collections;
pub mod compiler;
pub mod declaration;
pub mod diagnostics;
pub mod library;
pub mod parser;
pub mod position;
pub mod program;
pub mod storage;
pub mod text;
pub mod types;
pub mod vm;
