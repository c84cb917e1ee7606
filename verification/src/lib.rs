//! A verified Logo-language front end and interpreter.
//!
//! The pipeline runs in three stages: the tokenizer turns source text into
//! classified tokens with byte spans, the parser builds an abstract syntax
//! tree from the token stream, and the interpreter walks that tree, keeping
//! turtle state and a variable environment, and emitting drawing commands
//! for an external canvas to carry out.

pub mod tokenizer;
pub mod num;
pub mod ast;
pub mod canvas;
pub mod turtle;
pub mod uncertain_bool;
pub mod interp;
pub mod parser;
