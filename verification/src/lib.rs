//! A small C compiler middle/back-end: it lowers a parsed expression tree
//! into a flat three-address intermediate representation, then through
//! instruction selection, stack-slot allocation and instruction
//! legalization into x86-64 assembly text.

pub mod decimal;
pub mod emit;
pub mod lex;
pub mod parse;
