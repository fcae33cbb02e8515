//! A small scripting language: source text is scanned into tokens, parsed into
//! a syntax tree, compiled to byte code and run on a stack machine. Every
//! stage states what it computes as a function of its input.
//!
//! The library reads no file, writes to no console and computes with no
//! floating point number: where a program needs one of these, the machine
//! stops and says what it needs, and the host answers.

pub mod text;

pub mod types;

pub mod parser;

pub mod syntax;

pub mod compiler;

pub mod buildin;

pub mod vm;
