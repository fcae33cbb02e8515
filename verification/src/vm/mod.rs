//! The machine that runs byte code, and the pipeline from source text to a
//! finished run.

pub mod arithmetic;

pub mod machine;

pub mod interpreter;

pub mod executer;

pub mod meaning;

pub mod programs;
