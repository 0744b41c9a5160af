//! The lexical analyzer and the assembly emitter of a small compiler for a
//! restricted C-like language, with machine-checked contracts.

pub mod compiler;
