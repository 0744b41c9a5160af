//! The two stages of the compiler: [`lexer`] turns source text into tokens,
//! [`emitter`] turns a resolved instruction tree into assembly text.

pub mod asm_tree;
pub mod emitter;
pub mod grammar;
pub mod lexer;
pub mod machine;
pub mod pattern;
pub mod text;
