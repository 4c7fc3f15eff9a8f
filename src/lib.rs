//! A stack-based virtual machine for a small textual assembly language:
//! the source scanner and decoder (`parse`), the interpreter (`machine`),
//! and what is proved of short instruction sequences (`laws`).

pub mod error;
pub mod error_print;
pub mod laws;
pub mod machine;
pub mod parse;
pub mod text;
