//! Assembler and virtual machine for a small 32-bit register CPU.
//!
//! [`lexer`] cuts assembly source into tokens, [`parser`] turns the tokens into
//! items, [`compiler`] lays the items out and emits the binary image, and
//! [`runtime`] executes an image on a flat byte-addressed memory.  [`report`]
//! does all of it in one call.

pub mod common;
pub mod compiler;
pub mod lexer;
pub mod parser;
pub mod report;
pub mod runtime;
