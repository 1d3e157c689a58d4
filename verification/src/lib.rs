//! A two-pass assembler for a small register machine with fixed-width
//! instructions, and the command language of its inspector.

pub mod assembler;
pub mod emitter;
pub mod encoder;
pub mod error;
pub mod image;
pub mod inspector;
pub mod instructions;
pub mod layout;
pub mod parser;
pub mod symbols;
pub mod text;
pub mod theorems;
pub mod token;
