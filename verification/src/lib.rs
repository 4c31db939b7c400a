//! An assembler for a small x86-64 assembly language: operand parsing, instruction
//! encoding and ELF output.
pub mod immediate;
pub mod opcodes;
pub mod place;
pub mod program;
pub mod registers;
pub mod strings;
pub mod text;
