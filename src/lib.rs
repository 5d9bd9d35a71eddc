//! A toolchain for the 6-bit Diana Compiled Language: lexer, immediate
//! expressions, an IR generator that lowers pseudo-instructions to four NOR-based
//! primitives, an assembler and a memory-mapped emulator.
pub mod word;
pub mod codec;
pub mod numeric;
pub mod span;
pub mod tokens;
pub mod lexer;
pub mod diagnostic;
pub mod symbols;
pub mod ir;
pub mod labels;
pub mod generator;
pub mod instruction;
pub mod assembler;
pub mod emulation;
pub mod grammar;
pub mod parser;
pub mod compile;
pub mod laws;
