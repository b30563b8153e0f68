//! A lexical analyzer for an 8080-family assembly mnemonic language.
//!
//! The scanner turns raw source text (single-byte ASCII) into a sequence of
//! typed instruction tokens, each carrying an opcode, its operands, the
//! instruction's lexeme, and its source position (line and column).

pub mod catalog;
pub mod laws;
pub mod model;
pub mod scanner;
pub mod token;
