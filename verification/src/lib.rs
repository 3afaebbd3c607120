//! A lexical scanner for a small interpreted language.
//!
//! The scanner turns an immutable buffer of source bytes into a stream of
//! classified tokens, one per call, with one-byte lookahead for the
//! two-character operators. Every token boundary and classification is
//! specified against a mathematical model of the input, and the scanner is
//! proved to follow that model exactly.

pub mod lexer;
pub mod token;
