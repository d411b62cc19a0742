//! A verified single-pass lexical scanner for a small imperative language.
//!
//! The scanner turns UTF-8 source text into an ordered list of span-tagged
//! tokens together with a list of recoverable diagnostics. Spans are byte
//! offsets into the original text, so they stay correct over multi-byte
//! characters. The executable scanner is proved equal to a mathematical
//! model of the state machine, and the library's laws (span coverage,
//! keyword classification, operator resolution, trailing-token flushing)
//! are proved of that model.

pub mod lexer;
