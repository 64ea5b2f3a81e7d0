//! Lexical analyzer for a small expression language.
//!
//! The scanner segments raw source text into tagged tokens, resolving
//! multi-character operator ambiguities by greedy longest match, classifying
//! identifier runs as keywords or user identifiers, and recording source
//! locations. Whitespace and line comments are elided; each line terminator
//! (`\n`, `\r\n`, or a lone `\r`) yields one `NewLine` token.

pub mod lexer;
pub mod props;
pub mod token;
