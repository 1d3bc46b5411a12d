//! A small imperative scripting language: a tokenizer, a recursive-descent
//! parser that builds a syntax tree, and a tree-walking interpreter.
//!
//! Every function is verified against a mathematical model: the token
//! stream, the syntax tree and the interpreter state each have a view made
//! of sequences and integers, and the contracts are stated over those views.
//!
//! - [`lexer`]: tokens, and the tokenizer from text to a token stream.
//! - [`parser`]: the syntax tree, and the parser from a token stream to a tree.
//! - [`interpreter`]: variables, functions, and the evaluator that runs a tree.
//!   What a program prints is collected line by line, for the caller to write out.
//! - [`roundtrip`]: what the tokenizer and the parser together make of a number.

pub mod lexer;
pub mod parser;
pub mod interpreter;
pub mod roundtrip;
