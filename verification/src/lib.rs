//! Lexical front-end for a small C-like scripting language: source text in,
//! a finite stream of classified tokens out.

pub mod lexer;
pub mod scan;
pub mod token;
