//! A scanner for the molgy toy language: source text in, classified tokens out.

pub mod cli;
pub mod lexer;
