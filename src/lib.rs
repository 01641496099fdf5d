//! A scanner for a small interpreted language: it turns source text into a
//! flat sequence of classified tokens, with every step specified and proved.
pub mod chars;
pub mod lexer;
pub mod model;
pub mod repl;
pub mod token;
