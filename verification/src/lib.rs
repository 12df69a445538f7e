//! A compiler from a small LOLCODE-flavoured markup language to HTML:
//! a whitespace lexer, a recursive-descent parser with static scopes,
//! and the HTML it emits, each specified over mathematical models.

pub mod compiler;
pub mod error;
pub mod grammar;
pub mod laws;
pub mod lexer;
pub mod paths;
pub mod phases;
pub mod scope;
pub mod sentences;
pub mod text;
