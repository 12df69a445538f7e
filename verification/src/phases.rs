//! The interfaces of the compiler's phases.

use vstd::prelude::*;
use crate::error::CompileError;

verus! {

/// A whole compiler: it reads a source text and turns it into HTML.
pub trait Compiler {
    /// Reads `source` and makes its first word the current token.
    fn compile(&mut self, source: &str);

    /// Moves to the next token and returns it.
    fn next_token(&mut self) -> String;

    /// Parses the tokens read by `compile` into HTML.
    fn parse(&mut self) -> Result<(), CompileError<String>>;

    /// The token under examination.
    fn current_token(&self) -> String;

    /// Replaces the token under examination.
    fn set_current_token(&mut self, tok: String);
}

/// Reading a source text character by character.
pub trait LexicalAnalyzer {
    /// The next character of the input, or `'\0'` once it is exhausted.
    fn get_char(&mut self) -> char;

    /// Adds a character to the word being built.
    fn add_char(&mut self, c: char);

    /// Whether a word is one of the language's keywords, in any letter case.
    fn lookup(&self, s: &str) -> bool;
}

/// One method per rule of the grammar, each consuming the tokens of its rule
/// and emitting their HTML.
pub trait SyntaxAnalyzer {
    fn parse_lolcode(&mut self) -> Result<(), CompileError<String>>;

    fn parse_head(&mut self) -> Result<(), CompileError<String>>;

    fn parse_title(&mut self) -> Result<(), CompileError<String>>;

    fn parse_comment(&mut self) -> Result<(), CompileError<String>>;

    fn parse_body(&mut self) -> Result<(), CompileError<String>>;

    fn parse_paragraph(&mut self) -> Result<(), CompileError<String>>;

    fn parse_inner_paragraph(&mut self) -> Result<(), CompileError<String>>;

    fn parse_inner_text(&mut self) -> Result<(), CompileError<String>>;

    fn parse_variable_define(&mut self) -> Result<(), CompileError<String>>;

    fn parse_variable_use(&mut self) -> Result<(), CompileError<String>>;

    fn parse_bold(&mut self) -> Result<(), CompileError<String>>;

    fn parse_italics(&mut self) -> Result<(), CompileError<String>>;

    fn parse_list(&mut self) -> Result<(), CompileError<String>>;

    fn parse_list_items(&mut self) -> Result<(), CompileError<String>>;

    fn parse_inner_list(&mut self) -> Result<(), CompileError<String>>;

    fn parse_link(&mut self) -> Result<(), CompileError<String>>;

    fn parse_newline(&mut self) -> Result<(), CompileError<String>>;

    fn parse_text(&mut self) -> Result<(), CompileError<String>>;
}

} // verus!
