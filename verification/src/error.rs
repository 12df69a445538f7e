//! The ways a compilation can be refused.

use vstd::prelude::*;

verus! {

/// Why a program was rejected. `S` is `String` for values the library hands
/// out, and `Seq<char>` for the model that the contracts speak of.
#[derive(Debug, PartialEq, Eq)]
pub enum CompileError<S> {
    /// A keyword was required and another token stood in its place.
    Expected { expected: S, found: S },
    /// `#MAEK` opened the head, but `HEAD` did not follow.
    ExpectedHead,
    /// `#GIMMEH` opened the title, but `TITLE` did not follow.
    ExpectedTitle,
    /// The tokens ran out before the `#OIC` that closes a title, bold or
    /// italic text.
    MissingOicTerminator,
    /// The tokens ran out before the `#TLDR` that closes a comment.
    MissingTldrTerminator,
    /// `#MAEK` was followed by a token (upper-cased) that it cannot open.
    UnexpectedAfterMaek(S),
    /// `#GIMMEH` was followed by a token (upper-cased) that it cannot open.
    UnexpectedAfterGimmeh(S),
    /// A word of text begins with `#`.
    UnexpectedKeyword(S),
    /// A variable was used that no enclosing scope defines.
    UndefinedVariable(S),
}

impl View for CompileError<String> {
    type V = CompileError<Seq<char>>;

    open spec fn view(&self) -> CompileError<Seq<char>> {
        match self {
            CompileError::Expected { expected, found } => CompileError::Expected {
                expected: expected@,
                found: found@,
            },
            CompileError::ExpectedHead => CompileError::ExpectedHead,
            CompileError::ExpectedTitle => CompileError::ExpectedTitle,
            CompileError::MissingOicTerminator => CompileError::MissingOicTerminator,
            CompileError::MissingTldrTerminator => CompileError::MissingTldrTerminator,
            CompileError::UnexpectedAfterMaek(t) => CompileError::UnexpectedAfterMaek(t@),
            CompileError::UnexpectedAfterGimmeh(t) => CompileError::UnexpectedAfterGimmeh(t@),
            CompileError::UnexpectedKeyword(t) => CompileError::UnexpectedKeyword(t@),
            CompileError::UndefinedVariable(t) => CompileError::UndefinedVariable(t@),
        }
    }
}

/// The diagnostic printed for an error.
pub open spec fn error_message(e: CompileError<Seq<char>>) -> Seq<char> {
    match e {
        CompileError::Expected { expected, found } => "Syntax error: expected "@ + expected
            + ", found "@ + found,
        CompileError::ExpectedHead => "Syntax error: expected HEAD"@,
        CompileError::ExpectedTitle => "Syntax error: expected TITLE"@,
        CompileError::MissingOicTerminator => "Syntax error: TITLE missing #OIC terminator"@,
        CompileError::MissingTldrTerminator => "Syntax error: comment missing #TLDR terminator"@,
        CompileError::UnexpectedAfterMaek(t) => "Syntax error: unexpected token '"@ + t
            + "' after #MAEK"@,
        CompileError::UnexpectedAfterGimmeh(t) => "Syntax error: unexpected token '"@ + t
            + "' after #GIMMEH"@,
        CompileError::UnexpectedKeyword(t) => "Syntax error: unexpected keyword '"@ + t + "'"@,
        CompileError::UndefinedVariable(t) => "Static semantic error: variable '"@ + t
            + "' not defined"@,
    }
}

impl CompileError<String> {
    /// The diagnostic for this error.
    pub fn message(&self) -> (r: String)
        ensures
            r@ == error_message(self@),
    {
        let mut m = String::new();
        match self {
            CompileError::Expected { expected, found } => {
                m.append("Syntax error: expected ");
                m.append(expected.as_str());
                m.append(", found ");
                m.append(found.as_str());
            },
            CompileError::ExpectedHead => {
                m.append("Syntax error: expected HEAD");
            },
            CompileError::ExpectedTitle => {
                m.append("Syntax error: expected TITLE");
            },
            CompileError::MissingOicTerminator => {
                m.append("Syntax error: TITLE missing #OIC terminator");
            },
            CompileError::MissingTldrTerminator => {
                m.append("Syntax error: comment missing #TLDR terminator");
            },
            CompileError::UnexpectedAfterMaek(t) => {
                m.append("Syntax error: unexpected token '");
                m.append(t.as_str());
                m.append("' after #MAEK");
            },
            CompileError::UnexpectedAfterGimmeh(t) => {
                m.append("Syntax error: unexpected token '");
                m.append(t.as_str());
                m.append("' after #GIMMEH");
            },
            CompileError::UnexpectedKeyword(t) => {
                m.append("Syntax error: unexpected keyword '");
                m.append(t.as_str());
                m.append("'");
            },
            CompileError::UndefinedVariable(t) => {
                m.append("Static semantic error: variable '");
                m.append(t.as_str());
                m.append("' not defined");
            },
        }
        m
    }
}

} // verus!
