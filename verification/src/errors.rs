use vstd::prelude::*;
use vstd::string::StringExecFns;

verus! {

/// What went wrong inside a lexical scan, without the position.
#[derive(Debug, Clone, Copy, PartialEq, Eq)]
pub enum LexErrorKind {
    /// A character that cannot start any known token or literal.
    UnknownCharacter(char),
    /// A `'` or `"` literal that reaches the end of input before its
    /// closing quote.
    UnterminatedString,
    /// A template literal that reaches the end of input before its closing
    /// backtick, or a `${` span without its closing brace.
    UnterminatedTemplate,
    /// A `/*` comment that reaches the end of input before `*/`.
    UnterminatedComment,
}

/// Structured error data of the engine.
///
/// Lexical errors carry the position at which they are anchored; runtime
/// errors carry the name or handle they are about. The engine only
/// classifies: rendering is left to the caller, via [`EndiumError::message`].
#[derive(Debug, PartialEq)]
pub enum EndiumError {
    /// A malformed or unterminated literal, or an unknown character; lexing
    /// halts at the first one.
    LexError { kind: LexErrorKind, line: u64, column: u64, offset: u64 },
    /// A bare identifier or an assignment target that no frame of the live
    /// scope chain binds.
    UndefinedVariable(String),
    /// A mutation aimed at a binding declared with `const`.
    AssignmentToConstantVariable(String),
    /// A heap handle that no allocation of this run produced.
    HeapHandleNotFound(u64),
    /// Numeric literal text that does not denote a floating-point value.
    MalformedNumericLiteral(String),
    /// Nested evaluation deeper than the configured maximum.
    RecursionLimitExceeded,
}

/// Mathematical model of an `EndiumError`: names as character sequences.
pub enum ErrorModel {
    Lex { kind: LexErrorKind, line: u64, column: u64, offset: u64 },
    UndefinedVariable(Seq<char>),
    AssignmentToConstantVariable(Seq<char>),
    HeapHandleNotFound(u64),
    MalformedNumericLiteral(Seq<char>),
    RecursionLimitExceeded,
}

pub open spec fn error_view(e: EndiumError) -> ErrorModel {
    match e {
        EndiumError::LexError { kind, line, column, offset } => ErrorModel::Lex {
            kind,
            line,
            column,
            offset,
        },
        EndiumError::UndefinedVariable(n) => ErrorModel::UndefinedVariable(n@),
        EndiumError::AssignmentToConstantVariable(n) => ErrorModel::AssignmentToConstantVariable(
            n@,
        ),
        EndiumError::HeapHandleNotFound(h) => ErrorModel::HeapHandleNotFound(h),
        EndiumError::MalformedNumericLiteral(t) => ErrorModel::MalformedNumericLiteral(t@),
        EndiumError::RecursionLimitExceeded => ErrorModel::RecursionLimitExceeded,
    }
}

impl View for EndiumError {
    type V = ErrorModel;

    open spec fn view(&self) -> ErrorModel {
        error_view(*self)
    }
}

impl Clone for EndiumError {
    /// The clone equals the original.
    fn clone(&self) -> (r: EndiumError)
        ensures
            r == *self,
    {
        match self {
            EndiumError::LexError { kind, line, column, offset } => EndiumError::LexError {
                kind: *kind,
                line: *line,
                column: *column,
                offset: *offset,
            },
            EndiumError::UndefinedVariable(n) => EndiumError::UndefinedVariable(n.clone()),
            EndiumError::AssignmentToConstantVariable(n) => {
                EndiumError::AssignmentToConstantVariable(n.clone())
            },
            EndiumError::HeapHandleNotFound(h) => EndiumError::HeapHandleNotFound(*h),
            EndiumError::MalformedNumericLiteral(t) => EndiumError::MalformedNumericLiteral(
                t.clone(),
            ),
            EndiumError::RecursionLimitExceeded => EndiumError::RecursionLimitExceeded,
        }
    }
}

impl EndiumError {
    /// A short fixed description of the error class, for the caller to
    /// display; the structured payload stays available on the variant.
    pub fn message(&self) -> (r: String)
        ensures
            r@.len() > 0,
            match self {
                EndiumError::LexError { kind, .. } => match kind {
                    LexErrorKind::UnknownCharacter(_) => r@ == "unknown character"@,
                    LexErrorKind::UnterminatedString => r@ == "unterminated string literal"@,
                    LexErrorKind::UnterminatedTemplate => r@ == "unterminated template literal"@,
                    LexErrorKind::UnterminatedComment => r@ == "unterminated block comment"@,
                },
                EndiumError::UndefinedVariable(_) => r@ == "undefined variable"@,
                EndiumError::AssignmentToConstantVariable(_) => r@
                    == "assignment to constant variable"@,
                EndiumError::HeapHandleNotFound(_) => r@ == "heap handle not found"@,
                EndiumError::MalformedNumericLiteral(_) => r@ == "malformed numeric literal"@,
                EndiumError::RecursionLimitExceeded => r@ == "recursion limit exceeded"@,
            },
    {
        let text: &str = match self {
            EndiumError::LexError { kind, .. } => match kind {
                LexErrorKind::UnknownCharacter(_) => "unknown character",
                LexErrorKind::UnterminatedString => "unterminated string literal",
                LexErrorKind::UnterminatedTemplate => "unterminated template literal",
                LexErrorKind::UnterminatedComment => "unterminated block comment",
            },
            EndiumError::UndefinedVariable(_) => "undefined variable",
            EndiumError::AssignmentToConstantVariable(_) => "assignment to constant variable",
            EndiumError::HeapHandleNotFound(_) => "heap handle not found",
            EndiumError::MalformedNumericLiteral(_) => "malformed numeric literal",
            EndiumError::RecursionLimitExceeded => "recursion limit exceeded",
        };
        proof {
            reveal_strlit("unknown character");
            reveal_strlit("unterminated string literal");
            reveal_strlit("unterminated template literal");
            reveal_strlit("unterminated block comment");
            reveal_strlit("undefined variable");
            reveal_strlit("assignment to constant variable");
            reveal_strlit("heap handle not found");
            reveal_strlit("malformed numeric literal");
            reveal_strlit("recursion limit exceeded");
        }
        String::from_str(text)
    }
}

} // verus!
