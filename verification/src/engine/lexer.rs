use vstd::prelude::*;
use vstd::string::{StrSliceExecFns, StringExecFns};

use crate::engine::tokens::{token_view, tokens_view, Token, TokenModel};
use crate::errors::{EndiumError, ErrorModel, LexErrorKind};
use crate::utils::chars::{char_utf8_len, chars_range, str_chars, string_from_chars, string_from_range, utf8_len};
use crate::values::js_number::is_digit;

verus! {

// --- character classes -------------------------------------------------

/// Whitespace the lexer skips; newlines are significant and not included.
pub open spec fn is_space(c: char) -> bool {
    c == ' ' || c == '\t'
}

pub open spec fn is_ident_start(c: char) -> bool {
    (97 <= c as u32 && c as u32 <= 122) || (65 <= c as u32 && c as u32 <= 90) || c == '_' || c
        == '$'
}

pub open spec fn is_ident_cont(c: char) -> bool {
    is_ident_start(c) || is_digit(c)
}

// --- positions for diagnostics -----------------------------------------

/// The 1-based line of the character at `p`, saturating at `u64::MAX`.
pub open spec fn line_of(s: Seq<char>, p: int) -> int
    decreases p,
{
    if p <= 0 {
        1
    } else if s[p - 1] == '\n' && line_of(s, p - 1) < u64::MAX {
        line_of(s, p - 1) + 1
    } else {
        line_of(s, p - 1)
    }
}

/// The 1-based column of the character at `p`, saturating at `u64::MAX`.
pub open spec fn col_of(s: Seq<char>, p: int) -> int
    decreases p,
{
    if p <= 0 {
        1
    } else if s[p - 1] == '\n' {
        1
    } else if col_of(s, p - 1) < u64::MAX {
        col_of(s, p - 1) + 1
    } else {
        col_of(s, p - 1)
    }
}

/// The byte offset of the character at `p` in the UTF-8 encoding of `s`,
/// saturating at `u64::MAX`.
pub open spec fn byte_of(s: Seq<char>, p: int) -> int
    decreases p,
{
    if p <= 0 {
        0
    } else if byte_of(s, p - 1) + char_utf8_len(s[p - 1]) > u64::MAX {
        u64::MAX as int
    } else {
        byte_of(s, p - 1) + char_utf8_len(s[p - 1])
    }
}

/// A lexical error anchored at the character position `p`.
pub open spec fn lex_err(s: Seq<char>, p: int, kind: LexErrorKind) -> ErrorModel {
    ErrorModel::Lex {
        kind,
        line: line_of(s, p) as u64,
        column: col_of(s, p) as u64,
        offset: byte_of(s, p) as u64,
    }
}

/// Computes line, column and byte offset of position `pos`.
#[verifier::loop_isolation(false)]
fn position_info(chars: &Vec<char>, pos: usize) -> (r: (u64, u64, u64))
    requires
        pos <= chars@.len(),
    ensures
        r.0 as int == line_of(chars@, pos as int),
        r.1 as int == col_of(chars@, pos as int),
        r.2 as int == byte_of(chars@, pos as int),
{
    let mut line: u64 = 1;
    let mut col: u64 = 1;
    let mut off: u64 = 0;
    let mut i: usize = 0;
    while i < pos
        invariant
            i <= pos,
            line as int == line_of(chars@, i as int),
            col as int == col_of(chars@, i as int),
            off as int == byte_of(chars@, i as int),
        decreases pos - i,
    {
        let c = chars[i];
        if c == '\n' {
            if line < u64::MAX {
                line = line + 1;
            }
            col = 1;
        } else if col < u64::MAX {
            col = col + 1;
        }
        let l = utf8_len(c);
        if off > u64::MAX - l {
            off = u64::MAX;
        } else {
            off = off + l;
        }
        i = i + 1;
    }
    (line, col, off)
}

// --- scanners ----------------------------------------------------------

/// The first position at or after `pos` that does not hold a digit.
pub open spec fn digits_end(s: Seq<char>, pos: int) -> int
    decreases s.len() - pos,
{
    if 0 <= pos < s.len() && is_digit(s[pos]) {
        digits_end(s, pos + 1)
    } else {
        pos
    }
}

pub proof fn lemma_digits_end(s: Seq<char>, pos: int)
    requires
        0 <= pos <= s.len(),
    ensures
        pos <= digits_end(s, pos) <= s.len(),
    decreases s.len() - pos,
{
    if 0 <= pos < s.len() && is_digit(s[pos]) {
        lemma_digits_end(s, pos + 1);
    }
}

/// The first position at or after `pos` that does not continue an
/// identifier.
pub open spec fn ident_end(s: Seq<char>, pos: int) -> int
    decreases s.len() - pos,
{
    if 0 <= pos < s.len() && is_ident_cont(s[pos]) {
        ident_end(s, pos + 1)
    } else {
        pos
    }
}

pub proof fn lemma_ident_end(s: Seq<char>, pos: int)
    requires
        0 <= pos <= s.len(),
    ensures
        pos <= ident_end(s, pos) <= s.len(),
    decreases s.len() - pos,
{
    if 0 <= pos < s.len() && is_ident_cont(s[pos]) {
        lemma_ident_end(s, pos + 1);
    }
}

/// The first position at or after `pos` holding a newline, or the end.
pub open spec fn line_comment_end(s: Seq<char>, pos: int) -> int
    decreases s.len() - pos,
{
    if 0 <= pos < s.len() && s[pos] != '\n' {
        line_comment_end(s, pos + 1)
    } else {
        pos
    }
}

pub proof fn lemma_line_comment_end(s: Seq<char>, pos: int)
    requires
        0 <= pos <= s.len(),
    ensures
        pos <= line_comment_end(s, pos) <= s.len(),
    decreases s.len() - pos,
{
    if 0 <= pos < s.len() && s[pos] != '\n' {
        lemma_line_comment_end(s, pos + 1);
    }
}

/// The position just past the closing `*/` of a block comment whose body
/// starts at `pos`, or `None` if the input ends first.
pub open spec fn block_comment_end(s: Seq<char>, pos: int) -> Option<int>
    decreases s.len() - pos,
{
    if pos + 1 >= s.len() || pos < 0 {
        None
    } else if s[pos] == '*' && s[pos + 1] == '/' {
        Some(pos + 2)
    } else {
        block_comment_end(s, pos + 1)
    }
}

pub proof fn lemma_block_comment_end(s: Seq<char>, pos: int)
    requires
        0 <= pos,
    ensures
        block_comment_end(s, pos) matches Some(e) ==> pos + 2 <= e <= s.len(),
    decreases s.len() - pos,
{
    if pos + 1 >= s.len() {
    } else if s[pos] == '*' && s[pos + 1] == '/' {
    } else {
        lemma_block_comment_end(s, pos + 1);
    }
}

/// The end of the numeric-literal text that starts at `pos`: digits, at
/// most one dot with optional fraction digits, and an optional `e`/`E`
/// exponent with an optional sign and at least one digit, consumed
/// greedily.
pub open spec fn number_end(s: Seq<char>, pos: int) -> int {
    let d = digits_end(s, pos);
    let f = if d < s.len() && s[d] == '.' {
        digits_end(s, d + 1)
    } else {
        d
    };
    exponent_end(s, f)
}

/// The end of the exponent suffix starting at `pos`, or `pos` if none
/// starts there.
pub open spec fn exponent_end(s: Seq<char>, pos: int) -> int {
    if 0 <= pos < s.len() && (s[pos] == 'e' || s[pos] == 'E') {
        if pos + 1 < s.len() && is_digit(s[pos + 1]) {
            digits_end(s, pos + 2)
        } else if pos + 2 < s.len() && (s[pos + 1] == '+' || s[pos + 1] == '-') && is_digit(
            s[pos + 2],
        ) {
            digits_end(s, pos + 3)
        } else {
            pos
        }
    } else {
        pos
    }
}

/// What an escape sequence `\c` inside a string literal decodes to.
pub open spec fn escape_char(c: char) -> char {
    if c == 'n' {
        '\n'
    } else if c == 't' {
        '\t'
    } else if c == 'r' {
        '\r'
    } else if c == '0' {
        '\u{0000}'
    } else {
        c
    }
}

/// Scans a `'` or `"` literal from just past the opening quote: the
/// decoded content and the position just past the closing quote, or `None`
/// if the input ends before an unescaped closing quote.
pub open spec fn string_scan(s: Seq<char>, pos: int, q: char) -> Option<(Seq<char>, int)>
    decreases s.len() - pos,
{
    if pos < 0 || pos >= s.len() {
        None
    } else if s[pos] == q {
        Some((Seq::empty(), pos + 1))
    } else if s[pos] == '\\' {
        if pos + 1 >= s.len() {
            None
        } else {
            match string_scan(s, pos + 2, q) {
                Some((t, n)) => Some((seq![escape_char(s[pos + 1])] + t, n)),
                None => None,
            }
        }
    } else {
        match string_scan(s, pos + 1, q) {
            Some((t, n)) => Some((seq![s[pos]] + t, n)),
            None => None,
        }
    }
}

pub proof fn lemma_string_scan(s: Seq<char>, pos: int, q: char)
    requires
        0 <= pos,
    ensures
        string_scan(s, pos, q) matches Some(t) ==> pos < t.1 <= s.len(),
    decreases s.len() - pos,
{
    if pos >= s.len() {
    } else if s[pos] == q {
    } else if s[pos] == '\\' {
        if pos + 1 < s.len() {
            lemma_string_scan(s, pos + 2, q);
        }
    } else {
        lemma_string_scan(s, pos + 1, q);
    }
}

/// The position of the `}` that closes a `${` span, counting nested
/// braces, or `None` if the input ends first.
pub open spec fn expr_span_end(s: Seq<char>, pos: int, depth: int) -> Option<int>
    decreases s.len() - pos,
{
    if pos < 0 || pos >= s.len() {
        None
    } else if s[pos] == '}' && depth == 1 {
        Some(pos)
    } else {
        expr_span_end(
            s,
            pos + 1,
            if s[pos] == '{' {
                depth + 1
            } else if s[pos] == '}' {
                depth - 1
            } else {
                depth
            },
        )
    }
}

pub proof fn lemma_expr_span_end(s: Seq<char>, pos: int, depth: int)
    requires
        0 <= pos,
    ensures
        expr_span_end(s, pos, depth) matches Some(e) ==> pos <= e < s.len(),
    decreases s.len() - pos,
{
    if pos >= s.len() {
    } else if s[pos] == '}' && depth == 1 {
    } else {
        lemma_expr_span_end(
            s,
            pos + 1,
            if s[pos] == '{' {
                depth + 1
            } else if s[pos] == '}' {
                depth - 1
            } else {
                depth
            },
        );
    }
}


// --- one-token steps ---------------------------------------------------

/// The operator, punctuation or newline token starting at `pos`, with the
/// position just past it, using longest-match-first disambiguation; `None`
/// where `pos` starts no such token. The `/` family is not here: it needs
/// comment handling.
pub open spec fn op_step(s: Seq<char>, pos: int) -> Option<(TokenModel, int)> {
    let c = s[pos];
    let h1 = pos + 1 < s.len();
    let h2 = pos + 2 < s.len();
    if c == '\n' {
        Some((TokenModel::Simple(Token::Newline), pos + 1))
    } else if c == '\r' {
        if h1 && s[pos + 1] == '\n' {
            Some((TokenModel::Simple(Token::Newline), pos + 2))
        } else {
            Some((TokenModel::Simple(Token::Newline), pos + 1))
        }
    } else if c == '.' {
        if h2 && s[pos + 1] == '.' && s[pos + 2] == '.' {
            Some((TokenModel::Simple(Token::Spread), pos + 3))
        } else {
            Some((TokenModel::Simple(Token::Dot), pos + 1))
        }
    } else if c == '!' {
        if h2 && s[pos + 1] == '=' && s[pos + 2] == '=' {
            Some((TokenModel::Simple(Token::StrictNotEqual), pos + 3))
        } else if h1 && s[pos + 1] == '=' {
            Some((TokenModel::Simple(Token::NotEqual), pos + 2))
        } else {
            Some((TokenModel::Simple(Token::LogicalNot), pos + 1))
        }
    } else if c == '&' {
        if h1 && s[pos + 1] == '&' {
            Some((TokenModel::Simple(Token::LogicalAnd), pos + 2))
        } else {
            Some((TokenModel::Simple(Token::BitwiseAnd), pos + 1))
        }
    } else if c == '|' {
        if h1 && s[pos + 1] == '|' {
            Some((TokenModel::Simple(Token::LogicalOr), pos + 2))
        } else {
            Some((TokenModel::Simple(Token::BitwiseOr), pos + 1))
        }
    } else if c == '(' {
        Some((TokenModel::Simple(Token::LeftParen), pos + 1))
    } else if c == ')' {
        Some((TokenModel::Simple(Token::RightParen), pos + 1))
    } else if c == '{' {
        Some((TokenModel::Simple(Token::LeftBrace), pos + 1))
    } else if c == '}' {
        Some((TokenModel::Simple(Token::RightBrace), pos + 1))
    } else if c == '[' {
        Some((TokenModel::Simple(Token::LeftBracket), pos + 1))
    } else if c == ']' {
        Some((TokenModel::Simple(Token::RightBracket), pos + 1))
    } else if c == ',' {
        Some((TokenModel::Simple(Token::Comma), pos + 1))
    } else if c == ':' {
        Some((TokenModel::Simple(Token::Colon), pos + 1))
    } else if c == ';' {
        Some((TokenModel::Simple(Token::Semicolon), pos + 1))
    } else if c == '=' {
        if h2 && s[pos + 1] == '=' && s[pos + 2] == '=' {
            Some((TokenModel::Simple(Token::StrictEqual), pos + 3))
        } else if h1 && s[pos + 1] == '=' {
            Some((TokenModel::Simple(Token::Equal), pos + 2))
        } else if h1 && s[pos + 1] == '>' {
            Some((TokenModel::Simple(Token::ArrowFunction), pos + 2))
        } else {
            Some((TokenModel::Simple(Token::Assign), pos + 1))
        }
    } else if c == '<' {
        if h1 && s[pos + 1] == '<' {
            Some((TokenModel::Simple(Token::LeftShift), pos + 2))
        } else if h1 && s[pos + 1] == '=' {
            Some((TokenModel::Simple(Token::LessThanOrEqual), pos + 2))
        } else {
            Some((TokenModel::Simple(Token::LessThan), pos + 1))
        }
    } else if c == '>' {
        if h2 && s[pos + 1] == '>' && s[pos + 2] == '>' {
            Some((TokenModel::Simple(Token::UnsignedRightShift), pos + 3))
        } else if h1 && s[pos + 1] == '>' {
            Some((TokenModel::Simple(Token::RightShift), pos + 2))
        } else if h1 && s[pos + 1] == '=' {
            Some((TokenModel::Simple(Token::GreaterThanOrEqual), pos + 2))
        } else {
            Some((TokenModel::Simple(Token::GreaterThan), pos + 1))
        }
    } else if c == '+' {
        if h1 && s[pos + 1] == '=' {
            Some((TokenModel::Simple(Token::PlusAssign), pos + 2))
        } else if h1 && s[pos + 1] == '+' {
            Some((TokenModel::Simple(Token::Increment), pos + 2))
        } else {
            Some((TokenModel::Simple(Token::Plus), pos + 1))
        }
    } else if c == '-' {
        if h1 && s[pos + 1] == '=' {
            Some((TokenModel::Simple(Token::MinusAssign), pos + 2))
        } else if h1 && s[pos + 1] == '-' {
            Some((TokenModel::Simple(Token::Decrement), pos + 2))
        } else {
            Some((TokenModel::Simple(Token::Minus), pos + 1))
        }
    } else if c == '*' {
        if h2 && s[pos + 1] == '*' && s[pos + 2] == '=' {
            Some((TokenModel::Simple(Token::ExponentAssign), pos + 3))
        } else if h1 && s[pos + 1] == '*' {
            Some((TokenModel::Simple(Token::Exponent), pos + 2))
        } else if h1 && s[pos + 1] == '=' {
            Some((TokenModel::Simple(Token::MultiplyAssign), pos + 2))
        } else {
            Some((TokenModel::Simple(Token::Multiply), pos + 1))
        }
    } else if c == '%' {
        if h1 && s[pos + 1] == '=' {
            Some((TokenModel::Simple(Token::ModuloAssign), pos + 2))
        } else {
            Some((TokenModel::Simple(Token::Modulo), pos + 1))
        }
    } else if c == '^' {
        Some((TokenModel::Simple(Token::BitwiseXor), pos + 1))
    } else if c == '~' {
        Some((TokenModel::Simple(Token::BitwiseNot), pos + 1))
    } else if c == '?' {
        if h1 && s[pos + 1] == '?' {
            Some((TokenModel::Simple(Token::NullishCoalescing), pos + 2))
        } else if h1 && s[pos + 1] == '.' {
            Some((TokenModel::Simple(Token::OptionalChaining), pos + 2))
        } else {
            Some((TokenModel::Simple(Token::Ternary), pos + 1))
        }
    } else {
        None
    }
}

/// What a digit-led lexeme means: the longest numeric-literal prefix
/// under the number rules, as a big-number token where an `n` suffix
/// follows it.
pub open spec fn numeric_token_model(w: Seq<char>) -> TokenModel {
    let e = number_end(w, 0);
    if e < w.len() && w[e] == 'n' {
        TokenModel::BigNumber(w.subrange(0, e))
    } else {
        TokenModel::Number(w.subrange(0, e))
    }
}

/// What an identifier-shaped lexeme means: a keyword or literal word from
/// the fixed table, or an identifier carrying the lexeme.
pub open spec fn keyword_model(w: Seq<char>) -> TokenModel {
    if w == "const"@ {
        TokenModel::Simple(Token::Const)
    } else if w == "let"@ {
        TokenModel::Simple(Token::Let)
    } else if w == "var"@ {
        TokenModel::Simple(Token::Var)
    } else if w == "function"@ {
        TokenModel::Simple(Token::Function)
    } else if w == "return"@ {
        TokenModel::Simple(Token::Return)
    } else if w == "yield"@ {
        TokenModel::Simple(Token::Yield)
    } else if w == "if"@ {
        TokenModel::Simple(Token::If)
    } else if w == "else"@ {
        TokenModel::Simple(Token::Else)
    } else if w == "switch"@ {
        TokenModel::Simple(Token::Switch)
    } else if w == "case"@ {
        TokenModel::Simple(Token::Case)
    } else if w == "break"@ {
        TokenModel::Simple(Token::Break)
    } else if w == "continue"@ {
        TokenModel::Simple(Token::Continue)
    } else if w == "default"@ {
        TokenModel::Simple(Token::Default)
    } else if w == "for"@ {
        TokenModel::Simple(Token::For)
    } else if w == "while"@ {
        TokenModel::Simple(Token::While)
    } else if w == "do"@ {
        TokenModel::Simple(Token::Do)
    } else if w == "try"@ {
        TokenModel::Simple(Token::Try)
    } else if w == "catch"@ {
        TokenModel::Simple(Token::Catch)
    } else if w == "finally"@ {
        TokenModel::Simple(Token::Finally)
    } else if w == "throw"@ {
        TokenModel::Simple(Token::Throw)
    } else if w == "class"@ {
        TokenModel::Simple(Token::Class)
    } else if w == "extends"@ {
        TokenModel::Simple(Token::Extends)
    } else if w == "super"@ {
        TokenModel::Simple(Token::Super)
    } else if w == "this"@ {
        TokenModel::Simple(Token::This)
    } else if w == "new"@ {
        TokenModel::Simple(Token::New)
    } else if w == "import"@ {
        TokenModel::Simple(Token::Import)
    } else if w == "export"@ {
        TokenModel::Simple(Token::Export)
    } else if w == "from"@ {
        TokenModel::Simple(Token::From)
    } else if w == "as"@ {
        TokenModel::Simple(Token::As)
    } else if w == "async"@ {
        TokenModel::Simple(Token::Async)
    } else if w == "await"@ {
        TokenModel::Simple(Token::Await)
    } else if w == "with"@ {
        TokenModel::Simple(Token::With)
    } else if w == "in"@ {
        TokenModel::Simple(Token::In)
    } else if w == "of"@ {
        TokenModel::Simple(Token::Of)
    } else if w == "instanceof"@ {
        TokenModel::Simple(Token::InstanceOf)
    } else if w == "typeof"@ {
        TokenModel::Simple(Token::Typeof)
    } else if w == "delete"@ {
        TokenModel::Simple(Token::Delete)
    } else if w == "void"@ {
        TokenModel::Simple(Token::Void)
    } else if w == "true"@ {
        TokenModel::Simple(Token::True)
    } else if w == "false"@ {
        TokenModel::Simple(Token::False)
    } else if w == "null"@ {
        TokenModel::Simple(Token::Null)
    } else if w == "undefined"@ {
        TokenModel::Simple(Token::Undefined)
    } else {
        TokenModel::Identifier(w)
    }
}

// --- the lexer ---------------------------------------------------------

/// What lexing the input from `pos` onward yields: the remaining tokens in
/// order, or the first lexical error. This is the meaning of
/// [`Lexer::tokenize`], stated once and shared by every piece of the
/// scanner.
pub open spec fn lex_from(s: Seq<char>, pos: int) -> Result<Seq<TokenModel>, ErrorModel>
    decreases s.len() - pos, 1int,
        when pos >= 0
        via lex_from_decreases
{
    if pos < 0 || pos >= s.len() {
        Ok(Seq::empty())
    } else {
        let c = s[pos];
        if is_space(c) {
            lex_from(s, pos + 1)
        } else if c == '/' {
            if pos + 1 < s.len() && s[pos + 1] == '/' {
                let e = line_comment_end(s, pos + 2);
                cons_tok(TokenModel::Comment(s.subrange(pos + 2, e)), lex_from(s, e))
            } else if pos + 1 < s.len() && s[pos + 1] == '*' {
                match block_comment_end(s, pos + 2) {
                    Some(e) => cons_tok(
                        TokenModel::BlockComment(s.subrange(pos + 2, e - 2)),
                        lex_from(s, e),
                    ),
                    None => Err(lex_err(s, pos, LexErrorKind::UnterminatedComment)),
                }
            } else if pos + 1 < s.len() && s[pos + 1] == '=' {
                cons_tok(TokenModel::Simple(Token::DivideAssign), lex_from(s, pos + 2))
            } else {
                cons_tok(TokenModel::Simple(Token::Divide), lex_from(s, pos + 1))
            }
        } else if c == '\'' || c == '"' {
            match string_scan(s, pos + 1, c) {
                Some((t, n)) => cons_tok(TokenModel::Str(t), lex_from(s, n)),
                None => Err(lex_err(s, pos, LexErrorKind::UnterminatedString)),
            }
        } else if c == '`' {
            match template_scan(s, pos + 1, pos, Seq::empty(), Seq::empty()) {
                Ok((segs, n)) => {
                    // a successful template scan always ends past `pos` and
                    // within the input (lemma_template_scan), so the guard
                    // changes nothing; it keeps termination evident here
                    let n2 = if pos < n <= s.len() {
                        n
                    } else {
                        pos + 1
                    };
                    cons_tok(TokenModel::TemplateString(segs), lex_from(s, n2))
                },
                Err(e) => Err(e),
            }
        } else if is_digit(c) {
            let e = number_end(s, pos);
            if e < s.len() && s[e] == 'n' {
                cons_tok(TokenModel::BigNumber(s.subrange(pos, e)), lex_from(s, e + 1))
            } else {
                cons_tok(TokenModel::Number(s.subrange(pos, e)), lex_from(s, e))
            }
        } else if is_ident_start(c) {
            let e = ident_end(s, pos);
            cons_tok(keyword_model(s.subrange(pos, e)), lex_from(s, e))
        } else {
            match op_step(s, pos) {
                Some((t, n)) => cons_tok(t, lex_from(s, n)),
                None => Err(lex_err(s, pos, LexErrorKind::UnknownCharacter(c))),
            }
        }
    }
}

/// Prepends one token to the rest of a lexing outcome.
pub open spec fn cons_tok(t: TokenModel, rest: Result<Seq<TokenModel>, ErrorModel>) -> Result<
    Seq<TokenModel>,
    ErrorModel,
> {
    match rest {
        Ok(ts) => Ok(seq![t] + ts),
        Err(e) => Err(e),
    }
}

/// Scans a template literal from just past the opening backtick: literal
/// text accumulates into `Str` segments, each `${...}` span is lexed
/// recursively and wrapped as a nested `TemplateExpr` segment. Yields the
/// segments and the position just past the closing backtick, or an error
/// anchored at the opening backtick `tstart` if the input ends first.
pub open spec fn template_scan(
    s: Seq<char>,
    pos: int,
    tstart: int,
    cur: Seq<char>,
    segs: Seq<TokenModel>,
) -> Result<(Seq<TokenModel>, int), ErrorModel>
    decreases s.len() - pos, 2int,
        when pos >= 0 && tstart >= 0
        via template_scan_decreases
{
    if pos < 0 || pos >= s.len() {
        Err(lex_err(s, tstart, LexErrorKind::UnterminatedTemplate))
    } else if s[pos] == '`' {
        if cur.len() > 0 {
            Ok((segs.push(TokenModel::Str(cur)), pos + 1))
        } else {
            Ok((segs, pos + 1))
        }
    } else if s[pos] == '$' && pos + 1 < s.len() && s[pos + 1] == '{' {
        let segs1 = if cur.len() > 0 || segs.len() == 0 {
            segs.push(TokenModel::Str(cur))
        } else {
            segs
        };
        match expr_span_end(s, pos + 2, 1) {
            Some(e) => match lex_from(s.subrange(pos + 2, e), 0) {
                Ok(toks) => template_scan(
                    s,
                    e + 1,
                    tstart,
                    Seq::empty(),
                    segs1.push(TokenModel::TemplateExpr(toks)),
                ),
                Err(er) => Err(er),
            },
            None => Err(lex_err(s, tstart, LexErrorKind::UnterminatedTemplate)),
        }
    } else {
        template_scan(s, pos + 1, tstart, cur.push(s[pos]), segs)
    }
}

/// A template scan that succeeds ends past where it started.
pub proof fn lemma_template_scan(
    s: Seq<char>,
    pos: int,
    tstart: int,
    cur: Seq<char>,
    segs: Seq<TokenModel>,
)
    requires
        0 <= pos,
        0 <= tstart,
    ensures
        template_scan(s, pos, tstart, cur, segs) matches Ok(t) ==> pos < t.1 <= s.len(),
    decreases s.len() - pos,
{
    if pos >= s.len() {
    } else if s[pos] == '`' {
    } else if s[pos] == '$' && pos + 1 < s.len() && s[pos + 1] == '{' {
        let segs1 = if cur.len() > 0 || segs.len() == 0 {
            segs.push(TokenModel::Str(cur))
        } else {
            segs
        };
        lemma_expr_span_end(s, pos + 2, 1);
        match expr_span_end(s, pos + 2, 1) {
            Some(e) => match lex_from(s.subrange(pos + 2, e), 0) {
                Ok(toks) => {
                    lemma_template_scan(
                        s,
                        e + 1,
                        tstart,
                        Seq::empty(),
                        segs1.push(TokenModel::TemplateExpr(toks)),
                    );
                },
                Err(_) => {},
            },
            None => {},
        }
    } else {
        lemma_template_scan(s, pos + 1, tstart, cur.push(s[pos]), segs);
    }
}

#[via_fn]
proof fn lex_from_decreases(s: Seq<char>, pos: int) {
    if 0 <= pos < s.len() {
        let c = s[pos];
        if c == '/' {
            if pos + 1 < s.len() && s[pos + 1] == '/' {
                lemma_line_comment_end(s, pos + 2);
            } else if pos + 1 < s.len() && s[pos + 1] == '*' {
                lemma_block_comment_end(s, pos + 2);
            }
        } else if c == '\'' || c == '"' {
            lemma_string_scan(s, pos + 1, c);
        } else if is_digit(c) {
            lemma_digits_end(s, pos + 1);
            lemma_number_end_advances(s, pos);
        } else if is_ident_start(c) {
            lemma_ident_end(s, pos + 1);
        }
    }
}

#[via_fn]
proof fn template_scan_decreases(
    s: Seq<char>,
    pos: int,
    tstart: int,
    cur: Seq<char>,
    segs: Seq<TokenModel>,
) {
    if 0 <= pos < s.len() {
        if s[pos] == '$' && pos + 1 < s.len() && s[pos + 1] == '{' {
            lemma_expr_span_end(s, pos + 2, 1);
        }
    }
}

/// The numeric-literal scan moves past at least its first digit.
pub proof fn lemma_number_end_advances(s: Seq<char>, pos: int)
    requires
        0 <= pos < s.len(),
        is_digit(s[pos]),
    ensures
        pos < number_end(s, pos) <= s.len(),
{
    lemma_digits_end(s, pos + 1);
    let d = digits_end(s, pos);
    assert(d == digits_end(s, pos + 1));
    let f = if d < s.len() && s[d] == '.' {
        digits_end(s, d + 1)
    } else {
        d
    };
    if d < s.len() && s[d] == '.' {
        lemma_digits_end(s, d + 1);
    }
    if 0 <= f < s.len() && (s[f] == 'e' || s[f] == 'E') {
        if f + 1 < s.len() && is_digit(s[f + 1]) {
            lemma_digits_end(s, f + 2);
        } else if f + 2 < s.len() && (s[f + 1] == '+' || s[f + 1] == '-') && is_digit(s[f + 2]) {
            lemma_digits_end(s, f + 3);
        }
    }
}


// --- executable scanners -----------------------------------------------

/// Decides [`is_digit`].
pub fn is_digit_char(c: char) -> (r: bool)
    ensures
        r == is_digit(c),
{
    let u = c as u32;
    48 <= u && u <= 57
}

/// Decides [`is_ident_start`].
pub fn is_ident_start_char(c: char) -> (r: bool)
    ensures
        r == is_ident_start(c),
{
    let u = c as u32;
    (97 <= u && u <= 122) || (65 <= u && u <= 90) || c == '_' || c == '$'
}

/// Decides [`is_ident_cont`].
pub fn is_ident_cont_char(c: char) -> (r: bool)
    ensures
        r == is_ident_cont(c),
{
    is_ident_start_char(c) || is_digit_char(c)
}

#[verifier::loop_isolation(false)]
fn scan_digits(chars: &Vec<char>, pos: usize) -> (r: usize)
    requires
        pos <= chars@.len(),
    ensures
        r as int == digits_end(chars@, pos as int),
        pos <= r <= chars@.len(),
{
    let mut i: usize = pos;
    while i < chars.len() && is_digit_char(chars[i])
        invariant
            pos <= i <= chars@.len(),
            digits_end(chars@, pos as int) == digits_end(chars@, i as int),
        decreases chars@.len() - i,
    {
        i = i + 1;
    }
    i
}

#[verifier::loop_isolation(false)]
fn scan_ident(chars: &Vec<char>, pos: usize) -> (r: usize)
    requires
        pos <= chars@.len(),
    ensures
        r as int == ident_end(chars@, pos as int),
        pos <= r <= chars@.len(),
{
    let mut i: usize = pos;
    while i < chars.len() && is_ident_cont_char(chars[i])
        invariant
            pos <= i <= chars@.len(),
            ident_end(chars@, pos as int) == ident_end(chars@, i as int),
        decreases chars@.len() - i,
    {
        i = i + 1;
    }
    i
}

#[verifier::loop_isolation(false)]
fn scan_line_comment(chars: &Vec<char>, pos: usize) -> (r: usize)
    requires
        pos <= chars@.len(),
    ensures
        r as int == line_comment_end(chars@, pos as int),
        pos <= r <= chars@.len(),
{
    let mut i: usize = pos;
    while i < chars.len() && chars[i] != '\n'
        invariant
            pos <= i <= chars@.len(),
            line_comment_end(chars@, pos as int) == line_comment_end(chars@, i as int),
        decreases chars@.len() - i,
    {
        i = i + 1;
    }
    i
}

#[verifier::loop_isolation(false)]
fn scan_block_comment(chars: &Vec<char>, pos: usize) -> (r: Option<usize>)
    requires
        pos <= chars@.len(),
    ensures
        match r {
            Some(e) => block_comment_end(chars@, pos as int) == Some(e as int) && pos + 2 <= e
                <= chars@.len(),
            None => block_comment_end(chars@, pos as int) is None,
        },
{
    let mut i: usize = pos;
    while i < chars.len()
        invariant
            pos <= i <= chars@.len(),
            block_comment_end(chars@, pos as int) == block_comment_end(chars@, i as int),
        decreases chars@.len() - i,
    {
        if i + 1 >= chars.len() {
            return None;
        }
        if chars[i] == '*' && chars[i + 1] == '/' {
            return Some(i + 2);
        }
        i = i + 1;
    }
    None
}

fn scan_number(chars: &Vec<char>, pos: usize) -> (r: usize)
    requires
        pos <= chars@.len(),
    ensures
        r as int == number_end(chars@, pos as int),
        pos <= r <= chars@.len(),
{
    let d = scan_digits(chars, pos);
    let f = if d < chars.len() && chars[d] == '.' {
        scan_digits(chars, d + 1)
    } else {
        d
    };
    if f < chars.len() && (chars[f] == 'e' || chars[f] == 'E') {
        if f + 1 < chars.len() && is_digit_char(chars[f + 1]) {
            scan_digits(chars, f + 2)
        } else if f + 1 < chars.len() && (chars[f + 1] == '+' || chars[f + 1] == '-') && f + 2
            < chars.len() && is_digit_char(chars[f + 2]) {
            scan_digits(chars, f + 3)
        } else {
            f
        }
    } else {
        f
    }
}

/// What an escape sequence `\c` decodes to.
fn unescape(c: char) -> (r: char)
    ensures
        r == escape_char(c),
{
    match c {
        'n' => '\n',
        't' => '\t',
        'r' => '\r',
        '0' => '\u{0000}',
        _ => c,
    }
}

#[verifier::loop_isolation(false)]
fn scan_string(chars: &Vec<char>, pos: usize, q: char) -> (r: Option<(Vec<char>, usize)>)
    requires
        pos <= chars@.len(),
    ensures
        match r {
            Some(t) => string_scan(chars@, pos as int, q) == Some((t.0@, t.1 as int)) && pos < t.1
                <= chars@.len(),
            None => string_scan(chars@, pos as int, q) is None,
        },
{
    let ghost s = chars@;
    let mut out: Vec<char> = Vec::new();
    let mut i: usize = pos;
    while i < chars.len()
        invariant
            pos <= i <= s.len(),
            string_scan(s, pos as int, q) == match string_scan(s, i as int, q) {
                Some((t, n)) => Some((out@ + t, n)),
                None => None::<(Seq<char>, int)>,
            },
        decreases chars@.len() - i,
    {
        let c = chars[i];
        if c == q {
            proof {
                assert(out@ + Seq::<char>::empty() =~= out@);
            }
            return Some((out, i + 1));
        } else if c == '\\' {
            if i + 1 >= chars.len() {
                return None;
            }
            let e = unescape(chars[i + 1]);
            proof {
                assert forall|t: Seq<char>| (out@.push(e)) + t =~= out@ + (seq![e] + t) by {}
            }
            out.push(e);
            i = i + 2;
        } else {
            proof {
                assert forall|t: Seq<char>| (out@.push(c)) + t =~= out@ + (seq![c] + t) by {}
            }
            out.push(c);
            i = i + 1;
        }
    }
    None
}

#[verifier::loop_isolation(false)]
fn scan_expr_span(chars: &Vec<char>, pos: usize) -> (r: Option<usize>)
    requires
        2 <= pos <= chars@.len(),
    ensures
        match r {
            Some(e) => expr_span_end(chars@, pos as int, 1) == Some(e as int) && pos <= e
                < chars@.len(),
            None => expr_span_end(chars@, pos as int, 1) is None,
        },
{
    let mut i: usize = pos;
    let mut depth: usize = 1;
    while i < chars.len()
        invariant
            pos <= i <= chars@.len(),
            1 <= depth <= i - pos + 1,
            expr_span_end(chars@, pos as int, 1) == expr_span_end(chars@, i as int, depth as int),
        decreases chars@.len() - i,
    {
        let c = chars[i];
        if c == '}' && depth == 1 {
            return Some(i);
        }
        if c == '{' {
            depth = depth + 1;
        } else if c == '}' {
            depth = depth - 1;
        }
        i = i + 1;
    }
    None
}

/// Matches the operator, punctuation or newline token starting at `pos`,
/// longest match first, with the position just past it.
pub fn op_token(chars: &Vec<char>, pos: usize) -> (r: Option<(Token, usize)>)
    requires
        pos < chars@.len(),
    ensures
        match r {
            Some(t) => op_step(chars@, pos as int) == Some((t.0@, t.1 as int)) && pos < t.1
                <= chars@.len(),
            None => op_step(chars@, pos as int) is None,
        },
{
    let len = chars.len();
    let c = chars[pos];
    let h1 = pos + 1 < len;
    let h2 = h1 && pos + 2 < len;
    match c {
        '\n' => Some((Token::Newline, pos + 1)),
        '\r' => {
            if h1 && chars[pos + 1] == '\n' {
                Some((Token::Newline, pos + 2))
            } else {
                Some((Token::Newline, pos + 1))
            }
        },
        '.' => {
            if h2 && chars[pos + 1] == '.' && chars[pos + 2] == '.' {
                Some((Token::Spread, pos + 3))
            } else {
                Some((Token::Dot, pos + 1))
            }
        },
        '!' => {
            if h2 && chars[pos + 1] == '=' && chars[pos + 2] == '=' {
                Some((Token::StrictNotEqual, pos + 3))
            } else if h1 && chars[pos + 1] == '=' {
                Some((Token::NotEqual, pos + 2))
            } else {
                Some((Token::LogicalNot, pos + 1))
            }
        },
        '&' => {
            if h1 && chars[pos + 1] == '&' {
                Some((Token::LogicalAnd, pos + 2))
            } else {
                Some((Token::BitwiseAnd, pos + 1))
            }
        },
        '|' => {
            if h1 && chars[pos + 1] == '|' {
                Some((Token::LogicalOr, pos + 2))
            } else {
                Some((Token::BitwiseOr, pos + 1))
            }
        },
        '(' => Some((Token::LeftParen, pos + 1)),
        ')' => Some((Token::RightParen, pos + 1)),
        '{' => Some((Token::LeftBrace, pos + 1)),
        '}' => Some((Token::RightBrace, pos + 1)),
        '[' => Some((Token::LeftBracket, pos + 1)),
        ']' => Some((Token::RightBracket, pos + 1)),
        ',' => Some((Token::Comma, pos + 1)),
        ':' => Some((Token::Colon, pos + 1)),
        ';' => Some((Token::Semicolon, pos + 1)),
        '=' => {
            if h2 && chars[pos + 1] == '=' && chars[pos + 2] == '=' {
                Some((Token::StrictEqual, pos + 3))
            } else if h1 && chars[pos + 1] == '=' {
                Some((Token::Equal, pos + 2))
            } else if h1 && chars[pos + 1] == '>' {
                Some((Token::ArrowFunction, pos + 2))
            } else {
                Some((Token::Assign, pos + 1))
            }
        },
        '<' => {
            if h1 && chars[pos + 1] == '<' {
                Some((Token::LeftShift, pos + 2))
            } else if h1 && chars[pos + 1] == '=' {
                Some((Token::LessThanOrEqual, pos + 2))
            } else {
                Some((Token::LessThan, pos + 1))
            }
        },
        '>' => {
            if h2 && chars[pos + 1] == '>' && chars[pos + 2] == '>' {
                Some((Token::UnsignedRightShift, pos + 3))
            } else if h1 && chars[pos + 1] == '>' {
                Some((Token::RightShift, pos + 2))
            } else if h1 && chars[pos + 1] == '=' {
                Some((Token::GreaterThanOrEqual, pos + 2))
            } else {
                Some((Token::GreaterThan, pos + 1))
            }
        },
        '+' => {
            if h1 && chars[pos + 1] == '=' {
                Some((Token::PlusAssign, pos + 2))
            } else if h1 && chars[pos + 1] == '+' {
                Some((Token::Increment, pos + 2))
            } else {
                Some((Token::Plus, pos + 1))
            }
        },
        '-' => {
            if h1 && chars[pos + 1] == '=' {
                Some((Token::MinusAssign, pos + 2))
            } else if h1 && chars[pos + 1] == '-' {
                Some((Token::Decrement, pos + 2))
            } else {
                Some((Token::Minus, pos + 1))
            }
        },
        '*' => {
            if h2 && chars[pos + 1] == '*' && chars[pos + 2] == '=' {
                Some((Token::ExponentAssign, pos + 3))
            } else if h1 && chars[pos + 1] == '*' {
                Some((Token::Exponent, pos + 2))
            } else if h1 && chars[pos + 1] == '=' {
                Some((Token::MultiplyAssign, pos + 2))
            } else {
                Some((Token::Multiply, pos + 1))
            }
        },
        '%' => {
            if h1 && chars[pos + 1] == '=' {
                Some((Token::ModuloAssign, pos + 2))
            } else {
                Some((Token::Modulo, pos + 1))
            }
        },
        '^' => Some((Token::BitwiseXor, pos + 1)),
        '~' => Some((Token::BitwiseNot, pos + 1)),
        '?' => {
            if h1 && chars[pos + 1] == '?' {
                Some((Token::NullishCoalescing, pos + 2))
            } else if h1 && chars[pos + 1] == '.' {
                Some((Token::OptionalChaining, pos + 2))
            } else {
                Some((Token::Ternary, pos + 1))
            }
        },
        _ => None,
    }
}


// --- keyword lookup ----------------------------------------------------

/// Matches an identifier-shaped lexeme against the fixed keyword table;
/// anything unmatched becomes an identifier carrying the lexeme.
fn match_keyword(w: &String) -> (r: Token)
    ensures
        r@ == keyword_model(w@),
{
    if w.eq(&String::from_str("const")) {
        return Token::Const;
    }
    if w.eq(&String::from_str("let")) {
        return Token::Let;
    }
    if w.eq(&String::from_str("var")) {
        return Token::Var;
    }
    if w.eq(&String::from_str("function")) {
        return Token::Function;
    }
    if w.eq(&String::from_str("return")) {
        return Token::Return;
    }
    if w.eq(&String::from_str("yield")) {
        return Token::Yield;
    }
    if w.eq(&String::from_str("if")) {
        return Token::If;
    }
    if w.eq(&String::from_str("else")) {
        return Token::Else;
    }
    if w.eq(&String::from_str("switch")) {
        return Token::Switch;
    }
    if w.eq(&String::from_str("case")) {
        return Token::Case;
    }
    if w.eq(&String::from_str("break")) {
        return Token::Break;
    }
    if w.eq(&String::from_str("continue")) {
        return Token::Continue;
    }
    if w.eq(&String::from_str("default")) {
        return Token::Default;
    }
    if w.eq(&String::from_str("for")) {
        return Token::For;
    }
    if w.eq(&String::from_str("while")) {
        return Token::While;
    }
    if w.eq(&String::from_str("do")) {
        return Token::Do;
    }
    if w.eq(&String::from_str("try")) {
        return Token::Try;
    }
    if w.eq(&String::from_str("catch")) {
        return Token::Catch;
    }
    if w.eq(&String::from_str("finally")) {
        return Token::Finally;
    }
    if w.eq(&String::from_str("throw")) {
        return Token::Throw;
    }
    if w.eq(&String::from_str("class")) {
        return Token::Class;
    }
    if w.eq(&String::from_str("extends")) {
        return Token::Extends;
    }
    if w.eq(&String::from_str("super")) {
        return Token::Super;
    }
    if w.eq(&String::from_str("this")) {
        return Token::This;
    }
    if w.eq(&String::from_str("new")) {
        return Token::New;
    }
    if w.eq(&String::from_str("import")) {
        return Token::Import;
    }
    if w.eq(&String::from_str("export")) {
        return Token::Export;
    }
    if w.eq(&String::from_str("from")) {
        return Token::From;
    }
    if w.eq(&String::from_str("as")) {
        return Token::As;
    }
    if w.eq(&String::from_str("async")) {
        return Token::Async;
    }
    if w.eq(&String::from_str("await")) {
        return Token::Await;
    }
    if w.eq(&String::from_str("with")) {
        return Token::With;
    }
    if w.eq(&String::from_str("in")) {
        return Token::In;
    }
    if w.eq(&String::from_str("of")) {
        return Token::Of;
    }
    if w.eq(&String::from_str("instanceof")) {
        return Token::InstanceOf;
    }
    if w.eq(&String::from_str("typeof")) {
        return Token::Typeof;
    }
    if w.eq(&String::from_str("delete")) {
        return Token::Delete;
    }
    if w.eq(&String::from_str("void")) {
        return Token::Void;
    }
    if w.eq(&String::from_str("true")) {
        return Token::True;
    }
    if w.eq(&String::from_str("false")) {
        return Token::False;
    }
    if w.eq(&String::from_str("null")) {
        return Token::Null;
    }
    if w.eq(&String::from_str("undefined")) {
        return Token::Undefined;
    }
    Token::Identifier(w.clone())
}

// --- composing a scan --------------------------------------------------

/// Prepends an already-lexed prefix to the rest of a lexing outcome.
pub open spec fn lex_cat(
    prefix: Seq<TokenModel>,
    r: Result<Seq<TokenModel>, ErrorModel>,
) -> Result<Seq<TokenModel>, ErrorModel> {
    match r {
        Ok(ts) => Ok(prefix + ts),
        Err(e) => Err(e),
    }
}

pub proof fn lemma_tokens_view_push(v: Seq<Token>, tk: Token)
    ensures
        tokens_view(v.push(tk)) == tokens_view(v).push(token_view(tk)),
{
    assert(tokens_view(v.push(tk)) =~= tokens_view(v).push(token_view(tk)));
}

proof fn lemma_step(s: Seq<char>, prefix: Seq<Token>, tk: Token, p: int, np: int)
    requires
        lex_from(s, 0) == lex_cat(tokens_view(prefix), lex_from(s, p)),
        lex_from(s, p) == cons_tok(token_view(tk), lex_from(s, np)),
    ensures
        lex_from(s, 0) == lex_cat(tokens_view(prefix.push(tk)), lex_from(s, np)),
{
    lemma_tokens_view_push(prefix, tk);
    match lex_from(s, np) {
        Ok(ts) => {
            assert(tokens_view(prefix) + (seq![token_view(tk)] + ts) =~= tokens_view(prefix).push(
                token_view(tk),
            ) + ts);
        },
        Err(_) => {},
    }
}

// --- the executable lexer ----------------------------------------------

/// Scans one template literal, from its opening backtick at `start`.
#[verifier::loop_isolation(false)]
fn lex_template(chars: &Vec<char>, start: usize) -> (r: Result<(Vec<Token>, usize), EndiumError>)
    requires
        start < chars@.len(),
    ensures
        match r {
            Ok(t) => template_scan(
                chars@,
                start as int + 1,
                start as int,
                Seq::empty(),
                Seq::empty(),
            ) == Ok::<_, ErrorModel>((tokens_view(t.0@), t.1 as int)) && start < t.1
                <= chars@.len(),
            Err(e) => template_scan(
                chars@,
                start as int + 1,
                start as int,
                Seq::empty(),
                Seq::empty(),
            ) == Err::<(Seq<TokenModel>, int), _>(e@),
        },
    decreases chars@.len(), 0int,
{
    let ghost s = chars@;
    let ghost tstart = start as int;
    let n = chars.len();
    let mut cur: Vec<char> = Vec::new();
    let mut segs: Vec<Token> = Vec::new();
    let mut tpos: usize = start + 1;
    proof {
        assert(cur@ =~= Seq::<char>::empty());
        assert(tokens_view(segs@) =~= Seq::<TokenModel>::empty());
    }
    while tpos < chars.len()
        invariant
            start as int + 1 <= tpos as int,
            tpos <= s.len(),
            template_scan(s, start as int + 1, tstart, Seq::empty(), Seq::empty())
                == template_scan(s, tpos as int, tstart, cur@, tokens_view(segs@)),
        decreases chars@.len() - tpos,
    {
        let ghost tpos0 = tpos as int;
        let ghost cur0 = cur@;
        let ghost segs0 = tokens_view(segs@);
        let tc = chars[tpos];
        if tc == '`' {
            if cur.len() > 0 {
                let seg = Token::String(string_from_chars(&cur));
                proof {
                    lemma_tokens_view_push(segs@, seg);
                }
                segs.push(seg);
            }
            return Ok((segs, tpos + 1));
        } else if tc == '$' && tpos + 1 < chars.len() && chars[tpos + 1] == '{' {
            let ghost segs1 = if cur0.len() > 0 || segs0.len() == 0 {
                segs0.push(TokenModel::Str(cur0))
            } else {
                segs0
            };
            if cur.len() > 0 || segs.len() == 0 {
                let seg = Token::String(string_from_chars(&cur));
                proof {
                    lemma_tokens_view_push(segs@, seg);
                }
                segs.push(seg);
                cur = Vec::new();
            }
            proof {
                assert(cur@ =~= Seq::<char>::empty());
                assert(tokens_view(segs@) == segs1);
            }
            match scan_expr_span(chars, tpos + 2) {
                Some(e) => {
                    let sub = chars_range(chars, tpos + 2, e);
                    proof {
                        assert(sub@.len() < chars@.len());
                    }
                    match lex_all(&sub) {
                        Ok(ts) => {
                            let seg = Token::TemplateExpr(ts);
                            proof {
                                lemma_tokens_view_push(segs@, seg);
                            }
                            segs.push(seg);
                            tpos = e + 1;
                            proof {
                                assert(template_scan(s, tpos0, tstart, cur0, segs0)
                                    == template_scan(
                                    s,
                                    tpos as int,
                                    tstart,
                                    Seq::empty(),
                                    tokens_view(segs@),
                                ));
                            }
                        },
                        Err(er) => {
                            return Err(er);
                        },
                    }
                },
                None => {
                    let info = position_info(chars, start);
                    return Err(
                        EndiumError::LexError {
                            kind: LexErrorKind::UnterminatedTemplate,
                            line: info.0,
                            column: info.1,
                            offset: info.2,
                        },
                    );
                },
            }
        } else {
            cur.push(tc);
            tpos = tpos + 1;
        }
    }
    let info = position_info(chars, start);
    Err(
        EndiumError::LexError {
            kind: LexErrorKind::UnterminatedTemplate,
            line: info.0,
            column: info.1,
            offset: info.2,
        },
    )
}

/// Scans the whole input: the token sequence in order, or the first
/// lexical error.
#[verifier::loop_isolation(false)]
fn lex_all(chars: &Vec<char>) -> (r: Result<Vec<Token>, EndiumError>)
    ensures
        match r {
            Ok(toks) => lex_from(chars@, 0) == Ok::<_, ErrorModel>(tokens_view(toks@)),
            Err(e) => lex_from(chars@, 0) == Err::<Seq<TokenModel>, _>(e@),
        },
    decreases chars@.len(), 1int,
{
    let ghost s = chars@;
    let mut toks: Vec<Token> = Vec::new();
    let mut pos: usize = 0;
    proof {
        assert(tokens_view(toks@) =~= Seq::<TokenModel>::empty());
        match lex_from(s, 0) {
            Ok(ts) => {
                assert(Seq::<TokenModel>::empty() + ts =~= ts);
            },
            Err(_) => {},
        }
    }
    while pos < chars.len()
        invariant
            pos <= s.len(),
            lex_from(s, 0) == lex_cat(tokens_view(toks@), lex_from(s, pos as int)),
        decreases chars@.len() - pos,
    {
        let c = chars[pos];
        if c == ' ' || c == '\t' {
            proof {
                assert(lex_from(s, pos as int) == lex_from(s, pos as int + 1));
            }
            pos = pos + 1;
        } else if c == '/' {
            if pos + 1 < chars.len() && chars[pos + 1] == '/' {
                let e = scan_line_comment(chars, pos + 2);
                let tk = Token::Comment(string_from_range(chars, pos + 2, e));
                proof {
                    assert(lex_from(s, pos as int) == cons_tok(tk@, lex_from(s, e as int)));
                    lemma_step(s, toks@, tk, pos as int, e as int);
                }
                toks.push(tk);
                proof {
                    lemma_line_comment_end(s, pos as int + 2);
                }
                pos = e;
            } else if pos + 1 < chars.len() && chars[pos + 1] == '*' {
                match scan_block_comment(chars, pos + 2) {
                    Some(e) => {
                        let tk = Token::BlockComment(string_from_range(chars, pos + 2, e - 2));
                        proof {
                            assert(lex_from(s, pos as int) == cons_tok(
                                tk@,
                                lex_from(s, e as int),
                            ));
                            lemma_step(s, toks@, tk, pos as int, e as int);
                        }
                        toks.push(tk);
                        pos = e;
                    },
                    None => {
                        let info = position_info(chars, pos);
                        return Err(
                            EndiumError::LexError {
                                kind: LexErrorKind::UnterminatedComment,
                                line: info.0,
                                column: info.1,
                                offset: info.2,
                            },
                        );
                    },
                }
            } else if pos + 1 < chars.len() && chars[pos + 1] == '=' {
                let tk = Token::DivideAssign;
                proof {
                    assert(lex_from(s, pos as int) == cons_tok(
                        tk@,
                        lex_from(s, pos as int + 2),
                    ));
                    lemma_step(s, toks@, tk, pos as int, pos as int + 2);
                }
                toks.push(tk);
                pos = pos + 2;
            } else {
                let tk = Token::Divide;
                proof {
                    assert(lex_from(s, pos as int) == cons_tok(
                        tk@,
                        lex_from(s, pos as int + 1),
                    ));
                    lemma_step(s, toks@, tk, pos as int, pos as int + 1);
                }
                toks.push(tk);
                pos = pos + 1;
            }
        } else if c == '\'' || c == '"' {
            match scan_string(chars, pos + 1, c) {
                Some(t) => {
                    let (txt, n) = t;
                    let tk = Token::String(string_from_chars(&txt));
                    proof {
                        assert(lex_from(s, pos as int) == cons_tok(tk@, lex_from(s, n as int)));
                        lemma_step(s, toks@, tk, pos as int, n as int);
                    }
                    toks.push(tk);
                    pos = n;
                },
                None => {
                    let info = position_info(chars, pos);
                    return Err(
                        EndiumError::LexError {
                            kind: LexErrorKind::UnterminatedString,
                            line: info.0,
                            column: info.1,
                            offset: info.2,
                        },
                    );
                },
            }
        } else if c == '`' {
            match lex_template(chars, pos) {
                Ok(t) => {
                    let (segs, n) = t;
                    let tk = Token::TemplateString(segs);
                    proof {
                        assert(lex_from(s, pos as int) == cons_tok(tk@, lex_from(s, n as int)));
                        lemma_step(s, toks@, tk, pos as int, n as int);
                    }
                    toks.push(tk);
                    pos = n;
                },
                Err(e) => {
                    return Err(e);
                },
            }
        } else if is_digit_char(c) {
            let e = scan_number(chars, pos);
            proof {
                lemma_number_end_advances(s, pos as int);
            }
            if e < chars.len() && chars[e] == 'n' {
                let tk = Token::BigNumber(string_from_range(chars, pos, e));
                proof {
                    assert(lex_from(s, pos as int) == cons_tok(tk@, lex_from(s, e as int + 1)));
                    lemma_step(s, toks@, tk, pos as int, e as int + 1);
                }
                toks.push(tk);
                pos = e + 1;
            } else {
                let tk = Token::Number(string_from_range(chars, pos, e));
                proof {
                    assert(lex_from(s, pos as int) == cons_tok(tk@, lex_from(s, e as int)));
                    lemma_step(s, toks@, tk, pos as int, e as int);
                }
                toks.push(tk);
                pos = e;
            }
        } else if is_ident_start_char(c) {
            let e = scan_ident(chars, pos);
            proof {
                assert(ident_end(s, pos as int) == ident_end(s, pos as int + 1));
                lemma_ident_end(s, pos as int + 1);
            }
            let w = string_from_range(chars, pos, e);
            let tk = match_keyword(&w);
            proof {
                assert(lex_from(s, pos as int) == cons_tok(tk@, lex_from(s, e as int)));
                lemma_step(s, toks@, tk, pos as int, e as int);
            }
            toks.push(tk);
            pos = e;
        } else {
            match op_token(chars, pos) {
                Some(t) => {
                    let (tk, n) = t;
                    proof {
                        assert(lex_from(s, pos as int) == cons_tok(tk@, lex_from(s, n as int)));
                        lemma_step(s, toks@, tk, pos as int, n as int);
                    }
                    toks.push(tk);
                    pos = n;
                },
                None => {
                    let info = position_info(chars, pos);
                    return Err(
                        EndiumError::LexError {
                            kind: LexErrorKind::UnknownCharacter(c),
                            line: info.0,
                            column: info.1,
                            offset: info.2,
                        },
                    );
                },
            }
        }
    }
    proof {
        match lex_from(s, pos as int) {
            Ok(ts) => {
                assert(tokens_view(toks@) + ts =~= tokens_view(toks@));
            },
            Err(_) => {},
        }
    }
    Ok(toks)
}

/// Converts source text into an ordered token sequence.
///
/// The scan runs character by character, longest match first, skipping
/// spaces and tabs, keeping newlines as significant tokens and comments as
/// distinct tokens, and halting at the first lexical error.
#[derive(Debug)]
pub struct Lexer {
    pub code_chars: Vec<char>,
    pub position: usize,
}

impl Lexer {
    /// Scans the whole input. On success the token sequence models
    /// [`lex_from`] applied to the source; on failure the scan halted at
    /// the first lexical error, with its position.
    pub fn tokenize(&mut self) -> (r: Result<Vec<Token>, EndiumError>)
        ensures
            final(self).code_chars@ == old(self).code_chars@,
            final(self).position == old(self).code_chars@.len(),
            match r {
                Ok(toks) => lex_from(old(self).code_chars@, 0) == Ok::<_, ErrorModel>(
                    tokens_view(toks@),
                ),
                Err(e) => lex_from(old(self).code_chars@, 0) == Err::<Seq<TokenModel>, _>(e@),
            },
    {
        let r = lex_all(&self.code_chars);
        self.position = self.code_chars.len();
        r
    }

    /// Matches the operator, punctuation or newline token that starts with
    /// `ch` at the current position, longest match first, and moves the
    /// position past it; `None`, with nothing consumed, where no such
    /// token starts here.
    pub fn match_token_char(&mut self, ch: char) -> (r: Option<Token>)
        requires
            old(self).position < old(self).code_chars@.len(),
            ch == old(self).code_chars@[old(self).position as int],
        ensures
            final(self).code_chars@ == old(self).code_chars@,
            match r {
                Some(tk) => op_step(old(self).code_chars@, old(self).position as int) == Some(
                    (tk@, final(self).position as int),
                ),
                None => op_step(old(self).code_chars@, old(self).position as int) is None
                    && final(self).position == old(self).position,
            },
    {
        match op_token(&self.code_chars, self.position) {
            Some(t) => {
                let (tk, n) = t;
                self.position = n;
                Some(tk)
            },
            None => None,
        }
    }

    /// Matches a finished lexeme: a lexeme starting with a digit yields
    /// its numeric token (a `Number`, or a `BigNumber` under an `n`
    /// suffix); any other nonempty lexeme goes through the fixed keyword
    /// table and falls back to an identifier; the empty lexeme is
    /// `NoToken`.
    pub fn match_token(&self, current_opcode: &String) -> (r: Token)
        ensures
            current_opcode@.len() == 0 ==> r == Token::NoToken,
            current_opcode@.len() > 0 && is_digit(current_opcode@[0]) ==> r@
                == numeric_token_model(current_opcode@),
            current_opcode@.len() > 0 && !is_digit(current_opcode@[0]) ==> r@ == keyword_model(
                current_opcode@,
            ),
    {
        let chars = str_chars(current_opcode.as_str());
        if chars.len() == 0 {
            Token::NoToken
        } else if is_digit_char(chars[0]) {
            let e = scan_number(&chars, 0);
            if e < chars.len() && chars[e] == 'n' {
                Token::BigNumber(string_from_range(&chars, 0, e))
            } else {
                Token::Number(string_from_range(&chars, 0, e))
            }
        } else {
            match_keyword(current_opcode)
        }
    }

    /// A lexer over the characters of `code`, positioned at the start.
    pub fn new(code: &String) -> (r: Lexer)
        ensures
            r.code_chars@ == code@,
            r.position == 0,
    {
        Lexer { code_chars: str_chars(code.as_str()), position: 0 }
    }
}

} // verus!
