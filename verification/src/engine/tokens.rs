use vstd::prelude::*;

verus! {

broadcast use vstd::std_specs::vec::axiom_vec_decreases_to_view, vstd::seq::axiom_seq_index_decreases;

/// Atomic lexical unit produced by the lexer.
///
/// Literal-carrying variants hold their raw lexeme; template literals hold an
/// ordered sequence of literal segments (`String`) and nested expression
/// spans (`TemplateExpr`); structural variants carry no payload.
#[derive(Debug, PartialEq)]
pub enum Token {
    // Keywords
    Const,
    Let,
    Var,
    Function,
    Return,
    Yield,
    If,
    Else,
    Switch,
    Case,
    Break,
    Continue,
    Default,
    For,
    While,
    Do,
    Try,
    Catch,
    Finally,
    Throw,
    Class,
    Extends,
    Super,
    This,
    New,
    Import,
    Export,
    From,
    As,
    Async,
    Await,
    With,
    In,
    Of,
    InstanceOf,
    Typeof,
    Delete,
    Void,
    // Literals
    True,
    False,
    Null,
    Undefined,
    Number(String),
    BigNumber(String),
    String(String),
    Identifier(String),
    TemplateString(Vec<Token>),
    TemplateExpr(Vec<Token>),
    // Operators
    Plus,
    Minus,
    Multiply,
    Divide,
    Modulo,
    Exponent,
    // Assignment
    Assign,
    PlusAssign,
    MinusAssign,
    MultiplyAssign,
    DivideAssign,
    ModuloAssign,
    ExponentAssign,
    // Increment/decrement
    Increment,
    Decrement,
    // Comparison
    Equal,
    NotEqual,
    StrictEqual,
    StrictNotEqual,
    LessThan,
    LessThanOrEqual,
    GreaterThan,
    GreaterThanOrEqual,
    // Logical
    LogicalAnd,
    LogicalOr,
    LogicalNot,
    // Bitwise
    BitwiseAnd,
    BitwiseOr,
    BitwiseXor,
    BitwiseNot,
    LeftShift,
    RightShift,
    UnsignedRightShift,
    // Other operators
    ArrowFunction,
    Ternary,
    NullishCoalescing,
    OptionalChaining,
    Spread,
    // Punctuation
    Semicolon,
    Comma,
    Dot,
    Colon,
    // Brackets
    LeftParen,
    RightParen,
    LeftBrace,
    RightBrace,
    LeftBracket,
    RightBracket,
    // Special
    Newline,
    Comment(String),
    BlockComment(String),
    // End of input
    Eof,
    NoToken,
}

/// Mathematical model of a `Token`: text payloads become character
/// sequences, nested token vectors become sequences of models, and every
/// payload-free variant is embedded unchanged through `Simple`.
pub enum TokenModel {
    Simple(Token),
    Number(Seq<char>),
    BigNumber(Seq<char>),
    Str(Seq<char>),
    Identifier(Seq<char>),
    Comment(Seq<char>),
    BlockComment(Seq<char>),
    TemplateString(Seq<TokenModel>),
    TemplateExpr(Seq<TokenModel>),
}

/// The model of one token.
pub open spec fn token_view(t: Token) -> TokenModel
    decreases t, 0int,
{
    match t {
        Token::Number(s) => TokenModel::Number(s@),
        Token::BigNumber(s) => TokenModel::BigNumber(s@),
        Token::String(s) => TokenModel::Str(s@),
        Token::Identifier(s) => TokenModel::Identifier(s@),
        Token::Comment(s) => TokenModel::Comment(s@),
        Token::BlockComment(s) => TokenModel::BlockComment(s@),
        Token::TemplateString(v) => TokenModel::TemplateString(tokens_view(v@)),
        Token::TemplateExpr(v) => TokenModel::TemplateExpr(tokens_view(v@)),
        _ => TokenModel::Simple(t),
    }
}

/// The model of the token at `i`, or a placeholder out of range; the guard
/// lets the recursion terminate on nested token vectors.
pub open spec fn token_view_at(v: Seq<Token>, i: int) -> TokenModel
    decreases v, 0int,
{
    if 0 <= i < v.len() {
        token_view(v[i])
    } else {
        TokenModel::Simple(Token::NoToken)
    }
}

/// The model of a token sequence, element by element.
pub open spec fn tokens_view(v: Seq<Token>) -> Seq<TokenModel>
    decreases v, 1int,
{
    Seq::new(v.len(), |i: int| token_view_at(v, i))
}

impl View for Token {
    type V = TokenModel;

    open spec fn view(&self) -> TokenModel {
        token_view(*self)
    }
}


/// Copies one token, payloads included: the copy has the same model.
pub fn dup_token(t: &Token) -> (r: Token)
    ensures
        r@ == t@,
    decreases *t,
{
    match t {
        Token::Number(s) => Token::Number(s.clone()),
        Token::BigNumber(s) => Token::BigNumber(s.clone()),
        Token::String(s) => Token::String(s.clone()),
        Token::Identifier(s) => Token::Identifier(s.clone()),
        Token::Comment(s) => Token::Comment(s.clone()),
        Token::BlockComment(s) => Token::BlockComment(s.clone()),
        Token::TemplateString(v) => Token::TemplateString(dup_tokens(v)),
        Token::TemplateExpr(v) => Token::TemplateExpr(dup_tokens(v)),
        Token::Const => Token::Const,
        Token::Let => Token::Let,
        Token::Var => Token::Var,
        Token::Function => Token::Function,
        Token::Return => Token::Return,
        Token::Yield => Token::Yield,
        Token::If => Token::If,
        Token::Else => Token::Else,
        Token::Switch => Token::Switch,
        Token::Case => Token::Case,
        Token::Break => Token::Break,
        Token::Continue => Token::Continue,
        Token::Default => Token::Default,
        Token::For => Token::For,
        Token::While => Token::While,
        Token::Do => Token::Do,
        Token::Try => Token::Try,
        Token::Catch => Token::Catch,
        Token::Finally => Token::Finally,
        Token::Throw => Token::Throw,
        Token::Class => Token::Class,
        Token::Extends => Token::Extends,
        Token::Super => Token::Super,
        Token::This => Token::This,
        Token::New => Token::New,
        Token::Import => Token::Import,
        Token::Export => Token::Export,
        Token::From => Token::From,
        Token::As => Token::As,
        Token::Async => Token::Async,
        Token::Await => Token::Await,
        Token::With => Token::With,
        Token::In => Token::In,
        Token::Of => Token::Of,
        Token::InstanceOf => Token::InstanceOf,
        Token::Typeof => Token::Typeof,
        Token::Delete => Token::Delete,
        Token::Void => Token::Void,
        Token::True => Token::True,
        Token::False => Token::False,
        Token::Null => Token::Null,
        Token::Undefined => Token::Undefined,
        Token::Plus => Token::Plus,
        Token::Minus => Token::Minus,
        Token::Multiply => Token::Multiply,
        Token::Divide => Token::Divide,
        Token::Modulo => Token::Modulo,
        Token::Exponent => Token::Exponent,
        Token::Assign => Token::Assign,
        Token::PlusAssign => Token::PlusAssign,
        Token::MinusAssign => Token::MinusAssign,
        Token::MultiplyAssign => Token::MultiplyAssign,
        Token::DivideAssign => Token::DivideAssign,
        Token::ModuloAssign => Token::ModuloAssign,
        Token::ExponentAssign => Token::ExponentAssign,
        Token::Increment => Token::Increment,
        Token::Decrement => Token::Decrement,
        Token::Equal => Token::Equal,
        Token::NotEqual => Token::NotEqual,
        Token::StrictEqual => Token::StrictEqual,
        Token::StrictNotEqual => Token::StrictNotEqual,
        Token::LessThan => Token::LessThan,
        Token::LessThanOrEqual => Token::LessThanOrEqual,
        Token::GreaterThan => Token::GreaterThan,
        Token::GreaterThanOrEqual => Token::GreaterThanOrEqual,
        Token::LogicalAnd => Token::LogicalAnd,
        Token::LogicalOr => Token::LogicalOr,
        Token::LogicalNot => Token::LogicalNot,
        Token::BitwiseAnd => Token::BitwiseAnd,
        Token::BitwiseOr => Token::BitwiseOr,
        Token::BitwiseXor => Token::BitwiseXor,
        Token::BitwiseNot => Token::BitwiseNot,
        Token::LeftShift => Token::LeftShift,
        Token::RightShift => Token::RightShift,
        Token::UnsignedRightShift => Token::UnsignedRightShift,
        Token::ArrowFunction => Token::ArrowFunction,
        Token::Ternary => Token::Ternary,
        Token::NullishCoalescing => Token::NullishCoalescing,
        Token::OptionalChaining => Token::OptionalChaining,
        Token::Spread => Token::Spread,
        Token::Semicolon => Token::Semicolon,
        Token::Comma => Token::Comma,
        Token::Dot => Token::Dot,
        Token::Colon => Token::Colon,
        Token::LeftParen => Token::LeftParen,
        Token::RightParen => Token::RightParen,
        Token::LeftBrace => Token::LeftBrace,
        Token::RightBrace => Token::RightBrace,
        Token::LeftBracket => Token::LeftBracket,
        Token::RightBracket => Token::RightBracket,
        Token::Newline => Token::Newline,
        Token::Eof => Token::Eof,
        Token::NoToken => Token::NoToken,
    }
}

/// Copies a token vector element by element: the copy has the same model.
pub fn dup_tokens(v: &Vec<Token>) -> (r: Vec<Token>)
    ensures
        r@.len() == v@.len(),
        tokens_view(r@) == tokens_view(v@),
    decreases *v,
{
    broadcast use vstd::std_specs::vec::axiom_vec_index_decreases;

    let mut out: Vec<Token> = Vec::new();
    let mut i: usize = 0;
    while i < v.len()
        invariant
            i <= v@.len(),
            out@.len() == i,
            forall|j: int| 0 <= j < i ==> token_view(#[trigger] out@[j]) == token_view(v@[j]),
        decreases v@.len() - i,
    {
        out.push(dup_token(&v[i]));
        i = i + 1;
    }
    proof {
        assert(tokens_view(out@) =~= tokens_view(v@));
    }
    out
}

impl Clone for Token {
    /// The clone has the same model as the original.
    fn clone(&self) -> (r: Token)
        ensures
            r@ == self@,
    {
        dup_token(self)
    }
}

} // verus!
