//! Tokens produced by the lexer, and the syntax tree that a parser builds
//! from them.
use crate::diagnostics::Position;
use vstd::prelude::*;

verus! {

// fn fib(n: u64) -> u64
//     = n == (0 || 1) => n,
//         fib(n - 1) + fib(n - 2);

/// A classified fragment of source text, tagged with the position of its
/// first character.
#[derive(Debug)]
pub struct Token {
    pub position: Position,
    pub kind: TokenKind,
}

impl Token {
    /// A token at `position` whose kind is not assigned yet.
    pub fn new(position: Position) -> (r: Token)
        ensures
            r.position == position,
            r.kind == TokenKind::Empty,
    {
        Token { position, kind: TokenKind::Empty }
    }

    pub fn kind(&self) -> (r: &TokenKind)
        ensures
            *r == self.kind,
    {
        &self.kind
    }
}

#[derive(Clone, Debug)]
pub enum TokenKind {
    Empty,
    Identifier(String),  // (<letter>|'_') +[<letter>|'_'|<whole-number>]
    // Literals
    Number(usize),  // +(<whole-number>)
    Character(char),  // ''' <character> '''
    String(String),  // '"' +<character> '"'
    // Keywords
    Fn,  // 'fn'
    Let,  // 'let'
    Ret,  // 'ret'
    If,  // 'if'
    Elif,  // 'elif'
    Else,  // 'else'
    B8,  // 'b8'
    B16,  // 'b16'
    B32,  // 'b32'
    B64,  // 'b64'
    B128,  // 'b128'
    I8,  // 'i8'
    I16,  // 'i16'
    I32,  // 'i32'
    I64,  // 'i64'
    I128,  // 'i128'
    F16,  // 'f16'
    F32,  // 'f32'
    F64,  // 'f64'
    F128,  // 'f128'
    // Punctuators
    CommercialAt,  // '@'
    Colon,  // ':'
    Semicolon,  // ';'
    EqualsSign,  // '='
    DoubleEqualsSign,  // '=='
    RightwardsDoubleArrow,  // '=>'
    PlusSign,  // '+'
    DoublePlusSign,  // '++'
    MinusSign,  // '-'
    DoubleMinusSign,  // '--'
    RightwardsArrow,  // '->'
    LeftParenthesis,  // '('
    RightParenthesis,  // ')'
    VerticalLine,  // '|'
    DoubleVerticalLine,  // '||'
}

/// The mathematical content of a token kind: the text of identifiers and
/// strings as character sequences, every other kind as itself.
pub enum KindView {
    Identifier(Seq<char>),
    String(Seq<char>),
    Other(TokenKind),
}

impl View for TokenKind {
    type V = KindView;

    open spec fn view(&self) -> KindView {
        match self {
            TokenKind::Identifier(s) => KindView::Identifier(s@),
            TokenKind::String(s) => KindView::String(s@),
            _ => KindView::Other(*self),
        }
    }
}

impl PartialEq for TokenKind {
    fn eq(&self, o: &TokenKind) -> (r: bool) {
        match self {
            TokenKind::Identifier(a) => match o {
                TokenKind::Identifier(b) => *a == *b,
                _ => false,
            },
            TokenKind::String(a) => match o {
                TokenKind::String(b) => *a == *b,
                _ => false,
            },
            TokenKind::Number(a) => match o {
                TokenKind::Number(b) => *a == *b,
                _ => false,
            },
            TokenKind::Character(a) => match o {
                TokenKind::Character(b) => *a == *b,
                _ => false,
            },
            TokenKind::Empty => matches!(o, TokenKind::Empty),
            TokenKind::Fn => matches!(o, TokenKind::Fn),
            TokenKind::Let => matches!(o, TokenKind::Let),
            TokenKind::Ret => matches!(o, TokenKind::Ret),
            TokenKind::If => matches!(o, TokenKind::If),
            TokenKind::Elif => matches!(o, TokenKind::Elif),
            TokenKind::Else => matches!(o, TokenKind::Else),
            TokenKind::B8 => matches!(o, TokenKind::B8),
            TokenKind::B16 => matches!(o, TokenKind::B16),
            TokenKind::B32 => matches!(o, TokenKind::B32),
            TokenKind::B64 => matches!(o, TokenKind::B64),
            TokenKind::B128 => matches!(o, TokenKind::B128),
            TokenKind::I8 => matches!(o, TokenKind::I8),
            TokenKind::I16 => matches!(o, TokenKind::I16),
            TokenKind::I32 => matches!(o, TokenKind::I32),
            TokenKind::I64 => matches!(o, TokenKind::I64),
            TokenKind::I128 => matches!(o, TokenKind::I128),
            TokenKind::F16 => matches!(o, TokenKind::F16),
            TokenKind::F32 => matches!(o, TokenKind::F32),
            TokenKind::F64 => matches!(o, TokenKind::F64),
            TokenKind::F128 => matches!(o, TokenKind::F128),
            TokenKind::CommercialAt => matches!(o, TokenKind::CommercialAt),
            TokenKind::Colon => matches!(o, TokenKind::Colon),
            TokenKind::Semicolon => matches!(o, TokenKind::Semicolon),
            TokenKind::EqualsSign => matches!(o, TokenKind::EqualsSign),
            TokenKind::DoubleEqualsSign => matches!(o, TokenKind::DoubleEqualsSign),
            TokenKind::RightwardsDoubleArrow => matches!(o, TokenKind::RightwardsDoubleArrow),
            TokenKind::PlusSign => matches!(o, TokenKind::PlusSign),
            TokenKind::DoublePlusSign => matches!(o, TokenKind::DoublePlusSign),
            TokenKind::MinusSign => matches!(o, TokenKind::MinusSign),
            TokenKind::DoubleMinusSign => matches!(o, TokenKind::DoubleMinusSign),
            TokenKind::RightwardsArrow => matches!(o, TokenKind::RightwardsArrow),
            TokenKind::LeftParenthesis => matches!(o, TokenKind::LeftParenthesis),
            TokenKind::RightParenthesis => matches!(o, TokenKind::RightParenthesis),
            TokenKind::VerticalLine => matches!(o, TokenKind::VerticalLine),
            TokenKind::DoubleVerticalLine => matches!(o, TokenKind::DoubleVerticalLine),
        }
    }
}

impl vstd::std_specs::cmp::PartialEqSpecImpl for TokenKind {
    open spec fn obeys_eq_spec() -> bool {
        true
    }

    open spec fn eq_spec(&self, o: &TokenKind) -> bool {
        self@ == o@
    }
}

#[derive(Debug)]
pub struct Symbol<'a> {
    name: String,
    syntax: &'a Syntax<'a>,
}

#[derive(Debug)]
pub struct Syntax<'a> {
    position: Position,
    kind: SyntaxKind<'a>,
}

#[derive(Debug)]
pub enum SyntaxKind<'a> {
    Statement(Statement<'a>),
}

/// <expression>|<body>|<function-declaration>|...
#[derive(Debug)]
pub enum Statement<'a> {
    Expression(Expression<'a>),
    Body(Body<'a>),
    /// 'fn' <function-definition>
    FunctionDeclaration { definition: FunctionDefinition<'a> },
}

/// <block>|<initilization>
#[derive(Debug)]
pub enum Body<'a> {
    Block(Block<'a>),
    /// '=' <expression> ';'
    Initialization { value: Expression<'a> },
}

/// '{' +[<statement>] '}'
#[derive(Debug)]
pub struct Block<'a> {
    statements: Vec<Statement<'a>>,
}

#[derive(Debug)]
pub enum Type {
    Primitive(PrimitiveType),
}

#[derive(Debug)]
pub enum PrimitiveType {
    B8,
    B16,
    B32,
    B64,
    B128,
    I8,
    I16,
    I32,
    I64,
    I128,
    F16,
    F32,
    F64,
    F128,
}

/// <block>|<equation>|<implication>|<disjunction>|<enclosure>|<invocation>
#[derive(Debug)]
pub enum Expression<'a> {
    Block(Block<'a>),
    /// <symbol> '=' <body>
    Equation { symbol: &'a Symbol<'a>, value: Box<Expression<'a>> },
    /// <expression> '=>' <expression> ',' <expression>
    Implication {
        condition: Box<Expression<'a>>,
        consequence: Box<Expression<'a>>,
        contrapositive: Box<Expression<'a>>,
    },
    /// <expression> '||' <expression>
    Disjunction { left: Box<Expression<'a>>, right: Box<Expression<'a>> },
    /// '(' <expression> ')'
    Enclosure { expression: Box<Expression<'a>> },
    /// <symbol> <parameters>
    Invocation { arguments: Parameters<'a> },
}

/// <function-signature> <body>
#[derive(Debug)]
pub struct FunctionDefinition<'a> {
    signature: FunctionSignature<'a>,
    body: Body<'a>,
}

/// <symbol> <parameters> '->' <type>
#[derive(Debug)]
pub struct FunctionSignature<'a> {
    name: &'a Symbol<'a>,
    parameters: Parameters<'a>,
    type_: &'a Type,
}

/// '(' <value-signature> +[',' <value-signature>] ')'
type Parameters<'a> = Vec<ValueDefinition<'a>>;

/// <value-signature> <body>
#[derive(Debug)]
pub struct ValueDefinition<'a> {
    signature: ValueSignature<'a>,
    value: Body<'a>,
}

/// <symbol> ':' <type>
#[derive(Debug)]
pub struct ValueSignature<'a> {
    symbol: &'a Symbol<'a>,
    type_: &'a Type,
}

} // verus!
