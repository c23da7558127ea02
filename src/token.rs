use vstd::prelude::*;
use crate::text::ascii_chars;

verus! {

/// One classified unit of source text.
#[derive(Debug, PartialEq)]
pub enum Token {
    Eof,
    Keyword(Keyword),
    Literal(Literal),
    Operator(Operator),
    Identifier(ascii::AsciiString),
}

#[derive(Debug, PartialEq)]
pub enum Literal {
    Null,
    Char(char),
    Boolean(bool),
    Number(Number),
    String(String),
}

#[derive(Clone, Copy, Debug, PartialEq, Eq, Structural)]
pub enum Keyword {
    In,
    If,
    Mut,
    Use,
    Else,
    Loop,
}

/// A number literal at the width its suffix selects. A floating-point literal
/// keeps its decimal text (digits and one `.`, separators removed), which
/// reads as a value of the named width.
#[derive(Clone, Debug, PartialEq)]
pub enum Number {
    I8(i8),
    I16(i16),
    I32(i32),
    I64(i64),
    I128(i128),
    ISize(isize),
    U8(u8),
    U16(u16),
    U32(u32),
    U64(u64),
    U128(u128),
    USize(usize),
    F32(String),
    F64(String),
}

#[derive(Clone, Copy, Debug, PartialEq, Eq, Structural)]
pub enum Operator {
    Exclamation,
    Quotation,
    Hash,
    Dollar,
    Percent,
    Ampersand,
    Apostrophe,
    ParenOpen,
    ParenClose,
    Asterisk,
    Plus,
    Comma,
    Minus,
    Dot,
    Slash,
    Colon,
    Semicolon,
    LessThan,
    Assign,
    GreaterThan,
    Question,
    At,
    BracketOpen,
    BackSlash,
    BracketClose,
    Caret,
    Grave,
    CurlyBraceOpen,
    VerticalBar,
    CurlyBraceClose,
    Tilde,
    EqualTo,
    NotEqualTo,
    Increment,
    Decrement,
    LessThanOrEqualTo,
    GreaterThanOrEqualTo,
    Acceses,
}

/// What a token says, with its text as a sequence of characters.
pub enum TokenView {
    Eof,
    Keyword(Keyword),
    Literal(LiteralView),
    Operator(Operator),
    Identifier(Seq<char>),
}

pub enum LiteralView {
    Null,
    Char(char),
    Boolean(bool),
    Number(NumberView),
    String(Seq<char>),
}

pub enum NumberView {
    I8(i8),
    I16(i16),
    I32(i32),
    I64(i64),
    I128(i128),
    ISize(isize),
    U8(u8),
    U16(u16),
    U32(u32),
    U64(u64),
    U128(u128),
    USize(usize),
    F32(Seq<char>),
    F64(Seq<char>),
}

impl View for Number {
    type V = NumberView;

    open spec fn view(&self) -> NumberView {
        match self {
            Number::I8(v) => NumberView::I8(*v),
            Number::I16(v) => NumberView::I16(*v),
            Number::I32(v) => NumberView::I32(*v),
            Number::I64(v) => NumberView::I64(*v),
            Number::I128(v) => NumberView::I128(*v),
            Number::ISize(v) => NumberView::ISize(*v),
            Number::U8(v) => NumberView::U8(*v),
            Number::U16(v) => NumberView::U16(*v),
            Number::U32(v) => NumberView::U32(*v),
            Number::U64(v) => NumberView::U64(*v),
            Number::U128(v) => NumberView::U128(*v),
            Number::USize(v) => NumberView::USize(*v),
            Number::F32(t) => NumberView::F32(t@),
            Number::F64(t) => NumberView::F64(t@),
        }
    }
}

impl View for Literal {
    type V = LiteralView;

    open spec fn view(&self) -> LiteralView {
        match self {
            Literal::Null => LiteralView::Null,
            Literal::Char(c) => LiteralView::Char(*c),
            Literal::Boolean(b) => LiteralView::Boolean(*b),
            Literal::Number(n) => LiteralView::Number(n@),
            Literal::String(s) => LiteralView::String(s@),
        }
    }
}

impl View for Token {
    type V = TokenView;

    open spec fn view(&self) -> TokenView {
        match self {
            Token::Eof => TokenView::Eof,
            Token::Keyword(k) => TokenView::Keyword(*k),
            Token::Literal(l) => TokenView::Literal(l@),
            Token::Operator(o) => TokenView::Operator(*o),
            Token::Identifier(a) => TokenView::Identifier(ascii_chars(*a)),
        }
    }
}

/// The keyword spelled by `t`, if any.
pub open spec fn keyword_of(t: Seq<char>) -> Option<Keyword> {
    if t == "in"@ {
        Some(Keyword::In)
    } else if t == "if"@ {
        Some(Keyword::If)
    } else if t == "mut"@ {
        Some(Keyword::Mut)
    } else if t == "use"@ {
        Some(Keyword::Use)
    } else if t == "else"@ {
        Some(Keyword::Else)
    } else if t == "loop"@ {
        Some(Keyword::Loop)
    } else {
        None
    }
}

/// The single-character operator that `c` stands for, if any.
pub open spec fn operator_of(c: char) -> Option<Operator> {
    if c == '!' { Some(Operator::Exclamation) }
    else if c == '"' { Some(Operator::Quotation) }
    else if c == '#' { Some(Operator::Hash) }
    else if c == '$' { Some(Operator::Dollar) }
    else if c == '%' { Some(Operator::Percent) }
    else if c == '&' { Some(Operator::Ampersand) }
    else if c == '\'' { Some(Operator::Apostrophe) }
    else if c == '(' { Some(Operator::ParenOpen) }
    else if c == ')' { Some(Operator::ParenClose) }
    else if c == '*' { Some(Operator::Asterisk) }
    else if c == '+' { Some(Operator::Plus) }
    else if c == ',' { Some(Operator::Comma) }
    else if c == '-' { Some(Operator::Minus) }
    else if c == '.' { Some(Operator::Dot) }
    else if c == '/' { Some(Operator::Slash) }
    else if c == ':' { Some(Operator::Colon) }
    else if c == ';' { Some(Operator::Semicolon) }
    else if c == '<' { Some(Operator::LessThan) }
    else if c == '=' { Some(Operator::Assign) }
    else if c == '>' { Some(Operator::GreaterThan) }
    else if c == '?' { Some(Operator::Question) }
    else if c == '@' { Some(Operator::At) }
    else if c == '[' { Some(Operator::BracketOpen) }
    else if c == '\\' { Some(Operator::BackSlash) }
    else if c == ']' { Some(Operator::BracketClose) }
    else if c == '^' { Some(Operator::Caret) }
    else if c == '`' { Some(Operator::Grave) }
    else if c == '{' { Some(Operator::CurlyBraceOpen) }
    else if c == '|' { Some(Operator::VerticalBar) }
    else if c == '}' { Some(Operator::CurlyBraceClose) }
    else if c == '~' { Some(Operator::Tilde) }
    else { None }
}

impl Operator {
    /// The single-character operator for a punctuation character; `None` for
    /// any other character.
    pub fn from_char(c: char) -> (r: Option<Operator>)
        ensures
            r == operator_of(c),
    {
        match c {
            '!' => Some(Operator::Exclamation),
            '"' => Some(Operator::Quotation),
            '#' => Some(Operator::Hash),
            '$' => Some(Operator::Dollar),
            '%' => Some(Operator::Percent),
            '&' => Some(Operator::Ampersand),
            '\'' => Some(Operator::Apostrophe),
            '(' => Some(Operator::ParenOpen),
            ')' => Some(Operator::ParenClose),
            '*' => Some(Operator::Asterisk),
            '+' => Some(Operator::Plus),
            ',' => Some(Operator::Comma),
            '-' => Some(Operator::Minus),
            '.' => Some(Operator::Dot),
            '/' => Some(Operator::Slash),
            ':' => Some(Operator::Colon),
            ';' => Some(Operator::Semicolon),
            '<' => Some(Operator::LessThan),
            '=' => Some(Operator::Assign),
            '>' => Some(Operator::GreaterThan),
            '?' => Some(Operator::Question),
            '@' => Some(Operator::At),
            '[' => Some(Operator::BracketOpen),
            '\\' => Some(Operator::BackSlash),
            ']' => Some(Operator::BracketClose),
            '^' => Some(Operator::Caret),
            '`' => Some(Operator::Grave),
            '{' => Some(Operator::CurlyBraceOpen),
            '|' => Some(Operator::VerticalBar),
            '}' => Some(Operator::CurlyBraceClose),
            '~' => Some(Operator::Tilde),
            _ => None,
        }
    }
}

} // verus!
