use vstd::prelude::*;
use crate::position::Position;

verus! {

/// Why lexing failed.
#[derive(Clone, Debug)]
pub enum Error {
    IllegalCharacter(char),
    InvalidSuffix(String),
    FileErr(String),
    UnknownIdent(String),
    /// The literal's digits and the type whose range they exceed.
    NumOverFlow(String, String),
    /// Where the comment that never closed began.
    UnclosedComment(Position),
    InvalidEscapeSequence(char),
    UnterminatedStringLiteral,
    UnexpectedEndOfInput,
    EmptyCharacterLiteral,
    InvalidCharacterLiteral,
}

pub struct PositionView {
    pub file: Seq<char>,
    pub line: nat,
    pub column: nat,
}

impl View for Position {
    type V = PositionView;

    open spec fn view(&self) -> PositionView {
        PositionView { file: self.file@, line: self.line as nat, column: self.column as nat }
    }
}

/// What an error says, with its texts as sequences of characters.
pub enum ErrorView {
    IllegalCharacter(char),
    InvalidSuffix(Seq<char>),
    FileErr(Seq<char>),
    UnknownIdent(Seq<char>),
    NumOverFlow(Seq<char>, Seq<char>),
    UnclosedComment(PositionView),
    InvalidEscapeSequence(char),
    UnterminatedStringLiteral,
    UnexpectedEndOfInput,
    EmptyCharacterLiteral,
    InvalidCharacterLiteral,
}

impl View for Error {
    type V = ErrorView;

    open spec fn view(&self) -> ErrorView {
        match self {
            Error::IllegalCharacter(c) => ErrorView::IllegalCharacter(*c),
            Error::InvalidSuffix(s) => ErrorView::InvalidSuffix(s@),
            Error::FileErr(s) => ErrorView::FileErr(s@),
            Error::UnknownIdent(s) => ErrorView::UnknownIdent(s@),
            Error::NumOverFlow(n, t) => ErrorView::NumOverFlow(n@, t@),
            Error::UnclosedComment(p) => ErrorView::UnclosedComment(p@),
            Error::InvalidEscapeSequence(c) => ErrorView::InvalidEscapeSequence(*c),
            Error::UnterminatedStringLiteral => ErrorView::UnterminatedStringLiteral,
            Error::UnexpectedEndOfInput => ErrorView::UnexpectedEndOfInput,
            Error::EmptyCharacterLiteral => ErrorView::EmptyCharacterLiteral,
            Error::InvalidCharacterLiteral => ErrorView::InvalidCharacterLiteral,
        }
    }
}

/// The short name of each kind of error.
pub open spec fn error_name(e: ErrorView) -> Seq<char> {
    match e {
        ErrorView::IllegalCharacter(_) => "illegal character"@,
        ErrorView::InvalidSuffix(_) => "invalid suffix"@,
        ErrorView::FileErr(_) => "file error"@,
        ErrorView::UnknownIdent(_) => "unknown identifier"@,
        ErrorView::NumOverFlow(_, t) => t + " number overflow"@,
        ErrorView::UnclosedComment(_) => "unclosed comment"@,
        ErrorView::InvalidEscapeSequence(_) => "invalid escape sequence"@,
        ErrorView::UnterminatedStringLiteral => "unterminated string literal"@,
        ErrorView::UnexpectedEndOfInput => "unexpected end of input"@,
        ErrorView::EmptyCharacterLiteral => "empty character literal"@,
        ErrorView::InvalidCharacterLiteral => "invalid character literal"@,
    }
}

/// The alternatives offered for an invalid suffix, chosen by its first letter.
pub open spec fn suffix_hint_text(sfx: Seq<char>) -> Seq<char> {
    if sfx.len() > 0 && sfx[0] == 'i' {
        "did you meant to use i8, i16, i32, i64, i128, isize"@
    } else if sfx.len() > 0 && sfx[0] == 'u' {
        "did you meant to use u, u8, u16, u32, u64, u128, usize"@
    } else if sfx.len() > 0 && sfx[0] == 'f' {
        "did you meant to use f, f32, f64"@
    } else {
        "did you meant to use i8, i16, i32, i64, i128, isize, u, u8, u16, u32, u64, u128, usize, f"@
    }
}

impl Error {
    pub fn name(&self) -> (r: String)
        ensures
            r@ == error_name(self@),
    {
        match self {
            Error::IllegalCharacter(_) => String::from_str("illegal character"),
            Error::InvalidSuffix(_) => String::from_str("invalid suffix"),
            Error::FileErr(_) => String::from_str("file error"),
            Error::UnknownIdent(_) => String::from_str("unknown identifier"),
            Error::NumOverFlow(_, num_type) => {
                let mut name = num_type.clone();
                name.append(" number overflow");
                name
            },
            Error::UnclosedComment(_) => String::from_str("unclosed comment"),
            Error::InvalidEscapeSequence(_) => String::from_str("invalid escape sequence"),
            Error::UnterminatedStringLiteral => String::from_str("unterminated string literal"),
            Error::UnexpectedEndOfInput => String::from_str("unexpected end of input"),
            Error::EmptyCharacterLiteral => String::from_str("empty character literal"),
            Error::InvalidCharacterLiteral => String::from_str("invalid character literal"),
        }
    }
}

/// The hint shown with an invalid-suffix error: the valid suffixes that share
/// the offending suffix's first letter.
pub fn suffix_hint(sfx: &str) -> (r: String)
    ensures
        r@ == suffix_hint_text(sfx@),
{
    let n = sfx.unicode_len();
    let first: Option<char> = if n > 0 { Some(sfx.get_char(0)) } else { None };
    match first {
        Some('i') => String::from_str("did you meant to use i8, i16, i32, i64, i128, isize"),
        Some('u') => String::from_str("did you meant to use u, u8, u16, u32, u64, u128, usize"),
        Some('f') => String::from_str("did you meant to use f, f32, f64"),
        _ => String::from_str(
            "did you meant to use i8, i16, i32, i64, i128, isize, u, u8, u16, u32, u64, u128, usize, f",
        ),
    }
}

} // verus!
