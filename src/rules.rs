//! The lexical rules as mathematics: where each scan stops and what it yields,
//! over the source as a sequence of characters.
use vstd::prelude::*;
use crate::error::{ErrorView, PositionView};
use crate::position::location_after;
use crate::token::{keyword_of, operator_of, LiteralView, NumberView, Operator, TokenView};

verus! {

pub open spec fn is_digit(c: char) -> bool {
    48 <= (c as u32) <= 57
}

pub open spec fn is_alpha(c: char) -> bool {
    (65 <= (c as u32) <= 90) || (97 <= (c as u32) <= 122)
}

/// A character that may stand in an identifier or a suffix.
pub open spec fn is_word_char(c: char) -> bool {
    c == '_' || is_digit(c) || is_alpha(c)
}

pub open spec fn is_blank(c: char) -> bool {
    c == ' ' || c == '\t' || c == '\n'
}

/// `s` holds `c` at index `i`.
pub open spec fn at(s: Seq<char>, i: int, c: char) -> bool {
    0 <= i < s.len() && s[i] == c
}

/// The position of the character at index `n`, in the file named `file`.
pub open spec fn pos_at(file: Seq<char>, s: Seq<char>, n: int) -> PositionView {
    PositionView {
        file,
        line: location_after(s.take(n)).0,
        column: location_after(s.take(n)).1,
    }
}

/// End of the run of blanks that starts at `i`.
pub open spec fn blanks_end(s: Seq<char>, i: int) -> int
    decreases s.len() - i,
{
    if 0 <= i < s.len() && is_blank(s[i]) {
        blanks_end(s, i + 1)
    } else {
        i
    }
}

/// Index just past the newline that ends the line holding `i`, or the end of
/// the input.
pub open spec fn line_end(s: Seq<char>, i: int) -> int
    decreases s.len() - i,
{
    if 0 <= i < s.len() {
        if s[i] == '\n' {
            i + 1
        } else {
            line_end(s, i + 1)
        }
    } else {
        i
    }
}

/// Index just past the `*/` that brings the nesting `depth` of block comments
/// to zero, scanning from `i`; `None` when the input ends first.
pub open spec fn block_end(s: Seq<char>, i: int, depth: nat) -> Option<int>
    decreases s.len() - i,
{
    if depth == 0 {
        Some(i)
    } else if !(0 <= i < s.len()) {
        None
    } else if s[i] == '/' && at(s, i + 1, '*') {
        block_end(s, i + 2, depth + 1)
    } else if s[i] == '*' && at(s, i + 1, '/') {
        block_end(s, i + 2, (depth - 1) as nat)
    } else {
        block_end(s, i + 1, depth)
    }
}

/// The error for a block comment whose body starts at index `n` and never
/// closes: it points three columns past that start.
pub open spec fn unclosed_at(file: Seq<char>, s: Seq<char>, n: int) -> ErrorView {
    let p = pos_at(file, s, n);
    ErrorView::UnclosedComment(PositionView { file, line: p.line, column: p.column + 3 })
}

/// Where the blanks and comments that start at `i` end.
pub open spec fn trivia_end(file: Seq<char>, s: Seq<char>, i: int) -> Result<int, ErrorView>
    decreases s.len() - i,
{
    let j = blanks_end(s, i);
    if at(s, j, '/') && at(s, j + 1, '/') {
        let k = line_end(s, j + 2);
        if i < k <= s.len() {
            trivia_end(file, s, k)
        } else {
            Ok(j)
        }
    } else if at(s, j, '/') && at(s, j + 1, '*') {
        match block_end(s, j + 2, 1) {
            Some(k) => if i < k <= s.len() {
                trivia_end(file, s, k)
            } else {
                Ok(j)
            },
            None => Err(unclosed_at(file, s, j + 2)),
        }
    } else {
        Ok(j)
    }
}

/// End of the run of word characters that starts at `i`.
pub open spec fn word_end(s: Seq<char>, i: int) -> int
    decreases s.len() - i,
{
    if 0 <= i < s.len() && is_word_char(s[i]) {
        word_end(s, i + 1)
    } else {
        i
    }
}

/// End of the run of digits, `_` and at most one `.` that starts at `i`;
/// `dot` tells whether a `.` was taken already.
pub open spec fn digits_end(s: Seq<char>, i: int, dot: bool) -> int
    decreases s.len() - i,
{
    if 0 <= i < s.len() && (is_digit(s[i]) || s[i] == '_') {
        digits_end(s, i + 1, dot)
    } else if 0 <= i < s.len() && s[i] == '.' && !dot {
        digits_end(s, i + 1, true)
    } else {
        i
    }
}

/// `t` with its digit separators removed.
pub open spec fn without_underscores(t: Seq<char>) -> Seq<char>
    decreases t.len(),
{
    if t.len() == 0 {
        t
    } else if t.last() == '_' {
        without_underscores(t.drop_last())
    } else {
        without_underscores(t.drop_last()).push(t.last())
    }
}

/// The value of a run of decimal digits.
pub open spec fn decimal(t: Seq<char>) -> nat
    decreases t.len(),
{
    if t.len() == 0 {
        0
    } else {
        decimal(t.drop_last()) * 10 + ((t.last() as u32) - 48) as nat
    }
}

/// The number that the digits `text` and the suffix `sfx` denote.
pub open spec fn number_of(text: Seq<char>, sfx: Seq<char>) -> Result<NumberView, ErrorView> {
    if sfx.len() > 0 && !(sfx[0] == 'i' || sfx[0] == 'u' || sfx[0] == 'f') {
        Err(ErrorView::UnknownIdent(sfx))
    } else if text.contains('.') {
        if sfx == "f32"@ {
            Ok(NumberView::F32(text))
        } else if sfx.len() == 0 || sfx == "f"@ || sfx == "f64"@ {
            Ok(NumberView::F64(text))
        } else {
            Err(ErrorView::InvalidSuffix(sfx))
        }
    } else {
        integer_of(text, sfx)
    }
}

/// The integer (or float, for a float suffix) that digits without a `.` and
/// the suffix `sfx` denote.
pub open spec fn integer_of(text: Seq<char>, sfx: Seq<char>) -> Result<NumberView, ErrorView> {
    let v = decimal(text);
    let over = ErrorView::NumOverFlow(text, if sfx.len() == 0 { "i32"@ } else { sfx });
    if sfx == "i8"@ {
        if v <= i8::MAX { Ok(NumberView::I8(v as i8)) } else { Err(over) }
    } else if sfx == "i16"@ {
        if v <= i16::MAX { Ok(NumberView::I16(v as i16)) } else { Err(over) }
    } else if sfx.len() == 0 || sfx == "i32"@ {
        if v <= i32::MAX { Ok(NumberView::I32(v as i32)) } else { Err(over) }
    } else if sfx == "i64"@ {
        if v <= i64::MAX { Ok(NumberView::I64(v as i64)) } else { Err(over) }
    } else if sfx == "i128"@ {
        if v <= i128::MAX { Ok(NumberView::I128(v as i128)) } else { Err(over) }
    } else if sfx == "isize"@ {
        if v <= isize::MAX { Ok(NumberView::ISize(v as isize)) } else { Err(over) }
    } else if sfx == "u8"@ {
        if v <= u8::MAX { Ok(NumberView::U8(v as u8)) } else { Err(over) }
    } else if sfx == "u16"@ {
        if v <= u16::MAX { Ok(NumberView::U16(v as u16)) } else { Err(over) }
    } else if sfx == "u"@ || sfx == "u32"@ {
        if v <= u32::MAX { Ok(NumberView::U32(v as u32)) } else { Err(over) }
    } else if sfx == "u64"@ {
        if v <= u64::MAX { Ok(NumberView::U64(v as u64)) } else { Err(over) }
    } else if sfx == "u128"@ {
        if v <= u128::MAX { Ok(NumberView::U128(v as u128)) } else { Err(over) }
    } else if sfx == "usize"@ {
        if v <= usize::MAX { Ok(NumberView::USize(v as usize)) } else { Err(over) }
    } else if sfx == "f32"@ {
        Ok(NumberView::F32(text))
    } else if sfx == "f"@ || sfx == "f64"@ {
        Ok(NumberView::F64(text))
    } else {
        Err(ErrorView::InvalidSuffix(sfx))
    }
}

/// The number literal that starts at `j`, and the index after it.
pub open spec fn number_token(s: Seq<char>, j: int) -> Result<(TokenView, int), ErrorView> {
    let e = digits_end(s, j, false);
    let m = word_end(s, e);
    match number_of(without_underscores(s.subrange(j, e)), s.subrange(e, m)) {
        Ok(n) => Ok((TokenView::Literal(LiteralView::Number(n)), m)),
        Err(err) => Err(err),
    }
}

/// What a word reads as: a keyword, a boolean, or an identifier.
pub open spec fn word_token(t: Seq<char>) -> TokenView {
    match keyword_of(t) {
        Some(k) => TokenView::Keyword(k),
        None => if t == "true"@ {
            TokenView::Literal(LiteralView::Boolean(true))
        } else if t == "false"@ {
            TokenView::Literal(LiteralView::Boolean(false))
        } else {
            TokenView::Identifier(t)
        },
    }
}

/// The character that the escape `\e` stands for; `in_string` admits `\"`.
pub open spec fn escape_of(e: char, in_string: bool) -> Option<char> {
    if e == 'n' {
        Some('\n')
    } else if e == 'r' {
        Some('\r')
    } else if e == 't' {
        Some('\t')
    } else if e == '\\' {
        Some('\\')
    } else if e == '\'' {
        Some('\'')
    } else if in_string && e == '"' {
        Some('"')
    } else {
        None
    }
}

/// A character literal holding `c` must close at index `m`.
pub open spec fn close_char(s: Seq<char>, m: int, c: char) -> Result<(TokenView, int), ErrorView> {
    if !(0 <= m < s.len()) {
        Err(ErrorView::UnexpectedEndOfInput)
    } else if s[m] == '\'' {
        Ok((TokenView::Literal(LiteralView::Char(c)), m + 1))
    } else {
        Err(ErrorView::InvalidCharacterLiteral)
    }
}

/// The character literal whose opening quote stands at `j`.
pub open spec fn char_token(s: Seq<char>, j: int) -> Result<(TokenView, int), ErrorView> {
    let k = j + 1;
    if !(0 <= k < s.len()) {
        Err(ErrorView::UnexpectedEndOfInput)
    } else if s[k] == '\\' {
        if !(k + 1 < s.len()) {
            Err(ErrorView::UnexpectedEndOfInput)
        } else {
            match escape_of(s[k + 1], false) {
                Some(c) => close_char(s, k + 2, c),
                None => Err(ErrorView::InvalidEscapeSequence(s[k + 1])),
            }
        }
    } else if s[k] == '\'' {
        Err(ErrorView::EmptyCharacterLiteral)
    } else {
        close_char(s, k + 1, s[k])
    }
}

/// The rest of a string literal from `i`, where `acc` was read already: its
/// text and the index after the closing quote.
pub open spec fn string_body(s: Seq<char>, i: int, acc: Seq<char>) -> Result<(Seq<char>, int), ErrorView>
    decreases s.len() - i,
{
    if !(0 <= i < s.len()) {
        Err(ErrorView::UnexpectedEndOfInput)
    } else if s[i] == '"' {
        Ok((acc, i + 1))
    } else if s[i] == '\n' {
        Err(ErrorView::UnterminatedStringLiteral)
    } else if s[i] == '\\' {
        if !(i + 1 < s.len()) {
            Err(ErrorView::UnexpectedEndOfInput)
        } else {
            match escape_of(s[i + 1], true) {
                Some(c) => string_body(s, i + 2, acc.push(c)),
                None => Err(ErrorView::InvalidEscapeSequence(s[i + 1])),
            }
        }
    } else {
        string_body(s, i + 1, acc.push(s[i]))
    }
}

/// The operator, or the null literal, that starts with the punctuation at `j`.
pub open spec fn punct_token(s: Seq<char>, j: int) -> (TokenView, int) {
    let c = s[j];
    if c == '?' {
        (TokenView::Literal(LiteralView::Null), j + 1)
    } else if c == ':' && at(s, j + 1, ':') {
        (TokenView::Operator(Operator::Acceses), j + 2)
    } else if c == '+' && at(s, j + 1, '+') {
        (TokenView::Operator(Operator::Increment), j + 2)
    } else if c == '-' && at(s, j + 1, '-') {
        (TokenView::Operator(Operator::Decrement), j + 2)
    } else if c == '!' && at(s, j + 1, '=') {
        (TokenView::Operator(Operator::NotEqualTo), j + 2)
    } else if c == '=' && at(s, j + 1, '=') {
        (TokenView::Operator(Operator::EqualTo), j + 2)
    } else if c == '<' && at(s, j + 1, '=') {
        (TokenView::Operator(Operator::LessThanOrEqualTo), j + 2)
    } else if c == '>' && at(s, j + 1, '=') {
        (TokenView::Operator(Operator::GreaterThanOrEqualTo), j + 2)
    } else {
        (TokenView::Operator(operator_of(c).unwrap()), j + 1)
    }
}

/// The token that starts at `j`, where no blank or comment stands, and the
/// index after it.
pub open spec fn scan_token(s: Seq<char>, j: int) -> Result<(TokenView, int), ErrorView> {
    if !(0 <= j < s.len()) {
        Ok((TokenView::Eof, j))
    } else if is_digit(s[j]) {
        number_token(s, j)
    } else if s[j] == '_' || is_alpha(s[j]) {
        (Ok((word_token(s.subrange(j, word_end(s, j))), word_end(s, j))))
    } else if s[j] == '\'' {
        char_token(s, j)
    } else if s[j] == '"' {
        match string_body(s, j + 1, Seq::empty()) {
            Ok((t, k)) => Ok((TokenView::Literal(LiteralView::String(t)), k)),
            Err(e) => Err(e),
        }
    } else if operator_of(s[j]) is Some {
        Ok(punct_token(s, j))
    } else {
        Err(ErrorView::IllegalCharacter(s[j]))
    }
}

/// One step from index `i`: skip blanks and comments, then read one token.
pub open spec fn token_step(file: Seq<char>, s: Seq<char>, i: int) -> Result<(TokenView, int), ErrorView> {
    match trivia_end(file, s, i) {
        Ok(j) => scan_token(s, j),
        Err(e) => Err(e),
    }
}

/// All tokens from index `i` on, the last one `Eof`, or the first error.
pub open spec fn lex_from(file: Seq<char>, s: Seq<char>, i: int) -> Result<Seq<TokenView>, ErrorView>
    decreases s.len() - i,
{
    match token_step(file, s, i) {
        Err(e) => Err(e),
        Ok((t, k)) => if t is Eof {
            Ok(seq![TokenView::Eof])
        } else if i < k <= s.len() {
            match lex_from(file, s, k) {
                Ok(ts) => Ok(seq![t] + ts),
                Err(e) => Err(e),
            }
        } else {
            Ok(seq![t])
        },
    }
}

} // verus!
