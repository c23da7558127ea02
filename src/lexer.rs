use vstd::prelude::*;
use vstd::std_specs::iter::IteratorSpec;
use crate::error::{Error, ErrorView};
use crate::token::operator_of;
use crate::position::{lemma_location_bounded, Next, Position};
use crate::rules::{
    at, blanks_end, block_end, char_token, decimal, digits_end, escape_of, is_alpha, is_digit,
    is_word_char, lex_from, line_end, number_token, pos_at, punct_token, string_body,
    token_step, trivia_end, unclosed_at, without_underscores, word_end, word_token,
};
use crate::text::{ascii_chars, push_ascii};
use crate::token::{Keyword, Literal, LiteralView, Number, Operator, Token, TokenView};

verus! {

fn is_digit_char(c: char) -> (r: bool)
    ensures
        r == is_digit(c),
{
    let u = c as u32;
    48 <= u && u <= 57
}

fn is_alpha_char(c: char) -> (r: bool)
    ensures
        r == is_alpha(c),
{
    let u = c as u32;
    (65 <= u && u <= 90) || (97 <= u && u <= 122)
}

fn is_word(c: char) -> (r: bool)
    ensures
        r == is_word_char(c),
{
    c == '_' || is_digit_char(c) || is_alpha_char(c)
}

fn escape(e: char, in_string: bool) -> (r: Option<char>)
    ensures
        r == escape_of(e, in_string),
{
    if e == 'n' {
        Some('\n')
    } else if e == 'r' {
        Some('\r')
    } else if e == 't' {
        Some('\t')
    } else if e == '\\' {
        Some('\\')
    } else if e == '\'' {
        Some('\'')
    } else if in_string && e == '"' {
        Some('"')
    } else {
        None
    }
}

/// The characters of `source`, in order.
fn chars_of(source: &str) -> (r: Vec<char>)
    ensures
        r@ == source@,
{
    broadcast use vstd::string::group_string_axioms;

    let mut it = source.chars();
    let mut out: Vec<char> = Vec::new();
    loop
        invariant
            IteratorSpec::obeys_prophetic_iter_laws(&it),
            IteratorSpec::decrease(&it) is Some,
            out@ + IteratorSpec::remaining(&it) == source@,
        decreases IteratorSpec::decrease(&it)->0,
    {
        match it.next() {
            Some(c) => {
                out.push(c);
                assert(out@ + IteratorSpec::remaining(&it) =~= source@);
            },
            None => {
                assert(out@ =~= source@);
                return out;
            },
        }
    }
}

/// Whether two texts hold the same characters.
fn same_text(t: &str, w: &str) -> (r: bool)
    ensures
        r == (t@ == w@),
{
    let n = t.unicode_len();
    if n != w.unicode_len() {
        return false;
    }
    let mut i: usize = 0;
    while i < n
        invariant
            n == t@.len(),
            n == w@.len(),
            i <= n,
            forall|k: int| 0 <= k < i ==> t@[k] == w@[k],
        decreases n - i,
    {
        if t.get_char(i) != w.get_char(i) {
            return false;
        }
        i = i + 1;
    }
    assert(t@ =~= w@);
    true
}

/// The digits of a number literal with its separators removed, whether they
/// hold a `.`, their value where it fits in a `u128` and they hold no `.`,
/// and the suffix that follows them.
struct NumberText {
    digits: String,
    has_dot: bool,
    value: Option<u128>,
    suffix: String,
}

/// `value` is the value of `digits` where they hold no `.` and it fits in a
/// `u128`, and `None` where it does not fit.
pub open spec fn value_fits(digits: Seq<char>, has_dot: bool, value: Option<u128>) -> bool {
    !has_dot ==> (if decimal(digits) <= u128::MAX {
        value == Some(decimal(digits) as u128)
    } else {
        value is None
    })
}

proof fn lemma_push_contains(t: Seq<char>, c: char, x: char)
    ensures
        t.push(c).contains(x) <==> (t.contains(x) || c == x),
{
    if c == x {
        assert(t.push(c)[t.len() as int] == x);
    }
    if t.contains(x) {
        let k = choose|k: int| 0 <= k < t.len() && t[k] == x;
        assert(t.push(c)[k] == x);
    }
    if t.push(c).contains(x) {
        let k = choose|k: int| 0 <= k < t.len() + 1 && t.push(c)[k] == x;
        if k < t.len() {
            assert(t[k] == x);
        }
    }
}

/// Reads tokens off a source text, one at a time, tracking the position of
/// the next character.
pub struct Lexer {
    pos: Position,
    source: Vec<char>,
    idx: usize,
}

impl Lexer {
    /// The whole source text.
    pub closed spec fn input(&self) -> Seq<char> {
        self.source@
    }

    /// Index of the next character to read.
    pub closed spec fn cursor(&self) -> int {
        self.idx as int
    }

    /// Name of the file the source came from.
    pub closed spec fn file_name(&self) -> Seq<char> {
        self.pos.file@
    }

    /// The cursor lies within the source, and the position is that of the
    /// character under the cursor.
    pub closed spec fn wf(&self) -> bool {
        &&& self.idx <= self.source.len()
        &&& self.source.len() <= isize::MAX
        &&& self.pos@ == pos_at(self.pos.file@, self.source@, self.idx as int)
    }

    /// A lexer at the start of `source`, which was read from the file named
    /// `file`.
    pub fn new(file: &str, source: &str) -> (r: Lexer)
        requires
            source@.len() <= isize::MAX,
        ensures
            r.wf(),
            r.input() == source@,
            r.cursor() == 0,
            r.file_name() == file@,
    {
        let chars = chars_of(source);
        let pos = Position::new(file);
        assert(chars@.take(0) =~= Seq::<char>::empty());
        Lexer { pos, source: chars, idx: 0 }
    }

    /// The position of the next character to read.
    pub fn pos(&self) -> (r: &Position)
        requires
            self.wf(),
        ensures
            r@ == pos_at(self.file_name(), self.input(), self.cursor()),
    {
        &self.pos
    }

    /// Consumes the character under the cursor, if any, and moves the position
    /// past it.
    fn next(&mut self) -> (r: Option<char>)
        requires
            old(self).wf(),
        ensures
            final(self).wf(),
            final(self).input() == old(self).input(),
            final(self).file_name() == old(self).file_name(),
            old(self).cursor() < old(self).input().len() ==> r == Some(
                old(self).input()[old(self).cursor()],
            ) && final(self).cursor() == old(self).cursor() + 1,
            old(self).cursor() >= old(self).input().len() ==> r is None && final(self).cursor()
                == old(self).cursor(),
    {
        if self.idx < self.source.len() {
            let c = self.source[self.idx];
            proof {
                let s = self.source@;
                let i = self.idx as int;
                assert(s.take(i + 1).drop_last() =~= s.take(i));
                lemma_location_bounded(s.take(i));
            }
            if c == '\n' {
                self.pos.next(Next::Line);
            } else {
                self.pos.next(Next::Column);
            }
            self.idx = self.idx + 1;
            Some(c)
        } else {
            None
        }
    }

    /// The character under the cursor, if any.
    fn peek(&self) -> (r: Option<char>)
        requires
            self.wf(),
        ensures
            r == (if self.cursor() < self.input().len() {
                Some(self.input()[self.cursor()])
            } else {
                None::<char>
            }),
    {
        if self.idx < self.source.len() {
            Some(self.source[self.idx])
        } else {
            None
        }
    }

    /// The character just after the one under the cursor, if any.
    fn peek_second(&self) -> (r: Option<char>)
        requires
            self.wf(),
        ensures
            r == (if self.cursor() + 1 < self.input().len() {
                Some(self.input()[self.cursor() + 1])
            } else {
                None::<char>
            }),
    {
        if self.idx < self.source.len() && self.idx + 1 < self.source.len() {
            Some(self.source[self.idx + 1])
        } else {
            None
        }
    }
    /// Consumes a run of letters, digits and `_`.
    fn ident_str(&mut self) -> (r: ascii::AsciiString)
        requires
            old(self).wf(),
        ensures
            final(self).wf(),
            final(self).input() == old(self).input(),
            final(self).file_name() == old(self).file_name(),
            final(self).cursor() == word_end(old(self).input(), old(self).cursor()),
            old(self).cursor() <= final(self).cursor(),
            old(self).cursor() < old(self).input().len() && is_word_char(
                old(self).input()[old(self).cursor()],
            ) ==> old(self).cursor() < final(self).cursor(),
            ascii_chars(r) == old(self).input().subrange(old(self).cursor(), final(self).cursor()),
    {
        let ghost s = self.input();
        let ghost start = self.cursor();
        let mut ident = ascii::AsciiString::new();
        loop
            invariant
                self.wf(),
                self.input() == s,
                self.file_name() == old(self).file_name(),
                s == old(self).input(),
                start == old(self).cursor(),
                start <= self.cursor(),
                word_end(s, start) == word_end(s, self.cursor()),
                ascii_chars(ident) == s.subrange(start, self.cursor()),
            decreases s.len() - self.cursor(),
        {
            match self.peek() {
                Some(c) => {
                    if is_word(c) {
                        push_ascii(&mut ident, c);
                        self.next();
                        assert(s.subrange(start, self.cursor()) =~= s.subrange(
                            start,
                            self.cursor() - 1,
                        ).push(c));
                    } else {
                        return ident;
                    }
                },
                None => {
                    return ident;
                },
            }
        }
    }

    /// Whether the characters from `start` to `end` spell `w`.
    fn spells(&self, start: usize, end: usize, w: &str) -> (r: bool)
        requires
            self.wf(),
            start <= end <= self.input().len(),
        ensures
            r == (self.input().subrange(start as int, end as int) == w@),
    {
        let n = w.unicode_len();
        if end - start != n {
            return false;
        }
        let mut i: usize = 0;
        while i < n
            invariant
                self.wf(),
                start <= end <= self.input().len(),
                n == w@.len(),
                end - start == n,
                i <= n,
                forall|k: int| 0 <= k < i ==> self.input()[start + k] == w@[k],
            decreases n - i,
        {
            if self.source[start + i] != w.get_char(i) {
                return false;
            }
            i = i + 1;
        }
        assert(self.input().subrange(start as int, end as int) =~= w@);
        true
    }

    /// Consumes the digits, separators and decimal point of a number literal,
    /// then its suffix.
    fn number_str(&mut self) -> (r: NumberText)
        requires
            old(self).wf(),
        ensures
            final(self).wf(),
            final(self).input() == old(self).input(),
            final(self).file_name() == old(self).file_name(),
            ({
                let s = old(self).input();
                let e = digits_end(s, old(self).cursor(), false);
                &&& r.digits@ == without_underscores(s.subrange(old(self).cursor(), e))
                &&& r.has_dot == r.digits@.contains('.')
                &&& value_fits(r.digits@, r.has_dot, r.value)
                &&& r.suffix@ == s.subrange(e, word_end(s, e))
                &&& final(self).cursor() == word_end(s, e)
            }),
            old(self).cursor() < old(self).input().len() && is_digit(
                old(self).input()[old(self).cursor()],
            ) ==> old(self).cursor() < final(self).cursor(),
    {
        let ghost s = self.input();
        let ghost start = self.cursor();
        let mut digits = String::new();
        let mut has_dot = false;
        let mut value: Option<u128> = Some(0);
        proof {
            assert(s.subrange(start, start) =~= Seq::<char>::empty());
            assert(!digits@.contains('.'));
        }
        loop
            invariant
                self.wf(),
                self.input() == s,
                self.file_name() == old(self).file_name(),
                s == old(self).input(),
                start == old(self).cursor(),
                start <= self.cursor(),
                digits_end(s, start, false) == digits_end(s, self.cursor(), has_dot),
                digits@ == without_underscores(s.subrange(start, self.cursor())),
                has_dot == digits@.contains('.'),
                value_fits(digits@, has_dot, value),
            ensures
                self.wf(),
                self.input() == s,
                self.file_name() == old(self).file_name(),
                self.cursor() == digits_end(s, start, false),
                start <= self.cursor(),
                start < s.len() && is_digit(s[start]) ==> start < self.cursor(),
                digits@ == without_underscores(s.subrange(start, self.cursor())),
                has_dot == digits@.contains('.'),
                value_fits(digits@, has_dot, value),
            decreases s.len() - self.cursor(),
        {
            let c = match self.peek() {
                Some(c) => c,
                None => {
                    break;
                },
            };
            let ghost i = self.cursor();
            if c == '_' || (c == '.' && !has_dot) || is_digit_char(c) {
                self.next();
                proof {
                    assert(s.subrange(start, i + 1).drop_last() =~= s.subrange(start, i));
                }
                if c != '_' {
                    proof {
                        lemma_push_contains(digits@, c, '.');
                    }
                    let ghost before = digits@;
                    digits.push(c);
                    if c == '.' {
                        has_dot = true;
                    } else if !has_dot {
                        proof {
                            assert(digits@.drop_last() =~= before);
                        }
                        let d = (c as u32 - 48) as u128;
                        value = match value {
                            Some(v) => match v.checked_mul(10) {
                                Some(w) => w.checked_add(d),
                                None => None,
                            },
                            None => None,
                        };
                    }
                }
            } else {
                break;
            }
        }
        let ghost e = self.cursor();
        let mut suffix = String::new();
        proof {
            assert(s.subrange(e, e) =~= Seq::<char>::empty());
        }
        loop
            invariant
                self.wf(),
                self.input() == s,
                self.file_name() == old(self).file_name(),
                0 <= e <= self.cursor(),
                word_end(s, e) == word_end(s, self.cursor()),
                suffix@ == s.subrange(e, self.cursor()),
            ensures
                self.wf(),
                self.input() == s,
                self.file_name() == old(self).file_name(),
                self.cursor() == word_end(s, e),
                e <= self.cursor(),
                suffix@ == s.subrange(e, self.cursor()),
            decreases s.len() - self.cursor(),
        {
            let c = match self.peek() {
                Some(c) => c,
                None => {
                    break;
                },
            };
            let ghost i = self.cursor();
            if is_word(c) {
                suffix.push(c);
                self.next();
                assert(s.subrange(e, i + 1) =~= s.subrange(e, i).push(c));
            } else {
                break;
            }
        }
        NumberText { digits, has_dot, value, suffix }
    }

    /// Reads a number literal.
    fn numeric(&mut self) -> (r: Result<Number, Error>)
        requires
            old(self).wf(),
        ensures
            final(self).wf(),
            final(self).input() == old(self).input(),
            final(self).file_name() == old(self).file_name(),
            old(self).cursor() < old(self).input().len() && is_digit(
                old(self).input()[old(self).cursor()],
            ) ==> old(self).cursor() < final(self).cursor(),
            match number_token(old(self).input(), old(self).cursor()) {
                Ok((t, k)) => r is Ok && t == TokenView::Literal(LiteralView::Number(r->Ok_0@))
                    && final(self).cursor() == k,
                Err(e) => r is Err && r->Err_0@ == e,
            },
    {
        let text = self.number_str();
        let sfx = text.suffix.as_str();
        let n = sfx.unicode_len();
        if n > 0 {
            let c0 = sfx.get_char(0);
            if !(c0 == 'i' || c0 == 'u' || c0 == 'f') {
                return Err(Error::UnknownIdent(text.suffix));
            }
        }
        if text.has_dot {
            if same_text(sfx, "f32") {
                return Ok(Number::F32(text.digits));
            } else if n == 0 || same_text(sfx, "f") || same_text(sfx, "f64") {
                return Ok(Number::F64(text.digits));
            } else {
                return Err(Error::InvalidSuffix(text.suffix));
            }
        }
        let (v, big) = match text.value {
            Some(v) => (v, false),
            None => (0u128, true),
        };
        let ty = if n == 0 {
            String::from_str("i32")
        } else {
            text.suffix.clone()
        };
        let over = Error::NumOverFlow(text.digits.clone(), ty);
        if same_text(sfx, "i8") {
            if !big && v <= i8::MAX as u128 { Ok(Number::I8(v as i8)) } else { Err(over) }
        } else if same_text(sfx, "i16") {
            if !big && v <= i16::MAX as u128 { Ok(Number::I16(v as i16)) } else { Err(over) }
        } else if n == 0 || same_text(sfx, "i32") {
            if !big && v <= i32::MAX as u128 { Ok(Number::I32(v as i32)) } else { Err(over) }
        } else if same_text(sfx, "i64") {
            if !big && v <= i64::MAX as u128 { Ok(Number::I64(v as i64)) } else { Err(over) }
        } else if same_text(sfx, "i128") {
            if !big && v <= i128::MAX as u128 { Ok(Number::I128(v as i128)) } else { Err(over) }
        } else if same_text(sfx, "isize") {
            if !big && v <= isize::MAX as u128 { Ok(Number::ISize(v as isize)) } else { Err(over) }
        } else if same_text(sfx, "u8") {
            if !big && v <= u8::MAX as u128 { Ok(Number::U8(v as u8)) } else { Err(over) }
        } else if same_text(sfx, "u16") {
            if !big && v <= u16::MAX as u128 { Ok(Number::U16(v as u16)) } else { Err(over) }
        } else if same_text(sfx, "u") || same_text(sfx, "u32") {
            if !big && v <= u32::MAX as u128 { Ok(Number::U32(v as u32)) } else { Err(over) }
        } else if same_text(sfx, "u64") {
            if !big && v <= u64::MAX as u128 { Ok(Number::U64(v as u64)) } else { Err(over) }
        } else if same_text(sfx, "u128") {
            if !big { Ok(Number::U128(v)) } else { Err(over) }
        } else if same_text(sfx, "usize") {
            if !big && v <= usize::MAX as u128 { Ok(Number::USize(v as usize)) } else { Err(over) }
        } else if same_text(sfx, "f32") {
            Ok(Number::F32(text.digits))
        } else if same_text(sfx, "f") || same_text(sfx, "f64") {
            Ok(Number::F64(text.digits))
        } else {
            Err(Error::InvalidSuffix(text.suffix))
        }
    }

    /// Reads a keyword, a boolean literal or an identifier.
    fn identifier(&mut self) -> (r: Token)
        requires
            old(self).wf(),
        ensures
            final(self).wf(),
            final(self).input() == old(self).input(),
            final(self).file_name() == old(self).file_name(),
            final(self).cursor() == word_end(old(self).input(), old(self).cursor()),
            old(self).cursor() <= final(self).cursor(),
            old(self).cursor() < old(self).input().len() && is_word_char(
                old(self).input()[old(self).cursor()],
            ) ==> old(self).cursor() < final(self).cursor(),
            r@ == word_token(old(self).input().subrange(old(self).cursor(), final(self).cursor())),
    {
        let start = self.idx;
        let ident = self.ident_str();
        let end = self.idx;
        if self.spells(start, end, "in") {
            Token::Keyword(Keyword::In)
        } else if self.spells(start, end, "if") {
            Token::Keyword(Keyword::If)
        } else if self.spells(start, end, "mut") {
            Token::Keyword(Keyword::Mut)
        } else if self.spells(start, end, "use") {
            Token::Keyword(Keyword::Use)
        } else if self.spells(start, end, "else") {
            Token::Keyword(Keyword::Else)
        } else if self.spells(start, end, "loop") {
            Token::Keyword(Keyword::Loop)
        } else if self.spells(start, end, "true") {
            Token::Literal(Literal::Boolean(true))
        } else if self.spells(start, end, "false") {
            Token::Literal(Literal::Boolean(false))
        } else {
            Token::Identifier(ident)
        }
    }

    /// Reads a character literal; the cursor is on its opening quote.
    fn chars(&mut self) -> (r: Result<Token, Error>)
        requires
            old(self).wf(),
            old(self).cursor() < old(self).input().len(),
        ensures
            final(self).wf(),
            final(self).input() == old(self).input(),
            final(self).file_name() == old(self).file_name(),
            r is Ok ==> old(self).cursor() < final(self).cursor(),
            match char_token(old(self).input(), old(self).cursor()) {
                Ok((t, k)) => r is Ok && r->Ok_0@ == t && final(self).cursor() == k,
                Err(e) => r is Err && r->Err_0@ == e,
            },
    {
        self.next();
        let c = match self.next() {
            None => {
                return Err(Error::UnexpectedEndOfInput);
            },
            Some(ch) => {
                if ch == '\\' {
                    match self.next() {
                        None => {
                            return Err(Error::UnexpectedEndOfInput);
                        },
                        Some(e) => match escape(e, false) {
                            Some(x) => x,
                            None => {
                                return Err(Error::InvalidEscapeSequence(e));
                            },
                        },
                    }
                } else if ch == '\'' {
                    return Err(Error::EmptyCharacterLiteral);
                } else {
                    ch
                }
            },
        };
        match self.next() {
            None => Err(Error::UnexpectedEndOfInput),
            Some(q) => {
                if q == '\'' {
                    Ok(Token::Literal(Literal::Char(c)))
                } else {
                    Err(Error::InvalidCharacterLiteral)
                }
            },
        }
    }

    /// Reads a string literal; the cursor is on its opening quote.
    fn string(&mut self) -> (r: Result<Token, Error>)
        requires
            old(self).wf(),
            old(self).cursor() < old(self).input().len(),
        ensures
            final(self).wf(),
            final(self).input() == old(self).input(),
            final(self).file_name() == old(self).file_name(),
            r is Ok ==> old(self).cursor() < final(self).cursor(),
            match string_body(old(self).input(), old(self).cursor() + 1, Seq::empty()) {
                Ok((t, k)) => r is Ok && r->Ok_0@ == TokenView::Literal(LiteralView::String(t))
                    && final(self).cursor() == k,
                Err(e) => r is Err && r->Err_0@ == e,
            },
    {
        let ghost s = self.input();
        let ghost j = self.cursor();
        self.next();
        let mut value = String::new();
        loop
            invariant
                self.wf(),
                self.input() == s,
                s == old(self).input(),
                j == old(self).cursor(),
                self.file_name() == old(self).file_name(),
                j + 1 <= self.cursor(),
                string_body(s, j + 1, Seq::empty()) == string_body(s, self.cursor(), value@),
            decreases s.len() - self.cursor(),
        {
            match self.next() {
                None => {
                    return Err(Error::UnexpectedEndOfInput);
                },
                Some(ch) => {
                    if ch == '"' {
                        return Ok(Token::Literal(Literal::String(value)));
                    } else if ch == '\n' {
                        return Err(Error::UnterminatedStringLiteral);
                    } else if ch == '\\' {
                        match self.next() {
                            None => {
                                return Err(Error::UnexpectedEndOfInput);
                            },
                            Some(e) => match escape(e, true) {
                                Some(x) => value.push(x),
                                None => {
                                    return Err(Error::InvalidEscapeSequence(e));
                                },
                            },
                        }
                    } else {
                        value.push(ch);
                    }
                },
            }
        }
    }

    /// Reads an operator, or the null literal; the cursor is on `c`, a
    /// punctuation character that stands for `op` alone.
    fn operator(&mut self, c: char, op: Operator) -> (r: Token)
        requires
            old(self).wf(),
            old(self).cursor() < old(self).input().len(),
            old(self).input()[old(self).cursor()] == c,
            operator_of(c) == Some(op),
        ensures
            final(self).wf(),
            final(self).input() == old(self).input(),
            final(self).file_name() == old(self).file_name(),
            old(self).cursor() < final(self).cursor(),
            (r@, final(self).cursor()) == punct_token(old(self).input(), old(self).cursor()),
    {
        self.next();
        let (colon, plus, minus, equal) = match self.peek() {
            Some(d) => (d == ':', d == '+', d == '-', d == '='),
            None => (false, false, false, false),
        };
        if c == '?' {
            Token::Literal(Literal::Null)
        } else if c == ':' && colon {
            self.next();
            Token::Operator(Operator::Acceses)
        } else if c == '+' && plus {
            self.next();
            Token::Operator(Operator::Increment)
        } else if c == '-' && minus {
            self.next();
            Token::Operator(Operator::Decrement)
        } else if c == '!' && equal {
            self.next();
            Token::Operator(Operator::NotEqualTo)
        } else if c == '=' && equal {
            self.next();
            Token::Operator(Operator::EqualTo)
        } else if c == '<' && equal {
            self.next();
            Token::Operator(Operator::LessThanOrEqualTo)
        } else if c == '>' && equal {
            self.next();
            Token::Operator(Operator::GreaterThanOrEqualTo)
        } else {
            Token::Operator(op)
        }
    }

    /// Skips blanks and comments, then reads one token: `Eof` once the
    /// source is used up.
    pub fn next_token(&mut self) -> (r: Result<Token, Error>)
        requires
            old(self).wf(),
        ensures
            final(self).wf(),
            final(self).input() == old(self).input(),
            final(self).file_name() == old(self).file_name(),
            match token_step(old(self).file_name(), old(self).input(), old(self).cursor()) {
                Ok((t, k)) => r is Ok && r->Ok_0@ == t && final(self).cursor() == k,
                Err(e) => r is Err && r->Err_0@ == e,
            },
            r is Ok && !(r->Ok_0 is Eof) ==> old(self).cursor() < final(self).cursor(),
    {
        match self.skip_comments() {
            Ok(()) => {},
            Err(e) => {
                return Err(e);
            },
        }
        let c = match self.peek() {
            None => {
                return Ok(Token::Eof);
            },
            Some(c) => c,
        };
        if is_digit_char(c) {
            match self.numeric() {
                Ok(n) => Ok(Token::Literal(Literal::Number(n))),
                Err(e) => Err(e),
            }
        } else if c == '_' || is_alpha_char(c) {
            Ok(self.identifier())
        } else if c == '\'' {
            self.chars()
        } else if c == '"' {
            self.string()
        } else {
            match Operator::from_char(c) {
                Some(op) => Ok(self.operator(c, op)),
                None => Err(Error::IllegalCharacter(c)),
            }
        }
    }

    /// Reads every token up to and including `Eof`, or stops at the first
    /// error.
    pub fn tokenize(&mut self) -> (r: Result<Vec<Token>, Error>)
        requires
            old(self).wf(),
        ensures
            final(self).wf(),
            final(self).input() == old(self).input(),
            final(self).file_name() == old(self).file_name(),
            match lex_from(old(self).file_name(), old(self).input(), old(self).cursor()) {
                Ok(ts) => r is Ok && r->Ok_0@.map_values(|t: Token| t@) == ts,
                Err(e) => r is Err && r->Err_0@ == e,
            },
    {
        let ghost s = self.input();
        let ghost f = self.file_name();
        let ghost start = self.cursor();
        let mut tokens: Vec<Token> = Vec::new();
        loop
            invariant
                self.wf(),
                self.input() == s,
                self.file_name() == f,
                s == old(self).input(),
                f == old(self).file_name(),
                start == old(self).cursor(),
                start <= self.cursor(),
                match lex_from(f, s, self.cursor()) {
                    Ok(ts) => lex_from(f, s, start) == Ok::<Seq<TokenView>, ErrorView>(
                        tokens@.map_values(|t: Token| t@) + ts,
                    ),
                    Err(e) => lex_from(f, s, start) == Err::<Seq<TokenView>, ErrorView>(e),
                },
            decreases s.len() - self.cursor(),
        {
            let ghost i = self.cursor();
            let ghost before = tokens@;
            match self.next_token() {
                Err(e) => {
                    return Err(e);
                },
                Ok(t) => {
                    let eof = match t {
                        Token::Eof => true,
                        _ => false,
                    };
                    tokens.push(t);
                    proof {
                        assert(tokens@.map_values(|t: Token| t@) =~= before.map_values(
                            |t: Token| t@,
                        ).push(t@));
                    }
                    if eof {
                        proof {
                            assert(before.map_values(|t: Token| t@) + seq![TokenView::Eof]
                                =~= tokens@.map_values(|t: Token| t@));
                        }
                        return Ok(tokens);
                    }
                    proof {
                        let k = self.cursor();
                        match lex_from(f, s, k) {
                            Ok(ts) => {
                                assert(before.map_values(|t: Token| t@) + (seq![t@] + ts)
                                    =~= tokens@.map_values(|t: Token| t@) + ts);
                            },
                            Err(e) => {},
                        }
                    }
                }
            }
        }
    }

    /// Skips blanks, line comments and (nested) block comments.
    fn skip_comments(&mut self) -> (r: Result<(), Error>)
        requires
            old(self).wf(),
        ensures
            final(self).wf(),
            final(self).input() == old(self).input(),
            final(self).file_name() == old(self).file_name(),
            old(self).cursor() <= final(self).cursor(),
            match trivia_end(old(self).file_name(), old(self).input(), old(self).cursor()) {
                Ok(j) => r is Ok && final(self).cursor() == j,
                Err(e) => r is Err && r->Err_0@ == e,
            },
    {
        let ghost s = self.input();
        let ghost f = self.file_name();
        let ghost start = self.cursor();
        loop
            invariant
                self.wf(),
                self.input() == s,
                self.file_name() == f,
                s == old(self).input(),
                f == old(self).file_name(),
                start == old(self).cursor(),
                start <= self.cursor(),
                trivia_end(f, s, start) == trivia_end(f, s, self.cursor()),
            decreases s.len() - self.cursor(),
        {
            let ghost i0 = self.cursor();
            loop
                invariant
                    self.wf(),
                    self.input() == s,
                    self.file_name() == f,
                    i0 <= self.cursor(),
                    blanks_end(s, i0) == blanks_end(s, self.cursor()),
                ensures
                    self.wf(),
                    self.input() == s,
                    self.file_name() == f,
                    self.cursor() == blanks_end(s, i0),
                decreases s.len() - self.cursor(),
            {
                let blank = match self.peek() {
                    Some(c) => c == ' ' || c == '\t' || c == '\n',
                    None => false,
                };
                if blank {
                    self.next();
                } else {
                    break;
                }
            }
            let ghost j = self.cursor();
            let first_slash = match self.peek() {
                Some(c) => c == '/',
                None => false,
            };
            let (second_slash, second_star) = match self.peek_second() {
                Some(c) => (c == '/', c == '*'),
                None => (false, false),
            };
            if first_slash && second_slash {
                self.next();
                self.next();
                loop
                    invariant_except_break
                        line_end(s, j + 2) == line_end(s, self.cursor()),
                    invariant
                        self.wf(),
                        self.input() == s,
                        self.file_name() == f,
                        j + 2 <= self.cursor(),
                    ensures
                        self.wf(),
                        self.input() == s,
                        self.file_name() == f,
                        j + 2 <= self.cursor(),
                        self.cursor() == line_end(s, j + 2),
                    decreases s.len() - self.cursor(),
                {
                    match self.next() {
                        Some(c) => {
                            if c == '\n' {
                                break;
                            }
                        },
                        None => {
                            break;
                        },
                    }
                }
            } else if first_slash && second_star {
                self.next();
                self.next();
                let start_line = self.pos.line;
                let start_column = self.pos.column;
                proof {
                    lemma_location_bounded(s.take(self.cursor()));
                }
                let mut depth: usize = 1;
                while depth > 0
                    invariant
                        self.wf(),
                        self.input() == s,
                        self.file_name() == f,
                        s == old(self).input(),
                        f == old(self).file_name(),
                        start == old(self).cursor(),
                        trivia_end(f, s, start) == trivia_end(f, s, i0),
                        i0 <= j,
                        j == blanks_end(s, i0),
                        at(s, j, '/') && at(s, j + 1, '*'),
                        j + 2 <= self.cursor(),
                        depth <= self.cursor(),
                        start_line == pos_at(f, s, j + 2).line,
                        start_column == pos_at(f, s, j + 2).column,
                        start_column <= s.len() + 1,
                        block_end(s, j + 2, 1) == block_end(s, self.cursor(), depth as nat),
                    decreases s.len() - self.cursor(),
                {
                    match self.next() {
                        None => {
                            let at_start = Position {
                                file: self.pos.file(),
                                line: start_line,
                                column: start_column + 3,
                            };
                            assert(block_end(s, j + 2, 1) == None::<int>);
                            assert(trivia_end(f, s, i0) == Err::<int, ErrorView>(
                                unclosed_at(f, s, j + 2),
                            ));
                            return Err(Error::UnclosedComment(at_start));
                        },
                        Some(c) => {
                            let (d_star, d_slash) = match self.peek() {
                                Some(d) => (d == '*', d == '/'),
                                None => (false, false),
                            };
                            if c == '/' && d_star {
                                self.next();
                                depth = depth + 1;
                            } else if c == '*' && d_slash {
                                self.next();
                                depth = depth - 1;
                            }
                        },
                    }
                }
            } else {
                assert(trivia_end(f, s, i0) == Ok::<int, ErrorView>(j));
                return Ok(());
            }
        }
    }
}

} // verus!
