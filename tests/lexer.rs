use ascii::AsciiString;
use compiler::error::Error;
use compiler::lexer::Lexer;
use compiler::position::{Next, Position};
use compiler::token::{Keyword, Literal, Number, Operator, Token};

fn lex(src: &str) -> Result<Vec<Token>, Error> {
    Lexer::new("test.na", src).tokenize()
}

fn ident(text: &str) -> Token {
    Token::Identifier(AsciiString::from_ascii(text).unwrap())
}

fn num(n: Number) -> Token {
    Token::Literal(Literal::Number(n))
}

fn op(o: Operator) -> Token {
    Token::Operator(o)
}

#[test]
fn empty_input_yields_only_eof() {
    assert_eq!(lex("").unwrap(), vec![Token::Eof]);
}

#[test]
fn blank_input_yields_only_eof() {
    assert_eq!(lex(" \t\n  ").unwrap(), vec![Token::Eof]);
}

#[test]
fn keywords_are_recognized() {
    let cases = [
        ("in", Keyword::In),
        ("if", Keyword::If),
        ("mut", Keyword::Mut),
        ("use", Keyword::Use),
        ("else", Keyword::Else),
        ("loop", Keyword::Loop),
    ];
    for (text, kw) in cases {
        assert_eq!(lex(text).unwrap(), vec![Token::Keyword(kw), Token::Eof]);
    }
}

#[test]
fn keywords_are_case_sensitive() {
    assert_eq!(lex("If").unwrap(), vec![ident("If"), Token::Eof]);
    assert_eq!(lex("loops").unwrap(), vec![ident("loops"), Token::Eof]);
}

#[test]
fn booleans_are_literals() {
    assert_eq!(lex("true").unwrap(), vec![Token::Literal(Literal::Boolean(true)), Token::Eof]);
    assert_eq!(lex("false").unwrap(), vec![Token::Literal(Literal::Boolean(false)), Token::Eof]);
}

#[test]
fn other_words_are_identifiers() {
    assert_eq!(lex("_foo9").unwrap(), vec![ident("_foo9"), Token::Eof]);
    assert_eq!(lex("a b").unwrap(), vec![ident("a"), ident("b"), Token::Eof]);
}

#[test]
fn integer_suffixes_select_widths() {
    let cases = [
        ("123i8", Number::I8(123)),
        ("123i16", Number::I16(123)),
        ("123i32", Number::I32(123)),
        ("123i64", Number::I64(123)),
        ("123i128", Number::I128(123)),
        ("123isize", Number::ISize(123)),
        ("123u", Number::U32(123)),
        ("123u8", Number::U8(123)),
        ("123u16", Number::U16(123)),
        ("123u32", Number::U32(123)),
        ("123u64", Number::U64(123)),
        ("123u128", Number::U128(123)),
        ("123usize", Number::USize(123)),
    ];
    for (text, n) in cases {
        assert_eq!(lex(text).unwrap(), vec![num(n), Token::Eof], "{text}");
    }
}

#[test]
fn float_suffixes_select_widths() {
    assert_eq!(lex("1.5f").unwrap(), vec![num(Number::F64("1.5".to_string())), Token::Eof]);
    assert_eq!(lex("1.5f32").unwrap(), vec![num(Number::F32("1.5".to_string())), Token::Eof]);
    assert_eq!(lex("1.5f64").unwrap(), vec![num(Number::F64("1.5".to_string())), Token::Eof]);
    assert_eq!(lex("123f32").unwrap(), vec![num(Number::F32("123".to_string())), Token::Eof]);
}

#[test]
fn unsuffixed_integer_is_i32() {
    assert_eq!(lex("42").unwrap(), vec![num(Number::I32(42)), Token::Eof]);
}

#[test]
fn overflow_names_digits_and_type() {
    match lex("999i8") {
        Err(Error::NumOverFlow(n, t)) => {
            assert_eq!(n, "999");
            assert_eq!(t, "i8");
        }
        other => panic!("unexpected {other:?}"),
    }
}

#[test]
fn overflow_of_default_type_names_i32() {
    match lex("4294967296") {
        Err(Error::NumOverFlow(n, t)) => {
            assert_eq!(n, "4294967296");
            assert_eq!(t, "i32");
        }
        other => panic!("unexpected {other:?}"),
    }
}

#[test]
fn widest_values_fit() {
    assert_eq!(lex("255u8").unwrap(), vec![num(Number::U8(255)), Token::Eof]);
    assert!(matches!(lex("256u8"), Err(Error::NumOverFlow(_, _))));
    assert_eq!(
        lex("340282366920938463463374607431768211455u128").unwrap(),
        vec![num(Number::U128(u128::MAX)), Token::Eof]
    );
    assert!(matches!(lex("340282366920938463463374607431768211456u128"), Err(Error::NumOverFlow(_, _))));
}

#[test]
fn separators_are_dropped() {
    assert_eq!(lex("1_000").unwrap(), vec![num(Number::I32(1000)), Token::Eof]);
    assert_eq!(lex("1_0.5").unwrap(), vec![num(Number::F64("10.5".to_string())), Token::Eof]);
}

#[test]
fn unsuffixed_float_is_f64() {
    assert_eq!(lex("1.5").unwrap(), vec![num(Number::F64("1.5".to_string())), Token::Eof]);
}

#[test]
fn second_decimal_point_starts_a_new_token() {
    assert_eq!(
        lex("1.2.3").unwrap(),
        vec![num(Number::F64("1.2".to_string())), op(Operator::Dot), num(Number::I32(3)), Token::Eof]
    );
}

#[test]
fn unknown_suffix_letter_is_unknown_identifier() {
    match lex("12abc") {
        Err(Error::UnknownIdent(s)) => assert_eq!(s, "abc"),
        other => panic!("unexpected {other:?}"),
    }
}

#[test]
fn bad_suffix_is_invalid() {
    match lex("12ix") {
        Err(Error::InvalidSuffix(s)) => assert_eq!(s, "ix"),
        other => panic!("unexpected {other:?}"),
    }
    match lex("1.5i32") {
        Err(Error::InvalidSuffix(s)) => assert_eq!(s, "i32"),
        other => panic!("unexpected {other:?}"),
    }
}

#[test]
fn compound_operators() {
    assert_eq!(lex("::").unwrap(), vec![op(Operator::Acceses), Token::Eof]);
    assert_eq!(lex(":").unwrap(), vec![op(Operator::Colon), Token::Eof]);
    assert_eq!(lex("==").unwrap(), vec![op(Operator::EqualTo), Token::Eof]);
    assert_eq!(lex("=").unwrap(), vec![op(Operator::Assign), Token::Eof]);
    assert_eq!(lex("++").unwrap(), vec![op(Operator::Increment), Token::Eof]);
    assert_eq!(lex("--").unwrap(), vec![op(Operator::Decrement), Token::Eof]);
    assert_eq!(lex("!=").unwrap(), vec![op(Operator::NotEqualTo), Token::Eof]);
    assert_eq!(lex("<=").unwrap(), vec![op(Operator::LessThanOrEqualTo), Token::Eof]);
    assert_eq!(lex(">=").unwrap(), vec![op(Operator::GreaterThanOrEqualTo), Token::Eof]);
}

#[test]
fn single_operators_and_null() {
    assert_eq!(
        lex("a / b;").unwrap(),
        vec![ident("a"), op(Operator::Slash), ident("b"), op(Operator::Semicolon), Token::Eof]
    );
    assert_eq!(lex("?").unwrap(), vec![Token::Literal(Literal::Null), Token::Eof]);
    assert_eq!(lex("+-").unwrap(), vec![op(Operator::Plus), op(Operator::Minus), Token::Eof]);
}

#[test]
fn nested_block_comment_is_skipped() {
    assert_eq!(lex("/* a /* b */ c */ x").unwrap(), vec![ident("x"), Token::Eof]);
}

#[test]
fn unclosed_nested_comment_fails() {
    match lex("/* /* */") {
        Err(Error::UnclosedComment(p)) => {
            assert_eq!(p.file(), "test.na");
            assert_eq!(p.line(), 1);
            assert_eq!(p.column(), 6);
        }
        other => panic!("unexpected {other:?}"),
    }
}

#[test]
fn line_comment_is_skipped() {
    assert_eq!(lex("// line\n42").unwrap(), vec![num(Number::I32(42)), Token::Eof]);
    assert_eq!(lex("// only").unwrap(), vec![Token::Eof]);
}

#[test]
fn non_ascii_is_illegal() {
    match lex("a é") {
        Err(Error::IllegalCharacter(c)) => assert_eq!(c, 'é'),
        other => panic!("unexpected {other:?}"),
    }
    assert!(matches!(lex("\"é\"").unwrap()[0], Token::Literal(Literal::String(_))));
    assert_eq!(lex("/* é */").unwrap(), vec![Token::Eof]);
}

#[test]
fn position_after_two_lines() {
    let mut p = Position::new("f");
    for c in "ab\ncd".chars() {
        p.next(if c == '\n' { Next::Line } else { Next::Column });
    }
    assert_eq!(p.line(), 2);
    assert_eq!(p.column(), 3);
    assert_eq!(p.file(), "f");
}

#[test]
fn lexer_tracks_position() {
    let mut lx = Lexer::new("f", "ab\ncd");
    assert_eq!(lx.next_token().unwrap(), ident("ab"));
    assert_eq!(lx.next_token().unwrap(), ident("cd"));
    assert_eq!(lx.pos().line(), 2);
    assert_eq!(lx.pos().column(), 3);
    assert_eq!(lx.next_token().unwrap(), Token::Eof);
}

#[test]
fn char_literals() {
    assert_eq!(lex("'a'").unwrap(), vec![Token::Literal(Literal::Char('a')), Token::Eof]);
    assert_eq!(lex("'\\n'").unwrap(), vec![Token::Literal(Literal::Char('\n')), Token::Eof]);
    assert_eq!(lex("'\\''").unwrap(), vec![Token::Literal(Literal::Char('\'')), Token::Eof]);
    assert!(matches!(lex("''"), Err(Error::EmptyCharacterLiteral)));
    assert!(matches!(lex("'ab'"), Err(Error::InvalidCharacterLiteral)));
    assert!(matches!(lex("'\\q'"), Err(Error::InvalidEscapeSequence('q'))));
    assert!(matches!(lex("'a"), Err(Error::UnexpectedEndOfInput)));
    assert!(matches!(lex("'"), Err(Error::UnexpectedEndOfInput)));
}

#[test]
fn string_literals() {
    assert_eq!(
        lex("\"hi\\t\\\"x\\\"\"").unwrap(),
        vec![Token::Literal(Literal::String("hi\t\"x\"".to_string())), Token::Eof]
    );
    assert_eq!(lex("\"\"").unwrap(), vec![Token::Literal(Literal::String(String::new())), Token::Eof]);
    assert!(matches!(lex("\"ab\ncd\""), Err(Error::UnterminatedStringLiteral)));
    assert!(matches!(lex("\"abc"), Err(Error::UnexpectedEndOfInput)));
    assert!(matches!(lex("\"a\\q\""), Err(Error::InvalidEscapeSequence('q'))));
}

#[test]
fn first_error_aborts() {
    assert!(matches!(lex("a b # é 999i8"), Err(Error::IllegalCharacter('é'))));
}

#[test]
fn error_names() {
    assert_eq!(Error::IllegalCharacter('x').name(), "illegal character");
    assert_eq!(Error::NumOverFlow("999".to_string(), "i8".to_string()).name(), "i8 number overflow");
    assert_eq!(Error::UnexpectedEndOfInput.name(), "unexpected end of input");
}

#[test]
fn suffix_hints_follow_first_letter() {
    assert_eq!(
        compiler::error::suffix_hint("ix"),
        "did you meant to use i8, i16, i32, i64, i128, isize"
    );
    assert_eq!(compiler::error::suffix_hint("fx"), "did you meant to use f, f32, f64");
}

#[test]
fn operator_from_char() {
    assert_eq!(Operator::from_char('~'), Some(Operator::Tilde));
    assert_eq!(Operator::from_char('a'), None);
}
