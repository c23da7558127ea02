use compiler::expr::{Expr, Side};
use compiler::lexer::Lexer;
use compiler::token::{Literal, Operator, Token};

#[test]
fn expressions_are_built_from_tokens() {
    let tokens = Lexer::new("e", "x = -1").tokenize().unwrap();
    let mut it = tokens.into_iter();
    let name = it.next().unwrap();
    assert!(matches!(it.next(), Some(Token::Operator(Operator::Assign))));
    assert!(matches!(it.next(), Some(Token::Operator(Operator::Minus))));
    let one = match it.next() {
        Some(Token::Literal(l)) => l,
        other => panic!("unexpected {other:?}"),
    };
    let value = Expr::unary(Operator::Minus, Side::Right(Box::new(Expr::literal(one))));
    let e = Expr::assign(name, Box::new(value));
    match e {
        Expr::Assign { ident: Token::Identifier(id), value } => {
            assert_eq!(id.as_str(), "x");
            assert!(matches!(
                *value,
                Expr::Unary { operator: Operator::Minus, expresion: Side::Right(_) }
            ));
        }
        _ => panic!("not an assignment"),
    }
}

#[test]
fn binary_and_group_keep_their_parts() {
    let left = Expr::variable(Token::Eof);
    let right = Expr::literal(Literal::Null);
    let sum = Expr::group(Box::new(Expr::binary(Box::new(left), Operator::Plus, Box::new(right))));
    match sum {
        Expr::Group { expresion } => match *expresion {
            Expr::Binary { operator, right, .. } => {
                assert_eq!(operator, Operator::Plus);
                assert!(matches!(*right, Expr::Literal { value: Literal::Null }));
            }
            _ => panic!("not a binary expression"),
        },
        _ => panic!("not a group"),
    }
}

#[test]
fn calls_and_logic_keep_their_parts() {
    let call = Expr::function(
        Box::new(Expr::variable(Token::Eof)),
        Operator::ParenOpen,
        vec![Expr::literal(Literal::Boolean(true))],
    );
    match call {
        Expr::Function { param, arguments, .. } => {
            assert_eq!(param, Operator::ParenOpen);
            assert_eq!(arguments.len(), 1);
        }
        _ => panic!("not a call"),
    }
    let both = Expr::logical(
        Box::new(Expr::literal(Literal::Boolean(true))),
        Operator::Ampersand,
        Box::new(Expr::literal(Literal::Boolean(false))),
    );
    assert!(matches!(both, Expr::Logical { operator: Operator::Ampersand, .. }));
}
