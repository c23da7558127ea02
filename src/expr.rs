use vstd::prelude::*;
use crate::token::{Literal, Operator, Token};

verus! {

/// The shape of an expression, as a parser builds it from tokens.
pub enum Expr {
    Assign { ident: Token, value: Box<Expr> },
    Binary { left: Box<Expr>, operator: Operator, right: Box<Expr> },
    Function { callee: Box<Expr>, param: Operator, arguments: Vec<Expr> },
    Group { expresion: Box<Expr> },
    Literal { value: Literal },
    Logical { left: Box<Expr>, operator: Operator, right: Box<Expr> },
    Unary { operator: Operator, expresion: Side<Box<Expr>> },
    Variable { name: Token },
}

/// Which side of its operator a unary operand stands on.
pub enum Side<T> {
    Left(T),
    Right(T),
}

impl Expr {
    pub fn assign(ident: Token, value: Box<Expr>) -> (r: Expr)
        ensures
            r == (Expr::Assign { ident, value }),
    {
        Expr::Assign { ident, value }
    }

    pub fn binary(left: Box<Expr>, operator: Operator, right: Box<Expr>) -> (r: Expr)
        ensures
            r == (Expr::Binary { left, operator, right }),
    {
        Expr::Binary { left, operator, right }
    }

    pub fn function(callee: Box<Expr>, param: Operator, arguments: Vec<Expr>) -> (r: Expr)
        ensures
            r == (Expr::Function { callee, param, arguments }),
    {
        Expr::Function { callee, param, arguments }
    }

    pub fn group(expresion: Box<Expr>) -> (r: Expr)
        ensures
            r == (Expr::Group { expresion }),
    {
        Expr::Group { expresion }
    }

    pub fn literal(value: Literal) -> (r: Expr)
        ensures
            r == (Expr::Literal { value }),
    {
        Expr::Literal { value }
    }

    pub fn logical(left: Box<Expr>, operator: Operator, right: Box<Expr>) -> (r: Expr)
        ensures
            r == (Expr::Logical { left, operator, right }),
    {
        Expr::Logical { left, operator, right }
    }

    pub fn unary(operator: Operator, expresion: Side<Box<Expr>>) -> (r: Expr)
        ensures
            r == (Expr::Unary { operator, expresion }),
    {
        Expr::Unary { operator, expresion }
    }

    pub fn variable(name: Token) -> (r: Expr)
        ensures
            r == (Expr::Variable { name }),
    {
        Expr::Variable { name }
    }
}

} // verus!
