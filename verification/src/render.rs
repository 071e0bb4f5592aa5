//! The fully parenthesised token rendering of programs: every infix
//! operation, call and index expression is wrapped in parentheses, every
//! statement ends with a semicolon and a program ends with `EOF`.
use vstd::prelude::*;

use crate::ast::{Ident, Infix, Literal, Prefix, SpecExpr, SpecStmt};
use crate::token::Token;

verus! {

/// The token of a literal.
pub open spec fn literal_token(l: Literal) -> Token {
    match l {
        Literal::IntLiteral(n) => Token::IntLiteral(n),
        Literal::BoolLiteral(b) => Token::BoolLiteral(b),
        Literal::StringLiteral(s) => Token::StringLiteral(s),
    }
}

/// The token of a prefix operator.
pub open spec fn prefix_token(op: Prefix) -> Token {
    match op {
        Prefix::PrefixPlus => Token::Plus,
        Prefix::PrefixMinus => Token::Minus,
        Prefix::Not => Token::Not,
    }
}

/// The token of an infix operator.
pub open spec fn infix_token(op: Infix) -> Token {
    match op {
        Infix::Plus => Token::Plus,
        Infix::Minus => Token::Minus,
        Infix::Divide => Token::Divide,
        Infix::Multiply => Token::Multiply,
        Infix::Equal => Token::Equal,
        Infix::NotEqual => Token::NotEqual,
        Infix::GreaterThanEqual => Token::GreaterThanEqual,
        Infix::GreaterThan => Token::GreaterThan,
        Infix::LessThanEqual => Token::LessThanEqual,
        Infix::LessThan => Token::LessThan,
    }
}

/// An expression, with its infix, call and index forms parenthesised.
pub open spec fn render_expr(e: SpecExpr) -> Seq<Token>
    decreases e,
{
    match e {
        SpecExpr::IdentExpr(Ident(name)) => seq![Token::Ident(name)],
        SpecExpr::LitExpr(l) => seq![literal_token(l)],
        SpecExpr::PrefixExpr(op, x) => seq![prefix_token(op)] + render_expr(*x),
        SpecExpr::InfixExpr(op, l, r) => seq![Token::LParen] + render_expr(*l) + seq![
            infix_token(op),
        ] + render_expr(*r) + seq![Token::RParen],
        SpecExpr::IfExpr { cond, consequence, alternative } => seq![Token::If, Token::LParen]
            + render_expr(*cond) + seq![Token::RParen] + seq![Token::LBrace] + render_stmts(
            consequence,
        ) + seq![Token::RBrace] + match alternative {
            Some(b) => seq![Token::Else, Token::LBrace] + render_stmts(b) + seq![Token::RBrace],
            None => Seq::empty(),
        },
        SpecExpr::FnExpr { params, body } => seq![Token::Function, Token::LParen] + render_params(
            params,
        ) + seq![Token::RParen] + seq![Token::LBrace] + render_stmts(body) + seq![Token::RBrace],
        SpecExpr::CallExpr { function, arguments } => seq![Token::LParen] + render_expr(*function)
            + seq![Token::LParen] + render_exprs(arguments) + seq![Token::RParen, Token::RParen],
        SpecExpr::ArrayExpr(es) => seq![Token::LBracket] + render_exprs(es) + seq![Token::RBracket],
        SpecExpr::HashExpr(ps) => seq![Token::LBrace] + render_pairs(ps) + seq![Token::RBrace],
        SpecExpr::IndexExpr { array, index } => seq![Token::LParen] + render_expr(*array) + seq![
            Token::LBracket,
        ] + render_expr(*index) + seq![Token::RBracket, Token::RParen],
    }
}

/// A comma-separated list of expressions.
pub open spec fn render_exprs(es: Seq<SpecExpr>) -> Seq<Token>
    decreases es,
{
    if es.len() == 0 {
        Seq::empty()
    } else {
        render_expr(es[0]) + render_comma_exprs(es.drop_first())
    }
}

/// Expressions, each after a comma.
pub open spec fn render_comma_exprs(es: Seq<SpecExpr>) -> Seq<Token>
    decreases es,
{
    if es.len() == 0 {
        Seq::empty()
    } else {
        seq![Token::Comma] + render_expr(es[0]) + render_comma_exprs(es.drop_first())
    }
}

/// A hash entry: key, colon, value.
pub open spec fn render_pair(p: (Literal, SpecExpr)) -> Seq<Token>
    decreases p,
{
    seq![literal_token(p.0), Token::Colon] + render_expr(p.1)
}

/// A comma-separated list of hash entries.
pub open spec fn render_pairs(ps: Seq<(Literal, SpecExpr)>) -> Seq<Token>
    decreases ps,
{
    if ps.len() == 0 {
        Seq::empty()
    } else {
        render_pair(ps[0]) + render_comma_pairs(ps.drop_first())
    }
}

/// Hash entries, each after a comma.
pub open spec fn render_comma_pairs(ps: Seq<(Literal, SpecExpr)>) -> Seq<Token>
    decreases ps,
{
    if ps.len() == 0 {
        Seq::empty()
    } else {
        seq![Token::Comma] + render_pair(ps[0]) + render_comma_pairs(ps.drop_first())
    }
}

/// A comma-separated list of parameter names.
pub open spec fn render_params(ps: Seq<Ident>) -> Seq<Token>
    decreases ps.len(),
{
    if ps.len() == 0 {
        Seq::empty()
    } else {
        seq![Token::Ident(ps[0].0)] + render_comma_params(ps.drop_first())
    }
}

/// Parameter names, each after a comma.
pub open spec fn render_comma_params(ps: Seq<Ident>) -> Seq<Token>
    decreases ps.len(),
{
    if ps.len() == 0 {
        Seq::empty()
    } else {
        seq![Token::Comma, Token::Ident(ps[0].0)] + render_comma_params(ps.drop_first())
    }
}

/// A statement, ended by a semicolon.
pub open spec fn render_stmt(st: SpecStmt) -> Seq<Token>
    decreases st,
{
    match st {
        SpecStmt::LetStmt(Ident(name), e) => seq![Token::Let, Token::Ident(name), Token::Assign]
            + render_expr(e) + seq![Token::SemiColon],
        SpecStmt::ReturnStmt(e) => seq![Token::Return] + render_expr(e) + seq![Token::SemiColon],
        SpecStmt::ExprStmt(e) => render_expr(e) + seq![Token::SemiColon],
    }
}

/// Statements, one after another.
pub open spec fn render_stmts(ss: Seq<SpecStmt>) -> Seq<Token>
    decreases ss,
{
    if ss.len() == 0 {
        Seq::empty()
    } else {
        render_stmt(ss[0]) + render_stmts(ss.drop_first())
    }
}

/// A block: statements in braces.
pub open spec fn render_block(ss: Seq<SpecStmt>) -> Seq<Token> {
    seq![Token::LBrace] + render_stmts(ss) + seq![Token::RBrace]
}

/// The `else` part of an `if`, if any.
pub open spec fn render_alternative(alt: Option<Seq<SpecStmt>>) -> Seq<Token> {
    match alt {
        Some(b) => seq![Token::Else] + render_block(b),
        None => Seq::empty(),
    }
}

/// A program: its statements, then `EOF`.
pub open spec fn render_program(p: Seq<SpecStmt>) -> Seq<Token> {
    render_stmts(p) + seq![Token::EOF]
}

} // verus!
