//! The Monkey grammar over token sequences, as a deterministic parser in
//! spec code. Each rule maps the remaining input either to the input left
//! over and the value read, or to an error: the input at the point where
//! reading failed, and the kind of failure. Alternatives are tried in order,
//! repetitions stop at the first item that does not parse, and an optional
//! part that does not parse consumes nothing. A repetition whose item
//! succeeds without consuming input fails. Where a rule goes on from what a
//! sub-rule left over, it requires that input was consumed: those sub-rules
//! always consume input when they succeed (the executable parser proves it
//! of each), so the requirement never fails (its error is never produced),
//! and it makes every rule a well-founded definition.
//!
//! Errors: a token expected and absent because the input ended fails with
//! `Eof`; a token of the wrong kind where a given one is expected fails with
//! `Verify`; a token that is no literal, identifier or operator where one is
//! read fails with `Tag`. Alternatives fail with the error of the last one
//! tried.
use vstd::prelude::*;

use crate::ast::{Ident, Infix, Literal, Precedence, Prefix, SpecExpr, SpecStmt};
use crate::token::{token_eq, Token};

verus! {

/// Why reading failed.
#[derive(Debug, Clone, Copy, PartialEq, Eq, Structural)]
pub enum ErrorKind {
    /// A token of the wrong kind where an operand part was read.
    Tag,
    /// The input ended where a token was expected.
    Eof,
    /// A token other than the one expected.
    Verify,
    /// An item of a repetition read nothing.
    Many0,
}

/// Where reading failed, and why.
pub type SpecError = (Seq<Token>, ErrorKind);

/// What a rule reads: the input left over and the value, or an error.
pub type SpecResult<T> = Result<(Seq<Token>, T), SpecError>;

/// The error of an item that read without consuming input at `s`.
pub open spec fn stalled(s: Seq<Token>) -> SpecError {
    (s, ErrorKind::Many0)
}

/// The rank of a precedence level; a higher rank binds tighter.
pub open spec fn prec_rank(p: Precedence) -> nat {
    match p {
        Precedence::PLowest => 0,
        Precedence::PEquals => 1,
        Precedence::PLessGreater => 2,
        Precedence::PSum => 3,
        Precedence::PProduct => 4,
        Precedence::PCall => 5,
        Precedence::PIndex => 6,
    }
}

/// The binding power of a token that follows an operand, and the infix
/// operator it denotes, if any.
pub open spec fn spec_infix_op(t: Token) -> (Precedence, Option<Infix>) {
    match t {
        Token::Equal => (Precedence::PEquals, Some(Infix::Equal)),
        Token::NotEqual => (Precedence::PEquals, Some(Infix::NotEqual)),
        Token::LessThanEqual => (Precedence::PLessGreater, Some(Infix::LessThanEqual)),
        Token::GreaterThanEqual => (Precedence::PLessGreater, Some(Infix::GreaterThanEqual)),
        Token::LessThan => (Precedence::PLessGreater, Some(Infix::LessThan)),
        Token::GreaterThan => (Precedence::PLessGreater, Some(Infix::GreaterThan)),
        Token::Plus => (Precedence::PSum, Some(Infix::Plus)),
        Token::Minus => (Precedence::PSum, Some(Infix::Minus)),
        Token::Multiply => (Precedence::PProduct, Some(Infix::Multiply)),
        Token::Divide => (Precedence::PProduct, Some(Infix::Divide)),
        Token::LParen => (Precedence::PCall, None),
        Token::LBracket => (Precedence::PIndex, None),
        _ => (Precedence::PLowest, None),
    }
}

/// The prefix operator a token denotes, if any.
pub open spec fn spec_prefix_op(t: Token) -> Option<Prefix> {
    match t {
        Token::Plus => Some(Prefix::PrefixPlus),
        Token::Minus => Some(Prefix::PrefixMinus),
        Token::Not => Some(Prefix::Not),
        _ => None,
    }
}

/// Puts `xs` in front of the list that a rule read.
pub open spec fn prepend<T>(xs: Seq<T>, r: SpecResult<Seq<T>>) -> SpecResult<Seq<T>> {
    match r {
        Ok((rest, ys)) => Ok((rest, xs + ys)),
        Err(e) => Err(e),
    }
}

/// Consumes one token equal to `kind`.
pub open spec fn spec_match_token(s: Seq<Token>, kind: Token) -> Result<Seq<Token>, SpecError> {
    if s.len() == 0 {
        Err((s, ErrorKind::Eof))
    } else if token_eq(s[0], kind) {
        Ok(s.skip(1))
    } else {
        Err((s, ErrorKind::Verify))
    }
}

/// Consumes an optional token equal to `kind`.
pub open spec fn spec_opt_token(s: Seq<Token>, kind: Token) -> Seq<Token> {
    match spec_match_token(s, kind) {
        Ok(r) => r,
        Err(_) => s,
    }
}

/// A literal token.
pub open spec fn spec_parse_literal(s: Seq<Token>) -> SpecResult<Literal> {
    if s.len() == 0 {
        Err((s, ErrorKind::Eof))
    } else {
        match s[0] {
            Token::IntLiteral(n) => Ok((s.skip(1), Literal::IntLiteral(n))),
            Token::StringLiteral(x) => Ok((s.skip(1), Literal::StringLiteral(x))),
            Token::BoolLiteral(b) => Ok((s.skip(1), Literal::BoolLiteral(b))),
            _ => Err((s, ErrorKind::Tag)),
        }
    }
}

/// An identifier token.
pub open spec fn spec_parse_ident(s: Seq<Token>) -> SpecResult<Ident> {
    if s.len() == 0 {
        Err((s, ErrorKind::Eof))
    } else {
        match s[0] {
            Token::Ident(name) => Ok((s.skip(1), Ident(name))),
            _ => Err((s, ErrorKind::Tag)),
        }
    }
}

/// `"," ident`
pub open spec fn spec_parse_comma_ident(s: Seq<Token>) -> SpecResult<Ident> {
    match spec_match_token(s, Token::Comma) {
        Err(e) => Err(e),
        Ok(s1) => spec_parse_ident(s1),
    }
}

/// `( "," ident )*`
pub open spec fn spec_many_comma_idents(s: Seq<Token>) -> SpecResult<Seq<Ident>>
    decreases s.len(),
{
    match spec_parse_comma_ident(s) {
        Err(_) => Ok((s, Seq::empty())),
        Ok((s1, id)) => if s1.len() < s.len() {
            prepend(seq![id], spec_many_comma_idents(s1))
        } else {
            Err(stalled(s))
        },
    }
}

/// `ident ( "," ident )*`
pub open spec fn spec_parse_params(s: Seq<Token>) -> SpecResult<Seq<Ident>> {
    match spec_parse_ident(s) {
        Err(e) => Err(e),
        Ok((s1, first)) => prepend(seq![first], spec_many_comma_idents(s1)),
    }
}

/// `expr` at the weakest binding power.
pub open spec fn spec_parse_expr(s: Seq<Token>) -> SpecResult<SpecExpr>
    decreases s.len(), 9nat,
{
    spec_parse_pratt_expr(s, Precedence::PLowest)
}

/// An operand followed by every operator that binds tighter than `prec`.
pub open spec fn spec_parse_pratt_expr(s: Seq<Token>, prec: Precedence) -> SpecResult<SpecExpr>
    decreases s.len(), 8nat,
{
    match spec_parse_atom_expr(s) {
        Err(e) => Err(e),
        Ok((s1, left)) => if s1.len() < s.len() {
            spec_go_parse_pratt_expr(s1, prec, left)
        } else {
            Err(stalled(s))
        },
    }
}

/// Extends `left` by the operators ahead that bind tighter than `prec`:
/// calls, indexing and infix operators.
pub open spec fn spec_go_parse_pratt_expr(
    s: Seq<Token>,
    prec: Precedence,
    left: SpecExpr,
) -> SpecResult<SpecExpr>
    decreases s.len(), 7nat,
{
    if s.len() == 0 {
        Err((s, ErrorKind::Eof))
    } else {
        let peek = spec_infix_op(s[0]).0;
        if prec_rank(prec) < prec_rank(peek) {
            let step = if peek == Precedence::PCall {
                spec_parse_call_expr(s, left)
            } else if peek == Precedence::PIndex {
                spec_parse_index_expr(s, left)
            } else {
                spec_parse_infix_expr(s, left)
            };
            match step {
                Err(e) => Err(e),
                Ok((s1, left2)) => if s1.len() < s.len() {
                    spec_go_parse_pratt_expr(s1, prec, left2)
                } else {
                    Err(stalled(s))
                },
            }
        } else {
            Ok((s, left))
        }
    }
}

/// `left op expr`, where the right operand takes the operators that bind
/// tighter than `op`.
pub open spec fn spec_parse_infix_expr(s: Seq<Token>, left: SpecExpr) -> SpecResult<SpecExpr>
    decreases s.len(), 6nat,
{
    if s.len() == 0 {
        Err((s, ErrorKind::Eof))
    } else {
        let (prec, op) = spec_infix_op(s[0]);
        match op {
            None => Err((s, ErrorKind::Tag)),
            Some(op) => match spec_parse_pratt_expr(s.skip(1), prec) {
                Err(e) => Err(e),
                Ok((s1, right)) => Ok(
                    (s1, SpecExpr::InfixExpr(op, Box::new(left), Box::new(right))),
                ),
            },
        }
    }
}

/// `left "(" [exprs] ")"`
pub open spec fn spec_parse_call_expr(s: Seq<Token>, function: SpecExpr) -> SpecResult<SpecExpr>
    decreases s.len(), 6nat,
{
    match spec_match_token(s, Token::LParen) {
        Err(e) => Err(e),
        Ok(s1) => {
            let (s2, arguments) = match spec_parse_exprs(s1) {
                Ok((r, es)) => (r, es),
                Err(_) => (s1, Seq::empty()),
            };
            match spec_match_token(s2, Token::RParen) {
                Err(e) => Err(e),
                Ok(s3) => Ok(
                    (s3, SpecExpr::CallExpr { function: Box::new(function), arguments }),
                ),
            }
        },
    }
}

/// `left "[" expr "]"`
pub open spec fn spec_parse_index_expr(s: Seq<Token>, array: SpecExpr) -> SpecResult<SpecExpr>
    decreases s.len(), 6nat,
{
    match spec_match_token(s, Token::LBracket) {
        Err(e) => Err(e),
        Ok(s1) => match spec_parse_expr(s1) {
            Err(e) => Err(e),
            Ok((s2, index)) => match spec_match_token(s2, Token::RBracket) {
                Err(e) => Err(e),
                Ok(s3) => Ok(
                    (s3, SpecExpr::IndexExpr { array: Box::new(array), index: Box::new(index) }),
                ),
            },
        },
    }
}

/// An operand: literal, identifier, prefix, parenthesised, array, hash,
/// `if` or `fn` expression, tried in that order.
pub open spec fn spec_parse_atom_expr(s: Seq<Token>) -> SpecResult<SpecExpr>
    decreases s.len(), 7nat,
{
    match spec_parse_literal(s) {
        Ok((r, l)) => Ok((r, SpecExpr::LitExpr(l))),
        Err(_) => match spec_parse_ident(s) {
            Ok((r, i)) => Ok((r, SpecExpr::IdentExpr(i))),
            Err(_) => match spec_parse_prefix_expr(s) {
                Ok(x) => Ok(x),
                Err(_) => match spec_parse_paren_expr(s) {
                    Ok(x) => Ok(x),
                    Err(_) => match spec_parse_array_expr(s) {
                        Ok(x) => Ok(x),
                        Err(_) => match spec_parse_hash_expr(s) {
                            Ok(x) => Ok(x),
                            Err(_) => match spec_parse_if_expr(s) {
                                Ok(x) => Ok(x),
                                Err(_) => spec_parse_fn_expr(s),
                            },
                        },
                    },
                },
            },
        },
    }
}

/// `("+" | "-" | "!") atom`
pub open spec fn spec_parse_prefix_expr(s: Seq<Token>) -> SpecResult<SpecExpr>
    decreases s.len(), 6nat,
{
    if s.len() == 0 {
        Err((s, ErrorKind::Eof))
    } else {
        match spec_prefix_op(s[0]) {
            None => Err((s, ErrorKind::Verify)),
            Some(op) => match spec_parse_atom_expr(s.skip(1)) {
                Err(e) => Err(e),
                Ok((s1, e)) => Ok((s1, SpecExpr::PrefixExpr(op, Box::new(e)))),
            },
        }
    }
}

/// `"(" expr ")"`
pub open spec fn spec_parse_paren_expr(s: Seq<Token>) -> SpecResult<SpecExpr>
    decreases s.len(), 6nat,
{
    match spec_match_token(s, Token::LParen) {
        Err(e) => Err(e),
        Ok(s1) => match spec_parse_expr(s1) {
            Err(e) => Err(e),
            Ok((s2, e)) => match spec_match_token(s2, Token::RParen) {
                Err(err) => Err(err),
                Ok(s3) => Ok((s3, e)),
            },
        },
    }
}

/// `expr ( "," expr )*`
pub open spec fn spec_parse_exprs(s: Seq<Token>) -> SpecResult<Seq<SpecExpr>>
    decreases s.len(), 10nat,
{
    match spec_parse_expr(s) {
        Err(e) => Err(e),
        Ok((s1, first)) => if s1.len() < s.len() {
            prepend(seq![first], spec_many_comma_exprs(s1))
        } else {
            Err(stalled(s))
        },
    }
}

/// `"," expr`
pub open spec fn spec_parse_comma_exprs(s: Seq<Token>) -> SpecResult<SpecExpr>
    decreases s.len(), 6nat,
{
    match spec_match_token(s, Token::Comma) {
        Err(e) => Err(e),
        Ok(s1) => spec_parse_expr(s1),
    }
}

/// `( "," expr )*`
pub open spec fn spec_many_comma_exprs(s: Seq<Token>) -> SpecResult<Seq<SpecExpr>>
    decreases s.len(), 7nat,
{
    match spec_parse_comma_exprs(s) {
        Err(_) => Ok((s, Seq::empty())),
        Ok((s1, e)) => if s1.len() < s.len() {
            prepend(seq![e], spec_many_comma_exprs(s1))
        } else {
            Err(stalled(s))
        },
    }
}

/// `"[" [exprs] "]"`
pub open spec fn spec_parse_array_expr(s: Seq<Token>) -> SpecResult<SpecExpr>
    decreases s.len(), 6nat,
{
    match spec_match_token(s, Token::LBracket) {
        Err(e) => Err(e),
        Ok(s1) => {
            let (s2, elems) = match spec_parse_exprs(s1) {
                Ok((r, es)) => (r, es),
                Err(_) => (s1, Seq::empty()),
            };
            match spec_match_token(s2, Token::RBracket) {
                Err(e) => Err(e),
                Ok(s3) => Ok((s3, SpecExpr::ArrayExpr(elems))),
            }
        },
    }
}

/// `literal ":" expr`
pub open spec fn spec_parse_hash_pair(s: Seq<Token>) -> SpecResult<(Literal, SpecExpr)>
    decreases s.len(), 6nat,
{
    match spec_parse_literal(s) {
        Err(e) => Err(e),
        Ok((s1, key)) => match spec_match_token(s1, Token::Colon) {
            Err(e) => Err(e),
            Ok(s2) => match spec_parse_expr(s2) {
                Err(e) => Err(e),
                Ok((s3, value)) => Ok((s3, (key, value))),
            },
        },
    }
}

/// `hash_pair ( "," hash_pair )*`
pub open spec fn spec_parse_hash_pairs(s: Seq<Token>) -> SpecResult<Seq<(Literal, SpecExpr)>>
    decreases s.len(), 8nat,
{
    match spec_parse_hash_pair(s) {
        Err(e) => Err(e),
        Ok((s1, first)) => if s1.len() < s.len() {
            prepend(seq![first], spec_many_hash_comma_exprs(s1))
        } else {
            Err(stalled(s))
        },
    }
}

/// `"," hash_pair`
pub open spec fn spec_parse_hash_comma_expr(s: Seq<Token>) -> SpecResult<(Literal, SpecExpr)>
    decreases s.len(), 6nat,
{
    match spec_match_token(s, Token::Comma) {
        Err(e) => Err(e),
        Ok(s1) => spec_parse_hash_pair(s1),
    }
}

/// `( "," hash_pair )*`
pub open spec fn spec_many_hash_comma_exprs(s: Seq<Token>) -> SpecResult<
    Seq<(Literal, SpecExpr)>,
>
    decreases s.len(), 7nat,
{
    match spec_parse_hash_comma_expr(s) {
        Err(_) => Ok((s, Seq::empty())),
        Ok((s1, p)) => if s1.len() < s.len() {
            prepend(seq![p], spec_many_hash_comma_exprs(s1))
        } else {
            Err(stalled(s))
        },
    }
}

/// `"{" [hash_pairs] "}"`
pub open spec fn spec_parse_hash_expr(s: Seq<Token>) -> SpecResult<SpecExpr>
    decreases s.len(), 6nat,
{
    match spec_match_token(s, Token::LBrace) {
        Err(e) => Err(e),
        Ok(s1) => {
            let (s2, pairs) = match spec_parse_hash_pairs(s1) {
                Ok((r, ps)) => (r, ps),
                Err(_) => (s1, Seq::empty()),
            };
            match spec_match_token(s2, Token::RBrace) {
                Err(e) => Err(e),
                Ok(s3) => Ok((s3, SpecExpr::HashExpr(pairs))),
            }
        },
    }
}

/// `"if" "(" expr ")" block [ "else" block ]`
pub open spec fn spec_parse_if_expr(s: Seq<Token>) -> SpecResult<SpecExpr>
    decreases s.len(), 6nat,
{
    match spec_match_token(s, Token::If) {
        Err(e) => Err(e),
        Ok(s1) => match spec_match_token(s1, Token::LParen) {
            Err(e) => Err(e),
            Ok(s2) => match spec_parse_expr(s2) {
                Err(e) => Err(e),
                Ok((s3, cond)) => match spec_match_token(s3, Token::RParen) {
                    Err(e) => Err(e),
                    Ok(s4) => if s4.len() < s.len() {
                        match spec_parse_block_stmt(s4) {
                            Err(e) => Err(e),
                            Ok((s5, consequence)) => if s5.len() < s.len() {
                                match spec_parse_else_expr(s5) {
                                    Err(e) => Err(e),
                                    Ok((s6, alternative)) => Ok(
                                        (
                                            s6,
                                            SpecExpr::IfExpr {
                                                cond: Box::new(cond),
                                                consequence,
                                                alternative,
                                            },
                                        ),
                                    ),
                                }
                            } else {
                                Err(stalled(s))
                            },
                        }
                    } else {
                        Err(stalled(s))
                    },
                },
            },
        },
    }
}

/// `[ "else" block ]`
pub open spec fn spec_parse_else_expr(s: Seq<Token>) -> SpecResult<Option<Seq<SpecStmt>>>
    decreases s.len(), 6nat,
{
    match spec_match_token(s, Token::Else) {
        Err(_) => Ok((s, None)),
        Ok(s1) => match spec_parse_block_stmt(s1) {
            Err(_) => Ok((s, None)),
            Ok((s2, b)) => Ok((s2, Some(b))),
        },
    }
}

/// `"fn" "(" [params] ")" block`
pub open spec fn spec_parse_fn_expr(s: Seq<Token>) -> SpecResult<SpecExpr>
    decreases s.len(), 6nat,
{
    match spec_match_token(s, Token::Function) {
        Err(e) => Err(e),
        Ok(s1) => match spec_match_token(s1, Token::LParen) {
            Err(e) => Err(e),
            Ok(s2) => {
                let (s3, params) = match spec_parse_params(s2) {
                    Ok((r, ps)) => (r, ps),
                    Err(_) => (s2, Seq::empty()),
                };
                match spec_match_token(s3, Token::RParen) {
                    Err(e) => Err(e),
                    Ok(s4) => if s4.len() < s.len() {
                        match spec_parse_block_stmt(s4) {
                            Err(e) => Err(e),
                            Ok((s5, body)) => Ok((s5, SpecExpr::FnExpr { params, body })),
                        }
                    } else {
                        Err(stalled(s))
                    },
                }
            },
        },
    }
}

/// `"{" stmt* "}"`
pub open spec fn spec_parse_block_stmt(s: Seq<Token>) -> SpecResult<Seq<SpecStmt>>
    decreases s.len(), 6nat,
{
    match spec_match_token(s, Token::LBrace) {
        Err(e) => Err(e),
        Ok(s1) => match spec_many_stmts(s1) {
            Err(e) => Err(e),
            Ok((s2, body)) => match spec_match_token(s2, Token::RBrace) {
                Err(e) => Err(e),
                Ok(s3) => Ok((s3, body)),
            },
        },
    }
}

/// `stmt*`
pub open spec fn spec_many_stmts(s: Seq<Token>) -> SpecResult<Seq<SpecStmt>>
    decreases s.len(), 12nat,
{
    match spec_parse_stmt(s) {
        Err(_) => Ok((s, Seq::empty())),
        Ok((s1, st)) => if s1.len() < s.len() {
            prepend(seq![st], spec_many_stmts(s1))
        } else {
            Err(stalled(s))
        },
    }
}

/// A `let`, `return` or expression statement, tried in that order.
pub open spec fn spec_parse_stmt(s: Seq<Token>) -> SpecResult<SpecStmt>
    decreases s.len(), 11nat,
{
    match spec_parse_let_stmt(s) {
        Ok(x) => Ok(x),
        Err(_) => match spec_parse_return_stmt(s) {
            Ok(x) => Ok(x),
            Err(_) => spec_parse_expr_stmt(s),
        },
    }
}

/// `"let" ident "=" expr [";"]`
pub open spec fn spec_parse_let_stmt(s: Seq<Token>) -> SpecResult<SpecStmt>
    decreases s.len(), 10nat,
{
    match spec_match_token(s, Token::Let) {
        Err(e) => Err(e),
        Ok(s1) => match spec_parse_ident(s1) {
            Err(e) => Err(e),
            Ok((s2, name)) => match spec_match_token(s2, Token::Assign) {
                Err(e) => Err(e),
                Ok(s3) => match spec_parse_expr(s3) {
                    Err(e) => Err(e),
                    Ok((s4, e)) => Ok(
                        (spec_opt_token(s4, Token::SemiColon), SpecStmt::LetStmt(name, e)),
                    ),
                },
            },
        },
    }
}

/// `"return" expr [";"]`
pub open spec fn spec_parse_return_stmt(s: Seq<Token>) -> SpecResult<SpecStmt>
    decreases s.len(), 10nat,
{
    match spec_match_token(s, Token::Return) {
        Err(e) => Err(e),
        Ok(s1) => match spec_parse_expr(s1) {
            Err(e) => Err(e),
            Ok((s2, e)) => Ok((spec_opt_token(s2, Token::SemiColon), SpecStmt::ReturnStmt(e))),
        },
    }
}

/// `expr [";"]`
pub open spec fn spec_parse_expr_stmt(s: Seq<Token>) -> SpecResult<SpecStmt>
    decreases s.len(), 10nat,
{
    match spec_parse_expr(s) {
        Err(e) => Err(e),
        Ok((s1, e)) => Ok((spec_opt_token(s1, Token::SemiColon), SpecStmt::ExprStmt(e))),
    }
}

/// `stmt* EOF`
pub open spec fn spec_parse_program(s: Seq<Token>) -> SpecResult<Seq<SpecStmt>> {
    match spec_many_stmts(s) {
        Err(e) => Err(e),
        Ok((s1, program)) => match spec_match_token(s1, Token::EOF) {
            Err(e) => Err(e),
            Ok(s2) => Ok((s2, program)),
        },
    }
}

/// Prepending twice is prepending the joined list.
pub proof fn lemma_prepend_push<T>(a: Seq<T>, x: T, r: SpecResult<Seq<T>>)
    ensures
        prepend(a, prepend(seq![x], r)) == prepend(a.push(x), r),
{
    if let Ok((rest, ys)) = r {
        assert(a + (seq![x] + ys) =~= a.push(x) + ys);
    }
}

/// Prepending to an empty list read.
pub proof fn lemma_prepend_empty<T>(a: Seq<T>, rest: Seq<Token>)
    ensures
        prepend(a, Ok((rest, Seq::<T>::empty()))) == Ok::<_, SpecError>((rest, a)),
{
    assert(a + Seq::<T>::empty() =~= a);
}

/// `r` is the input `s` after its first tokens.
pub open spec fn is_tail(r: Seq<Token>, s: Seq<Token>) -> bool {
    &&& r.len() <= s.len()
    &&& r == s.skip(s.len() - r.len())
}

/// A tail of a tail is a tail.
pub broadcast proof fn lemma_tail_of_tail(a: Seq<Token>, b: Seq<Token>, c: Seq<Token>)
    requires
        #[trigger] is_tail(a, b),
        #[trigger] is_tail(b, c),
    ensures
        is_tail(a, c),
{
    assert(a =~= c.skip(c.len() - a.len()));
}

/// The whole input is a tail of itself.
pub proof fn lemma_tail_refl(s: Seq<Token>)
    ensures
        is_tail(s, s),
{
    assert(s =~= s.skip(0));
}

} // verus!
