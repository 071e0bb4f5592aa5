//! Laws of the parser, stated over the grammar of `grammar` and proved.
use vstd::prelude::*;

use crate::ast::{Ident, Infix, Literal, Precedence, Prefix, SpecExpr, SpecStmt};
use crate::grammar::{
    prec_rank, ErrorKind, SpecError, spec_go_parse_pratt_expr, spec_infix_op, spec_many_comma_exprs,
    spec_many_comma_idents, spec_many_hash_comma_exprs, spec_many_stmts, spec_match_token,
    spec_opt_token, spec_parse_array_expr, spec_parse_atom_expr, spec_parse_block_stmt,
    spec_parse_call_expr, spec_parse_comma_exprs, spec_parse_comma_ident, spec_parse_else_expr,
    spec_parse_expr, spec_parse_expr_stmt, spec_parse_exprs, spec_parse_fn_expr,
    spec_parse_hash_comma_expr, spec_parse_hash_expr, spec_parse_hash_pair,
    spec_parse_hash_pairs, spec_parse_ident, spec_parse_if_expr, spec_parse_index_expr,
    spec_parse_infix_expr, spec_parse_let_stmt, spec_parse_literal, spec_parse_paren_expr,
    spec_parse_params, spec_parse_pratt_expr, spec_parse_prefix_expr, spec_parse_program,
    spec_parse_return_stmt, spec_parse_stmt, spec_prefix_op, prepend,
};
use crate::render::{
    infix_token, render_alternative, literal_token, prefix_token, render_block, render_comma_exprs,
    render_comma_pairs, render_comma_params, render_expr, render_exprs, render_pair,
    render_pairs, render_params, render_program, render_stmt, render_stmts,
};
use crate::token::{token_eq, Token};

verus! {

/// A token that can end an operand: it binds nothing to its left and is not
/// `else`.
pub open spec fn ends_operand(t: Token) -> bool {
    spec_infix_op(t).0 == Precedence::PLowest && !(t is Else)
}

/// A token that can begin an operand.
pub open spec fn starts_operand(t: Token) -> bool {
    ||| t is Ident
    ||| t is IntLiteral
    ||| t is StringLiteral
    ||| t is BoolLiteral
    ||| t is Plus
    ||| t is Minus
    ||| t is Not
    ||| t is LParen
    ||| t is LBracket
    ||| t is LBrace
    ||| t is If
    ||| t is Function
}

#[verifier::spinoff_prover]
proof fn lemma_cons(t: Token, r: Seq<Token>)
    ensures
        (seq![t] + r).len() == r.len() + 1,
        (seq![t] + r)[0] == t,
        (seq![t] + r).skip(1) == r,
{
    assert((seq![t] + r).skip(1) =~= r);
}

#[verifier::spinoff_prover]
proof fn lemma_match_cons(t: Token, r: Seq<Token>, kind: Token)
    ensures
        token_eq(t, kind) ==> spec_match_token(seq![t] + r, kind) == Ok::<_, SpecError>(r),
        !token_eq(t, kind) ==> spec_match_token(seq![t] + r, kind) is Err,
{
    lemma_cons(t, r);
}

#[verifier::spinoff_prover]
proof fn lemma_infix_token(op: Infix)
    ensures
        spec_infix_op(infix_token(op)).1 == Some(op),
        prec_rank(spec_infix_op(infix_token(op)).0) > 0,
        spec_infix_op(infix_token(op)).0 != Precedence::PCall,
        spec_infix_op(infix_token(op)).0 != Precedence::PIndex,
        !(infix_token(op) is Else),
{
}

#[verifier::spinoff_prover]
proof fn lemma_literal_token(l: Literal, r: Seq<Token>)
    ensures
        spec_parse_literal(seq![literal_token(l)] + r) == Ok::<_, SpecError>((r, l)),
        spec_parse_ident(seq![literal_token(l)] + r) is Err,
{
    lemma_cons(literal_token(l), r);
}

/// No operand begins with a token that cannot begin one.
#[verifier::spinoff_prover]
pub proof fn lemma_no_operand(s: Seq<Token>, prec: Precedence)
    requires
        s.len() > 0,
        !starts_operand(s[0]),
    ensures
        spec_parse_atom_expr(s) is Err,
        spec_parse_pratt_expr(s, prec) is Err,
        spec_parse_expr(s) is Err,
        spec_parse_exprs(s) is Err,
{
    lemma_no_atom(s);
    assert(spec_parse_pratt_expr(s, prec) is Err);
    assert(spec_parse_pratt_expr(s, Precedence::PLowest) is Err);
    assert(spec_parse_expr(s) is Err);
}

/// No statement begins with a token that begins neither an operand nor a
/// `let` or `return` statement.
#[verifier::spinoff_prover]
pub proof fn lemma_no_stmt(s: Seq<Token>)
    requires
        s.len() > 0,
        !starts_operand(s[0]),
        !(s[0] is Let),
        !(s[0] is Return),
    ensures
        spec_parse_stmt(s) is Err,
{
    lemma_no_operand(s, Precedence::PLowest);
    let t = s[0];
    assert(s =~= seq![t] + s.skip(1));
    lemma_match_cons(t, s.skip(1), Token::Let);
    lemma_match_cons(t, s.skip(1), Token::Return);
    assert(spec_parse_let_stmt(s) is Err);
    assert(spec_parse_return_stmt(s) is Err);
    assert(spec_parse_expr_stmt(s) is Err);
}

#[verifier::spinoff_prover]
proof fn lemma_no_atom(s: Seq<Token>)
    requires
        s.len() > 0,
        !starts_operand(s[0]),
    ensures
        spec_parse_atom_expr(s) is Err,
{
    let t = s[0];
    assert(s =~= seq![t] + s.skip(1));
    let r = s.skip(1);
    lemma_match_cons(t, r, Token::LParen);
    lemma_match_cons(t, r, Token::LBracket);
    lemma_match_cons(t, r, Token::LBrace);
    lemma_match_cons(t, r, Token::If);
    lemma_match_cons(t, r, Token::Function);
    assert(spec_parse_literal(s) is Err);
    assert(spec_parse_ident(s) is Err);
    assert(spec_parse_prefix_expr(s) is Err);
    assert(spec_parse_paren_expr(s) is Err);
    assert(spec_parse_array_expr(s) is Err);
    assert(spec_parse_hash_expr(s) is Err);
    assert(spec_parse_if_expr(s) is Err);
    assert(spec_parse_fn_expr(s) is Err);
}

#[verifier::spinoff_prover]
proof fn lemma_operand_not_keyword(t: Token)
    requires
        starts_operand(t),
    ensures
        !token_eq(t, Token::Let),
        !token_eq(t, Token::Return),
{
}

/// The tokens of a rendered `if`, grouped from the right.
#[verifier::spinoff_prover]
proof fn lemma_if_tokens(
    cond: SpecExpr,
    cons: Seq<SpecStmt>,
    alt: Option<Seq<SpecStmt>>,
    rest: Seq<Token>,
)
    ensures
        render_expr((SpecExpr::IfExpr { cond: Box::new(cond), consequence: cons, alternative: alt }))
            + rest == seq![Token::If] + (seq![Token::LParen] + (render_expr(cond) + (seq![
            Token::RParen,
        ] + (render_block(cons) + (render_alternative(alt) + rest))))),
{
    let e = SpecExpr::IfExpr { cond: Box::new(cond), consequence: cons, alternative: alt };
    assert(render_expr(e) =~= seq![Token::If, Token::LParen] + render_expr(cond) + seq![
        Token::RParen,
    ] + render_block(cons) + render_alternative(alt));
    assert(render_expr(e) + rest =~= seq![Token::If] + (seq![Token::LParen] + (render_expr(cond)
        + (seq![Token::RParen] + (render_block(cons) + (render_alternative(alt) + rest))))));
}

/// A rendered expression is not empty and begins as an operand does.
#[verifier::spinoff_prover]
proof fn lemma_render_expr_start(e: SpecExpr)
    ensures
        render_expr(e).len() > 0,
        starts_operand(render_expr(e)[0]),
{
    match e {
        SpecExpr::IdentExpr(Ident(name)) => {},
        SpecExpr::LitExpr(l) => {},
        SpecExpr::PrefixExpr(op, x) => {},
        _ => {},
    }
}

/// A rendered expression reads back as itself, whatever binding power it is
/// read at, when a token that ends operands follows it.
#[verifier::spinoff_prover]
proof fn lemma_rendered_expr(e: SpecExpr, rest: Seq<Token>, prec: Precedence)
    requires
        rest.len() > 0,
        ends_operand(rest[0]),
    ensures
        spec_parse_pratt_expr(render_expr(e) + rest, prec) == Ok::<_, SpecError>((rest, e)),
        spec_parse_expr(render_expr(e) + rest) == Ok::<_, SpecError>((rest, e)),
    decreases e, 3nat,
{
    lemma_rendered_atom(e, rest);
    lemma_render_expr_start(e);
    assert(spec_go_parse_pratt_expr(rest, prec, e) == Ok::<_, SpecError>((rest, e)));
    assert(spec_go_parse_pratt_expr(rest, Precedence::PLowest, e) == Ok::<_, SpecError>((rest, e)));
    assert(spec_parse_pratt_expr(render_expr(e) + rest, Precedence::PLowest) == Ok::<_, SpecError>((rest, e)));
}

/// A rendered expression reads back as itself as an operand, when no `else`
/// follows it.
#[verifier::spinoff_prover]
proof fn lemma_rendered_atom(e: SpecExpr, rest: Seq<Token>)
    requires
        rest.len() == 0 || !(rest[0] is Else),
    ensures
        spec_parse_atom_expr(render_expr(e) + rest) == Ok::<_, SpecError>((rest, e)),
    decreases e, 2nat,
{
    match e {
        SpecExpr::IdentExpr(Ident(name)) => {
            let s = seq![Token::Ident(name)] + rest;
            assert(render_expr(e) + rest =~= s);
            lemma_cons(Token::Ident(name), rest);
            assert(spec_parse_literal(s) is Err);
            assert(spec_parse_ident(s) == Ok::<_, SpecError>((rest, Ident(name))));
        },
        SpecExpr::LitExpr(l) => {
            assert(render_expr(e) + rest =~= seq![literal_token(l)] + rest);
            lemma_literal_token(l, rest);
        },
        SpecExpr::PrefixExpr(op, x) => lemma_atom_prefix(op, *x, rest),
        SpecExpr::InfixExpr(op, l, r) => lemma_atom_infix(op, *l, *r, rest),
        SpecExpr::IfExpr { cond, consequence, alternative } => lemma_atom_if(
            *cond,
            consequence,
            alternative,
            rest,
        ),
        SpecExpr::FnExpr { params, body } => lemma_atom_fn(params, body, rest),
        SpecExpr::CallExpr { function, arguments } => lemma_atom_call(*function, arguments, rest),
        SpecExpr::ArrayExpr(es) => lemma_atom_array(es, rest),
        SpecExpr::HashExpr(ps) => lemma_atom_hash(ps, rest),
        SpecExpr::IndexExpr { array, index } => lemma_atom_index(*array, *index, rest),
    }
}

#[verifier::spinoff_prover]
proof fn lemma_atom_prefix(op: Prefix, x: SpecExpr, rest: Seq<Token>)
    requires
        rest.len() == 0 || !(rest[0] is Else),
    ensures
        spec_parse_atom_expr(render_expr(SpecExpr::PrefixExpr(op, Box::new(x))) + rest) == Ok::<_, SpecError>(
            (rest, SpecExpr::PrefixExpr(op, Box::new(x))),
        ),
    decreases SpecExpr::PrefixExpr(op, Box::new(x)), 1nat,
{
    let e = SpecExpr::PrefixExpr(op, Box::new(x));
    let t = prefix_token(op);
    let s1 = render_expr(x) + rest;
    let s = seq![t] + s1;
    assert(render_expr(e) + rest =~= s);
    lemma_cons(t, s1);
    lemma_rendered_atom(x, rest);
    assert(spec_prefix_op(t) == Some(op));
    assert(spec_parse_literal(s) is Err);
    assert(spec_parse_ident(s) is Err);
    assert(spec_parse_prefix_expr(s) == Ok::<_, SpecError>((rest, e)));
}

#[verifier::spinoff_prover]
proof fn lemma_atom_infix(op: Infix, l: SpecExpr, r: SpecExpr, rest: Seq<Token>)
    requires
        rest.len() == 0 || !(rest[0] is Else),
    ensures
        spec_parse_atom_expr(render_expr(SpecExpr::InfixExpr(op, Box::new(l), Box::new(r))) + rest)
            == Ok::<_, SpecError>((rest, SpecExpr::InfixExpr(op, Box::new(l), Box::new(r)))),
    decreases SpecExpr::InfixExpr(op, Box::new(l), Box::new(r)), 1nat,
{
    let e = SpecExpr::InfixExpr(op, Box::new(l), Box::new(r));
    let ot = infix_token(op);
    let t2 = seq![Token::RParen] + rest;
    let t1 = seq![ot] + (render_expr(r) + t2);
    let s1 = render_expr(l) + t1;
    let s = seq![Token::LParen] + s1;
    assert(render_expr(e) + rest =~= s);
    lemma_infix_token(op);
    lemma_cons(ot, render_expr(r) + t2);
    lemma_cons(Token::RParen, rest);
    lemma_cons(Token::LParen, s1);
    lemma_rendered_atom(l, t1);
    lemma_render_expr_start(l);
    lemma_render_expr_start(r);
    let p = spec_infix_op(ot).0;
    lemma_rendered_expr(r, t2, p);
    assert(spec_parse_infix_expr(t1, l) == Ok::<_, SpecError>((t2, e)));
    assert(spec_go_parse_pratt_expr(t2, Precedence::PLowest, e) == Ok::<_, SpecError>((t2, e)));
    assert(spec_go_parse_pratt_expr(t1, Precedence::PLowest, l) == Ok::<_, SpecError>((t2, e)));
    assert(spec_parse_pratt_expr(s1, Precedence::PLowest) == Ok::<_, SpecError>((t2, e)));
    assert(spec_parse_expr(s1) == Ok::<_, SpecError>((t2, e)));
    lemma_match_cons(Token::RParen, rest, Token::RParen);
    lemma_match_cons(Token::LParen, s1, Token::LParen);
    assert(spec_parse_paren_expr(s) == Ok::<_, SpecError>((rest, e)));
    assert(spec_parse_literal(s) is Err);
    assert(spec_parse_ident(s) is Err);
    assert(spec_parse_prefix_expr(s) is Err);
}

#[verifier::spinoff_prover]
proof fn lemma_atom_call(f: SpecExpr, args: Seq<SpecExpr>, rest: Seq<Token>)
    requires
        rest.len() == 0 || !(rest[0] is Else),
    ensures
        spec_parse_atom_expr(
            render_expr((SpecExpr::CallExpr { function: Box::new(f), arguments: args })) + rest,
        ) == Ok::<_, SpecError>((rest, (SpecExpr::CallExpr { function: Box::new(f), arguments: args }))),
    decreases (SpecExpr::CallExpr { function: Box::new(f), arguments: args }), 1nat,
{
    let e = SpecExpr::CallExpr { function: Box::new(f), arguments: args };
    let u4 = seq![Token::RParen] + rest;
    let u3 = seq![Token::RParen] + u4;
    let u2 = render_exprs(args) + u3;
    let u1 = seq![Token::LParen] + u2;
    let s1 = render_expr(f) + u1;
    let s = seq![Token::LParen] + s1;
    assert(render_expr(e) + rest =~= s);
    lemma_cons(Token::LParen, s1);
    lemma_cons(Token::LParen, u2);
    lemma_cons(Token::RParen, u4);
    lemma_cons(Token::RParen, rest);
    lemma_match_cons(Token::LParen, s1, Token::LParen);
    lemma_match_cons(Token::LParen, u2, Token::LParen);
    lemma_match_cons(Token::RParen, u4, Token::RParen);
    lemma_match_cons(Token::RParen, rest, Token::RParen);
    lemma_rendered_atom(f, u1);
    lemma_render_expr_start(f);
    if args.len() == 0 {
        assert(u2 =~= u3);
        lemma_no_operand(u3, Precedence::PLowest);
        assert(args =~= Seq::<SpecExpr>::empty());
    } else {
        lemma_rendered_exprs(args, u3);
    }
    assert(spec_match_token(u1, Token::LParen) == Ok::<_, SpecError>(u2));
    assert(spec_parse_call_expr(u1, f) == Ok::<_, SpecError>((u4, e)));
    assert(spec_go_parse_pratt_expr(u4, Precedence::PLowest, e) == Ok::<_, SpecError>((u4, e)));
    assert(spec_go_parse_pratt_expr(u1, Precedence::PLowest, f) == Ok::<_, SpecError>((u4, e)));
    assert(spec_parse_pratt_expr(s1, Precedence::PLowest) == Ok::<_, SpecError>((u4, e)));
    assert(spec_parse_expr(s1) == Ok::<_, SpecError>((u4, e)));
    assert(spec_parse_paren_expr(s) == Ok::<_, SpecError>((rest, e)));
    assert(spec_parse_literal(s) is Err);
    assert(spec_parse_ident(s) is Err);
    assert(spec_parse_prefix_expr(s) is Err);
}

#[verifier::spinoff_prover]
proof fn lemma_atom_index(a: SpecExpr, i: SpecExpr, rest: Seq<Token>)
    requires
        rest.len() == 0 || !(rest[0] is Else),
    ensures
        spec_parse_atom_expr(
            render_expr((SpecExpr::IndexExpr { array: Box::new(a), index: Box::new(i) })) + rest,
        ) == Ok::<_, SpecError>((rest, (SpecExpr::IndexExpr { array: Box::new(a), index: Box::new(i) }))),
    decreases (SpecExpr::IndexExpr { array: Box::new(a), index: Box::new(i) }), 1nat,
{
    let e = SpecExpr::IndexExpr { array: Box::new(a), index: Box::new(i) };
    let v4 = seq![Token::RParen] + rest;
    let v3 = seq![Token::RBracket] + v4;
    let v2 = render_expr(i) + v3;
    let v1 = seq![Token::LBracket] + v2;
    let s1 = render_expr(a) + v1;
    let s = seq![Token::LParen] + s1;
    assert(render_expr(e) + rest =~= s);
    lemma_cons(Token::LParen, s1);
    lemma_cons(Token::LBracket, v2);
    lemma_cons(Token::RBracket, v4);
    lemma_cons(Token::RParen, rest);
    lemma_match_cons(Token::LParen, s1, Token::LParen);
    lemma_match_cons(Token::LBracket, v2, Token::LBracket);
    lemma_match_cons(Token::RBracket, v4, Token::RBracket);
    lemma_match_cons(Token::RParen, rest, Token::RParen);
    lemma_rendered_atom(a, v1);
    lemma_render_expr_start(a);
    lemma_rendered_expr(i, v3, Precedence::PLowest);
    assert(spec_parse_index_expr(v1, a) == Ok::<_, SpecError>((v4, e)));
    assert(spec_go_parse_pratt_expr(v4, Precedence::PLowest, e) == Ok::<_, SpecError>((v4, e)));
    assert(spec_go_parse_pratt_expr(v1, Precedence::PLowest, a) == Ok::<_, SpecError>((v4, e)));
    assert(spec_parse_pratt_expr(s1, Precedence::PLowest) == Ok::<_, SpecError>((v4, e)));
    assert(spec_parse_expr(s1) == Ok::<_, SpecError>((v4, e)));
    assert(spec_parse_paren_expr(s) == Ok::<_, SpecError>((rest, e)));
    assert(spec_parse_literal(s) is Err);
    assert(spec_parse_ident(s) is Err);
    assert(spec_parse_prefix_expr(s) is Err);
}

#[verifier::spinoff_prover]
proof fn lemma_atom_array(es: Seq<SpecExpr>, rest: Seq<Token>)
    requires
        rest.len() == 0 || !(rest[0] is Else),
    ensures
        spec_parse_atom_expr(render_expr(SpecExpr::ArrayExpr(es)) + rest) == Ok::<_, SpecError>(
            (rest, SpecExpr::ArrayExpr(es)),
        ),
    decreases SpecExpr::ArrayExpr(es), 1nat,
{
    let e = SpecExpr::ArrayExpr(es);
    let w2 = seq![Token::RBracket] + rest;
    let w1 = render_exprs(es) + w2;
    let s = seq![Token::LBracket] + w1;
    assert(render_expr(e) + rest =~= s);
    lemma_cons(Token::LBracket, w1);
    lemma_cons(Token::RBracket, rest);
    lemma_match_cons(Token::LBracket, w1, Token::LBracket);
    lemma_match_cons(Token::LBracket, w1, Token::LParen);
    lemma_match_cons(Token::RBracket, rest, Token::RBracket);
    if es.len() == 0 {
        assert(w1 =~= w2);
        lemma_no_operand(w2, Precedence::PLowest);
        assert(es =~= Seq::<SpecExpr>::empty());
    } else {
        lemma_rendered_exprs(es, w2);
    }
    assert(spec_match_token(s, Token::LBracket) == Ok::<_, SpecError>(w1));
    assert(spec_parse_array_expr(s) == Ok::<_, SpecError>((rest, e)));
    assert(spec_parse_literal(s) is Err);
    assert(spec_parse_ident(s) is Err);
    assert(spec_parse_prefix_expr(s) is Err);
    assert(spec_parse_paren_expr(s) is Err);
}

#[verifier::spinoff_prover]
proof fn lemma_atom_hash(ps: Seq<(Literal, SpecExpr)>, rest: Seq<Token>)
    requires
        rest.len() == 0 || !(rest[0] is Else),
    ensures
        spec_parse_atom_expr(render_expr(SpecExpr::HashExpr(ps)) + rest) == Ok::<_, SpecError>(
            (rest, SpecExpr::HashExpr(ps)),
        ),
    decreases SpecExpr::HashExpr(ps), 1nat,
{
    let e = SpecExpr::HashExpr(ps);
    let w2 = seq![Token::RBrace] + rest;
    let w1 = render_pairs(ps) + w2;
    let s = seq![Token::LBrace] + w1;
    assert(render_expr(e) + rest =~= s);
    lemma_cons(Token::LBrace, w1);
    lemma_cons(Token::RBrace, rest);
    lemma_match_cons(Token::LBrace, w1, Token::LBrace);
    lemma_match_cons(Token::LBrace, w1, Token::LParen);
    lemma_match_cons(Token::LBrace, w1, Token::LBracket);
    lemma_match_cons(Token::RBrace, rest, Token::RBrace);
    if ps.len() == 0 {
        assert(w1 =~= w2);
        assert(spec_parse_literal(w2) is Err);
        assert(spec_parse_hash_pair(w2) is Err);
        assert(spec_parse_hash_pairs(w2) is Err);
        assert(ps =~= Seq::<(Literal, SpecExpr)>::empty());
    } else {
        lemma_rendered_pairs(ps, w2);
    }
    assert(spec_match_token(s, Token::LBrace) == Ok::<_, SpecError>(w1));
    assert(spec_parse_hash_expr(s) == Ok::<_, SpecError>((rest, e)));
    assert(spec_parse_literal(s) is Err);
    assert(spec_parse_ident(s) is Err);
    assert(spec_parse_prefix_expr(s) is Err);
    assert(spec_parse_paren_expr(s) is Err);
    assert(spec_parse_array_expr(s) is Err);
}

#[verifier::spinoff_prover]
proof fn lemma_atom_if(
    cond: SpecExpr,
    cons: Seq<SpecStmt>,
    alt: Option<Seq<SpecStmt>>,
    rest: Seq<Token>,
)
    requires
        rest.len() == 0 || !(rest[0] is Else),
    ensures
        spec_parse_atom_expr(
            render_expr(
                (SpecExpr::IfExpr { cond: Box::new(cond), consequence: cons, alternative: alt }),
            ) + rest,
        ) == Ok::<_, SpecError>(
            (rest, (SpecExpr::IfExpr { cond: Box::new(cond), consequence: cons, alternative: alt })),
        ),
    decreases (SpecExpr::IfExpr { cond: Box::new(cond), consequence: cons, alternative: alt }), 1nat,
{
    let e = SpecExpr::IfExpr { cond: Box::new(cond), consequence: cons, alternative: alt };
    let a1 = render_alternative(alt) + rest;
    let b1 = render_block(cons) + a1;
    let c1 = seq![Token::RParen] + b1;
    let d1 = render_expr(cond) + c1;
    let d0 = seq![Token::LParen] + d1;
    let s = seq![Token::If] + d0;
    lemma_if_tokens(cond, cons, alt, rest);
    lemma_rendered_block(cons, a1);
    lemma_rendered_alternative(alt, rest);
    lemma_cons(Token::If, d0);
    lemma_cons(Token::LParen, d1);
    lemma_cons(Token::RParen, b1);
    lemma_match_cons(Token::If, d0, Token::If);
    lemma_match_cons(Token::LParen, d1, Token::LParen);
    lemma_match_cons(Token::RParen, b1, Token::RParen);
    lemma_rendered_expr(cond, c1, Precedence::PLowest);
    assert(spec_match_token(s, Token::If) == Ok::<_, SpecError>(d0));
    assert(spec_match_token(d0, Token::LParen) == Ok::<_, SpecError>(d1));
    assert(spec_parse_expr(d1) == Ok::<_, SpecError>((c1, cond)));
    assert(spec_match_token(c1, Token::RParen) == Ok::<_, SpecError>(b1));
    assert(b1.len() < s.len());
    assert(spec_parse_block_stmt(b1) == Ok::<_, SpecError>((a1, cons)));
    assert(a1.len() < s.len());
    assert(spec_parse_else_expr(a1) == Ok::<_, SpecError>((rest, alt)));
    assert(spec_parse_if_expr(s) == Ok::<_, SpecError>((rest, e)));
    assert(spec_parse_atom_expr(s) == Ok::<_, SpecError>((rest, e))) by {
        lemma_match_cons(Token::If, d0, Token::LParen);
        lemma_match_cons(Token::If, d0, Token::LBracket);
        lemma_match_cons(Token::If, d0, Token::LBrace);
        assert(spec_parse_literal(s) is Err);
        assert(spec_parse_ident(s) is Err);
        assert(spec_parse_prefix_expr(s) is Err);
        assert(spec_parse_paren_expr(s) is Err);
        assert(spec_parse_array_expr(s) is Err);
        assert(spec_parse_hash_expr(s) is Err);
    }
}

/// The `else` part of a rendered `if` reads back as itself when no `else`
/// follows it.
#[verifier::spinoff_prover]
proof fn lemma_rendered_alternative(alt: Option<Seq<SpecStmt>>, rest: Seq<Token>)
    requires
        rest.len() == 0 || !(rest[0] is Else),
    ensures
        spec_parse_else_expr(render_alternative(alt) + rest) == Ok::<_, SpecError>((rest, alt)),
    decreases alt, 1nat,
{
    match alt {
        Some(b) => {
            let r2 = render_block(b) + rest;
            assert(render_alternative(alt) + rest =~= seq![Token::Else] + r2);
            lemma_cons(Token::Else, r2);
            lemma_match_cons(Token::Else, r2, Token::Else);
            lemma_rendered_block(b, rest);
            assert(spec_match_token(seq![Token::Else] + r2, Token::Else) == Ok::<_, SpecError>(r2));
        },
        None => {
            assert(render_alternative(alt) + rest =~= rest);
            if rest.len() > 0 {
                lemma_match_cons(rest[0], rest.skip(1), Token::Else);
                assert(rest =~= seq![rest[0]] + rest.skip(1));
            }
            assert(spec_match_token(rest, Token::Else) is Err);
        },
    }
}

#[verifier::spinoff_prover]
proof fn lemma_atom_fn(params: Seq<Ident>, body: Seq<SpecStmt>, rest: Seq<Token>)
    requires
        rest.len() == 0 || !(rest[0] is Else),
    ensures
        spec_parse_atom_expr(render_expr((SpecExpr::FnExpr { params, body })) + rest) == Ok::<_, SpecError>(
            (rest, (SpecExpr::FnExpr { params, body })),
        ),
    decreases (SpecExpr::FnExpr { params, body }), 1nat,
{
    let e = SpecExpr::FnExpr { params, body };
    let b1 = render_block(body) + rest;
    let c1 = seq![Token::RParen] + b1;
    let p1 = render_params(params) + c1;
    let d0 = seq![Token::LParen] + p1;
    let s = seq![Token::Function] + d0;
    lemma_fn_tokens(params, body, rest);
    lemma_rendered_block(body, rest);
    lemma_fn_params(params, c1);
    assert(spec_parse_fn_expr(s) == Ok::<_, SpecError>((rest, e))) by {
        lemma_cons(Token::Function, d0);
        lemma_cons(Token::LParen, p1);
        lemma_cons(Token::RParen, b1);
        lemma_match_cons(Token::Function, d0, Token::Function);
        lemma_match_cons(Token::LParen, p1, Token::LParen);
        lemma_match_cons(Token::RParen, b1, Token::RParen);
        assert(spec_match_token(s, Token::Function) == Ok::<_, SpecError>(d0));
        assert(spec_match_token(d0, Token::LParen) == Ok::<_, SpecError>(p1));
        assert(spec_match_token(c1, Token::RParen) == Ok::<_, SpecError>(b1));
        assert(b1.len() < s.len());
    }
    assert(spec_parse_atom_expr(s) == Ok::<_, SpecError>((rest, e))) by {
        lemma_cons(Token::Function, d0);
        lemma_match_cons(Token::Function, d0, Token::If);
        lemma_match_cons(Token::Function, d0, Token::LParen);
        lemma_match_cons(Token::Function, d0, Token::LBracket);
        lemma_match_cons(Token::Function, d0, Token::LBrace);
        assert(spec_parse_literal(s) is Err);
        assert(spec_parse_ident(s) is Err);
        assert(spec_parse_prefix_expr(s) is Err);
        assert(spec_parse_paren_expr(s) is Err);
        assert(spec_parse_array_expr(s) is Err);
        assert(spec_parse_hash_expr(s) is Err);
        assert(spec_parse_if_expr(s) is Err);
    }
}

/// The tokens of a rendered function literal, grouped from the right.
#[verifier::spinoff_prover]
proof fn lemma_fn_tokens(params: Seq<Ident>, body: Seq<SpecStmt>, rest: Seq<Token>)
    ensures
        render_expr((SpecExpr::FnExpr { params, body })) + rest == seq![Token::Function] + (seq![
            Token::LParen,
        ] + (render_params(params) + (seq![Token::RParen] + (render_block(body) + rest)))),
{
    let e = SpecExpr::FnExpr { params, body };
    assert(render_expr(e) =~= seq![Token::Function, Token::LParen] + render_params(params)
        + seq![Token::RParen] + render_block(body));
    assert(render_expr(e) + rest =~= seq![Token::Function] + (seq![Token::LParen] + (
    render_params(params) + (seq![Token::RParen] + (render_block(body) + rest)))));
}

/// A rendered parameter list, empty or not, reads back as itself before a
/// closing parenthesis.
#[verifier::spinoff_prover]
proof fn lemma_fn_params(params: Seq<Ident>, c1: Seq<Token>)
    requires
        c1.len() > 0,
        c1[0] is RParen,
    ensures
        (match spec_parse_params(render_params(params) + c1) {
            Ok((r, ps)) => (r, ps),
            Err(_) => (render_params(params) + c1, Seq::<Ident>::empty()),
        }) == (c1, params),
{
    if params.len() == 0 {
        assert(render_params(params) + c1 =~= c1);
        assert(spec_parse_ident(c1) is Err);
        assert(spec_parse_params(c1) is Err);
        assert(params =~= Seq::<Ident>::empty());
    } else {
        lemma_rendered_params(params, c1);
    }
}

/// A rendered non-empty expression list reads back as itself before a token
/// that ends operands and is not a comma.
#[verifier::spinoff_prover]
proof fn lemma_rendered_exprs(es: Seq<SpecExpr>, rest: Seq<Token>)
    requires
        es.len() > 0,
        rest.len() > 0,
        ends_operand(rest[0]),
        !(rest[0] is Comma),
    ensures
        spec_parse_exprs(render_exprs(es) + rest) == Ok::<_, SpecError>((rest, es)),
    decreases es, 1nat,
{
    let tail = es.drop_first();
    let r1 = render_comma_exprs(tail) + rest;
    assert(render_exprs(es) + rest =~= render_expr(es[0]) + r1);
    if tail.len() > 0 {
        assert(r1 =~= seq![Token::Comma] + (render_expr(tail[0]) + render_comma_exprs(
            tail.drop_first(),
        ) + rest));
    } else {
        assert(r1 =~= rest);
    }
    lemma_rendered_expr(es[0], r1, Precedence::PLowest);
    lemma_render_expr_start(es[0]);
    lemma_rendered_comma_exprs(tail, rest);
    assert(seq![es[0]] + tail =~= es);
}

#[verifier::spinoff_prover]
proof fn lemma_rendered_comma_exprs(xs: Seq<SpecExpr>, rest: Seq<Token>)
    requires
        rest.len() > 0,
        ends_operand(rest[0]),
        !(rest[0] is Comma),
    ensures
        spec_many_comma_exprs(render_comma_exprs(xs) + rest) == Ok::<_, SpecError>((rest, xs)),
    decreases xs, 1nat,
{
    if xs.len() == 0 {
        assert(render_comma_exprs(xs) + rest =~= rest);
        lemma_match_cons(rest[0], rest.skip(1), Token::Comma);
        assert(rest =~= seq![rest[0]] + rest.skip(1));
        assert(spec_parse_comma_exprs(rest) is Err);
        assert(xs =~= Seq::<SpecExpr>::empty());
    } else {
        let tail = xs.drop_first();
        let r1 = render_comma_exprs(tail) + rest;
        let s1 = render_expr(xs[0]) + r1;
        let s = seq![Token::Comma] + s1;
        assert(render_comma_exprs(xs) + rest =~= s);
        if tail.len() > 0 {
            assert(r1 =~= seq![Token::Comma] + (render_expr(tail[0]) + render_comma_exprs(
                tail.drop_first(),
            ) + rest));
        } else {
            assert(r1 =~= rest);
        }
        lemma_cons(Token::Comma, s1);
        lemma_match_cons(Token::Comma, s1, Token::Comma);
        lemma_rendered_expr(xs[0], r1, Precedence::PLowest);
        lemma_render_expr_start(xs[0]);
        assert(spec_parse_comma_exprs(s) == Ok::<_, SpecError>((r1, xs[0])));
        lemma_rendered_comma_exprs(tail, rest);
        assert(seq![xs[0]] + tail =~= xs);
    }
}

/// A rendered hash entry reads back as itself before a token that ends
/// operands.
#[verifier::spinoff_prover]
proof fn lemma_rendered_pair(p: (Literal, SpecExpr), rest: Seq<Token>)
    requires
        rest.len() > 0,
        ends_operand(rest[0]),
    ensures
        spec_parse_hash_pair(render_pair(p) + rest) == Ok::<_, SpecError>((rest, p)),
        render_pair(p).len() > 0,
    decreases p, 1nat,
{
    let s2 = render_expr(p.1) + rest;
    let s1 = seq![Token::Colon] + s2;
    let s = seq![literal_token(p.0)] + s1;
    assert(render_pair(p) + rest =~= s);
    lemma_literal_token(p.0, s1);
    lemma_cons(Token::Colon, s2);
    lemma_match_cons(Token::Colon, s2, Token::Colon);
    lemma_rendered_expr(p.1, rest, Precedence::PLowest);
}

#[verifier::spinoff_prover]
proof fn lemma_rendered_pairs(ps: Seq<(Literal, SpecExpr)>, rest: Seq<Token>)
    requires
        ps.len() > 0,
        rest.len() > 0,
        ends_operand(rest[0]),
        !(rest[0] is Comma),
    ensures
        spec_parse_hash_pairs(render_pairs(ps) + rest) == Ok::<_, SpecError>((rest, ps)),
    decreases ps, 1nat,
{
    let tail = ps.drop_first();
    let r1 = render_comma_pairs(tail) + rest;
    assert(render_pairs(ps) + rest =~= render_pair(ps[0]) + r1);
    if tail.len() > 0 {
        assert(r1 =~= seq![Token::Comma] + (render_pair(tail[0]) + render_comma_pairs(
            tail.drop_first(),
        ) + rest));
    } else {
        assert(r1 =~= rest);
    }
    lemma_rendered_pair(ps[0], r1);
    lemma_rendered_comma_pairs(tail, rest);
    assert(seq![ps[0]] + tail =~= ps);
}

#[verifier::spinoff_prover]
proof fn lemma_rendered_comma_pairs(xs: Seq<(Literal, SpecExpr)>, rest: Seq<Token>)
    requires
        rest.len() > 0,
        ends_operand(rest[0]),
        !(rest[0] is Comma),
    ensures
        spec_many_hash_comma_exprs(render_comma_pairs(xs) + rest) == Ok::<_, SpecError>((rest, xs)),
    decreases xs, 1nat,
{
    if xs.len() == 0 {
        assert(render_comma_pairs(xs) + rest =~= rest);
        lemma_match_cons(rest[0], rest.skip(1), Token::Comma);
        assert(rest =~= seq![rest[0]] + rest.skip(1));
        assert(spec_parse_hash_comma_expr(rest) is Err);
        assert(xs =~= Seq::<(Literal, SpecExpr)>::empty());
    } else {
        let tail = xs.drop_first();
        let r1 = render_comma_pairs(tail) + rest;
        let s1 = render_pair(xs[0]) + r1;
        let s = seq![Token::Comma] + s1;
        assert(render_comma_pairs(xs) + rest =~= s);
        if tail.len() > 0 {
            assert(r1 =~= seq![Token::Comma] + (render_pair(tail[0]) + render_comma_pairs(
                tail.drop_first(),
            ) + rest));
        } else {
            assert(r1 =~= rest);
        }
        lemma_cons(Token::Comma, s1);
        lemma_match_cons(Token::Comma, s1, Token::Comma);
        lemma_rendered_pair(xs[0], r1);
        assert(spec_parse_hash_comma_expr(s) == Ok::<_, SpecError>((r1, xs[0])));
        lemma_rendered_comma_pairs(tail, rest);
        assert(seq![xs[0]] + tail =~= xs);
    }
}

/// A rendered non-empty parameter list reads back as itself before a token
/// that is not a comma.
#[verifier::spinoff_prover]
proof fn lemma_rendered_params(ps: Seq<Ident>, rest: Seq<Token>)
    requires
        ps.len() > 0,
        rest.len() > 0,
        !(rest[0] is Comma),
    ensures
        spec_parse_params(render_params(ps) + rest) == Ok::<_, SpecError>((rest, ps)),
{
    let tail = ps.drop_first();
    let r1 = render_comma_params(tail) + rest;
    let s = seq![Token::Ident(ps[0].0)] + r1;
    assert(render_params(ps) + rest =~= s);
    lemma_cons(Token::Ident(ps[0].0), r1);
    assert(spec_parse_ident(s) == Ok::<_, SpecError>((r1, ps[0])));
    lemma_rendered_comma_params(tail, rest);
    assert(seq![ps[0]] + tail =~= ps);
}

#[verifier::spinoff_prover]
proof fn lemma_rendered_comma_params(xs: Seq<Ident>, rest: Seq<Token>)
    requires
        rest.len() > 0,
        !(rest[0] is Comma),
    ensures
        spec_many_comma_idents(render_comma_params(xs) + rest) == Ok::<_, SpecError>((rest, xs)),
    decreases xs.len(),
{
    if xs.len() == 0 {
        assert(render_comma_params(xs) + rest =~= rest);
        lemma_match_cons(rest[0], rest.skip(1), Token::Comma);
        assert(rest =~= seq![rest[0]] + rest.skip(1));
        assert(spec_parse_comma_ident(rest) is Err);
        assert(xs =~= Seq::<Ident>::empty());
    } else {
        let tail = xs.drop_first();
        let r1 = render_comma_params(tail) + rest;
        let s1 = seq![Token::Ident(xs[0].0)] + r1;
        let s = seq![Token::Comma] + s1;
        assert(render_comma_params(xs) + rest =~= s);
        lemma_cons(Token::Comma, s1);
        lemma_cons(Token::Ident(xs[0].0), r1);
        lemma_match_cons(Token::Comma, s1, Token::Comma);
        assert(spec_parse_comma_ident(s) == Ok::<_, SpecError>((r1, xs[0])));
        lemma_rendered_comma_params(tail, rest);
        assert(seq![xs[0]] + tail =~= xs);
    }
}

/// A rendered block reads back as itself, whatever follows it.
#[verifier::spinoff_prover]
proof fn lemma_rendered_block(b: Seq<SpecStmt>, rest: Seq<Token>)
    ensures
        spec_parse_block_stmt(render_block(b) + rest) == Ok::<_, SpecError>((rest, b)),
        render_block(b).len() > 0,
    decreases b, 2nat,
{
    let r1 = seq![Token::RBrace] + rest;
    let s1 = render_stmts(b) + r1;
    let s = seq![Token::LBrace] + s1;
    assert(render_block(b) + rest =~= s);
    lemma_cons(Token::LBrace, s1);
    lemma_cons(Token::RBrace, rest);
    lemma_match_cons(Token::LBrace, s1, Token::LBrace);
    lemma_match_cons(Token::RBrace, rest, Token::RBrace);
    lemma_no_stmt(r1);
    lemma_rendered_stmts(b, r1);
}

/// Rendered statements read back as themselves before a token sequence on
/// which no statement reads.
#[verifier::spinoff_prover]
proof fn lemma_rendered_stmts(ss: Seq<SpecStmt>, rest: Seq<Token>)
    requires
        spec_parse_stmt(rest) is Err,
    ensures
        spec_many_stmts(render_stmts(ss) + rest) == Ok::<_, SpecError>((rest, ss)),
    decreases ss, 1nat,
{
    if ss.len() == 0 {
        assert(render_stmts(ss) + rest =~= rest);
        assert(ss =~= Seq::<SpecStmt>::empty());
    } else {
        let tail = ss.drop_first();
        let r1 = render_stmts(tail) + rest;
        assert(render_stmts(ss) + rest =~= render_stmt(ss[0]) + r1);
        lemma_rendered_stmt(ss[0], r1);
        lemma_rendered_stmts(tail, rest);
        assert(seq![ss[0]] + tail =~= ss);
    }
}

/// A rendered statement reads back as itself, whatever follows it.
#[verifier::spinoff_prover]
proof fn lemma_rendered_stmt(st: SpecStmt, rest: Seq<Token>)
    ensures
        spec_parse_stmt(render_stmt(st) + rest) == Ok::<_, SpecError>((rest, st)),
        render_stmt(st).len() > 0,
    decreases st, 1nat,
{
    match st {
        SpecStmt::LetStmt(Ident(name), e) => lemma_rendered_let(name, e, rest),
        SpecStmt::ReturnStmt(e) => lemma_rendered_return(e, rest),
        SpecStmt::ExprStmt(e) => lemma_rendered_expr_stmt(e, rest),
    }
}

#[verifier::spinoff_prover]
proof fn lemma_semicolon(rest: Seq<Token>)
    ensures
        spec_opt_token(seq![Token::SemiColon] + rest, Token::SemiColon) == rest,
        (seq![Token::SemiColon] + rest).len() > 0,
        ends_operand((seq![Token::SemiColon] + rest)[0]),
{
    lemma_cons(Token::SemiColon, rest);
    lemma_match_cons(Token::SemiColon, rest, Token::SemiColon);
}

#[verifier::spinoff_prover]
proof fn lemma_rendered_let(name: String, e: SpecExpr, rest: Seq<Token>)
    ensures
        spec_parse_stmt(render_stmt(SpecStmt::LetStmt(Ident(name), e)) + rest) == Ok::<_, SpecError>(
            (rest, SpecStmt::LetStmt(Ident(name), e)),
        ),
        render_stmt(SpecStmt::LetStmt(Ident(name), e)).len() > 0,
    decreases SpecStmt::LetStmt(Ident(name), e), 0nat,
{
    let st = SpecStmt::LetStmt(Ident(name), e);
    let semi = seq![Token::SemiColon] + rest;
    lemma_semicolon(rest);
    let s3 = render_expr(e) + semi;
    let s2 = seq![Token::Assign] + s3;
    let s1 = seq![Token::Ident(name)] + s2;
    let s = seq![Token::Let] + s1;
    assert(render_stmt(st) + rest =~= s);
    lemma_cons(Token::Let, s1);
    lemma_cons(Token::Ident(name), s2);
    lemma_cons(Token::Assign, s3);
    lemma_match_cons(Token::Let, s1, Token::Let);
    lemma_match_cons(Token::Assign, s3, Token::Assign);
    lemma_rendered_expr(e, semi, Precedence::PLowest);
    assert(spec_parse_ident(s1) == Ok::<_, SpecError>((s2, Ident(name))));
    assert(spec_parse_let_stmt(s) == Ok::<_, SpecError>((rest, st)));
}

#[verifier::spinoff_prover]
proof fn lemma_rendered_return(e: SpecExpr, rest: Seq<Token>)
    ensures
        spec_parse_stmt(render_stmt(SpecStmt::ReturnStmt(e)) + rest) == Ok::<_, SpecError>(
            (rest, SpecStmt::ReturnStmt(e)),
        ),
        render_stmt(SpecStmt::ReturnStmt(e)).len() > 0,
    decreases SpecStmt::ReturnStmt(e), 0nat,
{
    let st = SpecStmt::ReturnStmt(e);
    let semi = seq![Token::SemiColon] + rest;
    lemma_semicolon(rest);
    let s1 = render_expr(e) + semi;
    let s = seq![Token::Return] + s1;
    assert(render_stmt(st) + rest =~= s);
    lemma_cons(Token::Return, s1);
    lemma_match_cons(Token::Return, s1, Token::Let);
    lemma_match_cons(Token::Return, s1, Token::Return);
    lemma_rendered_expr(e, semi, Precedence::PLowest);
    assert(spec_parse_let_stmt(s) is Err);
    assert(spec_parse_return_stmt(s) == Ok::<_, SpecError>((rest, st)));
}

#[verifier::spinoff_prover]
proof fn lemma_rendered_expr_stmt(e: SpecExpr, rest: Seq<Token>)
    ensures
        spec_parse_stmt(render_stmt(SpecStmt::ExprStmt(e)) + rest) == Ok::<_, SpecError>(
            (rest, SpecStmt::ExprStmt(e)),
        ),
        render_stmt(SpecStmt::ExprStmt(e)).len() > 0,
    decreases SpecStmt::ExprStmt(e), 0nat,
{
    let st = SpecStmt::ExprStmt(e);
    let semi = seq![Token::SemiColon] + rest;
    lemma_semicolon(rest);
    let s = render_expr(e) + semi;
    assert(render_stmt(st) + rest =~= s);
    lemma_render_expr_start(e);
    let t = render_expr(e)[0];
    assert(s =~= seq![t] + s.skip(1));
    lemma_operand_not_keyword(t);
    lemma_match_cons(t, s.skip(1), Token::Let);
    lemma_match_cons(t, s.skip(1), Token::Return);
    lemma_rendered_expr(e, semi, Precedence::PLowest);
    assert(spec_parse_let_stmt(s) is Err);
    assert(spec_parse_return_stmt(s) is Err);
    assert(spec_parse_expr_stmt(s) == Ok::<_, SpecError>((rest, st)));
}

/// Reading back the fully parenthesised rendering of any program gives that
/// program, with nothing left over.
#[verifier::spinoff_prover]
pub proof fn law_render_then_parse(p: Seq<SpecStmt>)
    ensures
        spec_parse_program(render_program(p)) == Ok::<_, SpecError>((Seq::<Token>::empty(), p)),
{
    let eof = seq![Token::EOF];
    assert(render_program(p) =~= render_stmts(p) + eof);
    assert(eof =~= seq![Token::EOF] + Seq::<Token>::empty());
    lemma_cons(Token::EOF, Seq::<Token>::empty());
    lemma_match_cons(Token::EOF, Seq::<Token>::empty(), Token::EOF);
    lemma_no_stmt(eof);
    lemma_rendered_stmts(p, eof);
}

/// The binding power of an infix operator; a higher one binds tighter.
pub open spec fn binding_power(op: Infix) -> nat {
    prec_rank(spec_infix_op(infix_token(op)).0)
}

/// Of two infix operators in a row, the one that binds tighter takes the
/// middle operand; of two that bind equally, the left one takes it, so
/// operators of one binding power associate to the left.
#[verifier::spinoff_prover]
pub proof fn law_precedence_and_associativity(
    a: SpecExpr,
    op1: Infix,
    b: SpecExpr,
    op2: Infix,
    c: SpecExpr,
    rest: Seq<Token>,
)
    requires
        rest.len() > 0,
        ends_operand(rest[0]),
    ensures
        spec_parse_expr(
            render_expr(a) + (seq![infix_token(op1)] + (render_expr(b) + (seq![infix_token(op2)] + (
            render_expr(c) + rest)))),
        ) == Ok::<_, SpecError>(
            (
                rest,
                if binding_power(op1) >= binding_power(op2) {
                    SpecExpr::InfixExpr(
                        op2,
                        Box::new(SpecExpr::InfixExpr(op1, Box::new(a), Box::new(b))),
                        Box::new(c),
                    )
                } else {
                    SpecExpr::InfixExpr(
                        op1,
                        Box::new(a),
                        Box::new(SpecExpr::InfixExpr(op2, Box::new(b), Box::new(c))),
                    )
                },
            ),
        ),
{
    let o1 = infix_token(op1);
    let o2 = infix_token(op2);
    let p1 = spec_infix_op(o1).0;
    let p2 = spec_infix_op(o2).0;
    let s3 = render_expr(c) + rest;
    let t2 = seq![o2] + s3;
    let s2 = render_expr(b) + t2;
    let t1 = seq![o1] + s2;
    let s = render_expr(a) + t1;
    lemma_infix_token(op1);
    lemma_infix_token(op2);
    lemma_cons(o1, s2);
    lemma_cons(o2, s3);
    lemma_render_expr_start(a);
    lemma_render_expr_start(b);
    lemma_render_expr_start(c);
    lemma_rendered_atom(a, t1);
    lemma_rendered_atom(b, t2);
    lemma_rendered_expr(c, rest, p2);
    let ab = SpecExpr::InfixExpr(op1, Box::new(a), Box::new(b));
    if prec_rank(p1) >= prec_rank(p2) {
        let abc = SpecExpr::InfixExpr(op2, Box::new(ab), Box::new(c));
        assert(spec_go_parse_pratt_expr(t2, p1, b) == Ok::<_, SpecError>((t2, b)));
        assert(spec_parse_pratt_expr(s2, p1) == Ok::<_, SpecError>((t2, b)));
        assert(spec_parse_infix_expr(t1, a) == Ok::<_, SpecError>((t2, ab)));
        assert(spec_parse_infix_expr(t2, ab) == Ok::<_, SpecError>((rest, abc)));
        assert(spec_go_parse_pratt_expr(rest, Precedence::PLowest, abc) == Ok::<_, SpecError>((rest, abc)));
        assert(spec_go_parse_pratt_expr(t2, Precedence::PLowest, ab) == Ok::<_, SpecError>((rest, abc)));
        assert(spec_go_parse_pratt_expr(t1, Precedence::PLowest, a) == Ok::<_, SpecError>((rest, abc)));
    } else {
        let bc = SpecExpr::InfixExpr(op2, Box::new(b), Box::new(c));
        let abc = SpecExpr::InfixExpr(op1, Box::new(a), Box::new(bc));
        assert(spec_parse_infix_expr(t2, b) == Ok::<_, SpecError>((rest, bc)));
        assert(spec_go_parse_pratt_expr(rest, p1, bc) == Ok::<_, SpecError>((rest, bc)));
        assert(spec_go_parse_pratt_expr(t2, p1, b) == Ok::<_, SpecError>((rest, bc)));
        assert(spec_parse_pratt_expr(s2, p1) == Ok::<_, SpecError>((rest, bc)));
        assert(spec_parse_infix_expr(t1, a) == Ok::<_, SpecError>((rest, abc)));
        assert(spec_go_parse_pratt_expr(rest, Precedence::PLowest, abc) == Ok::<_, SpecError>((rest, abc)));
        assert(spec_go_parse_pratt_expr(t1, Precedence::PLowest, a) == Ok::<_, SpecError>((rest, abc)));
    }
    assert(spec_parse_pratt_expr(s, Precedence::PLowest) == spec_go_parse_pratt_expr(
        t1,
        Precedence::PLowest,
        a,
    ));
}

/// A prefix operator binds tighter than any infix operator: it takes only
/// the operand right after it.
#[verifier::spinoff_prover]
pub proof fn law_prefix_binds_tighter(
    pre: Prefix,
    x: SpecExpr,
    op: Infix,
    y: SpecExpr,
    rest: Seq<Token>,
)
    requires
        rest.len() > 0,
        ends_operand(rest[0]),
    ensures
        spec_parse_expr(
            seq![prefix_token(pre)] + (render_expr(x) + (seq![infix_token(op)] + (render_expr(y)
                + rest))),
        ) == Ok::<_, SpecError>(
            (
                rest,
                SpecExpr::InfixExpr(
                    op,
                    Box::new(SpecExpr::PrefixExpr(pre, Box::new(x))),
                    Box::new(y),
                ),
            ),
        ),
{
    let px = SpecExpr::PrefixExpr(pre, Box::new(x));
    let o = infix_token(op);
    let t1 = seq![o] + (render_expr(y) + rest);
    assert(render_expr(px) + t1 =~= seq![prefix_token(pre)] + (render_expr(x) + t1));
    lemma_infix_token(op);
    lemma_cons(o, render_expr(y) + rest);
    lemma_render_expr_start(px);
    lemma_render_expr_start(y);
    lemma_rendered_atom(px, t1);
    lemma_rendered_expr(y, rest, spec_infix_op(o).0);
    let e = SpecExpr::InfixExpr(op, Box::new(px), Box::new(y));
    assert(spec_parse_infix_expr(t1, px) == Ok::<_, SpecError>((rest, e)));
    assert(spec_go_parse_pratt_expr(rest, Precedence::PLowest, e) == Ok::<_, SpecError>((rest, e)));
    assert(spec_go_parse_pratt_expr(t1, Precedence::PLowest, px) == Ok::<_, SpecError>((rest, e)));
    assert(spec_parse_pratt_expr(render_expr(px) + t1, Precedence::PLowest) == Ok::<_, SpecError>((rest, e)));
}

/// Indexing binds tighter than any infix operator: it applies to the operand
/// right before it.
#[verifier::spinoff_prover]
pub proof fn law_index_binds_tighter(
    a: SpecExpr,
    op: Infix,
    b: SpecExpr,
    i: SpecExpr,
    rest: Seq<Token>,
)
    requires
        rest.len() > 0,
        ends_operand(rest[0]),
    ensures
        spec_parse_expr(
            render_expr(a) + (seq![infix_token(op)] + (render_expr(b) + (seq![Token::LBracket] + (
            render_expr(i) + (seq![Token::RBracket] + rest))))),
        ) == Ok::<_, SpecError>(
            (
                rest,
                SpecExpr::InfixExpr(
                    op,
                    Box::new(a),
                    Box::new((SpecExpr::IndexExpr { array: Box::new(b), index: Box::new(i) })),
                ),
            ),
        ),
{
    let o = infix_token(op);
    let p = spec_infix_op(o).0;
    let r1 = seq![Token::RBracket] + rest;
    let v1 = seq![Token::LBracket] + (render_expr(i) + r1);
    let s2 = render_expr(b) + v1;
    let t1 = seq![o] + s2;
    let s = render_expr(a) + t1;
    lemma_infix_token(op);
    lemma_cons(o, s2);
    lemma_cons(Token::LBracket, render_expr(i) + r1);
    lemma_cons(Token::RBracket, rest);
    lemma_match_cons(Token::LBracket, render_expr(i) + r1, Token::LBracket);
    lemma_match_cons(Token::RBracket, rest, Token::RBracket);
    lemma_render_expr_start(a);
    lemma_render_expr_start(b);
    lemma_rendered_atom(a, t1);
    lemma_rendered_atom(b, v1);
    lemma_rendered_expr(i, r1, Precedence::PLowest);
    let bi = SpecExpr::IndexExpr { array: Box::new(b), index: Box::new(i) };
    let e = SpecExpr::InfixExpr(op, Box::new(a), Box::new(bi));
    assert(spec_parse_index_expr(v1, b) == Ok::<_, SpecError>((rest, bi)));
    assert(spec_go_parse_pratt_expr(rest, p, bi) == Ok::<_, SpecError>((rest, bi)));
    assert(spec_go_parse_pratt_expr(v1, p, b) == Ok::<_, SpecError>((rest, bi)));
    assert(spec_parse_pratt_expr(s2, p) == Ok::<_, SpecError>((rest, bi)));
    assert(spec_parse_infix_expr(t1, a) == Ok::<_, SpecError>((rest, e)));
    assert(spec_go_parse_pratt_expr(rest, Precedence::PLowest, e) == Ok::<_, SpecError>((rest, e)));
    assert(spec_go_parse_pratt_expr(t1, Precedence::PLowest, a) == Ok::<_, SpecError>((rest, e)));
    assert(spec_parse_pratt_expr(s, Precedence::PLowest) == Ok::<_, SpecError>((rest, e)));
}

/// A call binds tighter than any infix operator: it applies to the operand
/// right before it.
#[verifier::spinoff_prover]
pub proof fn law_call_binds_tighter(
    a: SpecExpr,
    op: Infix,
    f: SpecExpr,
    args: Seq<SpecExpr>,
    rest: Seq<Token>,
)
    requires
        rest.len() > 0,
        ends_operand(rest[0]),
    ensures
        spec_parse_expr(
            render_expr(a) + (seq![infix_token(op)] + (render_expr(f) + (seq![Token::LParen] + (
            render_exprs(args) + (seq![Token::RParen] + rest))))),
        ) == Ok::<_, SpecError>(
            (
                rest,
                SpecExpr::InfixExpr(
                    op,
                    Box::new(a),
                    Box::new((SpecExpr::CallExpr { function: Box::new(f), arguments: args })),
                ),
            ),
        ),
{
    let o = infix_token(op);
    let p = spec_infix_op(o).0;
    let r1 = seq![Token::RParen] + rest;
    let u2 = render_exprs(args) + r1;
    let u1 = seq![Token::LParen] + u2;
    let s2 = render_expr(f) + u1;
    let t1 = seq![o] + s2;
    let s = render_expr(a) + t1;
    lemma_infix_token(op);
    lemma_cons(o, s2);
    lemma_cons(Token::LParen, u2);
    lemma_cons(Token::RParen, rest);
    lemma_match_cons(Token::LParen, u2, Token::LParen);
    lemma_match_cons(Token::RParen, rest, Token::RParen);
    lemma_render_expr_start(a);
    lemma_render_expr_start(f);
    lemma_rendered_atom(a, t1);
    lemma_rendered_atom(f, u1);
    if args.len() == 0 {
        assert(u2 =~= r1);
        lemma_no_operand(r1, Precedence::PLowest);
        assert(args =~= Seq::<SpecExpr>::empty());
    } else {
        lemma_rendered_exprs(args, r1);
    }
    let fa = SpecExpr::CallExpr { function: Box::new(f), arguments: args };
    let e = SpecExpr::InfixExpr(op, Box::new(a), Box::new(fa));
    assert(spec_parse_call_expr(u1, f) == Ok::<_, SpecError>((rest, fa)));
    assert(spec_go_parse_pratt_expr(rest, p, fa) == Ok::<_, SpecError>((rest, fa)));
    assert(spec_go_parse_pratt_expr(u1, p, f) == Ok::<_, SpecError>((rest, fa)));
    assert(spec_parse_pratt_expr(s2, p) == Ok::<_, SpecError>((rest, fa)));
    assert(spec_parse_infix_expr(t1, a) == Ok::<_, SpecError>((rest, e)));
    assert(spec_go_parse_pratt_expr(rest, Precedence::PLowest, e) == Ok::<_, SpecError>((rest, e)));
    assert(spec_go_parse_pratt_expr(t1, Precedence::PLowest, a) == Ok::<_, SpecError>((rest, e)));
    assert(spec_parse_pratt_expr(s, Precedence::PLowest) == Ok::<_, SpecError>((rest, e)));
}

/// Parentheses around an expression change nothing of what it reads as.
#[verifier::spinoff_prover]
pub proof fn law_parentheses_are_transparent(e: SpecExpr, rest: Seq<Token>)
    requires
        rest.len() > 0,
        ends_operand(rest[0]),
    ensures
        spec_parse_expr(seq![Token::LParen] + (render_expr(e) + (seq![Token::RParen] + rest)))
            == spec_parse_expr(render_expr(e) + rest),
        spec_parse_expr(render_expr(e) + rest) == Ok::<_, SpecError>((rest, e)),
{
    let r1 = seq![Token::RParen] + rest;
    let s1 = render_expr(e) + r1;
    let s = seq![Token::LParen] + s1;
    lemma_cons(Token::LParen, s1);
    lemma_cons(Token::RParen, rest);
    lemma_match_cons(Token::LParen, s1, Token::LParen);
    lemma_match_cons(Token::RParen, rest, Token::RParen);
    lemma_rendered_expr(e, r1, Precedence::PLowest);
    lemma_rendered_expr(e, rest, Precedence::PLowest);
    assert(spec_parse_paren_expr(s) == Ok::<_, SpecError>((rest, e)));
    assert(spec_parse_literal(s) is Err);
    assert(spec_parse_ident(s) is Err);
    assert(spec_parse_prefix_expr(s) is Err);
    assert(spec_parse_atom_expr(s) == Ok::<_, SpecError>((rest, e)));
    assert(spec_go_parse_pratt_expr(rest, Precedence::PLowest, e) == Ok::<_, SpecError>((rest, e)));
    assert(spec_parse_pratt_expr(s, Precedence::PLowest) == Ok::<_, SpecError>((rest, e)));
}

/// An expression read up to a closing parenthesis reads as the same
/// expression inside parentheses, whatever tokens make it up: as an operand,
/// the parenthesised form is that expression, and at any binding power the
/// reading goes on after the `)` as it would after the expression itself
/// (stated where what is left is no longer than the expression's tokens, as
/// it always is: a rule leaves a tail of its input).
#[verifier::spinoff_prover]
pub proof fn law_parenthesised_expression(s: Seq<Token>, e: SpecExpr, rest: Seq<Token>, prec: Precedence)
    requires
        spec_parse_expr(s) == Ok::<_, SpecError>((seq![Token::RParen] + rest, e)),
    ensures
        spec_parse_atom_expr(seq![Token::LParen] + s) == Ok::<_, SpecError>((rest, e)),
        rest.len() <= s.len() ==> spec_parse_pratt_expr(seq![Token::LParen] + s, prec)
            == spec_go_parse_pratt_expr(rest, prec, e),
{
    let t = seq![Token::LParen] + s;
    lemma_cons(Token::LParen, s);
    lemma_cons(Token::RParen, rest);
    lemma_match_cons(Token::LParen, s, Token::LParen);
    lemma_match_cons(Token::RParen, rest, Token::RParen);
    assert(spec_parse_paren_expr(t) == Ok::<_, SpecError>((rest, e)));
    assert(spec_parse_literal(t) is Err);
    assert(spec_parse_ident(t) is Err);
    assert(spec_parse_prefix_expr(t) is Err);
    assert(spec_parse_atom_expr(t) == Ok::<_, SpecError>((rest, e)));
}

/// A program that is one expression in parentheses reads as that expression
/// alone, whatever tokens make it up, when they read as that expression up to
/// the closing parenthesis.
#[verifier::spinoff_prover]
pub proof fn law_parenthesised_program(body: Seq<Token>, e: SpecExpr)
    requires
        spec_parse_expr(body + seq![Token::RParen, Token::EOF]) == Ok::<_, SpecError>(
            (seq![Token::RParen, Token::EOF], e),
        ),
    ensures
        spec_parse_program(seq![Token::LParen] + body + seq![Token::RParen, Token::EOF])
            == Ok::<_, SpecError>((Seq::<Token>::empty(), seq![SpecStmt::ExprStmt(e)])),
{
    let empty = Seq::<Token>::empty();
    let eof = seq![Token::EOF];
    let s = body + seq![Token::RParen, Token::EOF];
    let t = seq![Token::LParen] + s;
    assert(seq![Token::LParen] + body + seq![Token::RParen, Token::EOF] =~= t);
    assert(seq![Token::RParen, Token::EOF] =~= seq![Token::RParen] + eof);
    assert(eof =~= seq![Token::EOF] + empty);
    lemma_cons(Token::EOF, empty);
    lemma_cons(Token::LParen, s);
    law_parenthesised_expression(s, e, eof, Precedence::PLowest);
    assert(spec_go_parse_pratt_expr(eof, Precedence::PLowest, e) == Ok::<_, SpecError>((eof, e)));
    assert(spec_parse_expr(t) == Ok::<_, SpecError>((eof, e)));
    lemma_match_cons(Token::LParen, s, Token::Let);
    lemma_match_cons(Token::LParen, s, Token::Return);
    lemma_match_cons(Token::EOF, empty, Token::SemiColon);
    lemma_match_cons(Token::EOF, empty, Token::EOF);
    assert(spec_parse_let_stmt(t) is Err);
    assert(spec_parse_return_stmt(t) is Err);
    assert(spec_opt_token(eof, Token::SemiColon) == eof);
    assert(spec_parse_stmt(t) == Ok::<_, SpecError>((eof, SpecStmt::ExprStmt(e))));
    lemma_no_stmt(eof);
    assert(spec_many_stmts(eof) == Ok::<_, SpecError>((eof, Seq::<SpecStmt>::empty())));
    assert(seq![SpecStmt::ExprStmt(e)] + Seq::<SpecStmt>::empty() =~= seq![SpecStmt::ExprStmt(e)]);
    assert(spec_many_stmts(t) == Ok::<_, SpecError>((eof, seq![SpecStmt::ExprStmt(e)])));
}

/// The rendering of two programs' statements one after the other is the
/// rendering of their statements joined.
#[verifier::spinoff_prover]
proof fn lemma_render_stmts_concat(pa: Seq<SpecStmt>, pb: Seq<SpecStmt>)
    ensures
        render_stmts(pa + pb) == render_stmts(pa) + render_stmts(pb),
    decreases pa.len(),
{
    if pa.len() == 0 {
        assert(pa + pb =~= pb);
        assert(render_stmts(pa) + render_stmts(pb) =~= render_stmts(pb));
    } else {
        lemma_render_stmts_concat(pa.drop_first(), pb);
        assert((pa + pb).drop_first() =~= pa.drop_first() + pb);
        assert((pa + pb)[0] == pa[0]);
        assert(render_stmts(pa + pb) =~= render_stmt(pa[0]) + render_stmts(pa.drop_first() + pb));
        assert(render_stmts(pa) + render_stmts(pb) =~= render_stmt(pa[0]) + (render_stmts(
            pa.drop_first(),
        ) + render_stmts(pb)));
    }
}

/// Two rendered programs whose statements are written one after the other,
/// the first one's last statement closed by its semicolon, read as the two
/// programs' statements joined, in order.
#[verifier::spinoff_prover]
pub proof fn law_joined_programs(pa: Seq<SpecStmt>, pb: Seq<SpecStmt>)
    ensures
        spec_parse_program(render_stmts(pa) + render_program(pb)) == Ok::<_, SpecError>(
            (Seq::<Token>::empty(), pa + pb),
        ),
        spec_parse_program(render_program(pa)) == Ok::<_, SpecError>((Seq::<Token>::empty(), pa)),
        spec_parse_program(render_program(pb)) == Ok::<_, SpecError>((Seq::<Token>::empty(), pb)),
{
    lemma_render_stmts_concat(pa, pb);
    assert(render_stmts(pa) + render_program(pb) =~= render_program(pa + pb));
    law_render_then_parse(pa + pb);
    law_render_then_parse(pa);
    law_render_then_parse(pb);
}

/// The binding powers of the tokens that may follow an operand, from the
/// weakest: a token that is no such operator, then `==` and `!=`, then the
/// comparisons, then `+` and `-`, then `*` and `/`, then the `(` of a call,
/// then the `[` of an index. The ranks follow the order of the levels.
#[verifier::spinoff_prover]
pub proof fn law_binding_order(t: Token)
    ensures
        prec_rank(spec_infix_op(t).0) == (if t is Equal || t is NotEqual {
            1nat
        } else if t is LessThan || t is GreaterThan || t is LessThanEqual || t is GreaterThanEqual {
            2nat
        } else if t is Plus || t is Minus {
            3nat
        } else if t is Multiply || t is Divide {
            4nat
        } else if t is LParen {
            5nat
        } else if t is LBracket {
            6nat
        } else {
            0nat
        }),
        prec_rank(Precedence::PLowest) < prec_rank(Precedence::PEquals),
        prec_rank(Precedence::PEquals) < prec_rank(Precedence::PLessGreater),
        prec_rank(Precedence::PLessGreater) < prec_rank(Precedence::PSum),
        prec_rank(Precedence::PSum) < prec_rank(Precedence::PProduct),
        prec_rank(Precedence::PProduct) < prec_rank(Precedence::PCall),
        prec_rank(Precedence::PCall) < prec_rank(Precedence::PIndex),
        spec_infix_op(t).1 is Some <==> 1 <= prec_rank(spec_infix_op(t).0) <= 4,
{
}

/// A statement without its closing semicolon.
pub open spec fn render_stmt_unterminated(st: SpecStmt) -> Seq<Token> {
    match st {
        SpecStmt::LetStmt(Ident(name), e) => seq![Token::Let, Token::Ident(name), Token::Assign]
            + render_expr(e),
        SpecStmt::ReturnStmt(e) => seq![Token::Return] + render_expr(e),
        SpecStmt::ExprStmt(e) => render_expr(e),
    }
}

/// The semicolon that closes a statement may be left out when the next token
/// cannot continue the statement; it reads the same either way.
#[verifier::spinoff_prover]
pub proof fn law_semicolon_is_optional(st: SpecStmt, rest: Seq<Token>)
    requires
        rest.len() > 0,
        ends_operand(rest[0]),
        !(rest[0] is SemiColon),
    ensures
        spec_parse_stmt(render_stmt_unterminated(st) + rest) == Ok::<_, SpecError>((rest, st)),
        spec_parse_stmt(render_stmt_unterminated(st) + (seq![Token::SemiColon] + rest)) == Ok::<_, SpecError>(
            (rest, st),
        ),
{
    assert(render_stmt_unterminated(st) + (seq![Token::SemiColon] + rest) =~= render_stmt(st)
        + rest);
    lemma_rendered_stmt(st, rest);
    lemma_match_cons(rest[0], rest.skip(1), Token::SemiColon);
    assert(rest =~= seq![rest[0]] + rest.skip(1));
    assert(spec_opt_token(rest, Token::SemiColon) == rest);
    match st {
        SpecStmt::LetStmt(Ident(name), e) => lemma_unterminated_let(name, e, rest),
        SpecStmt::ReturnStmt(e) => lemma_unterminated_return(e, rest),
        SpecStmt::ExprStmt(e) => lemma_unterminated_expr_stmt(e, rest),
    }
}

#[verifier::spinoff_prover]
proof fn lemma_unterminated_let(name: String, e: SpecExpr, rest: Seq<Token>)
    requires
        rest.len() > 0,
        ends_operand(rest[0]),
        spec_opt_token(rest, Token::SemiColon) == rest,
    ensures
        spec_parse_stmt(render_stmt_unterminated(SpecStmt::LetStmt(Ident(name), e)) + rest)
            == Ok::<_, SpecError>((rest, SpecStmt::LetStmt(Ident(name), e))),
{
    let st = SpecStmt::LetStmt(Ident(name), e);
    let s3 = render_expr(e) + rest;
    let s2 = seq![Token::Assign] + s3;
    let s1 = seq![Token::Ident(name)] + s2;
    let s = seq![Token::Let] + s1;
    assert(render_stmt_unterminated(st) + rest =~= s);
    lemma_cons(Token::Let, s1);
    lemma_cons(Token::Ident(name), s2);
    lemma_cons(Token::Assign, s3);
    lemma_match_cons(Token::Let, s1, Token::Let);
    lemma_match_cons(Token::Assign, s3, Token::Assign);
    lemma_rendered_expr(e, rest, Precedence::PLowest);
    assert(spec_parse_ident(s1) == Ok::<_, SpecError>((s2, Ident(name))));
    assert(spec_parse_let_stmt(s) == Ok::<_, SpecError>((rest, st)));
}

#[verifier::spinoff_prover]
proof fn lemma_unterminated_return(e: SpecExpr, rest: Seq<Token>)
    requires
        rest.len() > 0,
        ends_operand(rest[0]),
        spec_opt_token(rest, Token::SemiColon) == rest,
    ensures
        spec_parse_stmt(render_stmt_unterminated(SpecStmt::ReturnStmt(e)) + rest) == Ok::<_, SpecError>(
            (rest, SpecStmt::ReturnStmt(e)),
        ),
{
    let st = SpecStmt::ReturnStmt(e);
    let s1 = render_expr(e) + rest;
    let s = seq![Token::Return] + s1;
    assert(render_stmt_unterminated(st) + rest =~= s);
    lemma_cons(Token::Return, s1);
    lemma_match_cons(Token::Return, s1, Token::Let);
    lemma_match_cons(Token::Return, s1, Token::Return);
    lemma_rendered_expr(e, rest, Precedence::PLowest);
    assert(spec_match_token(s, Token::Let) is Err);
    assert(spec_parse_let_stmt(s) is Err);
    assert(spec_match_token(s, Token::Return) == Ok::<_, SpecError>(s1));
    assert(spec_parse_expr(s1) == Ok::<_, SpecError>((rest, e)));
    assert(spec_parse_return_stmt(s) == Ok::<_, SpecError>((rest, st)));
}

#[verifier::spinoff_prover]
proof fn lemma_unterminated_expr_stmt(e: SpecExpr, rest: Seq<Token>)
    requires
        rest.len() > 0,
        ends_operand(rest[0]),
        spec_opt_token(rest, Token::SemiColon) == rest,
    ensures
        spec_parse_stmt(render_stmt_unterminated(SpecStmt::ExprStmt(e)) + rest) == Ok::<_, SpecError>(
            (rest, SpecStmt::ExprStmt(e)),
        ),
{
    let st = SpecStmt::ExprStmt(e);
    let s = render_expr(e) + rest;
    assert(render_stmt_unterminated(st) + rest == s);
    lemma_render_expr_start(e);
    let t = render_expr(e)[0];
    assert(s =~= seq![t] + s.skip(1));
    lemma_operand_not_keyword(t);
    lemma_match_cons(t, s.skip(1), Token::Let);
    lemma_match_cons(t, s.skip(1), Token::Return);
    lemma_rendered_expr(e, rest, Precedence::PLowest);
    assert(spec_parse_let_stmt(s) is Err);
    assert(spec_parse_return_stmt(s) is Err);
    assert(spec_parse_expr_stmt(s) == Ok::<_, SpecError>((rest, st)));
}


/// The tokens of `a op b` without parentheses around them.
pub open spec fn bare_infix(a: SpecExpr, op: Infix, b: SpecExpr) -> Seq<Token> {
    render_expr(a) + (seq![infix_token(op)] + render_expr(b))
}

/// The expression `a op b`.
pub open spec fn infix_of(a: SpecExpr, op: Infix, b: SpecExpr) -> SpecExpr {
    SpecExpr::InfixExpr(op, Box::new(a), Box::new(b))
}

/// Unparenthesised `a op b`, read at a binding power weaker than `op`'s,
/// reads as a whole before a token that ends operands.
#[verifier::spinoff_prover]
proof fn lemma_bare_infix(a: SpecExpr, op: Infix, b: SpecExpr, rest: Seq<Token>, prec: Precedence)
    requires
        rest.len() > 0,
        ends_operand(rest[0]),
        prec_rank(prec) < binding_power(op),
    ensures
        spec_parse_pratt_expr(bare_infix(a, op, b) + rest, prec) == Ok::<_, SpecError>(
            (rest, infix_of(a, op, b)),
        ),
        bare_infix(a, op, b).len() > 0,
        starts_operand(bare_infix(a, op, b)[0]),
{
    let o = infix_token(op);
    let s2 = render_expr(b) + rest;
    let t1 = seq![o] + s2;
    let s = render_expr(a) + t1;
    assert(bare_infix(a, op, b) + rest =~= s);
    lemma_infix_token(op);
    lemma_cons(o, s2);
    lemma_render_expr_start(a);
    lemma_render_expr_start(b);
    lemma_rendered_atom(a, t1);
    lemma_rendered_expr(b, rest, spec_infix_op(o).0);
    let ab = infix_of(a, op, b);
    assert(spec_parse_infix_expr(t1, a) == Ok::<_, SpecError>((rest, ab)));
    assert(spec_go_parse_pratt_expr(rest, prec, ab) == Ok::<_, SpecError>((rest, ab)));
    assert(spec_go_parse_pratt_expr(t1, prec, a) == Ok::<_, SpecError>((rest, ab)));
    assert(spec_parse_pratt_expr(s, prec) == Ok::<_, SpecError>((rest, ab)));
    assert(bare_infix(a, op, b)[0] == render_expr(a)[0]);
}

/// An expression is read at the weakest binding power: an unparenthesised
/// `a op b`, whatever the operator, reads as a whole before a token that
/// ends operands.
#[verifier::spinoff_prover]
pub proof fn law_expression_reads_whole_infix(a: SpecExpr, op: Infix, b: SpecExpr, rest: Seq<Token>)
    requires
        rest.len() > 0,
        ends_operand(rest[0]),
    ensures
        spec_parse_expr(bare_infix(a, op, b) + rest) == Ok::<_, SpecError>((rest, infix_of(a, op, b))),
{
    lemma_infix_token(op);
    lemma_bare_infix(a, op, b, rest, Precedence::PLowest);
}

/// The value of a `let` statement is a whole expression: `let n = a op b`
/// reads `a op b`, whatever the operator, and then an optional semicolon.
#[verifier::spinoff_prover]
pub proof fn law_let_value_is_whole_expression(
    name: String,
    a: SpecExpr,
    op: Infix,
    b: SpecExpr,
    rest: Seq<Token>,
)
    requires
        rest.len() > 0,
        ends_operand(rest[0]),
    ensures
        spec_parse_stmt(seq![Token::Let, Token::Ident(name), Token::Assign] + (bare_infix(a, op, b) + rest))
            == Ok::<_, SpecError>(
            (
                spec_opt_token(rest, Token::SemiColon),
                SpecStmt::LetStmt(Ident(name), infix_of(a, op, b)),
            ),
        ),
{
    lemma_infix_token(op);
    let s3 = bare_infix(a, op, b) + rest;
    let s2 = seq![Token::Assign] + s3;
    let s1 = seq![Token::Ident(name)] + s2;
    let s = seq![Token::Let] + s1;
    assert(seq![Token::Let, Token::Ident(name), Token::Assign] + s3 =~= s);
    lemma_cons(Token::Let, s1);
    lemma_cons(Token::Ident(name), s2);
    lemma_cons(Token::Assign, s3);
    lemma_match_cons(Token::Let, s1, Token::Let);
    lemma_match_cons(Token::Assign, s3, Token::Assign);
    lemma_bare_infix(a, op, b, rest, Precedence::PLowest);
    assert(spec_parse_ident(s1) == Ok::<_, SpecError>((s2, Ident(name))));
    assert(spec_parse_let_stmt(s) == Ok::<_, SpecError>(
        (spec_opt_token(rest, Token::SemiColon), SpecStmt::LetStmt(Ident(name), infix_of(a, op, b))),
    ));
}

/// A `let` statement reads its value exactly as an expression is read: for
/// any tokens, `let n = ...` reads the expression those tokens read.
#[verifier::spinoff_prover]
pub proof fn law_let_value_reads_as_expression(name: String, s: Seq<Token>)
    ensures
        spec_parse_expr(s) matches Ok((r, e)) ==> spec_parse_stmt(
            seq![Token::Let, Token::Ident(name), Token::Assign] + s,
        ) == Ok::<_, SpecError>(
            (spec_opt_token(r, Token::SemiColon), SpecStmt::LetStmt(Ident(name), e)),
        ),
{
    let s2 = seq![Token::Assign] + s;
    let s1 = seq![Token::Ident(name)] + s2;
    let t = seq![Token::Let] + s1;
    assert(seq![Token::Let, Token::Ident(name), Token::Assign] + s =~= t);
    lemma_cons(Token::Let, s1);
    lemma_cons(Token::Ident(name), s2);
    lemma_cons(Token::Assign, s);
    lemma_match_cons(Token::Let, s1, Token::Let);
    lemma_match_cons(Token::Assign, s, Token::Assign);
    assert(spec_parse_ident(s1) == Ok::<_, SpecError>((s2, Ident(name))));
}

/// The value of a `return` statement is a whole expression: `return a op b`
/// reads `a op b`, whatever the operator, and then an optional semicolon.
#[verifier::spinoff_prover]
pub proof fn law_return_value_is_whole_expression(a: SpecExpr, op: Infix, b: SpecExpr, rest: Seq<Token>)
    requires
        rest.len() > 0,
        ends_operand(rest[0]),
    ensures
        spec_parse_stmt(seq![Token::Return] + (bare_infix(a, op, b) + rest)) == Ok::<_, SpecError>(
            (spec_opt_token(rest, Token::SemiColon), SpecStmt::ReturnStmt(infix_of(a, op, b))),
        ),
{
    lemma_infix_token(op);
    law_return_value_reads_as_expression(bare_infix(a, op, b) + rest);
    lemma_bare_infix(a, op, b, rest, Precedence::PLowest);
}

/// A `return` statement reads its value exactly as an expression is read.
#[verifier::spinoff_prover]
pub proof fn law_return_value_reads_as_expression(s: Seq<Token>)
    ensures
        spec_parse_expr(s) matches Ok((r, e)) ==> spec_parse_stmt(seq![Token::Return] + s)
            == Ok::<_, SpecError>((spec_opt_token(r, Token::SemiColon), SpecStmt::ReturnStmt(e))),
{
    let t = seq![Token::Return] + s;
    lemma_cons(Token::Return, s);
    lemma_match_cons(Token::Return, s, Token::Let);
    lemma_match_cons(Token::Return, s, Token::Return);
    assert(spec_parse_let_stmt(t) is Err);
}

/// An expression statement is a whole expression: `a op b` reads as one
/// statement, whatever the operator, and then an optional semicolon.
#[verifier::spinoff_prover]
pub proof fn law_expression_statement_is_whole(a: SpecExpr, op: Infix, b: SpecExpr, rest: Seq<Token>)
    requires
        rest.len() > 0,
        ends_operand(rest[0]),
    ensures
        spec_parse_stmt(bare_infix(a, op, b) + rest) == Ok::<_, SpecError>(
            (spec_opt_token(rest, Token::SemiColon), SpecStmt::ExprStmt(infix_of(a, op, b))),
        ),
{
    lemma_infix_token(op);
    lemma_bare_infix(a, op, b, rest, Precedence::PLowest);
    let s = bare_infix(a, op, b) + rest;
    let t = s[0];
    assert(s =~= seq![t] + s.skip(1));
    lemma_operand_not_keyword(t);
    lemma_match_cons(t, s.skip(1), Token::Let);
    lemma_match_cons(t, s.skip(1), Token::Return);
    assert(spec_parse_let_stmt(s) is Err);
    assert(spec_parse_return_stmt(s) is Err);
}

/// The condition of an `if` is a whole expression: `if (a op b) { .. }`
/// reads `a op b` as the condition, whatever the operator.
#[verifier::spinoff_prover]
#[verifier::rlimit(30)]
pub proof fn law_if_condition_is_whole_expression(
    a: SpecExpr,
    op: Infix,
    b: SpecExpr,
    consequence: Seq<SpecStmt>,
    rest: Seq<Token>,
)
    requires
        rest.len() == 0 || !(rest[0] is Else),
    ensures
        spec_parse_if_expr(
            seq![Token::If, Token::LParen] + (bare_infix(a, op, b) + (seq![Token::RParen] + (
            render_block(consequence) + rest))),
        ) == Ok::<_, SpecError>(
            (
                rest,
                SpecExpr::IfExpr {
                    cond: Box::new(infix_of(a, op, b)),
                    consequence,
                    alternative: None,
                },
            ),
        ),
{
    lemma_infix_token(op);
    let r2 = render_block(consequence) + rest;
    let r1 = seq![Token::RParen] + r2;
    let s2 = bare_infix(a, op, b) + r1;
    let s1 = seq![Token::LParen] + s2;
    let s = seq![Token::If] + s1;
    assert(seq![Token::If, Token::LParen] + s2 =~= s);
    lemma_cons(Token::If, s1);
    lemma_cons(Token::LParen, s2);
    lemma_cons(Token::RParen, r2);
    lemma_match_cons(Token::If, s1, Token::If);
    lemma_match_cons(Token::LParen, s2, Token::LParen);
    lemma_match_cons(Token::RParen, r2, Token::RParen);
    lemma_bare_infix(a, op, b, r1, Precedence::PLowest);
    lemma_rendered_block(consequence, rest);
    if rest.len() > 0 {
        lemma_match_cons(rest[0], rest.skip(1), Token::Else);
        assert(rest =~= seq![rest[0]] + rest.skip(1));
    }
    assert(spec_parse_else_expr(rest) == Ok::<_, SpecError>((rest, None::<Seq<SpecStmt>>)));
}

/// An `if` reads its condition exactly as a parenthesised expression is read:
/// for any tokens after `if`, the condition is what those tokens read as a
/// parenthesised expression, followed by the block and the `else` part.
#[verifier::spinoff_prover]
pub proof fn law_if_condition_reads_as_parenthesised(s: Seq<Token>)
    ensures
        spec_parse_paren_expr(s) matches Ok((s4, c)) ==> (spec_parse_block_stmt(s4) matches Ok(
            (s5, consequence),
        ) ==> (spec_parse_else_expr(s5) matches Ok((s6, alternative)) ==> spec_parse_if_expr(
            seq![Token::If] + s,
        ) == Ok::<_, SpecError>(
            (s6, SpecExpr::IfExpr { cond: Box::new(c), consequence, alternative }),
        ))),
{
    let t = seq![Token::If] + s;
    lemma_cons(Token::If, s);
    lemma_match_cons(Token::If, s, Token::If);
    crate::tails::lemma_t_paren(s);
    if let Ok((s4, c)) = spec_parse_paren_expr(s) {
        crate::tails::lemma_t_block(s4);
        crate::tails::lemma_t_match(s, Token::LParen);
        assert(spec_match_token(s, Token::LParen) is Ok);
    }
}

/// The value of a hash entry is a whole expression: `k: a op b` reads
/// `a op b` as the value, whatever the operator.
#[verifier::spinoff_prover]
pub proof fn law_hash_value_is_whole_expression(
    k: Literal,
    a: SpecExpr,
    op: Infix,
    b: SpecExpr,
    rest: Seq<Token>,
)
    requires
        rest.len() > 0,
        ends_operand(rest[0]),
    ensures
        spec_parse_hash_pair(seq![literal_token(k), Token::Colon] + (bare_infix(a, op, b) + rest))
            == Ok::<_, SpecError>((rest, (k, infix_of(a, op, b)))),
{
    lemma_infix_token(op);
    law_hash_value_reads_as_expression(k, bare_infix(a, op, b) + rest);
    lemma_bare_infix(a, op, b, rest, Precedence::PLowest);
}

/// A hash entry reads its value exactly as an expression is read.
#[verifier::spinoff_prover]
pub proof fn law_hash_value_reads_as_expression(k: Literal, s: Seq<Token>)
    ensures
        spec_parse_expr(s) matches Ok((r, e)) ==> spec_parse_hash_pair(
            seq![literal_token(k), Token::Colon] + s,
        ) == Ok::<_, SpecError>((r, (k, e))),
{
    let s1 = seq![Token::Colon] + s;
    let t = seq![literal_token(k)] + s1;
    assert(seq![literal_token(k), Token::Colon] + s =~= t);
    lemma_literal_token(k, s1);
    lemma_cons(Token::Colon, s);
    lemma_match_cons(Token::Colon, s, Token::Colon);
}

/// Each element of an expression list, the first as well as the later ones,
/// is a whole expression: `a1 op1 b1, a2 op2 b2` reads as the two
/// expressions, whatever the operators.
#[verifier::spinoff_prover]
#[verifier::rlimit(30)]
pub proof fn law_list_elements_are_whole_expressions(
    a1: SpecExpr,
    op1: Infix,
    b1: SpecExpr,
    a2: SpecExpr,
    op2: Infix,
    b2: SpecExpr,
    rest: Seq<Token>,
)
    requires
        rest.len() > 0,
        ends_operand(rest[0]),
        !(rest[0] is Comma),
    ensures
        spec_parse_exprs(bare_infix(a1, op1, b1) + (seq![Token::Comma] + (bare_infix(a2, op2, b2)
            + rest))) == Ok::<_, SpecError>(
            (rest, seq![infix_of(a1, op1, b1), infix_of(a2, op2, b2)]),
        ),
{
    lemma_infix_token(op1);
    lemma_infix_token(op2);
    let t2 = bare_infix(a2, op2, b2) + rest;
    let t = seq![Token::Comma] + t2;
    let s = bare_infix(a1, op1, b1) + t;
    lemma_cons(Token::Comma, t2);
    lemma_match_cons(Token::Comma, t2, Token::Comma);
    lemma_bare_infix(a1, op1, b1, t, Precedence::PLowest);
    lemma_bare_infix(a2, op2, b2, rest, Precedence::PLowest);
    lemma_match_cons(rest[0], rest.skip(1), Token::Comma);
    assert(rest =~= seq![rest[0]] + rest.skip(1));
    assert(spec_parse_comma_exprs(rest) is Err);
    assert(spec_many_comma_exprs(rest) == Ok::<_, SpecError>((rest, Seq::<SpecExpr>::empty())));
    let e2 = infix_of(a2, op2, b2);
    assert(spec_parse_comma_exprs(t) == Ok::<_, SpecError>((rest, e2)));
    assert(seq![e2] + Seq::<SpecExpr>::empty() =~= seq![e2]);
    assert(spec_many_comma_exprs(t) == Ok::<_, SpecError>((rest, seq![e2])));
    let e1 = infix_of(a1, op1, b1);
    assert(seq![e1] + seq![e2] =~= seq![e1, e2]);
}

/// The first element of an expression list is read exactly as every later
/// one: the way the tokens after a comma read as a list element.
#[verifier::spinoff_prover]
pub proof fn law_first_list_element_reads_like_later_ones(s: Seq<Token>)
    ensures
        spec_parse_comma_exprs(seq![Token::Comma] + s) matches Ok((r, e)) ==> spec_parse_exprs(s)
            == prepend(seq![e], spec_many_comma_exprs(r)),
{
    lemma_cons(Token::Comma, s);
    lemma_match_cons(Token::Comma, s, Token::Comma);
    crate::tails::lemma_t_expr(s);
}

/// The arguments of a call are whole expressions: `f(a op b)` reads
/// `a op b` as the one argument, whatever the operator.
#[verifier::spinoff_prover]
#[verifier::rlimit(30)]
pub proof fn law_call_argument_is_whole_expression(
    f: SpecExpr,
    a: SpecExpr,
    op: Infix,
    b: SpecExpr,
    rest: Seq<Token>,
)
    ensures
        spec_parse_call_expr(seq![Token::LParen] + (bare_infix(a, op, b) + (seq![Token::RParen] + rest)), f)
            == Ok::<_, SpecError>(
            (rest, SpecExpr::CallExpr { function: Box::new(f), arguments: seq![infix_of(a, op, b)] }),
        ),
{
    lemma_infix_token(op);
    let r1 = seq![Token::RParen] + rest;
    let s1 = bare_infix(a, op, b) + r1;
    let s = seq![Token::LParen] + s1;
    lemma_cons(Token::LParen, s1);
    lemma_cons(Token::RParen, rest);
    lemma_match_cons(Token::LParen, s1, Token::LParen);
    lemma_match_cons(Token::RParen, rest, Token::RParen);
    lemma_match_cons(Token::RParen, rest, Token::Comma);
    lemma_bare_infix(a, op, b, r1, Precedence::PLowest);
    assert(spec_parse_comma_exprs(r1) is Err);
    assert(spec_many_comma_exprs(r1) == Ok::<_, SpecError>((r1, Seq::<SpecExpr>::empty())));
    let e = infix_of(a, op, b);
    assert(seq![e] + Seq::<SpecExpr>::empty() =~= seq![e]);
    assert(spec_parse_exprs(s1) == Ok::<_, SpecError>((r1, seq![e])));
}

/// The index of an index expression is a whole expression: `x[a op b]`
/// reads `a op b` as the index, whatever the operator.
#[verifier::spinoff_prover]
pub proof fn law_index_is_whole_expression(
    x: SpecExpr,
    a: SpecExpr,
    op: Infix,
    b: SpecExpr,
    rest: Seq<Token>,
)
    ensures
        spec_parse_index_expr(seq![Token::LBracket] + (bare_infix(a, op, b) + (seq![Token::RBracket] + rest)), x)
            == Ok::<_, SpecError>(
            (rest, SpecExpr::IndexExpr { array: Box::new(x), index: Box::new(infix_of(a, op, b)) }),
        ),
{
    lemma_infix_token(op);
    let r1 = seq![Token::RBracket] + rest;
    let s1 = bare_infix(a, op, b) + r1;
    lemma_cons(Token::LBracket, s1);
    lemma_cons(Token::RBracket, rest);
    lemma_match_cons(Token::LBracket, s1, Token::LBracket);
    lemma_match_cons(Token::RBracket, rest, Token::RBracket);
    lemma_bare_infix(a, op, b, r1, Precedence::PLowest);
}

/// The inside of parentheses is a whole expression: `(a op b)` reads as
/// `a op b`, whatever the operator.
#[verifier::spinoff_prover]
pub proof fn law_parenthesised_infix_is_whole(a: SpecExpr, op: Infix, b: SpecExpr, rest: Seq<Token>)
    ensures
        spec_parse_paren_expr(seq![Token::LParen] + (bare_infix(a, op, b) + (seq![Token::RParen] + rest)))
            == Ok::<_, SpecError>((rest, infix_of(a, op, b))),
{
    lemma_infix_token(op);
    let r1 = seq![Token::RParen] + rest;
    let s1 = bare_infix(a, op, b) + r1;
    lemma_cons(Token::LParen, s1);
    lemma_cons(Token::RParen, rest);
    lemma_match_cons(Token::LParen, s1, Token::LParen);
    lemma_match_cons(Token::RParen, rest, Token::RParen);
    lemma_bare_infix(a, op, b, r1, Precedence::PLowest);
}


/// A literal or an identifier is missing at the end of the input with
/// `Eof`, and where another kind of token stands with `Tag`, the error
/// holding the untouched input.
#[verifier::spinoff_prover]
pub proof fn law_literal_and_identifier_errors(s: Seq<Token>)
    ensures
        s.len() == 0 ==> spec_parse_literal(s) == Err::<(Seq<Token>, Literal), _>((s, ErrorKind::Eof)),
        s.len() == 0 ==> spec_parse_ident(s) == Err::<(Seq<Token>, Ident), _>((s, ErrorKind::Eof)),
        s.len() > 0 && !(s[0] is IntLiteral || s[0] is StringLiteral || s[0] is BoolLiteral)
            ==> spec_parse_literal(s) == Err::<(Seq<Token>, Literal), _>((s, ErrorKind::Tag)),
        s.len() > 0 && !(s[0] is Ident) ==> spec_parse_ident(s) == Err::<(Seq<Token>, Ident), _>(
            (s, ErrorKind::Tag),
        ),
{
}

/// After an operand, an infix operator is missing at the end of the input
/// with `Eof`, and where a token that is no infix operator stands with
/// `Tag`, the error holding the untouched input.
#[verifier::spinoff_prover]
pub proof fn law_infix_operator_errors(s: Seq<Token>, left: SpecExpr)
    ensures
        s.len() == 0 ==> spec_parse_infix_expr(s, left) == Err::<(Seq<Token>, SpecExpr), _>(
            (s, ErrorKind::Eof),
        ),
        s.len() > 0 && !(s[0] is Plus || s[0] is Minus || s[0] is Multiply || s[0] is Divide
            || s[0] is Equal || s[0] is NotEqual || s[0] is LessThan || s[0] is GreaterThan
            || s[0] is LessThanEqual || s[0] is GreaterThanEqual) ==> spec_parse_infix_expr(s, left)
            == Err::<(Seq<Token>, SpecExpr), _>((s, ErrorKind::Tag)),
{
}

/// A missing closing parenthesis is refused where it was expected: with
/// `Eof` when the input ends there, with `Verify` when another token that
/// ends operands stands there.
#[verifier::spinoff_prover]
pub proof fn law_missing_closing_parenthesis(e: SpecExpr, rest: Seq<Token>)
    requires
        rest.len() == 0 || (ends_operand(rest[0]) && !(rest[0] is RParen)),
    ensures
        spec_parse_paren_expr(seq![Token::LParen] + (render_expr(e) + rest)) == Err::<
            (Seq<Token>, SpecExpr),
            _,
        >((rest, if rest.len() == 0 { ErrorKind::Eof } else { ErrorKind::Verify })),
{
    let s1 = render_expr(e) + rest;
    lemma_cons(Token::LParen, s1);
    lemma_match_cons(Token::LParen, s1, Token::LParen);
    lemma_render_expr_start(e);
    if rest.len() == 0 {
        assert(s1 =~= render_expr(e));
        lemma_rendered_atom(e, rest);
        assert(spec_parse_atom_expr(s1) == Ok::<_, SpecError>((rest, e)));
        assert(spec_go_parse_pratt_expr(rest, Precedence::PLowest, e) == Err::<(Seq<Token>, SpecExpr), _>((rest, ErrorKind::Eof)));
    } else {
        lemma_rendered_expr(e, rest, Precedence::PLowest);
        lemma_match_cons(rest[0], rest.skip(1), Token::RParen);
        assert(rest =~= seq![rest[0]] + rest.skip(1));
    }
}

/// A program is refused where its statements stop, when no end-of-file
/// token stands there: with `Eof` when the input ends there, with `Verify`
/// when another token stands there.
#[verifier::spinoff_prover]
pub proof fn law_program_error_where_statements_stop(s: Seq<Token>)
    ensures
        spec_many_stmts(s) matches Ok((r, _)) ==> (!(r.len() > 0 && r[0] is EOF)
            ==> spec_parse_program(s) == Err::<(Seq<Token>, Seq<SpecStmt>), _>(
            (r, if r.len() == 0 { ErrorKind::Eof } else { ErrorKind::Verify }),
        )),
{
    if let Ok((r, _)) = spec_many_stmts(s) {
        if r.len() > 0 {
            assert(!token_eq(r[0], Token::EOF) || r[0] is EOF);
        }
    }
}

} // verus!
