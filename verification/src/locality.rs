//! A reading does not depend on what follows it. Where a rule reads the
//! tokens before `d1` and stops at `d1`, it reads the same tokens the same
//! way before `d2` and stops at `d2`, provided `d2` begins with a token that
//! the rule's last look ahead treats as it treats the first token of `d1`:
//! nothing looks further than that one token when the reading ends.
use vstd::prelude::*;

use crate::ast::{Precedence, SpecExpr, SpecStmt};
use crate::grammar::{
    is_tail, prec_rank, spec_go_parse_pratt_expr, spec_infix_op, spec_many_comma_exprs,
    spec_many_comma_idents, spec_many_hash_comma_exprs, spec_many_stmts, spec_match_token,
    spec_opt_token, spec_parse_array_expr, spec_parse_atom_expr, spec_parse_block_stmt,
    spec_parse_call_expr, spec_parse_comma_exprs, spec_parse_comma_ident, spec_parse_else_expr,
    spec_parse_expr, spec_parse_expr_stmt, spec_parse_exprs, spec_parse_fn_expr,
    spec_parse_hash_comma_expr, spec_parse_hash_expr, spec_parse_hash_pair,
    spec_parse_hash_pairs, spec_parse_ident, spec_parse_if_expr, spec_parse_index_expr,
    spec_parse_infix_expr, spec_parse_let_stmt, spec_parse_literal, spec_parse_paren_expr,
    spec_parse_params, spec_parse_pratt_expr, spec_parse_prefix_expr, spec_parse_return_stmt,
    spec_parse_stmt, spec_parse_program, SpecError, SpecResult,
};
use crate::laws::{lemma_no_operand, lemma_no_stmt, starts_operand};
use crate::tails::{
    lemma_t_atom, lemma_t_block, lemma_t_call, lemma_t_comma_exprs, lemma_t_comma_ident,
    lemma_t_else, lemma_t_expr, lemma_t_expr_stmt, lemma_t_exprs, lemma_t_go, lemma_t_hash,
    lemma_t_hash_comma, lemma_t_hash_pair, lemma_t_hash_pairs, lemma_t_if, lemma_t_index,
    lemma_t_infix, lemma_t_let, lemma_t_many_comma_exprs, lemma_t_many_comma_idents,
    lemma_t_many_hash, lemma_t_many_stmts, lemma_t_params, lemma_t_paren, lemma_t_prefix,
    lemma_t_return, lemma_t_stmt, lemma_t_fn, lemma_t_array, lemma_t_match,
};
use crate::token::{token_tag, Token};

verus! {

broadcast use crate::grammar::lemma_tail_of_tail;

/// `s1` is some tokens followed by `d1`, and `s2` is the same tokens
/// followed by `d2`.
pub open spec fn framed(s1: Seq<Token>, d1: Seq<Token>, s2: Seq<Token>, d2: Seq<Token>) -> bool {
    &&& is_tail(d1, s1)
    &&& is_tail(d2, s2)
    &&& s1.len() - d1.len() == s2.len() - d2.len()
    &&& forall|i: int| 0 <= i < s1.len() - d1.len() ==> #[trigger] s1[i] == s2[i]
}

/// The tail of `s2` that lies as far before `d2` as `q1` lies before `d1`.
pub open spec fn peer(q1: Seq<Token>, d1: Seq<Token>, s2: Seq<Token>, d2: Seq<Token>) -> Seq<Token> {
    s2.skip(s2.len() - d2.len() - (q1.len() - d1.len()))
}

/// If the first reading stops at `d1`, the second reads the same value and
/// stops at `d2`.
pub open spec fn carries<T>(
    res1: SpecResult<T>,
    d1: Seq<Token>,
    res2: SpecResult<T>,
    d2: Seq<Token>,
) -> bool {
    match res1 {
        Ok((r, v)) => r == d1 ==> res2 == Ok::<(Seq<Token>, T), SpecError>((d2, v)),
        Err(_) => true,
    }
}

/// The binding power of a token that follows an operand.
pub open spec fn op_rank(t: Token) -> nat {
    prec_rank(spec_infix_op(t).0)
}

/// A token that begins a statement.
pub open spec fn starts_stmt(t: Token) -> bool {
    starts_operand(t) || t is Let || t is Return
}

/// Where an expression ends: `d2` binds no tighter than `d1`, and neither
/// is an `else`.
pub open spec fn ends_alike(d1: Seq<Token>, d2: Seq<Token>) -> bool {
    &&& d1.len() > 0
    &&& d2.len() > 0
    &&& op_rank(d2[0]) <= op_rank(d1[0])
    &&& !(d1[0] is Else)
    &&& !(d2[0] is Else)
}

/// Where a comma-separated list ends: as an expression ends, and no comma.
pub open spec fn ends_list_alike(d1: Seq<Token>, d2: Seq<Token>) -> bool {
    &&& ends_alike(d1, d2)
    &&& !(d1[0] is Comma)
    &&& !(d2[0] is Comma)
}

/// Where a run of statements ends: as an expression ends, with neither a
/// semicolon nor a token that begins a statement.
pub open spec fn ends_stmts_alike(d1: Seq<Token>, d2: Seq<Token>) -> bool {
    &&& ends_alike(d1, d2)
    &&& !starts_stmt(d1[0])
    &&& !starts_stmt(d2[0])
    &&& !(d1[0] is SemiColon)
    &&& !(d2[0] is SemiColon)
}

/// Where a statement read from `s1` ends at `d1`: either its last token is
/// its closing semicolon, or it ends as an expression ends, before no
/// semicolon.
pub open spec fn stmt_ends_alike(s1: Seq<Token>, d1: Seq<Token>, d2: Seq<Token>) -> bool {
    ||| s1.len() > d1.len() && s1[s1.len() - d1.len() - 1] is SemiColon
    ||| ends_alike(d1, d2) && !(d1[0] is SemiColon) && !(d2[0] is SemiColon)
}

proof fn lemma_peer(s1: Seq<Token>, d1: Seq<Token>, s2: Seq<Token>, d2: Seq<Token>, q1: Seq<Token>)
    requires
        framed(s1, d1, s2, d2),
        is_tail(q1, s1),
        q1.len() >= d1.len(),
    ensures
        framed(q1, d1, peer(q1, d1, s2, d2), d2),
        framed(s1, q1, s2, peer(q1, d1, s2, d2)),
        is_tail(peer(q1, d1, s2, d2), s2),
        peer(q1, d1, s2, d2).len() - d2.len() == q1.len() - d1.len(),
        q1.len() > d1.len() ==> peer(q1, d1, s2, d2)[0] == q1[0],
        q1.len() == d1.len() ==> q1 == d1 && peer(q1, d1, s2, d2) == d2,
{
    let k = s1.len() - q1.len();
    let q2 = peer(q1, d1, s2, d2);
    assert(q2 =~= s2.skip(k));
    assert(q1 =~= s1.skip(k));
    assert(d1 =~= q1.skip(q1.len() - d1.len()));
    assert(d2 =~= q2.skip(q2.len() - d2.len()));
    assert forall|i: int| 0 <= i < q1.len() - d1.len() implies #[trigger] q1[i] == q2[i] by {
        assert(q1[i] == s1[k + i]);
        assert(q2[i] == s2[k + i]);
    }
    if q1.len() > d1.len() {
        assert(q1[0] == s1[k]);
        assert(q2[0] == s2[k]);
    }
}

proof fn lemma_whole(s1: Seq<Token>, d1: Seq<Token>, s2: Seq<Token>, d2: Seq<Token>)
    requires
        framed(s1, d1, s2, d2),
        s1.len() == d1.len(),
    ensures
        s1 == d1,
        s2 == d2,
{
    assert(s1 =~= d1);
    assert(s2 =~= d2);
}

proof fn lemma_step(s1: Seq<Token>, d1: Seq<Token>, s2: Seq<Token>, d2: Seq<Token>)
    requires
        framed(s1, d1, s2, d2),
        s1.len() > d1.len(),
    ensures
        s1.len() > 0,
        s2.len() > 0,
        s2[0] == s1[0],
        framed(s1.skip(1), d1, s2.skip(1), d2),
        s1.len() == d1.len() + 1 ==> s1.skip(1) == d1 && s2.skip(1) == d2,
{
    assert(s1[0] == s2[0]);
    let q1 = s1.skip(1);
    assert(q1 =~= s1.skip(s1.len() - q1.len()));
    lemma_peer(s1, d1, s2, d2, q1);
    assert(peer(q1, d1, s2, d2) =~= s2.skip(1));
}

/// Matching a token in both readings.
proof fn lemma_l_match(s1: Seq<Token>, d1: Seq<Token>, s2: Seq<Token>, d2: Seq<Token>, k: Token)
    requires
        framed(s1, d1, s2, d2),
        s1.len() > d1.len(),
    ensures
        spec_match_token(s1, k) is Ok <==> spec_match_token(s2, k) is Ok,
        spec_match_token(s1, k) is Ok ==> spec_match_token(s1, k) == Ok::<_, SpecError>(s1.skip(1))
            && spec_match_token(s2, k) == Ok::<_, SpecError>(s2.skip(1)),
        framed(s1.skip(1), d1, s2.skip(1), d2),
        s2[0] == s1[0],
        s1.len() == d1.len() + 1 ==> s1.skip(1) == d1 && s2.skip(1) == d2,
{
    lemma_step(s1, d1, s2, d2);
}

pub proof fn lemma_l_expr(s1: Seq<Token>, d1: Seq<Token>, s2: Seq<Token>, d2: Seq<Token>)
    requires
        framed(s1, d1, s2, d2),
        ends_alike(d1, d2),
    ensures
        carries(spec_parse_expr(s1), d1, spec_parse_expr(s2), d2),
    decreases s1.len(), 9nat,
{
    lemma_l_pratt(s1, d1, s2, d2, Precedence::PLowest);
}

#[verifier::spinoff_prover]
pub proof fn lemma_l_pratt(s1: Seq<Token>, d1: Seq<Token>, s2: Seq<Token>, d2: Seq<Token>, prec: Precedence)
    requires
        framed(s1, d1, s2, d2),
        ends_alike(d1, d2),
    ensures
        carries(spec_parse_pratt_expr(s1, prec), d1, spec_parse_pratt_expr(s2, prec), d2),
    decreases s1.len(), 8nat,
{
    if let Ok((r, v)) = spec_parse_pratt_expr(s1, prec) {
        if r == d1 {
            lemma_t_atom(s1);
            let (m1, left) = spec_parse_atom_expr(s1)->Ok_0;
            lemma_t_go(m1, prec, left);
            lemma_peer(s1, d1, s2, d2, m1);
            let m2 = peer(m1, d1, s2, d2);
            if m1.len() > d1.len() {
                assert(prec_rank(prec) < op_rank(m1[0]));
            }
            lemma_l_atom(s1, m1, s2, m2);
            lemma_l_go(m1, d1, m2, d2, prec, left);
        }
    }
}

#[verifier::spinoff_prover]
#[verifier::rlimit(30)]
pub proof fn lemma_l_go(
    s1: Seq<Token>,
    d1: Seq<Token>,
    s2: Seq<Token>,
    d2: Seq<Token>,
    prec: Precedence,
    left: SpecExpr,
)
    requires
        framed(s1, d1, s2, d2),
        ends_alike(d1, d2),
    ensures
        carries(spec_go_parse_pratt_expr(s1, prec, left), d1, spec_go_parse_pratt_expr(s2, prec, left), d2),
    decreases s1.len(), 7nat,
{
    if let Ok((r, v)) = spec_go_parse_pratt_expr(s1, prec, left) {
        if r == d1 {
            lemma_t_call(s1, left);
            lemma_t_index(s1, left);
            lemma_t_infix(s1, left);
            let peek = spec_infix_op(s1[0]).0;
            let step = if peek == Precedence::PCall {
                spec_parse_call_expr(s1, left)
            } else if peek == Precedence::PIndex {
                spec_parse_index_expr(s1, left)
            } else {
                spec_parse_infix_expr(s1, left)
            };
            if prec_rank(prec) < prec_rank(peek) {
                let (q1, left2) = step->Ok_0;
                lemma_t_go(q1, prec, left2);
                if s1.len() == d1.len() {
                    assert(false);
                }
                lemma_step(s1, d1, s2, d2);
                lemma_peer(s1, d1, s2, d2, q1);
                let q2 = peer(q1, d1, s2, d2);
                if q1.len() > d1.len() {
                    assert(prec_rank(prec) < op_rank(q1[0]));
                }
                if peek == Precedence::PCall {
                    lemma_l_call(s1, q1, s2, q2, left);
                } else if peek == Precedence::PIndex {
                    lemma_l_index(s1, q1, s2, q2, left);
                } else {
                    lemma_l_infix(s1, q1, s2, q2, left);
                }
                lemma_l_go(q1, d1, q2, d2, prec, left2);
            } else {
                assert(s1 == d1);
                assert(s2 == d2) by {
                    lemma_whole(s1, d1, s2, d2);
                }
            }
        }
    }
}

#[verifier::spinoff_prover]
pub proof fn lemma_l_infix(s1: Seq<Token>, d1: Seq<Token>, s2: Seq<Token>, d2: Seq<Token>, left: SpecExpr)
    requires
        framed(s1, d1, s2, d2),
        ends_alike(d1, d2),
    ensures
        carries(spec_parse_infix_expr(s1, left), d1, spec_parse_infix_expr(s2, left), d2),
    decreases s1.len(), 6nat,
{
    if let Ok((r, v)) = spec_parse_infix_expr(s1, left) {
        if r == d1 {
            lemma_t_infix(s1, left);
            lemma_step(s1, d1, s2, d2);
            lemma_l_pratt(s1.skip(1), d1, s2.skip(1), d2, spec_infix_op(s1[0]).0);
        }
    }
}

#[verifier::spinoff_prover]
#[verifier::rlimit(30)]
pub proof fn lemma_l_call(s1: Seq<Token>, d1: Seq<Token>, s2: Seq<Token>, d2: Seq<Token>, f: SpecExpr)
    requires
        framed(s1, d1, s2, d2),
    ensures
        carries(spec_parse_call_expr(s1, f), d1, spec_parse_call_expr(s2, f), d2),
    decreases s1.len(), 6nat,
{
    if let Ok((r, v)) = spec_parse_call_expr(s1, f) {
        if r == d1 {
            lemma_t_call(s1, f);
            lemma_l_match(s1, d1, s2, d2, Token::LParen);
            let t1 = s1.skip(1);
            let t2 = s2.skip(1);
            lemma_t_exprs(t1);
            if let Ok((m1, args)) = spec_parse_exprs(t1) {
                lemma_peer(t1, d1, t2, d2, m1);
                let m2 = peer(m1, d1, t2, d2);
                lemma_l_exprs(t1, m1, t2, m2);
                lemma_l_match(m1, d1, m2, d2, Token::RParen);
            } else {
                lemma_l_match(t1, d1, t2, d2, Token::RParen);
                lemma_no_operand(t2, Precedence::PLowest);
            }
        }
    }
}

#[verifier::spinoff_prover]
pub proof fn lemma_l_index(s1: Seq<Token>, d1: Seq<Token>, s2: Seq<Token>, d2: Seq<Token>, a: SpecExpr)
    requires
        framed(s1, d1, s2, d2),
    ensures
        carries(spec_parse_index_expr(s1, a), d1, spec_parse_index_expr(s2, a), d2),
    decreases s1.len(), 6nat,
{
    if let Ok((r, v)) = spec_parse_index_expr(s1, a) {
        if r == d1 {
            lemma_t_index(s1, a);
            lemma_l_match(s1, d1, s2, d2, Token::LBracket);
            let t1 = s1.skip(1);
            let t2 = s2.skip(1);
            lemma_t_expr(t1);
            let (m1, i) = spec_parse_expr(t1)->Ok_0;
            lemma_peer(t1, d1, t2, d2, m1);
            let m2 = peer(m1, d1, t2, d2);
            lemma_l_expr(t1, m1, t2, m2);
            lemma_l_match(m1, d1, m2, d2, Token::RBracket);
        }
    }
}

#[verifier::spinoff_prover]
#[verifier::rlimit(40)]
pub proof fn lemma_l_atom(s1: Seq<Token>, d1: Seq<Token>, s2: Seq<Token>, d2: Seq<Token>)
    requires
        framed(s1, d1, s2, d2),
        ends_alike(d1, d2),
    ensures
        carries(spec_parse_atom_expr(s1), d1, spec_parse_atom_expr(s2), d2),
    decreases s1.len(), 7nat,
{
    if let Ok((r, v)) = spec_parse_atom_expr(s1) {
        if r == d1 {
            lemma_t_atom(s1);
            lemma_step(s1, d1, s2, d2);
            lemma_l_prefix(s1, d1, s2, d2);
            lemma_l_paren(s1, d1, s2, d2);
            lemma_l_array(s1, d1, s2, d2);
            lemma_l_hash(s1, d1, s2, d2);
            lemma_l_if(s1, d1, s2, d2);
            lemma_l_fn(s1, d1, s2, d2);
            let t = s1[0];
            assert(t == s2[0]);
            if spec_parse_literal(s1) is Ok {
            } else if spec_parse_ident(s1) is Ok {
            } else if spec_parse_prefix_expr(s1) is Ok {
            } else if spec_parse_paren_expr(s1) is Ok {
                assert(t is LParen);
            } else if spec_parse_array_expr(s1) is Ok {
                assert(t is LBracket);
            } else if spec_parse_hash_expr(s1) is Ok {
                assert(t is LBrace);
            } else if spec_parse_if_expr(s1) is Ok {
                assert(t is If);
            } else {
                assert(t is Function);
            }
        }
    }
}

#[verifier::spinoff_prover]
pub proof fn lemma_l_prefix(s1: Seq<Token>, d1: Seq<Token>, s2: Seq<Token>, d2: Seq<Token>)
    requires
        framed(s1, d1, s2, d2),
        ends_alike(d1, d2),
    ensures
        carries(spec_parse_prefix_expr(s1), d1, spec_parse_prefix_expr(s2), d2),
    decreases s1.len(), 6nat,
{
    if let Ok((r, v)) = spec_parse_prefix_expr(s1) {
        if r == d1 {
            lemma_t_prefix(s1);
            lemma_step(s1, d1, s2, d2);
            lemma_l_atom(s1.skip(1), d1, s2.skip(1), d2);
        }
    }
}

#[verifier::spinoff_prover]
pub proof fn lemma_l_paren(s1: Seq<Token>, d1: Seq<Token>, s2: Seq<Token>, d2: Seq<Token>)
    requires
        framed(s1, d1, s2, d2),
    ensures
        carries(spec_parse_paren_expr(s1), d1, spec_parse_paren_expr(s2), d2),
    decreases s1.len(), 6nat,
{
    if let Ok((r, v)) = spec_parse_paren_expr(s1) {
        if r == d1 {
            lemma_t_paren(s1);
            lemma_l_match(s1, d1, s2, d2, Token::LParen);
            let t1 = s1.skip(1);
            let t2 = s2.skip(1);
            lemma_t_expr(t1);
            let (m1, e) = spec_parse_expr(t1)->Ok_0;
            lemma_peer(t1, d1, t2, d2, m1);
            let m2 = peer(m1, d1, t2, d2);
            lemma_l_expr(t1, m1, t2, m2);
            lemma_l_match(m1, d1, m2, d2, Token::RParen);
        }
    }
}

#[verifier::spinoff_prover]
pub proof fn lemma_l_exprs(s1: Seq<Token>, d1: Seq<Token>, s2: Seq<Token>, d2: Seq<Token>)
    requires
        framed(s1, d1, s2, d2),
        ends_list_alike(d1, d2),
    ensures
        carries(spec_parse_exprs(s1), d1, spec_parse_exprs(s2), d2),
    decreases s1.len(), 10nat,
{
    if let Ok((r, v)) = spec_parse_exprs(s1) {
        if r == d1 {
            lemma_t_expr(s1);
            let (q1, first) = spec_parse_expr(s1)->Ok_0;
            lemma_t_many_comma_exprs(q1);
            lemma_peer(s1, d1, s2, d2, q1);
            let q2 = peer(q1, d1, s2, d2);
            if q1.len() > d1.len() {
                assert(spec_parse_comma_exprs(q1) is Ok);
                assert(q1[0] is Comma);
            }
            lemma_l_expr(s1, q1, s2, q2);
            lemma_l_many_comma(q1, d1, q2, d2);
        }
    }
}

#[verifier::spinoff_prover]
pub proof fn lemma_l_comma_exprs(s1: Seq<Token>, d1: Seq<Token>, s2: Seq<Token>, d2: Seq<Token>)
    requires
        framed(s1, d1, s2, d2),
        ends_alike(d1, d2),
    ensures
        carries(spec_parse_comma_exprs(s1), d1, spec_parse_comma_exprs(s2), d2),
    decreases s1.len(), 6nat,
{
    if let Ok((r, v)) = spec_parse_comma_exprs(s1) {
        if r == d1 {
            lemma_t_comma_exprs(s1);
            lemma_l_match(s1, d1, s2, d2, Token::Comma);
            lemma_l_expr(s1.skip(1), d1, s2.skip(1), d2);
        }
    }
}

#[verifier::spinoff_prover]
#[verifier::rlimit(60)]
pub proof fn lemma_l_many_comma(s1: Seq<Token>, d1: Seq<Token>, s2: Seq<Token>, d2: Seq<Token>)
    requires
        framed(s1, d1, s2, d2),
        ends_list_alike(d1, d2),
    ensures
        carries(spec_many_comma_exprs(s1), d1, spec_many_comma_exprs(s2), d2),
    decreases s1.len(), 7nat,
{
    if let Ok((r, v)) = spec_many_comma_exprs(s1) {
        if r == d1 {
            lemma_t_comma_exprs(s1);
            if s1.len() == d1.len() {
                lemma_whole(s1, d1, s2, d2);
                if let Ok((q1, e)) = spec_parse_comma_exprs(s1) {
                    lemma_t_many_comma_exprs(q1);
                    assert(false);
                }
            } else {
                let (q1, e) = spec_parse_comma_exprs(s1)->Ok_0;
                lemma_t_many_comma_exprs(q1);
                lemma_peer(s1, d1, s2, d2, q1);
                let q2 = peer(q1, d1, s2, d2);
                if q1.len() > d1.len() {
                    assert(spec_parse_comma_exprs(q1) is Ok);
                    assert(q1[0] is Comma);
                }
                lemma_l_comma_exprs(s1, q1, s2, q2);
                lemma_l_many_comma(q1, d1, q2, d2);
            }
        }
    }
}

#[verifier::spinoff_prover]
#[verifier::rlimit(30)]
pub proof fn lemma_l_array(s1: Seq<Token>, d1: Seq<Token>, s2: Seq<Token>, d2: Seq<Token>)
    requires
        framed(s1, d1, s2, d2),
    ensures
        carries(spec_parse_array_expr(s1), d1, spec_parse_array_expr(s2), d2),
    decreases s1.len(), 6nat,
{
    if let Ok((r, v)) = spec_parse_array_expr(s1) {
        if r == d1 {
            lemma_t_array(s1);
            lemma_l_match(s1, d1, s2, d2, Token::LBracket);
            let t1 = s1.skip(1);
            let t2 = s2.skip(1);
            lemma_t_exprs(t1);
            if let Ok((m1, es)) = spec_parse_exprs(t1) {
                lemma_peer(t1, d1, t2, d2, m1);
                let m2 = peer(m1, d1, t2, d2);
                lemma_l_exprs(t1, m1, t2, m2);
                lemma_l_match(m1, d1, m2, d2, Token::RBracket);
            } else {
                lemma_l_match(t1, d1, t2, d2, Token::RBracket);
                lemma_no_operand(t2, Precedence::PLowest);
            }
        }
    }
}

#[verifier::spinoff_prover]
pub proof fn lemma_l_hash_pair(s1: Seq<Token>, d1: Seq<Token>, s2: Seq<Token>, d2: Seq<Token>)
    requires
        framed(s1, d1, s2, d2),
        ends_alike(d1, d2),
    ensures
        carries(spec_parse_hash_pair(s1), d1, spec_parse_hash_pair(s2), d2),
    decreases s1.len(), 6nat,
{
    if let Ok((r, v)) = spec_parse_hash_pair(s1) {
        if r == d1 {
            lemma_t_hash_pair(s1);
            lemma_step(s1, d1, s2, d2);
            let t1 = s1.skip(1);
            let t2 = s2.skip(1);
            let u1 = t1.skip(1);
            lemma_t_expr(u1);
            lemma_l_match(t1, d1, t2, d2, Token::Colon);
            lemma_l_expr(u1, d1, t2.skip(1), d2);
        }
    }
}

#[verifier::spinoff_prover]
pub proof fn lemma_l_hash_pairs(s1: Seq<Token>, d1: Seq<Token>, s2: Seq<Token>, d2: Seq<Token>)
    requires
        framed(s1, d1, s2, d2),
        ends_list_alike(d1, d2),
    ensures
        carries(spec_parse_hash_pairs(s1), d1, spec_parse_hash_pairs(s2), d2),
    decreases s1.len(), 8nat,
{
    if let Ok((r, v)) = spec_parse_hash_pairs(s1) {
        if r == d1 {
            lemma_t_hash_pair(s1);
            let (q1, first) = spec_parse_hash_pair(s1)->Ok_0;
            lemma_t_many_hash(q1);
            lemma_peer(s1, d1, s2, d2, q1);
            let q2 = peer(q1, d1, s2, d2);
            if q1.len() > d1.len() {
                assert(spec_parse_hash_comma_expr(q1) is Ok);
                assert(q1[0] is Comma);
            }
            lemma_l_hash_pair(s1, q1, s2, q2);
            lemma_l_many_hash(q1, d1, q2, d2);
        }
    }
}

#[verifier::spinoff_prover]
pub proof fn lemma_l_hash_comma(s1: Seq<Token>, d1: Seq<Token>, s2: Seq<Token>, d2: Seq<Token>)
    requires
        framed(s1, d1, s2, d2),
        ends_alike(d1, d2),
    ensures
        carries(spec_parse_hash_comma_expr(s1), d1, spec_parse_hash_comma_expr(s2), d2),
    decreases s1.len(), 6nat,
{
    if let Ok((r, v)) = spec_parse_hash_comma_expr(s1) {
        if r == d1 {
            lemma_t_hash_comma(s1);
            lemma_l_match(s1, d1, s2, d2, Token::Comma);
            lemma_l_hash_pair(s1.skip(1), d1, s2.skip(1), d2);
        }
    }
}

#[verifier::spinoff_prover]
#[verifier::rlimit(60)]
pub proof fn lemma_l_many_hash(s1: Seq<Token>, d1: Seq<Token>, s2: Seq<Token>, d2: Seq<Token>)
    requires
        framed(s1, d1, s2, d2),
        ends_list_alike(d1, d2),
    ensures
        carries(spec_many_hash_comma_exprs(s1), d1, spec_many_hash_comma_exprs(s2), d2),
    decreases s1.len(), 7nat,
{
    if let Ok((r, v)) = spec_many_hash_comma_exprs(s1) {
        if r == d1 {
            lemma_t_hash_comma(s1);
            if s1.len() == d1.len() {
                lemma_whole(s1, d1, s2, d2);
                if let Ok((q1, e)) = spec_parse_hash_comma_expr(s1) {
                    lemma_t_many_hash(q1);
                    assert(false);
                }
            } else {
                let (q1, e) = spec_parse_hash_comma_expr(s1)->Ok_0;
                lemma_t_many_hash(q1);
                lemma_peer(s1, d1, s2, d2, q1);
                let q2 = peer(q1, d1, s2, d2);
                if q1.len() > d1.len() {
                    assert(spec_parse_hash_comma_expr(q1) is Ok);
                    assert(q1[0] is Comma);
                }
                lemma_l_hash_comma(s1, q1, s2, q2);
                lemma_l_many_hash(q1, d1, q2, d2);
            }
        }
    }
}

#[verifier::spinoff_prover]
#[verifier::rlimit(30)]
pub proof fn lemma_l_hash(s1: Seq<Token>, d1: Seq<Token>, s2: Seq<Token>, d2: Seq<Token>)
    requires
        framed(s1, d1, s2, d2),
    ensures
        carries(spec_parse_hash_expr(s1), d1, spec_parse_hash_expr(s2), d2),
    decreases s1.len(), 6nat,
{
    if let Ok((r, v)) = spec_parse_hash_expr(s1) {
        if r == d1 {
            lemma_t_hash(s1);
            lemma_l_match(s1, d1, s2, d2, Token::LBrace);
            let t1 = s1.skip(1);
            let t2 = s2.skip(1);
            lemma_t_hash_pairs(t1);
            if let Ok((m1, ps)) = spec_parse_hash_pairs(t1) {
                lemma_peer(t1, d1, t2, d2, m1);
                let m2 = peer(m1, d1, t2, d2);
                lemma_l_hash_pairs(t1, m1, t2, m2);
                lemma_l_match(m1, d1, m2, d2, Token::RBrace);
            } else {
                lemma_l_match(t1, d1, t2, d2, Token::RBrace);
                assert(spec_parse_literal(t2) is Err);
                assert(spec_parse_hash_pair(t2) is Err);
            }
        }
    }
}

#[verifier::spinoff_prover]
#[verifier::rlimit(60)]
pub proof fn lemma_l_if(s1: Seq<Token>, d1: Seq<Token>, s2: Seq<Token>, d2: Seq<Token>)
    requires
        framed(s1, d1, s2, d2),
        ends_alike(d1, d2),
    ensures
        carries(spec_parse_if_expr(s1), d1, spec_parse_if_expr(s2), d2),
    decreases s1.len(), 6nat,
{
    if let Ok((r, v)) = spec_parse_if_expr(s1) {
        if r == d1 {
            lemma_t_if(s1);
            lemma_l_match(s1, d1, s2, d2, Token::If);
            let a1 = s1.skip(1);
            let a2 = s2.skip(1);
            let b1 = a1.skip(1);
            lemma_t_expr(b1);
            let (c1, cond) = spec_parse_expr(b1)->Ok_0;
            let e1 = c1.skip(1);
            lemma_t_block(e1);
            let (f1, cons) = spec_parse_block_stmt(e1)->Ok_0;
            lemma_t_else(f1);
            lemma_l_match(a1, d1, a2, d2, Token::LParen);
            let b2 = a2.skip(1);
            lemma_peer(b1, d1, b2, d2, c1);
            let c2 = peer(c1, d1, b2, d2);
            lemma_l_expr(b1, c1, b2, c2);
            lemma_l_match(c1, d1, c2, d2, Token::RParen);
            let e2 = c2.skip(1);
            lemma_peer(e1, d1, e2, d2, f1);
            let f2 = peer(f1, d1, e2, d2);
            lemma_l_block(e1, f1, e2, f2);
            lemma_l_else(f1, d1, f2, d2);
        }
    }
}

#[verifier::spinoff_prover]
#[verifier::rlimit(60)]
pub proof fn lemma_l_else(s1: Seq<Token>, d1: Seq<Token>, s2: Seq<Token>, d2: Seq<Token>)
    requires
        framed(s1, d1, s2, d2),
        ends_alike(d1, d2),
    ensures
        carries(spec_parse_else_expr(s1), d1, spec_parse_else_expr(s2), d2),
    decreases s1.len(), 6nat,
{
    if let Ok((r, v)) = spec_parse_else_expr(s1) {
        if r == d1 {
            if s1.len() == d1.len() {
                lemma_whole(s1, d1, s2, d2);
                if let Ok(t1) = spec_match_token(s1, Token::Else) {
                    assert(false);
                }
            } else {
                lemma_l_match(s1, d1, s2, d2, Token::Else);
                assert(spec_match_token(s1, Token::Else) is Ok);
                assert(spec_parse_block_stmt(s1.skip(1)) is Ok);
                lemma_l_block(s1.skip(1), d1, s2.skip(1), d2);
            }
        }
    }
}

#[verifier::spinoff_prover]
#[verifier::rlimit(40)]
pub proof fn lemma_l_fn(s1: Seq<Token>, d1: Seq<Token>, s2: Seq<Token>, d2: Seq<Token>)
    requires
        framed(s1, d1, s2, d2),
    ensures
        carries(spec_parse_fn_expr(s1), d1, spec_parse_fn_expr(s2), d2),
    decreases s1.len(), 6nat,
{
    if let Ok((r, v)) = spec_parse_fn_expr(s1) {
        if r == d1 {
            lemma_t_fn(s1);
            lemma_l_match(s1, d1, s2, d2, Token::Function);
            let a1 = s1.skip(1);
            let a2 = s2.skip(1);
            let b1 = a1.skip(1);
            lemma_t_params(b1);
            let c1 = match spec_parse_params(b1) {
                Ok((x, _)) => x,
                Err(_) => b1,
            };
            let e1 = c1.skip(1);
            lemma_t_block(e1);
            lemma_l_match(a1, d1, a2, d2, Token::LParen);
            let b2 = a2.skip(1);
            crate::grammar::lemma_tail_refl(b1);
            lemma_peer(b1, d1, b2, d2, c1);
            let c2 = peer(c1, d1, b2, d2);
            if let Ok((m1, ps)) = spec_parse_params(b1) {
                lemma_l_params(b1, m1, b2, c2);
            } else {
                assert(c2 =~= b2);
                lemma_l_match(b1, d1, b2, d2, Token::RParen);
                assert(spec_parse_ident(b2) is Err);
            }
            lemma_l_match(c1, d1, c2, d2, Token::RParen);
            lemma_l_block(e1, d1, c2.skip(1), d2);
        }
    }
}

#[verifier::spinoff_prover]
pub proof fn lemma_l_params(s1: Seq<Token>, d1: Seq<Token>, s2: Seq<Token>, d2: Seq<Token>)
    requires
        framed(s1, d1, s2, d2),
        d1.len() > 0,
        d2.len() > 0,
        !(d1[0] is Comma),
        !(d2[0] is Comma),
    ensures
        carries(spec_parse_params(s1), d1, spec_parse_params(s2), d2),
{
    if let Ok((r, v)) = spec_parse_params(s1) {
        if r == d1 {
            lemma_t_params(s1);
            lemma_step(s1, d1, s2, d2);
            let q1 = s1.skip(1);
            lemma_t_many_comma_idents(q1);
            lemma_l_many_idents(q1, d1, s2.skip(1), d2);
        }
    }
}

#[verifier::spinoff_prover]
#[verifier::rlimit(60)]
pub proof fn lemma_l_many_idents(s1: Seq<Token>, d1: Seq<Token>, s2: Seq<Token>, d2: Seq<Token>)
    requires
        framed(s1, d1, s2, d2),
        d1.len() > 0,
        d2.len() > 0,
        !(d1[0] is Comma),
        !(d2[0] is Comma),
    ensures
        carries(spec_many_comma_idents(s1), d1, spec_many_comma_idents(s2), d2),
    decreases s1.len(),
{
    if let Ok((r, v)) = spec_many_comma_idents(s1) {
        if r == d1 {
            lemma_t_comma_ident(s1);
            if s1.len() == d1.len() {
                lemma_whole(s1, d1, s2, d2);
                if let Ok((q1, e)) = spec_parse_comma_ident(s1) {
                    lemma_t_many_comma_idents(q1);
                    assert(false);
                }
            } else {
                let (q1, e) = spec_parse_comma_ident(s1)->Ok_0;
                lemma_t_many_comma_idents(q1);
                lemma_l_match(s1, d1, s2, d2, Token::Comma);
                let t1 = s1.skip(1);
                let t2 = s2.skip(1);
                lemma_step(t1, d1, t2, d2);
                lemma_l_many_idents(q1, d1, t2.skip(1), d2);
            }
        }
    }
}

#[verifier::spinoff_prover]
pub proof fn lemma_l_block(s1: Seq<Token>, d1: Seq<Token>, s2: Seq<Token>, d2: Seq<Token>)
    requires
        framed(s1, d1, s2, d2),
    ensures
        carries(spec_parse_block_stmt(s1), d1, spec_parse_block_stmt(s2), d2),
    decreases s1.len(), 6nat,
{
    if let Ok((r, v)) = spec_parse_block_stmt(s1) {
        if r == d1 {
            lemma_t_block(s1);
            lemma_l_match(s1, d1, s2, d2, Token::LBrace);
            let t1 = s1.skip(1);
            let t2 = s2.skip(1);
            lemma_t_many_stmts(t1);
            let (m1, body) = spec_many_stmts(t1)->Ok_0;
            lemma_peer(t1, d1, t2, d2, m1);
            let m2 = peer(m1, d1, t2, d2);
            lemma_l_many_stmts(t1, m1, t2, m2);
            lemma_l_match(m1, d1, m2, d2, Token::RBrace);
        }
    }
}

#[verifier::spinoff_prover]
#[verifier::rlimit(60)]
pub proof fn lemma_l_many_stmts(s1: Seq<Token>, d1: Seq<Token>, s2: Seq<Token>, d2: Seq<Token>)
    requires
        framed(s1, d1, s2, d2),
        ends_stmts_alike(d1, d2),
    ensures
        carries(spec_many_stmts(s1), d1, spec_many_stmts(s2), d2),
    decreases s1.len(), 13nat,
{
    if let Ok((r, v)) = spec_many_stmts(s1) {
        if r == d1 {
            lemma_t_stmt(s1);
            if s1.len() == d1.len() {
                lemma_whole(s1, d1, s2, d2);
                if let Ok((q1, st)) = spec_parse_stmt(s1) {
                    lemma_t_many_stmts(q1);
                    assert(false);
                }
                lemma_no_stmt(s2);
            } else {
                let (q1, st) = spec_parse_stmt(s1)->Ok_0;
                lemma_t_many_stmts(q1);
                lemma_peer(s1, d1, s2, d2, q1);
                let q2 = peer(q1, d1, s2, d2);
                if q1.len() > d1.len() {
                    assert(spec_parse_stmt(q1) is Ok);
                    if !starts_stmt(q1[0]) {
                        lemma_no_stmt(q1);
                    }
                    assert(starts_stmt(q1[0]));
                }
                lemma_l_stmt(s1, q1, s2, q2);
                lemma_l_many_stmts(q1, d1, q2, d2);
            }
        }
    }
}

#[verifier::spinoff_prover]
#[verifier::rlimit(30)]
pub proof fn lemma_l_stmt(s1: Seq<Token>, d1: Seq<Token>, s2: Seq<Token>, d2: Seq<Token>)
    requires
        framed(s1, d1, s2, d2),
        stmt_ends_alike(s1, d1, d2),
    ensures
        carries(spec_parse_stmt(s1), d1, spec_parse_stmt(s2), d2),
    decreases s1.len(), 12nat,
{
    if let Ok((r, v)) = spec_parse_stmt(s1) {
        if r == d1 {
            lemma_t_stmt(s1);
            lemma_step(s1, d1, s2, d2);
            lemma_l_match(s1, d1, s2, d2, Token::Let);
            lemma_l_match(s1, d1, s2, d2, Token::Return);
            if !starts_operand(s1[0]) {
                lemma_no_operand(s1, Precedence::PLowest);
            }
            lemma_l_let(s1, d1, s2, d2);
            lemma_l_return(s1, d1, s2, d2);
            lemma_l_expr_stmt(s1, d1, s2, d2);
            if spec_parse_let_stmt(s1) is Ok {
            } else if spec_parse_return_stmt(s1) is Ok {
                assert(s1[0] is Return);
                assert(spec_parse_let_stmt(s2) is Err);
            } else {
                assert(spec_parse_expr_stmt(s1) is Ok);
                assert(!(s1[0] is Let));
                assert(!(s1[0] is Return));
                assert(spec_parse_let_stmt(s2) is Err);
                assert(spec_parse_return_stmt(s2) is Err);
            }
        }
    }
}

/// The expression of a statement, read from `c1` up to `m1`, after which an
/// optional semicolon leaves `d1`: the same reading from the framed `c2`
/// leaves `d2` after the optional semicolon.
#[verifier::spinoff_prover]
#[verifier::rlimit(30)]
proof fn lemma_l_stmt_tail(
    s1: Seq<Token>,
    c1: Seq<Token>,
    d1: Seq<Token>,
    s2: Seq<Token>,
    c2: Seq<Token>,
    d2: Seq<Token>,
)
    requires
        framed(c1, d1, c2, d2),
        is_tail(c1, s1),
        s1.len() - d1.len() == s2.len() - d2.len(),
        stmt_ends_alike(s1, d1, d2),
        spec_parse_expr(c1) matches Ok((m1, _)) && spec_opt_token(m1, Token::SemiColon) == d1,
    ensures
        spec_parse_expr(c1) matches Ok((m1, e)) && spec_parse_expr(c2) matches Ok((m2, e2)) && e2
            == e && spec_opt_token(m2, Token::SemiColon) == d2,
    decreases c1.len(), 10nat,
{
    lemma_t_expr(c1);
    let (m1, e) = spec_parse_expr(c1)->Ok_0;
    lemma_t_match(m1, Token::SemiColon);
    lemma_peer(c1, d1, c2, d2, m1);
    let m2 = peer(m1, d1, c2, d2);
    if m1 == d1 {
        assert(c1[c1.len() - m1.len() - 1] == s1[s1.len() - d1.len() - 1]);
        assert(!(m1[0] is SemiColon));
        lemma_l_expr(c1, m1, c2, m2);
        assert(m2 == d2);
    } else {
        assert(m1.len() == d1.len() + 1);
        lemma_l_expr(c1, m1, c2, m2);
        lemma_l_match(m1, d1, m2, d2, Token::SemiColon);
    }
}

#[verifier::spinoff_prover]
#[verifier::rlimit(30)]
pub proof fn lemma_l_let(s1: Seq<Token>, d1: Seq<Token>, s2: Seq<Token>, d2: Seq<Token>)
    requires
        framed(s1, d1, s2, d2),
        stmt_ends_alike(s1, d1, d2),
    ensures
        carries(spec_parse_let_stmt(s1), d1, spec_parse_let_stmt(s2), d2),
    decreases s1.len(), 11nat,
{
    if let Ok((r, v)) = spec_parse_let_stmt(s1) {
        if r == d1 {
            lemma_t_let(s1);
            lemma_l_match(s1, d1, s2, d2, Token::Let);
            let a1 = s1.skip(1);
            let a2 = s2.skip(1);
            let b1 = a1.skip(1);
            let c1 = b1.skip(1);
            lemma_t_expr(c1);
            let (m1, e) = spec_parse_expr(c1)->Ok_0;
            lemma_t_match(m1, Token::SemiColon);
            assert(d1.len() <= m1.len());
            assert(a1.len() > d1.len() + 1);
            lemma_step(a1, d1, a2, d2);
            let b2 = a2.skip(1);
            lemma_l_match(b1, d1, b2, d2, Token::Assign);
            let c2 = b2.skip(1);
            assert(c1 =~= s1.skip(3));
            lemma_l_stmt_tail(s1, c1, d1, s2, c2, d2);
        }
    }
}

#[verifier::spinoff_prover]
pub proof fn lemma_l_return(s1: Seq<Token>, d1: Seq<Token>, s2: Seq<Token>, d2: Seq<Token>)
    requires
        framed(s1, d1, s2, d2),
        stmt_ends_alike(s1, d1, d2),
    ensures
        carries(spec_parse_return_stmt(s1), d1, spec_parse_return_stmt(s2), d2),
    decreases s1.len(), 11nat,
{
    if let Ok((r, v)) = spec_parse_return_stmt(s1) {
        if r == d1 {
            lemma_t_return(s1);
            lemma_l_match(s1, d1, s2, d2, Token::Return);
            let c1 = s1.skip(1);
            lemma_t_expr(c1);
            let (m1, e) = spec_parse_expr(c1)->Ok_0;
            lemma_t_match(m1, Token::SemiColon);
            lemma_l_stmt_tail(s1, c1, d1, s2, s2.skip(1), d2);
        }
    }
}

#[verifier::spinoff_prover]
pub proof fn lemma_l_expr_stmt(s1: Seq<Token>, d1: Seq<Token>, s2: Seq<Token>, d2: Seq<Token>)
    requires
        framed(s1, d1, s2, d2),
        stmt_ends_alike(s1, d1, d2),
    ensures
        carries(spec_parse_expr_stmt(s1), d1, spec_parse_expr_stmt(s2), d2),
    decreases s1.len(), 11nat,
{
    if let Ok((r, v)) = spec_parse_expr_stmt(s1) {
        if r == d1 {
            lemma_t_expr(s1);
            let (m1, e) = spec_parse_expr(s1)->Ok_0;
            lemma_t_match(m1, Token::SemiColon);
            crate::grammar::lemma_tail_refl(s1);
            lemma_l_stmt_tail(s1, s1, d1, s2, s2, d2);
        }
    }
}

/// A token sequence with no end-of-file token reads as a program, the
/// tokens before `EOF` then being `x`, exactly when its statements read up
/// to that `EOF`.
#[verifier::spinoff_prover]
proof fn lemma_program_statements(x: Seq<Token>, r: Seq<Token>, p: Seq<SpecStmt>)
    requires
        forall|i: int| 0 <= i < x.len() ==> !(#[trigger] x[i] is EOF),
        spec_parse_program(x + seq![Token::EOF]) == Ok::<_, SpecError>((r, p)),
    ensures
        spec_many_stmts(x + seq![Token::EOF]) == Ok::<_, SpecError>((seq![Token::EOF], p)),
        r == Seq::<Token>::empty(),
{
    let s = x + seq![Token::EOF];
    lemma_t_many_stmts(s);
    let (m, q) = spec_many_stmts(s)->Ok_0;
    assert(token_tag(m[0]) == token_tag(Token::EOF));
    let k = s.len() - m.len();
    assert(m[0] == s[k]);
    if k < x.len() {
        assert(s[k] == x[k]);
        assert(false);
    }
    assert(m =~= seq![Token::EOF]);
    assert(r =~= Seq::<Token>::empty());
}

/// Statements that read as exactly one statement up to `EOF` are that
/// statement, read up to `EOF`.
#[verifier::spinoff_prover]
proof fn lemma_only_stmt(s: Seq<Token>, st: SpecStmt)
    requires
        spec_many_stmts(s) == Ok::<_, SpecError>((seq![Token::EOF], seq![st])),
    ensures
        spec_parse_stmt(s) == Ok::<_, SpecError>((seq![Token::EOF], st)),
{
    assert(spec_parse_stmt(s) is Ok);
    let (q, st1) = spec_parse_stmt(s)->Ok_0;
    assert(q.len() < s.len());
    let r = spec_many_stmts(q);
    assert(r is Ok);
    let (m, rest) = r->Ok_0;
    assert(seq![st1] + rest == seq![st]);
    assert(rest.len() == 0);
    assert(st1 == (seq![st1] + rest)[0]);
    if spec_parse_stmt(q) is Ok {
        let (q2, x) = spec_parse_stmt(q)->Ok_0;
        if q2.len() < q.len() {
            let r2 = spec_many_stmts(q2);
            if r2 is Ok {
                assert(rest == seq![x] + r2->Ok_0.1);
            }
        }
        assert(false);
    }
    assert(m == q);
}

/// An expression statement read up to `EOF`, whose tokens do not end on a
/// semicolon, is its expression read up to `EOF`.
#[verifier::spinoff_prover]
proof fn lemma_expr_stmt_to_eof(body: Seq<Token>, e: SpecExpr)
    requires
        body.len() == 0 || !(body.last() is SemiColon),
        spec_parse_stmt(body + seq![Token::EOF]) == Ok::<_, SpecError>(
            (seq![Token::EOF], SpecStmt::ExprStmt(e)),
        ),
    ensures
        spec_parse_expr(body + seq![Token::EOF]) == Ok::<_, SpecError>((seq![Token::EOF], e)),
{
    let eof = seq![Token::EOF];
    let s = body + eof;
    assert(spec_parse_expr_stmt(s) == Ok::<_, SpecError>((eof, SpecStmt::ExprStmt(e))));
    lemma_t_expr(s);
    let (m1, e1) = spec_parse_expr(s)->Ok_0;
    lemma_t_match(m1, Token::SemiColon);
    if m1 != eof {
        assert(m1.len() == 2);
        assert(m1[0] == s[s.len() - 2]);
        assert(s[s.len() - 2] == body.last());
        assert(false);
    }
}

/// A program that reads as one expression statement, `e`, from tokens that
/// hold no end-of-file token before the closing one and do not end on a
/// semicolon, reads as the same single statement with the tokens put in
/// parentheses: parentheses around an expression change nothing.
#[verifier::spinoff_prover]
pub proof fn law_parentheses_change_nothing(body: Seq<Token>, e: SpecExpr, r: Seq<Token>)
    requires
        forall|i: int| 0 <= i < body.len() ==> !(#[trigger] body[i] is EOF),
        body.len() == 0 || !(body.last() is SemiColon),
        spec_parse_program(body + seq![Token::EOF]) == Ok::<_, SpecError>(
            (r, seq![SpecStmt::ExprStmt(e)]),
        ),
    ensures
        spec_parse_program(seq![Token::LParen] + body + seq![Token::RParen, Token::EOF])
            == Ok::<_, SpecError>((Seq::<Token>::empty(), seq![SpecStmt::ExprStmt(e)])),
{
    let eof = seq![Token::EOF];
    let s = body + eof;
    lemma_program_statements(body, r, seq![SpecStmt::ExprStmt(e)]);
    lemma_only_stmt(s, SpecStmt::ExprStmt(e));
    lemma_expr_stmt_to_eof(body, e);
    let d2 = seq![Token::RParen, Token::EOF];
    let s2 = body + d2;
    assert(eof =~= s.skip(s.len() - eof.len()));
    assert(d2 =~= s2.skip(s2.len() - d2.len()));
    assert forall|i: int| 0 <= i < s.len() - eof.len() implies #[trigger] s[i] == s2[i] by {
        assert(s[i] == body[i]);
        assert(s2[i] == body[i]);
    }
    lemma_l_expr(s, eof, s2, d2);
    crate::laws::law_parenthesised_program(body, e);
}

/// Statements that read up to the closing `EOF`, the last of them closed by
/// its semicolon, followed by other statements that read up to `EOF`, read
/// as the first statements, then the others.
#[verifier::spinoff_prover]
#[verifier::rlimit(40)]
proof fn lemma_join_stmts(x: Seq<Token>, b: Seq<Token>, p: Seq<SpecStmt>, pb: Seq<SpecStmt>)
    requires
        forall|i: int| 0 <= i < x.len() ==> !(#[trigger] x[i] is EOF),
        x.len() == 0 || x.last() is SemiColon,
        spec_many_stmts(x + seq![Token::EOF]) == Ok::<_, SpecError>((seq![Token::EOF], p)),
        spec_many_stmts(b + seq![Token::EOF]) == Ok::<_, SpecError>((seq![Token::EOF], pb)),
    ensures
        spec_many_stmts(x + b + seq![Token::EOF]) == Ok::<_, SpecError>((seq![Token::EOF], p + pb)),
    decreases x.len(),
{
    let eof = seq![Token::EOF];
    let s1 = x + eof;
    let s2 = x + b + eof;
    if x.len() == 0 {
        assert(s1 =~= eof);
        lemma_no_stmt(eof);
        assert(p =~= Seq::<SpecStmt>::empty());
        assert(s2 =~= b + eof);
        assert(p + pb =~= pb);
    } else {
        lemma_t_stmt(s1);
        if spec_parse_stmt(s1) is Err {
            assert(s1 == eof);
            assert(false);
        }
        let (q1, st) = spec_parse_stmt(s1)->Ok_0;
        lemma_t_many_stmts(q1);
        let (m, rest) = spec_many_stmts(q1)->Ok_0;
        assert(m == eof);
        let k = s1.len() - q1.len();
        let xr = x.skip(k);
        assert(q1 =~= xr + eof);
        let q2 = xr + b + eof;
        assert(q2 =~= s2.skip(k));
        assert(q1 =~= s1.skip(k));
        assert forall|i: int| 0 <= i < k implies #[trigger] s1[i] == s2[i] by {
            assert(s1[i] == x[i]);
            assert(s2[i] == x[i]);
        }
        assert(framed(s1, q1, s2, q2));
        if xr.len() == 0 {
            assert(s1[s1.len() - q1.len() - 1] == x.last());
        } else {
            assert(q1[0] == xr[0]);
            assert(q2[0] == xr[0]);
            if spec_parse_stmt(q1) is Err {
                assert(q1 == eof);
                assert(false);
            }
            if !starts_stmt(q1[0]) {
                lemma_no_stmt(q1);
            }
            assert(xr.last() == x.last());
        }
        assert(stmt_ends_alike(s1, q1, q2));
        lemma_l_stmt(s1, q1, s2, q2);
        assert forall|i: int| 0 <= i < xr.len() implies !(#[trigger] xr[i] is EOF) by {
            assert(xr[i] == x[k + i]);
        }
        lemma_join_stmts(xr, b, rest, pb);
        assert(p =~= seq![st] + rest);
        assert(p + pb =~= seq![st] + (rest + pb));
    }
}

/// Two token programs, the first ending on the semicolon that closes its
/// last statement and neither holding an end-of-file token before the
/// closing one, written one after the other, read as the first program's
/// statements followed by the second's.
#[verifier::spinoff_prover]
pub proof fn law_joined_programs_read_as_joined_statements(
    a: Seq<Token>,
    b: Seq<Token>,
    ra: Seq<Token>,
    pa: Seq<SpecStmt>,
    rb: Seq<Token>,
    pb: Seq<SpecStmt>,
)
    requires
        forall|i: int| 0 <= i < a.len() ==> !(#[trigger] a[i] is EOF),
        forall|i: int| 0 <= i < b.len() ==> !(#[trigger] b[i] is EOF),
        a.len() > 0,
        a.last() is SemiColon,
        spec_parse_program(a + seq![Token::EOF]) == Ok::<_, SpecError>((ra, pa)),
        spec_parse_program(b + seq![Token::EOF]) == Ok::<_, SpecError>((rb, pb)),
    ensures
        spec_parse_program(a + b + seq![Token::EOF]) == Ok::<_, SpecError>(
            (Seq::<Token>::empty(), pa + pb),
        ),
{
    lemma_program_statements(a, ra, pa);
    lemma_program_statements(b, rb, pb);
    lemma_join_stmts(a, b, pa, pb);
    assert(seq![Token::EOF].skip(1) =~= Seq::<Token>::empty());
}

} // verus!
