//! What every rule leaves over: a tail of its input, with no end-of-file
//! token among the tokens it consumed. The operand and expression rules
//! never end on a semicolon.
use vstd::prelude::*;

use crate::ast::{Precedence, SpecExpr};
use crate::grammar::{
    is_tail, lemma_tail_refl, spec_go_parse_pratt_expr, spec_infix_op, spec_many_comma_exprs,
    spec_many_comma_idents, spec_many_hash_comma_exprs, spec_many_stmts, spec_match_token,
    spec_opt_token, spec_parse_array_expr, spec_parse_atom_expr, spec_parse_block_stmt,
    spec_parse_call_expr, spec_parse_comma_exprs, spec_parse_comma_ident, spec_parse_else_expr,
    spec_parse_expr, spec_parse_expr_stmt, spec_parse_exprs, spec_parse_fn_expr,
    spec_parse_hash_comma_expr, spec_parse_hash_expr, spec_parse_hash_pair,
    spec_parse_hash_pairs, spec_parse_ident, spec_parse_if_expr, spec_parse_index_expr,
    spec_parse_infix_expr, spec_parse_let_stmt, spec_parse_literal, spec_parse_paren_expr,
    spec_parse_params, spec_parse_pratt_expr, spec_parse_prefix_expr, spec_parse_program,
    spec_parse_return_stmt, spec_parse_stmt, spec_prefix_op,
};
use crate::token::{token_tag, Token};

verus! {

broadcast use crate::grammar::lemma_tail_of_tail;

/// `r` is a tail of `s`, and no token that comes before it in `s` is an
/// end-of-file token.
pub open spec fn clean_tail(r: Seq<Token>, s: Seq<Token>) -> bool {
    &&& is_tail(r, s)
    &&& forall|i: int| 0 <= i < s.len() - r.len() ==> !(#[trigger] s[i] is EOF)
}

/// A clean tail that is shorter than `s`: at least one token was consumed.
pub open spec fn strict_tail(r: Seq<Token>, s: Seq<Token>) -> bool {
    clean_tail(r, s) && r.len() < s.len()
}

/// The last token consumed before `r`, if any, is not a semicolon.
pub open spec fn ends_clean(r: Seq<Token>, s: Seq<Token>) -> bool {
    r.len() < s.len() ==> !(s[s.len() - r.len() - 1] is SemiColon)
}

/// Consuming from `s` to `m`, then from `m` to `r`, consumes from `s` to `r`.
#[verifier::spinoff_prover]
pub proof fn lemma_chain(r: Seq<Token>, m: Seq<Token>, s: Seq<Token>)
    requires
        clean_tail(r, m),
        clean_tail(m, s),
    ensures
        clean_tail(r, s),
        r.len() < m.len() && ends_clean(r, m) ==> ends_clean(r, s),
        r.len() == m.len() && ends_clean(m, s) ==> ends_clean(r, s),
{
    let k1 = s.len() - m.len();
    assert forall|i: int| 0 <= i < s.len() - r.len() implies !(#[trigger] s[i] is EOF) by {
        if i >= k1 {
            assert(s[i] == m[i - k1]);
        }
    }
    if r.len() < m.len() {
        assert(s[s.len() - r.len() - 1] == m[m.len() - r.len() - 1]);
    }
}

/// Nothing consumed is a clean tail.
#[verifier::spinoff_prover]
pub proof fn lemma_clean_refl(s: Seq<Token>)
    ensures
        clean_tail(s, s),
        ends_clean(s, s),
{
    lemma_tail_refl(s);
}

/// Consuming the first token, when it is not an end-of-file token.
proof fn lemma_skip_first(s: Seq<Token>)
    requires
        s.len() > 0,
        !(s[0] is EOF),
    ensures
        strict_tail(s.skip(1), s),
        !(s[0] is SemiColon) ==> ends_clean(s.skip(1), s),
{
    assert(s.skip(1) =~= s.skip(s.len() - s.skip(1).len()));
}

#[verifier::spinoff_prover]
pub proof fn lemma_t_match(s: Seq<Token>, k: Token)
    requires
        !(k is EOF),
    ensures
        spec_match_token(s, k) matches Ok(r) ==> strict_tail(r, s) && r == s.skip(1) && (!(
        k is SemiColon) ==> ends_clean(r, s)),
{
    if spec_match_token(s, k) is Ok {
        assert(token_tag(s[0]) == token_tag(k));
        lemma_skip_first(s);
    }
}

#[verifier::spinoff_prover]
pub proof fn lemma_t_opt(s: Seq<Token>)
    ensures
        clean_tail(spec_opt_token(s, Token::SemiColon), s),
{
    lemma_t_match(s, Token::SemiColon);
    lemma_clean_refl(s);
}

#[verifier::spinoff_prover]
pub proof fn lemma_t_literal(s: Seq<Token>)
    ensures
        spec_parse_literal(s) matches Ok((r, _)) ==> strict_tail(r, s) && ends_clean(r, s),
{
    if s.len() > 0 && spec_parse_literal(s) is Ok {
        lemma_skip_first(s);
    }
}

#[verifier::spinoff_prover]
pub proof fn lemma_t_ident(s: Seq<Token>)
    ensures
        spec_parse_ident(s) matches Ok((r, _)) ==> strict_tail(r, s) && ends_clean(r, s),
{
    if s.len() > 0 && spec_parse_ident(s) is Ok {
        lemma_skip_first(s);
    }
}

#[verifier::spinoff_prover]
pub proof fn lemma_t_comma_ident(s: Seq<Token>)
    ensures
        spec_parse_comma_ident(s) matches Ok((r, _)) ==> strict_tail(r, s),
{
    lemma_t_match(s, Token::Comma);
    if let Ok(s1) = spec_match_token(s, Token::Comma) {
        lemma_t_ident(s1);
        if let Ok((s2, _)) = spec_parse_ident(s1) {
            lemma_chain(s2, s1, s);
        }
    }
}

#[verifier::spinoff_prover]
pub proof fn lemma_t_many_comma_idents(s: Seq<Token>)
    ensures
        spec_many_comma_idents(s) matches Ok((r, _)) ==> clean_tail(r, s),
    decreases s.len(),
{
    lemma_clean_refl(s);
    lemma_t_comma_ident(s);
    if let Ok((s1, _)) = spec_parse_comma_ident(s) {
        lemma_t_many_comma_idents(s1);
        if let Ok((r, _)) = spec_many_comma_idents(s1) {
            lemma_chain(r, s1, s);
        }
    }
}

#[verifier::spinoff_prover]
pub proof fn lemma_t_params(s: Seq<Token>)
    ensures
        spec_parse_params(s) matches Ok((r, _)) ==> strict_tail(r, s),
{
    lemma_t_ident(s);
    if let Ok((s1, _)) = spec_parse_ident(s) {
        lemma_t_many_comma_idents(s1);
        if let Ok((r, _)) = spec_many_comma_idents(s1) {
            lemma_chain(r, s1, s);
        }
    }
}

#[verifier::spinoff_prover]
pub proof fn lemma_t_expr(s: Seq<Token>)
    ensures
        spec_parse_expr(s) matches Ok((r, _)) ==> strict_tail(r, s) && ends_clean(r, s),
    decreases s.len(), 9nat,
{
    lemma_t_pratt(s, Precedence::PLowest);
}

#[verifier::spinoff_prover]
pub proof fn lemma_t_pratt(s: Seq<Token>, prec: Precedence)
    ensures
        spec_parse_pratt_expr(s, prec) matches Ok((r, _)) ==> strict_tail(r, s) && ends_clean(r, s),
    decreases s.len(), 8nat,
{
    lemma_t_atom(s);
    if let Ok((s1, left)) = spec_parse_atom_expr(s) {
        lemma_t_go(s1, prec, left);
        if let Ok((r, _)) = spec_go_parse_pratt_expr(s1, prec, left) {
            lemma_chain(r, s1, s);
        }
    }
}

#[verifier::spinoff_prover]
pub proof fn lemma_t_go(s: Seq<Token>, prec: Precedence, left: SpecExpr)
    ensures
        spec_go_parse_pratt_expr(s, prec, left) matches Ok((r, _)) ==> clean_tail(r, s)
            && ends_clean(r, s),
    decreases s.len(), 7nat,
{
    lemma_clean_refl(s);
    if s.len() > 0 {
        lemma_t_call(s, left);
        lemma_t_index(s, left);
        lemma_t_infix(s, left);
        let peek = spec_infix_op(s[0]).0;
        let step = if peek == Precedence::PCall {
            spec_parse_call_expr(s, left)
        } else if peek == Precedence::PIndex {
            spec_parse_index_expr(s, left)
        } else {
            spec_parse_infix_expr(s, left)
        };
        if let Ok((s1, left2)) = step {
            if s1.len() < s.len() {
                lemma_t_go(s1, prec, left2);
                if let Ok((r, _)) = spec_go_parse_pratt_expr(s1, prec, left2) {
                    lemma_chain(r, s1, s);
                }
            }
        }
    }
}

#[verifier::spinoff_prover]
pub proof fn lemma_t_infix(s: Seq<Token>, left: SpecExpr)
    ensures
        spec_parse_infix_expr(s, left) matches Ok((r, _)) ==> strict_tail(r, s) && ends_clean(r, s),
    decreases s.len(), 6nat,
{
    if s.len() > 0 && spec_infix_op(s[0]).1 is Some {
        lemma_skip_first(s);
        let s1 = s.skip(1);
        lemma_t_pratt(s1, spec_infix_op(s[0]).0);
        if let Ok((r, _)) = spec_parse_pratt_expr(s1, spec_infix_op(s[0]).0) {
            lemma_chain(r, s1, s);
        }
    }
}

#[verifier::spinoff_prover]
pub proof fn lemma_t_call(s: Seq<Token>, f: SpecExpr)
    ensures
        spec_parse_call_expr(s, f) matches Ok((r, _)) ==> strict_tail(r, s) && ends_clean(r, s),
    decreases s.len(), 6nat,
{
    lemma_t_match(s, Token::LParen);
    if let Ok(s1) = spec_match_token(s, Token::LParen) {
        lemma_t_exprs(s1);
        lemma_clean_refl(s1);
        let s2 = match spec_parse_exprs(s1) {
            Ok((r, _)) => r,
            Err(_) => s1,
        };
        lemma_t_match(s2, Token::RParen);
        if let Ok(s3) = spec_match_token(s2, Token::RParen) {
            lemma_chain(s2, s1, s);
            lemma_chain(s3, s2, s);
        }
    }
}

#[verifier::spinoff_prover]
pub proof fn lemma_t_index(s: Seq<Token>, a: SpecExpr)
    ensures
        spec_parse_index_expr(s, a) matches Ok((r, _)) ==> strict_tail(r, s) && ends_clean(r, s),
    decreases s.len(), 6nat,
{
    lemma_t_match(s, Token::LBracket);
    if let Ok(s1) = spec_match_token(s, Token::LBracket) {
        lemma_t_expr(s1);
        if let Ok((s2, _)) = spec_parse_expr(s1) {
            lemma_t_match(s2, Token::RBracket);
            if let Ok(s3) = spec_match_token(s2, Token::RBracket) {
                lemma_chain(s2, s1, s);
                lemma_chain(s3, s2, s);
            }
        }
    }
}

#[verifier::spinoff_prover]
pub proof fn lemma_t_atom(s: Seq<Token>)
    ensures
        spec_parse_atom_expr(s) matches Ok((r, _)) ==> strict_tail(r, s) && ends_clean(r, s),
    decreases s.len(), 7nat,
{
    lemma_t_literal(s);
    lemma_t_ident(s);
    lemma_t_prefix(s);
    lemma_t_paren(s);
    lemma_t_array(s);
    lemma_t_hash(s);
    lemma_t_if(s);
    lemma_t_fn(s);
}

#[verifier::spinoff_prover]
pub proof fn lemma_t_prefix(s: Seq<Token>)
    ensures
        spec_parse_prefix_expr(s) matches Ok((r, _)) ==> strict_tail(r, s) && ends_clean(r, s),
    decreases s.len(), 6nat,
{
    if s.len() > 0 && spec_prefix_op(s[0]) is Some {
        lemma_skip_first(s);
        let s1 = s.skip(1);
        lemma_t_atom(s1);
        if let Ok((r, _)) = spec_parse_atom_expr(s1) {
            lemma_chain(r, s1, s);
        }
    }
}

#[verifier::spinoff_prover]
pub proof fn lemma_t_paren(s: Seq<Token>)
    ensures
        spec_parse_paren_expr(s) matches Ok((r, _)) ==> strict_tail(r, s) && ends_clean(r, s),
    decreases s.len(), 6nat,
{
    lemma_t_match(s, Token::LParen);
    if let Ok(s1) = spec_match_token(s, Token::LParen) {
        lemma_t_expr(s1);
        if let Ok((s2, _)) = spec_parse_expr(s1) {
            lemma_t_match(s2, Token::RParen);
            if let Ok(s3) = spec_match_token(s2, Token::RParen) {
                lemma_chain(s2, s1, s);
                lemma_chain(s3, s2, s);
            }
        }
    }
}

#[verifier::spinoff_prover]
pub proof fn lemma_t_exprs(s: Seq<Token>)
    ensures
        spec_parse_exprs(s) matches Ok((r, _)) ==> strict_tail(r, s),
    decreases s.len(), 10nat,
{
    lemma_t_expr(s);
    if let Ok((s1, _)) = spec_parse_expr(s) {
        lemma_t_many_comma_exprs(s1);
        if let Ok((r, _)) = spec_many_comma_exprs(s1) {
            lemma_chain(r, s1, s);
        }
    }
}

#[verifier::spinoff_prover]
pub proof fn lemma_t_comma_exprs(s: Seq<Token>)
    ensures
        spec_parse_comma_exprs(s) matches Ok((r, _)) ==> strict_tail(r, s),
    decreases s.len(), 6nat,
{
    lemma_t_match(s, Token::Comma);
    if let Ok(s1) = spec_match_token(s, Token::Comma) {
        lemma_t_expr(s1);
        if let Ok((r, _)) = spec_parse_expr(s1) {
            lemma_chain(r, s1, s);
        }
    }
}

#[verifier::spinoff_prover]
pub proof fn lemma_t_many_comma_exprs(s: Seq<Token>)
    ensures
        spec_many_comma_exprs(s) matches Ok((r, _)) ==> clean_tail(r, s),
    decreases s.len(), 7nat,
{
    lemma_clean_refl(s);
    lemma_t_comma_exprs(s);
    if let Ok((s1, _)) = spec_parse_comma_exprs(s) {
        lemma_t_many_comma_exprs(s1);
        if let Ok((r, _)) = spec_many_comma_exprs(s1) {
            lemma_chain(r, s1, s);
        }
    }
}

#[verifier::spinoff_prover]
pub proof fn lemma_t_array(s: Seq<Token>)
    ensures
        spec_parse_array_expr(s) matches Ok((r, _)) ==> strict_tail(r, s) && ends_clean(r, s),
    decreases s.len(), 6nat,
{
    lemma_t_match(s, Token::LBracket);
    if let Ok(s1) = spec_match_token(s, Token::LBracket) {
        lemma_t_exprs(s1);
        lemma_clean_refl(s1);
        let s2 = match spec_parse_exprs(s1) {
            Ok((r, _)) => r,
            Err(_) => s1,
        };
        lemma_t_match(s2, Token::RBracket);
        if let Ok(s3) = spec_match_token(s2, Token::RBracket) {
            lemma_chain(s2, s1, s);
            lemma_chain(s3, s2, s);
        }
    }
}

#[verifier::spinoff_prover]
pub proof fn lemma_t_hash_pair(s: Seq<Token>)
    ensures
        spec_parse_hash_pair(s) matches Ok((r, _)) ==> strict_tail(r, s),
    decreases s.len(), 6nat,
{
    lemma_t_literal(s);
    if let Ok((s1, _)) = spec_parse_literal(s) {
        lemma_t_match(s1, Token::Colon);
        if let Ok(s2) = spec_match_token(s1, Token::Colon) {
            lemma_t_expr(s2);
            if let Ok((r, _)) = spec_parse_expr(s2) {
                lemma_chain(s2, s1, s);
                lemma_chain(r, s2, s);
            }
        }
    }
}

#[verifier::spinoff_prover]
pub proof fn lemma_t_hash_pairs(s: Seq<Token>)
    ensures
        spec_parse_hash_pairs(s) matches Ok((r, _)) ==> strict_tail(r, s),
    decreases s.len(), 8nat,
{
    lemma_t_hash_pair(s);
    if let Ok((s1, _)) = spec_parse_hash_pair(s) {
        lemma_t_many_hash(s1);
        if let Ok((r, _)) = spec_many_hash_comma_exprs(s1) {
            lemma_chain(r, s1, s);
        }
    }
}

#[verifier::spinoff_prover]
pub proof fn lemma_t_hash_comma(s: Seq<Token>)
    ensures
        spec_parse_hash_comma_expr(s) matches Ok((r, _)) ==> strict_tail(r, s),
    decreases s.len(), 6nat,
{
    lemma_t_match(s, Token::Comma);
    if let Ok(s1) = spec_match_token(s, Token::Comma) {
        lemma_t_hash_pair(s1);
        if let Ok((r, _)) = spec_parse_hash_pair(s1) {
            lemma_chain(r, s1, s);
        }
    }
}

#[verifier::spinoff_prover]
pub proof fn lemma_t_many_hash(s: Seq<Token>)
    ensures
        spec_many_hash_comma_exprs(s) matches Ok((r, _)) ==> clean_tail(r, s),
    decreases s.len(), 7nat,
{
    lemma_clean_refl(s);
    lemma_t_hash_comma(s);
    if let Ok((s1, _)) = spec_parse_hash_comma_expr(s) {
        lemma_t_many_hash(s1);
        if let Ok((r, _)) = spec_many_hash_comma_exprs(s1) {
            lemma_chain(r, s1, s);
        }
    }
}

#[verifier::spinoff_prover]
pub proof fn lemma_t_hash(s: Seq<Token>)
    ensures
        spec_parse_hash_expr(s) matches Ok((r, _)) ==> strict_tail(r, s) && ends_clean(r, s),
    decreases s.len(), 6nat,
{
    lemma_t_match(s, Token::LBrace);
    if let Ok(s1) = spec_match_token(s, Token::LBrace) {
        lemma_t_hash_pairs(s1);
        lemma_clean_refl(s1);
        let s2 = match spec_parse_hash_pairs(s1) {
            Ok((r, _)) => r,
            Err(_) => s1,
        };
        lemma_t_match(s2, Token::RBrace);
        if let Ok(s3) = spec_match_token(s2, Token::RBrace) {
            lemma_chain(s2, s1, s);
            lemma_chain(s3, s2, s);
        }
    }
}

#[verifier::spinoff_prover]
#[verifier::rlimit(40)]
pub proof fn lemma_t_if(s: Seq<Token>)
    ensures
        spec_parse_if_expr(s) matches Ok((r, _)) ==> strict_tail(r, s) && ends_clean(r, s),
    decreases s.len(), 6nat,
{
    lemma_t_match(s, Token::If);
    if let Ok(s1) = spec_match_token(s, Token::If) {
        lemma_t_match(s1, Token::LParen);
        if let Ok(s2) = spec_match_token(s1, Token::LParen) {
            lemma_t_expr(s2);
            if let Ok((s3, _)) = spec_parse_expr(s2) {
                lemma_t_match(s3, Token::RParen);
                if let Ok(s4) = spec_match_token(s3, Token::RParen) {
                    lemma_chain(s2, s1, s);
                    lemma_chain(s3, s2, s);
                    lemma_chain(s4, s3, s);
                    lemma_t_block(s4);
                    if let Ok((s5, _)) = spec_parse_block_stmt(s4) {
                        lemma_chain(s5, s4, s);
                        lemma_t_else(s5);
                        if let Ok((s6, _)) = spec_parse_else_expr(s5) {
                            lemma_chain(s6, s5, s);
                        }
                    }
                }
            }
        }
    }
}

#[verifier::spinoff_prover]
pub proof fn lemma_t_else(s: Seq<Token>)
    ensures
        spec_parse_else_expr(s) matches Ok((r, _)) ==> clean_tail(r, s) && ends_clean(r, s),
    decreases s.len(), 6nat,
{
    lemma_clean_refl(s);
    lemma_t_match(s, Token::Else);
    if let Ok(s1) = spec_match_token(s, Token::Else) {
        lemma_t_block(s1);
        if let Ok((s2, _)) = spec_parse_block_stmt(s1) {
            lemma_chain(s2, s1, s);
        }
    }
}

#[verifier::spinoff_prover]
pub proof fn lemma_t_fn(s: Seq<Token>)
    ensures
        spec_parse_fn_expr(s) matches Ok((r, _)) ==> strict_tail(r, s) && ends_clean(r, s),
    decreases s.len(), 6nat,
{
    lemma_t_match(s, Token::Function);
    if let Ok(s1) = spec_match_token(s, Token::Function) {
        lemma_t_match(s1, Token::LParen);
        if let Ok(s2) = spec_match_token(s1, Token::LParen) {
            lemma_t_params(s2);
            lemma_clean_refl(s2);
            let s3 = match spec_parse_params(s2) {
                Ok((r, _)) => r,
                Err(_) => s2,
            };
            lemma_t_match(s3, Token::RParen);
            if let Ok(s4) = spec_match_token(s3, Token::RParen) {
                lemma_chain(s2, s1, s);
                lemma_chain(s3, s2, s);
                lemma_chain(s4, s3, s);
                lemma_t_block(s4);
                if let Ok((s5, _)) = spec_parse_block_stmt(s4) {
                    lemma_chain(s5, s4, s);
                }
            }
        }
    }
}

#[verifier::spinoff_prover]
pub proof fn lemma_t_block(s: Seq<Token>)
    ensures
        spec_parse_block_stmt(s) matches Ok((r, _)) ==> strict_tail(r, s) && ends_clean(r, s),
    decreases s.len(), 6nat,
{
    lemma_t_match(s, Token::LBrace);
    if let Ok(s1) = spec_match_token(s, Token::LBrace) {
        lemma_t_many_stmts(s1);
        if let Ok((s2, _)) = spec_many_stmts(s1) {
            lemma_t_match(s2, Token::RBrace);
            if let Ok(s3) = spec_match_token(s2, Token::RBrace) {
                lemma_chain(s2, s1, s);
                lemma_chain(s3, s2, s);
            }
        }
    }
}

#[verifier::spinoff_prover]
pub proof fn lemma_t_many_stmts(s: Seq<Token>)
    ensures
        spec_many_stmts(s) matches Ok((r, _)) ==> clean_tail(r, s),
    decreases s.len(), 12nat,
{
    lemma_clean_refl(s);
    lemma_t_stmt(s);
    if let Ok((s1, _)) = spec_parse_stmt(s) {
        lemma_t_many_stmts(s1);
        if let Ok((r, _)) = spec_many_stmts(s1) {
            lemma_chain(r, s1, s);
        }
    }
}

#[verifier::spinoff_prover]
pub proof fn lemma_t_stmt(s: Seq<Token>)
    ensures
        spec_parse_stmt(s) matches Ok((r, _)) ==> strict_tail(r, s),
    decreases s.len(), 11nat,
{
    lemma_t_let(s);
    lemma_t_return(s);
    lemma_t_expr_stmt(s);
}

#[verifier::spinoff_prover]
pub proof fn lemma_t_let(s: Seq<Token>)
    ensures
        spec_parse_let_stmt(s) matches Ok((r, _)) ==> strict_tail(r, s),
    decreases s.len(), 10nat,
{
    lemma_t_match(s, Token::Let);
    if let Ok(s1) = spec_match_token(s, Token::Let) {
        lemma_t_ident(s1);
        if let Ok((s2, _)) = spec_parse_ident(s1) {
            lemma_t_match(s2, Token::Assign);
            if let Ok(s3) = spec_match_token(s2, Token::Assign) {
                lemma_chain(s2, s1, s);
                lemma_chain(s3, s2, s);
                lemma_t_expr(s3);
                if let Ok((s4, _)) = spec_parse_expr(s3) {
                    lemma_chain(s4, s3, s);
                    lemma_t_opt(s4);
                    lemma_chain(spec_opt_token(s4, Token::SemiColon), s4, s);
                }
            }
        }
    }
}

#[verifier::spinoff_prover]
pub proof fn lemma_t_return(s: Seq<Token>)
    ensures
        spec_parse_return_stmt(s) matches Ok((r, _)) ==> strict_tail(r, s),
    decreases s.len(), 10nat,
{
    lemma_t_match(s, Token::Return);
    if let Ok(s1) = spec_match_token(s, Token::Return) {
        lemma_t_expr(s1);
        if let Ok((s2, _)) = spec_parse_expr(s1) {
            lemma_chain(s2, s1, s);
            lemma_t_opt(s2);
            lemma_chain(spec_opt_token(s2, Token::SemiColon), s2, s);
        }
    }
}

#[verifier::spinoff_prover]
pub proof fn lemma_t_expr_stmt(s: Seq<Token>)
    ensures
        spec_parse_expr_stmt(s) matches Ok((r, _)) ==> strict_tail(r, s),
    decreases s.len(), 10nat,
{
    lemma_t_expr(s);
    if let Ok((s1, _)) = spec_parse_expr(s) {
        lemma_t_opt(s1);
        lemma_chain(spec_opt_token(s1, Token::SemiColon), s1, s);
    }
}

/// A successful reading of a program stops right after the first
/// end-of-file token: what is left is a tail of the input, the token just
/// before it is an end-of-file token, and no earlier token is one.
#[verifier::spinoff_prover]
pub proof fn law_program_stops_at_first_eof(s: Seq<Token>)
    ensures
        spec_parse_program(s) matches Ok((r, _)) ==> {
            &&& is_tail(r, s)
            &&& r.len() < s.len()
            &&& s[s.len() - r.len() - 1] is EOF
            &&& forall|i: int| 0 <= i < s.len() - r.len() - 1 ==> !(#[trigger] s[i] is EOF)
        },
{
    lemma_t_many_stmts(s);
    if let Ok((m, _)) = spec_many_stmts(s) {
        if let Ok(r) = spec_match_token(m, Token::EOF) {
            assert(token_tag(m[0]) == token_tag(Token::EOF));
            assert(m[0] is EOF);
            assert(r =~= s.skip(s.len() - r.len()));
            assert(s[s.len() - r.len() - 1] == m[0]);
        }
    }
}

/// Every rule of the grammar that reads leaves a tail of its input and
/// consumes no end-of-file token; the rules that read an operand, an
/// expression, a block or a statement consume at least one token, and the
/// operand and expression rules and blocks end on a token other than a
/// semicolon.
#[verifier::spinoff_prover]
pub proof fn law_rules_leave_tails(s: Seq<Token>, prec: Precedence, left: SpecExpr)
    ensures
        spec_parse_literal(s) matches Ok((r, _)) ==> strict_tail(r, s) && ends_clean(r, s),
        spec_parse_ident(s) matches Ok((r, _)) ==> strict_tail(r, s) && ends_clean(r, s),
        spec_parse_params(s) matches Ok((r, _)) ==> strict_tail(r, s),
        spec_many_comma_idents(s) matches Ok((r, _)) ==> clean_tail(r, s),
        spec_parse_expr(s) matches Ok((r, _)) ==> strict_tail(r, s) && ends_clean(r, s),
        spec_parse_pratt_expr(s, prec) matches Ok((r, _)) ==> strict_tail(r, s) && ends_clean(r, s),
        spec_go_parse_pratt_expr(s, prec, left) matches Ok((r, _)) ==> clean_tail(r, s)
            && ends_clean(r, s),
        spec_parse_infix_expr(s, left) matches Ok((r, _)) ==> strict_tail(r, s) && ends_clean(r, s),
        spec_parse_call_expr(s, left) matches Ok((r, _)) ==> strict_tail(r, s) && ends_clean(r, s),
        spec_parse_index_expr(s, left) matches Ok((r, _)) ==> strict_tail(r, s) && ends_clean(r, s),
        spec_parse_atom_expr(s) matches Ok((r, _)) ==> strict_tail(r, s) && ends_clean(r, s),
        spec_parse_prefix_expr(s) matches Ok((r, _)) ==> strict_tail(r, s) && ends_clean(r, s),
        spec_parse_paren_expr(s) matches Ok((r, _)) ==> strict_tail(r, s) && ends_clean(r, s),
        spec_parse_exprs(s) matches Ok((r, _)) ==> strict_tail(r, s),
        spec_many_comma_exprs(s) matches Ok((r, _)) ==> clean_tail(r, s),
        spec_parse_array_expr(s) matches Ok((r, _)) ==> strict_tail(r, s) && ends_clean(r, s),
        spec_parse_hash_pairs(s) matches Ok((r, _)) ==> strict_tail(r, s),
        spec_many_hash_comma_exprs(s) matches Ok((r, _)) ==> clean_tail(r, s),
        spec_parse_hash_expr(s) matches Ok((r, _)) ==> strict_tail(r, s) && ends_clean(r, s),
        spec_parse_if_expr(s) matches Ok((r, _)) ==> strict_tail(r, s) && ends_clean(r, s),
        spec_parse_else_expr(s) matches Ok((r, _)) ==> clean_tail(r, s) && ends_clean(r, s),
        spec_parse_fn_expr(s) matches Ok((r, _)) ==> strict_tail(r, s) && ends_clean(r, s),
        spec_parse_block_stmt(s) matches Ok((r, _)) ==> strict_tail(r, s) && ends_clean(r, s),
        spec_many_stmts(s) matches Ok((r, _)) ==> clean_tail(r, s),
        spec_parse_stmt(s) matches Ok((r, _)) ==> strict_tail(r, s),
        spec_parse_let_stmt(s) matches Ok((r, _)) ==> strict_tail(r, s),
        spec_parse_return_stmt(s) matches Ok((r, _)) ==> strict_tail(r, s),
        spec_parse_expr_stmt(s) matches Ok((r, _)) ==> strict_tail(r, s),
{
    lemma_t_literal(s);
    lemma_t_ident(s);
    lemma_t_params(s);
    lemma_t_many_comma_idents(s);
    lemma_t_expr(s);
    lemma_t_pratt(s, prec);
    lemma_t_go(s, prec, left);
    lemma_t_infix(s, left);
    lemma_t_call(s, left);
    lemma_t_index(s, left);
    lemma_t_atom(s);
    lemma_t_prefix(s);
    lemma_t_paren(s);
    lemma_t_exprs(s);
    lemma_t_many_comma_exprs(s);
    lemma_t_array(s);
    lemma_t_hash_pairs(s);
    lemma_t_many_hash(s);
    lemma_t_hash(s);
    lemma_t_if(s);
    lemma_t_else(s);
    lemma_t_fn(s);
    lemma_t_block(s);
    lemma_t_many_stmts(s);
    lemma_t_stmt(s);
    lemma_t_let(s);
    lemma_t_return(s);
    lemma_t_expr_stmt(s);
}

} // verus!
