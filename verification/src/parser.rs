//! The parser: a verified recursive-descent and precedence-climbing reader
//! of token buffers. Every rule returns exactly what the rule of the same
//! name in `grammar` reads.
use vstd::prelude::*;

use crate::ast::{
    exprs_view, lemma_exprs_view_push, lemma_pairs_view_push, lemma_stmts_view_push, pairs_view,
    program_view, stmts_view, Expr, Ident, Infix, Literal, Precedence, Prefix, Program, SpecExpr,
    SpecStmt,
    Stmt,
};
use crate::grammar::{
    is_tail, lemma_prepend_empty, lemma_prepend_push, lemma_tail_refl, prec_rank, prepend,
    spec_go_parse_pratt_expr, spec_infix_op, spec_many_comma_exprs, spec_many_comma_idents, spec_many_hash_comma_exprs,
    spec_many_stmts, spec_match_token, spec_opt_token, spec_parse_array_expr,
    spec_parse_atom_expr, spec_parse_block_stmt, spec_parse_call_expr, spec_parse_comma_exprs,
    spec_parse_else_expr, spec_parse_expr, spec_parse_expr_stmt,
    spec_parse_exprs, spec_parse_fn_expr, spec_parse_hash_comma_expr, spec_parse_hash_expr,
    spec_parse_hash_pair, spec_parse_hash_pairs, spec_parse_ident, spec_parse_if_expr,
    spec_parse_index_expr, spec_parse_infix_expr, spec_parse_let_stmt, spec_parse_literal,
    spec_parse_paren_expr, spec_parse_params, spec_parse_pratt_expr, spec_parse_prefix_expr,
    spec_parse_program, spec_parse_return_stmt, spec_parse_stmt, ErrorKind, SpecError, SpecResult,
};
use crate::tails::law_program_stops_at_first_eof;
use crate::token::{tokens_equal, Token, Tokens};

verus! {

broadcast use crate::grammar::lemma_tail_of_tail;

/// Why the tokens have no reading: the tokens left where reading stopped,
/// and the kind of failure.
#[derive(Debug, Clone, Copy)]
pub struct ParseError<'a> {
    pub input: Tokens<'a>,
    pub code: ErrorKind,
}

/// Where a rule stopped, and why.
pub type RuleError<'a> = (&'a [Token], ErrorKind);

/// What a rule returns: the tokens left over and the value read, or where
/// and why it failed.
pub type PResult<'a, T> = Result<(&'a [Token], T), RuleError<'a>>;

/// `res` is what the grammar reads, with values taken through `model`.
pub open spec fn agrees<'a, T, V>(
    res: PResult<'a, T>,
    spec: SpecResult<V>,
    model: spec_fn(T) -> V,
) -> bool {
    match res {
        Ok((rest, v)) => spec == Ok::<_, SpecError>((rest@, model(v))),
        Err((at, code)) => spec == Err::<(Seq<Token>, V), SpecError>((at@, code)),
    }
}

/// On success, at least one token was consumed, and what is left is the
/// tail of the input.
pub open spec fn consumes<'a, T>(res: PResult<'a, T>, input: &[Token]) -> bool {
    res matches Ok((rest, _)) ==> rest@.len() < input@.len() && is_tail(rest@, input@)
}

/// On success, what is left is the tail of the input.
pub open spec fn within<'a, T>(res: PResult<'a, T>, input: &[Token]) -> bool {
    res matches Ok((rest, _)) ==> is_tail(rest@, input@)
}

fn skip_one<'a>(input: &'a [Token]) -> (r: &'a [Token])
    requires
        input@.len() > 0,
    ensures
        r@ == input@.skip(1),
        is_tail(r@, input@),
{
    let r = &input[1..input.len()];
    assert(r@ =~= input@.skip(input@.len() - r@.len()));
    r
}

/// Consumes one token equal to `kind`.
fn match_token<'a>(input: &'a [Token], kind: Token) -> (res: Result<&'a [Token], RuleError<'a>>)
    ensures
        match res {
            Ok(r) => spec_match_token(input@, kind) == Ok::<_, SpecError>(r@) && is_tail(r@, input@),
            Err((at, code)) => spec_match_token(input@, kind) == Err::<Seq<Token>, _>((at@, code)),
        },
{
    if input.len() == 0 {
        Err((input, ErrorKind::Eof))
    } else if tokens_equal(&input[0], &kind) {
        Ok(skip_one(input))
    } else {
        Err((input, ErrorKind::Verify))
    }
}

/// Consumes a token equal to `kind` if one comes next.
fn opt_token<'a>(input: &'a [Token], kind: Token) -> (r: &'a [Token])
    ensures
        r@ == spec_opt_token(input@, kind),
        is_tail(r@, input@),
{
    proof {
        lemma_tail_refl(input@);
    }
    match match_token(input, kind) {
        Ok(r) => r,
        Err(_) => input,
    }
}

fn parse_literal<'a>(input: &'a [Token]) -> (res: PResult<'a, Literal>)
    ensures
        agrees(res, spec_parse_literal(input@), |l: Literal| l),
        consumes(res, input),
{
    if input.len() == 0 {
        return Err((input, ErrorKind::Eof));
    }
    let rest = skip_one(input);
    match &input[0] {
        Token::IntLiteral(n) => Ok((rest, Literal::IntLiteral(*n))),
        Token::StringLiteral(s) => Ok((rest, Literal::StringLiteral(s.clone()))),
        Token::BoolLiteral(b) => Ok((rest, Literal::BoolLiteral(*b))),
        _ => Err((input, ErrorKind::Tag)),
    }
}

fn parse_ident<'a>(input: &'a [Token]) -> (res: PResult<'a, Ident>)
    ensures
        agrees(res, spec_parse_ident(input@), |i: Ident| i),
        consumes(res, input),
{
    if input.len() == 0 {
        return Err((input, ErrorKind::Eof));
    }
    let rest = skip_one(input);
    match &input[0] {
        Token::Ident(name) => Ok((rest, Ident(name.clone()))),
        _ => Err((input, ErrorKind::Tag)),
    }
}

/// The binding power of the token after an operand, and its infix operator.
pub fn infix_op(t: &Token) -> (r: (Precedence, Option<Infix>))
    ensures
        r == spec_infix_op(*t),
{
    match t {
        Token::Equal => (Precedence::PEquals, Some(Infix::Equal)),
        Token::NotEqual => (Precedence::PEquals, Some(Infix::NotEqual)),
        Token::LessThanEqual => (Precedence::PLessGreater, Some(Infix::LessThanEqual)),
        Token::GreaterThanEqual => (Precedence::PLessGreater, Some(Infix::GreaterThanEqual)),
        Token::LessThan => (Precedence::PLessGreater, Some(Infix::LessThan)),
        Token::GreaterThan => (Precedence::PLessGreater, Some(Infix::GreaterThan)),
        Token::Plus => (Precedence::PSum, Some(Infix::Plus)),
        Token::Minus => (Precedence::PSum, Some(Infix::Minus)),
        Token::Multiply => (Precedence::PProduct, Some(Infix::Multiply)),
        Token::Divide => (Precedence::PProduct, Some(Infix::Divide)),
        Token::LParen => (Precedence::PCall, None),
        Token::LBracket => (Precedence::PIndex, None),
        _ => (Precedence::PLowest, None),
    }
}

fn precedence_rank(p: Precedence) -> (r: u8)
    ensures
        r as nat == prec_rank(p),
{
    match p {
        Precedence::PLowest => 0,
        Precedence::PEquals => 1,
        Precedence::PLessGreater => 2,
        Precedence::PSum => 3,
        Precedence::PProduct => 4,
        Precedence::PCall => 5,
        Precedence::PIndex => 6,
    }
}

fn parse_expr<'a>(input: &'a [Token]) -> (res: PResult<'a, Expr>)
    ensures
        agrees(res, spec_parse_expr(input@), |e: Expr| e@),
        consumes(res, input),
    decreases input@.len(), 9nat,
{
    parse_pratt_expr(input, Precedence::PLowest)
}

fn parse_pratt_expr<'a>(input: &'a [Token], precedence: Precedence) -> (res: PResult<'a, Expr>)
    ensures
        agrees(res, spec_parse_pratt_expr(input@, precedence), |e: Expr| e@),
        consumes(res, input),
    decreases input@.len(), 8nat,
{
    let (i1, left) = parse_atom_expr(input)?;
    go_parse_pratt_expr(i1, precedence, left)
}

fn go_parse_pratt_expr<'a>(input: &'a [Token], precedence: Precedence, left: Expr) -> (res:
    PResult<'a, Expr>)
    ensures
        agrees(res, spec_go_parse_pratt_expr(input@, precedence, left@), |e: Expr| e@),
        within(res, input),
    decreases input@.len(), 7nat,
{
    if input.len() == 0 {
        return Err((input, ErrorKind::Eof));
    }
    let (peek, _) = infix_op(&input[0]);
    if precedence_rank(precedence) < precedence_rank(peek) {
        let ghost left_model = left@;
        let step = if peek == Precedence::PCall {
            parse_call_expr(input, left)
        } else if peek == Precedence::PIndex {
            parse_index_expr(input, left)
        } else {
            parse_infix_expr(input, left)
        };
        let (i2, left2) = step?;
        go_parse_pratt_expr(i2, precedence, left2)
    } else {
        proof {
            lemma_tail_refl(input@);
        }
        Ok((input, left))
    }
}

fn parse_infix_expr<'a>(input: &'a [Token], left: Expr) -> (res: PResult<'a, Expr>)
    ensures
        agrees(res, spec_parse_infix_expr(input@, left@), |e: Expr| e@),
        consumes(res, input),
    decreases input@.len(), 6nat,
{
    if input.len() == 0 {
        return Err((input, ErrorKind::Eof));
    }
    let (precedence, maybe_op) = infix_op(&input[0]);
    match maybe_op {
        None => Err((input, ErrorKind::Tag)),
        Some(op) => {
            let (i2, right) = parse_pratt_expr(skip_one(input), precedence)?;
            Ok((i2, Expr::InfixExpr(op, Box::new(left), Box::new(right))))
        },
    }
}

fn parse_call_expr<'a>(input: &'a [Token], fn_handle: Expr) -> (res: PResult<'a, Expr>)
    ensures
        agrees(res, spec_parse_call_expr(input@, fn_handle@), |e: Expr| e@),
        consumes(res, input),
    decreases input@.len(), 6nat,
{
    let i1 = match_token(input, Token::LParen)?;
    let (i2, arguments) = match parse_exprs(i1) {
        Ok(x) => x,
        Err(_) => empty_boxed_vec(i1),
    };
    let i3 = match_token(i2, Token::RParen)?;
    Ok((i3, Expr::CallExpr { function: Box::new(fn_handle), arguments }))
}

fn parse_index_expr<'a>(input: &'a [Token], arr: Expr) -> (res: PResult<'a, Expr>)
    ensures
        agrees(res, spec_parse_index_expr(input@, arr@), |e: Expr| e@),
        consumes(res, input),
    decreases input@.len(), 6nat,
{
    let i1 = match_token(input, Token::LBracket)?;
    let (i2, index) = parse_expr(i1)?;
    let i3 = match_token(i2, Token::RBracket)?;
    Ok((i3, Expr::IndexExpr { array: Box::new(arr), index: Box::new(index) }))
}

fn parse_lit_expr<'a>(input: &'a [Token]) -> (res: PResult<'a, Expr>)
    ensures
        agrees(
            res,
            match spec_parse_literal(input@) {
                Ok((r, l)) => Ok((r, SpecExpr::LitExpr(l))),
                Err(e) => Err(e),
            },
            |e: Expr| e@,
        ),
        consumes(res, input),
{
    let (i1, l) = parse_literal(input)?;
    Ok((i1, Expr::LitExpr(l)))
}

fn parse_ident_expr<'a>(input: &'a [Token]) -> (res: PResult<'a, Expr>)
    ensures
        agrees(
            res,
            match spec_parse_ident(input@) {
                Ok((r, i)) => Ok((r, SpecExpr::IdentExpr(i))),
                Err(e) => Err(e),
            },
            |e: Expr| e@,
        ),
        consumes(res, input),
{
    let (i1, i) = parse_ident(input)?;
    Ok((i1, Expr::IdentExpr(i)))
}

fn parse_atom_expr<'a>(input: &'a [Token]) -> (res: PResult<'a, Expr>)
    ensures
        agrees(res, spec_parse_atom_expr(input@), |e: Expr| e@),
        consumes(res, input),
    decreases input@.len(), 7nat,
{
    if let Ok(x) = parse_lit_expr(input) {
        return Ok(x);
    }
    if let Ok(x) = parse_ident_expr(input) {
        return Ok(x);
    }
    if let Ok(x) = parse_prefix_expr(input) {
        return Ok(x);
    }
    if let Ok(x) = parse_paren_expr(input) {
        return Ok(x);
    }
    if let Ok(x) = parse_array_expr(input) {
        return Ok(x);
    }
    if let Ok(x) = parse_hash_expr(input) {
        return Ok(x);
    }
    if let Ok(x) = parse_if_expr(input) {
        return Ok(x);
    }
    parse_fn_expr(input)
}

fn parse_prefix_expr<'a>(input: &'a [Token]) -> (res: PResult<'a, Expr>)
    ensures
        agrees(res, spec_parse_prefix_expr(input@), |e: Expr| e@),
        consumes(res, input),
    decreases input@.len(), 6nat,
{
    if input.len() == 0 {
        return Err((input, ErrorKind::Eof));
    }
    let op = match &input[0] {
        Token::Plus => Prefix::PrefixPlus,
        Token::Minus => Prefix::PrefixMinus,
        Token::Not => Prefix::Not,
        _ => return Err((input, ErrorKind::Verify)),
    };
    let (i2, e) = parse_atom_expr(skip_one(input))?;
    Ok((i2, Expr::PrefixExpr(op, Box::new(e))))
}

fn parse_paren_expr<'a>(input: &'a [Token]) -> (res: PResult<'a, Expr>)
    ensures
        agrees(res, spec_parse_paren_expr(input@), |e: Expr| e@),
        consumes(res, input),
    decreases input@.len(), 6nat,
{
    let i1 = match_token(input, Token::LParen)?;
    let (i2, e) = parse_expr(i1)?;
    let i3 = match_token(i2, Token::RParen)?;
    Ok((i3, e))
}

fn parse_comma_exprs<'a>(input: &'a [Token]) -> (res: PResult<'a, Expr>)
    ensures
        agrees(res, spec_parse_comma_exprs(input@), |e: Expr| e@),
        consumes(res, input),
    decreases input@.len(), 6nat,
{
    let i1 = match_token(input, Token::Comma)?;
    parse_expr(i1)
}

fn parse_exprs<'a>(input: &'a [Token]) -> (res: PResult<'a, Vec<Expr>>)
    ensures
        agrees(res, spec_parse_exprs(input@), |v: Vec<Expr>| exprs_view(v@)),
        consumes(res, input),
    decreases input@.len(), 10nat,
{
    let (i1, first) = parse_expr(input)?;
    let mut acc: Vec<Expr> = Vec::new();
    proof {
        lemma_exprs_view_push(acc@, first);
    }
    acc.push(first);
    assert(exprs_view(acc@) =~= seq![first@]);
    let mut cur = i1;
    loop
        invariant
            cur@.len() < input@.len(),
            is_tail(cur@, input@),
            spec_parse_exprs(input@) == prepend(exprs_view(acc@), spec_many_comma_exprs(cur@)),
        decreases cur@.len(),
    {
        match parse_comma_exprs(cur) {
            Err(_) => {
                proof {
                    lemma_prepend_empty(exprs_view(acc@), cur@);
                }
                return Ok((cur, acc));
            },
            Ok((next, e)) => {
                proof {
                    lemma_exprs_view_push(acc@, e);
                    lemma_prepend_push(exprs_view(acc@), e@, spec_many_comma_exprs(next@));
                }
                acc.push(e);
                cur = next;
            },
        }
    }
}

/// An empty expression list, consuming nothing.
fn empty_boxed_vec<'a>(input: &'a [Token]) -> (res: (&'a [Token], Vec<Expr>))
    ensures
        res.0 == input,
        exprs_view(res.1@) == Seq::<SpecExpr>::empty(),
{
    let v = Vec::new();
    assert(exprs_view(v@) =~= Seq::<SpecExpr>::empty());
    (input, v)
}

/// An empty list of hash entries, consuming nothing.
fn empty_pairs<'a>(input: &'a [Token]) -> (res: (&'a [Token], Vec<(Literal, Expr)>))
    ensures
        res.0 == input,
        pairs_view(res.1@) == Seq::<(Literal, SpecExpr)>::empty(),
{
    let v = Vec::new();
    assert(pairs_view(v@) =~= Seq::<(Literal, SpecExpr)>::empty());
    (input, v)
}

/// An empty parameter list, consuming nothing.
fn empty_params<'a>(input: &'a [Token]) -> (res: (&'a [Token], Vec<Ident>))
    ensures
        res.0 == input,
        res.1@ == Seq::<Ident>::empty(),
{
    (input, Vec::new())
}

fn parse_array_expr<'a>(input: &'a [Token]) -> (res: PResult<'a, Expr>)
    ensures
        agrees(res, spec_parse_array_expr(input@), |e: Expr| e@),
        consumes(res, input),
    decreases input@.len(), 6nat,
{
    let i1 = match_token(input, Token::LBracket)?;
    let (i2, elems) = match parse_exprs(i1) {
        Ok(x) => x,
        Err(_) => empty_boxed_vec(i1),
    };
    let i3 = match_token(i2, Token::RBracket)?;
    Ok((i3, Expr::ArrayExpr(elems)))
}

fn parse_hash_pair<'a>(input: &'a [Token]) -> (res: PResult<'a, (Literal, Expr)>)
    ensures
        agrees(res, spec_parse_hash_pair(input@), |p: (Literal, Expr)| (p.0, p.1@)),
        consumes(res, input),
    decreases input@.len(), 6nat,
{
    let (i1, key) = parse_literal(input)?;
    let i2 = match_token(i1, Token::Colon)?;
    let (i3, value) = parse_expr(i2)?;
    Ok((i3, (key, value)))
}

fn parse_hash_comma_expr<'a>(input: &'a [Token]) -> (res: PResult<'a, (Literal, Expr)>)
    ensures
        agrees(res, spec_parse_hash_comma_expr(input@), |p: (Literal, Expr)| (p.0, p.1@)),
        consumes(res, input),
    decreases input@.len(), 6nat,
{
    let i1 = match_token(input, Token::Comma)?;
    parse_hash_pair(i1)
}

fn parse_hash_pairs<'a>(input: &'a [Token]) -> (res: PResult<'a, Vec<(Literal, Expr)>>)
    ensures
        agrees(res, spec_parse_hash_pairs(input@), |v: Vec<(Literal, Expr)>| pairs_view(v@)),
        consumes(res, input),
    decreases input@.len(), 8nat,
{
    let (i1, first) = parse_hash_pair(input)?;
    let mut acc: Vec<(Literal, Expr)> = Vec::new();
    proof {
        lemma_pairs_view_push(acc@, first);
    }
    acc.push(first);
    assert(pairs_view(acc@) =~= seq![(first.0, first.1@)]);
    let mut cur = i1;
    loop
        invariant
            cur@.len() < input@.len(),
            is_tail(cur@, input@),
            spec_parse_hash_pairs(input@) == prepend(
                pairs_view(acc@),
                spec_many_hash_comma_exprs(cur@),
            ),
        decreases cur@.len(),
    {
        match parse_hash_comma_expr(cur) {
            Err(_) => {
                proof {
                    lemma_prepend_empty(pairs_view(acc@), cur@);
                }
                return Ok((cur, acc));
            },
            Ok((next, p)) => {
                proof {
                    lemma_pairs_view_push(acc@, p);
                    lemma_prepend_push(
                        pairs_view(acc@),
                        (p.0, p.1@),
                        spec_many_hash_comma_exprs(next@),
                    );
                }
                acc.push(p);
                cur = next;
            },
        }
    }
}

fn parse_hash_expr<'a>(input: &'a [Token]) -> (res: PResult<'a, Expr>)
    ensures
        agrees(res, spec_parse_hash_expr(input@), |e: Expr| e@),
        consumes(res, input),
    decreases input@.len(), 6nat,
{
    let i1 = match_token(input, Token::LBrace)?;
    let (i2, pairs) = match parse_hash_pairs(i1) {
        Ok(x) => x,
        Err(_) => empty_pairs(i1),
    };
    let i3 = match_token(i2, Token::RBrace)?;
    Ok((i3, Expr::HashExpr(pairs)))
}

fn parse_if_expr<'a>(input: &'a [Token]) -> (res: PResult<'a, Expr>)
    ensures
        agrees(res, spec_parse_if_expr(input@), |e: Expr| e@),
        consumes(res, input),
    decreases input@.len(), 6nat,
{
    let i1 = match_token(input, Token::If)?;
    let i2 = match_token(i1, Token::LParen)?;
    let (i3, cond) = parse_expr(i2)?;
    let i4 = match_token(i3, Token::RParen)?;
    let (i5, consequence) = parse_block_stmt(i4)?;
    let (i6, alternative) = parse_else_expr(i5)?;
    Ok((i6, Expr::IfExpr { cond: Box::new(cond), consequence, alternative }))
}

fn parse_else_expr<'a>(input: &'a [Token]) -> (res: PResult<'a, Option<Program>>)
    ensures
        agrees(
            res,
            spec_parse_else_expr(input@),
            |o: Option<Program>|
                match o {
                    Some(p) => Some(stmts_view(p@)),
                    None => None,
                },
        ),
        within(res, input),
    decreases input@.len(), 6nat,
{
    proof {
        lemma_tail_refl(input@);
    }
    match match_token(input, Token::Else) {
        Err(_) => Ok((input, None)),
        Ok(i1) => match parse_block_stmt(i1) {
            Ok((i2, b)) => Ok((i2, Some(b))),
            Err(_) => Ok((input, None)),
        },
    }
}

fn parse_params<'a>(input: &'a [Token]) -> (res: PResult<'a, Vec<Ident>>)
    ensures
        agrees(res, spec_parse_params(input@), |v: Vec<Ident>| v@),
        consumes(res, input),
{
    let (i1, first) = parse_ident(input)?;
    let mut acc: Vec<Ident> = Vec::new();
    acc.push(first);
    assert(acc@ =~= seq![first]);
    let mut cur = i1;
    loop
        invariant
            cur@.len() < input@.len(),
            is_tail(cur@, input@),
            spec_parse_params(input@) == prepend(acc@, spec_many_comma_idents(cur@)),
        decreases cur@.len(),
    {
        let next = match match_token(cur, Token::Comma) {
            Ok(n) => n,
            Err(_) => {
                proof {
                    lemma_prepend_empty(acc@, cur@);
                }
                return Ok((cur, acc));
            },
        };
        match parse_ident(next) {
            Err(_) => {
                proof {
                    lemma_prepend_empty(acc@, cur@);
                }
                return Ok((cur, acc));
            },
            Ok((next2, id)) => {
                proof {
                    lemma_prepend_push(acc@, id, spec_many_comma_idents(next2@));
                }
                acc.push(id);
                cur = next2;
            },
        }
    }
}

fn parse_fn_expr<'a>(input: &'a [Token]) -> (res: PResult<'a, Expr>)
    ensures
        agrees(res, spec_parse_fn_expr(input@), |e: Expr| e@),
        consumes(res, input),
    decreases input@.len(), 6nat,
{
    let i1 = match_token(input, Token::Function)?;
    let i2 = match_token(i1, Token::LParen)?;
    let (i3, params) = match parse_params(i2) {
        Ok(x) => x,
        Err(_) => empty_params(i2),
    };
    let i4 = match_token(i3, Token::RParen)?;
    let (i5, body) = parse_block_stmt(i4)?;
    Ok((i5, Expr::FnExpr { params, body }))
}

fn parse_block_stmt<'a>(input: &'a [Token]) -> (res: PResult<'a, Program>)
    ensures
        agrees(res, spec_parse_block_stmt(input@), |p: Program| stmts_view(p@)),
        consumes(res, input),
    decreases input@.len(), 6nat,
{
    let i1 = match_token(input, Token::LBrace)?;
    let (i2, body) = parse_stmts(i1)?;
    let i3 = match_token(i2, Token::RBrace)?;
    Ok((i3, body))
}

/// `stmt*`: statements until the next one does not parse.
fn parse_stmts<'a>(input: &'a [Token]) -> (res: PResult<'a, Vec<Stmt>>)
    ensures
        agrees(res, spec_many_stmts(input@), |v: Vec<Stmt>| stmts_view(v@)),
        within(res, input),
        res is Ok,
    decreases input@.len(), 12nat,
{
    let mut acc: Vec<Stmt> = Vec::new();
    assert(stmts_view(acc@) =~= Seq::empty());
    proof {
        lemma_tail_refl(input@);
    }
    let mut cur = input;
    loop
        invariant
            cur@.len() <= input@.len(),
            is_tail(cur@, input@),
            spec_many_stmts(input@) == prepend(stmts_view(acc@), spec_many_stmts(cur@)),
        decreases cur@.len(),
    {
        match parse_stmt(cur) {
            Err(_) => {
                proof {
                    lemma_prepend_empty(stmts_view(acc@), cur@);
                }
                return Ok((cur, acc));
            },
            Ok((next, st)) => {
                proof {
                    lemma_stmts_view_push(acc@, st);
                    lemma_prepend_push(stmts_view(acc@), st@, spec_many_stmts(next@));
                }
                acc.push(st);
                cur = next;
            },
        }
    }
}

fn parse_stmt<'a>(input: &'a [Token]) -> (res: PResult<'a, Stmt>)
    ensures
        agrees(res, spec_parse_stmt(input@), |s: Stmt| s@),
        consumes(res, input),
    decreases input@.len(), 11nat,
{
    if let Ok(x) = parse_let_stmt(input) {
        return Ok(x);
    }
    if let Ok(x) = parse_return_stmt(input) {
        return Ok(x);
    }
    parse_expr_stmt(input)
}

fn parse_let_stmt<'a>(input: &'a [Token]) -> (res: PResult<'a, Stmt>)
    ensures
        agrees(res, spec_parse_let_stmt(input@), |s: Stmt| s@),
        consumes(res, input),
    decreases input@.len(), 10nat,
{
    let i1 = match_token(input, Token::Let)?;
    let (i2, ident) = parse_ident(i1)?;
    let i3 = match_token(i2, Token::Assign)?;
    let (i4, expr) = parse_expr(i3)?;
    Ok((opt_token(i4, Token::SemiColon), Stmt::LetStmt(ident, expr)))
}

fn parse_return_stmt<'a>(input: &'a [Token]) -> (res: PResult<'a, Stmt>)
    ensures
        agrees(res, spec_parse_return_stmt(input@), |s: Stmt| s@),
        consumes(res, input),
    decreases input@.len(), 10nat,
{
    let i1 = match_token(input, Token::Return)?;
    let (i2, e) = parse_expr(i1)?;
    Ok((opt_token(i2, Token::SemiColon), Stmt::ReturnStmt(e)))
}

fn parse_expr_stmt<'a>(input: &'a [Token]) -> (res: PResult<'a, Stmt>)
    ensures
        agrees(res, spec_parse_expr_stmt(input@), |s: Stmt| s@),
        consumes(res, input),
    decreases input@.len(), 10nat,
{
    let (i1, expr) = parse_expr(input)?;
    Ok((opt_token(i1, Token::SemiColon), Stmt::ExprStmt(expr)))
}

fn parse_program<'a>(input: &'a [Token]) -> (res: PResult<'a, Program>)
    ensures
        agrees(res, spec_parse_program(input@), |p: Program| program_view(p)),
        consumes(res, input),
        res matches Err((at, code)) ==> {
            &&& is_tail(at@, input@)
            &&& spec_many_stmts(input@) matches Ok((stop, _))
            &&& at@ == stop
            &&& code == (if stop.len() == 0 {
                ErrorKind::Eof
            } else {
                ErrorKind::Verify
            })
        },
{
    let (i1, program) = parse_stmts(input)?;
    let i2 = match_token(i1, Token::EOF)?;
    Ok((i2, program))
}

/// The parser's entry point.
pub struct Parser;

impl Parser {
    /// Reads a whole program: statements up to and including the end-of-file
    /// token. On success it returns the tokens after the first end-of-file
    /// token, which are the input's last tokens, and the program. It fails
    /// exactly when the tokens have no such reading, and then the error holds
    /// the tokens left after the statements, where the end-of-file token was expected: `Eof` when
    /// none are left, `Verify` when another token stands there.
    pub fn parse_tokens<'a>(tokens: Tokens<'a>) -> (res: Result<(Tokens<'a>, Program), ParseError<'a>>)
        ensures
            match res {
                Ok((rest, program)) => {
                    &&& spec_parse_program(tokens.tok@) == Ok::<_, SpecError>(
                        (rest.tok@, program_view(program)),
                    )
                    &&& is_tail(rest.tok@, tokens.tok@)
                    &&& rest.tok@.len() < tokens.tok@.len()
                    &&& tokens.tok@[tokens.tok@.len() - rest.tok@.len() - 1] is EOF
                    &&& forall|i: int|
                        0 <= i < tokens.tok@.len() - rest.tok@.len() - 1
                            ==> !(#[trigger] tokens.tok@[i] is EOF)
                    &&& rest.start == 0
                    &&& rest.end == rest.tok@.len()
                },
                Err(e) => {
                    &&& spec_parse_program(tokens.tok@) == Err::<(Seq<Token>, Seq<SpecStmt>), _>(
                        (e.input.tok@, e.code),
                    )
                    &&& spec_many_stmts(tokens.tok@) matches Ok((stop, _))
                    &&& e.input.tok@ == stop
                    &&& e.code == (if stop.len() == 0 {
                        ErrorKind::Eof
                    } else {
                        ErrorKind::Verify
                    })
                    &&& is_tail(e.input.tok@, tokens.tok@)
                    &&& e.input.start == 0
                    &&& e.input.end == e.input.tok@.len()
                },
            },
    {
        proof {
            law_program_stops_at_first_eof(tokens.tok@);
        }
        match parse_program(tokens.tok) {
            Ok((rest, program)) => Ok((Tokens { tok: rest, start: 0, end: rest.len() }, program)),
            Err((at, code)) => Err(
                ParseError { input: Tokens { tok: at, start: 0, end: at.len() }, code },
            ),
        }
    }
}

} // verus!
