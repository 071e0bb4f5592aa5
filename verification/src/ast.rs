use vstd::prelude::*;

verus! {

/// An identifier.
#[derive(Debug, Clone, PartialEq, Eq)]
pub struct Ident(pub String);

/// A literal value.
#[derive(Debug, Clone, PartialEq, Eq)]
pub enum Literal {
    IntLiteral(i64),
    BoolLiteral(bool),
    StringLiteral(String),
}

/// A prefix operator.
#[derive(Debug, Clone, Copy, PartialEq, Eq, Structural)]
pub enum Prefix {
    PrefixPlus,
    PrefixMinus,
    Not,
}

/// An infix operator.
#[derive(Debug, Clone, Copy, PartialEq, Eq, Structural)]
pub enum Infix {
    Plus,
    Minus,
    Divide,
    Multiply,
    Equal,
    NotEqual,
    GreaterThanEqual,
    GreaterThan,
    LessThanEqual,
    LessThan,
}

/// Binding power of an operator, weakest first: the derived order is the
/// order of the variants.
#[derive(Debug, Clone, Copy, PartialEq, Eq, Structural, PartialOrd, Ord)]
pub enum Precedence {
    PLowest,
    PEquals,
    PLessGreater,
    PSum,
    PProduct,
    PCall,
    PIndex,
}

/// A statement.
#[derive(Debug, PartialEq, Eq)]
pub enum Stmt {
    LetStmt(Ident, Expr),
    ReturnStmt(Expr),
    ExprStmt(Expr),
}

/// An expression.
#[derive(Debug, PartialEq, Eq)]
pub enum Expr {
    IdentExpr(Ident),
    LitExpr(Literal),
    PrefixExpr(Prefix, Box<Expr>),
    InfixExpr(Infix, Box<Expr>, Box<Expr>),
    IfExpr { cond: Box<Expr>, consequence: Program, alternative: Option<Program> },
    FnExpr { params: Vec<Ident>, body: Program },
    CallExpr { function: Box<Expr>, arguments: Vec<Expr> },
    ArrayExpr(Vec<Expr>),
    HashExpr(Vec<(Literal, Expr)>),
    IndexExpr { array: Box<Expr>, index: Box<Expr> },
}

/// A program is a list of statements.
pub type Program = Vec<Stmt>;

/// The mathematical model of a statement.
pub enum SpecStmt {
    LetStmt(Ident, SpecExpr),
    ReturnStmt(SpecExpr),
    ExprStmt(SpecExpr),
}

/// The mathematical model of an expression: lists become sequences.
pub enum SpecExpr {
    IdentExpr(Ident),
    LitExpr(Literal),
    PrefixExpr(Prefix, Box<SpecExpr>),
    InfixExpr(Infix, Box<SpecExpr>, Box<SpecExpr>),
    IfExpr { cond: Box<SpecExpr>, consequence: Seq<SpecStmt>, alternative: Option<Seq<SpecStmt>> },
    FnExpr { params: Seq<Ident>, body: Seq<SpecStmt> },
    CallExpr { function: Box<SpecExpr>, arguments: Seq<SpecExpr> },
    ArrayExpr(Seq<SpecExpr>),
    HashExpr(Seq<(Literal, SpecExpr)>),
    IndexExpr { array: Box<SpecExpr>, index: Box<SpecExpr> },
}

/// The models of the first `n` expressions of `s`.
pub open spec fn exprs_view_upto(s: Seq<Expr>, n: nat) -> Seq<SpecExpr>
    decreases s, n,
{
    if n == 0 || n > s.len() {
        Seq::empty()
    } else {
        exprs_view_upto(s, (n - 1) as nat).push(s[n - 1].view())
    }
}

/// The models of the first `n` statements of `s`.
pub open spec fn stmts_view_upto(s: Seq<Stmt>, n: nat) -> Seq<SpecStmt>
    decreases s, n,
{
    if n == 0 || n > s.len() {
        Seq::empty()
    } else {
        stmts_view_upto(s, (n - 1) as nat).push(s[n - 1].view())
    }
}

/// The models of the first `n` hash entries of `s`.
pub open spec fn pairs_view_upto(s: Seq<(Literal, Expr)>, n: nat) -> Seq<(Literal, SpecExpr)>
    decreases s, n,
{
    if n == 0 || n > s.len() {
        Seq::empty()
    } else {
        pairs_view_upto(s, (n - 1) as nat).push((s[n - 1].0, s[n - 1].1.view()))
    }
}

/// The model of a list of expressions.
pub open spec fn exprs_view(s: Seq<Expr>) -> Seq<SpecExpr> {
    exprs_view_upto(s, s.len())
}

/// The model of a list of statements.
pub open spec fn stmts_view(s: Seq<Stmt>) -> Seq<SpecStmt> {
    stmts_view_upto(s, s.len())
}

/// The model of a list of hash entries.
pub open spec fn pairs_view(s: Seq<(Literal, Expr)>) -> Seq<(Literal, SpecExpr)> {
    pairs_view_upto(s, s.len())
}

/// The model of a program.
pub open spec fn program_view(p: Program) -> Seq<SpecStmt> {
    stmts_view(p@)
}

impl View for Stmt {
    type V = SpecStmt;

    open spec fn view(&self) -> SpecStmt
        decreases self, 0nat,
    {
        match self {
            Stmt::LetStmt(i, e) => SpecStmt::LetStmt(*i, e.view()),
            Stmt::ReturnStmt(e) => SpecStmt::ReturnStmt(e.view()),
            Stmt::ExprStmt(e) => SpecStmt::ExprStmt(e.view()),
        }
    }
}

impl View for Expr {
    type V = SpecExpr;

    open spec fn view(&self) -> SpecExpr
        decreases self, 0nat,
    {
        match self {
            Expr::IdentExpr(i) => SpecExpr::IdentExpr(*i),
            Expr::LitExpr(l) => SpecExpr::LitExpr(*l),
            Expr::PrefixExpr(op, e) => SpecExpr::PrefixExpr(*op, Box::new((**e).view())),
            Expr::InfixExpr(op, l, r) => SpecExpr::InfixExpr(
                *op,
                Box::new((**l).view()),
                Box::new((**r).view()),
            ),
            Expr::IfExpr { cond, consequence, alternative } => SpecExpr::IfExpr {
                cond: Box::new((**cond).view()),
                consequence: stmts_view_upto(consequence@, consequence@.len()),
                alternative: match alternative {
                    Some(a) => Some(stmts_view_upto(a@, a@.len())),
                    None => None,
                },
            },
            Expr::FnExpr { params, body } => SpecExpr::FnExpr {
                params: params@,
                body: stmts_view_upto(body@, body@.len()),
            },
            Expr::CallExpr { function, arguments } => SpecExpr::CallExpr {
                function: Box::new((**function).view()),
                arguments: exprs_view_upto(arguments@, arguments@.len()),
            },
            Expr::ArrayExpr(v) => SpecExpr::ArrayExpr(exprs_view_upto(v@, v@.len())),
            Expr::HashExpr(v) => SpecExpr::HashExpr(pairs_view_upto(v@, v@.len())),
            Expr::IndexExpr { array, index } => SpecExpr::IndexExpr {
                array: Box::new((**array).view()),
                index: Box::new((**index).view()),
            },
        }
    }
}

/// The list model has one model per element, in order.
pub proof fn lemma_exprs_view_upto(s: Seq<Expr>, n: nat)
    requires
        n <= s.len(),
    ensures
        exprs_view_upto(s, n).len() == n,
        forall|i: int| 0 <= i < n ==> #[trigger] exprs_view_upto(s, n)[i] == s[i]@,
    decreases n,
{
    if n > 0 {
        lemma_exprs_view_upto(s, (n - 1) as nat);
        assert(exprs_view_upto(s, n) == exprs_view_upto(s, (n - 1) as nat).push(s[n - 1]@));
    } else {
        assert(exprs_view_upto(s, n) == Seq::<SpecExpr>::empty());
    }
}

/// The list model has one model per element, in order.
pub proof fn lemma_stmts_view_upto(s: Seq<Stmt>, n: nat)
    requires
        n <= s.len(),
    ensures
        stmts_view_upto(s, n).len() == n,
        forall|i: int| 0 <= i < n ==> #[trigger] stmts_view_upto(s, n)[i] == s[i]@,
    decreases n,
{
    if n > 0 {
        lemma_stmts_view_upto(s, (n - 1) as nat);
        assert(stmts_view_upto(s, n) == stmts_view_upto(s, (n - 1) as nat).push(s[n - 1]@));
    } else {
        assert(stmts_view_upto(s, n) == Seq::<SpecStmt>::empty());
    }
}

/// The list model has one model per element, in order.
pub proof fn lemma_pairs_view_upto(s: Seq<(Literal, Expr)>, n: nat)
    requires
        n <= s.len(),
    ensures
        pairs_view_upto(s, n).len() == n,
        forall|i: int| 0 <= i < n ==> #[trigger] pairs_view_upto(s, n)[i] == (s[i].0, s[i].1@),
    decreases n,
{
    if n > 0 {
        lemma_pairs_view_upto(s, (n - 1) as nat);
        assert(pairs_view_upto(s, n) == pairs_view_upto(s, (n - 1) as nat).push(
            (s[n - 1].0, s[n - 1].1@),
        ));
    } else {
        assert(pairs_view_upto(s, n) == Seq::<(Literal, SpecExpr)>::empty());
    }
}

/// Viewing a list after a push is the view before it, extended.
pub proof fn lemma_exprs_view_push(s: Seq<Expr>, e: Expr)
    ensures
        exprs_view(s.push(e)) == exprs_view(s).push(e@),
        exprs_view(Seq::empty()) == Seq::<SpecExpr>::empty(),
{
    lemma_exprs_view_upto(s, s.len());
    lemma_exprs_view_upto(s.push(e), s.len() + 1);
    assert(exprs_view(s.push(e)) =~= exprs_view(s).push(e@));
    assert(exprs_view(Seq::empty()) =~= Seq::<SpecExpr>::empty());
}

/// Viewing a list after a push is the view before it, extended.
pub proof fn lemma_stmts_view_push(s: Seq<Stmt>, st: Stmt)
    ensures
        stmts_view(s.push(st)) == stmts_view(s).push(st@),
        stmts_view(Seq::empty()) == Seq::<SpecStmt>::empty(),
{
    lemma_stmts_view_upto(s, s.len());
    lemma_stmts_view_upto(s.push(st), s.len() + 1);
    assert(stmts_view(s.push(st)) =~= stmts_view(s).push(st@));
    assert(stmts_view(Seq::empty()) =~= Seq::<SpecStmt>::empty());
}

/// Viewing a list after a push is the view before it, extended.
pub proof fn lemma_pairs_view_push(s: Seq<(Literal, Expr)>, p: (Literal, Expr))
    ensures
        pairs_view(s.push(p)) == pairs_view(s).push((p.0, p.1@)),
        pairs_view(Seq::empty()) == Seq::<(Literal, SpecExpr)>::empty(),
{
    lemma_pairs_view_upto(s, s.len());
    lemma_pairs_view_upto(s.push(p), s.len() + 1);
    assert(pairs_view(s.push(p)) =~= pairs_view(s).push((p.0, p.1@)));
    assert(pairs_view(Seq::empty()) =~= Seq::<(Literal, SpecExpr)>::empty());
}


/// A copy of an identifier.
pub fn clone_ident(i: &Ident) -> (r: Ident)
    ensures
        r == *i,
{
    Ident(i.0.clone())
}

/// A copy of a literal.
pub fn clone_literal(l: &Literal) -> (r: Literal)
    ensures
        r == *l,
{
    match l {
        Literal::IntLiteral(n) => Literal::IntLiteral(*n),
        Literal::BoolLiteral(b) => Literal::BoolLiteral(*b),
        Literal::StringLiteral(s) => Literal::StringLiteral(s.clone()),
    }
}

/// A copy of an expression: it has the same model.
pub fn clone_expr(e: &Expr) -> (r: Expr)
    ensures
        r@ == e@,
    decreases e,
{
    match e {
        Expr::IdentExpr(i) => Expr::IdentExpr(clone_ident(i)),
        Expr::LitExpr(l) => Expr::LitExpr(clone_literal(l)),
        Expr::PrefixExpr(op, x) => Expr::PrefixExpr(*op, Box::new(clone_expr(x))),
        Expr::InfixExpr(op, l, r) => Expr::InfixExpr(
            *op,
            Box::new(clone_expr(l)),
            Box::new(clone_expr(r)),
        ),
        Expr::IfExpr { cond, consequence, alternative } => {
            let alt = match alternative {
                Some(a) => Some(clone_stmts(a)),
                None => None,
            };
            Expr::IfExpr {
                cond: Box::new(clone_expr(cond)),
                consequence: clone_stmts(consequence),
                alternative: alt,
            }
        },
        Expr::FnExpr { params, body } => {
            let ps = clone_idents(params);
            Expr::FnExpr { params: ps, body: clone_stmts(body) }
        },
        Expr::CallExpr { function, arguments } => Expr::CallExpr {
            function: Box::new(clone_expr(function)),
            arguments: clone_exprs(arguments),
        },
        Expr::ArrayExpr(v) => Expr::ArrayExpr(clone_exprs(v)),
        Expr::HashExpr(v) => Expr::HashExpr(clone_pairs(v)),
        Expr::IndexExpr { array, index } => Expr::IndexExpr {
            array: Box::new(clone_expr(array)),
            index: Box::new(clone_expr(index)),
        },
    }
}

/// A copy of a statement: it has the same model.
pub fn clone_stmt(s: &Stmt) -> (r: Stmt)
    ensures
        r@ == s@,
    decreases s,
{
    match s {
        Stmt::LetStmt(i, e) => Stmt::LetStmt(clone_ident(i), clone_expr(e)),
        Stmt::ReturnStmt(e) => Stmt::ReturnStmt(clone_expr(e)),
        Stmt::ExprStmt(e) => Stmt::ExprStmt(clone_expr(e)),
    }
}

/// A copy of a list of identifiers.
pub fn clone_idents(v: &Vec<Ident>) -> (r: Vec<Ident>)
    ensures
        r@ == v@,
{
    let mut acc: Vec<Ident> = Vec::new();
    let mut i: usize = 0;
    while i < v.len()
        invariant
            i <= v@.len(),
            acc@ == v@.take(i as int),
        decreases v@.len() - i,
    {
        acc.push(clone_ident(&v[i]));
        assert(v@.take(i as int).push(v@[i as int]) =~= v@.take(i + 1));
        i = i + 1;
    }
    assert(v@.take(v@.len() as int) =~= v@);
    acc
}

/// A copy of a list of expressions: it has the same model.
pub fn clone_exprs(v: &Vec<Expr>) -> (r: Vec<Expr>)
    ensures
        exprs_view(r@) == exprs_view(v@),
    decreases v@,
{
    let mut acc: Vec<Expr> = Vec::new();
    let mut i: usize = 0;
    while i < v.len()
        invariant
            i <= v@.len(),
            acc@.len() == i,
            forall|j: int| 0 <= j < i ==> #[trigger] acc@[j]@ == v@[j]@,
        decreases v@.len() - i,
    {
        let c = clone_expr(&v[i]);
        acc.push(c);
        i = i + 1;
    }
    proof {
        lemma_exprs_view_upto(acc@, acc@.len());
        lemma_exprs_view_upto(v@, v@.len());
        assert(exprs_view(acc@) =~= exprs_view(v@));
    }
    acc
}

/// A copy of a list of statements: it has the same model.
pub fn clone_stmts(v: &Vec<Stmt>) -> (r: Vec<Stmt>)
    ensures
        stmts_view(r@) == stmts_view(v@),
    decreases v@,
{
    let mut acc: Vec<Stmt> = Vec::new();
    let mut i: usize = 0;
    while i < v.len()
        invariant
            i <= v@.len(),
            acc@.len() == i,
            forall|j: int| 0 <= j < i ==> #[trigger] acc@[j]@ == v@[j]@,
        decreases v@.len() - i,
    {
        let c = clone_stmt(&v[i]);
        acc.push(c);
        i = i + 1;
    }
    proof {
        lemma_stmts_view_upto(acc@, acc@.len());
        lemma_stmts_view_upto(v@, v@.len());
        assert(stmts_view(acc@) =~= stmts_view(v@));
    }
    acc
}

/// A copy of a list of hash entries: it has the same model.
pub fn clone_pairs(v: &Vec<(Literal, Expr)>) -> (r: Vec<(Literal, Expr)>)
    ensures
        pairs_view(r@) == pairs_view(v@),
    decreases v@,
{
    let mut acc: Vec<(Literal, Expr)> = Vec::new();
    let mut i: usize = 0;
    while i < v.len()
        invariant
            i <= v@.len(),
            acc@.len() == i,
            forall|j: int| 0 <= j < i ==> #[trigger] acc@[j].0 == v@[j].0 && acc@[j].1@ == v@[j].1@,
        decreases v@.len() - i,
    {
        let k = clone_literal(&v[i].0);
        let c = clone_expr(&v[i].1);
        acc.push((k, c));
        i = i + 1;
    }
    proof {
        lemma_pairs_view_upto(acc@, acc@.len());
        lemma_pairs_view_upto(v@, v@.len());
        assert(pairs_view(acc@) =~= pairs_view(v@));
    }
    acc
}

impl Clone for Expr {
    fn clone(&self) -> (r: Self)
        ensures
            r@ == self@,
    {
        clone_expr(self)
    }
}

impl Clone for Stmt {
    fn clone(&self) -> (r: Self)
        ensures
            r@ == self@,
    {
        clone_stmt(self)
    }
}

} // verus!
