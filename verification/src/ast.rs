use vstd::prelude::*;

use crate::token::Token;

verus! {

// ------------------------------------------------------------------------
// The mathematical model of the syntax tree. Contracts and the
// specification-level parser speak of these; the executable tree below
// maps onto them through the `view_*` functions.
// ------------------------------------------------------------------------

pub ghost struct SpecBlock {
    pub token: Token,
    pub statements: Seq<SpecStmt>,
}

pub ghost enum SpecStmt {
    LetStmt { token: Token, name: Token, value: Option<SpecExpr> },
    ReturnStmt { token: Token, value: Option<SpecExpr> },
    ExprStmt { token: Token, expression: Option<SpecExpr> },
    BlockStmt { block: SpecBlock },
}

#[allow(inconsistent_fields)]
pub ghost enum SpecExpr {
    Ident { token: Token },
    IntLit { token: Token, value: i64 },
    BoolLit { token: Token, value: bool },
    StrLit { token: Token, value: Seq<char> },
    PrefixOp { token: Token, right: Box<SpecExpr> },
    InfixOp { token: Token, left: Box<SpecExpr>, right: Box<SpecExpr> },
    IfExpr {
        token: Token,
        condition: Box<SpecExpr>,
        consequence: SpecBlock,
        alternative: Option<SpecBlock>,
    },
    FuncLit { token: Token, parameters: Seq<Token>, body: SpecBlock },
    CallExpr { token: Token, function: Box<SpecExpr>, args: Seq<SpecExpr> },
    ArrayLit { token: Token, elements: Seq<SpecExpr> },
    HashLit { token: Token, pairs: Seq<(SpecExpr, SpecExpr)> },
}

// ------------------------------------------------------------------------
// The executable syntax tree. Every node owns its children exclusively;
// each node carries the token that introduced it.
// ------------------------------------------------------------------------

pub struct Identifier {
    pub token: Token,
}

pub struct IntegerLiteral {
    pub token: Token,
    pub value: i64,
}

pub struct BooleanLiteral {
    pub token: Token,
    pub value: bool,
}

pub struct StringLiteral {
    pub token: Token,
    pub value: String,
}

pub struct PrefixExpression {
    pub token: Token,
    pub right: Box<Expression>,
}

pub struct InfixExpression {
    pub token: Token,
    pub left: Box<Expression>,
    pub right: Box<Expression>,
}

pub struct IfExpression {
    pub token: Token,
    pub condition: Box<Expression>,
    pub consequence: BlockStatement,
    pub alternative: Option<BlockStatement>,
}

pub struct FunctionLiteral {
    pub token: Token,
    pub parameters: Vec<Identifier>,
    pub body: BlockStatement,
}

pub struct CallExpression {
    pub token: Token,
    pub function: Box<Expression>,
    pub args: Vec<Expression>,
}

pub struct ArrayLiteral {
    pub token: Token,
    pub elements: Vec<Expression>,
}

/// Hash-literal entries in source order. The collector keeps at most one
/// entry per key text: a later entry with the same key text replaces the
/// value in place, so entry order is preserved and the last write wins.
pub struct HashLiteral {
    pub token: Token,
    pub pairs: Vec<(Expression, Expression)>,
}

pub enum Expression {
    Identifier(Identifier),
    IntegerLiteral(IntegerLiteral),
    BooleanLiteral(BooleanLiteral),
    StringLiteral(StringLiteral),
    PrefixExpression(PrefixExpression),
    InfixExpression(InfixExpression),
    IfExpression(IfExpression),
    FunctionLiteral(FunctionLiteral),
    CallExpression(CallExpression),
    ArrayLiteral(ArrayLiteral),
    HashLiteral(HashLiteral),
}

pub struct BlockStatement {
    pub token: Token,
    pub statements: Vec<Statement>,
}

pub struct LetStatement {
    pub token: Token,
    pub identifier: Identifier,
    pub value: Option<Expression>,
}

pub struct ReturnStatement {
    pub token: Token,
    pub value: Option<Expression>,
}

pub struct ExpressionStatement {
    pub token: Token,
    pub expression: Option<Expression>,
}

pub enum Statement {
    LetStatement(LetStatement),
    ReturnStatement(ReturnStatement),
    ExpressionStatement(ExpressionStatement),
    BlockStatement(BlockStatement),
}

/// The root of every parse result: the top-level statements in order.
pub struct Program {
    pub statements: Vec<Statement>,
}

// ------------------------------------------------------------------------
// Views: the model value of each executable node.
// ------------------------------------------------------------------------

pub open spec fn view_expr(e: Expression) -> SpecExpr
    decreases e,
{
    match e {
        Expression::Identifier(x) => SpecExpr::Ident { token: x.token },
        Expression::IntegerLiteral(x) => SpecExpr::IntLit { token: x.token, value: x.value },
        Expression::BooleanLiteral(x) => SpecExpr::BoolLit { token: x.token, value: x.value },
        Expression::StringLiteral(x) => SpecExpr::StrLit { token: x.token, value: x.value@ },
        Expression::PrefixExpression(x) => SpecExpr::PrefixOp {
            token: x.token,
            right: Box::new(view_expr(*x.right)),
        },
        Expression::InfixExpression(x) => SpecExpr::InfixOp {
            token: x.token,
            left: Box::new(view_expr(*x.left)),
            right: Box::new(view_expr(*x.right)),
        },
        Expression::IfExpression(x) => SpecExpr::IfExpr {
            token: x.token,
            condition: Box::new(view_expr(*x.condition)),
            consequence: view_block(x.consequence),
            alternative: match x.alternative {
                Some(b) => Some(view_block(b)),
                None => None,
            },
        },
        Expression::FunctionLiteral(x) => SpecExpr::FuncLit {
            token: x.token,
            parameters: view_params(x.parameters@),
            body: view_block(x.body),
        },
        Expression::CallExpression(x) => SpecExpr::CallExpr {
            token: x.token,
            function: Box::new(view_expr(*x.function)),
            args: view_exprs(x.args@),
        },
        Expression::ArrayLiteral(x) => SpecExpr::ArrayLit {
            token: x.token,
            elements: view_exprs(x.elements@),
        },
        Expression::HashLiteral(x) => SpecExpr::HashLit {
            token: x.token,
            pairs: view_pairs(x.pairs@),
        },
    }
}

pub open spec fn view_opt_expr(o: Option<Expression>) -> Option<SpecExpr>
    decreases o,
{
    match o {
        Some(e) => Some(view_expr(e)),
        None => None,
    }
}

pub open spec fn view_opt_stmt(o: Option<Statement>) -> Option<SpecStmt>
    decreases o,
{
    match o {
        Some(s) => Some(view_stmt(s)),
        None => None,
    }
}

pub open spec fn view_exprs(es: Seq<Expression>) -> Seq<SpecExpr>
    decreases es,
{
    if es.len() == 0 {
        Seq::<SpecExpr>::empty()
    } else {
        seq![view_expr(es[0])] + view_exprs(es.drop_first())
    }
}

pub open spec fn view_pairs(ps: Seq<(Expression, Expression)>) -> Seq<(SpecExpr, SpecExpr)>
    decreases ps,
{
    if ps.len() == 0 {
        Seq::<(SpecExpr, SpecExpr)>::empty()
    } else {
        seq![(view_expr(ps[0].0), view_expr(ps[0].1))] + view_pairs(ps.drop_first())
    }
}

pub open spec fn view_params(ids: Seq<Identifier>) -> Seq<Token> {
    Seq::new(ids.len(), |i: int| ids[i].token)
}

pub open spec fn view_stmt(s: Statement) -> SpecStmt
    decreases s,
{
    match s {
        Statement::LetStatement(x) => SpecStmt::LetStmt {
            token: x.token,
            name: x.identifier.token,
            value: view_opt_expr(x.value),
        },
        Statement::ReturnStatement(x) => SpecStmt::ReturnStmt {
            token: x.token,
            value: view_opt_expr(x.value),
        },
        Statement::ExpressionStatement(x) => SpecStmt::ExprStmt {
            token: x.token,
            expression: view_opt_expr(x.expression),
        },
        Statement::BlockStatement(x) => SpecStmt::BlockStmt { block: view_block(x) },
    }
}

pub open spec fn view_stmts(ss: Seq<Statement>) -> Seq<SpecStmt>
    decreases ss,
{
    if ss.len() == 0 {
        Seq::<SpecStmt>::empty()
    } else {
        seq![view_stmt(ss[0])] + view_stmts(ss.drop_first())
    }
}

pub open spec fn view_block(b: BlockStatement) -> SpecBlock
    decreases b,
{
    SpecBlock { token: b.token, statements: view_stmts(b.statements@) }
}

impl Program {
    /// The model of the whole program: its statements' models, in order.
    pub open spec fn view_spec(self) -> Seq<SpecStmt> {
        view_stmts(self.statements@)
    }
}

// ------------------------------------------------------------------------
// Pointwise facts about the sequence views.
// ------------------------------------------------------------------------

pub proof fn lemma_view_exprs_index(es: Seq<Expression>)
    ensures
        view_exprs(es).len() == es.len(),
        forall|i: int| 0 <= i < es.len() ==> view_exprs(es)[i] == view_expr(es[i]),
    decreases es.len(),
{
    if es.len() > 0 {
        lemma_view_exprs_index(es.drop_first());
    }
}

pub proof fn lemma_view_exprs_push(es: Seq<Expression>, e: Expression)
    ensures
        view_exprs(es.push(e)) == view_exprs(es).push(view_expr(e)),
{
    lemma_view_exprs_index(es.push(e));
    lemma_view_exprs_index(es);
    assert(view_exprs(es.push(e)) =~= view_exprs(es).push(view_expr(e)));
}

pub proof fn lemma_view_pairs_index(ps: Seq<(Expression, Expression)>)
    ensures
        view_pairs(ps).len() == ps.len(),
        forall|i: int| 0 <= i < ps.len() ==> view_pairs(ps)[i] == (
            view_expr(ps[i].0),
            view_expr(ps[i].1),
        ),
    decreases ps.len(),
{
    if ps.len() > 0 {
        lemma_view_pairs_index(ps.drop_first());
    }
}

pub proof fn lemma_view_pairs_push(ps: Seq<(Expression, Expression)>, k: Expression, v: Expression)
    ensures
        view_pairs(ps.push((k, v))) == view_pairs(ps).push((view_expr(k), view_expr(v))),
{
    lemma_view_pairs_index(ps.push((k, v)));
    lemma_view_pairs_index(ps);
    assert(view_pairs(ps.push((k, v))) =~= view_pairs(ps).push((view_expr(k), view_expr(v))));
}

pub proof fn lemma_view_stmts_index(ss: Seq<Statement>)
    ensures
        view_stmts(ss).len() == ss.len(),
        forall|i: int| 0 <= i < ss.len() ==> view_stmts(ss)[i] == view_stmt(ss[i]),
    decreases ss.len(),
{
    if ss.len() > 0 {
        lemma_view_stmts_index(ss.drop_first());
    }
}

pub proof fn lemma_view_stmts_push(ss: Seq<Statement>, s: Statement)
    ensures
        view_stmts(ss.push(s)) == view_stmts(ss).push(view_stmt(s)),
{
    lemma_view_stmts_index(ss.push(s));
    lemma_view_stmts_index(ss);
    assert(view_stmts(ss.push(s)) =~= view_stmts(ss).push(view_stmt(s)));
}

} // verus!
