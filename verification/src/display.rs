use vstd::prelude::*;

use crate::ast::{
    ArrayLiteral, BlockStatement, BooleanLiteral, CallExpression, Expression, ExpressionStatement,
    FunctionLiteral, HashLiteral, Identifier, IfExpression, InfixExpression, IntegerLiteral,
    LetStatement, PrefixExpression, Program, ReturnStatement, Statement, StringLiteral,
};
use crate::ast::{
    view_block, view_expr, view_exprs, view_opt_expr, view_pairs, view_params, view_stmt,
    view_stmts, lemma_view_exprs_index, lemma_view_pairs_index, lemma_view_stmts_index,
};
use crate::ast::{SpecBlock, SpecExpr, SpecStmt};
use crate::token::token_text;
use vstd::string::StringExecFns;

verus! {

// ------------------------------------------------------------------------
// The canonical display of the syntax tree, as a function of its model.
// Display is deterministic by construction: the text is a function of the
// node alone. Every infix operation renders as `(left op right)` and every
// prefix operation as `(op operand)`, so structure can be read back from
// the text.
// ------------------------------------------------------------------------

pub open spec fn expr_text(e: SpecExpr) -> Seq<char>
    decreases e,
{
    match e {
        SpecExpr::Ident { token } => token_text(token),
        SpecExpr::IntLit { token, value } => token_text(token),
        SpecExpr::BoolLit { token, value } => token_text(token),
        SpecExpr::StrLit { token, value } => value,
        SpecExpr::PrefixOp { token, right } => "("@ + token_text(token) + expr_text(*right)
            + ")"@,
        SpecExpr::InfixOp { token, left, right } => "("@ + expr_text(*left) + " "@ + token_text(
            token,
        ) + " "@ + expr_text(*right) + ")"@,
        SpecExpr::IfExpr { token, condition, consequence, alternative } => "if "@ + expr_text(
            *condition,
        ) + " "@ + block_text(consequence) + (match alternative {
            Some(b) => " else "@ + block_text(b),
            None => Seq::<char>::empty(),
        }),
        SpecExpr::FuncLit { token, parameters, body } => "fn("@ + params_text(parameters) + ") "@
            + block_text(body),
        SpecExpr::CallExpr { token, function, args } => expr_text(*function) + "("@ + exprs_text(
            args,
        ) + ")"@,
        SpecExpr::ArrayLit { token, elements } => "["@ + exprs_text(elements) + "]"@,
        SpecExpr::HashLit { token, pairs } => "{"@ + pairs_text(pairs) + "}"@,
    }
}

pub open spec fn opt_expr_text(o: Option<SpecExpr>) -> Seq<char>
    decreases o,
{
    match o {
        Some(e) => expr_text(e),
        None => Seq::<char>::empty(),
    }
}

/// Expressions joined by a comma and a space.
pub open spec fn exprs_text(es: Seq<SpecExpr>) -> Seq<char>
    decreases es,
{
    if es.len() == 0 {
        Seq::<char>::empty()
    } else if es.len() == 1 {
        expr_text(es[0])
    } else {
        expr_text(es[0]) + ", "@ + exprs_text(es.drop_first())
    }
}

/// Hash entries `key: value`, joined by a comma and a space.
pub open spec fn pairs_text(ps: Seq<(SpecExpr, SpecExpr)>) -> Seq<char>
    decreases ps,
{
    if ps.len() == 0 {
        Seq::<char>::empty()
    } else if ps.len() == 1 {
        expr_text(ps[0].0) + ": "@ + expr_text(ps[0].1)
    } else {
        expr_text(ps[0].0) + ": "@ + expr_text(ps[0].1) + ", "@ + pairs_text(ps.drop_first())
    }
}

/// Parameter names joined by a comma and a space.
pub open spec fn params_text(ts: Seq<crate::token::Token>) -> Seq<char>
    decreases ts,
{
    if ts.len() == 0 {
        Seq::<char>::empty()
    } else if ts.len() == 1 {
        token_text(ts[0])
    } else {
        token_text(ts[0]) + ", "@ + params_text(ts.drop_first())
    }
}

pub open spec fn stmt_text(s: SpecStmt) -> Seq<char>
    decreases s,
{
    match s {
        SpecStmt::LetStmt { token, name, value } => "let "@ + token_text(name) + " = "@
            + opt_expr_text(value) + ";"@,
        SpecStmt::ReturnStmt { token, value } => "return "@ + opt_expr_text(value) + ";"@,
        SpecStmt::ExprStmt { token, expression } => opt_expr_text(expression),
        SpecStmt::BlockStmt { block } => block_text(block),
    }
}

/// Statements of one block or program, concatenated without separators.
pub open spec fn stmts_text(ss: Seq<SpecStmt>) -> Seq<char>
    decreases ss,
{
    if ss.len() == 0 {
        Seq::<char>::empty()
    } else {
        stmt_text(ss[0]) + stmts_text(ss.drop_first())
    }
}

pub open spec fn block_text(b: SpecBlock) -> Seq<char>
    decreases b,
{
    "{"@ + stmts_text(b.statements) + "}"@
}

// ------------------------------------------------------------------------
// Executable rendering, proved to produce exactly the canonical text.
// ------------------------------------------------------------------------

impl Identifier {
    pub fn to_string(&self) -> (r: String)
        ensures
            r@ == token_text(self.token),
    {
        self.token.to_string()
    }
}

impl IntegerLiteral {
    pub fn to_string(&self) -> (r: String)
        ensures
            r@ == token_text(self.token),
    {
        self.token.to_string()
    }
}

impl BooleanLiteral {
    pub fn to_string(&self) -> (r: String)
        ensures
            r@ == token_text(self.token),
    {
        self.token.to_string()
    }
}

impl StringLiteral {
    pub fn to_string(&self) -> (r: String)
        ensures
            r@ == self.value@,
    {
        self.value.clone()
    }
}

impl Expression {
    pub fn to_string(&self) -> (r: String)
        ensures
            r@ == expr_text(view_expr(*self)),
        decreases self,
    {
        match self {
            Expression::Identifier(x) => x.token.to_string(),
            Expression::IntegerLiteral(x) => x.token.to_string(),
            Expression::BooleanLiteral(x) => x.token.to_string(),
            Expression::StringLiteral(x) => x.value.clone(),
            Expression::PrefixExpression(x) => {
                let mut out = "(".to_owned();
                out.append(x.token.to_string().as_str());
                out.append(x.right.to_string().as_str());
                out.append(")");
                proof {
                    assert(out@ =~= expr_text(view_expr(*self)));
                }
                out
            },
            Expression::InfixExpression(x) => {
                let mut out = "(".to_owned();
                out.append(x.left.to_string().as_str());
                out.append(" ");
                out.append(x.token.to_string().as_str());
                out.append(" ");
                out.append(x.right.to_string().as_str());
                out.append(")");
                proof {
                    assert(out@ =~= expr_text(view_expr(*self)));
                }
                out
            },
            Expression::IfExpression(x) => {
                let mut out = "if ".to_owned();
                out.append(x.condition.to_string().as_str());
                out.append(" ");
                out.append(x.consequence.to_string().as_str());
                match &x.alternative {
                    Some(b) => {
                        out.append(" else ");
                        out.append(b.to_string().as_str());
                    },
                    None => {},
                }
                proof {
                    assert(out@ =~= expr_text(view_expr(*self)));
                }
                out
            },
            Expression::FunctionLiteral(x) => {
                let mut out = "fn(".to_owned();
                out.append(params_join(&x.parameters, 0).as_str());
                out.append(") ");
                out.append(x.body.to_string().as_str());
                proof {
                    assert(view_params(x.parameters@).skip(0) =~= view_params(x.parameters@));
                    assert(out@ =~= expr_text(view_expr(*self)));
                }
                out
            },
            Expression::CallExpression(x) => {
                let mut out = x.function.to_string();
                out.append("(");
                out.append(exprs_join(&x.args, 0).as_str());
                out.append(")");
                proof {
                    assert(view_exprs(x.args@).skip(0) =~= view_exprs(x.args@));
                    assert(out@ =~= expr_text(view_expr(*self)));
                }
                out
            },
            Expression::ArrayLiteral(x) => {
                let mut out = "[".to_owned();
                out.append(exprs_join(&x.elements, 0).as_str());
                out.append("]");
                proof {
                    assert(view_exprs(x.elements@).skip(0) =~= view_exprs(x.elements@));
                    assert(out@ =~= expr_text(view_expr(*self)));
                }
                out
            },
            Expression::HashLiteral(x) => {
                let mut out = "{".to_owned();
                out.append(pairs_join(&x.pairs, 0).as_str());
                out.append("}");
                proof {
                    assert(view_pairs(x.pairs@).skip(0) =~= view_pairs(x.pairs@));
                    assert(out@ =~= expr_text(view_expr(*self)));
                }
                out
            },
        }
    }
}

impl Statement {
    pub fn to_string(&self) -> (r: String)
        ensures
            r@ == stmt_text(view_stmt(*self)),
        decreases self,
    {
        match self {
            Statement::LetStatement(x) => {
                let mut out = "let ".to_owned();
                out.append(x.identifier.token.to_string().as_str());
                out.append(" = ");
                match &x.value {
                    Some(e) => out.append(e.to_string().as_str()),
                    None => {},
                }
                out.append(";");
                proof {
                    assert(out@ =~= stmt_text(view_stmt(*self)));
                }
                out
            },
            Statement::ReturnStatement(x) => {
                let mut out = "return ".to_owned();
                match &x.value {
                    Some(e) => out.append(e.to_string().as_str()),
                    None => {},
                }
                out.append(";");
                proof {
                    assert(out@ =~= stmt_text(view_stmt(*self)));
                }
                out
            },
            Statement::ExpressionStatement(x) => {
                match &x.expression {
                    Some(e) => e.to_string(),
                    None => String::new(),
                }
            },
            Statement::BlockStatement(x) => x.to_string(),
        }
    }
}

impl BlockStatement {
    pub fn to_string(&self) -> (r: String)
        ensures
            r@ == block_text(view_block(*self)),
        decreases self,
    {
        let mut out = "{".to_owned();
        out.append(stmts_join(&self.statements, 0).as_str());
        out.append("}");
        proof {
            assert(view_stmts(self.statements@).skip(0) =~= view_stmts(self.statements@));
            assert(out@ =~= block_text(view_block(*self)));
        }
        out
    }
}

impl Program {
    pub fn to_string(&self) -> (r: String)
        ensures
            r@ == stmts_text(self.view_spec()),
    {
        let r = stmts_join(&self.statements, 0);
        proof {
            assert(view_stmts(self.statements@).skip(0) =~= view_stmts(self.statements@));
        }
        r
    }
}

/// The expressions from position `from` on, joined by a comma and a space.
fn exprs_join(es: &Vec<Expression>, from: usize) -> (r: String)
    requires
        from <= es@.len(),
    ensures
        r@ == exprs_text(view_exprs(es@).skip(from as int)),
    decreases es, es@.len() - from,
{
    proof {
        lemma_view_exprs_index(es@);
    }
    if from == es.len() {
        proof {
            assert(view_exprs(es@).skip(from as int) =~= Seq::<SpecExpr>::empty());
        }
        String::new()
    } else {
        let mut out = es[from].to_string();
        if from + 1 < es.len() {
            out.append(", ");
            out.append(exprs_join(es, from + 1).as_str());
        }
        proof {
            let vs = view_exprs(es@);
            assert(vs.skip(from as int)[0] == vs[from as int]);
            assert(vs.skip(from as int).drop_first() =~= vs.skip(from as int + 1));
            assert(out@ =~= exprs_text(vs.skip(from as int)));
        }
        out
    }
}

/// The hash entries from position `from` on, joined by a comma and a space.
fn pairs_join(ps: &Vec<(Expression, Expression)>, from: usize) -> (r: String)
    requires
        from <= ps@.len(),
    ensures
        r@ == pairs_text(view_pairs(ps@).skip(from as int)),
    decreases ps, ps@.len() - from,
{
    proof {
        lemma_view_pairs_index(ps@);
    }
    if from == ps.len() {
        proof {
            assert(view_pairs(ps@).skip(from as int) =~= Seq::<(SpecExpr, SpecExpr)>::empty());
        }
        String::new()
    } else {
        let mut out = ps[from].0.to_string();
        out.append(": ");
        out.append(ps[from].1.to_string().as_str());
        if from + 1 < ps.len() {
            out.append(", ");
            out.append(pairs_join(ps, from + 1).as_str());
        }
        proof {
            let vs = view_pairs(ps@);
            assert(vs.skip(from as int)[0] == vs[from as int]);
            assert(vs.skip(from as int).drop_first() =~= vs.skip(from as int + 1));
            assert(out@ =~= pairs_text(vs.skip(from as int)));
        }
        out
    }
}

/// The parameter names from position `from` on, joined by a comma and a space.
fn params_join(ids: &Vec<Identifier>, from: usize) -> (r: String)
    requires
        from <= ids@.len(),
    ensures
        r@ == params_text(view_params(ids@).skip(from as int)),
    decreases ids@.len() - from,
{
    if from == ids.len() {
        proof {
            assert(view_params(ids@).skip(from as int) =~= Seq::<crate::token::Token>::empty());
        }
        String::new()
    } else {
        let mut out = ids[from].token.to_string();
        if from + 1 < ids.len() {
            out.append(", ");
            out.append(params_join(ids, from + 1).as_str());
        }
        proof {
            let vs = view_params(ids@);
            assert(vs.skip(from as int)[0] == vs[from as int]);
            assert(vs.skip(from as int).drop_first() =~= vs.skip(from as int + 1));
            assert(out@ =~= params_text(vs.skip(from as int)));
        }
        out
    }
}

/// The statements from position `from` on, concatenated.
fn stmts_join(ss: &Vec<Statement>, from: usize) -> (r: String)
    requires
        from <= ss@.len(),
    ensures
        r@ == stmts_text(view_stmts(ss@).skip(from as int)),
    decreases ss, ss@.len() - from,
{
    proof {
        lemma_view_stmts_index(ss@);
    }
    if from == ss.len() {
        proof {
            assert(view_stmts(ss@).skip(from as int) =~= Seq::<SpecStmt>::empty());
        }
        String::new()
    } else {
        let mut out = ss[from].to_string();
        if from + 1 < ss.len() {
            out.append(stmts_join(ss, from + 1).as_str());
        }
        proof {
            let vs = view_stmts(ss@);
            assert(vs.skip(from as int)[0] == vs[from as int]);
            assert(vs.skip(from as int).drop_first() =~= vs.skip(from as int + 1));
            if from + 1 == ss@.len() {
                assert(vs.skip(from as int + 1).len() == 0);
                assert(stmts_text(vs.skip(from as int + 1)) =~= Seq::<char>::empty());
            }
            assert(out@ =~= stmts_text(vs.skip(from as int)));
        }
        out
    }
}

// ------------------------------------------------------------------------
// Display fully parenthesizes operations.
// ------------------------------------------------------------------------

/// The canonical text of every binary and unary operation is wrapped in
/// parentheses: it begins with `(` and ends with `)`.
pub proof fn lemma_display_parenthesized(e: SpecExpr)
    requires
        e is InfixOp || e is PrefixOp,
    ensures
        expr_text(e).len() >= 2,
        expr_text(e)[0] == '(',
        expr_text(e)[expr_text(e).len() - 1] == ')',
{
    reveal_strlit("(");
    reveal_strlit(")");
    reveal_strlit(" ");
}

} // verus!
