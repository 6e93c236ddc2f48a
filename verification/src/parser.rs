use vstd::prelude::*;

use crate::ast::{
    ArrayLiteral, BlockStatement, BooleanLiteral, CallExpression, Expression, ExpressionStatement, FunctionLiteral,
    HashLiteral, Identifier, IfExpression, InfixExpression, IntegerLiteral, LetStatement,
    PrefixExpression, Program, ReturnStatement, Statement, StringLiteral,
};
use crate::ast::{
    lemma_view_exprs_push, lemma_view_pairs_index, lemma_view_pairs_push, lemma_view_stmts_push,
    view_block, view_expr, view_exprs, view_opt_expr, view_opt_stmt, view_pairs, view_params,
    view_stmt, view_stmts,
};
use crate::ast::{SpecExpr, SpecStmt};
use crate::display::expr_text;
use crate::lexer::Lexer;
use crate::number::parse_integer_value;
use crate::parse_spec::{
    adv, at, hash_put, lemma_hash_put_absent, lemma_hash_put_found, lift, msg_bad_int,
    msg_expected_assign, msg_expected_ident, msg_no_prefix, rem, sp_array_literal,
    sp_block_items, sp_block_statement,
    sp_call_expression, sp_expression, sp_expression_list, sp_expression_list_more,
    sp_expression_statement, sp_fn_expression, sp_fn_parameters, sp_fn_params_more,
    sp_grouped_expression, sp_hash_items, sp_hash_literal, sp_if_expression, sp_infix_chain,
    sp_infix_expression, sp_let_statement, sp_prefix, sp_prefix_expression, sp_program_items,
    sp_return_statement, sp_statement,
};
use crate::precedence::{is_infix_token, spec_precedence, PrecedenceType};
use crate::token::{token_eq, Token};
use vstd::string::StringExecFns;

verus! {

/// The texts of the collected diagnostics, in order.
pub open spec fn log_of(es: Seq<String>) -> Seq<Seq<char>> {
    Seq::new(es.len(), |i: int| es[i]@)
}

/// The diagnostics grew by exactly `msgs`, text for text, the earlier
/// ones kept in place: the collector is append-only, and every message's
/// content is fixed.
pub open spec fn errors_extended(pre: Parser, post: Parser, msgs: Seq<Seq<char>>) -> bool {
    log_of(post.errors@) == log_of(pre.errors@) + msgs
}

/// Concatenation of message sequences is associative.
proof fn lemma_msgs_assoc(a: Seq<Seq<char>>, b: Seq<Seq<char>>, c: Seq<Seq<char>>)
    ensures
        (a + b) + c == a + (b + c),
{
    assert((a + b) + c =~= a + (b + c));
}

/// The empty message sequence extends nothing.
proof fn lemma_msgs_empty(a: Seq<Seq<char>>)
    ensures
        a + Seq::<Seq<char>>::empty() == a,
{
    assert(a + Seq::<Seq<char>>::empty() =~= a);
}

/// The syntactic analyzer: a cursor over the token stream and the
/// diagnostics collected so far. Parsing never aborts the whole program:
/// `parse_program` always returns a tree, and `errors` is the sole error
/// signal.
pub struct Parser {
    pub toks: Vec<Token>,
    pub pos: usize,
    pub errors: Vec<String>,
}

impl Parser {
    /// The whole token stream being parsed.
    pub open spec fn stream(self) -> Seq<Token> {
        self.toks@
    }

    /// The cursor: the position of the current token in the stream.
    pub open spec fn at_pos(self) -> int {
        self.pos as int
    }

    pub open spec fn wf(self) -> bool {
        0 <= self.at_pos() <= self.stream().len()
    }

    /// Takes the token source's stream; the cursor starts at its front.
    pub fn new(lexer: Lexer) -> (p: Parser)
        requires
            lexer.wf(),
        ensures
            p.wf(),
            p.stream() == lexer.remaining(),
            p.at_pos() == 0,
            p.errors@.len() == 0,
    {
        Parser { toks: lexer.into_tokens(), pos: 0, errors: Vec::new() }
    }

    /// The current token; the end-of-input sentinel once the stream is done.
    fn cur(&self) -> (t: Token)
        requires
            self.wf(),
        ensures
            t == at(self.stream(), self.at_pos()),
    {
        if self.pos < self.toks.len() {
            self.toks[self.pos].clone()
        } else {
            Token::Eof
        }
    }

    /// The one-ahead token; the sentinel past the stream's end.
    fn peek(&self) -> (t: Token)
        requires
            self.wf(),
        ensures
            t == at(self.stream(), self.at_pos() + 1),
    {
        if self.pos < self.toks.len() && self.pos + 1 < self.toks.len() {
            self.toks[self.pos + 1].clone()
        } else {
            Token::Eof
        }
    }

    /// Shifts the cursor one token onward; a no-op once past the end, where
    /// every token is the sentinel anyway.
    fn next_token(&mut self)
        requires
            old(self).wf(),
        ensures
            final(self).wf(),
            final(self).stream() == old(self).stream(),
            final(self).errors == old(self).errors,
            final(self).at_pos() == adv(old(self).stream(), old(self).at_pos()),
    {
        if self.pos < self.toks.len() {
            self.pos = self.pos + 1;
        }
    }

    /// Appends one diagnostic with exactly the given text; everything
    /// else stays put.
    fn report(&mut self, m: String)
        requires
            old(self).wf(),
        ensures
            final(self).wf(),
            final(self).stream() == old(self).stream(),
            final(self).at_pos() == old(self).at_pos(),
            errors_extended(*old(self), *final(self), seq![m@]),
    {
        let ghost before = self.errors@;
        self.errors.push(m);
        proof {
            assert(log_of(self.errors@) =~= log_of(before) + seq![m@]);
        }
    }

    /// The binding power of `token` in continuing position.
    fn get_precedence(token: &Token) -> (r: PrecedenceType)
        ensures
            r == spec_precedence(*token),
    {
        match token {
            Token::Equals => PrecedenceType::Equals,
            Token::NotEquals => PrecedenceType::Equals,
            Token::Lt => PrecedenceType::LessGreater,
            Token::Gt => PrecedenceType::LessGreater,
            Token::Plus => PrecedenceType::Sum,
            Token::Minus => PrecedenceType::Sum,
            Token::Slash => PrecedenceType::Product,
            Token::Asterisk => PrecedenceType::Product,
            Token::Lparen => PrecedenceType::Call,
            _ => PrecedenceType::Lowest,
        }
    }

    /// The current token is an identifier: wrap it.
    fn parse_identifier(&mut self) -> (r: Option<Expression>)
        requires
            old(self).wf(),
        ensures
            *final(self) == *old(self),
            view_opt_expr(r) == Some(
                SpecExpr::Ident { token: at(old(self).stream(), old(self).at_pos()) },
            ),
    {
        Some(Expression::Identifier(Identifier { token: self.cur() }))
    }

    /// The current token is a numeric literal: its text must read as a
    /// 64-bit signed integer, else one diagnostic is recorded and this
    /// expression fails.
    fn parse_integer_literal(&mut self, int_string: String) -> (r: Option<Expression>)
        requires
            old(self).wf(),
        ensures
            final(self).wf(),
            final(self).stream() == old(self).stream(),
            final(self).at_pos() == old(self).at_pos(),
            ({
                let v = crate::number::str_to_i64(int_string@);
                match v {
                    Some(value) => errors_extended(*old(self), *final(self), Seq::empty())
                        && view_opt_expr(r) == Some(
                        SpecExpr::IntLit {
                            token: at(old(self).stream(), old(self).at_pos()),
                            value,
                        },
                    ),
                    None => errors_extended(
                        *old(self),
                        *final(self),
                        seq![msg_bad_int(int_string@)],
                    ) && r is None,
                }
            }),
    {
        let token = self.cur();
        match parse_integer_value(int_string.as_str()) {
            Some(value) => Some(
                Expression::IntegerLiteral(IntegerLiteral { token, value }),
            ),
            None => {
                let mut m = "could not parse ".to_owned();
                m.append(int_string.as_str());
                m.append(" as integer");
                proof {
                    assert(m@ =~= msg_bad_int(int_string@));
                }
                self.report(m);
                None
            },
        }
    }

    /// The current token is a boolean keyword: wrap it.
    fn parse_bool_literal(&mut self, value: bool) -> (r: Option<Expression>)
        requires
            old(self).wf(),
        ensures
            *final(self) == *old(self),
            view_opt_expr(r) == Some(
                SpecExpr::BoolLit { token: at(old(self).stream(), old(self).at_pos()), value },
            ),
    {
        Some(Expression::BooleanLiteral(BooleanLiteral { token: self.cur(), value }))
    }

    /// The current token is a string literal: wrap it.
    fn parse_string_literal(&mut self) -> (r: Option<Expression>)
        requires
            old(self).wf(),
        ensures
            *final(self) == *old(self),
            view_opt_expr(r) == Some(
                SpecExpr::StrLit {
                    token: at(old(self).stream(), old(self).at_pos()),
                    value: crate::token::token_text(at(old(self).stream(), old(self).at_pos())),
                },
            ),
    {
        let token = self.cur();
        let value = token.to_string();
        Some(Expression::StringLiteral(StringLiteral { token, value }))
    }

    /// Whether the current token ends the whole parse.
    fn at_eof(&self) -> (r: bool)
        requires
            self.wf(),
        ensures
            r == (at(self.stream(), self.at_pos()) is Eof),
    {
        let c = self.cur();
        matches!(c, Token::Eof)
    }

    /// Whether the current token closes a block or ends the input.
    fn block_done(&self) -> (r: bool)
        requires
            self.wf(),
        ensures
            r == (at(self.stream(), self.at_pos()) is Rbrace || at(self.stream(), self.at_pos())
                is Eof),
    {
        let c = self.cur();
        matches!(c, Token::Rbrace | Token::Eof)
    }

    /// Whether the climb folds the one-ahead token into the expression:
    /// it is no terminator, binds strictly tighter than `precedence`, and is
    /// a binary operator or a call opening.
    fn climb_step(&self, precedence: &PrecedenceType) -> (r: bool)
        requires
            self.wf(),
        ensures
            r == climb_cond(self.stream(), self.at_pos(), *precedence),
    {
        let pk = self.peek();
        if matches!(pk, Token::Semicolon) {
            return false;
        }
        if !precedence.lt(&Self::get_precedence(&pk)) {
            return false;
        }
        is_infix(&pk) || matches!(pk, Token::Lparen)
    }

    /// Whether the one-ahead token continues a comma-separated list.
    fn list_continues(&self) -> (r: bool)
        requires
            self.wf(),
        ensures
            r == (at(self.stream(), self.at_pos() + 1) is Comma),
    {
        let pk = self.peek();
        matches!(pk, Token::Comma)
    }

    /// Parses the whole input: one statement attempt per iteration, the
    /// cursor advanced after every attempt, failed attempts left out of the
    /// program. The result is exactly the mathematical parse of the stream,
    /// and the diagnostics grow by exactly its count.
    pub fn parse_program(&mut self) -> (r: Program)
        requires
            old(self).wf(),
        ensures
            final(self).wf(),
            final(self).stream() == old(self).stream(),
            ({
                let o = sp_program_items(old(self).stream(), old(self).at_pos());
                &&& r.view_spec() == o.items
                &&& final(self).at_pos() == o.end
                &&& errors_extended(*old(self), *final(self), o.msgs)
            }),
    {
        let ghost t = self.stream();
        let ghost p0 = self.at_pos();
        let mut statements: Vec<Statement> = Vec::new();
        while !self.at_eof()
            invariant
                self.wf(),
                self.stream() == t,
                old(self).stream() == t,
                old(self).at_pos() == p0,
                p0 <= self.at_pos(),

                ({
                    let g = sp_program_items(t, p0);
                    let f = sp_program_items(t, self.at_pos());
                    &&& g.items == view_stmts(statements@) + f.items
                    &&& g.end == f.end
                    &&& log_of(self.errors@) + f.msgs == log_of(old(self).errors@) + g.msgs
                }),
            decreases rem(t, self.at_pos()),
        {
            let ghost pre = *self;
            let ghost before = statements@;
            let stmt = self.parse_statement();
            match stmt {
                Some(s) => {
                    proof {
                        lemma_view_stmts_push(statements@, s);
                    }
                    statements.push(s);
                },
                None => {},
            }
            self.next_token();
            proof {
                let o = sp_statement(t, pre.at_pos());
                let rest = sp_program_items(t, self.at_pos());
                match o.val {
                    Some(sv) => {
                        assert(view_stmts(before) + (seq![sv] + rest.items) =~= view_stmts(
                            statements@,
                        ) + rest.items);
                    },
                    None => {},
                }
            }
        }
        proof {
            let g = sp_program_items(t, p0);
            let f = sp_program_items(t, self.at_pos());
            assert(view_stmts(statements@) + f.items =~= view_stmts(statements@));
        }
        Program { statements }
    }

    /// Statement dispatch on the current token's kind.
    fn parse_statement(&mut self) -> (r: Option<Statement>)
        requires
            old(self).wf(),
            old(self).at_pos() < old(self).stream().len(),
        ensures
            final(self).wf(),
            final(self).stream() == old(self).stream(),
            old(self).at_pos() <= final(self).at_pos(),
            ({
                let o = sp_statement(old(self).stream(), old(self).at_pos());
                &&& final(self).at_pos() == o.end
                &&& errors_extended(*old(self), *final(self), o.msgs)
                &&& view_opt_stmt(r) == o.val
            }),
        decreases rem(old(self).stream(), old(self).at_pos()), 8int,
    {
        let c = self.cur();
        match c {
            Token::Let => self.parse_let_statement(),
            Token::Return => self.parse_return_statement(),
            _ => self.parse_expression_statement(),
        }
    }

    /// `let` requires an identifier and an assignment operator; on a
    /// mismatch one diagnostic is recorded and the statement is dropped.
    fn parse_let_statement(&mut self) -> (r: Option<Statement>)
        requires
            old(self).wf(),
            old(self).at_pos() < old(self).stream().len(),
        ensures
            final(self).wf(),
            final(self).stream() == old(self).stream(),
            old(self).at_pos() <= final(self).at_pos(),
            ({
                let o = sp_let_statement(old(self).stream(), old(self).at_pos());
                &&& final(self).at_pos() == o.end
                &&& errors_extended(*old(self), *final(self), o.msgs)
                &&& view_opt_stmt(r) == o.val
            }),
        decreases rem(old(self).stream(), old(self).at_pos()), 7int,
    {
        let token = self.cur();
        let pk = self.peek();
        if matches!(pk, Token::Ident(_)) {
            self.next_token();
        } else {
            let mut m = "expected next token to be an identifier, got ".to_owned();
            m.append(pk.to_string().as_str());
            m.append(" instead");
            proof {
                assert(m@ =~= msg_expected_ident(pk));
            }
            self.report(m);
            return None;
        }
        let name = Identifier { token: self.cur() };
        let pk2 = self.peek();
        if matches!(pk2, Token::Assign) {
            self.next_token();
        } else {
            let mut m = "expected next token to be =, got ".to_owned();
            m.append(pk2.to_string().as_str());
            m.append(" instead");
            proof {
                assert(m@ =~= msg_expected_assign(pk2));
            }
            self.report(m);
            return None;
        }
        self.next_token();
        let value = self.parse_expression(PrecedenceType::Lowest);
        if matches!(self.peek(), Token::Semicolon) {
            self.next_token();
        }
        Some(Statement::LetStatement(LetStatement { token, identifier: name, value }))
    }

    /// `return` always yields a statement; a failed value parse leaves its
    /// value slot empty.
    fn parse_return_statement(&mut self) -> (r: Option<Statement>)
        requires
            old(self).wf(),
            old(self).at_pos() < old(self).stream().len(),
        ensures
            final(self).wf(),
            final(self).stream() == old(self).stream(),
            old(self).at_pos() <= final(self).at_pos(),
            ({
                let o = sp_return_statement(old(self).stream(), old(self).at_pos());
                &&& final(self).at_pos() == o.end
                &&& errors_extended(*old(self), *final(self), o.msgs)
                &&& view_opt_stmt(r) == o.val
            }),
        decreases rem(old(self).stream(), old(self).at_pos()), 7int,
    {
        let token = self.cur();
        self.next_token();
        let value = self.parse_expression(PrecedenceType::Lowest);
        if matches!(self.peek(), Token::Semicolon) {
            self.next_token();
        }
        Some(Statement::ReturnStatement(ReturnStatement { token, value }))
    }

    /// An expression statement always yields a statement shell, even when
    /// the inner expression parse failed.
    fn parse_expression_statement(&mut self) -> (r: Option<Statement>)
        requires
            old(self).wf(),
            old(self).at_pos() < old(self).stream().len(),
        ensures
            final(self).wf(),
            final(self).stream() == old(self).stream(),
            old(self).at_pos() <= final(self).at_pos(),
            ({
                let o = sp_expression_statement(old(self).stream(), old(self).at_pos());
                &&& final(self).at_pos() == o.end
                &&& errors_extended(*old(self), *final(self), o.msgs)
                &&& view_opt_stmt(r) == o.val
            }),
        decreases rem(old(self).stream(), old(self).at_pos()), 7int,
    {
        let token = self.cur();
        let expression = self.parse_expression(PrecedenceType::Lowest);
        let exp_stmt = ExpressionStatement { token, expression };
        if matches!(self.peek(), Token::Semicolon) {
            self.next_token();
        }
        Some(Statement::ExpressionStatement(exp_stmt))
    }

    /// A block: statement attempts until the closing brace or the end of
    /// input; a block always comes back.
    #[verifier::rlimit(100)]
    fn parse_block_statement(&mut self) -> (r: BlockStatement)
        requires
            old(self).wf(),
            old(self).at_pos() < old(self).stream().len(),
        ensures
            final(self).wf(),
            final(self).stream() == old(self).stream(),
            old(self).at_pos() <= final(self).at_pos(),
            ({
                let b = sp_block_statement(old(self).stream(), old(self).at_pos());
                &&& final(self).at_pos() == b.end
                &&& errors_extended(*old(self), *final(self), b.msgs)
                &&& view_block(r) == b.blk
            }),
        decreases rem(old(self).stream(), old(self).at_pos()), 12int,
    {
        let ghost t = self.stream();
        let token = self.cur();
        let mut statements: Vec<Statement> = Vec::new();
        self.next_token();
        let ghost p0 = self.at_pos();
        while !self.block_done()
            invariant
                self.wf(),
                self.stream() == t,
                old(self).stream() == t,
                old(self).at_pos() < t.len(),
                p0 == adv(t, old(self).at_pos()),
                p0 <= self.at_pos(),

                ({
                    let g = sp_block_items(t, p0);
                    let f = sp_block_items(t, self.at_pos());
                    &&& g.items == view_stmts(statements@) + f.items
                    &&& g.end == f.end
                    &&& log_of(self.errors@) + f.msgs == log_of(old(self).errors@) + g.msgs
                }),
            decreases rem(t, self.at_pos()),
        {
            let ghost pre = *self;
            let ghost before = statements@;
            let stmt = self.parse_statement();
            match stmt {
                Some(s) => {
                    proof {
                        lemma_view_stmts_push(statements@, s);
                    }
                    statements.push(s);
                },
                None => {},
            }
            self.next_token();
            proof {
                let o = sp_statement(t, pre.at_pos());
                let rest = sp_block_items(t, self.at_pos());
                match o.val {
                    Some(sv) => {
                        assert(view_stmts(before) + (seq![sv] + rest.items) =~= view_stmts(
                            statements@,
                        ) + rest.items);
                    },
                    None => {},
                }
            }
        }
        proof {
            let f = sp_block_items(t, self.at_pos());
            assert(view_stmts(statements@) + f.items =~= view_stmts(statements@));
        }
        BlockStatement { token, statements }
    }

    /// One expression at the given minimal binding power: a leading-position
    /// handler chosen by the current token, then the climb over continuing
    /// operators. Equal binding powers fold to the left because the climb
    /// only continues on strictly greater power.
    fn parse_expression(&mut self, precedence: PrecedenceType) -> (r: Option<Expression>)
        requires
            old(self).wf(),
        ensures
            final(self).wf(),
            final(self).stream() == old(self).stream(),
            old(self).at_pos() <= final(self).at_pos(),
            ({
                let o = sp_expression(old(self).stream(), old(self).at_pos(), precedence);
                &&& final(self).at_pos() == o.end
                &&& errors_extended(*old(self), *final(self), o.msgs)
                &&& view_opt_expr(r) == o.val
            }),
        decreases rem(old(self).stream(), old(self).at_pos()), 6int,
    {
        let ghost t = self.stream();
        let ghost p0 = self.at_pos();
        let c = self.cur();
        let left_opt: Option<Expression> = match &c {
            Token::Ident(_) => self.parse_identifier(),
            Token::Int(s) => self.parse_integer_literal(s.clone()),
            Token::True => self.parse_bool_literal(true),
            Token::False => self.parse_bool_literal(false),
            Token::Str(_) => self.parse_string_literal(),
            Token::Lparen => self.parse_grouped_expression(),
            Token::If => self.parse_if_expression(),
            Token::Function => self.parse_fn_expression(),
            Token::Lbracket => self.parse_array_literal(),
            Token::Lbrace => self.parse_hash_literal(),
            Token::Bang => self.parse_prefix_expression(),
            Token::Minus => self.parse_prefix_expression(),
            _ => {
                let mut m = "no prefix parse function for ".to_owned();
                m.append(c.to_string().as_str());
                m.append(" found");
                proof {
                    assert(m@ =~= msg_no_prefix(c));
                }
                self.report(m);
                None
            },
        };
        let mut left = match left_opt {
            Some(l) => l,
            None => {
                return None;
            },
        };
        while self.climb_step(&precedence)
            invariant
                self.wf(),
                self.stream() == t,
                old(self).stream() == t,
                old(self).at_pos() == p0,
                p0 <= self.at_pos(),

                ({
                    let g = sp_expression(t, p0, precedence);
                    let f = sp_infix_chain(t, self.at_pos(), precedence, view_expr(left));
                    &&& g.end == f.end
                    &&& g.val == f.val
                    &&& log_of(self.errors@) + f.msgs == log_of(old(self).errors@) + g.msgs
                }),
            decreases rem(t, self.at_pos()),
        {
            let pk = self.peek();
            if is_infix(&pk) {
                self.next_token();
                match self.parse_infix_expression(left) {
                    Some(x) => {
                        left = x;
                    },
                    None => {
                        return None;
                    },
                }
            } else {
                self.next_token();
                match self.parse_call_expression(left) {
                    Some(x) => {
                        left = x;
                    },
                    None => {
                        return None;
                    },
                }
            }
        }
        Some(left)
    }

    /// A parenthesized group: the inner expression restarts at the lowest
    /// level; a missing closing parenthesis fails the group silently.
    fn parse_grouped_expression(&mut self) -> (r: Option<Expression>)
        requires
            old(self).wf(),
            at(old(self).stream(), old(self).at_pos()) is Lparen,
        ensures
            final(self).wf(),
            final(self).stream() == old(self).stream(),
            old(self).at_pos() <= final(self).at_pos(),
            ({
                let o = sp_grouped_expression(old(self).stream(), old(self).at_pos());
                &&& final(self).at_pos() == o.end
                &&& errors_extended(*old(self), *final(self), o.msgs)
                &&& view_opt_expr(r) == o.val
            }),
        decreases rem(old(self).stream(), old(self).at_pos()), 4int,
    {
        self.next_token();
        let exp = self.parse_expression(PrecedenceType::Lowest);
        if matches!(self.peek(), Token::Rparen) {
            self.next_token();
            exp
        } else {
            None
        }
    }

    /// A conditional: any structural mismatch abandons the whole construct
    /// without a diagnostic of its own.
    #[verifier::rlimit(100)]
    fn parse_if_expression(&mut self) -> (r: Option<Expression>)
        requires
            old(self).wf(),
            at(old(self).stream(), old(self).at_pos()) is If,
        ensures
            final(self).wf(),
            final(self).stream() == old(self).stream(),
            old(self).at_pos() <= final(self).at_pos(),
            ({
                let o = sp_if_expression(old(self).stream(), old(self).at_pos());
                &&& final(self).at_pos() == o.end
                &&& errors_extended(*old(self), *final(self), o.msgs)
                &&& view_opt_expr(r) == o.val
            }),
        decreases rem(old(self).stream(), old(self).at_pos()), 4int,
    {
        let ghost t = self.stream();
        let token = self.cur();
        if matches!(self.peek(), Token::Lparen) {
            self.next_token();
        } else {
            return None;
        }
        self.next_token();
        let ghost om = sp_expression(t, self.at_pos(), PrecedenceType::Lowest).msgs;
        let condition = match self.parse_expression(PrecedenceType::Lowest) {
            Some(c) => c,
            None => {
                return None;
            },
        };
        if matches!(self.peek(), Token::Rparen) {
            self.next_token();
        } else {
            return None;
        }
        if matches!(self.peek(), Token::Lbrace) {
            self.next_token();
        } else {
            return None;
        }
        let ghost pblk = self.at_pos();
        let consequence = self.parse_block_statement();
        proof {
            lemma_msgs_assoc(log_of(old(self).errors@), om, sp_block_statement(t, pblk).msgs);
        }
        let mut alternative: Option<BlockStatement> = None;
        if matches!(self.peek(), Token::Else) {
            self.next_token();
            if matches!(self.peek(), Token::Lbrace) {
                self.next_token();
            } else {
                return None;
            }
            let ghost pblk2 = self.at_pos();
            alternative = Some(self.parse_block_statement());
            proof {
                lemma_msgs_assoc(
                    log_of(old(self).errors@),
                    om + sp_block_statement(t, pblk).msgs,
                    sp_block_statement(t, pblk2).msgs,
                );
            }
        }
        Some(
            Expression::IfExpression(
                IfExpression { token, condition: Box::new(condition), consequence, alternative },
            ),
        )
    }

    /// A function literal: a parenthesized parameter list and a block body;
    /// any structural mismatch abandons the construct silently.
    #[verifier::rlimit(100)]
    fn parse_fn_expression(&mut self) -> (r: Option<Expression>)
        requires
            old(self).wf(),
            at(old(self).stream(), old(self).at_pos()) is Function,
        ensures
            final(self).wf(),
            final(self).stream() == old(self).stream(),
            old(self).at_pos() <= final(self).at_pos(),
            ({
                let o = sp_fn_expression(old(self).stream(), old(self).at_pos());
                &&& final(self).at_pos() == o.end
                &&& errors_extended(*old(self), *final(self), o.msgs)
                &&& view_opt_expr(r) == o.val
            }),
        decreases rem(old(self).stream(), old(self).at_pos()), 4int,
    {
        let ghost t = self.stream();
        let token = self.cur();
        if matches!(self.peek(), Token::Lparen) {
            self.next_token();
        } else {
            return None;
        }
        let ghost pm = sp_fn_parameters(t, self.at_pos()).msgs;
        let parameters = match self.parse_fn_parameters() {
            Some(ps) => ps,
            None => {
                return None;
            },
        };
        if matches!(self.peek(), Token::Lbrace) {
            self.next_token();
        } else {
            return None;
        }
        let ghost pblk = self.at_pos();
        let body = self.parse_block_statement();
        proof {
            lemma_msgs_assoc(log_of(old(self).errors@), pm, sp_block_statement(t, pblk).msgs);
        }
        Some(Expression::FunctionLiteral(FunctionLiteral { token, parameters, body }))
    }

    /// The comma-separated parameter list of a function literal.
    /// Parameters are bare identifiers: any other token in a name position
    /// records an expectation mismatch and fails the list. A list not
    /// closed by a parenthesis fails silently.
    fn parse_fn_parameters(&mut self) -> (r: Option<Vec<Identifier>>)
        requires
            old(self).wf(),
            old(self).at_pos() < old(self).stream().len(),
        ensures
            final(self).wf(),
            final(self).stream() == old(self).stream(),
            old(self).at_pos() <= final(self).at_pos(),
            ({
                let o = sp_fn_parameters(old(self).stream(), old(self).at_pos());
                &&& final(self).at_pos() == o.end
                &&& errors_extended(*old(self), *final(self), o.msgs)
                &&& (match r {
                    Some(v) => o.val == Some(view_params(v@)),
                    None => o.val is None,
                })
            }),
        decreases rem(old(self).stream(), old(self).at_pos()), 3int,
    {
        let ghost t = self.stream();
        let mut params: Vec<Identifier> = Vec::new();
        if matches!(self.peek(), Token::Rparen) {
            self.next_token();
            proof {
                assert(view_params(params@) =~= Seq::<Token>::empty());
            }
            return Some(params);
        }
        self.next_token();
        let first = self.cur();
        if !matches!(first, Token::Ident(_)) {
            let mut m = "expected next token to be an identifier, got ".to_owned();
            m.append(first.to_string().as_str());
            m.append(" instead");
            proof {
                assert(m@ =~= msg_expected_ident(first));
            }
            self.report(m);
            return None;
        }
        params.push(Identifier { token: first });
        proof {
            assert(view_params(params@) =~= seq![at(t, self.at_pos())]);
        }
        while self.list_continues()
            invariant
                self.wf(),
                self.stream() == t,
                old(self).stream() == t,
                old(self).at_pos() < self.at_pos(),
                self.errors == old(self).errors,
                ({
                    let g = sp_fn_parameters(t, old(self).at_pos());
                    let f = sp_fn_params_more(t, self.at_pos(), view_params(params@));
                    &&& g.end == f.end
                    &&& g.val == f.val
                    &&& log_of(self.errors@) + f.msgs == log_of(old(self).errors@) + g.msgs
                }),
            decreases rem(t, self.at_pos()),
        {
            let ghost before = params@;
            self.next_token();
            self.next_token();
            let name = self.cur();
            if !matches!(name, Token::Ident(_)) {
                let mut m = "expected next token to be an identifier, got ".to_owned();
                m.append(name.to_string().as_str());
                m.append(" instead");
                proof {
                    assert(m@ =~= msg_expected_ident(name));
                }
                self.report(m);
                return None;
            }
            params.push(Identifier { token: name });
            proof {
                assert(view_params(params@) =~= view_params(before).push(at(t, self.at_pos())));
            }
        }
        if matches!(self.peek(), Token::Rparen) {
            self.next_token();
            Some(params)
        } else {
            None
        }
    }

    /// An array literal: a bracketed expression list.
    #[verifier::rlimit(100)]
    fn parse_array_literal(&mut self) -> (r: Option<Expression>)
        requires
            old(self).wf(),
            at(old(self).stream(), old(self).at_pos()) is Lbracket,
        ensures
            final(self).wf(),
            final(self).stream() == old(self).stream(),
            old(self).at_pos() <= final(self).at_pos(),
            ({
                let o = sp_array_literal(old(self).stream(), old(self).at_pos());
                &&& final(self).at_pos() == o.end
                &&& errors_extended(*old(self), *final(self), o.msgs)
                &&& view_opt_expr(r) == o.val
            }),
        decreases rem(old(self).stream(), old(self).at_pos()), 5int,
    {
        let token = self.cur();
        match self.parse_expression_list(Token::Rbracket) {
            Some(elements) => Some(Expression::ArrayLiteral(ArrayLiteral { token, elements })),
            None => None,
        }
    }

    /// One `key: value` entry of a hash literal: parses the key, the
    /// colon, the value, folds the entry into `pairs`, and consumes the
    /// separating comma where one follows.
    fn parse_hash_entry(&mut self, pairs: &mut Vec<(Expression, Expression)>) -> (ok: bool)
        requires
            old(self).wf(),
            old(self).at_pos() < old(self).stream().len(),
            !(at(old(self).stream(), old(self).at_pos() + 1) is Rbrace),
        ensures
            final(self).wf(),
            final(self).stream() == old(self).stream(),
            old(self).at_pos() <= final(self).at_pos(),
            ({
                let f0 = sp_hash_items(
                    old(self).stream(),
                    old(self).at_pos(),
                    view_pairs(old(pairs)@),
                );
                if ok {
                    let f2 = sp_hash_items(
                        old(self).stream(),
                        final(self).at_pos(),
                        view_pairs(final(pairs)@),
                    );
                    &&& f0.end == f2.end
                    &&& f0.val == f2.val
                    &&& log_of(final(self).errors@) + f2.msgs == log_of(old(self).errors@)
                        + f0.msgs
                    &&& old(self).at_pos() < final(self).at_pos()
                    &&& final(self).at_pos() < final(self).stream().len()
                } else {
                    &&& f0.val is None
                    &&& final(self).at_pos() == f0.end
                    &&& errors_extended(*old(self), *final(self), f0.msgs)
                }
            }),
        decreases rem(old(self).stream(), old(self).at_pos()), 4int,
    {
        let ghost t = self.stream();
        let ghost ph = self.at_pos();
        let ghost acc0 = view_pairs(pairs@);
        let ghost f0 = sp_hash_items(t, ph, acc0);
        self.next_token();
        let ghost kk = sp_expression(t, self.at_pos(), PrecedenceType::Lowest);
        let key = match self.parse_expression(PrecedenceType::Lowest) {
            Some(k) => k,
            None => {
                proof {
                    assert(f0.val is None && f0.end == kk.end && f0.msgs == kk.msgs);
                }
                return false;
            },
        };
        proof {
            assert(kk.val == Some(view_expr(key)));
        }
        let ghost ke = self.at_pos();
        if matches!(self.peek(), Token::Colon) {
            self.next_token();
        } else {
            proof {
                assert(f0.val is None && f0.end == ke && f0.msgs == kk.msgs);
            }
            return false;
        }
        self.next_token();
        let ghost vv = sp_expression(t, self.at_pos(), PrecedenceType::Lowest);
        let value = match self.parse_expression(PrecedenceType::Lowest) {
            Some(v) => v,
            None => {
                proof {
                    assert(f0.val is None && f0.end == vv.end && f0.msgs == kk.msgs + vv.msgs);
                    lemma_msgs_assoc(log_of(old(self).errors@), kk.msgs, vv.msgs);
                }
                return false;
            },
        };
        proof {
            assert(vv.val == Some(view_expr(value)));
        }
        hash_pairs_put(pairs, key, value);
        let ghost ve = self.at_pos();
        let ghost acc2 = hash_put(acc0, view_expr(key), view_expr(value));
        proof {
            assert(view_pairs(pairs@) == acc2);
        }
        if !matches!(self.peek(), Token::Rbrace) {
            if matches!(self.peek(), Token::Comma) {
                self.next_token();
                proof {
                    let r2 = sp_hash_items(t, self.at_pos(), acc2);
                    assert(f0.end == r2.end && f0.val == r2.val && f0.msgs == kk.msgs + vv.msgs
                        + r2.msgs);
                    lemma_msgs_assoc(log_of(old(self).errors@), kk.msgs, vv.msgs);
                    lemma_msgs_assoc(log_of(old(self).errors@), kk.msgs + vv.msgs, r2.msgs);
                }
                true
            } else {
                proof {
                    assert(f0.val is None && f0.end == ve && f0.msgs == kk.msgs + vv.msgs);
                    lemma_msgs_assoc(log_of(old(self).errors@), kk.msgs, vv.msgs);
                }
                false
            }
        } else {
            proof {
                let r2 = sp_hash_items(t, self.at_pos(), acc2);
                assert(f0.end == r2.end && f0.val == r2.val && f0.msgs == kk.msgs + vv.msgs
                    + r2.msgs);
                lemma_msgs_assoc(log_of(old(self).errors@), kk.msgs, vv.msgs);
                lemma_msgs_assoc(log_of(old(self).errors@), kk.msgs + vv.msgs, r2.msgs);
            }
            true
        }
    }

    /// A hash literal: `key: value` entries up to the closing brace. The
    /// collector keeps one entry per key text; a later duplicate replaces
    /// the value in place, so the last write wins.
    #[verifier::rlimit(100)]
    fn parse_hash_literal(&mut self) -> (r: Option<Expression>)
        requires
            old(self).wf(),
            at(old(self).stream(), old(self).at_pos()) is Lbrace,
        ensures
            final(self).wf(),
            final(self).stream() == old(self).stream(),
            old(self).at_pos() <= final(self).at_pos(),
            ({
                let o = sp_hash_literal(old(self).stream(), old(self).at_pos());
                &&& final(self).at_pos() == o.end
                &&& errors_extended(*old(self), *final(self), o.msgs)
                &&& view_opt_expr(r) == o.val
            }),
        decreases rem(old(self).stream(), old(self).at_pos()), 5int,
    {
        let ghost t = self.stream();
        let ghost p0 = self.at_pos();
        let token = self.cur();
        let mut pairs: Vec<(Expression, Expression)> = Vec::new();
        while !matches!(self.peek(), Token::Rbrace)
            invariant
                self.wf(),
                self.stream() == t,
                old(self).stream() == t,
                old(self).at_pos() == p0,
                at(t, p0) is Lbrace,
                p0 <= self.at_pos(),
                self.at_pos() < t.len(),

                ({
                    let g = sp_hash_items(t, p0, Seq::empty());
                    let f = sp_hash_items(t, self.at_pos(), view_pairs(pairs@));
                    &&& g.end == f.end
                    &&& g.val == f.val
                    &&& log_of(self.errors@) + f.msgs == log_of(old(self).errors@) + g.msgs
                }),
            decreases rem(t, self.at_pos()),
        {
            let ok = self.parse_hash_entry(&mut pairs);
            if !ok {
                return None;
            }
        }
        if matches!(self.peek(), Token::Rbrace) {
            self.next_token();
            Some(Expression::HashLiteral(HashLiteral { token, pairs }))
        } else {
            None
        }
    }

    /// A comma-separated expression list closed by `token`, the arguments
    /// of a call or the elements of an array, parsed left to right.
    fn parse_expression_list(&mut self, token: Token) -> (r: Option<Vec<Expression>>)
        requires
            old(self).wf(),
            old(self).at_pos() < old(self).stream().len(),
        ensures
            final(self).wf(),
            final(self).stream() == old(self).stream(),
            old(self).at_pos() <= final(self).at_pos(),
            ({
                let o = sp_expression_list(old(self).stream(), old(self).at_pos(), token);
                &&& final(self).at_pos() == o.end
                &&& errors_extended(*old(self), *final(self), o.msgs)
                &&& (match r {
                    Some(v) => o.val == Some(view_exprs(v@)),
                    None => o.val is None,
                })
            }),
        decreases rem(old(self).stream(), old(self).at_pos()), 4int,
    {
        let ghost t = self.stream();
        let mut vec: Vec<Expression> = Vec::new();
        let pk = self.peek();
        if pk.same(&token) {
            self.next_token();
            proof {
                assert(view_exprs(vec@) =~= Seq::<SpecExpr>::empty());
            }
            return Some(vec);
        }
        self.next_token();
        match self.parse_expression(PrecedenceType::Lowest) {
            Some(e) => {
                proof {
                    lemma_view_exprs_push(vec@, e);
                    assert(view_exprs(Seq::<Expression>::empty()) =~= Seq::<SpecExpr>::empty());
                }
                vec.push(e);
            },
            None => {
                return None;
            },
        }
        while self.list_continues()
            invariant
                self.wf(),
                self.stream() == t,
                old(self).stream() == t,
                old(self).at_pos() < self.at_pos(),

                ({
                    let g = sp_expression_list(t, old(self).at_pos(), token);
                    let f = sp_expression_list_more(t, self.at_pos(), token, view_exprs(vec@));
                    &&& g.end == f.end
                    &&& g.val == f.val
                    &&& log_of(self.errors@) + f.msgs == log_of(old(self).errors@) + g.msgs
                }),
            decreases rem(t, self.at_pos()),
        {
            self.next_token();
            self.next_token();
            match self.parse_expression(PrecedenceType::Lowest) {
                Some(e) => {
                    proof {
                        lemma_view_exprs_push(vec@, e);
                    }
                    vec.push(e);
                },
                None => {
                    return None;
                },
            }
        }
        let pk2 = self.peek();
        if pk2.same(&token) {
            self.next_token();
            Some(vec)
        } else {
            None
        }
    }

    /// A call: the expression built so far becomes the callee; the
    /// arguments are a parenthesized expression list.
    fn parse_call_expression(&mut self, function: Expression) -> (r: Option<Expression>)
        requires
            old(self).wf(),
            old(self).at_pos() < old(self).stream().len(),
        ensures
            final(self).wf(),
            final(self).stream() == old(self).stream(),
            old(self).at_pos() <= final(self).at_pos(),
            ({
                let o = sp_call_expression(
                    old(self).stream(),
                    old(self).at_pos(),
                    view_expr(function),
                );
                &&& final(self).at_pos() == o.end
                &&& errors_extended(*old(self), *final(self), o.msgs)
                &&& view_opt_expr(r) == o.val
            }),
        decreases rem(old(self).stream(), old(self).at_pos()), 5int,
    {
        let token = self.cur();
        match self.parse_expression_list(Token::Rparen) {
            Some(args) => Some(
                Expression::CallExpression(
                    CallExpression { token, function: Box::new(function), args },
                ),
            ),
            None => None,
        }
    }

    /// A unary operation: the operand is parsed at the unary level.
    fn parse_prefix_expression(&mut self) -> (r: Option<Expression>)
        requires
            old(self).wf(),
            at(old(self).stream(), old(self).at_pos()) is Bang || at(
                old(self).stream(),
                old(self).at_pos(),
            ) is Minus,
        ensures
            final(self).wf(),
            final(self).stream() == old(self).stream(),
            old(self).at_pos() <= final(self).at_pos(),
            ({
                let o = sp_prefix_expression(old(self).stream(), old(self).at_pos());
                &&& final(self).at_pos() == o.end
                &&& errors_extended(*old(self), *final(self), o.msgs)
                &&& view_opt_expr(r) == o.val
            }),
        decreases rem(old(self).stream(), old(self).at_pos()), 4int,
    {
        let token = self.cur();
        self.next_token();
        match self.parse_expression(PrecedenceType::Prefix) {
            Some(right) => Some(
                Expression::PrefixExpression(PrefixExpression { token, right: Box::new(right) }),
            ),
            None => None,
        }
    }

    /// A binary operation: the right operand is parsed at the operator's
    /// own level, which keeps equal levels left-associative.
    fn parse_infix_expression(&mut self, left: Expression) -> (r: Option<Expression>)
        requires
            old(self).wf(),
            old(self).at_pos() < old(self).stream().len(),
        ensures
            final(self).wf(),
            final(self).stream() == old(self).stream(),
            old(self).at_pos() <= final(self).at_pos(),
            ({
                let o = sp_infix_expression(
                    old(self).stream(),
                    old(self).at_pos(),
                    view_expr(left),
                );
                &&& final(self).at_pos() == o.end
                &&& errors_extended(*old(self), *final(self), o.msgs)
                &&& view_opt_expr(r) == o.val
            }),
        decreases rem(old(self).stream(), old(self).at_pos()), 4int,
    {
        let token = self.cur();
        let precedence = Self::get_precedence(&token);
        self.next_token();
        match self.parse_expression(precedence) {
            Some(right) => Some(
                Expression::InfixExpression(
                    InfixExpression { token, left: Box::new(left), right: Box::new(right) },
                ),
            ),
            None => None,
        }
    }
}

/// Whether `t` builds a binary infix node.
fn is_infix(t: &Token) -> (r: bool)
    ensures
        r == is_infix_token(*t),
{
    matches!(
        t,
        Token::Plus | Token::Minus | Token::Slash | Token::Asterisk | Token::Equals
            | Token::NotEquals | Token::Lt | Token::Gt
    )
}

/// Whether the climb continues: the one-ahead token is no terminator,
/// binds strictly tighter than `prec`, and is an operator or call opening.
pub open spec fn climb_cond(toks: Seq<Token>, p: int, prec: PrecedenceType) -> bool {
    let pk = at(toks, p + 1);
    !(pk is Semicolon) && prec.lt_spec(spec_precedence(pk)) && (is_infix_token(pk) || pk is Lparen)
}

/// Replaces the value of the entry whose key has `k`'s text, in place, or
/// appends a new entry: one entry per key text, the last write winning.
fn hash_pairs_put(pairs: &mut Vec<(Expression, Expression)>, k: Expression, v: Expression)
    ensures
        view_pairs(final(pairs)@) == hash_put(
            view_pairs(old(pairs)@),
            view_expr(k),
            view_expr(v),
        ),
{
    let kt = k.to_string();
    let mut i: usize = 0;
    while i < pairs.len()
        invariant
            pairs@ == old(pairs)@,
            i <= pairs@.len(),
            kt@ == expr_text(view_expr(k)),
            forall|j: int|
                0 <= j < i ==> expr_text(#[trigger] view_pairs(pairs@)[j].0) != expr_text(
                    view_expr(k),
                ),
        decreases pairs@.len() - i,
    {
        let pt = pairs[i].0.to_string();
        proof {
            lemma_view_pairs_index(pairs@);
        }
        if pt == kt {
            proof {
                lemma_hash_put_found(view_pairs(pairs@), view_expr(k), view_expr(v), i as int);
            }
            let entry = pairs.remove(i);
            pairs.insert(i, (entry.0, v));
            proof {
                let ops = old(pairs)@;
                assert(pairs@ =~= ops.update(i as int, (ops[i as int].0, v)));
                lemma_view_pairs_index(ops);
                lemma_view_pairs_index(pairs@);
                assert(view_pairs(pairs@) =~= view_pairs(ops).update(
                    i as int,
                    (view_expr(ops[i as int].0), view_expr(v)),
                ));
            }
            return;
        }
        i = i + 1;
    }
    proof {
        lemma_view_pairs_index(pairs@);
        lemma_hash_put_absent(view_pairs(pairs@), view_expr(k), view_expr(v));
        lemma_view_pairs_push(pairs@, k, v);
    }
    pairs.push((k, v));
}

} // verus!
