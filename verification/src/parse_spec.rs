use vstd::prelude::*;

use crate::ast::{SpecBlock, SpecExpr, SpecStmt};
use crate::display::expr_text;
use crate::number::str_to_i64;
use crate::precedence::{is_infix_token, spec_precedence, PrecedenceType};
use crate::token::{token_eq, token_text, Token};

verus! {

// ------------------------------------------------------------------------
// The mathematical parse. Each function here mirrors one step of the
// grammar on a token sequence and a position, and returns the parsed
// model value, the position after the step, and the diagnostics the step
// records, text and order included. The executable parser is proved to
// produce exactly these outcomes.
// ------------------------------------------------------------------------

/// The token at position `p`, the end-of-input sentinel outside the stream.
pub open spec fn at(toks: Seq<Token>, p: int) -> Token {
    if 0 <= p < toks.len() {
        toks[p]
    } else {
        Token::Eof
    }
}

/// The position after one advance. Past the stream's end the position
/// stays put: every token there is the sentinel already.
pub open spec fn adv(toks: Seq<Token>, p: int) -> int {
    if p < toks.len() {
        p + 1
    } else {
        p
    }
}

/// `p`, but at least `lo`. The parse never moves backwards; this keeps
/// that fact syntactic where a sub-parse's end position feeds a later step.
pub open spec fn lift(p: int, lo: int) -> int {
    if p < lo {
        lo
    } else {
        p
    }
}

/// How many tokens lie at or after position `p`.
pub open spec fn rem(toks: Seq<Token>, p: int) -> nat {
    if p <= toks.len() {
        (toks.len() - p) as nat
    } else {
        0
    }
}

/// The diagnostic recorded for an expectation mismatch where an
/// identifier was required: it names the expected kind and the actual
/// token.
pub open spec fn msg_expected_ident(t: Token) -> Seq<char> {
    "expected next token to be an identifier, got "@ + token_text(t) + " instead"@
}

/// The diagnostic recorded for an expectation mismatch where the
/// assignment operator was required.
pub open spec fn msg_expected_assign(t: Token) -> Seq<char> {
    "expected next token to be =, got "@ + token_text(t) + " instead"@
}

/// The diagnostic recorded when no leading-position rule exists for the
/// current token.
pub open spec fn msg_no_prefix(t: Token) -> Seq<char> {
    "no prefix parse function for "@ + token_text(t) + " found"@
}

/// The diagnostic recorded when a numeric literal's text has no 64-bit
/// signed value.
pub open spec fn msg_bad_int(s: Seq<char>) -> Seq<char> {
    "could not parse "@ + s + " as integer"@
}

/// The outcome of one parse step: the parsed value where the step
/// succeeded, the position after it, and the diagnostics it records, in
/// order.
#[verifier::reject_recursive_types(A)]
pub ghost struct POut<A> {
    pub val: Option<A>,
    pub end: int,
    pub msgs: Seq<Seq<char>>,
}

/// The outcome of collecting statements: blocks and programs always
/// produce a (possibly empty) list.
pub ghost struct LOut {
    pub items: Seq<SpecStmt>,
    pub end: int,
    pub msgs: Seq<Seq<char>>,
}

/// The outcome of one block parse: a block always comes back.
pub ghost struct BOut {
    pub blk: SpecBlock,
    pub end: int,
    pub msgs: Seq<Seq<char>>,
}

// ------------------------------------------------------------------------
// Hash-literal entry collection: one entry per key text, last write wins,
// entry order preserved. The replaced entry keeps its position and its
// original key expression; only the value changes.
// ------------------------------------------------------------------------

pub open spec fn hash_put(ps: Seq<(SpecExpr, SpecExpr)>, k: SpecExpr, v: SpecExpr) -> Seq<
    (SpecExpr, SpecExpr),
>
    decreases ps.len(),
{
    if ps.len() == 0 {
        seq![(k, v)]
    } else if expr_text(ps[0].0) == expr_text(k) {
        seq![(ps[0].0, v)] + ps.drop_first()
    } else {
        seq![ps[0]] + hash_put(ps.drop_first(), k, v)
    }
}

/// Where the first entry with `k`'s text stands at `i`, the insert replaces
/// that entry's value in place: the entry keeps its position and its key.
pub proof fn lemma_hash_put_found(ps: Seq<(SpecExpr, SpecExpr)>, k: SpecExpr, v: SpecExpr, i: int)
    requires
        0 <= i < ps.len(),
        expr_text(ps[i].0) == expr_text(k),
        forall|j: int| 0 <= j < i ==> expr_text(#[trigger] ps[j].0) != expr_text(k),
    ensures
        hash_put(ps, k, v) == ps.update(i, (ps[i].0, v)),
    decreases i,
{
    if i == 0 {
        assert(hash_put(ps, k, v) =~= ps.update(0, (ps[0].0, v)));
    } else {
        assert(expr_text(ps[0].0) != expr_text(k));
        assert forall|j: int| 0 <= j < i - 1 implies expr_text(
            #[trigger] ps.drop_first()[j].0,
        ) != expr_text(k) by {
            assert(ps.drop_first()[j] == ps[j + 1]);
        }
        assert(ps.drop_first()[i - 1] == ps[i]);
        lemma_hash_put_found(ps.drop_first(), k, v, i - 1);
        assert(hash_put(ps, k, v) =~= ps.update(i, (ps[i].0, v)));
    }
}

/// Where no entry has `k`'s text, the insert appends the new entry.
pub proof fn lemma_hash_put_absent(ps: Seq<(SpecExpr, SpecExpr)>, k: SpecExpr, v: SpecExpr)
    requires
        forall|j: int| 0 <= j < ps.len() ==> expr_text(#[trigger] ps[j].0) != expr_text(k),
    ensures
        hash_put(ps, k, v) == ps.push((k, v)),
    decreases ps.len(),
{
    if ps.len() == 0 {
        assert(hash_put(ps, k, v) =~= ps.push((k, v)));
    } else {
        assert(expr_text(ps[0].0) != expr_text(k));
        assert forall|j: int| 0 <= j < ps.drop_first().len() implies expr_text(
            #[trigger] ps.drop_first()[j].0,
        ) != expr_text(k) by {
            assert(ps.drop_first()[j] == ps[j + 1]);
        }
        lemma_hash_put_absent(ps.drop_first(), k, v);
        assert(hash_put(ps, k, v) =~= ps.push((k, v)));
    }
}

// ------------------------------------------------------------------------
// Statements.
// ------------------------------------------------------------------------

/// One whole parse: statements collected until the end of input, a failed
/// statement simply left out, and the cursor advanced once after every
/// attempt.
pub open spec fn sp_program_items(toks: Seq<Token>, p: int) -> LOut
    decreases rem(toks, p), 11int,
{
    if at(toks, p) is Eof {
        LOut { items: Seq::empty(), end: p, msgs: Seq::empty() }
    } else {
        let o = sp_statement(toks, p);
        let p2 = adv(toks, lift(o.end, p));
        let rest = sp_program_items(toks, p2);
        LOut {
            items: (match o.val {
                Some(s) => seq![s] + rest.items,
                None => rest.items,
            }),
            end: rest.end,
            msgs: o.msgs + rest.msgs,
        }
    }
}

/// Statement dispatch on the current token's kind.
pub open spec fn sp_statement(toks: Seq<Token>, p: int) -> POut<SpecStmt>
    decreases rem(toks, p), 8int,
{
    if at(toks, p) is Let {
        sp_let_statement(toks, p)
    } else if at(toks, p) is Return {
        sp_return_statement(toks, p)
    } else {
        sp_expression_statement(toks, p)
    }
}

/// `let` needs an identifier and then an assignment operator; a mismatch
/// records one diagnostic and drops the statement. The value is parsed at
/// the lowest level; a trailing semicolon is consumed when present.
pub open spec fn sp_let_statement(toks: Seq<Token>, p: int) -> POut<SpecStmt>
    decreases rem(toks, p), 7int,
{
    if !(at(toks, p + 1) is Ident) {
        POut { val: None, end: p, msgs: seq![msg_expected_ident(at(toks, p + 1))] }
    } else {
        let p1 = adv(toks, p);
        if !(at(toks, p1 + 1) is Assign) {
            POut { val: None, end: p1, msgs: seq![msg_expected_assign(at(toks, p1 + 1))] }
        } else {
            let p2 = adv(toks, p1);
            let p3 = adv(toks, p2);
            let o = sp_expression(toks, p3, PrecedenceType::Lowest);
            let oe = lift(o.end, p3);
            let e2 = if at(toks, oe + 1) is Semicolon {
                adv(toks, oe)
            } else {
                oe
            };
            POut {
                val: Some(
                    SpecStmt::LetStmt { token: at(toks, p), name: at(toks, p1), value: o.val },
                ),
                end: e2,
                msgs: o.msgs,
            }
        }
    }
}

/// `return` always yields a statement; its value slot is empty when the
/// expression parse failed.
pub open spec fn sp_return_statement(toks: Seq<Token>, p: int) -> POut<SpecStmt>
    decreases rem(toks, p), 7int,
{
    let p1 = adv(toks, p);
    let o = sp_expression(toks, p1, PrecedenceType::Lowest);
    let oe = lift(o.end, p1);
    let e2 = if at(toks, oe + 1) is Semicolon {
        adv(toks, oe)
    } else {
        oe
    };
    POut {
        val: Some(SpecStmt::ReturnStmt { token: at(toks, p), value: o.val }),
        end: e2,
        msgs: o.msgs,
    }
}

/// An expression statement always yields a statement shell, even when the
/// inner expression parse failed.
pub open spec fn sp_expression_statement(toks: Seq<Token>, p: int) -> POut<SpecStmt>
    decreases rem(toks, p), 7int,
{
    let o = sp_expression(toks, p, PrecedenceType::Lowest);
    let oe = lift(o.end, p);
    let e2 = if at(toks, oe + 1) is Semicolon {
        adv(toks, oe)
    } else {
        oe
    };
    POut {
        val: Some(SpecStmt::ExprStmt { token: at(toks, p), expression: o.val }),
        end: e2,
        msgs: o.msgs,
    }
}

/// A block: statements collected until the closing brace or the end of
/// input, failures left out, the cursor advanced once per attempt.
pub open spec fn sp_block_statement(toks: Seq<Token>, p: int) -> BOut
    decreases rem(toks, p), 12int,
{
    let tok = at(toks, p);
    let p1 = adv(toks, p);
    let items = sp_block_items(toks, p1);
    BOut {
        blk: SpecBlock { token: tok, statements: items.items },
        end: items.end,
        msgs: items.msgs,
    }
}

pub open spec fn sp_block_items(toks: Seq<Token>, p: int) -> LOut
    decreases rem(toks, p), 11int,
{
    if at(toks, p) is Rbrace || at(toks, p) is Eof {
        LOut { items: Seq::empty(), end: p, msgs: Seq::empty() }
    } else {
        let o = sp_statement(toks, p);
        let p2 = adv(toks, lift(o.end, p));
        let rest = sp_block_items(toks, p2);
        LOut {
            items: (match o.val {
                Some(s) => seq![s] + rest.items,
                None => rest.items,
            }),
            end: rest.end,
            msgs: o.msgs + rest.msgs,
        }
    }
}

// ------------------------------------------------------------------------
// Expressions: precedence climbing.
// ------------------------------------------------------------------------

/// One expression at the given minimal binding power: a leading-position
/// step and then the climb over continuing operators.
pub open spec fn sp_expression(toks: Seq<Token>, p: int, prec: PrecedenceType) -> POut<SpecExpr>
    decreases rem(toks, p), 6int,
{
    let h = sp_prefix(toks, p);
    match h.val {
        None => POut { val: None, end: h.end, msgs: h.msgs },
        Some(left) => {
            let l = sp_infix_chain(toks, lift(h.end, p), prec, left);
            POut { val: l.val, end: l.end, msgs: h.msgs + l.msgs }
        },
    }
}

/// The climb: while the continuing token is no statement terminator and
/// binds strictly tighter than `prec`, fold it into the expression built so
/// far. The strict comparison makes equal levels left-associative.
pub open spec fn sp_infix_chain(
    toks: Seq<Token>,
    p: int,
    prec: PrecedenceType,
    left: SpecExpr,
) -> POut<SpecExpr>
    decreases rem(toks, p), 5int,
{
    let pk = at(toks, p + 1);
    if pk is Semicolon || !prec.lt_spec(spec_precedence(pk)) {
        POut { val: Some(left), end: p, msgs: Seq::empty() }
    } else if is_infix_token(pk) {
        let p1 = adv(toks, p);
        let o = sp_infix_expression(toks, p1, left);
        match o.val {
            None => POut { val: None, end: o.end, msgs: o.msgs },
            Some(l2) => {
                let r = sp_infix_chain(toks, lift(o.end, p1), prec, l2);
                POut { val: r.val, end: r.end, msgs: o.msgs + r.msgs }
            },
        }
    } else if pk is Lparen {
        let p1 = adv(toks, p);
        let o = sp_call_expression(toks, p1, left);
        match o.val {
            None => POut { val: None, end: o.end, msgs: o.msgs },
            Some(l2) => {
                let r = sp_infix_chain(toks, lift(o.end, p1), prec, l2);
                POut { val: r.val, end: r.end, msgs: o.msgs + r.msgs }
            },
        }
    } else {
        POut { val: Some(left), end: p, msgs: Seq::empty() }
    }
}

/// Leading-position dispatch on the current token. A token with no
/// leading-position rule records one diagnostic and fails the expression.
pub open spec fn sp_prefix(toks: Seq<Token>, p: int) -> POut<SpecExpr>
    decreases rem(toks, p), 5int,
{
    match at(toks, p) {
        Token::Ident(s) => POut {
            val: Some(SpecExpr::Ident { token: at(toks, p) }),
            end: p,
            msgs: Seq::empty(),
        },
        Token::Int(s) => (match str_to_i64(s@) {
            Some(v) => POut {
                val: Some(SpecExpr::IntLit { token: at(toks, p), value: v }),
                end: p,
                msgs: Seq::empty(),
            },
            None => POut { val: None, end: p, msgs: seq![msg_bad_int(s@)] },
        }),
        Token::True => POut {
            val: Some(SpecExpr::BoolLit { token: at(toks, p), value: true }),
            end: p,
            msgs: Seq::empty(),
        },
        Token::False => POut {
            val: Some(SpecExpr::BoolLit { token: at(toks, p), value: false }),
            end: p,
            msgs: Seq::empty(),
        },
        Token::Str(s) => POut {
            val: Some(SpecExpr::StrLit { token: at(toks, p), value: s@ }),
            end: p,
            msgs: Seq::empty(),
        },
        Token::Lparen => sp_grouped_expression(toks, p),
        Token::If => sp_if_expression(toks, p),
        Token::Function => sp_fn_expression(toks, p),
        Token::Lbracket => sp_array_literal(toks, p),
        Token::Lbrace => sp_hash_literal(toks, p),
        Token::Bang => sp_prefix_expression(toks, p),
        Token::Minus => sp_prefix_expression(toks, p),
        _ => POut { val: None, end: p, msgs: seq![msg_no_prefix(at(toks, p))] },
    }
}

/// A parenthesized group: the inner expression restarts at the lowest
/// level; a missing closing parenthesis fails the group silently.
pub open spec fn sp_grouped_expression(toks: Seq<Token>, p: int) -> POut<SpecExpr>
    decreases rem(toks, p), 4int,
{
    if !(at(toks, p) is Lparen) {
        POut { val: None, end: p, msgs: Seq::empty() }
    } else {
        let p1 = adv(toks, p);
        let o = sp_expression(toks, p1, PrecedenceType::Lowest);
        let oe = lift(o.end, p1);
        if at(toks, oe + 1) is Rparen {
            POut { val: o.val, end: adv(toks, oe), msgs: o.msgs }
        } else {
            POut { val: None, end: oe, msgs: o.msgs }
        }
    }
}

/// A unary operation: the operand is parsed at the unary level.
pub open spec fn sp_prefix_expression(toks: Seq<Token>, p: int) -> POut<SpecExpr>
    decreases rem(toks, p), 4int,
{
    if !(at(toks, p) is Bang || at(toks, p) is Minus) {
        POut { val: None, end: p, msgs: Seq::empty() }
    } else {
        let p1 = adv(toks, p);
        let o = sp_expression(toks, p1, PrecedenceType::Prefix);
        POut {
            val: (match o.val {
                Some(r) => Some(SpecExpr::PrefixOp { token: at(toks, p), right: Box::new(r) }),
                None => None,
            }),
            end: o.end,
            msgs: o.msgs,
        }
    }
}

/// A binary operation: the right operand is parsed at the operator's own
/// level, so a following operator of the same level cannot re-capture it.
pub open spec fn sp_infix_expression(toks: Seq<Token>, p: int, left: SpecExpr) -> POut<SpecExpr>
    decreases rem(toks, p), 4int,
{
    if p >= toks.len() {
        POut { val: None, end: p, msgs: seq![msg_no_prefix(Token::Eof)] }
    } else {
        let tok = at(toks, p);
        let p1 = adv(toks, p);
        let o = sp_expression(toks, p1, spec_precedence(tok));
        POut {
            val: (match o.val {
                Some(r) => Some(
                    SpecExpr::InfixOp { token: tok, left: Box::new(left), right: Box::new(r) },
                ),
                None => None,
            }),
            end: o.end,
            msgs: o.msgs,
        }
    }
}

/// A conditional: any structural mismatch abandons the whole construct
/// without a diagnostic of its own.
pub open spec fn sp_if_expression(toks: Seq<Token>, p: int) -> POut<SpecExpr>
    decreases rem(toks, p), 4int,
{
    if !(at(toks, p) is If) {
        POut { val: None, end: p, msgs: Seq::empty() }
    } else if !(at(toks, p + 1) is Lparen) {
        POut { val: None, end: p, msgs: Seq::empty() }
    } else {
        let p1 = adv(toks, p);
        let p2 = adv(toks, p1);
        let o = sp_expression(toks, p2, PrecedenceType::Lowest);
        match o.val {
            None => POut { val: None, end: o.end, msgs: o.msgs },
            Some(cond) => {
                let oe = lift(o.end, p2);
                if !(at(toks, oe + 1) is Rparen) {
                    POut { val: None, end: oe, msgs: o.msgs }
                } else {
                    let p3 = adv(toks, oe);
                    if !(at(toks, p3 + 1) is Lbrace) {
                        POut { val: None, end: p3, msgs: o.msgs }
                    } else {
                        let p4 = adv(toks, p3);
                        let b = sp_block_statement(toks, p4);
                        let be = lift(b.end, p4);
                        if at(toks, be + 1) is Else {
                            let p5 = adv(toks, be);
                            if !(at(toks, p5 + 1) is Lbrace) {
                                POut { val: None, end: p5, msgs: o.msgs + b.msgs }
                            } else {
                                let p6 = adv(toks, p5);
                                let b2 = sp_block_statement(toks, p6);
                                POut {
                                    val: Some(
                                        SpecExpr::IfExpr {
                                            token: at(toks, p),
                                            condition: Box::new(cond),
                                            consequence: b.blk,
                                            alternative: Some(b2.blk),
                                        },
                                    ),
                                    end: b2.end,
                                    msgs: o.msgs + b.msgs + b2.msgs,
                                }
                            }
                        } else {
                            POut {
                                val: Some(
                                    SpecExpr::IfExpr {
                                        token: at(toks, p),
                                        condition: Box::new(cond),
                                        consequence: b.blk,
                                        alternative: None,
                                    },
                                ),
                                end: be,
                                msgs: o.msgs + b.msgs,
                            }
                        }
                    }
                }
            },
        }
    }
}

/// A function literal: a parenthesized parameter list and a block body;
/// any structural mismatch abandons the construct silently.
pub open spec fn sp_fn_expression(toks: Seq<Token>, p: int) -> POut<SpecExpr>
    decreases rem(toks, p), 4int,
{
    if !(at(toks, p) is Function) {
        POut { val: None, end: p, msgs: Seq::empty() }
    } else if !(at(toks, p + 1) is Lparen) {
        POut { val: None, end: p, msgs: Seq::empty() }
    } else {
        let p1 = adv(toks, p);
        let ps = sp_fn_parameters(toks, p1);
        match ps.val {
            None => POut { val: None, end: ps.end, msgs: ps.msgs },
            Some(params) => {
                let pe = lift(ps.end, p1);
                if !(at(toks, pe + 1) is Lbrace) {
                    POut { val: None, end: pe, msgs: ps.msgs }
                } else {
                    let p2 = adv(toks, pe);
                    let b = sp_block_statement(toks, p2);
                    POut {
                        val: Some(
                            SpecExpr::FuncLit {
                                token: at(toks, p),
                                parameters: params,
                                body: b.blk,
                            },
                        ),
                        end: b.end,
                        msgs: ps.msgs + b.msgs,
                    }
                }
            },
        }
    }
}

/// The comma-separated parameter list of a function literal. Parameters
/// are bare identifiers: any other token in a name position records an
/// expectation mismatch and fails the list. A list not closed by a
/// parenthesis fails silently.
pub open spec fn sp_fn_parameters(toks: Seq<Token>, p: int) -> POut<Seq<Token>>
    decreases rem(toks, p), 3int,
{
    if at(toks, p + 1) is Rparen {
        POut { val: Some(Seq::<Token>::empty()), end: adv(toks, p), msgs: Seq::empty() }
    } else {
        let p1 = adv(toks, p);
        if !(at(toks, p1) is Ident) {
            POut { val: None, end: p1, msgs: seq![msg_expected_ident(at(toks, p1))] }
        } else {
            sp_fn_params_more(toks, p1, seq![at(toks, p1)])
        }
    }
}

pub open spec fn sp_fn_params_more(toks: Seq<Token>, p: int, acc: Seq<Token>) -> POut<Seq<Token>>
    decreases rem(toks, p), 2int,
{
    if at(toks, p + 1) is Comma {
        let p2 = adv(toks, adv(toks, p));
        if !(at(toks, p2) is Ident) {
            POut { val: None, end: p2, msgs: seq![msg_expected_ident(at(toks, p2))] }
        } else {
            sp_fn_params_more(toks, p2, acc.push(at(toks, p2)))
        }
    } else if at(toks, p + 1) is Rparen {
        POut { val: Some(acc), end: adv(toks, p), msgs: Seq::empty() }
    } else {
        POut { val: None, end: p, msgs: Seq::empty() }
    }
}

/// An array literal: a bracketed expression list.
pub open spec fn sp_array_literal(toks: Seq<Token>, p: int) -> POut<SpecExpr>
    decreases rem(toks, p), 4int,
{
    if !(at(toks, p) is Lbracket) {
        POut { val: None, end: p, msgs: Seq::empty() }
    } else {
        let o = sp_expression_list(toks, p, Token::Rbracket);
        POut {
            val: (match o.val {
                Some(es) => Some(SpecExpr::ArrayLit { token: at(toks, p), elements: es }),
                None => None,
            }),
            end: o.end,
            msgs: o.msgs,
        }
    }
}

/// A call: the expression built so far becomes the callee; the arguments
/// are a parenthesized expression list.
pub open spec fn sp_call_expression(toks: Seq<Token>, p: int, f: SpecExpr) -> POut<SpecExpr>
    decreases rem(toks, p), 4int,
{
    let o = sp_expression_list(toks, p, Token::Rparen);
    POut {
        val: (match o.val {
            Some(args) => Some(
                SpecExpr::CallExpr { token: at(toks, p), function: Box::new(f), args },
            ),
            None => None,
        }),
        end: o.end,
        msgs: o.msgs,
    }
}

/// A comma-separated expression list closed by `end`. Elements parse left
/// to right at the lowest level; a list not closed by `end` fails silently.
pub open spec fn sp_expression_list(toks: Seq<Token>, p: int, end: Token) -> POut<Seq<SpecExpr>>
    decreases rem(toks, p), 3int,
{
    if token_eq(at(toks, p + 1), end) {
        POut { val: Some(Seq::<SpecExpr>::empty()), end: adv(toks, p), msgs: Seq::empty() }
    } else if p >= toks.len() {
        POut { val: None, end: p, msgs: seq![msg_no_prefix(Token::Eof)] }
    } else {
        let p1 = p + 1;
        let o = sp_expression(toks, p1, PrecedenceType::Lowest);
        match o.val {
            None => POut { val: None, end: o.end, msgs: o.msgs },
            Some(e) => {
                let r = sp_expression_list_more(toks, lift(o.end, p1), end, seq![e]);
                POut { val: r.val, end: r.end, msgs: o.msgs + r.msgs }
            },
        }
    }
}

pub open spec fn sp_expression_list_more(
    toks: Seq<Token>,
    p: int,
    end: Token,
    acc: Seq<SpecExpr>,
) -> POut<Seq<SpecExpr>>
    decreases rem(toks, p), 2int,
{
    if at(toks, p + 1) is Comma {
        let p2 = adv(toks, adv(toks, p));
        let o = sp_expression(toks, p2, PrecedenceType::Lowest);
        match o.val {
            None => POut { val: None, end: o.end, msgs: o.msgs },
            Some(e) => {
                let r = sp_expression_list_more(toks, lift(o.end, p2), end, acc.push(e));
                POut { val: r.val, end: r.end, msgs: o.msgs + r.msgs }
            },
        }
    } else if token_eq(at(toks, p + 1), end) {
        POut { val: Some(acc), end: adv(toks, p), msgs: Seq::empty() }
    } else {
        POut { val: None, end: p, msgs: Seq::empty() }
    }
}

/// A hash literal: `key: value` entries up to the closing brace, collected
/// with one entry per key text, the last write winning.
pub open spec fn sp_hash_literal(toks: Seq<Token>, p: int) -> POut<SpecExpr>
    decreases rem(toks, p), 4int,
{
    if !(at(toks, p) is Lbrace) {
        POut { val: None, end: p, msgs: Seq::empty() }
    } else {
        let o = sp_hash_items(toks, p, Seq::empty());
        POut {
            val: (match o.val {
                Some(pairs) => Some(SpecExpr::HashLit { token: at(toks, p), pairs }),
                None => None,
            }),
            end: o.end,
            msgs: o.msgs,
        }
    }
}

pub open spec fn sp_hash_items(
    toks: Seq<Token>,
    p: int,
    acc: Seq<(SpecExpr, SpecExpr)>,
) -> POut<Seq<(SpecExpr, SpecExpr)>>
    decreases rem(toks, p), 3int,
{
    if at(toks, p + 1) is Rbrace {
        POut { val: Some(acc), end: adv(toks, p), msgs: Seq::empty() }
    } else if p >= toks.len() {
        POut { val: None, end: p, msgs: seq![msg_no_prefix(Token::Eof)] }
    } else {
        let p1 = p + 1;
        let k = sp_expression(toks, p1, PrecedenceType::Lowest);
        match k.val {
            None => POut { val: None, end: k.end, msgs: k.msgs },
            Some(key) => {
                let ke = lift(k.end, p1);
                if !(at(toks, ke + 1) is Colon) {
                    POut { val: None, end: ke, msgs: k.msgs }
                } else {
                    let p2 = adv(toks, ke);
                    let p3 = adv(toks, p2);
                    let v = sp_expression(toks, p3, PrecedenceType::Lowest);
                    match v.val {
                        None => POut { val: None, end: v.end, msgs: k.msgs + v.msgs },
                        Some(value) => {
                            let ve = lift(v.end, p3);
                            let acc2 = hash_put(acc, key, value);
                            if at(toks, ve + 1) is Rbrace {
                                let r = sp_hash_items(toks, ve, acc2);
                                POut { val: r.val, end: r.end, msgs: k.msgs + v.msgs + r.msgs }
                            } else if at(toks, ve + 1) is Comma {
                                let r = sp_hash_items(toks, adv(toks, ve), acc2);
                                POut { val: r.val, end: r.end, msgs: k.msgs + v.msgs + r.msgs }
                            } else {
                                POut { val: None, end: ve, msgs: k.msgs + v.msgs }
                            }
                        },
                    }
                }
            },
        }
    }
}

// ------------------------------------------------------------------------
// Laws.
// ------------------------------------------------------------------------

/// Looking a key text up among hash entries: the first entry whose key has
/// that text.
pub open spec fn hash_lookup(ps: Seq<(SpecExpr, SpecExpr)>, kt: Seq<char>) -> Option<SpecExpr>
    decreases ps.len(),
{
    if ps.len() == 0 {
        None
    } else if expr_text(ps[0].0) == kt {
        Some(ps[0].1)
    } else {
        hash_lookup(ps.drop_first(), kt)
    }
}

/// The last write wins: after an insert, the inserted key's text maps to
/// the inserted value, whatever stood there before.
pub proof fn lemma_hash_put_last_write_wins(ps: Seq<(SpecExpr, SpecExpr)>, k: SpecExpr, v: SpecExpr)
    ensures
        hash_lookup(hash_put(ps, k, v), expr_text(k)) == Some(v),
    decreases ps.len(),
{
    if ps.len() == 0 {
        assert(hash_put(ps, k, v)[0] == (k, v));
    } else if expr_text(ps[0].0) == expr_text(k) {
        assert(hash_put(ps, k, v)[0] == (ps[0].0, v));
    } else {
        lemma_hash_put_last_write_wins(ps.drop_first(), k, v);
        assert(hash_put(ps, k, v)[0] == ps[0]);
        assert(hash_put(ps, k, v).drop_first() =~= hash_put(ps.drop_first(), k, v));
    }
}

/// A dropped statement always leaves a diagnostic behind: only a `let`
/// whose expectation check fails is dropped, and both checks report.
pub proof fn lemma_failed_statement_reports(toks: Seq<Token>, p: int)
    ensures
        sp_statement(toks, p).val is None ==> sp_statement(toks, p).msgs.len() >= 1,
{
}

/// How many top-level statement attempts one parse makes: one per loop
/// iteration, each attempt followed by one advance.
pub open spec fn sp_stmt_count(toks: Seq<Token>, p: int) -> nat
    decreases rem(toks, p), 11int,
{
    if at(toks, p) is Eof {
        0
    } else {
        1 + sp_stmt_count(toks, adv(toks, lift(sp_statement(toks, p).end, p)))
    }
}

/// With zero diagnostics nothing was dropped: the program holds exactly
/// one statement per top-level statement of the stream.
pub proof fn lemma_clean_parse_keeps_every_statement(toks: Seq<Token>, p: int)
    requires
        sp_program_items(toks, p).msgs.len() == 0,
    ensures
        sp_program_items(toks, p).items.len() == sp_stmt_count(toks, p),
    decreases rem(toks, p),
{
    if !(at(toks, p) is Eof) {
        let o = sp_statement(toks, p);
        lemma_failed_statement_reports(toks, p);
        lemma_clean_parse_keeps_every_statement(toks, adv(toks, lift(o.end, p)));
    }
}

} // verus!
