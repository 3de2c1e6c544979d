//! The recursive-descent parser. It consumes the filtered token sequence,
//! builds the syntax tree, and opens a child scope for every block as it
//! is entered. Expressions are parsed by precedence climbing over the
//! ordered binary-operator table, associating same-tier runs to the left.
//! Every token mismatch raises an immediate fatal diagnostic; there is no
//! recovery.
//!
//! Each parse function is specified against a mathematical interpreter
//! (`p_expr`, `p_stmt`, `p_block`, ..., `p_program`) that pins, for every
//! token sequence, exactly the tree built (shape, payload text, spans and
//! operator placement — left-associated same-tier chains, tighter tiers
//! bound deeper), the scope arena and binding-id counter after it, the
//! cursor position reached, and — on failure — the first diagnostic's
//! code and position. Beyond that, every parse function guarantees span
//! well-formedness of what it builds, progress through the token
//! sequence, and validity of every scope id it records; a successful
//! whole-program parse additionally keeps every node's span within the
//! last token's end, which for scanned tokens is the source's length
//! (`lemma_scanned_tokens_wf`, `lemma_p_program_within`).

use vstd::prelude::*;
use vstd::string::*;

use crate::ast::{
    block_n_within, block_scopes_ok, block_spans_ok, block_node_spans_ok, block_t_within,
    expr_n_within, expr_node_spans_ok, ident_n_within, ident_node_spans_ok,
    lemma_stmt_scopes_ok_mono, lemma_stmts_v_push, param_n_within, param_node_spans_ok,
    params_within, stmt_n_within, stmt_node_scopes_ok, stmt_node_spans_ok, stmts_v, stmts_within,
    Assign, BinaryOp, Block, BlockN, BlockT, BoolLit, Decl, DoWhileLoop, Expr, ExprN, ExprT, Func,
    Ident, IdentN, IfStmt, Meta, Node, NumLit, Param, ParamN, Return, Stmt, StmtN, StmtT, UnaryOp,
    WhileLoop, block_node_v, block_t_v, expr_v, ident_v, param_v, params_v, stmt_v,
};
use crate::scope::{bump, ScopeV, Variable};
use crate::error::{Error, ErrorCode};
use crate::location::Location;
use crate::program::Program;
use crate::scope::tree_wf;
use crate::tokens::{
    binary_operator_tiers, keywords, kind_v, spec_binary_operator_tiers, spec_keywords,
    spec_unary_operators, tok_v, unary_operators, KindV, Token, Type,
};

verus! {

/// What the parser asks of its token sequence: it is nonempty, it closes
/// with an end-of-stream token, and the spans run forward, within each
/// token and from each token to the next. The scanner produces exactly
/// such sequences.
pub open spec fn tokens_wf(ts: Seq<Token>) -> bool {
    &&& ts.len() > 0
    &&& ts.last().typ.same_kind(&Type::EOF)
    &&& forall|i: int| 0 <= i < ts.len() ==> (#[trigger] ts[i]).start.idx <= ts[i].end.idx
    &&& forall|i: int, j: int|
        0 <= i < j < ts.len() ==> (#[trigger] ts[i]).end.idx <= (#[trigger] ts[j]).start.idx
}

/// One step of the span ordering: token `k` ends before token `k + 1`
/// starts.
spec fn step_ok(ts: Seq<Token>, k: int) -> bool {
    ts[k].end.idx <= ts[k + 1].start.idx
}

/// The two span orderings above, in the single-step form the runtime check
/// establishes.
spec fn tokens_stepwise(ts: Seq<Token>) -> bool {
    &&& forall|i: int| 0 <= i < ts.len() ==> (#[trigger] ts[i]).start.idx <= ts[i].end.idx
    &&& forall|i: int| 0 <= i < ts.len() - 1 ==> #[trigger] step_ok(ts, i)
}

/// A runtime check of `tokens_wf`, for callers that assemble a parser
/// from tokens that did not come out of this crate's scanner.
#[verifier::rlimit(50)]
pub fn tokens_wf_check(ts: &Vec<Token>) -> (r: bool)
    ensures
        r == tokens_wf(ts@),
{
    if ts.len() == 0 {
        return false;
    }
    if !ts[ts.len() - 1].typ.eq(&Type::EOF) {
        return false;
    }
    let mut i: usize = 0;
    while i < ts.len()
        invariant
            ts@.len() > 0,
            i <= ts@.len(),
            ts@.last().typ.same_kind(&Type::EOF),
            forall|k: int| 0 <= k < i ==> (#[trigger] ts@[k]).start.idx <= ts@[k].end.idx,
            forall|k: int| 0 <= k < i - 1 ==> #[trigger] step_ok(ts@, k),
        decreases ts@.len() - i,
    {
        if ts[i].start.idx > ts[i].end.idx {
            return false;
        }
        if i > 0 && ts[i - 1].end.idx > ts[i].start.idx {
            proof {
                assert(!step_ok(ts@, i - 1));
                if tokens_wf(ts@) {
                    assert(ts@[i - 1].end.idx <= ts@[i as int].start.idx);
                }
            }
            return false;
        }
        proof {
            if i > 0 {
                assert(step_ok(ts@, i - 1));
            }
        }
        i = i + 1;
    }
    proof {
        assert(tokens_stepwise(ts@));
        assert forall|a: int, b: int|
            0 <= a < b < ts@.len() implies (#[trigger] ts@[a]).end.idx <= (#[trigger] ts@[
            b]).start.idx by {
            lemma_chain(ts@, a, b);
        }
    }
    true
}

proof fn lemma_chain(ts: Seq<Token>, a: int, b: int)
    requires
        0 <= a < b < ts.len(),
        tokens_stepwise(ts),
    ensures
        ts[a].end.idx <= ts[b].start.idx,
    decreases b - a,
{
    if a + 1 < b {
        lemma_chain(ts, a + 1, b);
    }
    assert(step_ok(ts, a));
}

/// What the scanner hands the parser is always well-formed: scanning any
/// source (and filtering out whitespace) yields a nonempty token sequence
/// whose spans run forward and whose last token is the end-of-stream
/// marker, so the parser's demand on its input holds of every real scan.
pub proof fn lemma_scanned_tokens_wf(src: Seq<char>, ts: Seq<Token>)
    requires
        src.len() <= u32::MAX,
        crate::tokens::toks_v(ts) == crate::lexer::spec_filter_ws(
            crate::lexer::spec_scan(
                src,
                Location { row: 0, col: 0, idx: 0 },
                Location { row: 0, col: 0, idx: 0 },
            ),
        ),
    ensures
        tokens_wf(ts),
        last_end(ts) == src.len(),
{
    let origin = Location { row: 0, col: 0, idx: 0 };
    crate::lexer::lemma_scan_spans(src, origin, origin);
    let vs = crate::lexer::spec_scan(src, origin, origin);
    crate::lexer::lemma_filter_ws_spans(vs);
    let f = crate::lexer::spec_filter_ws(vs);
    assert(vs.last().kind == KindV::Exact(Type::EOF));
    assert(!(vs.last().kind matches KindV::Exact(t) && t.same_kind(&Type::Whitespace)));
    assert(f.len() > 0 && f.last() == vs.last());
    assert(ts.len() == f.len());
    assert forall|i: int|
        0 <= i < ts.len() implies (#[trigger] ts[i]).start == f[i].start && ts[i].end
        == f[i].end by {
        assert(crate::tokens::toks_v(ts)[i] == tok_v(ts[i]));
    }
    assert(tok_v(ts.last()) == f.last());
    assert(kind_v(ts.last().typ) == KindV::Exact(Type::EOF));
    assert(ts.last().typ.same_kind(&Type::EOF));
}

/// The outcome of one parse at the expression level: the built shape and
/// the cursor after it, or the code and start position of the diagnostic
/// raised, or nothing — the outcome of an analysis that regressed, which
/// the real parser never does.
pub enum PR<T> {
    Done(T, int),
    Fail(ErrorCode, Location),
    Short,
}

/// The outcome of one parse at the statement level: additionally the
/// scope arena and the binding-id counter after it.
pub enum SR<T> {
    Done(T, int, Seq<ScopeV>, u32),
    Fail(ErrorCode, Location),
    Short,
}

/// An identifier: rejected when the token spells a reserved keyword,
/// demanded to be an identifier token, and wrapped in a node spanning it.
pub open spec fn p_ident(ts: Seq<Token>, i: int) -> PR<IdentN>
    decreases ts.len() - i, 1int,
{
    if i < 0 || i >= ts.len() {
        PR::Short
    } else if ts[i].typ.spec_is(spec_keywords()) {
        PR::Fail(ErrorCode::ReservedNameUsed, ts[i].start)
    } else {
        match kind_v(ts[i].typ) {
            KindV::Ident(s) => PR::Done(
                IdentN { name: s, start: ts[i].start, end: ts[i].end, typ: None },
                i + 1,
            ),
            _ => PR::Fail(ErrorCode::UnexpectedToken, ts[i].start),
        }
    }
}

/// A parenthesized sub-expression: `(`, a full expression, a demanded
/// `)`; the inner node is the result, unwrapped.
pub open spec fn p_group(ts: Seq<Token>, i: int) -> PR<ExprN>
    decreases ts.len() - i, 1int,
{
    if i < 0 || i >= ts.len() {
        PR::Short
    } else {
        match p_expr(ts, i + 1) {
            PR::Done(body, i2) => if i2 < 0 || i2 >= ts.len() {
                PR::Short
            } else if !ts[i2].typ.same_kind(&Type::RightParen) {
                PR::Fail(ErrorCode::UnexpectedToken, ts[i2].start)
            } else {
                PR::Done(body, i2 + 1)
            },
            PR::Fail(c, l) => PR::Fail(c, l),
            PR::Short => PR::Short,
        }
    }
}

/// A primary expression, selected by the current token's kind:
/// identifier, numeric literal, boolean literal, or a parenthesized
/// sub-expression; any other kind is an invalid expression.
pub open spec fn p_primary(ts: Seq<Token>, i: int) -> PR<ExprN>
    decreases ts.len() - i, 2int,
{
    if i < 0 || i >= ts.len() {
        PR::Short
    } else {
        let t = ts[i];
        if t.typ.spec_tag() == 0 {
            if t.typ.spec_is(spec_keywords()) {
                PR::Fail(ErrorCode::ReservedNameUsed, t.start)
            } else {
                match kind_v(t.typ) {
                    KindV::Ident(s) => PR::Done(
                        ExprN { src: ExprT::Ident(s), start: t.start, end: t.end },
                        i + 1,
                    ),
                    _ => PR::Short,
                }
            }
        } else if t.typ.spec_tag() == 5 {
            match kind_v(t.typ) {
                KindV::Num(s) => PR::Done(
                    ExprN { src: ExprT::Num(s), start: t.start, end: t.end },
                    i + 1,
                ),
                _ => PR::Short,
            }
        } else if t.typ.spec_tag() == 6 {
            match t.typ {
                Type::Boolean(b) => PR::Done(
                    ExprN { src: ExprT::Bool(b), start: t.start, end: t.end },
                    i + 1,
                ),
                _ => PR::Short,
            }
        } else if t.typ.spec_tag() == 8 {
            p_group(ts, i)
        } else {
            PR::Fail(ErrorCode::InvalidExpression, t.start)
        }
    }
}

/// A prefix unary operation (one operator, one primary), or a bare
/// primary.
pub open spec fn p_unop(ts: Seq<Token>, i: int) -> PR<ExprN>
    decreases ts.len() - i, 3int,
{
    if i < 0 || i >= ts.len() {
        PR::Short
    } else if ts[i].typ.spec_is(spec_unary_operators()) {
        let op = ts[i];
        match p_primary(ts, i + 1) {
            PR::Done(val, i2) => if i2 < 1 || i2 > ts.len() {
                PR::Short
            } else {
                PR::Done(
                    ExprN {
                        src: ExprT::Unary(op.typ, op.start, op.end, Box::new(val)),
                        start: op.start,
                        end: ts[i2 - 1].end,
                    },
                    i2,
                )
            },
            PR::Fail(c, l) => PR::Fail(c, l),
            PR::Short => PR::Short,
        }
    } else {
        p_primary(ts, i)
    }
}

/// Precedence climbing at tier `d`: one parse a tier tighter, then a
/// left-associated fold of same-tier operators; past the last tier, a
/// unary parse.
pub open spec fn p_binop(ts: Seq<Token>, i: int, d: int) -> PR<ExprN>
    decreases ts.len() - i, 11int - (if d < 7 { d } else { 7 }),
{
    if d < 7 {
        if i < 0 || i >= ts.len() {
            PR::Short
        } else {
            let start = ts[i].start;
            match p_binop(ts, i, d + 1) {
                PR::Done(left, i2) => if i2 <= i || i2 > ts.len() {
                    PR::Short
                } else {
                    p_chain(ts, i2, d, left, start)
                },
                PR::Fail(c, l) => PR::Fail(c, l),
                PR::Short => PR::Short,
            }
        }
    } else {
        p_unop(ts, i)
    }
}

/// The left fold at tier `d`: while the current token is a tier-`d`
/// operator, consume it, parse the right operand one tier tighter, and
/// extend the chain to the left.
pub open spec fn p_chain(ts: Seq<Token>, i: int, d: int, left: ExprN, start: Location) -> PR<ExprN>
    decreases ts.len() - i, 4int,
{
    if i < 0 || i >= ts.len() {
        PR::Short
    } else if 0 <= d < 7 && ts[i].typ.spec_is(spec_binary_operator_tiers()[d]) {
        let op = ts[i];
        match p_binop(ts, i + 1, d + 1) {
            PR::Done(rhs, i3) => if i3 <= i || i3 > ts.len() {
                PR::Short
            } else {
                let folded = ExprN {
                    src: ExprT::Binary(
                        op.typ,
                        op.start,
                        op.end,
                        Box::new(left),
                        Box::new(rhs),
                    ),
                    start,
                    end: ts[i3 - 1].end,
                };
                p_chain(ts, i3, d, folded, start)
            },
            PR::Fail(c, l) => PR::Fail(c, l),
            PR::Short => PR::Short,
        }
    } else {
        PR::Done(left, i)
    }
}

/// A full expression: precedence climbing from the loosest tier.
pub open spec fn p_expr(ts: Seq<Token>, i: int) -> PR<ExprN>
    decreases ts.len() - i, 12int,
{
    p_binop(ts, i, 0)
}

/// One parameter: name, `:`, type annotation.
pub open spec fn p_param(ts: Seq<Token>, i: int) -> PR<ParamN>
    decreases ts.len() - i, 14int,
{
    if i < 0 || i >= ts.len() {
        PR::Short
    } else {
        let start = ts[i].start;
        match p_ident(ts, i) {
            PR::Done(name, i2) => if i2 < i || i2 >= ts.len() {
                PR::Short
            } else if !ts[i2].typ.same_kind(&Type::Colon) {
                PR::Fail(ErrorCode::UnexpectedToken, ts[i2].start)
            } else {
                match p_ident(ts, i2 + 1) {
                    PR::Done(annot, i3) => if i3 < 1 || i3 > ts.len() {
                        PR::Short
                    } else {
                        PR::Done(
                            ParamN {
                                name,
                                annot,
                                start,
                                end: ts[i3 - 1].end,
                                typ: None,
                            },
                            i3,
                        )
                    },
                    PR::Fail(c, l) => PR::Fail(c, l),
                    PR::Short => PR::Short,
                }
            },
            PR::Fail(c, l) => PR::Fail(c, l),
            PR::Short => PR::Short,
        }
    }
}

/// A comma-separated parameter list with at least one entry.
pub open spec fn p_list(ts: Seq<Token>, i: int) -> PR<Seq<ParamN>>
    decreases ts.len() - i, 15int,
{
    match p_param(ts, i) {
        PR::Done(first, i2) => if i2 <= i || i2 > ts.len() {
            PR::Short
        } else {
            p_list_chain(ts, i2, seq![first])
        },
        PR::Fail(c, l) => PR::Fail(c, l),
        PR::Short => PR::Short,
    }
}

/// The rest of a parameter list: while a comma follows, one more
/// parameter.
pub open spec fn p_list_chain(ts: Seq<Token>, i: int, acc: Seq<ParamN>) -> PR<Seq<ParamN>>
    decreases ts.len() - i, 15int,
{
    if i < 0 || i >= ts.len() {
        PR::Short
    } else if ts[i].typ.same_kind(&Type::Comma) {
        match p_param(ts, i + 1) {
            PR::Done(p, i2) => if i2 <= i || i2 > ts.len() {
                PR::Short
            } else {
                p_list_chain(ts, i2, acc.push(p))
            },
            PR::Fail(c, l) => PR::Fail(c, l),
            PR::Short => PR::Short,
        }
    } else {
        PR::Done(acc, i)
    }
}

/// A block under the current scope `top`: a fresh child scope is opened
/// in the arena, `{` is demanded, statements run under the child scope
/// until `}` (statement separators skipped, the end of the stream
/// rejected), and `}` closes the node.
#[verifier::opaque]
pub open spec fn p_block(ts: Seq<Token>, i: int, top: int, sc: Seq<ScopeV>, nid: u32) -> SR<BlockN>
    decreases ts.len() - i, 16int,
{
    if i < 0 || i >= ts.len() {
        SR::Short
    } else {
        let start = ts[i].start;
        let scope = sc.len() as int;
        let sc1 = sc.push(ScopeV { parent: Some(top), names: Seq::empty(), vars: Seq::empty() });
        if !ts[i].typ.same_kind(&Type::LeftBrace) {
            SR::Fail(ErrorCode::UnexpectedToken, ts[i].start)
        } else {
            match p_block_items(ts, i + 1, scope, sc1, nid, Seq::empty()) {
                SR::Done(stmts, i2, sc2, nid2) => if i2 < 0 || i2 >= ts.len() {
                    SR::Short
                } else if !ts[i2].typ.same_kind(&Type::RightBrace) {
                    SR::Fail(ErrorCode::UnexpectedToken, ts[i2].start)
                } else {
                    SR::Done(
                        BlockN {
                            src: BlockT { stmts, scope },
                            start,
                            end: ts[i2].end,
                            typ: None,
                        },
                        i2 + 1,
                        sc2,
                        nid2,
                    )
                },
                SR::Fail(c, l) => SR::Fail(c, l),
                SR::Short => SR::Short,
            }
        }
    }
}

/// The statements of a block body, in order, under scope `sid`.
#[verifier::opaque]
pub open spec fn p_block_items(
    ts: Seq<Token>,
    i: int,
    sid: int,
    sc: Seq<ScopeV>,
    nid: u32,
    acc: Seq<StmtN>,
) -> SR<Seq<StmtN>>
    decreases ts.len() - i, 20int,
{
    if i < 0 || i >= ts.len() {
        SR::Short
    } else if ts[i].typ.same_kind(&Type::RightBrace) {
        SR::Done(acc, i, sc, nid)
    } else if ts[i].typ.same_kind(&Type::EOF) {
        SR::Fail(ErrorCode::UnexpectedToken, ts[i].start)
    } else if ts[i].typ.spec_is_line_ending() {
        p_block_items(ts, i + 1, sid, sc, nid, acc)
    } else {
        match p_stmt(ts, i, sid, sc, nid) {
            SR::Done(s, i2, sc2, nid2) => if i2 <= i || i2 > ts.len() {
                SR::Short
            } else {
                p_block_items(ts, i2, sid, sc2, nid2, acc.push(s))
            },
            SR::Fail(c, l) => SR::Fail(c, l),
            SR::Short => SR::Short,
        }
    }
}

/// The tail of a declaration after `let` and the name (and any
/// annotation): `=` is demanded, the initializer parsed, and the name
/// registered in scope `sid` as a fresh untyped binding.
#[verifier::opaque]
pub open spec fn p_decl_tail(
    ts: Seq<Token>,
    i: int,
    sid: int,
    start: Location,
    name: IdentN,
    annot: Option<IdentN>,
    sc: Seq<ScopeV>,
    nid: u32,
) -> SR<StmtN>
    decreases ts.len() - i, 17int,
{
    if i < 0 || i >= ts.len() {
        SR::Short
    } else if !ts[i].typ.same_kind(&Type::Assignment) {
        SR::Fail(ErrorCode::UnexpectedToken, ts[i].start)
    } else {
        match p_expr(ts, i + 1) {
            PR::Done(val, i4) => if i4 < 1 || i4 > ts.len() || !(0 <= sid < sc.len()) {
                SR::Short
            } else {
                let sc5 = sc.update(
                    sid,
                    ScopeV {
                        parent: sc[sid].parent,
                        names: sc[sid].names.push(name.name),
                        vars: sc[sid].vars.push(Variable { id: nid, typ: None }),
                    },
                );
                SR::Done(
                    StmtN {
                        src: StmtT::Decl(name, annot, val),
                        start,
                        end: ts[i4 - 1].end,
                        typ: None,
                    },
                    i4,
                    sc5,
                    bump(nid),
                )
            },
            PR::Fail(c, l) => SR::Fail(c, l),
            PR::Short => SR::Short,
        }
    }
}

/// A declaration: `let`, a fresh (non-keyword) name, an optional `:` +
/// type identifier, then the tail above.
#[verifier::opaque]
pub open spec fn p_decl(ts: Seq<Token>, i: int, sid: int, sc: Seq<ScopeV>, nid: u32) -> SR<StmtN>
    decreases ts.len() - i, 17int,
{
    if i < 0 || i >= ts.len() {
        SR::Short
    } else {
        let start = ts[i].start;
        match p_ident(ts, i + 1) {
            PR::Done(name, i2) => if i2 <= i || i2 >= ts.len() {
                SR::Short
            } else if ts[i2].typ.same_kind(&Type::Colon) {
                match p_ident(ts, i2 + 1) {
                    PR::Done(annot, i3) => if i3 <= i2 || i3 > ts.len() {
                        SR::Short
                    } else {
                        p_decl_tail(ts, i3, sid, start, name, Some(annot), sc, nid)
                    },
                    PR::Fail(c, l) => SR::Fail(c, l),
                    PR::Short => SR::Short,
                }
            } else {
                p_decl_tail(ts, i2, sid, start, name, None, sc, nid)
            },
            PR::Fail(c, l) => SR::Fail(c, l),
            PR::Short => SR::Short,
        }
    }
}

/// Is the kind a binary operator of any tier?
pub open spec fn in_any_tier(t: Type) -> bool {
    exists|k: int| 0 <= k < 7 && t.spec_is(#[trigger] spec_binary_operator_tiers()[k])
}

/// An assignment: a name, an optional compound operator (any binary
/// operator), `=`, and the value; no binding is looked up at parse time.
#[verifier::opaque]
pub open spec fn p_assign(ts: Seq<Token>, i: int, sc: Seq<ScopeV>, nid: u32) -> SR<StmtN>
    decreases ts.len() - i, 17int,
{
    if i < 0 || i >= ts.len() {
        SR::Short
    } else {
        let start = ts[i].start;
        match p_ident(ts, i) {
            PR::Done(name, i2) => if i2 < i || i2 >= ts.len() {
                SR::Short
            } else {
                let has_op = in_any_tier(ts[i2].typ);
                let op: Option<(Type, Location, Location)> = if has_op {
                    Some((ts[i2].typ, ts[i2].start, ts[i2].end))
                } else {
                    None
                };
                let i3 = if has_op {
                    i2 + 1
                } else {
                    i2
                };
                if i3 >= ts.len() {
                    SR::Short
                } else if !ts[i3].typ.same_kind(&Type::Assignment) {
                    SR::Fail(ErrorCode::UnexpectedToken, ts[i3].start)
                } else {
                    match p_expr(ts, i3 + 1) {
                        PR::Done(val, i4) => if i4 < 1 || i4 > ts.len() {
                            SR::Short
                        } else {
                            SR::Done(
                                StmtN {
                                    src: StmtT::Assign(name, op, val),
                                    start,
                                    end: ts[i4 - 1].end,
                                    typ: None,
                                },
                                i4,
                                sc,
                                nid,
                            )
                        },
                        PR::Fail(c, l) => SR::Fail(c, l),
                        PR::Short => SR::Short,
                    }
                }
            },
            PR::Fail(c, l) => SR::Fail(c, l),
            PR::Short => SR::Short,
        }
    }
}

/// An `if`: keyword, condition, block.
#[verifier::opaque]
pub open spec fn p_if(ts: Seq<Token>, i: int, sid: int, sc: Seq<ScopeV>, nid: u32) -> SR<StmtN>
    decreases ts.len() - i, 17int,
{
    if i < 0 || i >= ts.len() {
        SR::Short
    } else {
        let start = ts[i].start;
        match p_expr(ts, i + 1) {
            PR::Done(cond, i2) => if i2 <= i || i2 > ts.len() {
                SR::Short
            } else {
                match p_block(ts, i2, sid, sc, nid) {
                    SR::Done(body, i3, sc3, nid3) => if i3 < 1 || i3 > ts.len() {
                        SR::Short
                    } else {
                        SR::Done(
                            StmtN {
                                src: StmtT::If(cond, body),
                                start,
                                end: ts[i3 - 1].end,
                                typ: None,
                            },
                            i3,
                            sc3,
                            nid3,
                        )
                    },
                    SR::Fail(c, l) => SR::Fail(c, l),
                    SR::Short => SR::Short,
                }
            },
            PR::Fail(c, l) => SR::Fail(c, l),
            PR::Short => SR::Short,
        }
    }
}

/// A `while` loop: keyword, condition, block.
#[verifier::opaque]
pub open spec fn p_while(ts: Seq<Token>, i: int, sid: int, sc: Seq<ScopeV>, nid: u32) -> SR<StmtN>
    decreases ts.len() - i, 17int,
{
    if i < 0 || i >= ts.len() {
        SR::Short
    } else {
        let start = ts[i].start;
        match p_expr(ts, i + 1) {
            PR::Done(cond, i2) => if i2 <= i || i2 > ts.len() {
                SR::Short
            } else {
                match p_block(ts, i2, sid, sc, nid) {
                    SR::Done(body, i3, sc3, nid3) => if i3 < 1 || i3 > ts.len() {
                        SR::Short
                    } else {
                        SR::Done(
                            StmtN {
                                src: StmtT::While(cond, body),
                                start,
                                end: ts[i3 - 1].end,
                                typ: None,
                            },
                            i3,
                            sc3,
                            nid3,
                        )
                    },
                    SR::Fail(c, l) => SR::Fail(c, l),
                    SR::Short => SR::Short,
                }
            },
            PR::Fail(c, l) => SR::Fail(c, l),
            PR::Short => SR::Short,
        }
    }
}

/// A `do`/`while` loop: keyword, block, a demanded `while`, then the
/// condition — after the body, unlike `while` and `if`.
#[verifier::opaque]
pub open spec fn p_dowhile(ts: Seq<Token>, i: int, sid: int, sc: Seq<ScopeV>, nid: u32) -> SR<
    StmtN,
>
    decreases ts.len() - i, 17int,
{
    if i < 0 || i >= ts.len() {
        SR::Short
    } else {
        let start = ts[i].start;
        match p_block(ts, i + 1, sid, sc, nid) {
            SR::Done(body, i2, sc2, nid2) => if i2 <= i || i2 >= ts.len() {
                SR::Short
            } else if !ts[i2].typ.same_kind(&Type::While) {
                SR::Fail(ErrorCode::UnexpectedToken, ts[i2].start)
            } else {
                match p_expr(ts, i2 + 1) {
                    PR::Done(cond, i4) => if i4 < 1 || i4 > ts.len() {
                        SR::Short
                    } else {
                        SR::Done(
                            StmtN {
                                src: StmtT::DoWhile(body, cond),
                                start,
                                end: ts[i4 - 1].end,
                                typ: None,
                            },
                            i4,
                            sc2,
                            nid2,
                        )
                    },
                    PR::Fail(c, l) => SR::Fail(c, l),
                    PR::Short => SR::Short,
                }
            },
            SR::Fail(c, l) => SR::Fail(c, l),
            SR::Short => SR::Short,
        }
    }
}

/// A bare `continue`.
#[verifier::opaque]
pub open spec fn p_continue(ts: Seq<Token>, i: int, sc: Seq<ScopeV>, nid: u32) -> SR<StmtN>
    decreases ts.len() - i, 17int,
{
    if i < 0 || i >= ts.len() {
        SR::Short
    } else if !ts[i].typ.same_kind(&Type::Continue) {
        SR::Fail(ErrorCode::UnexpectedToken, ts[i].start)
    } else {
        SR::Done(
            StmtN { src: StmtT::Continue, start: ts[i].start, end: ts[i].end, typ: None },
            i + 1,
            sc,
            nid,
        )
    }
}

/// A `return`: without a value exactly when the next token ends the
/// statement, else with the parsed value.
#[verifier::opaque]
pub open spec fn p_return(ts: Seq<Token>, i: int, sc: Seq<ScopeV>, nid: u32) -> SR<StmtN>
    decreases ts.len() - i, 17int,
{
    if i < 0 || i + 1 >= ts.len() {
        SR::Short
    } else {
        let start = ts[i].start;
        if ts[i + 1].typ.spec_is_line_ending() {
            SR::Done(
                StmtN { src: StmtT::Return(None), start, end: ts[i].end, typ: None },
                i + 1,
                sc,
                nid,
            )
        } else {
            match p_expr(ts, i + 1) {
                PR::Done(val, i2) => if i2 < 1 || i2 > ts.len() {
                    SR::Short
                } else {
                    SR::Done(
                        StmtN {
                            src: StmtT::Return(Some(val)),
                            start,
                            end: ts[i2 - 1].end,
                            typ: None,
                        },
                        i2,
                        sc,
                        nid,
                    )
                },
                PR::Fail(c, l) => SR::Fail(c, l),
                PR::Short => SR::Short,
            }
        }
    }
}

/// A function definition: keyword, name, `(` with an empty or
/// comma-separated parameter list, `)`, an optional `:` + return
/// annotation, and the body block.
#[verifier::opaque]
pub open spec fn p_func(ts: Seq<Token>, i: int, sid: int, sc: Seq<ScopeV>, nid: u32) -> SR<StmtN>
    decreases ts.len() - i, 17int,
{
    if i < 0 || i >= ts.len() {
        SR::Short
    } else {
        let start = ts[i].start;
        match p_ident(ts, i + 1) {
            PR::Done(name, i2) => if i2 <= i || i2 >= ts.len() {
                SR::Short
            } else if !ts[i2].typ.same_kind(&Type::LeftParen) {
                SR::Fail(ErrorCode::UnexpectedToken, ts[i2].start)
            } else if i2 + 1 >= ts.len() {
                SR::Short
            } else {
                let args_out: PR<Seq<ParamN>> = if ts[i2 + 1].typ.same_kind(&Type::RightParen) {
                    PR::Done(Seq::empty(), i2 + 1)
                } else {
                    p_list(ts, i2 + 1)
                };
                match args_out {
                    PR::Done(args, i3) => if i3 <= i2 || i3 >= ts.len() {
                        SR::Short
                    } else if !ts[i3].typ.same_kind(&Type::RightParen) {
                        SR::Fail(ErrorCode::UnexpectedToken, ts[i3].start)
                    } else if i3 + 1 >= ts.len() {
                        SR::Short
                    } else if ts[i3 + 1].typ.same_kind(&Type::Colon) {
                        match p_ident(ts, i3 + 2) {
                            PR::Done(ret, i4) => if i4 <= i3 || i4 > ts.len() {
                                SR::Short
                            } else {
                                p_func_body(ts, i4, sid, start, name, args, Some(ret), sc, nid)
                            },
                            PR::Fail(c, l) => SR::Fail(c, l),
                            PR::Short => SR::Short,
                        }
                    } else {
                        p_func_body(ts, i3 + 1, sid, start, name, args, None, sc, nid)
                    },
                    PR::Fail(c, l) => SR::Fail(c, l),
                    PR::Short => SR::Short,
                }
            },
            PR::Fail(c, l) => SR::Fail(c, l),
            PR::Short => SR::Short,
        }
    }
}

/// The body of a function definition, closing its node.
#[verifier::opaque]
pub open spec fn p_func_body(
    ts: Seq<Token>,
    i: int,
    sid: int,
    start: Location,
    name: IdentN,
    args: Seq<ParamN>,
    ret: Option<IdentN>,
    sc: Seq<ScopeV>,
    nid: u32,
) -> SR<StmtN>
    decreases ts.len() - i, 17int,
{
    match p_block(ts, i, sid, sc, nid) {
        SR::Done(body, i6, sc6, nid6) => if i6 < 1 || i6 > ts.len() {
            SR::Short
        } else {
            SR::Done(
                StmtN {
                    src: StmtT::Func(name, args, ret, body),
                    start,
                    end: ts[i6 - 1].end,
                    typ: None,
                },
                i6,
                sc6,
                nid6,
            )
        },
        SR::Fail(c, l) => SR::Fail(c, l),
        SR::Short => SR::Short,
    }
}

/// One statement: the current token's kind selects exactly one
/// production; any other leading token is an invalid statement.
#[verifier::opaque]
pub open spec fn p_stmt(ts: Seq<Token>, i: int, sid: int, sc: Seq<ScopeV>, nid: u32) -> SR<StmtN>
    decreases ts.len() - i, 18int,
{
    if i < 0 || i >= ts.len() {
        SR::Short
    } else {
        let tag = ts[i].typ.spec_tag();
        if tag == 0 {
            p_assign(ts, i, sc, nid)
        } else if tag == 10 {
            p_block_stmt(ts, i, sid, sc, nid)
        } else if tag == 38 {
            p_decl(ts, i, sid, sc, nid)
        } else if tag == 40 {
            p_if(ts, i, sid, sc, nid)
        } else if tag == 42 {
            p_while(ts, i, sid, sc, nid)
        } else if tag == 43 {
            p_dowhile(ts, i, sid, sc, nid)
        } else if tag == 45 {
            p_continue(ts, i, sc, nid)
        } else if tag == 46 {
            p_return(ts, i, sc, nid)
        } else if tag == 48 {
            p_func(ts, i, sid, sc, nid)
        } else {
            SR::Fail(ErrorCode::InvalidStatement, ts[i].start)
        }
    }
}

/// A nested block as a statement.
#[verifier::opaque]
pub open spec fn p_block_stmt(ts: Seq<Token>, i: int, sid: int, sc: Seq<ScopeV>, nid: u32) -> SR<
    StmtN,
>
    decreases ts.len() - i, 17int,
{
    match p_block(ts, i, sid, sc, nid) {
        SR::Done(body, i2, sc2, nid2) => if i2 < 1 || i2 > ts.len() {
            SR::Short
        } else {
            SR::Done(
                StmtN {
                    src: StmtT::Block(body.src),
                    start: body.start,
                    end: ts[i2 - 1].end,
                    typ: None,
                },
                i2,
                sc2,
                nid2,
            )
        },
        SR::Fail(c, l) => SR::Fail(c, l),
        SR::Short => SR::Short,
    }
}

/// The whole program: statements under scope `sid` until the end of the
/// stream, statement separators skipped.
#[verifier::opaque]
pub open spec fn p_program(
    ts: Seq<Token>,
    i: int,
    sid: int,
    sc: Seq<ScopeV>,
    nid: u32,
    acc: Seq<StmtN>,
) -> SR<Seq<StmtN>>
    decreases ts.len() - i, 20int,
{
    if i < 0 || i >= ts.len() {
        SR::Short
    } else if ts[i].typ.same_kind(&Type::EOF) {
        SR::Done(acc, i, sc, nid)
    } else if ts[i].typ.spec_is_line_ending() {
        p_program(ts, i + 1, sid, sc, nid, acc)
    } else {
        match p_stmt(ts, i, sid, sc, nid) {
            SR::Done(s, i2, sc2, nid2) => if i2 <= i || i2 > ts.len() {
                SR::Short
            } else {
                p_program(ts, i2, sid, sc2, nid2, acc.push(s))
            },
            SR::Fail(c, l) => SR::Fail(c, l),
            SR::Short => SR::Short,
        }
    }
}

/// The end offset of the last token: with a scanned sequence, the length
/// of the source.
pub open spec fn last_end(ts: Seq<Token>) -> int {
    ts[ts.len() - 1].end.idx as int
}

/// Every token's span lies at or before the last token's end.
proof fn lemma_tok_within(ts: Seq<Token>, k: int)
    requires
        tokens_wf(ts),
        0 <= k < ts.len(),
    ensures
        ts[k].start.idx <= last_end(ts),
        ts[k].end.idx <= last_end(ts),
{
    if k < ts.len() - 1 {
        assert(ts[k].end.idx <= ts[ts.len() - 1].start.idx);
    }
}

#[verifier::rlimit(100)]
#[verifier::spinoff_prover]
proof fn lemma_p_ident_within(ts: Seq<Token>, i: int)
    requires
        tokens_wf(ts),
    ensures
        p_ident(ts, i) matches PR::Done(x, j) ==> ident_n_within(x, last_end(ts)),
{
    if 0 <= i < ts.len() {
        lemma_tok_within(ts, i);
    }
}

#[verifier::rlimit(100)]
#[verifier::spinoff_prover]
proof fn lemma_p_group_within(ts: Seq<Token>, i: int)
    requires
        tokens_wf(ts),
    ensures
        p_group(ts, i) matches PR::Done(x, j) ==> expr_n_within(x, last_end(ts)),
    decreases ts.len() - i, 1int,
{
    if 0 <= i < ts.len() {
        lemma_p_expr_within(ts, i + 1);
    }
}

#[verifier::rlimit(100)]
#[verifier::spinoff_prover]
proof fn lemma_p_primary_within(ts: Seq<Token>, i: int)
    requires
        tokens_wf(ts),
    ensures
        p_primary(ts, i) matches PR::Done(x, j) ==> expr_n_within(x, last_end(ts)),
    decreases ts.len() - i, 2int,
{
    if 0 <= i < ts.len() {
        lemma_tok_within(ts, i);
        lemma_p_group_within(ts, i);
    }
}

#[verifier::rlimit(100)]
#[verifier::spinoff_prover]
proof fn lemma_p_unop_within(ts: Seq<Token>, i: int)
    requires
        tokens_wf(ts),
    ensures
        p_unop(ts, i) matches PR::Done(x, j) ==> expr_n_within(x, last_end(ts)),
    decreases ts.len() - i, 3int,
{
    if 0 <= i < ts.len() {
        lemma_tok_within(ts, i);
        lemma_p_primary_within(ts, i + 1);
        lemma_p_primary_within(ts, i);
        if ts[i].typ.spec_is(spec_unary_operators()) {
            match p_primary(ts, i + 1) {
                PR::Done(val, i2) => {
                    if 1 <= i2 <= ts.len() {
                        lemma_tok_within(ts, i2 - 1);
                    }
                },
                _ => {},
            }
        }
    }
}

#[verifier::rlimit(100)]
#[verifier::spinoff_prover]
proof fn lemma_p_binop_within(ts: Seq<Token>, i: int, d: int)
    requires
        tokens_wf(ts),
    ensures
        p_binop(ts, i, d) matches PR::Done(x, j) ==> expr_n_within(x, last_end(ts)),
    decreases ts.len() - i, 11int - (if d < 7 { d } else { 7 }),
{
    if d < 7 {
        if 0 <= i < ts.len() {
            lemma_tok_within(ts, i);
            lemma_p_binop_within(ts, i, d + 1);
            match p_binop(ts, i, d + 1) {
                PR::Done(left, i2) => {
                    if i < i2 <= ts.len() {
                        lemma_p_chain_within(ts, i2, d, left, ts[i].start);
                    }
                },
                _ => {},
            }
        }
    } else {
        lemma_p_unop_within(ts, i);
    }
}

#[verifier::rlimit(100)]
#[verifier::spinoff_prover]
proof fn lemma_p_chain_within(ts: Seq<Token>, i: int, d: int, left: ExprN, start: Location)
    requires
        tokens_wf(ts),
        expr_n_within(left, last_end(ts)),
        start.idx <= last_end(ts),
    ensures
        p_chain(ts, i, d, left, start) matches PR::Done(x, j) ==> expr_n_within(
            x,
            last_end(ts),
        ),
    decreases ts.len() - i, 4int,
{
    if 0 <= i < ts.len() && 0 <= d < 7 && ts[i].typ.spec_is(spec_binary_operator_tiers()[d]) {
        lemma_tok_within(ts, i);
        lemma_p_binop_within(ts, i + 1, d + 1);
        match p_binop(ts, i + 1, d + 1) {
            PR::Done(rhs, i3) => {
                if i < i3 <= ts.len() {
                    lemma_tok_within(ts, i3 - 1);
                    let folded = ExprN {
                        src: ExprT::Binary(
                            ts[i].typ,
                            ts[i].start,
                            ts[i].end,
                            Box::new(left),
                            Box::new(rhs),
                        ),
                        start,
                        end: ts[i3 - 1].end,
                    };
                    lemma_p_chain_within(ts, i3, d, folded, start);
                }
            },
            _ => {},
        }
    }
}

#[verifier::rlimit(100)]
#[verifier::spinoff_prover]
proof fn lemma_p_expr_within(ts: Seq<Token>, i: int)
    requires
        tokens_wf(ts),
    ensures
        p_expr(ts, i) matches PR::Done(x, j) ==> expr_n_within(x, last_end(ts)),
    decreases ts.len() - i, 12int,
{
    lemma_p_binop_within(ts, i, 0);
}

#[verifier::rlimit(100)]
#[verifier::spinoff_prover]
proof fn lemma_p_param_within(ts: Seq<Token>, i: int)
    requires
        tokens_wf(ts),
    ensures
        p_param(ts, i) matches PR::Done(x, j) ==> param_n_within(x, last_end(ts)),
    decreases ts.len() - i, 14int,
{
    if 0 <= i < ts.len() {
        lemma_tok_within(ts, i);
        lemma_p_ident_within(ts, i);
        match p_ident(ts, i) {
            PR::Done(name, i2) => {
                if i <= i2 < ts.len() {
                    lemma_p_ident_within(ts, i2 + 1);
                    match p_ident(ts, i2 + 1) {
                        PR::Done(annot, i3) => {
                            if 1 <= i3 <= ts.len() {
                                lemma_tok_within(ts, i3 - 1);
                            }
                        },
                        _ => {},
                    }
                }
            },
            _ => {},
        }
    }
}

#[verifier::rlimit(100)]
#[verifier::spinoff_prover]
proof fn lemma_p_list_chain_within(ts: Seq<Token>, i: int, acc: Seq<ParamN>)
    requires
        tokens_wf(ts),
        params_within(acc, last_end(ts)),
    ensures
        p_list_chain(ts, i, acc) matches PR::Done(x, j) ==> params_within(x, last_end(ts)),
    decreases ts.len() - i, 15int,
{
    if 0 <= i < ts.len() && ts[i].typ.same_kind(&Type::Comma) {
        lemma_p_param_within(ts, i + 1);
        match p_param(ts, i + 1) {
            PR::Done(p, i2) => {
                if i < i2 <= ts.len() {
                    assert(params_within(acc.push(p), last_end(ts)));
                    lemma_p_list_chain_within(ts, i2, acc.push(p));
                }
            },
            _ => {},
        }
    }
}

#[verifier::rlimit(100)]
#[verifier::spinoff_prover]
proof fn lemma_p_list_within(ts: Seq<Token>, i: int)
    requires
        tokens_wf(ts),
    ensures
        p_list(ts, i) matches PR::Done(x, j) ==> params_within(x, last_end(ts)),
    decreases ts.len() - i, 15int,
{
    lemma_p_param_within(ts, i);
    match p_param(ts, i) {
        PR::Done(first, i2) => {
            if i < i2 <= ts.len() {
                assert(params_within(seq![first], last_end(ts)));
                lemma_p_list_chain_within(ts, i2, seq![first]);
            }
        },
        _ => {},
    }
}

#[verifier::rlimit(100)]
#[verifier::spinoff_prover]
proof fn lemma_p_block_within(ts: Seq<Token>, i: int, top: int, sc: Seq<ScopeV>, nid: u32)
    requires
        tokens_wf(ts),
    ensures
        p_block(ts, i, top, sc, nid) matches SR::Done(x, j, sc2, nid2) ==> block_n_within(
            x,
            last_end(ts),
        ),
    decreases ts.len() - i, 16int,
{
    reveal(p_block);
    if 0 <= i < ts.len() {
        lemma_tok_within(ts, i);
        let scope = sc.len() as int;
        let sc1 = sc.push(ScopeV { parent: Some(top), names: Seq::empty(), vars: Seq::empty() });
        assert(stmts_within(Seq::empty(), last_end(ts)));
        lemma_p_block_items_within(ts, i + 1, scope, sc1, nid, Seq::empty());
        match p_block_items(ts, i + 1, scope, sc1, nid, Seq::empty()) {
            SR::Done(stmts, i2, _, _) => {
                if 0 <= i2 < ts.len() {
                    lemma_tok_within(ts, i2);
                }
            },
            _ => {},
        }
    }
}

#[verifier::rlimit(100)]
#[verifier::spinoff_prover]
proof fn lemma_p_block_items_within(
    ts: Seq<Token>,
    i: int,
    sid: int,
    sc: Seq<ScopeV>,
    nid: u32,
    acc: Seq<StmtN>,
)
    requires
        tokens_wf(ts),
        stmts_within(acc, last_end(ts)),
    ensures
        p_block_items(ts, i, sid, sc, nid, acc) matches SR::Done(x, j, sc2, nid2)
            ==> stmts_within(x, last_end(ts)),
    decreases ts.len() - i, 20int,
{
    reveal(p_block_items);
    if 0 <= i < ts.len() {
        if ts[i].typ.same_kind(&Type::RightBrace) {
        } else if ts[i].typ.same_kind(&Type::EOF) {
        } else if ts[i].typ.spec_is_line_ending() {
            lemma_p_block_items_within(ts, i + 1, sid, sc, nid, acc);
        } else {
            lemma_p_stmt_within(ts, i, sid, sc, nid);
            match p_stmt(ts, i, sid, sc, nid) {
                SR::Done(st, i2, sc2, nid2) => {
                    if i < i2 <= ts.len() {
                        assert(stmts_within(acc.push(st), last_end(ts)));
                        lemma_p_block_items_within(ts, i2, sid, sc2, nid2, acc.push(st));
                    }
                },
                _ => {},
            }
        }
    }
}

#[verifier::rlimit(100)]
#[verifier::spinoff_prover]
proof fn lemma_p_decl_tail_within(
    ts: Seq<Token>,
    i: int,
    sid: int,
    start: Location,
    name: IdentN,
    annot: Option<IdentN>,
    sc: Seq<ScopeV>,
    nid: u32,
)
    requires
        tokens_wf(ts),
        start.idx <= last_end(ts),
        ident_n_within(name, last_end(ts)),
        annot matches Some(a) ==> ident_n_within(a, last_end(ts)),
    ensures
        p_decl_tail(ts, i, sid, start, name, annot, sc, nid) matches SR::Done(x, j, sc2, nid2)
            ==> stmt_n_within(x, last_end(ts)),
    decreases ts.len() - i, 17int,
{
    reveal(p_decl_tail);
    if 0 <= i < ts.len() {
        lemma_p_expr_within(ts, i + 1);
        match p_expr(ts, i + 1) {
            PR::Done(val, i4) => {
                if 1 <= i4 <= ts.len() {
                    lemma_tok_within(ts, i4 - 1);
                }
            },
            _ => {},
        }
    }
}

#[verifier::rlimit(100)]
#[verifier::spinoff_prover]
proof fn lemma_p_decl_within(ts: Seq<Token>, i: int, sid: int, sc: Seq<ScopeV>, nid: u32)
    requires
        tokens_wf(ts),
    ensures
        p_decl(ts, i, sid, sc, nid) matches SR::Done(x, j, sc2, nid2) ==> stmt_n_within(
            x,
            last_end(ts),
        ),
    decreases ts.len() - i, 17int,
{
    reveal(p_decl);
    if 0 <= i < ts.len() {
        lemma_tok_within(ts, i);
        lemma_p_ident_within(ts, i + 1);
        match p_ident(ts, i + 1) {
            PR::Done(name, i2) => {
                if i < i2 < ts.len() {
                    if ts[i2].typ.same_kind(&Type::Colon) {
                        lemma_p_ident_within(ts, i2 + 1);
                        match p_ident(ts, i2 + 1) {
                            PR::Done(annot, i3) => {
                                if i2 < i3 <= ts.len() {
                                    lemma_p_decl_tail_within(
                                        ts,
                                        i3,
                                        sid,
                                        ts[i].start,
                                        name,
                                        Some(annot),
                                        sc,
                                        nid,
                                    );
                                }
                            },
                            _ => {},
                        }
                    } else {
                        lemma_p_decl_tail_within(ts, i2, sid, ts[i].start, name, None, sc, nid);
                    }
                }
            },
            _ => {},
        }
    }
}

#[verifier::rlimit(100)]
#[verifier::spinoff_prover]
proof fn lemma_p_assign_within(ts: Seq<Token>, i: int, sc: Seq<ScopeV>, nid: u32)
    requires
        tokens_wf(ts),
    ensures
        p_assign(ts, i, sc, nid) matches SR::Done(x, j, sc2, nid2) ==> stmt_n_within(
            x,
            last_end(ts),
        ),
    decreases ts.len() - i, 17int,
{
    reveal(p_assign);
    if 0 <= i < ts.len() {
        lemma_tok_within(ts, i);
        lemma_p_ident_within(ts, i);
        match p_ident(ts, i) {
            PR::Done(name, i2) => {
                if i <= i2 < ts.len() {
                    lemma_tok_within(ts, i2);
                    let i3 = if in_any_tier(ts[i2].typ) {
                        i2 + 1
                    } else {
                        i2
                    };
                    if i3 < ts.len() {
                        lemma_p_expr_within(ts, i3 + 1);
                        match p_expr(ts, i3 + 1) {
                            PR::Done(val, i4) => {
                                if 1 <= i4 <= ts.len() {
                                    lemma_tok_within(ts, i4 - 1);
                                }
                            },
                            _ => {},
                        }
                    }
                }
            },
            _ => {},
        }
    }
}

#[verifier::rlimit(100)]
#[verifier::spinoff_prover]
proof fn lemma_p_if_within(ts: Seq<Token>, i: int, sid: int, sc: Seq<ScopeV>, nid: u32)
    requires
        tokens_wf(ts),
    ensures
        p_if(ts, i, sid, sc, nid) matches SR::Done(x, j, sc2, nid2) ==> stmt_n_within(
            x,
            last_end(ts),
        ),
    decreases ts.len() - i, 17int,
{
    reveal(p_if);
    if 0 <= i < ts.len() {
        lemma_tok_within(ts, i);
        lemma_p_expr_within(ts, i + 1);
        match p_expr(ts, i + 1) {
            PR::Done(cond, i2) => {
                if i < i2 <= ts.len() {
                    lemma_p_block_within(ts, i2, sid, sc, nid);
                    match p_block(ts, i2, sid, sc, nid) {
                        SR::Done(body, i3, _, _) => {
                            if 1 <= i3 <= ts.len() {
                                lemma_tok_within(ts, i3 - 1);
                            }
                        },
                        _ => {},
                    }
                }
            },
            _ => {},
        }
    }
}

#[verifier::rlimit(100)]
#[verifier::spinoff_prover]
proof fn lemma_p_while_within(ts: Seq<Token>, i: int, sid: int, sc: Seq<ScopeV>, nid: u32)
    requires
        tokens_wf(ts),
    ensures
        p_while(ts, i, sid, sc, nid) matches SR::Done(x, j, sc2, nid2) ==> stmt_n_within(
            x,
            last_end(ts),
        ),
    decreases ts.len() - i, 17int,
{
    reveal(p_while);
    if 0 <= i < ts.len() {
        lemma_tok_within(ts, i);
        lemma_p_expr_within(ts, i + 1);
        match p_expr(ts, i + 1) {
            PR::Done(cond, i2) => {
                if i < i2 <= ts.len() {
                    lemma_p_block_within(ts, i2, sid, sc, nid);
                    match p_block(ts, i2, sid, sc, nid) {
                        SR::Done(body, i3, _, _) => {
                            if 1 <= i3 <= ts.len() {
                                lemma_tok_within(ts, i3 - 1);
                            }
                        },
                        _ => {},
                    }
                }
            },
            _ => {},
        }
    }
}

#[verifier::rlimit(100)]
#[verifier::spinoff_prover]
proof fn lemma_p_dowhile_within(ts: Seq<Token>, i: int, sid: int, sc: Seq<ScopeV>, nid: u32)
    requires
        tokens_wf(ts),
    ensures
        p_dowhile(ts, i, sid, sc, nid) matches SR::Done(x, j, sc2, nid2) ==> stmt_n_within(
            x,
            last_end(ts),
        ),
    decreases ts.len() - i, 17int,
{
    reveal(p_dowhile);
    if 0 <= i < ts.len() {
        lemma_tok_within(ts, i);
        lemma_p_block_within(ts, i + 1, sid, sc, nid);
        match p_block(ts, i + 1, sid, sc, nid) {
            SR::Done(body, i2, _, _) => {
                if i < i2 < ts.len() {
                    lemma_p_expr_within(ts, i2 + 1);
                    match p_expr(ts, i2 + 1) {
                        PR::Done(cond, i4) => {
                            if 1 <= i4 <= ts.len() {
                                lemma_tok_within(ts, i4 - 1);
                            }
                        },
                        _ => {},
                    }
                }
            },
            _ => {},
        }
    }
}

#[verifier::rlimit(100)]
#[verifier::spinoff_prover]
proof fn lemma_p_continue_within(ts: Seq<Token>, i: int, sc: Seq<ScopeV>, nid: u32)
    requires
        tokens_wf(ts),
    ensures
        p_continue(ts, i, sc, nid) matches SR::Done(x, j, sc2, nid2) ==> stmt_n_within(
            x,
            last_end(ts),
        ),
{
    reveal(p_continue);
    if 0 <= i < ts.len() {
        lemma_tok_within(ts, i);
    }
}

#[verifier::rlimit(100)]
#[verifier::spinoff_prover]
proof fn lemma_p_return_within(ts: Seq<Token>, i: int, sc: Seq<ScopeV>, nid: u32)
    requires
        tokens_wf(ts),
    ensures
        p_return(ts, i, sc, nid) matches SR::Done(x, j, sc2, nid2) ==> stmt_n_within(
            x,
            last_end(ts),
        ),
    decreases ts.len() - i, 17int,
{
    reveal(p_return);
    if 0 <= i && i + 1 < ts.len() {
        lemma_tok_within(ts, i);
        lemma_p_expr_within(ts, i + 1);
        match p_expr(ts, i + 1) {
            PR::Done(val, i2) => {
                if 1 <= i2 <= ts.len() {
                    lemma_tok_within(ts, i2 - 1);
                }
            },
            _ => {},
        }
    }
}

#[verifier::rlimit(100)]
#[verifier::spinoff_prover]
proof fn lemma_p_func_body_within(
    ts: Seq<Token>,
    i: int,
    sid: int,
    start: Location,
    name: IdentN,
    args: Seq<ParamN>,
    ret: Option<IdentN>,
    sc: Seq<ScopeV>,
    nid: u32,
)
    requires
        tokens_wf(ts),
        start.idx <= last_end(ts),
        ident_n_within(name, last_end(ts)),
        params_within(args, last_end(ts)),
        ret matches Some(rn) ==> ident_n_within(rn, last_end(ts)),
    ensures
        p_func_body(ts, i, sid, start, name, args, ret, sc, nid) matches SR::Done(
            x,
            j,
            sc2,
            nid2,
        ) ==> stmt_n_within(x, last_end(ts)),
    decreases ts.len() - i, 17int,
{
    reveal(p_func_body);
    lemma_p_block_within(ts, i, sid, sc, nid);
    match p_block(ts, i, sid, sc, nid) {
        SR::Done(body, i6, _, _) => {
            if 1 <= i6 <= ts.len() {
                lemma_tok_within(ts, i6 - 1);
            }
        },
        _ => {},
    }
}

#[verifier::rlimit(100)]
#[verifier::spinoff_prover]
proof fn lemma_p_func_within(ts: Seq<Token>, i: int, sid: int, sc: Seq<ScopeV>, nid: u32)
    requires
        tokens_wf(ts),
    ensures
        p_func(ts, i, sid, sc, nid) matches SR::Done(x, j, sc2, nid2) ==> stmt_n_within(
            x,
            last_end(ts),
        ),
    decreases ts.len() - i, 17int,
{
    reveal(p_func);
    if 0 <= i < ts.len() {
        lemma_tok_within(ts, i);
        lemma_p_ident_within(ts, i + 1);
        match p_ident(ts, i + 1) {
            PR::Done(name, i2) => {
                if i < i2 < ts.len() && ts[i2].typ.same_kind(&Type::LeftParen) && i2 + 1
                    < ts.len() {
                    let args_out: PR<Seq<ParamN>> = if ts[i2 + 1].typ.same_kind(
                        &Type::RightParen,
                    ) {
                        PR::Done(Seq::empty(), i2 + 1)
                    } else {
                        p_list(ts, i2 + 1)
                    };
                    lemma_p_list_within(ts, i2 + 1);
                    assert(params_within(Seq::empty(), last_end(ts)));
                    match args_out {
                        PR::Done(args, i3) => {
                            if i2 < i3 < ts.len() && ts[i3].typ.same_kind(&Type::RightParen)
                                && i3 + 1 < ts.len() {
                                if ts[i3 + 1].typ.same_kind(&Type::Colon) {
                                    lemma_p_ident_within(ts, i3 + 2);
                                    match p_ident(ts, i3 + 2) {
                                        PR::Done(ret, i4) => {
                                            if i3 < i4 <= ts.len() {
                                                lemma_p_func_body_within(
                                                    ts,
                                                    i4,
                                                    sid,
                                                    ts[i].start,
                                                    name,
                                                    args,
                                                    Some(ret),
                                                    sc,
                                                    nid,
                                                );
                                            }
                                        },
                                        _ => {},
                                    }
                                } else {
                                    lemma_p_func_body_within(
                                        ts,
                                        i3 + 1,
                                        sid,
                                        ts[i].start,
                                        name,
                                        args,
                                        None,
                                        sc,
                                        nid,
                                    );
                                }
                            }
                        },
                        _ => {},
                    }
                }
            },
            _ => {},
        }
    }
}

#[verifier::rlimit(100)]
#[verifier::spinoff_prover]
proof fn lemma_p_block_stmt_within(ts: Seq<Token>, i: int, sid: int, sc: Seq<ScopeV>, nid: u32)
    requires
        tokens_wf(ts),
    ensures
        p_block_stmt(ts, i, sid, sc, nid) matches SR::Done(x, j, sc2, nid2) ==> stmt_n_within(
            x,
            last_end(ts),
        ),
    decreases ts.len() - i, 17int,
{
    reveal(p_block_stmt);
    lemma_p_block_within(ts, i, sid, sc, nid);
    match p_block(ts, i, sid, sc, nid) {
        SR::Done(body, i2, _, _) => {
            if 1 <= i2 <= ts.len() {
                lemma_tok_within(ts, i2 - 1);
            }
        },
        _ => {},
    }
}

#[verifier::rlimit(100)]
#[verifier::spinoff_prover]
proof fn lemma_p_stmt_within(ts: Seq<Token>, i: int, sid: int, sc: Seq<ScopeV>, nid: u32)
    requires
        tokens_wf(ts),
    ensures
        p_stmt(ts, i, sid, sc, nid) matches SR::Done(x, j, sc2, nid2) ==> stmt_n_within(
            x,
            last_end(ts),
        ),
    decreases ts.len() - i, 18int,
{
    reveal(p_stmt);
    if 0 <= i < ts.len() {
        lemma_p_assign_within(ts, i, sc, nid);
        lemma_p_block_stmt_within(ts, i, sid, sc, nid);
        lemma_p_decl_within(ts, i, sid, sc, nid);
        lemma_p_if_within(ts, i, sid, sc, nid);
        lemma_p_while_within(ts, i, sid, sc, nid);
        lemma_p_dowhile_within(ts, i, sid, sc, nid);
        lemma_p_continue_within(ts, i, sc, nid);
        lemma_p_return_within(ts, i, sc, nid);
        lemma_p_func_within(ts, i, sid, sc, nid);
    }
}

/// Every node a successful program parse builds lies within the token
/// sequence's last end position — with scanned tokens, within the source.
#[verifier::rlimit(100)]
#[verifier::spinoff_prover]
pub proof fn lemma_p_program_within(
    ts: Seq<Token>,
    i: int,
    sid: int,
    sc: Seq<ScopeV>,
    nid: u32,
    acc: Seq<StmtN>,
)
    requires
        tokens_wf(ts),
        stmts_within(acc, last_end(ts)),
    ensures
        p_program(ts, i, sid, sc, nid, acc) matches SR::Done(x, j, sc2, nid2) ==> stmts_within(
            x,
            last_end(ts),
        ),
    decreases ts.len() - i, 20int,
{
    reveal(p_program);
    if 0 <= i < ts.len() {
        if ts[i].typ.same_kind(&Type::EOF) {
        } else if ts[i].typ.spec_is_line_ending() {
            lemma_p_program_within(ts, i + 1, sid, sc, nid, acc);
        } else {
            lemma_p_stmt_within(ts, i, sid, sc, nid);
            match p_stmt(ts, i, sid, sc, nid) {
                SR::Done(st, i2, sc2, nid2) => {
                    if i < i2 <= ts.len() {
                        assert(stmts_within(acc.push(st), last_end(ts)));
                        lemma_p_program_within(ts, i2, sid, sc2, nid2, acc.push(st));
                    }
                },
                _ => {},
            }
        }
    }
}

/// The parser: the source lines (for diagnostics), the token sequence,
/// the program under construction, the current scope, and the cursor.
pub struct Parser {
    pub lines: Vec<String>,
    pub tokens: Vec<Token>,
    pub prog: Program,
    pub top: usize,
    pub idx: usize,
}

impl Parser {
    /// The parser's standing invariant.
    pub open spec fn wf(&self) -> bool {
        &&& tokens_wf(self.tokens@)
        &&& self.idx < self.tokens@.len()
        &&& tree_wf(self.prog.scopes@)
        &&& self.top < self.prog.scopes@.len()
    }
}

/// What every expression-level parse preserves: the tokens, lines, whole
/// program state and current scope are untouched; the cursor only moves
/// forward.
pub open spec fn frame_expr(pre: Parser, post: Parser) -> bool {
    &&& post.wf()
    &&& post.tokens == pre.tokens
    &&& post.lines == pre.lines
    &&& post.prog == pre.prog
    &&& post.top == pre.top
    &&& post.idx >= pre.idx
}

/// What every statement-level parse preserves: tokens, lines, the block
/// under construction and the current scope; the scope arena may grow and
/// the cursor only moves forward.
pub open spec fn frame_stmt(pre: Parser, post: Parser) -> bool {
    &&& post.wf()
    &&& post.tokens == pre.tokens
    &&& post.lines == pre.lines
    &&& post.top == pre.top
    &&& post.prog.block == pre.prog.block
    &&& pre.prog.scopes@.len() <= post.prog.scopes@.len()
    &&& post.idx >= pre.idx
}

/// No member of a binary-operator tier is the end-of-stream kind.
proof fn lemma_tier_not_eof(t: Type, k: int)
    requires
        0 <= k < spec_binary_operator_tiers().len(),
        t.spec_is(spec_binary_operator_tiers()[k]),
    ensures
        !t.same_kind(&Type::EOF),
{
    let tier = spec_binary_operator_tiers()[k];
    let j = choose|j: int| 0 <= j < tier.len() && t.same_kind(&tier[j]);
    assert(t.same_kind(&tier[j]));
}

/// No prefix unary operator is the end-of-stream kind.
proof fn lemma_unop_not_eof(t: Type)
    requires
        t.spec_is(spec_unary_operators()),
    ensures
        !t.same_kind(&Type::EOF),
{
    let ops = spec_unary_operators();
    let j = choose|j: int| 0 <= j < ops.len() && t.same_kind(&ops[j]);
    assert(t.same_kind(&ops[j]));
}

impl Parser {
    /// A parser over the given lines and tokens, with an empty program.
    pub fn new(lines: Vec<String>, tokens: &Vec<Token>) -> (p: Parser)
        requires
            tokens_wf(tokens@),
        ensures
            p.wf(),
            p.idx == 0,
            p.lines == lines,
            p.top == p.prog.block.scope,
            p.prog.block.stmts@.len() == 0,
            p.prog.scopes@.len() == 1,
            crate::tokens::toks_v(p.tokens@) == crate::tokens::toks_v(tokens@),
    {
        let prog = Program::new();
        let mut copy: Vec<Token> = Vec::new();
        let mut i: usize = 0;
        while i < tokens.len()
            invariant
                tokens_wf(tokens@),
                i <= tokens@.len(),
                copy@.len() == i,
                forall|k: int|
                    0 <= k < i ==> tok_v(#[trigger] copy@[k]) == tok_v(tokens@[k])
                        && copy@[k].typ.spec_tag() == tokens@[k].typ.spec_tag() && copy@[k].start
                        == tokens@[k].start && copy@[k].end == tokens@[k].end,
            decreases tokens@.len() - i,
        {
            copy.push(crate::tokens::dup_token(&tokens[i]));
            i = i + 1;
        }
        proof {
            assert(crate::tokens::toks_v(copy@) =~= crate::tokens::toks_v(tokens@));
            assert(copy@.last().typ.same_kind(&Type::EOF));
        }
        Parser { lines, tokens: copy, prog, top: 0, idx: 0 }
    }

    /// The token under the cursor.
    fn at(&self) -> (t: &Token)
        requires
            self.wf(),
        ensures
            *t == self.tokens@[self.idx as int],
    {
        &self.tokens[self.idx]
    }

    /// Is the current token of the same kind as `t`?
    fn tt_same(&self, t: &Type) -> (r: bool)
        requires
            self.wf(),
        ensures
            r == self.tokens@[self.idx as int].typ.same_kind(t),
    {
        self.tokens[self.idx].typ.eq(t)
    }

    /// Does the current token end a statement?
    fn tt_line_ending(&self) -> (r: bool)
        requires
            self.wf(),
        ensures
            r == self.tokens@[self.idx as int].typ.spec_is_line_ending(),
    {
        let t = self.tokens[self.idx].typ.tag();
        t == 2 || t == 3 || t == 54
    }

    /// The start position of the current token.
    fn cur_loc(&self) -> (l: Location)
        requires
            self.wf(),
        ensures
            l == self.tokens@[self.idx as int].start,
    {
        self.tokens[self.idx].start
    }

    /// The end position of the token just consumed.
    fn prev_stop(&self) -> (l: Location)
        requires
            self.wf(),
            self.idx >= 1,
        ensures
            l == self.tokens@[self.idx - 1].end,
    {
        self.tokens[self.idx - 1].end
    }

    /// Consume the current token (never the end-of-stream token) and hand
    /// back a copy of it.
    fn eat(&mut self) -> (t: Token)
        requires
            old(self).wf(),
            !old(self).tokens@[old(self).idx as int].typ.same_kind(&Type::EOF),
        ensures
            final(self).wf(),
            final(self).tokens == old(self).tokens,
            final(self).lines == old(self).lines,
            final(self).prog == old(self).prog,
            final(self).top == old(self).top,
            final(self).idx == old(self).idx + 1,
            tok_v(t) == tok_v(old(self).tokens@[old(self).idx as int]),
            t.typ.spec_tag() == old(self).tokens@[old(self).idx as int].typ.spec_tag(),
            t.start == old(self).tokens@[old(self).idx as int].start,
            t.end == old(self).tokens@[old(self).idx as int].end,
    {
        let n = self.tokens.len();
        let t = crate::tokens::dup_token(&self.tokens[self.idx]);
        self.idx = self.idx + 1;
        t
    }

    /// A diagnostic anchored at the current token.
    fn err(&self, msg: String, id: ErrorCode) -> (e: Error)
        requires
            self.wf(),
        ensures
            e.id == id,
            e.start == self.tokens@[self.idx as int].start,
    {
        let tok = &self.tokens[self.idx];
        let start = tok.start;
        let end_col: u32 = if tok.size <= u32::MAX - start.col {
            start.col + tok.size
        } else {
            u32::MAX
        };
        let end_idx: u32 = if tok.size <= u32::MAX - start.idx {
            start.idx + tok.size
        } else {
            u32::MAX
        };
        let end = Location::new(start.row, end_col, end_idx);
        Error::new(self.lines.clone(), msg, start, end, id)
    }

    /// Consume the current token if it is of the expected kind, else raise
    /// `UnexpectedToken`.
    fn expect(&mut self, expected: Type) -> (r: Result<Token, Error>)
        requires
            old(self).wf(),
            !expected.same_kind(&Type::EOF),
        ensures
            match r {
                Ok(t) => {
                    &&& old(self).tokens@[old(self).idx as int].typ.same_kind(&expected)
                    &&& final(self).wf()
                    &&& final(self).tokens == old(self).tokens
                    &&& final(self).lines == old(self).lines
                    &&& final(self).prog == old(self).prog
                    &&& final(self).top == old(self).top
                    &&& final(self).idx == old(self).idx + 1
                    &&& tok_v(t) == tok_v(old(self).tokens@[old(self).idx as int])
                    &&& t.typ.spec_tag() == old(self).tokens@[old(self).idx as int].typ.spec_tag()
                    &&& t.start == old(self).tokens@[old(self).idx as int].start
                    &&& t.end == old(self).tokens@[old(self).idx as int].end
                },
                Err(e) => {
                    &&& !old(self).tokens@[old(self).idx as int].typ.same_kind(&expected)
                    &&& *final(self) == *old(self)
                    &&& e.id == ErrorCode::UnexpectedToken
                    &&& e.start == old(self).tokens@[old(self).idx as int].start
                },
            },
    {
        if !self.tokens[self.idx].typ.eq(&expected) {
            let mut m = String::from_str("Expected ");
            m.append(expected.name());
            m.append(", instead got ");
            m.append(self.tokens[self.idx].typ.name());
            return Err(self.err(m, ErrorCode::UnexpectedToken));
        }
        Ok(self.eat())
    }

    /// Wrap a payload in a node spanning from `start` to the end of the
    /// token just consumed.
    fn node<T>(&self, src: T, start: Location) -> (n: Node<T>)
        requires
            self.wf(),
            self.idx >= 1,
        ensures
            n.0.src == src,
            n.0.start == start,
            n.0.end == self.tokens@[self.idx - 1].end,
            n.0.typ is None,
    {
        let stop = self.prev_stop();
        Node::new(src, start, stop)
    }
}


// Expression parsing.
impl Parser {
    /// The raw identifier under the cursor: rejects reserved keyword
    /// spellings, then expects an identifier token.
    fn parse_raw_ident(&mut self) -> (r: Result<Ident, Error>)
        requires
            old(self).wf(),
        ensures
            frame_expr(*old(self), *final(self)),
            match r {
                Ok(id) => {
                    &&& final(self).idx == old(self).idx + 1
                    &&& kind_v(old(self).tokens@[old(self).idx as int].typ) matches KindV::Ident(s)
                        && id.name@ == s
                },
                Err(e) => {
                    &&& *final(self) == *old(self)
                    &&& (e.id == ErrorCode::ReservedNameUsed <==> old(self).tokens@[old(
                        self,
                    ).idx as int].typ.spec_is(spec_keywords()))
                    &&& (e.id == ErrorCode::ReservedNameUsed || e.id == ErrorCode::UnexpectedToken)
                    &&& e.start == old(self).tokens@[old(self).idx as int].start
                    &&& (e.id == ErrorCode::UnexpectedToken ==> !(kind_v(
                        old(self).tokens@[old(self).idx as int].typ,
                    ) matches KindV::Ident(_)))
                },
            },
            r is Ok ==> !old(self).tokens@[old(self).idx as int].typ.spec_is(spec_keywords()),
    {
        let kws = keywords();
        if self.tokens[self.idx].typ.is(&kws) {
            let cur_strs = self.tokens[self.idx].typ.src_strings();
            let mut m = String::from_str("Cannot use ");
            if cur_strs.len() > 0 {
                m.append(cur_strs[0].as_str());
            }
            m.append(" for a name, because it is a reserved keyword");
            return Err(self.err(m, ErrorCode::ReservedNameUsed));
        }
        let t = self.expect(Type::Identifier(String::new()))?;
        match t.typ {
            Type::Identifier(name) => Ok(Ident { name }),
            _ => Err(
                self.err(String::from_str("not an identifier"), ErrorCode::IncorrectParsingType),
            ),
        }
    }

    /// The numeric literal under the cursor.
    fn parse_raw_num_lit(&mut self) -> (r: Result<NumLit, Error>)
        requires
            old(self).wf(),
            kind_v(old(self).tokens@[old(self).idx as int].typ) matches KindV::Num(_),
        ensures
            frame_expr(*old(self), *final(self)),
            match r {
                Ok(n) => {
                    &&& final(self).idx == old(self).idx + 1
                    &&& kind_v(old(self).tokens@[old(self).idx as int].typ) matches KindV::Num(s)
                        && n.val@ == s
                },
                Err(_) => false,
            },
    {
        let t = self.eat();
        match t.typ {
            Type::Number(val) => Ok(NumLit { val }),
            _ => Err(self.err(String::from_str("not a number"), ErrorCode::IncorrectParsingType)),
        }
    }

    /// The boolean literal under the cursor.
    fn parse_raw_bool_lit(&mut self) -> (r: Result<BoolLit, Error>)
        requires
            old(self).wf(),
            old(self).tokens@[old(self).idx as int].typ.same_kind(&Type::Boolean(false)),
        ensures
            frame_expr(*old(self), *final(self)),
            match r {
                Ok(b) => {
                    &&& final(self).idx == old(self).idx + 1
                    &&& old(self).tokens@[old(self).idx as int].typ == Type::Boolean(b.val)
                },
                Err(_) => false,
            },
    {
        let t = self.eat();
        match t.typ {
            Type::Boolean(val) => Ok(BoolLit { val }),
            _ => Err(self.err(String::from_str("not a boolean"), ErrorCode::IncorrectParsingType)),
        }
    }

    /// An identifier wrapped in a node spanning its token.
    fn parse_ident(&mut self) -> (r: Result<Node<Ident>, Error>)
        requires
            old(self).wf(),
        ensures
            frame_expr(*old(self), *final(self)),
            match r {
                Ok(n) => {
                    &&& final(self).idx > old(self).idx
                    &&& ident_node_spans_ok(n)
                    &&& n.0.start == old(self).tokens@[old(self).idx as int].start
                    &&& n.0.end == final(self).tokens@[final(self).idx - 1].end
                    &&& kind_v(old(self).tokens@[old(self).idx as int].typ) matches KindV::Ident(s)
                        && n.0.src.name@ == s
                    &&& p_ident(old(self).tokens@, old(self).idx as int) == PR::Done(
                        ident_v(n),
                        final(self).idx as int,
                    )
                },
                Err(e) => *final(self) == *old(self) && p_ident(
                    old(self).tokens@,
                    old(self).idx as int,
                ) == PR::<IdentN>::Fail(e.id, e.start),
            },
    {
        let start = self.cur_loc();
        let raw = self.parse_raw_ident()?;
        Ok(self.node(raw, start))
    }

    /// A parenthesized sub-expression: the parentheses produce no node of
    /// their own.
    fn parse_group(&mut self) -> (r: Result<Node<Expr>, Error>)
        requires
            old(self).wf(),
            old(self).tokens@[old(self).idx as int].typ.same_kind(&Type::LeftParen),
        ensures
            frame_expr(*old(self), *final(self)),
            match r {
                Ok(n) => final(self).idx > old(self).idx && expr_node_spans_ok(n) && p_group(
                    old(self).tokens@,
                    old(self).idx as int,
                ) == PR::Done(expr_v(n), final(self).idx as int),
                Err(e) => p_group(old(self).tokens@, old(self).idx as int) == PR::<ExprN>::Fail(
                    e.id,
                    e.start,
                ),
            },
        decreases old(self).tokens@.len() - old(self).idx, 1int,
    {
        self.eat();
        let body = self.parse_expr()?;
        self.expect(Type::RightParen)?;
        Ok(body)
    }

    /// A primary expression: identifier, numeric literal, boolean literal,
    /// or a parenthesized sub-expression.
    fn parse_primary(&mut self) -> (r: Result<Node<Expr>, Error>)
        requires
            old(self).wf(),
        ensures
            frame_expr(*old(self), *final(self)),
            match r {
                Ok(n) => final(self).idx > old(self).idx && expr_node_spans_ok(n) && p_primary(
                    old(self).tokens@,
                    old(self).idx as int,
                ) == PR::Done(expr_v(n), final(self).idx as int),
                Err(e) => p_primary(old(self).tokens@, old(self).idx as int) == PR::<ExprN>::Fail(
                    e.id,
                    e.start,
                ),
            },
        decreases old(self).tokens@.len() - old(self).idx, 2int,
    {
        let start = self.cur_loc();
        let tag = self.tokens[self.idx].typ.tag();
        if tag == 0 {
            let raw = self.parse_raw_ident()?;
            Ok(self.node(Expr::Ident(raw), start))
        } else if tag == 5 {
            let raw = self.parse_raw_num_lit()?;
            Ok(self.node(Expr::NumLit(raw), start))
        } else if tag == 6 {
            let raw = self.parse_raw_bool_lit()?;
            Ok(self.node(Expr::BoolLit(raw), start))
        } else if tag == 8 {
            self.parse_group()
        } else {
            let mut m = String::from_str("Invalid expression ");
            m.append(self.tokens[self.idx].typ.name());
            Err(self.err(m, ErrorCode::InvalidExpression))
        }
    }

    /// A prefix unary operation, or a primary expression. At most one
    /// prefix operator applies to one primary.
    fn parse_unop(&mut self) -> (r: Result<Node<Expr>, Error>)
        requires
            old(self).wf(),
        ensures
            frame_expr(*old(self), *final(self)),
            match r {
                Ok(n) => final(self).idx > old(self).idx && expr_node_spans_ok(n) && p_unop(
                    old(self).tokens@,
                    old(self).idx as int,
                ) == PR::Done(expr_v(n), final(self).idx as int),
                Err(e) => p_unop(old(self).tokens@, old(self).idx as int) == PR::<ExprN>::Fail(
                    e.id,
                    e.start,
                ),
            },
        decreases old(self).tokens@.len() - old(self).idx, 3int,
    {
        let unops = unary_operators();
        if self.tokens[self.idx].typ.is(&unops) {
            let start = self.cur_loc();
            proof {
                lemma_unop_not_eof(self.tokens@[self.idx as int].typ);
            }
            let op = self.eat();
            proof {
                crate::tokens::lemma_unop_bare(old(self).tokens@[old(self).idx as int].typ);
                crate::tokens::lemma_bare_kind_eq(
                    old(self).tokens@[old(self).idx as int].typ,
                    op.typ,
                );
            }
            let val = self.parse_primary()?;
            let n = self.node(
                Expr::UnaryOp(UnaryOp { op: Meta::new(op.typ, op.start, op.end), val }),
                start,
            );
            proof {
                assert(expr_v(n) == ExprN {
                    src: ExprT::Unary(
                        op.typ,
                        op.start,
                        op.end,
                        Box::new(expr_v(n.0.src->UnaryOp_0.val)),
                    ),
                    start: n.0.start,
                    end: n.0.end,
                });
            }
            Ok(n)
        } else {
            self.parse_primary()
        }
    }

    /// Precedence climbing at one tier: parse one tier tighter, then fold
    /// a left-associated chain of same-tier operators.
    fn parse_binop(&mut self, depth: usize) -> (r: Result<Node<Expr>, Error>)
        requires
            old(self).wf(),
            depth <= 7,
        ensures
            frame_expr(*old(self), *final(self)),
            match r {
                Ok(n) => final(self).idx > old(self).idx && expr_node_spans_ok(n) && p_binop(
                    old(self).tokens@,
                    old(self).idx as int,
                    depth as int,
                ) == PR::Done(expr_v(n), final(self).idx as int),
                Err(e) => p_binop(old(self).tokens@, old(self).idx as int, depth as int)
                    == PR::<ExprN>::Fail(e.id, e.start),
            },
        decreases old(self).tokens@.len() - old(self).idx, 11int - depth,
    {
        let tiers = binary_operator_tiers();
        if depth < tiers.len() {
            let start = self.cur_loc();
            let mut left = self.parse_binop(depth + 1)?;
            while self.tokens[self.idx].typ.is(&tiers[depth])
                invariant
                    self.wf(),
                    depth < 7,
                    tiers@.len() == 7,
                    forall|k: int|
                        0 <= k < 7 ==> #[trigger] tiers@[k]@ == spec_binary_operator_tiers()[k],
                    frame_expr(*old(self), *self),
                    self.idx > old(self).idx,
                    expr_node_spans_ok(left),
                    start == old(self).tokens@[old(self).idx as int].start,
                    p_binop(old(self).tokens@, old(self).idx as int, depth as int) == p_chain(
                        old(self).tokens@,
                        self.idx as int,
                        depth as int,
                        expr_v(left),
                        start,
                    ),
                decreases self.tokens@.len() - self.idx,
            {
                proof {
                                    lemma_tier_not_eof(self.tokens@[self.idx as int].typ, depth as int);
                    crate::tokens::lemma_tier_bare(
                        self.tokens@[self.idx as int].typ,
                        depth as int,
                    );
                }
                let ghost iop = self.idx as int;
                let op = self.eat();
                proof {
                    crate::tokens::lemma_bare_kind_eq(old(self).tokens@[iop].typ, op.typ);
                }
                let rhs = self.parse_binop(depth + 1)?;
                left = self.node(
                    Expr::BinaryOp(
                        BinaryOp { op: Meta::new(op.typ, op.start, op.end), lhs: left, rhs },
                    ),
                    start,
                );
            }
            Ok(left)
        } else {
            self.parse_unop()
        }
    }

    /// A full expression: precedence climbing from the loosest tier.
    fn parse_expr(&mut self) -> (r: Result<Node<Expr>, Error>)
        requires
            old(self).wf(),
        ensures
            frame_expr(*old(self), *final(self)),
            match r {
                Ok(n) => final(self).idx > old(self).idx && expr_node_spans_ok(n) && p_expr(
                    old(self).tokens@,
                    old(self).idx as int,
                ) == PR::Done(expr_v(n), final(self).idx as int),
                Err(e) => p_expr(old(self).tokens@, old(self).idx as int) == PR::<ExprN>::Fail(
                    e.id,
                    e.start,
                ),
            },
        decreases old(self).tokens@.len() - old(self).idx, 12int,
    {
        self.parse_binop(0)
    }
}


/// A span from token `a`'s start to token `b`'s end runs forward.
proof fn lemma_span_from_tokens(ts: Seq<Token>, a: int, b: int)
    requires
        tokens_wf(ts),
        0 <= a <= b < ts.len(),
    ensures
        ts[a].start.idx <= ts[b].end.idx,
{
    if a < b {
        assert(ts[a].end.idx <= ts[b].start.idx);
    }
}

// Statement parsing.
impl Parser {
    /// One parameter: a name, a colon, and a type annotation.
    fn parse_param(&mut self) -> (r: Result<Node<Param>, Error>)
        requires
            old(self).wf(),
        ensures
            frame_expr(*old(self), *final(self)),
            match r {
                Ok(n) => final(self).idx > old(self).idx && param_node_spans_ok(n) && p_param(
                    old(self).tokens@,
                    old(self).idx as int,
                ) == PR::Done(param_v(n), final(self).idx as int),
                Err(e) => p_param(old(self).tokens@, old(self).idx as int) == PR::<
                    ParamN,
                >::Fail(e.id, e.start),
            },
        decreases old(self).tokens@.len() - old(self).idx, 2int,
    {
        let start = self.cur_loc();
        let name = self.parse_ident()?;
        self.expect(Type::Colon)?;
        let annot = self.parse_ident()?;
        proof {
            lemma_span_from_tokens(self.tokens@, old(self).idx as int, self.idx - 1);
        }
        Ok(self.node(Param { name, annot }, start))
    }

    /// A comma-separated parameter list with at least one entry.
    fn parse_list(&mut self) -> (r: Result<Vec<Node<Param>>, Error>)
        requires
            old(self).wf(),
        ensures
            frame_expr(*old(self), *final(self)),
            match r {
                Ok(v) => final(self).idx > old(self).idx && (forall|i: int|
                    0 <= i < v@.len() ==> param_node_spans_ok(#[trigger] v@[i])) && p_list(
                    old(self).tokens@,
                    old(self).idx as int,
                ) == PR::Done(params_v(v@), final(self).idx as int),
                Err(e) => p_list(old(self).tokens@, old(self).idx as int) == PR::<
                    Seq<ParamN>,
                >::Fail(e.id, e.start),
            },
        decreases old(self).tokens@.len() - old(self).idx, 3int,
    {
        let mut vals: Vec<Node<Param>> = Vec::new();
        let first = self.parse_param()?;
        vals.push(first);
        proof {
            assert(params_v(vals@) =~= seq![param_v(first)]);
        }
        while self.tokens[self.idx].typ.eq(&Type::Comma)
            invariant
                self.wf(),
                frame_expr(*old(self), *self),
                self.idx > old(self).idx,
                forall|i: int| 0 <= i < vals@.len() ==> param_node_spans_ok(#[trigger] vals@[i]),
                p_list(old(self).tokens@, old(self).idx as int) == p_list_chain(
                    old(self).tokens@,
                    self.idx as int,
                    params_v(vals@),
                ),
            decreases self.tokens@.len() - self.idx,
        {
            self.eat();
            let next = self.parse_param()?;
            let ghost vals0 = vals@;
            vals.push(next);
            proof {
                assert(params_v(vals@) =~= params_v(vals0).push(param_v(next)));
            }
        }
        Ok(vals)
    }

    /// A block: a brace-wrapped statement list owning a fresh child scope.
    #[verifier::rlimit(100)]
    #[verifier::spinoff_prover]
    #[verifier::loop_isolation(false)]
    fn parse_block(&mut self) -> (r: Result<Node<Block>, Error>)
        requires
            old(self).wf(),
        ensures
            frame_stmt(*old(self), *final(self)),
            match r {
                Ok(n) => {
                    &&& final(self).idx > old(self).idx
                    &&& block_node_spans_ok(n)
                    &&& block_scopes_ok(n.0.src, final(self).prog.scopes@.len() as int)
                    &&& n.0.start == old(self).tokens@[old(self).idx as int].start
                    &&& n.0.end == final(self).tokens@[final(self).idx - 1].end
                    &&& p_block(
                        old(self).tokens@,
                        old(self).idx as int,
                        old(self).top as int,
                        old(self).prog.scopes@,
                        old(self).prog.scopes.next_id,
                    ) == SR::Done(
                        block_node_v(n),
                        final(self).idx as int,
                        final(self).prog.scopes@,
                        final(self).prog.scopes.next_id,
                    )
                },
                Err(e) => p_block(
                    old(self).tokens@,
                    old(self).idx as int,
                    old(self).top as int,
                    old(self).prog.scopes@,
                    old(self).prog.scopes.next_id,
                ) == SR::<BlockN>::Fail(e.id, e.start),
            },
        decreases old(self).tokens@.len() - old(self).idx, 12int,
    {
        proof {
            reveal(p_block);
        }
        let ghost sc0 = self.prog.scopes@;
        let ghost nid0 = self.prog.scopes.next_id;
        let start = self.cur_loc();
        let top = self.top;
        let scope = self.prog.scopes.child(top);
        self.top = scope;
        let ghost sc1 = self.prog.scopes@;

        match self.expect(Type::LeftBrace) {
            Ok(_) => {},
            Err(e) => {
                self.top = top;
                return Err(e);
            },
        }
        let ghost istart = self.idx as int;
        let mut stmts: Vec<Node<Stmt>> = Vec::new();
        proof {
            assert(stmts_v(stmts@) =~= Seq::<StmtN>::empty());
        }
        while !self.tokens[self.idx].typ.eq(&Type::RightBrace)
            invariant
                self.wf(),
                self.tokens == old(self).tokens,
                self.lines == old(self).lines,
                self.prog.block == old(self).prog.block,
                old(self).prog.scopes@.len() < self.prog.scopes@.len(),
                self.idx > old(self).idx,
                self.top == scope,
                top == old(self).top,
                top < self.prog.scopes@.len(),
                scope < self.prog.scopes@.len(),
                forall|i: int| 0 <= i < stmts@.len() ==> stmt_node_spans_ok(#[trigger] stmts@[i]),
                forall|i: int|
                    0 <= i < stmts@.len() ==> stmt_node_scopes_ok(
                        #[trigger] stmts@[i],
                        self.prog.scopes@.len() as int,
                    ),
                p_block_items(
                    old(self).tokens@,
                    istart,
                    scope as int,
                    sc1,
                    nid0,
                    Seq::empty(),
                ) == p_block_items(
                    old(self).tokens@,
                    self.idx as int,
                    scope as int,
                    self.prog.scopes@,
                    self.prog.scopes.next_id,
                    stmts_v(stmts@),
                ),
            decreases self.tokens@.len() - self.idx,
        {
            proof {
                reveal(p_block_items);
            }
            if self.tokens[self.idx].typ.eq(&Type::EOF) {
                let mut m = String::from_str("Expected ");
                m.append(Type::RightBrace.name());
                m.append(", instead got ");
                m.append(self.tokens[self.idx].typ.name());
                let e = self.err(m, ErrorCode::UnexpectedToken);
                self.top = top;
                return Err(e);
            }
            if self.tt_line_ending() {
                self.eat();
                proof {
                    reveal(p_block_items);
                }
                continue;
            }
            let ghost len0 = self.prog.scopes@.len() as int;
            let ghost ipre = self.idx as int;
            let ghost scpre = self.prog.scopes@;
            let ghost nidpre = self.prog.scopes.next_id;
            match self.parse_stmt() {
                Ok(stmt) => {
                    proof {
                        reveal(p_block_items);
                        assert forall|i: int| 0 <= i < stmts@.len() implies stmt_node_scopes_ok(
                            #[trigger] stmts@[i],
                            self.prog.scopes@.len() as int,
                        ) by {
                            lemma_stmt_scopes_ok_mono(
                                stmts@[i].0.src,
                                len0,
                                self.prog.scopes@.len() as int,
                            );
                        }
                        lemma_stmts_v_push(stmts@, stmt);
                    }
                    stmts.push(stmt);
                },
                Err(e) => {
                    proof {
                        reveal(p_block_items);
                    }
                    self.top = top;
                    return Err(e);
                },
            }
        }
        match self.expect(Type::RightBrace) {
            Ok(_) => {},
            Err(e) => {
                self.top = top;
                return Err(e);
            },
        }

        self.top = top;
        proof {
            reveal(p_block_items);
            lemma_span_from_tokens(self.tokens@, old(self).idx as int, self.idx - 1);
        }
        let n = self.node(Block { stmts, scope }, start);
        Ok(n)
    }

    /// A nested block as a statement.
    #[verifier::rlimit(100)]
    #[verifier::spinoff_prover]
    fn parse_block_stmt(&mut self) -> (r: Result<Node<Stmt>, Error>)
        requires
            old(self).wf(),
        ensures
            frame_stmt(*old(self), *final(self)),
            match r {
                Ok(n) => {
                    &&& final(self).idx > old(self).idx
                    &&& stmt_node_spans_ok(n)
                    &&& stmt_node_scopes_ok(n, final(self).prog.scopes@.len() as int)
                    &&& n.0.start == old(self).tokens@[old(self).idx as int].start
                    &&& n.0.end == final(self).tokens@[final(self).idx - 1].end
                    &&& p_block_stmt(
                        old(self).tokens@,
                        old(self).idx as int,
                        old(self).top as int,
                        old(self).prog.scopes@,
                        old(self).prog.scopes.next_id,
                    ) == SR::Done(
                        stmt_v(n),
                        final(self).idx as int,
                        final(self).prog.scopes@,
                        final(self).prog.scopes.next_id,
                    )
                },
                Err(e) => p_block_stmt(
                        old(self).tokens@,
                        old(self).idx as int,
                        old(self).top as int,
                        old(self).prog.scopes@,
                        old(self).prog.scopes.next_id,
                    ) == SR::<StmtN>::Fail(e.id, e.start),
            },
        decreases old(self).tokens@.len() - old(self).idx, 13int,
    {
        proof {
            reveal(p_block_stmt);
        }
        let start = self.cur_loc();
        let block = self.parse_block()?;
        proof {
            lemma_span_from_tokens(self.tokens@, old(self).idx as int, self.idx - 1);
        }
        Ok(self.node(Stmt::Block(block.0.src), start))
    }

    /// A declaration: `let`, a fresh name, an optional annotation, `=`,
    /// and an initializer; the name is declared (untyped) in the current
    /// scope.
    #[verifier::rlimit(100)]
    #[verifier::spinoff_prover]
    fn parse_decl(&mut self) -> (r: Result<Node<Stmt>, Error>)
        requires
            old(self).wf(),
            old(self).tokens@[old(self).idx as int].typ.same_kind(&Type::Let),
        ensures
            frame_stmt(*old(self), *final(self)),
            match r {
                Ok(n) => {
                    &&& final(self).idx > old(self).idx
                    &&& stmt_node_spans_ok(n)
                    &&& stmt_node_scopes_ok(n, final(self).prog.scopes@.len() as int)
                    &&& n.0.start == old(self).tokens@[old(self).idx as int].start
                    &&& n.0.end == final(self).tokens@[final(self).idx - 1].end
                    &&& p_decl(
                        old(self).tokens@,
                        old(self).idx as int,
                        old(self).top as int,
                        old(self).prog.scopes@,
                        old(self).prog.scopes.next_id,
                    ) == SR::Done(
                        stmt_v(n),
                        final(self).idx as int,
                        final(self).prog.scopes@,
                        final(self).prog.scopes.next_id,
                    )
                },
                Err(e) => p_decl(
                        old(self).tokens@,
                        old(self).idx as int,
                        old(self).top as int,
                        old(self).prog.scopes@,
                        old(self).prog.scopes.next_id,
                    ) == SR::<StmtN>::Fail(e.id, e.start),
            },
        decreases old(self).tokens@.len() - old(self).idx, 13int,
    {
        proof {
            reveal(p_decl);
            reveal(p_decl_tail);
        }
        let start = self.cur_loc();
        self.eat();
        let ident = self.parse_ident()?;

        let annotation: Option<Node<Ident>> = if self.tokens[self.idx].typ.eq(&Type::Colon) {
            self.eat();
            Some(self.parse_ident()?)
        } else {
            None
        };

        self.expect(Type::Assignment)?;
        let value = self.parse_expr()?;

        let name = ident.0.src.name.clone();
        self.prog.scopes.declare(self.top, name);

        proof {
            lemma_span_from_tokens(self.tokens@, old(self).idx as int, self.idx - 1);
        }
        Ok(self.node(Stmt::Decl(Decl { name: ident, annot: annotation, val: value }), start))
    }

    /// An assignment: a name, an optional compound operator, `=`, and a
    /// value. The binding is not looked up at parse time.
    #[verifier::rlimit(100)]
    #[verifier::spinoff_prover]
    fn parse_assign(&mut self) -> (r: Result<Node<Stmt>, Error>)
        requires
            old(self).wf(),
        ensures
            frame_stmt(*old(self), *final(self)),
            match r {
                Ok(n) => {
                    &&& final(self).idx > old(self).idx
                    &&& stmt_node_spans_ok(n)
                    &&& stmt_node_scopes_ok(n, final(self).prog.scopes@.len() as int)
                    &&& n.0.start == old(self).tokens@[old(self).idx as int].start
                    &&& n.0.end == final(self).tokens@[final(self).idx - 1].end
                    &&& p_assign(
                        old(self).tokens@,
                        old(self).idx as int,
                        old(self).prog.scopes@,
                        old(self).prog.scopes.next_id,
                    ) == SR::Done(
                        stmt_v(n),
                        final(self).idx as int,
                        final(self).prog.scopes@,
                        final(self).prog.scopes.next_id,
                    )
                },
                Err(e) => p_assign(
                        old(self).tokens@,
                        old(self).idx as int,
                        old(self).prog.scopes@,
                        old(self).prog.scopes.next_id,
                    ) == SR::<StmtN>::Fail(e.id, e.start),
            },
        decreases old(self).tokens@.len() - old(self).idx, 13int,
    {
        proof {
            reveal(p_assign);
        }
        let start = self.cur_loc();
        let name = self.parse_ident()?;

        let tiers = binary_operator_tiers();
        let ghost snap = *self;
        let mut has_op = false;
        let mut k: usize = 0;
        while k < tiers.len()
            invariant
                *self == snap,
                self.wf(),
                tiers@.len() == 7,
                forall|t: int|
                    0 <= t < 7 ==> #[trigger] tiers@[t]@ == spec_binary_operator_tiers()[t],
                k <= 7,
                has_op <==> exists|t: int|
                    0 <= t < k && self.tokens@[self.idx as int].typ.spec_is(
                        #[trigger] spec_binary_operator_tiers()[t],
                    ),
            decreases tiers@.len() - k,
        {
            if self.tokens[self.idx].typ.is(&tiers[k]) {
                has_op = true;
            }
            k = k + 1;
        }
        proof {
            assert(has_op == in_any_tier(self.tokens@[self.idx as int].typ));
        }

        let op: Option<Meta<Type>> = if has_op {
            proof {
                let t = choose|t: int|
                    0 <= t < 7 && self.tokens@[self.idx as int].typ.spec_is(
                        #[trigger] spec_binary_operator_tiers()[t],
                    );
                lemma_tier_not_eof(self.tokens@[self.idx as int].typ, t);
                crate::tokens::lemma_tier_bare(self.tokens@[self.idx as int].typ, t);
            }
            let ghost iop = self.idx as int;
            let tok = self.eat();
            proof {
                crate::tokens::lemma_bare_kind_eq(old(self).tokens@[iop].typ, tok.typ);
            }
            Some(Meta::new(tok.typ, tok.start, tok.end))
        } else {
            None
        };

        self.expect(Type::Assignment)?;
        let val = self.parse_expr()?;

        proof {
            lemma_span_from_tokens(self.tokens@, old(self).idx as int, self.idx - 1);
        }
        Ok(self.node(Stmt::Assign(Assign { name, op, val }), start))
    }

    /// An `if`: keyword, condition, block.
    #[verifier::rlimit(100)]
    #[verifier::spinoff_prover]
    fn parse_if_stmt(&mut self) -> (r: Result<Node<Stmt>, Error>)
        requires
            old(self).wf(),
            old(self).tokens@[old(self).idx as int].typ.same_kind(&Type::If),
        ensures
            frame_stmt(*old(self), *final(self)),
            match r {
                Ok(n) => {
                    &&& final(self).idx > old(self).idx
                    &&& stmt_node_spans_ok(n)
                    &&& stmt_node_scopes_ok(n, final(self).prog.scopes@.len() as int)
                    &&& n.0.start == old(self).tokens@[old(self).idx as int].start
                    &&& n.0.end == final(self).tokens@[final(self).idx - 1].end
                    &&& p_if(
                        old(self).tokens@,
                        old(self).idx as int,
                        old(self).top as int,
                        old(self).prog.scopes@,
                        old(self).prog.scopes.next_id,
                    ) == SR::Done(
                        stmt_v(n),
                        final(self).idx as int,
                        final(self).prog.scopes@,
                        final(self).prog.scopes.next_id,
                    )
                },
                Err(e) => p_if(
                        old(self).tokens@,
                        old(self).idx as int,
                        old(self).top as int,
                        old(self).prog.scopes@,
                        old(self).prog.scopes.next_id,
                    ) == SR::<StmtN>::Fail(e.id, e.start),
            },
        decreases old(self).tokens@.len() - old(self).idx, 13int,
    {
        proof {
            reveal(p_if);
        }
        let start = self.cur_loc();
        self.eat();
        let cond = self.parse_expr()?;
        let body = self.parse_block()?;
        proof {
            lemma_span_from_tokens(self.tokens@, old(self).idx as int, self.idx - 1);
        }
        Ok(self.node(Stmt::IfStmt(IfStmt { cond, body }), start))
    }

    /// A `while` loop: keyword, condition, block.
    #[verifier::rlimit(100)]
    #[verifier::spinoff_prover]
    fn parse_while_loop(&mut self) -> (r: Result<Node<Stmt>, Error>)
        requires
            old(self).wf(),
            old(self).tokens@[old(self).idx as int].typ.same_kind(&Type::While),
        ensures
            frame_stmt(*old(self), *final(self)),
            match r {
                Ok(n) => {
                    &&& final(self).idx > old(self).idx
                    &&& stmt_node_spans_ok(n)
                    &&& stmt_node_scopes_ok(n, final(self).prog.scopes@.len() as int)
                    &&& n.0.start == old(self).tokens@[old(self).idx as int].start
                    &&& n.0.end == final(self).tokens@[final(self).idx - 1].end
                    &&& p_while(
                        old(self).tokens@,
                        old(self).idx as int,
                        old(self).top as int,
                        old(self).prog.scopes@,
                        old(self).prog.scopes.next_id,
                    ) == SR::Done(
                        stmt_v(n),
                        final(self).idx as int,
                        final(self).prog.scopes@,
                        final(self).prog.scopes.next_id,
                    )
                },
                Err(e) => p_while(
                        old(self).tokens@,
                        old(self).idx as int,
                        old(self).top as int,
                        old(self).prog.scopes@,
                        old(self).prog.scopes.next_id,
                    ) == SR::<StmtN>::Fail(e.id, e.start),
            },
        decreases old(self).tokens@.len() - old(self).idx, 13int,
    {
        proof {
            reveal(p_while);
        }
        let start = self.cur_loc();
        self.eat();
        let cond = self.parse_expr()?;
        let body = self.parse_block()?;
        proof {
            lemma_span_from_tokens(self.tokens@, old(self).idx as int, self.idx - 1);
        }
        Ok(self.node(Stmt::WhileLoop(WhileLoop { cond, body }), start))
    }

    /// A `do`/`while` loop: keyword, block, `while`, condition — the
    /// condition follows the body.
    #[verifier::rlimit(100)]
    #[verifier::spinoff_prover]
    fn parse_do_while_loop(&mut self) -> (r: Result<Node<Stmt>, Error>)
        requires
            old(self).wf(),
            old(self).tokens@[old(self).idx as int].typ.same_kind(&Type::Do),
        ensures
            frame_stmt(*old(self), *final(self)),
            match r {
                Ok(n) => {
                    &&& final(self).idx > old(self).idx
                    &&& stmt_node_spans_ok(n)
                    &&& stmt_node_scopes_ok(n, final(self).prog.scopes@.len() as int)
                    &&& n.0.start == old(self).tokens@[old(self).idx as int].start
                    &&& n.0.end == final(self).tokens@[final(self).idx - 1].end
                    &&& p_dowhile(
                        old(self).tokens@,
                        old(self).idx as int,
                        old(self).top as int,
                        old(self).prog.scopes@,
                        old(self).prog.scopes.next_id,
                    ) == SR::Done(
                        stmt_v(n),
                        final(self).idx as int,
                        final(self).prog.scopes@,
                        final(self).prog.scopes.next_id,
                    )
                },
                Err(e) => p_dowhile(
                        old(self).tokens@,
                        old(self).idx as int,
                        old(self).top as int,
                        old(self).prog.scopes@,
                        old(self).prog.scopes.next_id,
                    ) == SR::<StmtN>::Fail(e.id, e.start),
            },
        decreases old(self).tokens@.len() - old(self).idx, 13int,
    {
        proof {
            reveal(p_dowhile);
        }
        let start = self.cur_loc();
        self.eat();
        let body = self.parse_block()?;
        self.expect(Type::While)?;
        let cond = self.parse_expr()?;
        proof {
            lemma_span_from_tokens(self.tokens@, old(self).idx as int, self.idx - 1);
        }
        Ok(self.node(Stmt::DoWhileLoop(DoWhileLoop { body, cond }), start))
    }

    /// A bare `continue`.
    fn parse_continue(&mut self) -> (r: Result<Node<Stmt>, Error>)
        requires
            old(self).wf(),
        ensures
            frame_stmt(*old(self), *final(self)),
            match r {
                Ok(n) => {
                    &&& final(self).idx > old(self).idx
                    &&& stmt_node_spans_ok(n)
                    &&& stmt_node_scopes_ok(n, final(self).prog.scopes@.len() as int)
                    &&& n.0.start == old(self).tokens@[old(self).idx as int].start
                    &&& n.0.end == final(self).tokens@[final(self).idx - 1].end
                    &&& p_continue(
                        old(self).tokens@,
                        old(self).idx as int,
                        old(self).prog.scopes@,
                        old(self).prog.scopes.next_id,
                    ) == SR::Done(
                        stmt_v(n),
                        final(self).idx as int,
                        final(self).prog.scopes@,
                        final(self).prog.scopes.next_id,
                    )
                },
                Err(e) => p_continue(
                        old(self).tokens@,
                        old(self).idx as int,
                        old(self).prog.scopes@,
                        old(self).prog.scopes.next_id,
                    ) == SR::<StmtN>::Fail(e.id, e.start),
            },
        decreases old(self).tokens@.len() - old(self).idx, 13int,
    {
        proof {
            reveal(p_continue);
        }
        let start = self.cur_loc();
        self.expect(Type::Continue)?;
        Ok(self.node(Stmt::Continue, start))
    }

    /// A `return`, with a value unless the statement ends at once.
    #[verifier::rlimit(100)]
    #[verifier::spinoff_prover]
    fn parse_return(&mut self) -> (r: Result<Node<Stmt>, Error>)
        requires
            old(self).wf(),
            old(self).tokens@[old(self).idx as int].typ.same_kind(&Type::Return),
        ensures
            frame_stmt(*old(self), *final(self)),
            match r {
                Ok(n) => {
                    &&& final(self).idx > old(self).idx
                    &&& stmt_node_spans_ok(n)
                    &&& stmt_node_scopes_ok(n, final(self).prog.scopes@.len() as int)
                    &&& n.0.start == old(self).tokens@[old(self).idx as int].start
                    &&& n.0.end == final(self).tokens@[final(self).idx - 1].end
                    &&& p_return(
                        old(self).tokens@,
                        old(self).idx as int,
                        old(self).prog.scopes@,
                        old(self).prog.scopes.next_id,
                    ) == SR::Done(
                        stmt_v(n),
                        final(self).idx as int,
                        final(self).prog.scopes@,
                        final(self).prog.scopes.next_id,
                    )
                },
                Err(e) => p_return(
                        old(self).tokens@,
                        old(self).idx as int,
                        old(self).prog.scopes@,
                        old(self).prog.scopes.next_id,
                    ) == SR::<StmtN>::Fail(e.id, e.start),
            },
        decreases old(self).tokens@.len() - old(self).idx, 13int,
    {
        proof {
            reveal(p_return);
        }
        let start = self.cur_loc();
        self.eat();
        let val: Option<Node<Expr>> = if self.tt_line_ending() {
            None
        } else {
            Some(self.parse_expr()?)
        };
        proof {
            lemma_span_from_tokens(self.tokens@, old(self).idx as int, self.idx - 1);
        }
        Ok(self.node(Stmt::Return(Return { val }), start))
    }

    /// A function definition: keyword, name, parenthesized parameters,
    /// optional return annotation, body block.
    #[verifier::rlimit(100)]
    #[verifier::spinoff_prover]
    fn parse_func(&mut self) -> (r: Result<Node<Stmt>, Error>)
        requires
            old(self).wf(),
            old(self).tokens@[old(self).idx as int].typ.same_kind(&Type::Function),
        ensures
            frame_stmt(*old(self), *final(self)),
            match r {
                Ok(n) => {
                    &&& final(self).idx > old(self).idx
                    &&& stmt_node_spans_ok(n)
                    &&& stmt_node_scopes_ok(n, final(self).prog.scopes@.len() as int)
                    &&& n.0.start == old(self).tokens@[old(self).idx as int].start
                    &&& n.0.end == final(self).tokens@[final(self).idx - 1].end
                    &&& p_func(
                        old(self).tokens@,
                        old(self).idx as int,
                        old(self).top as int,
                        old(self).prog.scopes@,
                        old(self).prog.scopes.next_id,
                    ) == SR::Done(
                        stmt_v(n),
                        final(self).idx as int,
                        final(self).prog.scopes@,
                        final(self).prog.scopes.next_id,
                    )
                },
                Err(e) => p_func(
                        old(self).tokens@,
                        old(self).idx as int,
                        old(self).top as int,
                        old(self).prog.scopes@,
                        old(self).prog.scopes.next_id,
                    ) == SR::<StmtN>::Fail(e.id, e.start),
            },
        decreases old(self).tokens@.len() - old(self).idx, 13int,
    {
        proof {
            reveal(p_func);
            reveal(p_func_body);
        }
        let start = self.cur_loc();
        self.eat();
        let name = self.parse_ident()?;

        self.expect(Type::LeftParen)?;
        let args: Vec<Node<Param>> = if self.tokens[self.idx].typ.eq(&Type::RightParen) {
            Vec::new()
        } else {
            self.parse_list()?
        };
        proof {
            assert(params_v(Seq::<Node<Param>>::empty()) =~= Seq::<ParamN>::empty());
        }
        self.expect(Type::RightParen)?;

        let ret: Option<Node<Ident>> = if self.tokens[self.idx].typ.eq(&Type::Colon) {
            self.eat();
            Some(self.parse_ident()?)
        } else {
            None
        };

        let body = self.parse_block()?;
        proof {
            lemma_span_from_tokens(self.tokens@, old(self).idx as int, self.idx - 1);
        }
        Ok(self.node(Stmt::Func(Func { name, args, ret, body }), start))
    }

    /// One statement: the current token's kind selects exactly one
    /// production; any other leading token is an invalid statement.
    #[verifier::rlimit(100)]
    #[verifier::spinoff_prover]
    fn parse_stmt(&mut self) -> (r: Result<Node<Stmt>, Error>)
        requires
            old(self).wf(),
        ensures
            frame_stmt(*old(self), *final(self)),
            match r {
                Ok(n) => {
                    &&& final(self).idx > old(self).idx
                    &&& stmt_node_spans_ok(n)
                    &&& stmt_node_scopes_ok(n, final(self).prog.scopes@.len() as int)
                    &&& n.0.start == old(self).tokens@[old(self).idx as int].start
                    &&& n.0.end == final(self).tokens@[final(self).idx - 1].end
                    &&& p_stmt(
                        old(self).tokens@,
                        old(self).idx as int,
                        old(self).top as int,
                        old(self).prog.scopes@,
                        old(self).prog.scopes.next_id,
                    ) == SR::Done(
                        stmt_v(n),
                        final(self).idx as int,
                        final(self).prog.scopes@,
                        final(self).prog.scopes.next_id,
                    )
                },
                Err(e) => p_stmt(
                        old(self).tokens@,
                        old(self).idx as int,
                        old(self).top as int,
                        old(self).prog.scopes@,
                        old(self).prog.scopes.next_id,
                    ) == SR::<StmtN>::Fail(e.id, e.start),
            },
        decreases old(self).tokens@.len() - old(self).idx, 14int,
    {
        proof {
            reveal(p_stmt);
        }
        let tag = self.tokens[self.idx].typ.tag();
        if tag == 0 {
            self.parse_assign()
        } else if tag == 10 {
            self.parse_block_stmt()
        } else if tag == 38 {
            self.parse_decl()
        } else if tag == 40 {
            self.parse_if_stmt()
        } else if tag == 42 {
            self.parse_while_loop()
        } else if tag == 43 {
            self.parse_do_while_loop()
        } else if tag == 45 {
            self.parse_continue()
        } else if tag == 46 {
            self.parse_return()
        } else if tag == 48 {
            self.parse_func()
        } else {
            Err(self.err(String::from_str("Invalid statement"), ErrorCode::InvalidStatement))
        }
    }

    /// Parse the whole token sequence into the program's top-level block,
    /// skipping statement separators, until the end of the stream.
    #[verifier::rlimit(100)]
    #[verifier::spinoff_prover]
    pub fn parse(&mut self) -> (r: Result<(), Error>)
        requires
            old(self).wf(),
            old(self).top == old(self).prog.block.scope,
            block_scopes_ok(old(self).prog.block, old(self).prog.scopes@.len() as int),
            block_spans_ok(old(self).prog.block),
            stmts_within(stmts_v(old(self).prog.block.stmts@), last_end(old(self).tokens@)),
        ensures
            final(self).wf(),
            final(self).tokens == old(self).tokens,
            final(self).lines == old(self).lines,
            match r {
                Ok(_) => {
                    &&& block_spans_ok(final(self).prog.block)
                    &&& block_scopes_ok(
                        final(self).prog.block,
                        final(self).prog.scopes@.len() as int,
                    )
                    &&& stmts_within(
                        stmts_v(final(self).prog.block.stmts@),
                        last_end(final(self).tokens@),
                    )
                    &&& p_program(
                        old(self).tokens@,
                        old(self).idx as int,
                        old(self).top as int,
                        old(self).prog.scopes@,
                        old(self).prog.scopes.next_id,
                        stmts_v(old(self).prog.block.stmts@),
                    ) == SR::Done(
                        stmts_v(final(self).prog.block.stmts@),
                        final(self).idx as int,
                        final(self).prog.scopes@,
                        final(self).prog.scopes.next_id,
                    )
                    &&& final(self).prog.block.scope == old(self).prog.block.scope
                },
                Err(e) => p_program(
                    old(self).tokens@,
                    old(self).idx as int,
                    old(self).top as int,
                    old(self).prog.scopes@,
                    old(self).prog.scopes.next_id,
                    stmts_v(old(self).prog.block.stmts@),
                ) == SR::<Seq<StmtN>>::Fail(e.id, e.start),
            },
    {
        let ghost ts = self.tokens@;
        let ghost i0 = self.idx as int;
        let ghost top0 = self.top as int;
        let ghost sc0 = self.prog.scopes@;
        let ghost nid0 = self.prog.scopes.next_id;
        let ghost acc0 = stmts_v(self.prog.block.stmts@);
        while !self.tokens[self.idx].typ.eq(&Type::EOF)
            invariant
                self.wf(),
                self.tokens == old(self).tokens,
                self.lines == old(self).lines,
                self.top == self.prog.block.scope,
                self.top == old(self).top,
                self.prog.block.scope == old(self).prog.block.scope,
                block_scopes_ok(self.prog.block, self.prog.scopes@.len() as int),
                block_spans_ok(self.prog.block),
                ts == old(self).tokens@,
                i0 == old(self).idx as int,
                top0 == old(self).top as int,
                sc0 == old(self).prog.scopes@,
                nid0 == old(self).prog.scopes.next_id,
                acc0 == stmts_v(old(self).prog.block.stmts@),
                p_program(ts, i0, top0, sc0, nid0, acc0) == p_program(
                    ts,
                    self.idx as int,
                    top0,
                    self.prog.scopes@,
                    self.prog.scopes.next_id,
                    stmts_v(self.prog.block.stmts@),
                ),
            decreases self.tokens@.len() - self.idx,
        {
            if self.tt_line_ending() {
                self.eat();
                proof {
                    reveal(p_program);
                }
                continue;
            }

            let ghost len0 = self.prog.scopes@.len() as int;
            let ghost block0 = self.prog.block;
            let stmt = match self.parse_stmt() {
                Ok(stmt) => stmt,
                Err(e) => {
                    proof {
                        reveal(p_program);
                    }
                    return Err(e);
                },
            };
            proof {
                reveal(p_program);
                assert forall|i: int|
                    0 <= i < self.prog.block.stmts@.len() implies stmt_node_scopes_ok(
                    #[trigger] self.prog.block.stmts@[i],
                    self.prog.scopes@.len() as int,
                ) by {
                    lemma_stmt_scopes_ok_mono(
                        self.prog.block.stmts@[i].0.src,
                        len0,
                        self.prog.scopes@.len() as int,
                    );
                }
                lemma_stmts_v_push(self.prog.block.stmts@, stmt);
            }
            self.prog.block.stmts.push(stmt);
        }
        proof {
            reveal(p_program);
            lemma_p_program_within(ts, i0, top0, sc0, nid0, acc0);
        }
        Ok(())
    }
}

} // verus!
