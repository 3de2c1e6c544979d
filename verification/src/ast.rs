//! The syntax tree: every statement and expression is a payload wrapped in
//! a `Meta` record carrying the source span and the resolved-type slot the
//! checker fills in. Span well-formedness (`start` never past `end`, at
//! every node of a tree) is stated here and guaranteed by the parser.

use vstd::prelude::*;

use crate::location::Location;
use crate::tokens::Type;
use crate::types::DataType;

verus! {

/// The wrapper every syntax node shares: payload, source span, and the
/// resolved-type slot, which starts empty and is written (for expression
/// nodes) exactly once, by the checker.
#[derive(Debug)]
pub struct Meta<T> {
    pub src: T,
    pub start: Location,
    pub end: Location,
    pub typ: Option<DataType>,
}

impl<T> Meta<T> {
    pub fn new(src: T, start: Location, end: Location) -> (m: Meta<T>)
        ensures
            m.src == src,
            m.start == start,
            m.end == end,
            m.typ is None,
    {
        Meta { src, start, end, typ: None }
    }
}

/// A boxed syntax node.
#[derive(Debug)]
pub struct Node<T>(pub Box<Meta<T>>);

impl<T> Node<T> {
    pub fn new(src: T, start: Location, end: Location) -> (n: Node<T>)
        ensures
            n.0.src == src,
            n.0.start == start,
            n.0.end == end,
            n.0.typ is None,
    {
        Node(Box::new(Meta::new(src, start, end)))
    }
}

/// An identifier occurrence.
#[derive(Debug)]
pub struct Ident {
    pub name: String,
}

/// A numeric literal, carrying its source text.
#[derive(Debug)]
pub struct NumLit {
    pub val: String,
}

/// A boolean literal.
#[derive(Debug)]
pub struct BoolLit {
    pub val: bool,
}

/// A binary operation: the operator token's kind and span, and the two
/// operands.
#[derive(Debug)]
pub struct BinaryOp {
    pub op: Meta<Type>,
    pub lhs: Node<Expr>,
    pub rhs: Node<Expr>,
}

/// A prefix unary operation.
#[derive(Debug)]
pub struct UnaryOp {
    pub op: Meta<Type>,
    pub val: Node<Expr>,
}

/// An expression payload.
#[derive(Debug)]
pub enum Expr {
    Ident(Ident),
    NumLit(NumLit),
    BoolLit(BoolLit),
    BinaryOp(BinaryOp),
    UnaryOp(UnaryOp),
}

/// A function parameter: its name and its (mandatory) type annotation.
#[derive(Debug)]
pub struct Param {
    pub name: Node<Ident>,
    pub annot: Node<Ident>,
}

/// A block: its statements in order, and the id of the scope it owns in
/// the parse's scope arena.
#[derive(Debug)]
pub struct Block {
    pub stmts: Vec<Node<Stmt>>,
    pub scope: usize,
}

/// A `let` declaration: name, optional type annotation, initializer.
#[derive(Debug)]
pub struct Decl {
    pub name: Node<Ident>,
    pub annot: Option<Node<Ident>>,
    pub val: Node<Expr>,
}

/// An assignment: target name, optional compound operator, value.
#[derive(Debug)]
pub struct Assign {
    pub name: Node<Ident>,
    pub op: Option<Meta<Type>>,
    pub val: Node<Expr>,
}

/// An `if`: condition, then body block.
#[derive(Debug)]
pub struct IfStmt {
    pub cond: Node<Expr>,
    pub body: Node<Block>,
}

/// A `while` loop: condition first, then body.
#[derive(Debug)]
pub struct WhileLoop {
    pub cond: Node<Expr>,
    pub body: Node<Block>,
}

/// A `do`/`while` loop: body first, then condition, mirroring grammar
/// order.
#[derive(Debug)]
pub struct DoWhileLoop {
    pub body: Node<Block>,
    pub cond: Node<Expr>,
}

/// A function definition: name, parameters, optional return-type
/// annotation, body.
#[derive(Debug)]
pub struct Func {
    pub name: Node<Ident>,
    pub args: Vec<Node<Param>>,
    pub ret: Option<Node<Ident>>,
    pub body: Node<Block>,
}

/// A `return`, with or without a value.
#[derive(Debug)]
pub struct Return {
    pub val: Option<Node<Expr>>,
}

/// A statement payload.
#[derive(Debug)]
pub enum Stmt {
    Block(Block),
    Decl(Decl),
    Assign(Assign),
    IfStmt(IfStmt),
    WhileLoop(WhileLoop),
    DoWhileLoop(DoWhileLoop),
    Func(Func),
    Continue,
    Return(Return),
}

/// A span runs forward: its start offset never exceeds its end offset.
pub open spec fn span_ok<T>(m: Meta<T>) -> bool {
    m.start.idx <= m.end.idx
}

/// Span well-formedness of an expression node and everything under it.
pub open spec fn expr_node_spans_ok(n: Node<Expr>) -> bool
    decreases n,
{
    span_ok(*n.0) && expr_spans_ok(n.0.src)
}

/// Span well-formedness of an expression payload's children.
pub open spec fn expr_spans_ok(e: Expr) -> bool
    decreases e,
{
    match e {
        Expr::Ident(_) => true,
        Expr::NumLit(_) => true,
        Expr::BoolLit(_) => true,
        Expr::BinaryOp(b) => span_ok(b.op) && expr_node_spans_ok(b.lhs) && expr_node_spans_ok(
            b.rhs,
        ),
        Expr::UnaryOp(u) => span_ok(u.op) && expr_node_spans_ok(u.val),
    }
}

/// Span well-formedness of an identifier node.
pub open spec fn ident_node_spans_ok(n: Node<Ident>) -> bool {
    span_ok(*n.0)
}

/// Span well-formedness of a parameter node and its two identifiers.
pub open spec fn param_node_spans_ok(n: Node<Param>) -> bool {
    span_ok(*n.0) && ident_node_spans_ok(n.0.src.name) && ident_node_spans_ok(n.0.src.annot)
}

/// Span well-formedness of a statement node and everything under it.
pub open spec fn stmt_node_spans_ok(n: Node<Stmt>) -> bool
    decreases n,
{
    span_ok(*n.0) && stmt_spans_ok(n.0.src)
}

/// Span well-formedness of a block's statements.
pub open spec fn block_spans_ok(b: Block) -> bool
    decreases b,
{
    forall|i: int| 0 <= i < b.stmts@.len() ==> stmt_node_spans_ok(#[trigger] b.stmts@[i])
}

/// Span well-formedness of a block node and everything under it.
pub open spec fn block_node_spans_ok(n: Node<Block>) -> bool
    decreases n,
{
    span_ok(*n.0) && block_spans_ok(n.0.src)
}

/// Span well-formedness of a statement payload's children.
pub open spec fn stmt_spans_ok(s: Stmt) -> bool
    decreases s,
{
    match s {
        Stmt::Block(b) => block_spans_ok(b),
        Stmt::Decl(d) => ident_node_spans_ok(d.name) && (match d.annot {
            Some(a) => ident_node_spans_ok(a),
            None => true,
        }) && expr_node_spans_ok(d.val),
        Stmt::Assign(a) => ident_node_spans_ok(a.name) && (match a.op {
            Some(op) => span_ok(op),
            None => true,
        }) && expr_node_spans_ok(a.val),
        Stmt::IfStmt(i) => expr_node_spans_ok(i.cond) && block_node_spans_ok(i.body),
        Stmt::WhileLoop(w) => expr_node_spans_ok(w.cond) && block_node_spans_ok(w.body),
        Stmt::DoWhileLoop(d) => block_node_spans_ok(d.body) && expr_node_spans_ok(d.cond),
        Stmt::Func(f) => ident_node_spans_ok(f.name) && (forall|i: int|
            0 <= i < f.args@.len() ==> param_node_spans_ok(#[trigger] f.args@[i])) && (match f.ret {
            Some(r) => ident_node_spans_ok(r),
            None => true,
        }) && block_node_spans_ok(f.body),
        Stmt::Continue => true,
        Stmt::Return(r) => match r.val {
            Some(v) => expr_node_spans_ok(v),
            None => true,
        },
    }
}

/// Every scope id in the block and below refers into an arena of `n`
/// scopes.
pub open spec fn block_scopes_ok(b: Block, n: int) -> bool
    decreases b,
{
    b.scope < n && forall|i: int|
        0 <= i < b.stmts@.len() ==> stmt_node_scopes_ok(#[trigger] b.stmts@[i], n)
}

/// Every scope id in the statement node and below refers into an arena of
/// `n` scopes.
pub open spec fn stmt_node_scopes_ok(s: Node<Stmt>, n: int) -> bool
    decreases s,
{
    stmt_scopes_ok(s.0.src, n)
}

/// Every scope id under the statement payload refers into an arena of `n`
/// scopes.
pub open spec fn stmt_scopes_ok(s: Stmt, n: int) -> bool
    decreases s,
{
    match s {
        Stmt::Block(b) => block_scopes_ok(b, n),
        Stmt::IfStmt(i) => block_scopes_ok(i.body.0.src, n),
        Stmt::WhileLoop(w) => block_scopes_ok(w.body.0.src, n),
        Stmt::DoWhileLoop(d) => block_scopes_ok(d.body.0.src, n),
        Stmt::Func(f) => block_scopes_ok(f.body.0.src, n),
        _ => true,
    }
}

/// Scope ids valid against `n` scopes stay valid as the arena grows.
pub proof fn lemma_block_scopes_ok_mono(b: Block, n: int, m: int)
    requires
        block_scopes_ok(b, n),
        n <= m,
    ensures
        block_scopes_ok(b, m),
    decreases b,
{
    assert forall|i: int| 0 <= i < b.stmts@.len() implies stmt_node_scopes_ok(
        #[trigger] b.stmts@[i],
        m,
    ) by {
        lemma_stmt_scopes_ok_mono(b.stmts@[i].0.src, n, m);
    }
}

/// Scope ids valid against `n` scopes stay valid as the arena grows.
pub proof fn lemma_stmt_scopes_ok_mono(s: Stmt, n: int, m: int)
    requires
        stmt_scopes_ok(s, n),
        n <= m,
    ensures
        stmt_scopes_ok(s, m),
    decreases s,
{
    match s {
        Stmt::Block(b) => lemma_block_scopes_ok_mono(b, n, m),
        Stmt::IfStmt(i) => lemma_block_scopes_ok_mono(i.body.0.src, n, m),
        Stmt::WhileLoop(w) => lemma_block_scopes_ok_mono(w.body.0.src, n, m),
        Stmt::DoWhileLoop(d) => lemma_block_scopes_ok_mono(d.body.0.src, n, m),
        Stmt::Func(f) => lemma_block_scopes_ok_mono(f.body.0.src, n, m),
        _ => {},
    }
}

/// A structural size for statement nodes, used as a termination measure
/// when walking trees whose children sit in vectors.
pub open spec fn stmt_node_size(s: Node<Stmt>) -> nat
    decreases s,
{
    1 + stmt_size(s.0.src)
}

/// A structural size for statement payloads.
pub open spec fn stmt_size(s: Stmt) -> nat
    decreases s,
{
    match s {
        Stmt::Block(b) => 1 + block_size(b),
        Stmt::IfStmt(i) => 1 + block_size(i.body.0.src),
        Stmt::WhileLoop(w) => 1 + block_size(w.body.0.src),
        Stmt::DoWhileLoop(d) => 1 + block_size(d.body.0.src),
        Stmt::Func(f) => 1 + block_size(f.body.0.src),
        _ => 1,
    }
}

/// A structural size for blocks.
pub open spec fn block_size(b: Block) -> nat
    decreases b,
{
    1 + stmts_size(b.stmts@)
}

/// A structural size for statement lists.
pub open spec fn stmts_size(ss: Seq<Node<Stmt>>) -> nat
    decreases ss,
{
    if ss.len() == 0 {
        0
    } else {
        stmt_node_size(ss[0]) + stmts_size(ss.subrange(1, ss.len() as int))
    }
}

/// Each statement of a list weighs no more than the whole list.
pub proof fn lemma_stmts_size_elem(ss: Seq<Node<Stmt>>, i: int)
    requires
        0 <= i < ss.len(),
    ensures
        stmt_node_size(ss[i]) <= stmts_size(ss),
    decreases ss.len(),
{
    if i > 0 {
        lemma_stmts_size_elem(ss.subrange(1, ss.len() as int), i - 1);
        assert(ss.subrange(1, ss.len() as int)[i - 1] == ss[i]);
    }
}


/// The mathematical shape of an identifier node: its text and its span.
/// The resolved-type slot is carried too: the parser leaves it empty and
/// the checker never writes identifier nodes.
#[verifier::ext_equal]
pub struct IdentN {
    pub name: Seq<char>,
    pub start: Location,
    pub end: Location,
    pub typ: Option<DataType>,
}

/// The mathematical shape of an expression node: payload, span. The
/// resolved-type slot is deliberately absent: it is the one field the
/// checker writes, so two nodes with equal shape differ at most there.
#[verifier::ext_equal]
pub struct ExprN {
    pub src: ExprT,
    pub start: Location,
    pub end: Location,
}

/// The mathematical shape of an expression payload.
#[verifier::ext_equal]
pub enum ExprT {
    Ident(Seq<char>),
    Num(Seq<char>),
    Bool(bool),
    Binary(Type, Location, Location, Box<ExprN>, Box<ExprN>),
    Unary(Type, Location, Location, Box<ExprN>),
}

/// The mathematical shape of a parameter node.
#[verifier::ext_equal]
pub struct ParamN {
    pub name: IdentN,
    pub annot: IdentN,
    pub start: Location,
    pub end: Location,
    pub typ: Option<DataType>,
}

/// The mathematical shape of a statement node, resolved-type slot
/// included (statement nodes' slots are never written).
#[verifier::ext_equal]
pub struct StmtN {
    pub src: StmtT,
    pub start: Location,
    pub end: Location,
    pub typ: Option<DataType>,
}

/// The mathematical shape of a statement payload.
#[verifier::ext_equal]
pub enum StmtT {
    Block(BlockT),
    Decl(IdentN, Option<IdentN>, ExprN),
    Assign(IdentN, Option<(Type, Location, Location)>, ExprN),
    If(ExprN, BlockN),
    While(ExprN, BlockN),
    DoWhile(BlockN, ExprN),
    Func(IdentN, Seq<ParamN>, Option<IdentN>, BlockN),
    Continue,
    Return(Option<ExprN>),
}

/// The mathematical shape of a block: its statements and its scope id.
#[verifier::ext_equal]
pub struct BlockT {
    pub stmts: Seq<StmtN>,
    pub scope: int,
}

/// The mathematical shape of a block node.
#[verifier::ext_equal]
pub struct BlockN {
    pub src: BlockT,
    pub start: Location,
    pub end: Location,
    pub typ: Option<DataType>,
}

/// The shape of an identifier node.
pub open spec fn ident_v(n: Node<Ident>) -> IdentN {
    IdentN { name: n.0.src.name@, start: n.0.start, end: n.0.end, typ: n.0.typ }
}

/// The shape of an expression node (resolved-type slot excluded).
pub open spec fn expr_v(n: Node<Expr>) -> ExprN
    decreases n,
{
    ExprN { src: expr_t_v(n.0.src), start: n.0.start, end: n.0.end }
}

/// The shape of an expression payload.
pub open spec fn expr_t_v(e: Expr) -> ExprT
    decreases e,
{
    match e {
        Expr::Ident(i) => ExprT::Ident(i.name@),
        Expr::NumLit(x) => ExprT::Num(x.val@),
        Expr::BoolLit(b) => ExprT::Bool(b.val),
        Expr::BinaryOp(b) => ExprT::Binary(
            b.op.src,
            b.op.start,
            b.op.end,
            Box::new(expr_v(b.lhs)),
            Box::new(expr_v(b.rhs)),
        ),
        Expr::UnaryOp(u) => ExprT::Unary(u.op.src, u.op.start, u.op.end, Box::new(expr_v(u.val))),
    }
}

/// The shape of a parameter node.
pub open spec fn param_v(n: Node<Param>) -> ParamN {
    ParamN {
        name: ident_v(n.0.src.name),
        annot: ident_v(n.0.src.annot),
        start: n.0.start,
        end: n.0.end,
        typ: n.0.typ,
    }
}

/// The shapes of a parameter list.
pub open spec fn params_v(ps: Seq<Node<Param>>) -> Seq<ParamN> {
    ps.map_values(|p: Node<Param>| param_v(p))
}

/// The shape of a statement node.
pub open spec fn stmt_v(n: Node<Stmt>) -> StmtN
    decreases n, 2int,
{
    StmtN { src: stmt_t_v(n.0.src), start: n.0.start, end: n.0.end, typ: n.0.typ }
}

/// The shape of a statement payload.
pub open spec fn stmt_t_v(s: Stmt) -> StmtT
    decreases s, 2int,
{
    match s {
        Stmt::Block(b) => StmtT::Block(block_t_v(b)),
        Stmt::Decl(d) => StmtT::Decl(
            ident_v(d.name),
            match d.annot {
                Some(a) => Some(ident_v(a)),
                None => None,
            },
            expr_v(d.val),
        ),
        Stmt::Assign(a) => StmtT::Assign(
            ident_v(a.name),
            match a.op {
                Some(op) => Some((op.src, op.start, op.end)),
                None => None,
            },
            expr_v(a.val),
        ),
        Stmt::IfStmt(i) => StmtT::If(expr_v(i.cond), block_node_v(i.body)),
        Stmt::WhileLoop(w) => StmtT::While(expr_v(w.cond), block_node_v(w.body)),
        Stmt::DoWhileLoop(d) => StmtT::DoWhile(block_node_v(d.body), expr_v(d.cond)),
        Stmt::Func(f) => StmtT::Func(
            ident_v(f.name),
            params_v(f.args@),
            match f.ret {
                Some(r) => Some(ident_v(r)),
                None => None,
            },
            block_node_v(f.body),
        ),
        Stmt::Continue => StmtT::Continue,
        Stmt::Return(r) => StmtT::Return(
            match r.val {
                Some(v) => Some(expr_v(v)),
                None => None,
            },
        ),
    }
}

/// The shapes of a statement list.
pub open spec fn stmts_v(ss: Seq<Node<Stmt>>) -> Seq<StmtN>
    decreases ss, 2int,
{
    if ss.len() == 0 {
        Seq::empty()
    } else {
        seq![stmt_v(ss[0])] + stmts_v(ss.subrange(1, ss.len() as int))
    }
}

/// The shape of a block.
pub open spec fn block_t_v(b: Block) -> BlockT
    decreases b, 2int,
{
    BlockT { stmts: stmts_v(b.stmts@), scope: b.scope as int }
}

/// The shape of a block node.
pub open spec fn block_node_v(n: Node<Block>) -> BlockN
    decreases n, 2int,
{
    BlockN { src: block_t_v(n.0.src), start: n.0.start, end: n.0.end, typ: n.0.typ }
}

/// Indexing into a statement list's shapes.
pub proof fn lemma_stmts_v_index(ss: Seq<Node<Stmt>>, i: int)
    requires
        0 <= i < ss.len(),
    ensures
        stmts_v(ss).len() == ss.len(),
        stmts_v(ss)[i] == stmt_v(ss[i]),
    decreases ss.len(),
{
    if i > 0 {
        lemma_stmts_v_index(ss.subrange(1, ss.len() as int), i - 1);
    } else {
        lemma_stmts_v_len(ss);
    }
}

/// A statement list's shapes pair up with its statements.
pub proof fn lemma_stmts_v_len(ss: Seq<Node<Stmt>>)
    ensures
        stmts_v(ss).len() == ss.len(),
    decreases ss.len(),
{
    if ss.len() > 0 {
        lemma_stmts_v_len(ss.subrange(1, ss.len() as int));
    }
}

/// Appending one statement appends its shape.
pub proof fn lemma_stmts_v_push(ss: Seq<Node<Stmt>>, s: Node<Stmt>)
    ensures
        stmts_v(ss.push(s)) == stmts_v(ss).push(stmt_v(s)),
    decreases ss.len(),
{
    if ss.len() == 0 {
        assert(ss.push(s).subrange(1, 1) =~= Seq::<Node<Stmt>>::empty());
        assert(ss.push(s)[0] == s);
        assert(stmts_v(Seq::<Node<Stmt>>::empty()) =~= Seq::<StmtN>::empty());
        assert(stmts_v(ss.push(s)) =~= seq![stmt_v(s)] + Seq::<StmtN>::empty());
        assert(stmts_v(ss) =~= Seq::<StmtN>::empty());
        assert(stmts_v(ss.push(s)) =~= stmts_v(ss).push(stmt_v(s)));
    } else {
        assert(ss.push(s).subrange(1, ss.len() as int + 1) =~= ss.subrange(1, ss.len() as int).push(s));
        lemma_stmts_v_push(ss.subrange(1, ss.len() as int), s);
        assert(ss.push(s)[0] == ss[0]);
        assert(stmts_v(ss.push(s)) =~= stmts_v(ss).push(stmt_v(s)));
    }
}

/// Updating one statement updates its shape alone.
pub proof fn lemma_stmts_v_update(ss: Seq<Node<Stmt>>, i: int, s: Node<Stmt>)
    requires
        0 <= i < ss.len(),
    ensures
        stmts_v(ss.update(i, s)) == stmts_v(ss).update(i, stmt_v(s)),
{
    lemma_stmts_v_len(ss);
    lemma_stmts_v_len(ss.update(i, s));
    assert forall|k: int| 0 <= k < ss.len() implies stmts_v(ss.update(i, s))[k] == stmts_v(
        ss,
    ).update(i, stmt_v(s))[k] by {
        lemma_stmts_v_index(ss.update(i, s), k);
        lemma_stmts_v_index(ss, k);
    }
    assert(stmts_v(ss.update(i, s)) =~= stmts_v(ss).update(i, stmt_v(s)));
}

/// Does the identifier node span only positions at or below `hi`?
pub open spec fn ident_n_within(x: IdentN, hi: int) -> bool {
    x.start.idx <= hi && x.end.idx <= hi
}

/// Does the expression node (operator spans included) span only positions
/// at or below `hi`?
pub open spec fn expr_n_within(e: ExprN, hi: int) -> bool
    decreases e,
{
    &&& e.start.idx <= hi
    &&& e.end.idx <= hi
    &&& match e.src {
        ExprT::Binary(_, os, oe, l, r) => os.idx <= hi && oe.idx <= hi && expr_n_within(*l, hi)
            && expr_n_within(*r, hi),
        ExprT::Unary(_, os, oe, v) => os.idx <= hi && oe.idx <= hi && expr_n_within(*v, hi),
        _ => true,
    }
}

/// Does the parameter node span only positions at or below `hi`?
pub open spec fn param_n_within(p: ParamN, hi: int) -> bool {
    p.start.idx <= hi && p.end.idx <= hi && ident_n_within(p.name, hi) && ident_n_within(
        p.annot,
        hi,
    )
}

/// Do all the parameter nodes span only positions at or below `hi`?
pub open spec fn params_within(ps: Seq<ParamN>, hi: int) -> bool {
    forall|i: int| 0 <= i < ps.len() ==> param_n_within(#[trigger] ps[i], hi)
}

/// Does the statement node and everything under it span only positions at
/// or below `hi`?
pub open spec fn stmt_n_within(s: StmtN, hi: int) -> bool
    decreases s, 2int,
{
    &&& s.start.idx <= hi
    &&& s.end.idx <= hi
    &&& match s.src {
        StmtT::Block(b) => block_t_within(b, hi),
        StmtT::Decl(nm, an, v) => ident_n_within(nm, hi) && (an matches Some(a)
            ==> ident_n_within(a, hi)) && expr_n_within(v, hi),
        StmtT::Assign(nm, op, v) => ident_n_within(nm, hi) && (op matches Some(o) ==> o.1.idx
            <= hi && o.2.idx <= hi) && expr_n_within(v, hi),
        StmtT::If(c, b) => expr_n_within(c, hi) && block_n_within(b, hi),
        StmtT::While(c, b) => expr_n_within(c, hi) && block_n_within(b, hi),
        StmtT::DoWhile(b, c) => block_n_within(b, hi) && expr_n_within(c, hi),
        StmtT::Func(nm, ps, rt, b) => ident_n_within(nm, hi) && params_within(ps, hi) && (
        rt matches Some(rn) ==> ident_n_within(rn, hi)) && block_n_within(b, hi),
        StmtT::Continue => true,
        StmtT::Return(v) => v matches Some(x) ==> expr_n_within(x, hi),
    }
}

/// Do all the statement nodes span only positions at or below `hi`?
pub open spec fn stmts_within(ss: Seq<StmtN>, hi: int) -> bool
    decreases ss, 2int,
{
    forall|i: int| 0 <= i < ss.len() ==> stmt_n_within(#[trigger] ss[i], hi)
}

/// Does the block span only positions at or below `hi`?
pub open spec fn block_t_within(b: BlockT, hi: int) -> bool
    decreases b, 2int,
{
    stmts_within(b.stmts, hi)
}

/// Does the block node span only positions at or below `hi`?
pub open spec fn block_n_within(b: BlockN, hi: int) -> bool
    decreases b, 2int,
{
    b.start.idx <= hi && b.end.idx <= hi && block_t_within(b.src, hi)
}

} // verus!
