//! The type checker. It re-walks the tree the parser built, resolving
//! expression types bottom-up against the scope arena, writing each
//! expression node's resolved-type slot, and enforcing the declaration,
//! assignment, condition and return contracts. Every violation is
//! immediately fatal: the first error aborts checking of the whole
//! program. The functions below are specified against a mathematical
//! interpreter (`check_expr_res`, `check_stmt_spec`, ...) that pins, for
//! every tree, exactly which scope updates happen and which error (code
//! and span) is raised, if any.

use vstd::prelude::*;
use vstd::string::*;

use crate::ast::{
    block_scopes_ok, block_size, block_node_v, block_t_v, expr_v, lemma_stmts_size_elem,
    lemma_stmts_v_update, stmt_node_size, stmt_node_scopes_ok, stmt_v, stmts_v, Assign, BinaryOp,
    Block, Decl, DoWhileLoop, Expr, Func, Ident, IfStmt, Meta, Node, Param, Return, Stmt, UnaryOp,
    WhileLoop,
};
use crate::error::{Error, ErrorCode};
use crate::location::Location;
use crate::program::Program;
use crate::scope::{bump, spec_get, spec_set, tree_wf, ScopeV, Variable};
use crate::types::{compat, spec_from_name, spec_name, Bool, DataType, Int, IntegralSize};

verus! {

/// The shape of a diagnostic the checker raises: its code, the span it
/// points at, and its message text.
#[verifier::ext_equal]
pub struct ErrV {
    pub id: ErrorCode,
    pub start: Location,
    pub end: Location,
    pub msg: Seq<char>,
}

/// The shape of a raised `Error`.
pub open spec fn err_v(e: Error) -> ErrV {
    ErrV { id: e.id, start: e.start, end: e.end, msg: e.msg@ }
}

/// The message naming a variable no scope resolves.
pub open spec fn msg_not_found(name: Seq<char>) -> Seq<char> {
    "The variable '"@ + name + "' does not exist"@
}

/// The type an expression resolves to under the given scopes, or the
/// first error: identifiers resolve through the scope chain; numeric
/// literals are 32-bit signed integers; boolean literals are `bool`; a
/// binary operation demands operands equal under wildcard-aware equality
/// and takes its left operand's type; a unary operation takes its
/// operand's type unchanged.
pub open spec fn check_expr_res(scopes: Seq<ScopeV>, sid: int, n: Node<Expr>) -> Result<
    DataType,
    ErrV,
>
    decreases n,
{
    match n.0.src {
        Expr::Ident(i) => match spec_get(scopes, sid, i.name@) {
            Ok(v) => match v.typ {
                Some(t) => Ok(t),
                None => Err(
                    ErrV {
                        id: ErrorCode::VariableNotFound,
                        start: n.0.start,
                        end: n.0.end,
                        msg: msg_not_found(i.name@),
                    },
                ),
            },
            Err(c) => Err(
                ErrV { id: c, start: n.0.start, end: n.0.end, msg: msg_not_found(i.name@) },
            ),
        },
        Expr::NumLit(_) => Ok(DataType::Int(Int { size: Some(IntegralSize::Int32) })),
        Expr::BoolLit(_) => Ok(DataType::Bool(Bool {  })),
        Expr::BinaryOp(b) => match check_expr_res(scopes, sid, b.lhs) {
            Ok(lt) => match check_expr_res(scopes, sid, b.rhs) {
                Ok(rt) => if compat(lt, rt) {
                    Ok(lt)
                } else {
                    Err(
                        ErrV {
                            id: ErrorCode::TypeMismatch,
                            start: b.op.start,
                            end: b.op.end,
                            msg: "Cannot use the "@ + b.op.src.spec_src_strings()[0]
                                + " operator on "@ + spec_name(lt) + " and "@ + spec_name(rt),
                        },
                    )
                },
                Err(e) => Err(e),
            },
            Err(e) => Err(e),
        },
        Expr::UnaryOp(u) => check_expr_res(scopes, sid, u.val),
    }
}

/// How a checked expression node relates to the one it came from: same
/// spans, same payload structure, and — when checking succeeded — the
/// resolved-type slot of every node holds its computed type.
pub open spec fn expr_annotated(scopes: Seq<ScopeV>, sid: int, a: Node<Expr>, b: Node<Expr>) -> bool
    decreases a,
{
    &&& b.0.start == a.0.start
    &&& b.0.end == a.0.end
    &&& (check_expr_res(scopes, sid, a) matches Ok(t) ==> b.0.typ == Some(t))
    &&& match (a.0.src, b.0.src) {
        (Expr::Ident(x), Expr::Ident(y)) => x == y,
        (Expr::NumLit(x), Expr::NumLit(y)) => x == y,
        (Expr::BoolLit(x), Expr::BoolLit(y)) => x == y,
        (Expr::BinaryOp(x), Expr::BinaryOp(y)) => y.op == x.op && expr_annotated(
            scopes,
            sid,
            x.lhs,
            y.lhs,
        ) && expr_annotated(scopes, sid, x.rhs, y.rhs),
        (Expr::UnaryOp(x), Expr::UnaryOp(y)) => y.op == x.op && expr_annotated(
            scopes,
            sid,
            x.val,
            y.val,
        ),
        _ => false,
    }
}

/// A condition must resolve to `bool` (wildcard-aware); anything else is
/// a type mismatch at the condition's span.
pub open spec fn verify_cond_res(scopes: Seq<ScopeV>, sid: int, cond: Node<Expr>) -> Result<
    (),
    ErrV,
> {
    match check_expr_res(scopes, sid, cond) {
        Ok(t) => if compat(t, DataType::Bool(Bool {  })) {
            Ok(())
        } else {
            Err(
                ErrV {
                    id: ErrorCode::TypeMismatch,
                    start: cond.0.start,
                    end: cond.0.end,
                    msg: "Expected bool, but instead found "@ + spec_name(t),
                },
            )
        },
        Err(e) => Err(e),
    }
}

/// Checking a declaration: the initializer is typed; a present
/// annotation must spell exactly the initializer type's rendered name;
/// then the declared name's binding gets the initializer's type.
pub open spec fn check_decl_spec(scopes: Seq<ScopeV>, nid: u32, sid: int, d: Decl) -> (
    Seq<ScopeV>,
    u32,
    Result<(), ErrV>,
) {
    match check_expr_res(scopes, sid, d.val) {
        Ok(t) => {
            if (d.annot matches Some(a) && a.0.src.name@ != spec_name(t)) {
                (
                    scopes,
                    nid,
                    Err(
                        ErrV {
                            id: ErrorCode::TypeMismatch,
                            start: d.val.0.start,
                            end: d.val.0.end,
                            msg: "'"@ + d.name.0.src.name@ + "' is defined to be type "@
                                + d.annot->Some_0.0.src.name@ + ", but assigned "@ + spec_name(t),
                        },
                    ),
                )
            } else {
                let (sc2, e2) = spec_set(scopes, sid, d.name.0.src.name@, t);
                match e2 {
                    Some(c) => (
                        sc2,
                        nid,
                        Err(
                            ErrV {
                                id: c,
                                start: d.name.0.start,
                                end: d.name.0.end,
                                msg: msg_not_found(d.name.0.src.name@),
                            },
                        ),
                    ),
                    None => (sc2, nid, Ok(())),
                }
            }
        },
        Err(e) => (scopes, nid, Err(e)),
    }
}

/// Checking an assignment: the value is typed, the target's existing
/// binding is resolved, and the two types must agree (wildcard-aware).
pub open spec fn check_assign_spec(scopes: Seq<ScopeV>, sid: int, a: Assign) -> Result<(), ErrV> {
    match check_expr_res(scopes, sid, a.val) {
        Ok(t) => match spec_get(scopes, sid, a.name.0.src.name@) {
            Ok(v) => match v.typ {
                Some(vt) => if compat(vt, t) {
                    Ok(())
                } else {
                    Err(
                        ErrV {
                            id: ErrorCode::TypeMismatch,
                            start: a.name.0.start,
                            end: a.name.0.end,
                            msg: "Tried to assign type "@ + spec_name(t) + ", expected type "@
                                + spec_name(vt),
                        },
                    )
                },
                None => Err(
                    ErrV {
                        id: ErrorCode::TypeMismatch,
                        start: a.name.0.start,
                        end: a.name.0.end,
                        msg: "Tried to assign to an untyped variable"@,
                    },
                ),
            },
            Err(c) => Err(
                ErrV {
                    id: c,
                    start: a.name.0.start,
                    end: a.name.0.end,
                    msg: msg_not_found(a.name.0.src.name@),
                },
            ),
        },
        Err(e) => Err(e),
    }
}

/// Checking an `if`: the condition must be boolean, then the body runs
/// under its own scope.
pub open spec fn check_if_spec(
    scopes: Seq<ScopeV>,
    nid: u32,
    sid: int,
    fn_ret: Option<DataType>,
    x: IfStmt,
) -> (Seq<ScopeV>, u32, Result<(), ErrV>)
    decreases x, 2int, 0int,
{
    match verify_cond_res(scopes, sid, x.cond) {
        Ok(_) => check_stmts_spec(
            scopes,
            nid,
            x.body.0.src.scope as int,
            fn_ret,
            x.body.0.src.stmts@,
            0,
        ),
        Err(e) => (scopes, nid, Err(e)),
    }
}

/// Checking a `while`: exactly as an `if`.
pub open spec fn check_while_spec(
    scopes: Seq<ScopeV>,
    nid: u32,
    sid: int,
    fn_ret: Option<DataType>,
    w: WhileLoop,
) -> (Seq<ScopeV>, u32, Result<(), ErrV>)
    decreases w, 2int, 0int,
{
    match verify_cond_res(scopes, sid, w.cond) {
        Ok(_) => check_stmts_spec(
            scopes,
            nid,
            w.body.0.src.scope as int,
            fn_ret,
            w.body.0.src.stmts@,
            0,
        ),
        Err(e) => (scopes, nid, Err(e)),
    }
}

/// Checking a `do`/`while`: the body first (its declarations become
/// visible), then the condition, against the scopes the body produced.
pub open spec fn check_dowhile_spec(
    scopes: Seq<ScopeV>,
    nid: u32,
    sid: int,
    fn_ret: Option<DataType>,
    d: DoWhileLoop,
) -> (Seq<ScopeV>, u32, Result<(), ErrV>)
    decreases d, 2int, 0int,
{
    let (sc2, nid2, r2) = check_stmts_spec(
        scopes,
        nid,
        d.body.0.src.scope as int,
        fn_ret,
        d.body.0.src.stmts@,
        0,
    );
    match r2 {
        Ok(_) => match verify_cond_res(sc2, sid, d.cond) {
            Ok(_) => (sc2, nid2, Ok(())),
            Err(e) => (sc2, nid2, Err(e)),
        },
        Err(e) => (sc2, nid2, Err(e)),
    }
}

/// Checking a function definition: the return annotation resolves to the
/// active return type (unresolvable names mean none), parameters bind
/// into the body scope already typed, and the body runs under that
/// return type; the enclosing return type is untouched outside.
pub open spec fn check_func_spec(
    scopes: Seq<ScopeV>,
    nid: u32,
    sid: int,
    f: Func,
) -> (Seq<ScopeV>, u32, Result<(), ErrV>)
    decreases f, 2int, 0int,
{
    let new_ret = match f.ret {
        Some(rn) => spec_from_name(rn.0.src.name@),
        None => None,
    };
    let bsid = f.body.0.src.scope as int;
    let (sc2, nid2, r2) = check_params_spec(scopes, nid, bsid, f.args@, 0);
    match r2 {
        Ok(_) => check_stmts_spec(sc2, nid2, bsid, new_ret, f.body.0.src.stmts@, 0),
        Err(e) => (sc2, nid2, Err(e)),
    }
}

/// Checking one statement: how the scope arena and the binding-id counter
/// move, and whether an error is raised, under the current scope `sid`
/// and the enclosing function's declared return type `fn_ret`.
pub open spec fn check_stmt_spec(
    scopes: Seq<ScopeV>,
    nid: u32,
    sid: int,
    fn_ret: Option<DataType>,
    s: Node<Stmt>,
) -> (Seq<ScopeV>, u32, Result<(), ErrV>)
    decreases s, 0int, 0int,
{
    match s.0.src {
        Stmt::Block(b) => check_stmts_spec(scopes, nid, b.scope as int, fn_ret, b.stmts@, 0),
        Stmt::Decl(d) => check_decl_spec(scopes, nid, sid, d),
        Stmt::Assign(a) => {
            let r = check_assign_spec(scopes, sid, a);
            (scopes, nid, r)
        },
        Stmt::IfStmt(i) => check_if_spec(scopes, nid, sid, fn_ret, i),
        Stmt::WhileLoop(w) => check_while_spec(scopes, nid, sid, fn_ret, w),
        Stmt::DoWhileLoop(d) => check_dowhile_spec(scopes, nid, sid, fn_ret, d),
        Stmt::Continue => (scopes, nid, Ok(())),
        Stmt::Return(r) => (
            scopes,
            nid,
            check_return_res(scopes, sid, fn_ret, s.0.start, s.0.end, r),
        ),
        Stmt::Func(f) => check_func_spec(scopes, nid, sid, f),
    }
}

/// Checking a `return`: the value's type (or its absence) must agree with
/// the enclosing function's declared return type; a missing declaration
/// admits no value and a declared type demands one.
pub open spec fn check_return_res(
    scopes: Seq<ScopeV>,
    sid: int,
    fn_ret: Option<DataType>,
    start: Location,
    end: Location,
    r: Return,
) -> Result<(), ErrV> {
    match r.val {
        Some(x) => match check_expr_res(scopes, sid, x) {
            Ok(t) => match fn_ret {
                Some(want) => if compat(t, want) {
                    Ok(())
                } else {
                    Err(
                        ErrV {
                            id: ErrorCode::TypeMismatch,
                            start,
                            end,
                            msg: "Expected a return type of "@ + spec_name(want)
                                + ", but got type "@ + spec_name(t) + " instead"@,
                        },
                    )
                },
                None => Err(
                    ErrV {
                        id: ErrorCode::TypeMismatch,
                        start,
                        end,
                        msg: "Expected no return type, but got type "@ + spec_name(t)
                            + " instead"@,
                    },
                ),
            },
            Err(e) => Err(e),
        },
        None => match fn_ret {
            Some(want) => Err(
                ErrV {
                    id: ErrorCode::TypeMismatch,
                    start,
                    end,
                    msg: "Expected a return type of "@ + spec_name(want)
                        + ", but got no type instead"@,
                },
            ),
            None => Ok(()),
        },
    }
}

/// Binding a function's parameters, in order, into its body scope: each
/// annotation must name a known type; the binding is created already
/// resolved to it.
pub open spec fn check_params_spec(
    scopes: Seq<ScopeV>,
    nid: u32,
    bsid: int,
    args: Seq<Node<Param>>,
    i: int,
) -> (Seq<ScopeV>, u32, Result<(), ErrV>)
    decreases args, 1int, args.len() - i,
{
    if i < 0 || i >= args.len() {
        (scopes, nid, Ok(()))
    } else {
        let arg = args[i];
        match spec_from_name(arg.0.src.annot.0.src.name@) {
            Some(t) => {
                if 0 <= bsid < scopes.len() {
                    let sc2 = scopes.update(
                        bsid,
                        ScopeV {
                            parent: scopes[bsid].parent,
                            names: scopes[bsid].names.push(arg.0.src.name.0.src.name@),
                            vars: scopes[bsid].vars.push(Variable { id: nid, typ: Some(t) }),
                        },
                    );
                    check_params_spec(sc2, bump(nid), bsid, args, i + 1)
                } else {
                    (scopes, nid, Ok(()))
                }
            },
            None => (
                scopes,
                nid,
                Err(
                    ErrV {
                        id: ErrorCode::Unknown,
                        start: arg.0.start,
                        end: arg.0.end,
                        msg: "Unknown parameter type '"@ + arg.0.src.annot.0.src.name@ + "'"@,
                    },
                ),
            ),
        }
    }
}

/// Checking a statement list in order under scope `sid`: state threads
/// from one statement to the next; the first error stops the walk.
pub open spec fn check_stmts_spec(
    scopes: Seq<ScopeV>,
    nid: u32,
    sid: int,
    fn_ret: Option<DataType>,
    stmts: Seq<Node<Stmt>>,
    i: int,
) -> (Seq<ScopeV>, u32, Result<(), ErrV>)
    decreases stmts, 1int, stmts.len() - i,
{
    if i < 0 || i >= stmts.len() {
        (scopes, nid, Ok(()))
    } else {
        let (sc2, nid2, r) = check_stmt_spec(scopes, nid, sid, fn_ret, stmts[i]);
        match r {
            Ok(_) => check_stmts_spec(sc2, nid2, sid, fn_ret, stmts, i + 1),
            Err(e) => (sc2, nid2, Err(e)),
        }
    }
}

/// The type checker: the source lines (for diagnostics), the program
/// being checked, the current scope, and the enclosing function's
/// declared return type.
pub struct Checker {
    pub lines: Vec<String>,
    pub prog: Program,
    pub top: usize,
    pub fn_ret: Option<DataType>,
}

impl Checker {
    /// The checker's standing invariant.
    pub open spec fn wf(&self) -> bool {
        &&& tree_wf(self.prog.scopes@)
        &&& self.top < self.prog.scopes@.len()
    }

    /// A checker over the given program, entering at its top-level
    /// block's scope, outside any function.
    pub fn new(lines: Vec<String>, prog: Program) -> (c: Checker)
        ensures
            c.lines == lines,
            c.prog == prog,
            c.top == prog.block.scope,
            c.fn_ret is None,
    {
        let top = prog.block.scope;
        Checker { lines, prog, top, fn_ret: None }
    }

    /// A diagnostic over the given span.
    fn err_at(&self, msg: String, start: Location, end: Location, id: ErrorCode) -> (e: Error)
        ensures
            e.id == id,
            e.start == start,
            e.end == end,
            e.msg == msg,
    {
        Error::new(self.lines.clone(), msg, start, end, id)
    }

    /// Resolve an identifier to its binding's type.
    fn check_ident(&self, start: Location, end: Location, ident: &Ident) -> (r: Result<
        DataType,
        Error,
    >)
        requires
            self.wf(),
        ensures
            ({
                let res = match spec_get(self.prog.scopes@, self.top as int, ident.name@) {
                    Ok(v) => match v.typ {
                        Some(t) => Ok(t),
                        None => Err(
                            ErrV {
                                id: ErrorCode::VariableNotFound,
                                start,
                                end,
                                msg: msg_not_found(ident.name@),
                            },
                        ),
                    },
                    Err(c) => Err(ErrV { id: c, start, end, msg: msg_not_found(ident.name@) }),
                };
                match r {
                    Ok(t) => res == Ok::<DataType, ErrV>(t),
                    Err(e) => res == Err::<DataType, ErrV>(err_v(e)),
                }
            }),
    {
        match self.prog.scopes.get(self.top, &ident.name) {
            Ok(vari) => match vari.typ {
                Some(t) => Ok(t),
                None => {
                    let mut m = String::from_str("The variable '");
                    m.append(ident.name.as_str());
                    m.append("' does not exist");
                    Err(self.err_at(m, start, end, ErrorCode::VariableNotFound))
                },
            },
            Err(code) => {
                let mut m = String::from_str("The variable '");
                m.append(ident.name.as_str());
                m.append("' does not exist");
                Err(self.err_at(m, start, end, code))
            },
        }
    }

    /// Resolve an expression's type bottom-up, writing every node's
    /// resolved-type slot on the way; the annotated tree comes back with
    /// the result.
    fn check_expr(&self, node: Node<Expr>) -> (r: (Node<Expr>, Result<DataType, Error>))
        requires
            self.wf(),
        ensures
            expr_v(r.0) == expr_v(node),
            ({
                let res = check_expr_res(self.prog.scopes@, self.top as int, node);
                match r.1 {
                    Ok(t) => res == Ok::<DataType, ErrV>(t) && expr_annotated(
                        self.prog.scopes@,
                        self.top as int,
                        node,
                        r.0,
                    ),
                    Err(e) => res == Err::<DataType, ErrV>(err_v(e)),
                }
            }),
        decreases node,
    {
        let Node(meta) = node;
        let Meta { src, start, end, typ: _ } = *meta;
        match src {
            Expr::Ident(i) => {
                match self.check_ident(start, end, &i) {
                    Ok(t) => {
                        let out = Node(
                            Box::new(
                                Meta { src: Expr::Ident(i), start, end, typ: Some(t.clone()) },
                            ),
                        );
                        (out, Ok(t))
                    },
                    Err(e) => (
                        Node(Box::new(Meta { src: Expr::Ident(i), start, end, typ: None })),
                        Err(e),
                    ),
                }
            },
            Expr::NumLit(x) => {
                let t = Int::new(IntegralSize::Int32);
                let out = Node(
                    Box::new(Meta { src: Expr::NumLit(x), start, end, typ: Some(t.clone()) }),
                );
                (out, Ok(t))
            },
            Expr::BoolLit(x) => {
                let t = Bool::new();
                let out = Node(
                    Box::new(Meta { src: Expr::BoolLit(x), start, end, typ: Some(t.clone()) }),
                );
                (out, Ok(t))
            },
            Expr::BinaryOp(b) => {
                let BinaryOp { op, lhs, rhs } = b;
                let (lhs2, lr) = self.check_expr(lhs);
                match lr {
                    Ok(lt) => {
                        let (rhs2, rr) = self.check_expr(rhs);
                        match rr {
                            Ok(rt) => {
                                if !lt.eq(&rt) {
                                    let op_strs = op.src.src_strings();
                                    let mut m = String::from_str("Cannot use the ");
                                    if op_strs.len() > 0 {
                                        m.append(op_strs[0].as_str());
                                    }
                                    m.append(" operator on ");
                                    m.append(lt.to_string().as_str());
                                    m.append(" and ");
                                    m.append(rt.to_string().as_str());
                                    let e = self.err_at(
                                        m,
                                        op.start,
                                        op.end,
                                        ErrorCode::TypeMismatch,
                                    );
                                    let out = Node(
                                        Box::new(
                                            Meta {
                                                src: Expr::BinaryOp(
                                                    BinaryOp { op, lhs: lhs2, rhs: rhs2 },
                                                ),
                                                start,
                                                end,
                                                typ: None,
                                            },
                                        ),
                                    );
                                    (out, Err(e))
                                } else {
                                    let out = Node(
                                        Box::new(
                                            Meta {
                                                src: Expr::BinaryOp(
                                                    BinaryOp { op, lhs: lhs2, rhs: rhs2 },
                                                ),
                                                start,
                                                end,
                                                typ: Some(lt.clone()),
                                            },
                                        ),
                                    );
                                    (out, Ok(lt))
                                }
                            },
                            Err(e) => {
                                let out = Node(
                                    Box::new(
                                        Meta {
                                            src: Expr::BinaryOp(
                                                BinaryOp { op, lhs: lhs2, rhs: rhs2 },
                                            ),
                                            start,
                                            end,
                                            typ: None,
                                        },
                                    ),
                                );
                                (out, Err(e))
                            },
                        }
                    },
                    Err(e) => {
                        let out = Node(
                            Box::new(
                                Meta {
                                    src: Expr::BinaryOp(BinaryOp { op, lhs: lhs2, rhs }),
                                    start,
                                    end,
                                    typ: None,
                                },
                            ),
                        );
                        (out, Err(e))
                    },
                }
            },
            Expr::UnaryOp(u) => {
                let UnaryOp { op, val } = u;
                let (val2, vr) = self.check_expr(val);
                match vr {
                    Ok(t) => {
                        let out = Node(
                            Box::new(
                                Meta {
                                    src: Expr::UnaryOp(UnaryOp { op, val: val2 }),
                                    start,
                                    end,
                                    typ: Some(t.clone()),
                                },
                            ),
                        );
                        (out, Ok(t))
                    },
                    Err(e) => {
                        let out = Node(
                            Box::new(
                                Meta {
                                    src: Expr::UnaryOp(UnaryOp { op, val: val2 }),
                                    start,
                                    end,
                                    typ: None,
                                },
                            ),
                        );
                        (out, Err(e))
                    },
                }
            },
        }
    }

    /// A condition must resolve to `bool`.
    fn verify_cond(&self, cond: Node<Expr>) -> (r: (Node<Expr>, Result<(), Error>))
        requires
            self.wf(),
        ensures
            expr_v(r.0) == expr_v(cond),
            ({
                let res = verify_cond_res(self.prog.scopes@, self.top as int, cond);
                match r.1 {
                    Ok(_) => res is Ok,
                    Err(e) => res == Err::<(), ErrV>(err_v(e)),
                }
            }),
    {
        let ghost cond0 = cond;
        let start = cond.0.start;
        let end = cond.0.end;
        let (cond2, cr) = self.check_expr(cond);
        match cr {
            Ok(t) => {
                if !t.eq(&Bool::new()) {
                    let mut m = String::from_str("Expected bool, but instead found ");
                    m.append(t.to_string().as_str());
                    let e = self.err_at(m, start, end, ErrorCode::TypeMismatch);
                    (cond2, Err(e))
                } else {
                    (cond2, Ok(()))
                }
            },
            Err(e) => (cond2, Err(e)),
        }
    }
}


impl Checker {
    /// Check a block: its statements in order, under the scope the block
    /// owns; the prior scope is restored afterwards.
    #[verifier::rlimit(100)]
    #[verifier::spinoff_prover]
    #[verifier::loop_isolation(false)]
    fn check_block(&mut self, block: Block) -> (r: (Block, Result<(), Error>))
        requires
            old(self).wf(),
            block_scopes_ok(block, old(self).prog.scopes@.len() as int),
        ensures
            final(self).wf(),
            final(self).lines == old(self).lines,
            final(self).top == old(self).top,
            final(self).fn_ret == old(self).fn_ret,
            final(self).prog.block == old(self).prog.block,
            final(self).prog.scopes@.len() == old(self).prog.scopes@.len(),
            block_scopes_ok(r.0, final(self).prog.scopes@.len() as int),
            block_t_v(r.0) == block_t_v(block),
            ({
                let (sc, nid, res) = check_stmts_spec(
                    old(self).prog.scopes@,
                    old(self).prog.scopes.next_id,
                    block.scope as int,
                    old(self).fn_ret,
                    block.stmts@,
                    0,
                );
                &&& final(self).prog.scopes@ == sc
                &&& final(self).prog.scopes.next_id == nid
                &&& match r.1 {
                    Ok(_) => res is Ok,
                    Err(e) => res == Err::<(), ErrV>(err_v(e)),
                }
            }),
        decreases block_size(block),
    {
        let Block { stmts, scope } = block;
        let mut stmts = stmts;
        let top0 = self.top;
        self.top = scope;

        let n = stmts.len();
        let mut i: usize = 0;
        while i < n
            invariant
                self.wf(),
                self.top == scope,
                scope < self.prog.scopes@.len(),
                n == stmts@.len(),
                n == block.stmts@.len(),
                i <= n,
                self.lines == old(self).lines,
                self.fn_ret == old(self).fn_ret,
                self.prog.block == old(self).prog.block,
                self.prog.scopes@.len() == old(self).prog.scopes@.len(),
                top0 == old(self).top,
                top0 < self.prog.scopes@.len(),
                forall|k: int| i <= k < n ==> stmts@[k] == block.stmts@[k],
                stmts_v(stmts@) == stmts_v(block.stmts@),
                forall|k: int|
                    0 <= k < n ==> stmt_node_scopes_ok(
                        #[trigger] stmts@[k],
                        self.prog.scopes@.len() as int,
                    ),
                check_stmts_spec(
                    old(self).prog.scopes@,
                    old(self).prog.scopes.next_id,
                    scope as int,
                    old(self).fn_ret,
                    block.stmts@,
                    0,
                ) == check_stmts_spec(
                    self.prog.scopes@,
                    self.prog.scopes.next_id,
                    scope as int,
                    self.fn_ret,
                    block.stmts@,
                    i as int,
                ),
            decreases n - i,
        {
            let ghost pre = stmts@;
            let ghost scpre = self.prog.scopes@;
            let ghost nidpre = self.prog.scopes.next_id;
            let ghost fnr = self.fn_ret;
            let s = stmts.remove(i);
            proof {
                assert(s == block.stmts@[i as int]);
                lemma_stmts_size_elem(block.stmts@, i as int);
            }
            let (s2, sr) = self.check_stmt(s);
            stmts.insert(i, s2);
            proof {
                assert(stmts@ =~= pre.update(i as int, s2));
                lemma_stmts_v_update(pre, i as int, s2);
                crate::ast::lemma_stmts_v_index(pre, i as int);
                assert(stmts_v(stmts@) =~= stmts_v(pre));
                let step = check_stmt_spec(scpre, nidpre, scope as int, fnr, block.stmts@[i as int]);
                if step.2 is Ok {
                    assert(check_stmts_spec(scpre, nidpre, scope as int, fnr, block.stmts@, i as int)
                        == check_stmts_spec(step.0, step.1, scope as int, fnr, block.stmts@, i + 1));
                } else {
                    assert(check_stmts_spec(scpre, nidpre, scope as int, fnr, block.stmts@, i as int)
                        == (step.0, step.1, step.2));
                }
            }
            match sr {
                Ok(_) => {
                    i = i + 1;
                },
                Err(e) => {
                    self.top = top0;
                    return (Block { stmts, scope }, Err(e));
                },
            }
        }

        self.top = top0;
        (Block { stmts, scope }, Ok(()))
    }

    /// Check a declaration: type the initializer, hold a present
    /// annotation to the initializer type's rendered name, then set the
    /// declared name's binding to that type.
    fn check_decl(&mut self, d: Decl) -> (r: (Decl, Result<(), Error>))
        requires
            old(self).wf(),
        ensures
            final(self).wf(),
            final(self).lines == old(self).lines,
            final(self).top == old(self).top,
            final(self).fn_ret == old(self).fn_ret,
            final(self).prog.block == old(self).prog.block,
            final(self).prog.scopes@.len() == old(self).prog.scopes@.len(),
            r.0.name == d.name && r.0.annot == d.annot && expr_v(r.0.val) == expr_v(d.val),
            ({
                let (sc, nid, res) = check_decl_spec(
                    old(self).prog.scopes@,
                    old(self).prog.scopes.next_id,
                    old(self).top as int,
                    d,
                );
                &&& final(self).prog.scopes@ == sc
                &&& final(self).prog.scopes.next_id == nid
                &&& match r.1 {
                    Ok(_) => res is Ok,
                    Err(e) => res == Err::<(), ErrV>(err_v(e)),
                }
            }),
    {
        let Decl { name, annot, val } = d;
        let (val2, vr) = self.check_expr(val);
        match vr {
            Ok(t) => {
                let mut annot_bad = false;
                let mut m = String::from_str("'");
                if let Some(a) = &annot {
                    let val_typ = t.to_string();
                    if !(a.0.src.name == val_typ) {
                        annot_bad = true;
                        m.append(name.0.src.name.as_str());
                        m.append("' is defined to be type ");
                        m.append(a.0.src.name.as_str());
                        m.append(", but assigned ");
                        m.append(t.to_string().as_str());
                    }
                }
                if annot_bad {
                    let e = self.err_at(m, val2.0.start, val2.0.end, ErrorCode::TypeMismatch);
                    (Decl { name, annot, val: val2 }, Err(e))
                } else {
                    let set_r = self.prog.scopes.set(self.top, &name.0.src.name, t);
                    match set_r {
                        None => (Decl { name, annot, val: val2 }, Ok(())),
                        Some(code) => {
                            let mut m = String::from_str("The variable '");
                            m.append(name.0.src.name.as_str());
                            m.append("' does not exist");
                            let e = self.err_at(m, name.0.start, name.0.end, code);
                            (Decl { name, annot, val: val2 }, Err(e))
                        },
                    }
                }
            },
            Err(e) => (Decl { name, annot, val: val2 }, Err(e)),
        }
    }

    /// Check an assignment: type the value, resolve the target's binding,
    /// and hold the two types to each other.
    fn check_assign(&self, a: Assign) -> (r: (Assign, Result<(), Error>))
        requires
            self.wf(),
        ensures
            r.0.name == a.name && r.0.op == a.op && expr_v(r.0.val) == expr_v(a.val),
            ({
                let res = check_assign_spec(self.prog.scopes@, self.top as int, a);
                match r.1 {
                    Ok(_) => res is Ok,
                    Err(e) => res == Err::<(), ErrV>(err_v(e)),
                }
            }),
    {
        let Assign { name, op, val } = a;
        let (val2, vr) = self.check_expr(val);
        match vr {
            Ok(t) => {
                let got = self.prog.scopes.get(self.top, &name.0.src.name);
                let res: Result<(), Error> = match got {
                    Ok(vari) => match vari.typ {
                        Some(vt) => {
                            if !vt.eq(&t) {
                                let mut m = String::from_str("Tried to assign type ");
                                m.append(t.to_string().as_str());
                                m.append(", expected type ");
                                m.append(vt.to_string().as_str());
                                Err(
                                    self.err_at(
                                        m,
                                        name.0.start,
                                        name.0.end,
                                        ErrorCode::TypeMismatch,
                                    ),
                                )
                            } else {
                                Ok(())
                            }
                        },
                        None => Err(
                            self.err_at(
                                String::from_str("Tried to assign to an untyped variable"),
                                name.0.start,
                                name.0.end,
                                ErrorCode::TypeMismatch,
                            ),
                        ),
                    },
                    Err(code) => {
                        let mut m = String::from_str("The variable '");
                        m.append(name.0.src.name.as_str());
                        m.append("' does not exist");
                        Err(self.err_at(m, name.0.start, name.0.end, code))
                    },
                };
                (Assign { name, op, val: val2 }, res)
            },
            Err(e) => (Assign { name, op, val: val2 }, Err(e)),
        }
    }

    /// Check a `return` against the enclosing function's declared return
    /// type.
    fn check_return(&self, start: Location, end: Location, rr: Return) -> (r: (
        Return,
        Result<(), Error>,
    ))
        requires
            self.wf(),
        ensures
            (match (rr.val, r.0.val) {
                (Some(x), Some(y)) => expr_v(y) == expr_v(x),
                (None, None) => true,
                _ => false,
            }),
            ({
                let res = check_return_res(
                    self.prog.scopes@,
                    self.top as int,
                    self.fn_ret,
                    start,
                    end,
                    rr,
                );
                match r.1 {
                    Ok(_) => res is Ok,
                    Err(e) => res == Err::<(), ErrV>(err_v(e)),
                }
            }),
    {
        let Return { val } = rr;
        match val {
            Some(x) => {
                let (x2, xr) = self.check_expr(x);
                let res: Result<(), Error> = match xr {
                    Ok(t) => match &self.fn_ret {
                        Some(want) => {
                            if !t.eq(want) {
                                let mut m = String::from_str("Expected a return type of ");
                                m.append(want.to_string().as_str());
                                m.append(", but got type ");
                                m.append(t.to_string().as_str());
                                m.append(" instead");
                                Err(self.err_at(m, start, end, ErrorCode::TypeMismatch))
                            } else {
                                Ok(())
                            }
                        },
                        None => {
                            let mut m = String::from_str("Expected no return type, but got type ");
                            m.append(t.to_string().as_str());
                            m.append(" instead");
                            Err(self.err_at(m, start, end, ErrorCode::TypeMismatch))
                        },
                    },
                    Err(e) => Err(e),
                };
                (Return { val: Some(x2) }, res)
            },
            None => {
                let res: Result<(), Error> = match &self.fn_ret {
                    Some(want) => {
                        let mut m = String::from_str("Expected a return type of ");
                        m.append(want.to_string().as_str());
                        m.append(", but got no type instead");
                        Err(self.err_at(m, start, end, ErrorCode::TypeMismatch))
                    },
                    None => Ok(()),
                };
                (Return { val: None }, res)
            },
        }
    }

    /// Check an `if`: the condition must be boolean, then the body.
    fn check_if_stmt(&mut self, x: IfStmt) -> (r: (IfStmt, Result<(), Error>))
        requires
            old(self).wf(),
            block_scopes_ok(x.body.0.src, old(self).prog.scopes@.len() as int),
        ensures
            final(self).wf(),
            final(self).lines == old(self).lines,
            final(self).top == old(self).top,
            final(self).fn_ret == old(self).fn_ret,
            final(self).prog.block == old(self).prog.block,
            final(self).prog.scopes@.len() == old(self).prog.scopes@.len(),
            block_scopes_ok(r.0.body.0.src, final(self).prog.scopes@.len() as int),
            expr_v(r.0.cond) == expr_v(x.cond) && block_node_v(r.0.body) == block_node_v(x.body),
            ({
                let (sc, nid, res) = check_if_spec(
                    old(self).prog.scopes@,
                    old(self).prog.scopes.next_id,
                    old(self).top as int,
                    old(self).fn_ret,
                    x,
                );
                &&& final(self).prog.scopes@ == sc
                &&& final(self).prog.scopes.next_id == nid
                &&& match r.1 {
                    Ok(_) => res is Ok,
                    Err(e) => res == Err::<(), ErrV>(err_v(e)),
                }
            }),
        decreases 1 + block_size(x.body.0.src),
    {
        let IfStmt { cond, body } = x;
        let (cond2, cr) = self.verify_cond(cond);
        match cr {
            Ok(_) => {
                let Node(bm) = body;
                let Meta { src: bblk, start: bs, end: be, typ: bt } = *bm;
                let (bblk2, br) = self.check_block(bblk);
                let body2 = Node(Box::new(Meta { src: bblk2, start: bs, end: be, typ: bt }));
                (IfStmt { cond: cond2, body: body2 }, br)
            },
            Err(e) => (IfStmt { cond: cond2, body }, Err(e)),
        }
    }

    /// Check a `while`: exactly as an `if`.
    fn check_while_loop(&mut self, w: WhileLoop) -> (r: (WhileLoop, Result<(), Error>))
        requires
            old(self).wf(),
            block_scopes_ok(w.body.0.src, old(self).prog.scopes@.len() as int),
        ensures
            final(self).wf(),
            final(self).lines == old(self).lines,
            final(self).top == old(self).top,
            final(self).fn_ret == old(self).fn_ret,
            final(self).prog.block == old(self).prog.block,
            final(self).prog.scopes@.len() == old(self).prog.scopes@.len(),
            block_scopes_ok(r.0.body.0.src, final(self).prog.scopes@.len() as int),
            expr_v(r.0.cond) == expr_v(w.cond) && block_node_v(r.0.body) == block_node_v(w.body),
            ({
                let (sc, nid, res) = check_while_spec(
                    old(self).prog.scopes@,
                    old(self).prog.scopes.next_id,
                    old(self).top as int,
                    old(self).fn_ret,
                    w,
                );
                &&& final(self).prog.scopes@ == sc
                &&& final(self).prog.scopes.next_id == nid
                &&& match r.1 {
                    Ok(_) => res is Ok,
                    Err(e) => res == Err::<(), ErrV>(err_v(e)),
                }
            }),
        decreases 1 + block_size(w.body.0.src),
    {
        let WhileLoop { cond, body } = w;
        let (cond2, cr) = self.verify_cond(cond);
        match cr {
            Ok(_) => {
                let Node(bm) = body;
                let Meta { src: bblk, start: bs, end: be, typ: bt } = *bm;
                let (bblk2, br) = self.check_block(bblk);
                let body2 = Node(Box::new(Meta { src: bblk2, start: bs, end: be, typ: bt }));
                (WhileLoop { cond: cond2, body: body2 }, br)
            },
            Err(e) => (WhileLoop { cond: cond2, body }, Err(e)),
        }
    }

    /// Check a `do`/`while`: the body is checked before the condition, so
    /// bindings the body resolves types for are visible to the condition.
    fn check_do_while_loop(&mut self, d: DoWhileLoop) -> (r: (DoWhileLoop, Result<(), Error>))
        requires
            old(self).wf(),
            block_scopes_ok(d.body.0.src, old(self).prog.scopes@.len() as int),
        ensures
            final(self).wf(),
            final(self).lines == old(self).lines,
            final(self).top == old(self).top,
            final(self).fn_ret == old(self).fn_ret,
            final(self).prog.block == old(self).prog.block,
            final(self).prog.scopes@.len() == old(self).prog.scopes@.len(),
            block_scopes_ok(r.0.body.0.src, final(self).prog.scopes@.len() as int),
            expr_v(r.0.cond) == expr_v(d.cond) && block_node_v(r.0.body) == block_node_v(d.body),
            ({
                let (sc, nid, res) = check_dowhile_spec(
                    old(self).prog.scopes@,
                    old(self).prog.scopes.next_id,
                    old(self).top as int,
                    old(self).fn_ret,
                    d,
                );
                &&& final(self).prog.scopes@ == sc
                &&& final(self).prog.scopes.next_id == nid
                &&& match r.1 {
                    Ok(_) => res is Ok,
                    Err(e) => res == Err::<(), ErrV>(err_v(e)),
                }
            }),
        decreases 1 + block_size(d.body.0.src),
    {
        let DoWhileLoop { body, cond } = d;
        let Node(bm) = body;
        let Meta { src: bblk, start: bs, end: be, typ: bt } = *bm;
        let (bblk2, br) = self.check_block(bblk);
        let body2 = Node(Box::new(Meta { src: bblk2, start: bs, end: be, typ: bt }));
        match br {
            Ok(_) => {
                let (cond2, cr) = self.verify_cond(cond);
                match cr {
                    Ok(_) => (DoWhileLoop { body: body2, cond: cond2 }, Ok(())),
                    Err(e) => (DoWhileLoop { body: body2, cond: cond2 }, Err(e)),
                }
            },
            Err(e) => (DoWhileLoop { body: body2, cond }, Err(e)),
        }
    }

    /// Check a function definition: resolve the return annotation, bind
    /// the parameters (typed) into the body scope, check the body under
    /// the new return type, and restore the enclosing one.
    #[verifier::loop_isolation(false)]
    fn check_func(&mut self, f: Func) -> (r: (Func, Result<(), Error>))
        requires
            old(self).wf(),
            block_scopes_ok(f.body.0.src, old(self).prog.scopes@.len() as int),
        ensures
            final(self).wf(),
            final(self).lines == old(self).lines,
            final(self).top == old(self).top,
            final(self).fn_ret == old(self).fn_ret,
            final(self).prog.block == old(self).prog.block,
            final(self).prog.scopes@.len() == old(self).prog.scopes@.len(),
            block_scopes_ok(r.0.body.0.src, final(self).prog.scopes@.len() as int),
            r.0.name == f.name && r.0.args == f.args && r.0.ret == f.ret && block_node_v(r.0.body)
                == block_node_v(f.body),
            ({
                let (sc, nid, res) = check_func_spec(
                    old(self).prog.scopes@,
                    old(self).prog.scopes.next_id,
                    old(self).top as int,
                    f,
                );
                &&& final(self).prog.scopes@ == sc
                &&& final(self).prog.scopes.next_id == nid
                &&& match r.1 {
                    Ok(_) => res is Ok,
                    Err(e) => res == Err::<(), ErrV>(err_v(e)),
                }
            }),
        decreases 1 + block_size(f.body.0.src),
    {
        let Func { name, args, ret, body } = f;
        let prev_ret: Option<DataType> = match &self.fn_ret {
            Some(t) => Some(t.clone()),
            None => None,
        };

        let ret_typ: Option<DataType> = match &ret {
            Some(rn) => DataType::from(&rn.0.src.name),
            None => None,
        };
        self.fn_ret = ret_typ;

        let Node(bm) = body;
        let Meta { src: bblk, start: bs, end: be, typ: bt } = *bm;
        let bsid = bblk.scope;

        let n = args.len();
        let mut i: usize = 0;
        let ghost sc0 = self.prog.scopes@;
        let ghost nid0 = self.prog.scopes.next_id;
        while i < n
            invariant
                self.wf(),
                i <= n,
                bsid < self.prog.scopes@.len(),
                self.fn_ret == ret_typ,
                self.prog.block == old(self).prog.block,
                self.prog.scopes@.len() == old(self).prog.scopes@.len(),
                self.lines == old(self).lines,
                self.top == old(self).top,
                check_params_spec(sc0, nid0, bsid as int, args@, 0) == check_params_spec(
                    self.prog.scopes@,
                    self.prog.scopes.next_id,
                    bsid as int,
                    args@,
                    i as int,
                ),
            decreases n - i,
        {
            let ghost scpre = self.prog.scopes@;
            let ghost nidpre = self.prog.scopes.next_id;
            let from_r = DataType::from(&args[i].0.src.annot.0.src.name);
            match from_r {
                Some(t) => {
                    let pname = args[i].0.src.name.0.src.name.clone();
                    self.prog.scopes.param(bsid, pname, t);
                    i = i + 1;
                    proof {
                        assert(check_params_spec(scpre, nidpre, bsid as int, args@, i - 1)
                            == check_params_spec(
                            self.prog.scopes@,
                            self.prog.scopes.next_id,
                            bsid as int,
                            args@,
                            i as int,
                        ));
                    }
                },
                None => {
                    proof {
                        assert(check_params_spec(scpre, nidpre, bsid as int, args@, i as int) == (
                            scpre,
                            nidpre,
                            Err::<(), ErrV>(
                                ErrV {
                                    id: ErrorCode::Unknown,
                                    start: args@[i as int].0.start,
                                    end: args@[i as int].0.end,
                                    msg: "Unknown parameter type '"@ + args@[i as int].0.src.annot.0.src.name@
                                        + "'"@,
                                },
                            ),
                        ));
                    }
                    let mut m = String::from_str("Unknown parameter type '");
                    m.append(args[i].0.src.annot.0.src.name.as_str());
                    m.append("'");
                    let e = self.err_at(m, args[i].0.start, args[i].0.end, ErrorCode::Unknown);
                    self.fn_ret = prev_ret;
                    let body2 = Node(Box::new(Meta { src: bblk, start: bs, end: be, typ: bt }));
                    return (Func { name, args, ret, body: body2 }, Err(e));
                },
            }
        }

        let (bblk2, br) = self.check_block(bblk);
        self.fn_ret = prev_ret;
        let body2 = Node(Box::new(Meta { src: bblk2, start: bs, end: be, typ: bt }));
        (Func { name, args, ret, body: body2 }, br)
    }

    /// Check one statement under the current scope. The scope arena moves
    /// exactly as the mathematical interpreter says; the first violation
    /// comes back as the interpreter's error, code and span included.
    #[verifier::rlimit(100)]
    #[verifier::spinoff_prover]
    fn check_stmt(&mut self, node: Node<Stmt>) -> (r: (Node<Stmt>, Result<(), Error>))
        requires
            old(self).wf(),
            stmt_node_scopes_ok(node, old(self).prog.scopes@.len() as int),
        ensures
            final(self).wf(),
            final(self).lines == old(self).lines,
            final(self).top == old(self).top,
            final(self).fn_ret == old(self).fn_ret,
            final(self).prog.block == old(self).prog.block,
            final(self).prog.scopes@.len() == old(self).prog.scopes@.len(),
            stmt_node_scopes_ok(r.0, final(self).prog.scopes@.len() as int),
            stmt_v(r.0) == stmt_v(node),
            ({
                let (sc, nid, res) = check_stmt_spec(
                    old(self).prog.scopes@,
                    old(self).prog.scopes.next_id,
                    old(self).top as int,
                    old(self).fn_ret,
                    node,
                );
                &&& final(self).prog.scopes@ == sc
                &&& final(self).prog.scopes.next_id == nid
                &&& match r.1 {
                    Ok(_) => res is Ok,
                    Err(e) => res == Err::<(), ErrV>(err_v(e)),
                }
            }),
        decreases stmt_node_size(node),
    {
        let Node(meta) = node;
        let Meta { src, start, end, typ } = *meta;
        match src {
            Stmt::Block(b) => {
                let (b2, br) = self.check_block(b);
                (Node(Box::new(Meta { src: Stmt::Block(b2), start, end, typ })), br)
            },
            Stmt::Decl(d) => {
                let (d2, dr) = self.check_decl(d);
                (Node(Box::new(Meta { src: Stmt::Decl(d2), start, end, typ })), dr)
            },
            Stmt::Assign(a) => {
                let (a2, ar) = self.check_assign(a);
                (Node(Box::new(Meta { src: Stmt::Assign(a2), start, end, typ })), ar)
            },
            Stmt::IfStmt(x) => {
                let (x2, xr) = self.check_if_stmt(x);
                (Node(Box::new(Meta { src: Stmt::IfStmt(x2), start, end, typ })), xr)
            },
            Stmt::WhileLoop(w) => {
                let (w2, wr) = self.check_while_loop(w);
                (Node(Box::new(Meta { src: Stmt::WhileLoop(w2), start, end, typ })), wr)
            },
            Stmt::DoWhileLoop(dw) => {
                let (dw2, dr) = self.check_do_while_loop(dw);
                (Node(Box::new(Meta { src: Stmt::DoWhileLoop(dw2), start, end, typ })), dr)
            },
            Stmt::Continue => (
                Node(Box::new(Meta { src: Stmt::Continue, start, end, typ })),
                Ok(()),
            ),
            Stmt::Return(rr) => {
                let (rr2, rres) = self.check_return(start, end, rr);
                (Node(Box::new(Meta { src: Stmt::Return(rr2), start, end, typ })), rres)
            },
            Stmt::Func(f) => {
                let (f2, fr) = self.check_func(f);
                (Node(Box::new(Meta { src: Stmt::Func(f2), start, end, typ })), fr)
            },
        }
    }

    /// Check the whole program: every top-level statement in order, under
    /// the root scope, outside any function. The first violation aborts
    /// with its diagnostic. The statement tree comes back structurally
    /// unchanged — only expression nodes' resolved-type slots may differ
    /// from the parsed tree.
    #[verifier::rlimit(100)]
    #[verifier::spinoff_prover]
    #[verifier::loop_isolation(false)]
    pub fn check(&mut self) -> (r: Result<(), Error>)
        requires
            old(self).wf(),
            old(self).top == old(self).prog.block.scope,
            old(self).fn_ret is None,
            block_scopes_ok(old(self).prog.block, old(self).prog.scopes@.len() as int),
        ensures
            final(self).wf(),
            final(self).lines == old(self).lines,
            final(self).top == old(self).top,
            final(self).fn_ret is None,
            final(self).prog.scopes@.len() == old(self).prog.scopes@.len(),
            block_scopes_ok(final(self).prog.block, final(self).prog.scopes@.len() as int),
            final(self).prog.block.scope == old(self).prog.block.scope,
            final(self).prog.block.stmts@.len() == old(self).prog.block.stmts@.len(),
            stmts_v(final(self).prog.block.stmts@) == stmts_v(old(self).prog.block.stmts@),
            ({
                let (sc, nid, res) = check_stmts_spec(
                    old(self).prog.scopes@,
                    old(self).prog.scopes.next_id,
                    old(self).prog.block.scope as int,
                    None,
                    old(self).prog.block.stmts@,
                    0,
                );
                &&& final(self).prog.scopes@ == sc
                &&& final(self).prog.scopes.next_id == nid
                &&& match r {
                    Ok(_) => res is Ok,
                    Err(e) => res == Err::<(), ErrV>(err_v(e)),
                }
            }),
    {
        let ghost stmts0 = self.prog.block.stmts@;
        let ghost sc0 = self.prog.scopes@;
        let ghost nid0 = self.prog.scopes.next_id;
        let ghost scope0 = self.prog.block.scope;
        let n = self.prog.block.stmts.len();
        let mut i: usize = 0;
        while i < n
            invariant
                self.wf(),
                self.top == old(self).top,
                self.top == self.prog.block.scope,
                self.fn_ret is None,
                self.lines == old(self).lines,
                n == self.prog.block.stmts@.len(),
                n == stmts0.len(),
                i <= n,
                self.prog.scopes@.len() == old(self).prog.scopes@.len(),
                self.prog.block.scope == scope0,
                stmts0 == old(self).prog.block.stmts@,
                sc0 == old(self).prog.scopes@,
                nid0 == old(self).prog.scopes.next_id,
                scope0 == old(self).prog.block.scope,
                forall|k: int| i <= k < n ==> self.prog.block.stmts@[k] == stmts0[k],
                stmts_v(self.prog.block.stmts@) == stmts_v(stmts0),
                forall|k: int|
                    0 <= k < n ==> stmt_node_scopes_ok(
                        #[trigger] self.prog.block.stmts@[k],
                        self.prog.scopes@.len() as int,
                    ),
                check_stmts_spec(sc0, nid0, scope0 as int, None, stmts0, 0) == check_stmts_spec(
                    self.prog.scopes@,
                    self.prog.scopes.next_id,
                    scope0 as int,
                    self.fn_ret,
                    stmts0,
                    i as int,
                ),
            decreases n - i,
        {
            let ghost pre = self.prog.block.stmts@;
            let ghost scpre = self.prog.scopes@;
            let ghost nidpre = self.prog.scopes.next_id;
            let s = self.prog.block.stmts.remove(i);
            proof {
                assert(s == stmts0[i as int]);
            }
            let (s2, sr) = self.check_stmt(s);
            self.prog.block.stmts.insert(i, s2);
            proof {
                assert(self.prog.block.stmts@ =~= pre.update(i as int, s2));
                lemma_stmts_v_update(pre, i as int, s2);
                crate::ast::lemma_stmts_v_index(pre, i as int);
                assert(stmts_v(self.prog.block.stmts@) =~= stmts_v(pre));
                let step = check_stmt_spec(scpre, nidpre, scope0 as int, None, stmts0[i as int]);
                if step.2 is Ok {
                    assert(check_stmts_spec(scpre, nidpre, scope0 as int, None, stmts0, i as int)
                        == check_stmts_spec(step.0, step.1, scope0 as int, None, stmts0, i + 1));
                } else {
                    assert(check_stmts_spec(scpre, nidpre, scope0 as int, None, stmts0, i as int)
                        == (step.0, step.1, step.2));
                }
            }
            match sr {
                Ok(_) => {
                    i = i + 1;
                },
                Err(e) => {
                    return Err(e);
                },
            }
        }
        Ok(())
    }
}

} // verus!
