//! The parsed program: the implicit top-level block, and the scope arena
//! the parser built for it and the checker re-walks.

use vstd::prelude::*;

use crate::ast::Block;
use crate::scope::{tree_wf, ScopeTree};

verus! {

/// A whole program: the top-level block (whose scope is the arena's root)
/// and every scope of the parse.
#[derive(Debug)]
pub struct Program {
    pub block: Block,
    pub scopes: ScopeTree,
}

impl Program {
    /// An empty program over a fresh arena holding just the root scope.
    pub fn new() -> (p: Program)
        ensures
            p.block.stmts@.len() == 0,
            p.block.scope == 0,
            p.scopes@.len() == 1,
            p.scopes.next_id == 0,
            tree_wf(p.scopes@),
    {
        Program { block: Block { stmts: Vec::new(), scope: 0 }, scopes: ScopeTree::new() }
    }
}

} // verus!
