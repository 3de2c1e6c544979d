//! Nested symbol scopes. Scopes form a parent-linked tree held in an arena
//! (`ScopeTree`) indexed by integer id, so a child can reference its parent
//! without ownership cycles; binding ids come from a counter owned by the
//! tree, so independent runs hand out ids from zero deterministically.

use vstd::prelude::*;

use crate::error::ErrorCode;
use crate::types::DataType;

verus! {

/// A binding record: a unique id, and the resolved type once the checker
/// has filled it in.
#[derive(Debug)]
pub struct Variable {
    pub id: u32,
    pub typ: Option<DataType>,
}

impl Clone for Variable {
    fn clone(&self) -> (r: Self)
        ensures
            r == *self,
    {
        Variable {
            id: self.id,
            typ: match &self.typ {
                Some(t) => Some(t.clone()),
                None => None,
            },
        }
    }
}

/// One scope: its parent (if any) by arena index, and its bindings in
/// declaration order, as a name list and a record list that pair up.
#[derive(Debug)]
pub struct Scope {
    pub parent: Option<usize>,
    pub names: Vec<String>,
    pub vars: Vec<Variable>,
}

/// The mathematical shape of one scope.
#[verifier::ext_equal]
pub struct ScopeV {
    pub parent: Option<int>,
    pub names: Seq<Seq<char>>,
    pub vars: Seq<Variable>,
}

impl View for Scope {
    type V = ScopeV;

    open spec fn view(&self) -> ScopeV {
        ScopeV {
            parent: match self.parent {
                Some(p) => Some(p as int),
                None => None,
            },
            names: self.names@.map_values(|s: String| s@),
            vars: self.vars@,
        }
    }
}

impl ScopeV {
    /// Bindings come in name/record pairs.
    pub open spec fn wf(&self) -> bool {
        self.names.len() == self.vars.len()
    }

    /// The latest binding entry for `name` in this scope alone, by index.
    pub open spec fn find_index(&self, name: Seq<char>) -> Option<int> {
        spec_find_index(self.names, name, self.names.len() as int)
    }

    /// The latest binding for `name` in this scope alone, if any.
    pub open spec fn find(&self, name: Seq<char>) -> Option<Variable> {
        match self.find_index(name) {
            Some(j) => Some(self.vars[j]),
            None => None,
        }
    }
}

/// The index of the latest entry for `name` among the first `upto` names.
pub open spec fn spec_find_index(names: Seq<Seq<char>>, name: Seq<char>, upto: int) -> Option<int>
    decreases upto,
{
    if upto <= 0 {
        None
    } else if names[upto - 1] == name {
        Some(upto - 1)
    } else {
        spec_find_index(names, name, upto - 1)
    }
}

impl Scope {
    /// A fresh scope with no bindings under the given parent.
    pub fn new(parent: Option<usize>) -> (s: Scope)
        ensures
            s@.parent == match parent {
                Some(p) => Some(p as int),
                None => None::<int>,
            },
            s@.names.len() == 0,
            s@.vars.len() == 0,
    {
        Scope { parent, names: Vec::new(), vars: Vec::new() }
    }

    /// The index of the latest entry for `name` in this scope, if any.
    fn find_entry(&self, name: &String) -> (r: Option<usize>)
        ensures
            match r {
                Some(j) => j < self.names@.len() && self@.find_index(name@) == Some(j as int),
                None => self@.find_index(name@) is None,
            },
    {
        let mut j: usize = self.names.len();
        while j > 0
            invariant
                j <= self.names@.len(),
                spec_find_index(self@.names, name@, self@.names.len() as int) == spec_find_index(
                    self@.names,
                    name@,
                    j as int,
                ),
            decreases j,
    {
            if self.names[j - 1] == *name {
                return Some(j - 1);
            }
            j = j - 1;
        }
        None
    }
}

/// The id counter after one binding, saturating at its maximum.
pub open spec fn bump(nid: u32) -> u32 {
    if nid < u32::MAX {
        (nid + 1) as u32
    } else {
        nid
    }
}

/// The scope arena: every scope of one parse, and the counter that hands
/// out binding ids.
#[derive(Debug)]
pub struct ScopeTree {
    pub scopes: Vec<Scope>,
    pub next_id: u32,
}

impl View for ScopeTree {
    type V = Seq<ScopeV>;

    open spec fn view(&self) -> Seq<ScopeV> {
        self.scopes@.map_values(|s: Scope| s@)
    }
}

/// Every binding id stored in the arena lies strictly below `nid`: with
/// `nid` the arena's counter, a fresh binding's id differs from every
/// existing one, so ids are unique while the counter has not saturated.
pub open spec fn ids_below(scopes: Seq<ScopeV>, nid: u32) -> bool {
    forall|i: int, j: int|
        0 <= i < scopes.len() && 0 <= j < scopes[i].vars.len() ==> (#[trigger] scopes[i].vars[
        j]).id < nid
}

/// Every scope's entries pair up, and every parent link points strictly
/// downward in the arena, so parent chains terminate.
pub open spec fn tree_wf(scopes: Seq<ScopeV>) -> bool {
    forall|i: int|
        0 <= i < scopes.len() ==> (#[trigger] scopes[i]).wf() && match scopes[i].parent {
            Some(p) => 0 <= p < i,
            None => true,
        }
}

/// Resolution: the typed binding a name denotes, searching the scope `sid`
/// and then its ancestors. A binding whose type is still unresolved does
/// not hide an outer typed one; the search fails only when no ancestor
/// holds a typed binding for the name.
pub open spec fn spec_get(scopes: Seq<ScopeV>, sid: int, name: Seq<char>) -> Result<
    Variable,
    ErrorCode,
>
    decreases sid,
{
    if 0 <= sid < scopes.len() {
        let found = scopes[sid].find(name);
        if found matches Some(v) && v.typ is Some {
            Ok(scopes[sid].find(name)->Some_0)
        } else {
            match scopes[sid].parent {
                Some(p) => if 0 <= p < sid {
                    spec_get(scopes, p, name)
                } else {
                    Err(ErrorCode::VariableNotFound)
                },
                None => Err(ErrorCode::VariableNotFound),
            }
        }
    } else {
        Err(ErrorCode::VariableNotFound)
    }
}

/// Type assignment: the arena after the nearest binding for `name`
/// (typed or not), searching outward from `sid`, gets its type set to
/// `typ`; paired with the error when no ancestor holds the name at all.
pub open spec fn spec_set(scopes: Seq<ScopeV>, sid: int, name: Seq<char>, typ: DataType) -> (
    Seq<ScopeV>,
    Option<ErrorCode>,
)
    decreases sid,
{
    if 0 <= sid < scopes.len() {
        match scopes[sid].find_index(name) {
            Some(j) => (
                scopes.update(
                    sid,
                    ScopeV {
                        parent: scopes[sid].parent,
                        names: scopes[sid].names,
                        vars: scopes[sid].vars.update(
                            j,
                            Variable { id: scopes[sid].vars[j].id, typ: Some(typ) },
                        ),
                    },
                ),
                None,
            ),
            None => match scopes[sid].parent {
                Some(p) => if 0 <= p < sid {
                    spec_set(scopes, p, name, typ)
                } else {
                    (scopes, Some(ErrorCode::VariableNotFound))
                },
                None => (scopes, Some(ErrorCode::VariableNotFound)),
            },
        }
    } else {
        (scopes, Some(ErrorCode::VariableNotFound))
    }
}

impl ScopeTree {
    /// An arena holding only a root scope, with the id counter at zero.
    pub fn new() -> (t: ScopeTree)
        ensures
            t@.len() == 1,
            t@[0].parent is None,
            t@[0].names.len() == 0,
            t@[0].vars.len() == 0,
            t.next_id == 0,
            tree_wf(t@),
            ids_below(t@, t.next_id),
    {
        let mut scopes: Vec<Scope> = Vec::new();
        scopes.push(Scope::new(None));
        ScopeTree { scopes, next_id: 0 }
    }

    /// Open a fresh scope under `parent` and return its id.
    pub fn child(&mut self, parent: usize) -> (sid: usize)
        requires
            tree_wf(old(self)@),
            parent < old(self)@.len(),
        ensures
            sid == old(self)@.len(),
            final(self)@.len() == old(self)@.len() + 1,
            final(self)@ == old(self)@.push(
                ScopeV { parent: Some(parent as int), names: Seq::empty(), vars: Seq::empty() },
            ),
            final(self).next_id == old(self).next_id,
            tree_wf(final(self)@),
            ids_below(old(self)@, old(self).next_id) ==> ids_below(
                final(self)@,
                final(self).next_id,
            ),
    {
        let sid = self.scopes.len();
        self.scopes.push(Scope::new(Some(parent)));
        proof {
            assert(final(self)@ =~~= old(self)@.push(
                ScopeV { parent: Some(parent as int), names: Seq::empty(), vars: Seq::empty() },
            ));
        }
        sid
    }

    /// Insert a fresh, as-yet-untyped binding for `name` into scope `sid`,
    /// shadowing any existing binding of that name.
    pub fn declare(&mut self, sid: usize, name: String)
        requires
            tree_wf(old(self)@),
            sid < old(self)@.len(),
        ensures
            final(self)@ == old(self)@.update(
                sid as int,
                ScopeV {
                    parent: old(self)@[sid as int].parent,
                    names: old(self)@[sid as int].names.push(name@),
                    vars: old(self)@[sid as int].vars.push(
                        Variable { id: old(self).next_id, typ: None },
                    ),
                },
            ),
            final(self).next_id == if old(self).next_id < u32::MAX {
                (old(self).next_id + 1) as u32
            } else {
                old(self).next_id
            },
            tree_wf(final(self)@),
            (old(self).next_id < u32::MAX && ids_below(old(self)@, old(self).next_id))
                ==> ids_below(final(self)@, final(self).next_id),
            (old(self).next_id < u32::MAX && ids_below(old(self)@, old(self).next_id))
                ==> ids_below(final(self)@, final(self).next_id),
    {
        let id = self.next_id;
        self.scopes[sid].names.push(name);
        self.scopes[sid].vars.push(Variable { id, typ: None });
        if id < u32::MAX {
            self.next_id = id + 1;
        }
        proof {
            assert(final(self)@ =~~= old(self)@.update(
                sid as int,
                ScopeV {
                    parent: old(self)@[sid as int].parent,
                    names: old(self)@[sid as int].names.push(name@),
                    vars: old(self)@[sid as int].vars.push(
                        Variable { id: old(self).next_id, typ: None },
                    ),
                },
            ));
        }
    }

    /// Insert a binding for `name` into scope `sid` whose type is already
    /// resolved to `typ`, as a function parameter's is.
    pub fn param(&mut self, sid: usize, name: String, typ: DataType)
        requires
            tree_wf(old(self)@),
            sid < old(self)@.len(),
        ensures
            final(self)@ == old(self)@.update(
                sid as int,
                ScopeV {
                    parent: old(self)@[sid as int].parent,
                    names: old(self)@[sid as int].names.push(name@),
                    vars: old(self)@[sid as int].vars.push(
                        Variable { id: old(self).next_id, typ: Some(typ) },
                    ),
                },
            ),
            final(self).next_id == if old(self).next_id < u32::MAX {
                (old(self).next_id + 1) as u32
            } else {
                old(self).next_id
            },
            tree_wf(final(self)@),
    {
        let id = self.next_id;
        self.scopes[sid].names.push(name);
        self.scopes[sid].vars.push(Variable { id, typ: Some(typ) });
        if id < u32::MAX {
            self.next_id = id + 1;
        }
        proof {
            assert(final(self)@ =~~= old(self)@.update(
                sid as int,
                ScopeV {
                    parent: old(self)@[sid as int].parent,
                    names: old(self)@[sid as int].names.push(name@),
                    vars: old(self)@[sid as int].vars.push(
                        Variable { id: old(self).next_id, typ: Some(typ) },
                    ),
                },
            ));
        }
    }

    /// Set the type of the nearest binding for `name`, searching outward
    /// from scope `sid`; `VariableNotFound` when no ancestor holds it.
    pub fn set(&mut self, sid: usize, name: &String, typ: DataType) -> (r: Option<ErrorCode>)
        requires
            tree_wf(old(self)@),
            sid < old(self)@.len(),
        ensures
            final(self)@ == spec_set(old(self)@, sid as int, name@, typ).0,
            r == spec_set(old(self)@, sid as int, name@, typ).1,
            final(self)@.len() == old(self)@.len(),
            final(self).next_id == old(self).next_id,
            tree_wf(final(self)@),
            forall|n: u32| ids_below(old(self)@, n) ==> ids_below(final(self)@, n),
        decreases sid,
    {
        match self.scopes[sid].find_entry(name) {
            Some(j) => {
                proof {
                    assert(self@[sid as int] == self.scopes@[sid as int]@);
                    assert(self@[sid as int].wf());
                }
                let id = self.scopes[sid].vars[j].id;
                self.scopes[sid].vars[j] = Variable { id, typ: Some(typ) };
                proof {
                    assert(final(self)@ =~~= spec_set(old(self)@, sid as int, name@, typ).0);
                }
                None
            },
            None => {
                proof {
                    assert(self@[sid as int] == self.scopes@[sid as int]@);
                    assert(self@[sid as int].wf());
                }
                match self.scopes[sid].parent {
                    Some(p) => self.set(p, name, typ),
                    None => Some(ErrorCode::VariableNotFound),
                }
            },
        }
    }

    /// Resolve `name` to its nearest typed binding, searching outward from
    /// scope `sid`; `VariableNotFound` when every ancestor's binding for
    /// the name is missing or still untyped.
    pub fn get(&self, sid: usize, name: &String) -> (r: Result<Variable, ErrorCode>)
        requires
            tree_wf(self@),
            sid < self@.len(),
        ensures
            r == spec_get(self@, sid as int, name@),
        decreases sid,
    {
        match self.scopes[sid].find_entry(name) {
            Some(j) => {
                proof {
                    assert(self@[sid as int] == self.scopes@[sid as int]@);
                    assert(self@[sid as int].wf());
                }
                let v = &self.scopes[sid].vars[j];
                if v.typ.is_some() {
                    return Ok(v.clone());
                }
                match self.scopes[sid].parent {
                    Some(p) => self.get(p, name),
                    None => Err(ErrorCode::VariableNotFound),
                }
            },
            None => {
                proof {
                    assert(self@[sid as int] == self.scopes@[sid as int]@);
                    assert(self@[sid as int].wf());
                }
                match self.scopes[sid].parent {
                    Some(p) => self.get(p, name),
                    None => Err(ErrorCode::VariableNotFound),
                }
            },
        }
    }
}

/// Resolution reads only the scope it starts in and that scope's ancestor
/// chain: two arenas that agree up to `sid` resolve every name alike from
/// `sid`.
pub proof fn lemma_get_frame(a: Seq<ScopeV>, b: Seq<ScopeV>, sid: int, name: Seq<char>)
    requires
        0 <= sid < a.len(),
        sid < b.len(),
        forall|i: int| 0 <= i <= sid ==> a[i] == b[i],
    ensures
        spec_get(a, sid, name) == spec_get(b, sid, name),
    decreases sid,
{
    match a[sid].parent {
        Some(p) => {
            if 0 <= p < sid {
                lemma_get_frame(a, b, p, name);
            }
        },
        None => {},
    }
}

/// Shadowing: a typed binding for `name` in scope `sid` itself wins, and
/// resolution from `sid` returns exactly that binding, whatever the outer
/// scopes hold.
pub proof fn lemma_scope_shadowing(scopes: Seq<ScopeV>, sid: int, name: Seq<char>, v: Variable)
    requires
        0 <= sid < scopes.len(),
        scopes[sid].find(name) == Some(v),
        v.typ is Some,
    ensures
        spec_get(scopes, sid, name) == Ok::<Variable, ErrorCode>(v),
{
}

} // verus!
