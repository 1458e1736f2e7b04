//! The scope tree: nested program units, each owning an ordered list of
//! template definitions, built once and immutable thereafter.

use vstd::prelude::*;

verus! {

/// The expansion rule of a template definition. The number and shape of
/// accepted arguments is fixed by the rule.
#[derive(Debug, Clone, PartialEq, Eq)]
pub enum TemplateBody {
    /// Expands to a fixed text; accepts no arguments.
    Message(String),
    /// Expands to its single argument unchanged.
    Identity,
    /// Expands to the evaluate-compare-report-or-return protocol on its
    /// two arguments.
    EqualityCheck,
}

/// A named template definition, owned by exactly one unit. An exported
/// definition is reachable from the owning unit's ancestor chain as well;
/// a local one only from the owning unit and its descendants.
#[derive(Debug, Clone, PartialEq, Eq)]
pub struct TemplateDef {
    pub name: String,
    pub exported: bool,
    pub body: TemplateBody,
}

/// The number of arguments a body accepts.
pub open spec fn body_arity(b: TemplateBody) -> nat {
    match b {
        TemplateBody::Message(_) => 0,
        TemplateBody::Identity => 1,
        TemplateBody::EqualityCheck => 2,
    }
}

impl TemplateDef {
    /// The number of arguments this definition accepts.
    pub open spec fn arity(self) -> nat {
        body_arity(self.body)
    }
}

/// The number of arguments a definition accepts.
pub fn arity_of(def: &TemplateDef) -> (n: usize)
    ensures
        n == def.arity(),
{
    match def.body {
        TemplateBody::Message(_) => 0,
        TemplateBody::Identity => 1,
        TemplateBody::EqualityCheck => 2,
    }
}

/// One node of the scope tree: a named unit with its parent and the
/// template definitions declared in it, in declaration order. The root
/// unit is the only one without a parent. Child units are the units whose
/// `parent` names this one, in index order.
#[derive(Debug, Clone, PartialEq, Eq)]
pub struct Unit {
    pub name: String,
    pub parent: Option<usize>,
    pub defs: Vec<TemplateDef>,
}

/// The nesting hierarchy of program units. Unit 0 is the root; every
/// other unit's parent has a smaller index, so ancestor chains are finite.
#[derive(Debug, Clone, PartialEq, Eq)]
pub struct ScopeTree {
    pub units: Vec<Unit>,
}

/// Well-formedness of the tree: a root without a parent at index 0, and
/// every later unit pointing at an earlier parent.
pub open spec fn tree_wf(t: ScopeTree) -> bool {
    &&& t.units@.len() >= 1
    &&& t.units@[0].parent is None
    &&& forall|i: int|
        1 <= i < t.units@.len() ==> ((#[trigger] t.units@[i].parent) matches Some(p) && p < i)
}

/// The definitions of unit `u`, in declaration order.
pub open spec fn defs_of(t: ScopeTree, u: int) -> Seq<TemplateDef> {
    t.units@[u].defs@
}

impl ScopeTree {
    /// Creates a tree holding only the root unit, with no definitions.
    pub fn new(root_name: String) -> (t: ScopeTree)
        ensures
            tree_wf(t),
            t.units@.len() == 1,
            t.units@[0].name == root_name,
            t.units@[0].parent is None,
            t.units@[0].defs@ =~= Seq::<TemplateDef>::empty(),
    {
        let root = Unit { name: root_name, parent: None, defs: Vec::new() };
        let mut units: Vec<Unit> = Vec::new();
        units.push(root);
        ScopeTree { units }
    }

    /// Adds an empty unit under `parent` and returns its index. Existing
    /// units are untouched.
    pub fn add_unit(&mut self, parent: usize, name: String) -> (idx: usize)
        requires
            tree_wf(*old(self)),
            parent < old(self).units@.len(),
        ensures
            tree_wf(*final(self)),
            idx == old(self).units@.len(),
            final(self).units@.len() == old(self).units@.len() + 1,
            forall|i: int|
                0 <= i < old(self).units@.len() ==> final(self).units@[i] == old(self).units@[i],
            final(self).units@[idx as int].name == name,
            final(self).units@[idx as int].parent == Some(parent),
            final(self).units@[idx as int].defs@ =~= Seq::<TemplateDef>::empty(),
    {
        let idx = self.units.len();
        let unit = Unit { name, parent: Some(parent), defs: Vec::new() };
        self.units.push(unit);
        idx
    }

    /// Appends a definition to unit `unit`'s declaration list. All other
    /// units, and the earlier definitions of `unit`, are untouched.
    pub fn add_def(&mut self, unit: usize, def: TemplateDef)
        requires
            tree_wf(*old(self)),
            unit < old(self).units@.len(),
        ensures
            tree_wf(*final(self)),
            final(self).units@.len() == old(self).units@.len(),
            forall|i: int|
                0 <= i < final(self).units@.len() && i != unit ==> final(self).units@[i]
                    == old(self).units@[i],
            final(self).units@[unit as int].name == old(self).units@[unit as int].name,
            final(self).units@[unit as int].parent == old(self).units@[unit as int].parent,
            final(self).units@[unit as int].defs@ =~= old(self).units@[unit as int].defs@.push(
                def,
            ),
    {
        let u = &mut self.units[unit];
        u.defs.push(def);
    }

    /// The number of units in the tree.
    pub fn unit_count(&self) -> (n: usize)
        ensures
            n == self.units@.len(),
    {
        self.units.len()
    }

    /// The number of definitions declared in unit `unit`.
    pub fn def_count(&self, unit: usize) -> (n: usize)
        requires
            unit < self.units@.len(),
        ensures
            n == self.units@[unit as int].defs@.len(),
    {
        self.units[unit].defs.len()
    }

    /// A borrowed reference to a definition of the tree.
    pub fn def_at(&self, unit: usize, def: usize) -> (d: &TemplateDef)
        requires
            unit < self.units@.len(),
            def < self.units@[unit as int].defs@.len(),
        ensures
            *d == self.units@[unit as int].defs@[def as int],
    {
        &self.units[unit].defs[def]
    }
}

} // verus!
