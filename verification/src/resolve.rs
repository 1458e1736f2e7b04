//! Resolution of a template invocation against the scope tree.
//!
//! An invocation site is a unit together with the number of definitions of
//! that unit declared before the invocation point. Resolution finds the
//! nearest visible definition of the requested name:
//!
//! 1. the invoking unit's own definitions declared before the invocation
//!    point, most recently declared first (a later definition masks an
//!    earlier one of the same name);
//! 2. the definitions of each ancestor, nearest ancestor first (a unit's
//!    definitions are visible throughout its subtree, and a nearer
//!    declaration masks a farther one);
//! 3. exported definitions owned by units strictly below the invoking
//!    unit, in unit order (an export is reachable from the whole ancestor
//!    chain above its owner, and only from there — never sideways, so
//!    sibling subtrees stay mutually invisible).
//!
//! If no phase finds the name, the invocation is unresolved, which is
//! fatal for the invocation.

use crate::scope::{defs_of, tree_wf, ScopeTree, TemplateDef};
use vstd::prelude::*;

verus! {

/// The outcome of resolving one invocation: a definition of the tree,
/// named by its unit and its position there, or unresolved.
#[derive(Debug, Clone, Copy, PartialEq, Eq)]
pub enum Resolution {
    Resolved { unit: usize, def: usize },
    Unresolved,
}

/// The latest definition among `defs[0 .. upto]` whose name is `name`,
/// restricted to exported ones when `only_exported` is set.
pub open spec fn find_in(
    defs: Seq<TemplateDef>,
    upto: int,
    name: Seq<char>,
    only_exported: bool,
) -> Option<int>
    decreases upto,
{
    if upto <= 0 || upto > defs.len() {
        None
    } else if defs[upto - 1].name@ == name && (!only_exported || defs[upto - 1].exported) {
        Some(upto - 1)
    } else {
        find_in(defs, upto - 1, name, only_exported)
    }
}

/// Whether unit `a` is a strict ancestor of unit `v`.
pub open spec fn strict_ancestor(t: ScopeTree, a: int, v: int) -> bool
    decreases v,
{
    0 <= v < t.units@.len() && match t.units@[v].parent {
        None => false,
        Some(p) => 0 <= p < v && (p == a || strict_ancestor(t, a, p as int)),
    }
}

/// The nearest ancestor of `v` holding a definition named `name`, with
/// that unit's latest such definition.
pub open spec fn resolve_ancestors(t: ScopeTree, v: int, name: Seq<char>) -> Option<(int, int)>
    decreases v,
{
    if !(0 <= v < t.units@.len()) {
        None
    } else {
        match t.units@[v].parent {
            None => None,
            Some(p) => if !(0 <= p < v) {
                None
            } else {
                match find_in(defs_of(t, p as int), defs_of(t, p as int).len() as int, name, false) {
                    Some(j) => Some((p as int, j)),
                    None => resolve_ancestors(t, p as int, name),
                }
            },
        }
    }
}

/// The first unit at index `w` or beyond that lies strictly below `v` and
/// exports a definition named `name`, with that unit's latest such
/// definition.
pub open spec fn resolve_exported_below(
    t: ScopeTree,
    v: int,
    w: int,
    name: Seq<char>,
) -> Option<(int, int)>
    decreases t.units@.len() - w,
{
    if !(0 <= w < t.units@.len()) {
        None
    } else if strict_ancestor(t, v, w) && find_in(
        defs_of(t, w),
        defs_of(t, w).len() as int,
        name,
        true,
    ) is Some {
        Some((w, find_in(defs_of(t, w), defs_of(t, w).len() as int, name, true)->0))
    } else {
        resolve_exported_below(t, v, w + 1, name)
    }
}

/// The definition an invocation of `name` at site `(v, before)` binds to:
/// the invoking unit's own earlier definitions first, then the ancestor
/// chain nearest-first, then exports from the invoking unit's own subtree.
pub open spec fn resolve_spec(t: ScopeTree, v: int, before: int, name: Seq<char>) -> Option<
    (int, int),
> {
    if find_in(defs_of(t, v), before, name, false) is Some {
        Some((v, find_in(defs_of(t, v), before, name, false)->0))
    } else if resolve_ancestors(t, v, name) is Some {
        resolve_ancestors(t, v, name)
    } else {
        resolve_exported_below(t, v, v + 1, name)
    }
}

proof fn lemma_find_in_props(defs: Seq<TemplateDef>, upto: int, name: Seq<char>, oe: bool)
    requires
        0 <= upto <= defs.len(),
    ensures
        match find_in(defs, upto, name, oe) {
            Some(j) => 0 <= j < upto && defs[j].name@ == name && (oe ==> defs[j].exported)
                && forall|k: int|
                j < k < upto ==> !((#[trigger] defs[k]).name@ == name && (!oe
                    || defs[k].exported)),
            None => forall|k: int|
                0 <= k < upto ==> !((#[trigger] defs[k]).name@ == name && (!oe
                    || defs[k].exported)),
        },
    decreases upto,
{
    if upto > 0 {
        lemma_find_in_props(defs, upto - 1, name, oe);
    }
}

proof fn lemma_strict_ancestor_bounds(t: ScopeTree, a: int, v: int)
    requires
        strict_ancestor(t, a, v),
    ensures
        0 <= a < v < t.units@.len(),
    decreases v,
{
    let p = t.units@[v].parent->0 as int;
    if p != a {
        lemma_strict_ancestor_bounds(t, a, p);
    }
}

proof fn lemma_resolve_ancestors_some(t: ScopeTree, v: int, name: Seq<char>)
    requires
        tree_wf(t),
        0 <= v < t.units@.len(),
    ensures
        resolve_ancestors(t, v, name) matches Some((u, j)) ==> strict_ancestor(t, u, v) && 0 <= j
            < defs_of(t, u).len() && defs_of(t, u)[j].name@ == name,
    decreases v,
{
    match t.units@[v].parent {
        None => {},
        Some(p) => {
            let p = p as int;
            lemma_find_in_props(defs_of(t, p), defs_of(t, p).len() as int, name, false);
            lemma_resolve_ancestors_some(t, p, name);
        },
    }
}

proof fn lemma_resolve_ancestors_finds(t: ScopeTree, u: int, v: int, name: Seq<char>)
    requires
        tree_wf(t),
        0 <= v < t.units@.len(),
        strict_ancestor(t, u, v),
        exists|j: int|
            0 <= j < defs_of(t, u).len() && (#[trigger] defs_of(t, u)[j]).name@ == name,
    ensures
        resolve_ancestors(t, v, name) is Some,
    decreases v,
{
    let p = t.units@[v].parent->0 as int;
    lemma_find_in_props(defs_of(t, p), defs_of(t, p).len() as int, name, false);
    if p == u {
    } else {
        if find_in(defs_of(t, p), defs_of(t, p).len() as int, name, false) is None {
            lemma_resolve_ancestors_finds(t, u, p, name);
        }
    }
}

proof fn lemma_resolve_ancestors_nearest(t: ScopeTree, u: int, v: int, name: Seq<char>)
    requires
        tree_wf(t),
        0 <= v < t.units@.len(),
        strict_ancestor(t, u, v),
        find_in(defs_of(t, u), defs_of(t, u).len() as int, name, false) is Some,
        forall|w: int, k: int|
            strict_ancestor(t, u, w) && strict_ancestor(t, w, v) && 0 <= k < defs_of(t, w).len()
                ==> (#[trigger] defs_of(t, w)[k]).name@ != name,
    ensures
        resolve_ancestors(t, v, name) == Some(
            (u, find_in(defs_of(t, u), defs_of(t, u).len() as int, name, false)->0),
        ),
    decreases v,
{
    let p = t.units@[v].parent->0 as int;
    if p == u {
    } else {
        assert(strict_ancestor(t, u, p));
        assert(strict_ancestor(t, p, v));
        lemma_find_in_props(defs_of(t, p), defs_of(t, p).len() as int, name, false);
        assert(find_in(defs_of(t, p), defs_of(t, p).len() as int, name, false) is None) by {
            match find_in(defs_of(t, p), defs_of(t, p).len() as int, name, false) {
                Some(j) => {
                    assert(defs_of(t, p)[j].name@ != name);
                },
                None => {},
            }
        }
        assert forall|w: int, k: int|
            strict_ancestor(t, u, w) && strict_ancestor(t, w, p) && 0 <= k < defs_of(t, w).len()
                implies (#[trigger] defs_of(t, w)[k]).name@ != name by {
            assert(strict_ancestor(t, w, v));
        }
        lemma_resolve_ancestors_nearest(t, u, p, name);
    }
}

proof fn lemma_resolve_exported_props(t: ScopeTree, v: int, w: int, name: Seq<char>)
    requires
        tree_wf(t),
    ensures
        resolve_exported_below(t, v, w, name) matches Some((u, j)) ==> strict_ancestor(t, v, u)
            && 0 <= j < defs_of(t, u).len() && defs_of(t, u)[j].name@ == name && defs_of(
            t,
            u,
        )[j].exported,
    decreases t.units@.len() - w,
{
    if 0 <= w < t.units@.len() {
        lemma_find_in_props(defs_of(t, w), defs_of(t, w).len() as int, name, true);
        lemma_resolve_exported_props(t, v, w + 1, name);
    }
}

/// Shadowing within a unit, and visibility in the owning unit: when the
/// invoking unit itself declares the name before the invocation point,
/// resolution binds that unit's latest such declaration — a later
/// definition masks an earlier one of the same name, and nothing from
/// outside the unit is ever preferred to it.
pub proof fn lemma_own_unit_resolves_latest(t: ScopeTree, v: int, before: int, name: Seq<char>)
    requires
        tree_wf(t),
        0 <= v < t.units@.len(),
        0 <= before <= defs_of(t, v).len(),
        exists|j: int| 0 <= j < before && (#[trigger] defs_of(t, v)[j]).name@ == name,
    ensures
        resolve_spec(t, v, before, name) matches Some((u, j)) && u == v && 0 <= j < before
            && defs_of(t, v)[j].name@ == name && forall|k: int|
            j < k < before ==> (#[trigger] defs_of(t, v)[k]).name@ != name,
{
    lemma_find_in_props(defs_of(t, v), before, name, false);
}

/// Visibility flows down the subtree: a definition declared in a unit is
/// resolvable from every strict descendant of that unit, whatever its
/// export flag.
pub proof fn lemma_resolvable_from_descendant(
    t: ScopeTree,
    u: int,
    v: int,
    before: int,
    name: Seq<char>,
)
    requires
        tree_wf(t),
        0 <= v < t.units@.len(),
        0 <= before <= defs_of(t, v).len(),
        strict_ancestor(t, u, v),
        exists|j: int|
            0 <= j < defs_of(t, u).len() && (#[trigger] defs_of(t, u)[j]).name@ == name,
    ensures
        resolve_spec(t, v, before, name) is Some,
{
    if find_in(defs_of(t, v), before, name, false) is None {
        lemma_resolve_ancestors_finds(t, u, v, name);
    }
}

/// A local (non-exported) definition never escapes its owner's scope:
/// whenever resolution binds a non-exported definition, the invocation
/// stood in the owning unit itself or in one of its descendants — never
/// in a sibling, and never in an ancestor.
pub proof fn lemma_local_confined(
    t: ScopeTree,
    v: int,
    before: int,
    name: Seq<char>,
    u: int,
    j: int,
)
    requires
        tree_wf(t),
        0 <= v < t.units@.len(),
        0 <= before <= defs_of(t, v).len(),
        resolve_spec(t, v, before, name) == Some((u, j)),
        !defs_of(t, u)[j].exported,
    ensures
        u == v || strict_ancestor(t, u, v),
{
    lemma_find_in_props(defs_of(t, v), before, name, false);
    lemma_resolve_ancestors_some(t, v, name);
    lemma_resolve_exported_props(t, v, v + 1, name);
}

/// Resolution never binds sideways: the bound definition's owner is the
/// invoking unit itself, one of its ancestors, or — only for an exported
/// definition — one of its descendants. A sibling unit's definition is
/// never a candidate, whatever its export flag.
pub proof fn lemma_never_sideways(
    t: ScopeTree,
    v: int,
    before: int,
    name: Seq<char>,
    u: int,
    j: int,
)
    requires
        tree_wf(t),
        0 <= v < t.units@.len(),
        0 <= before <= defs_of(t, v).len(),
        resolve_spec(t, v, before, name) == Some((u, j)),
    ensures
        u == v || strict_ancestor(t, u, v) || (strict_ancestor(t, v, u) && defs_of(
            t,
            u,
        )[j].exported),
{
    lemma_find_in_props(defs_of(t, v), before, name, false);
    lemma_resolve_ancestors_some(t, v, name);
    lemma_resolve_exported_props(t, v, v + 1, name);
}

/// Masking across units: when the invoking unit declares nothing of the
/// name before the invocation point, resolution binds the name's nearest
/// declaring ancestor — a declaration in a nearer unit always masks one
/// in a farther ancestor, exported or not.
pub proof fn lemma_nearest_ancestor_masks(
    t: ScopeTree,
    u: int,
    v: int,
    before: int,
    name: Seq<char>,
)
    requires
        tree_wf(t),
        0 <= v < t.units@.len(),
        0 <= before <= defs_of(t, v).len(),
        strict_ancestor(t, u, v),
        forall|k: int| 0 <= k < before ==> (#[trigger] defs_of(t, v)[k]).name@ != name,
        forall|w: int, k: int|
            strict_ancestor(t, u, w) && strict_ancestor(t, w, v) && 0 <= k < defs_of(t, w).len()
                ==> (#[trigger] defs_of(t, w)[k]).name@ != name,
        exists|j: int|
            0 <= j < defs_of(t, u).len() && (#[trigger] defs_of(t, u)[j]).name@ == name,
    ensures
        resolve_spec(t, v, before, name) matches Some((ru, rj)) && ru == u && 0 <= rj < defs_of(
            t,
            u,
        ).len() && defs_of(t, u)[rj].name@ == name,
{
    lemma_find_in_props(defs_of(t, v), before, name, false);
    assert(find_in(defs_of(t, v), before, name, false) is None) by {
        match find_in(defs_of(t, v), before, name, false) {
            Some(k) => {
                assert(defs_of(t, v)[k].name@ != name);
            },
            None => {},
        }
    }
    lemma_strict_ancestor_bounds(t, u, v);
    lemma_find_in_props(defs_of(t, u), defs_of(t, u).len() as int, name, false);
    assert(find_in(defs_of(t, u), defs_of(t, u).len() as int, name, false) is Some) by {
        if find_in(defs_of(t, u), defs_of(t, u).len() as int, name, false) is None {
            let j = choose|j: int|
                0 <= j < defs_of(t, u).len() && (#[trigger] defs_of(t, u)[j]).name@ == name;
            assert(defs_of(t, u)[j].name@ != name);
        }
    }
    lemma_resolve_ancestors_nearest(t, u, v, name);
}

proof fn lemma_resolve_exported_finds(t: ScopeTree, v: int, w: int, u: int, name: Seq<char>)
    requires
        tree_wf(t),
        0 <= w <= u,
        u < t.units@.len(),
        strict_ancestor(t, v, u),
        find_in(defs_of(t, u), defs_of(t, u).len() as int, name, true) is Some,
    ensures
        resolve_exported_below(t, v, w, name) is Some,
    decreases u - w,
{
    if w < u {
        if !(strict_ancestor(t, v, w) && find_in(
            defs_of(t, w),
            defs_of(t, w).len() as int,
            name,
            true,
        ) is Some) {
            lemma_resolve_exported_finds(t, v, w + 1, u, name);
        }
    }
}

/// An exported definition is reachable from the whole ancestor chain
/// above its owner: an invocation in any strict ancestor of the owning
/// unit resolves whenever the owner exports the name.
pub proof fn lemma_export_reaches_ancestors(
    t: ScopeTree,
    u: int,
    v: int,
    before: int,
    name: Seq<char>,
)
    requires
        tree_wf(t),
        0 <= v < t.units@.len(),
        0 <= before <= defs_of(t, v).len(),
        strict_ancestor(t, v, u),
        exists|j: int|
            0 <= j < defs_of(t, u).len() && (#[trigger] defs_of(t, u)[j]).name@ == name
                && defs_of(t, u)[j].exported,
    ensures
        resolve_spec(t, v, before, name) is Some,
{
    if find_in(defs_of(t, v), before, name, false) is None && resolve_ancestors(t, v, name)
        is None {
        lemma_strict_ancestor_bounds(t, v, u);
        lemma_find_in_props(defs_of(t, u), defs_of(t, u).len() as int, name, true);
        assert(find_in(defs_of(t, u), defs_of(t, u).len() as int, name, true) is Some) by {
            if find_in(defs_of(t, u), defs_of(t, u).len() as int, name, true) is None {
                let j = choose|j: int|
                    0 <= j < defs_of(t, u).len() && (#[trigger] defs_of(t, u)[j]).name@ == name
                        && defs_of(t, u)[j].exported;
                assert(!(defs_of(t, u)[j].name@ == name && defs_of(t, u)[j].exported));
            }
        }
        lemma_resolve_exported_finds(t, v, v + 1, u, name);
    }
}

proof fn lemma_resolve_ancestors_none(t: ScopeTree, v: int, name: Seq<char>)
    requires
        tree_wf(t),
        0 <= v < t.units@.len(),
        resolve_ancestors(t, v, name) is None,
    ensures
        forall|u: int, k: int|
            strict_ancestor(t, u, v) && 0 <= k < defs_of(t, u).len() ==> (#[trigger] defs_of(
                t,
                u,
            )[k]).name@ != name,
    decreases v,
{
    match t.units@[v].parent {
        None => {
            assert forall|u: int, k: int|
                strict_ancestor(t, u, v) && 0 <= k < defs_of(t, u).len() implies (
            #[trigger] defs_of(t, u)[k]).name@ != name by {}
        },
        Some(p) => {
            let p = p as int;
            lemma_find_in_props(defs_of(t, p), defs_of(t, p).len() as int, name, false);
            lemma_resolve_ancestors_none(t, p, name);
            assert forall|u: int, k: int|
                strict_ancestor(t, u, v) && 0 <= k < defs_of(t, u).len() implies (
            #[trigger] defs_of(t, u)[k]).name@ != name by {
                if u != p {
                    assert(strict_ancestor(t, u, p));
                }
            }
        },
    }
}

proof fn lemma_resolve_exported_none(t: ScopeTree, v: int, w: int, name: Seq<char>)
    requires
        tree_wf(t),
        0 <= w,
        resolve_exported_below(t, v, w, name) is None,
    ensures
        forall|u: int, k: int|
            w <= u < t.units@.len() && strict_ancestor(t, v, u) && 0 <= k < defs_of(t, u).len()
                && (#[trigger] defs_of(t, u)[k]).exported ==> defs_of(t, u)[k].name@ != name,
    decreases t.units@.len() - w,
{
    if 0 <= w < t.units@.len() {
        lemma_find_in_props(defs_of(t, w), defs_of(t, w).len() as int, name, true);
        lemma_resolve_exported_none(t, v, w + 1, name);
        assert forall|u: int, k: int|
            w <= u < t.units@.len() && strict_ancestor(t, v, u) && 0 <= k < defs_of(t, u).len()
                && (#[trigger] defs_of(t, u)[k]).exported implies defs_of(t, u)[k].name@
            != name by {
            if u == w {
                assert(find_in(defs_of(t, w), defs_of(t, w).len() as int, name, true) is None);
            }
        }
    }
}

/// Resolution fails only for want of a candidate: on an unresolved
/// invocation, no definition of the name stands before the invocation
/// point in the invoking unit, none stands in any ancestor, and no
/// exported one is owned below the invoking unit. Together with the
/// binding laws above: an invocation resolves exactly when some visible
/// definition of the name exists.
pub proof fn lemma_unresolved_means_invisible(t: ScopeTree, v: int, before: int, name: Seq<char>)
    requires
        tree_wf(t),
        0 <= v < t.units@.len(),
        0 <= before <= defs_of(t, v).len(),
        resolve_spec(t, v, before, name) is None,
    ensures
        forall|k: int| 0 <= k < before ==> (#[trigger] defs_of(t, v)[k]).name@ != name,
        forall|u: int, k: int|
            strict_ancestor(t, u, v) && 0 <= k < defs_of(t, u).len() ==> (#[trigger] defs_of(
                t,
                u,
            )[k]).name@ != name,
        forall|u: int, k: int|
            strict_ancestor(t, v, u) && 0 <= k < defs_of(t, u).len() && (#[trigger] defs_of(
                t,
                u,
            )[k]).exported ==> defs_of(t, u)[k].name@ != name,
{
    lemma_find_in_props(defs_of(t, v), before, name, false);
    lemma_resolve_ancestors_none(t, v, name);
    lemma_resolve_exported_none(t, v, v + 1, name);
    assert forall|u: int, k: int|
        strict_ancestor(t, v, u) && 0 <= k < defs_of(t, u).len() && (#[trigger] defs_of(
            t,
            u,
        )[k]).exported implies defs_of(t, u)[k].name@ != name by {
        lemma_strict_ancestor_bounds(t, v, u);
    }
}

fn find_def(defs: &Vec<TemplateDef>, upto: usize, name: &String, only_exported: bool) -> (r: Option<
    usize,
>)
    requires
        upto <= defs@.len(),
    ensures
        match r {
            Some(k) => find_in(defs@, upto as int, name@, only_exported) == Some(k as int),
            None => find_in(defs@, upto as int, name@, only_exported) is None,
        },
{
    let mut k = upto;
    while k > 0
        invariant
            k <= upto <= defs@.len(),
            find_in(defs@, upto as int, name@, only_exported) == find_in(
                defs@,
                k as int,
                name@,
                only_exported,
            ),
        decreases k,
    {
        k = k - 1;
        let name_matches = defs[k].name == *name;
        if name_matches && (!only_exported || defs[k].exported) {
            return Some(k);
        }
        assert(find_in(defs@, (k + 1) as int, name@, only_exported) == find_in(
            defs@,
            k as int,
            name@,
            only_exported,
        ));
    }
    None
}

/// Whether unit `a` is a strict ancestor of unit `v`.
pub fn is_strict_ancestor(t: &ScopeTree, a: usize, v: usize) -> (r: bool)
    requires
        tree_wf(*t),
        v < t.units@.len(),
    ensures
        r == strict_ancestor(*t, a as int, v as int),
{
    let mut cur = v;
    while t.units[cur].parent.is_some()
        invariant
            tree_wf(*t),
            cur < t.units@.len(),
            strict_ancestor(*t, a as int, v as int) == strict_ancestor(*t, a as int, cur as int),
        decreases cur,
    {
        let p = t.units[cur].parent.unwrap();
        if p == a {
            return true;
        }
        cur = p;
    }
    false
}

/// Resolves an invocation of `name` made in unit `unit`, after the first
/// `before` definitions of that unit. Returns the bound definition's
/// place in the tree, or `Unresolved` when no visible definition exists —
/// a fatal condition for the invocation.
pub fn resolve(t: &ScopeTree, unit: usize, before: usize, name: &String) -> (r: Resolution)
    requires
        tree_wf(*t),
        unit < t.units@.len(),
        before <= t.units@[unit as int].defs@.len(),
    ensures
        match resolve_spec(*t, unit as int, before as int, name@) {
            Some((u, d)) => r == (Resolution::Resolved { unit: u as usize, def: d as usize }),
            None => r == Resolution::Unresolved,
        },
{
    // Phase 1: the invoking unit's own definitions before the invocation
    // point.
    match find_def(&t.units[unit].defs, before, name, false) {
        Some(j) => {
            return Resolution::Resolved { unit, def: j };
        },
        None => {},
    }
    // Phase 2: the ancestor chain, nearest first.
    let mut cur = unit;
    while t.units[cur].parent.is_some()
        invariant
            tree_wf(*t),
            cur < t.units@.len(),
            unit < t.units@.len(),
            find_in(defs_of(*t, unit as int), before as int, name@, false) is None,
            resolve_ancestors(*t, unit as int, name@) == resolve_ancestors(*t, cur as int, name@),
        decreases cur,
    {
        let p = t.units[cur].parent.unwrap();
        match find_def(&t.units[p].defs, t.units[p].defs.len(), name, false) {
            Some(j) => {
                return Resolution::Resolved { unit: p, def: j };
            },
            None => {
                cur = p;
            },
        }
    }
    assert(resolve_ancestors(*t, unit as int, name@) is None);
    // Phase 3: exported definitions strictly below the invoking unit.
    let n = t.units.len();
    let mut w = unit + 1;
    while w < n
        invariant
            tree_wf(*t),
            unit < t.units@.len(),
            n == t.units@.len(),
            unit + 1 <= w <= t.units@.len(),
            find_in(defs_of(*t, unit as int), before as int, name@, false) is None,
            resolve_ancestors(*t, unit as int, name@) is None,
            resolve_exported_below(*t, unit as int, (unit + 1) as int, name@)
                == resolve_exported_below(*t, unit as int, w as int, name@),
        decreases t.units@.len() - w,
    {
        if is_strict_ancestor(t, unit, w) {
            match find_def(&t.units[w].defs, t.units[w].defs.len(), name, true) {
                Some(j) => {
                    return Resolution::Resolved { unit: w, def: j };
                },
                None => {},
            }
        }
        w = w + 1;
    }
    Resolution::Unresolved
}

} // verus!
