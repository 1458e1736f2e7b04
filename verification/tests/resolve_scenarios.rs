use scopecheck::resolve::{resolve, Resolution};
use scopecheck::scope::{ScopeTree, TemplateBody, TemplateDef};

fn local_identity(name: &str) -> TemplateDef {
    TemplateDef { name: name.to_string(), exported: false, body: TemplateBody::Identity }
}

fn exported_identity(name: &str) -> TemplateDef {
    TemplateDef { name: name.to_string(), exported: true, body: TemplateBody::Identity }
}

fn exported_message(name: &str, text: &str) -> TemplateDef {
    TemplateDef {
        name: name.to_string(),
        exported: true,
        body: TemplateBody::Message(text.to_string()),
    }
}

#[test]
fn local_def_resolvable_in_own_unit_and_descendants() {
    let mut tree = ScopeTree::new("program".to_string());
    let u = tree.add_unit(0, "u".to_string());
    let deep = tree.add_unit(u, "deep".to_string());
    let sibling = tree.add_unit(0, "sibling".to_string());
    tree.add_def(u, local_identity("helper"));

    let name = "helper".to_string();
    // Inside the owning unit, after its declaration.
    assert_eq!(resolve(&tree, u, 1, &name), Resolution::Resolved { unit: u, def: 0 });
    // From a descendant of the owning unit.
    assert_eq!(resolve(&tree, deep, 0, &name), Resolution::Resolved { unit: u, def: 0 });
    // Not from a sibling.
    assert_eq!(resolve(&tree, sibling, 0, &name), Resolution::Unresolved);
    // Not from an ancestor: a local definition does not propagate upward.
    assert_eq!(resolve(&tree, 0, 0, &name), Resolution::Unresolved);
}

#[test]
fn no_forward_visibility_within_unit() {
    let mut tree = ScopeTree::new("program".to_string());
    let u = tree.add_unit(0, "u".to_string());
    tree.add_def(u, local_identity("late"));

    let name = "late".to_string();
    // An invocation before the declaration point does not see it.
    assert_eq!(resolve(&tree, u, 0, &name), Resolution::Unresolved);
    assert_eq!(resolve(&tree, u, 1, &name), Resolution::Resolved { unit: u, def: 0 });
}

#[test]
fn later_definition_shadows_earlier_in_same_unit() {
    let mut tree = ScopeTree::new("program".to_string());
    let u = tree.add_unit(0, "u".to_string());
    tree.add_def(u, local_identity("twice"));
    tree.add_def(u, exported_identity("twice"));

    let name = "twice".to_string();
    // After both declarations the later one wins.
    assert_eq!(resolve(&tree, u, 2, &name), Resolution::Resolved { unit: u, def: 1 });
    // Between the two, the earlier one is still the binding.
    assert_eq!(resolve(&tree, u, 1, &name), Resolution::Resolved { unit: u, def: 0 });
}

#[test]
fn local_def_masks_exported_ancestor_def() {
    let mut tree = ScopeTree::new("program".to_string());
    tree.add_def(0, exported_message("demo", "from the root"));
    let u = tree.add_unit(0, "u".to_string());
    tree.add_def(u, local_identity("demo"));
    let deep = tree.add_unit(u, "deep".to_string());

    let name = "demo".to_string();
    // Inside the masking unit, its own definition wins.
    assert_eq!(resolve(&tree, u, 1, &name), Resolution::Resolved { unit: u, def: 0 });
    // And from its descendants too: the nearer declaration masks the
    // exported one farther up.
    assert_eq!(resolve(&tree, deep, 0, &name), Resolution::Resolved { unit: u, def: 0 });
    // The root still sees its own definition.
    assert_eq!(resolve(&tree, 0, 1, &name), Resolution::Resolved { unit: 0, def: 0 });
}

#[test]
fn nearest_ancestor_wins_over_farther_one() {
    let mut tree = ScopeTree::new("program".to_string());
    tree.add_def(0, exported_identity("pick"));
    let mid = tree.add_unit(0, "mid".to_string());
    tree.add_def(mid, local_identity("pick"));
    let leaf = tree.add_unit(mid, "leaf".to_string());

    let name = "pick".to_string();
    assert_eq!(resolve(&tree, leaf, 0, &name), Resolution::Resolved { unit: mid, def: 0 });
}

#[test]
fn export_reaches_the_ancestor_chain() {
    let mut tree = ScopeTree::new("program".to_string());
    let utils = tree.add_unit(0, "utils".to_string());
    let expect = tree.add_unit(utils, "expect".to_string());
    tree.add_def(expect, exported_identity("check_expect"));

    let name = "check_expect".to_string();
    // Visible from every unit above the owner.
    assert_eq!(resolve(&tree, 0, 0, &name), Resolution::Resolved { unit: expect, def: 0 });
    assert_eq!(resolve(&tree, utils, 0, &name), Resolution::Resolved { unit: expect, def: 0 });
    // And inside the owner itself, once declared.
    assert_eq!(resolve(&tree, expect, 1, &name), Resolution::Resolved { unit: expect, def: 0 });
}

#[test]
fn export_never_reaches_a_sibling() {
    let mut tree = ScopeTree::new("program".to_string());
    let a = tree.add_unit(0, "a".to_string());
    let b = tree.add_unit(0, "b".to_string());
    tree.add_def(a, exported_identity("t"));

    let name = "t".to_string();
    // Export propagates upward only, never sideways.
    assert_eq!(resolve(&tree, b, 0, &name), Resolution::Unresolved);
    assert_eq!(resolve(&tree, 0, 0, &name), Resolution::Resolved { unit: a, def: 0 });
}

#[test]
fn unknown_name_is_unresolved_everywhere() {
    let mut tree = ScopeTree::new("program".to_string());
    let u = tree.add_unit(0, "u".to_string());
    tree.add_def(0, exported_identity("known"));

    let name = "unknown".to_string();
    assert_eq!(resolve(&tree, 0, 1, &name), Resolution::Unresolved);
    assert_eq!(resolve(&tree, u, 0, &name), Resolution::Unresolved);
}
