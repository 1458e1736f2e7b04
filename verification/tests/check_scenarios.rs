use scopecheck::check::{equality_check, expand, CheckOutcome, Expansion, SourceLocation};
use scopecheck::resolve::{resolve, Resolution};
use scopecheck::scope::{arity_of, ScopeTree, TemplateBody, TemplateDef};
use scopecheck::text::{i64_to_decimal, u64_to_decimal};

fn site(file: &str, line: u64) -> SourceLocation {
    SourceLocation { file: file.to_string(), line }
}

#[test]
fn equal_values_pass_and_hand_back_the_actual() {
    let outcome = equality_check(5, 5, &site("src/main2.rs", 46));
    assert_eq!(outcome, CheckOutcome::Pass(5));
    // A later consumer can go on with the value as an ordinary result.
    match outcome {
        CheckOutcome::Pass(v) => assert_eq!(format!("{}", v), "5"),
        CheckOutcome::Fail { .. } => panic!("equal values must pass"),
    }
}

#[test]
fn mismatch_yields_one_diagnostic_line_and_status_one() {
    let outcome = equality_check(3, 4, &site("src/main2.rs", 39));
    match outcome {
        CheckOutcome::Pass(_) => panic!("unequal values must fail"),
        CheckOutcome::Fail { diagnostic, status } => {
            assert_eq!(status, 1);
            assert_eq!(diagnostic, "src/main2.rs:39] Expected 4 but got 3.");
        },
    }
}

#[test]
fn diagnostic_points_at_the_call_site_given() {
    let outcome = equality_check(-7, 20, &site("lib/foo.rs", 128));
    match outcome {
        CheckOutcome::Pass(_) => panic!("unequal values must fail"),
        CheckOutcome::Fail { diagnostic, status } => {
            assert_eq!(status, 1);
            assert_eq!(diagnostic, "lib/foo.rs:128] Expected 20 but got -7.");
        },
    }
}

fn bump(counter: &mut u64, value: i64) -> i64 {
    *counter += 1;
    value
}

#[test]
fn arguments_are_evaluated_exactly_once_each() {
    // The construct takes values: each argument expression runs exactly
    // once, before the call, whatever the outcome.
    let mut first = 0u64;
    let mut second = 0u64;
    let outcome = equality_check(
        bump(&mut first, 5),
        bump(&mut second, 5),
        &site("a.rs", 1),
    );
    assert_eq!(outcome, CheckOutcome::Pass(5));
    assert_eq!(first, 1);
    assert_eq!(second, 1);

    let mut third = 0u64;
    let mut fourth = 0u64;
    let outcome = equality_check(
        bump(&mut third, 3),
        bump(&mut fourth, 4),
        &site("a.rs", 2),
    );
    assert!(matches!(outcome, CheckOutcome::Fail { .. }));
    assert_eq!(third, 1);
    assert_eq!(fourth, 1);
}

#[test]
fn scoping_demo_resolves_and_expands() {
    // The root exports a zero-argument demo template; a nested unit
    // declares its own one-argument version of the same name.
    let mut tree = ScopeTree::new("program".to_string());
    let inner = tree.add_unit(0, "inner".to_string());
    tree.add_def(inner, TemplateDef {
        name: "show".to_string(),
        exported: true,
        body: TemplateBody::Message("Only reachable from the root!".to_string()),
    });
    let bar = tree.add_unit(0, "bar".to_string());
    tree.add_def(bar, TemplateDef {
        name: "show".to_string(),
        exported: false,
        body: TemplateBody::Identity,
    });

    let name = "show".to_string();
    let at = site("src/main2.rs", 45);

    // From the root only the exported zero-argument version is visible.
    let bound = resolve(&tree, 0, 0, &name);
    assert_eq!(bound, Resolution::Resolved { unit: inner, def: 0 });
    let def = tree.def_at(inner, 0);
    assert_eq!(arity_of(def), 0);
    let expansion = expand(def, &vec![], &at);
    assert_eq!(expansion, Expansion::Text("Only reachable from the root!".to_string()));

    // The nested unit's own one-argument version masks it and yields 7.
    let bound = resolve(&tree, bar, 1, &name);
    assert_eq!(bound, Resolution::Resolved { unit: bar, def: 0 });
    let def = tree.def_at(bar, 0);
    assert_eq!(arity_of(def), 1);
    let expansion = expand(def, &vec![7], &at);
    assert_eq!(expansion, Expansion::Value(7));
}

#[test]
fn expanding_the_equality_template_passes_and_fails() {
    let def = TemplateDef {
        name: "check_expect".to_string(),
        exported: true,
        body: TemplateBody::EqualityCheck,
    };
    assert_eq!(arity_of(&def), 2);

    let passing = expand(&def, &vec![5, 5], &site("src/main2.rs", 46));
    assert_eq!(passing, Expansion::Value(5));

    let failing = expand(&def, &vec![3, 4], &site("src/main2.rs", 39));
    match failing {
        Expansion::Fatal { diagnostic, status } => {
            assert_eq!(status, 1);
            assert_eq!(diagnostic, "src/main2.rs:39] Expected 4 but got 3.");
        },
        other => panic!("expected a fatal expansion, got {:?}", other),
    }
}

#[test]
fn unsigned_decimal_rendering() {
    assert_eq!(u64_to_decimal(0), "0");
    assert_eq!(u64_to_decimal(7), "7");
    assert_eq!(u64_to_decimal(10), "10");
    assert_eq!(u64_to_decimal(1234567890), "1234567890");
    assert_eq!(u64_to_decimal(u64::MAX), "18446744073709551615");
}

#[test]
fn signed_decimal_rendering() {
    assert_eq!(i64_to_decimal(0), "0");
    assert_eq!(i64_to_decimal(42), "42");
    assert_eq!(i64_to_decimal(-5), "-5");
    assert_eq!(i64_to_decimal(i64::MAX), "9223372036854775807");
    assert_eq!(i64_to_decimal(i64::MIN), "-9223372036854775808");
}
