//! Tests of the inheritance validator: parent existence, final parents,
//! cycle detection, override legality, and final-method protection.

use cavvy::ast::{ClassDecl, ClassMember, MethodDecl, Modifier, Program, SourceLocation};
use cavvy::error::ErrorKind;
use cavvy::semantic::analyzer::SemanticAnalyzer;
use cavvy::types::{ParameterInfo, Type};

fn here() -> SourceLocation {
    SourceLocation::new(3, 7)
}

fn method(name: &str, modifiers: Vec<Modifier>, ret: Type, params: Vec<ParameterInfo>) -> ClassMember {
    ClassMember::Method(MethodDecl {
        name: name.to_string(),
        modifiers,
        return_type: ret,
        params,
        body: None,
        loc: here(),
    })
}

fn class_decl(
    name: &str,
    parent: Option<&str>,
    modifiers: Vec<Modifier>,
    members: Vec<ClassMember>,
) -> ClassDecl {
    ClassDecl {
        name: name.to_string(),
        modifiers,
        parent: parent.map(|p| p.to_string()),
        interfaces: vec![],
        members,
        loc: here(),
    }
}

fn analyzer_for(classes: Vec<ClassDecl>) -> SemanticAnalyzer {
    let program = Program { classes, interfaces: vec![] };
    let mut a = SemanticAnalyzer::new();
    a.collect_classes(&program).unwrap();
    a.analyze_methods(&program).unwrap();
    a
}

#[test]
fn undefined_parent_is_reported() {
    let a = analyzer_for(vec![class_decl("B", Some("Missing"), vec![], vec![])]);
    let e = a.check_inheritance().unwrap_err();
    assert!(matches!(
        e.kind,
        ErrorKind::UndefinedParent { ref class_name, ref parent }
            if class_name == "B" && parent == "Missing"
    ));
}

#[test]
fn extending_a_final_class_fails() {
    let a = analyzer_for(vec![
        class_decl("A", None, vec![Modifier::Final], vec![]),
        class_decl("B", Some("A"), vec![], vec![]),
    ]);
    let e = a.check_inheritance().unwrap_err();
    assert!(matches!(
        e.kind,
        ErrorKind::InheritFromFinal { ref class_name, ref parent }
            if class_name == "B" && parent == "A"
    ));
}

#[test]
fn two_class_cycle_fails_in_either_order() {
    let a = analyzer_for(vec![
        class_decl("A", Some("B"), vec![], vec![]),
        class_decl("B", Some("A"), vec![], vec![]),
    ]);
    let e = a.check_inheritance().unwrap_err();
    assert!(matches!(e.kind, ErrorKind::CircularInheritance { ref class_name } if class_name == "A"));

    let b = analyzer_for(vec![
        class_decl("B", Some("A"), vec![], vec![]),
        class_decl("A", Some("B"), vec![], vec![]),
    ]);
    let e2 = b.check_inheritance().unwrap_err();
    assert!(matches!(e2.kind, ErrorKind::CircularInheritance { ref class_name } if class_name == "B"));
}

#[test]
fn cycle_unreachable_from_first_class_is_still_caught() {
    let a = analyzer_for(vec![
        class_decl("Standalone", None, vec![], vec![]),
        class_decl("A", Some("B"), vec![], vec![]),
        class_decl("B", Some("A"), vec![], vec![]),
    ]);
    let e = a.check_inheritance().unwrap_err();
    assert!(matches!(e.kind, ErrorKind::CircularInheritance { .. }));
}

#[test]
fn self_cycle_is_caught() {
    let a = analyzer_for(vec![class_decl("A", Some("A"), vec![], vec![])]);
    let e = a.check_inheritance().unwrap_err();
    assert!(matches!(e.kind, ErrorKind::CircularInheritance { ref class_name } if class_name == "A"));
}

#[test]
fn acyclic_chain_validates() {
    let a = analyzer_for(vec![
        class_decl("A", None, vec![], vec![]),
        class_decl("B", Some("A"), vec![], vec![]),
        class_decl("C", Some("B"), vec![], vec![]),
    ]);
    assert!(a.check_inheritance().is_ok());
}

#[test]
fn override_without_parent_fails() {
    let a = analyzer_for(vec![class_decl(
        "A",
        None,
        vec![],
        vec![method("run", vec![Modifier::Override], Type::Void, vec![])],
    )]);
    let e = a.check_inheritance().unwrap_err();
    assert!(matches!(
        e.kind,
        ErrorKind::OverrideWithoutParent { ref method, ref class_name }
            if method == "run" && class_name == "A"
    ));
}

#[test]
fn override_with_different_parameters_fails() {
    let a = analyzer_for(vec![
        class_decl(
            "A",
            None,
            vec![],
            vec![method(
                "run",
                vec![],
                Type::Void,
                vec![ParameterInfo::new("n".to_string(), Type::Int32)],
            )],
        ),
        class_decl(
            "B",
            Some("A"),
            vec![],
            vec![method(
                "run",
                vec![Modifier::Override],
                Type::Void,
                vec![ParameterInfo::new("n".to_string(), Type::Int64)],
            )],
        ),
    ]);
    let e = a.check_inheritance().unwrap_err();
    assert!(matches!(
        e.kind,
        ErrorKind::InvalidOverride { ref method, ref class_name, ref parent }
            if method == "run" && class_name == "B" && parent == "A"
    ));
}

#[test]
fn override_with_different_return_type_fails() {
    let a = analyzer_for(vec![
        class_decl("A", None, vec![], vec![method("get", vec![], Type::Int32, vec![])]),
        class_decl(
            "B",
            Some("A"),
            vec![],
            vec![method("get", vec![Modifier::Override], Type::Int64, vec![])],
        ),
    ]);
    let e = a.check_inheritance().unwrap_err();
    assert!(matches!(e.kind, ErrorKind::InvalidOverride { .. }));
}

#[test]
fn exact_override_succeeds_through_grandparent() {
    let a = analyzer_for(vec![
        class_decl(
            "A",
            None,
            vec![],
            vec![method(
                "run",
                vec![],
                Type::Int32,
                vec![ParameterInfo::new("n".to_string(), Type::Int32)],
            )],
        ),
        class_decl("B", Some("A"), vec![], vec![]),
        class_decl(
            "C",
            Some("B"),
            vec![],
            vec![method(
                "run",
                vec![Modifier::Override],
                Type::Int32,
                vec![ParameterInfo::new("m".to_string(), Type::Int32)],
            )],
        ),
    ]);
    assert!(a.check_inheritance().is_ok());
}

#[test]
fn final_method_protected_without_override_marker() {
    let a = analyzer_for(vec![
        class_decl(
            "A",
            None,
            vec![],
            vec![method("seal", vec![Modifier::Final], Type::Void, vec![])],
        ),
        class_decl("B", Some("A"), vec![], vec![method("seal", vec![], Type::Void, vec![])]),
    ]);
    let e = a.check_inheritance().unwrap_err();
    assert!(matches!(
        e.kind,
        ErrorKind::OverrideOfFinalMethod { ref method, ref ancestor }
            if method == "seal" && ancestor == "A"
    ));
}

#[test]
fn final_method_protection_reaches_grandparents() {
    let a = analyzer_for(vec![
        class_decl(
            "A",
            None,
            vec![],
            vec![method("seal", vec![Modifier::Final], Type::Void, vec![])],
        ),
        class_decl("B", Some("A"), vec![], vec![]),
        class_decl("C", Some("B"), vec![], vec![method("seal", vec![], Type::Void, vec![])]),
    ]);
    let e = a.check_inheritance().unwrap_err();
    assert!(matches!(
        e.kind,
        ErrorKind::OverrideOfFinalMethod { ref ancestor, .. } if ancestor == "A"
    ));
}

#[test]
fn different_parameters_escape_final_protection() {
    let a = analyzer_for(vec![
        class_decl(
            "A",
            None,
            vec![],
            vec![method("seal", vec![Modifier::Final], Type::Void, vec![])],
        ),
        class_decl(
            "B",
            Some("A"),
            vec![],
            vec![method(
                "seal",
                vec![],
                Type::Void,
                vec![ParameterInfo::new("n".to_string(), Type::Int32)],
            )],
        ),
    ]);
    assert!(a.check_inheritance().is_ok());
}
