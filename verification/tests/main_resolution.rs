//! Tests of main-entry resolution: zero, one, and several candidates, with
//! and without the designated-entry marker.

use cavvy::ast::{ClassDecl, ClassMember, MethodDecl, Modifier, Program, SourceLocation};
use cavvy::error::ErrorKind;
use cavvy::semantic::analyzer::SemanticAnalyzer;
use cavvy::types::Type;

fn main_bearing(name: &str, marked: bool) -> ClassDecl {
    let mut modifiers = vec![Modifier::Public];
    if marked {
        modifiers.push(Modifier::Main);
    }
    ClassDecl {
        name: name.to_string(),
        modifiers,
        parent: None,
        interfaces: vec![],
        members: vec![ClassMember::Method(MethodDecl {
            name: "main".to_string(),
            modifiers: vec![Modifier::Public, Modifier::Static],
            return_type: Type::Void,
            params: vec![],
            body: None,
            loc: SourceLocation::new(0, 0),
        })],
        loc: SourceLocation::new(0, 0),
    }
}

fn plain(name: &str) -> ClassDecl {
    ClassDecl {
        name: name.to_string(),
        modifiers: vec![],
        parent: None,
        interfaces: vec![],
        members: vec![],
        loc: SourceLocation::new(0, 0),
    }
}

fn resolve(classes: Vec<ClassDecl>) -> Result<Option<String>, cavvy::error::SemanticError> {
    let program = Program { classes, interfaces: vec![] };
    let mut a = SemanticAnalyzer::new();
    a.check_main_class_conflicts(&program)
}

#[test]
fn zero_candidates_is_library_mode() {
    assert_eq!(resolve(vec![plain("A"), plain("B")]).unwrap(), None);
}

#[test]
fn single_candidate_is_the_entry_point() {
    let entry = resolve(vec![plain("Lib"), main_bearing("App", false)]).unwrap();
    assert_eq!(entry, Some("App".to_string()));
}

#[test]
fn two_unmarked_candidates_are_ambiguous() {
    let e = resolve(vec![main_bearing("A", false), main_bearing("B", false)]).unwrap_err();
    match e.kind {
        ErrorKind::AmbiguousMain { candidates } => {
            assert_eq!(candidates, vec!["A".to_string(), "B".to_string()]);
        },
        other => panic!("unexpected kind: {:?}", other),
    }
}

#[test]
fn single_marker_selects_among_several() {
    let entry = resolve(vec![main_bearing("A", false), main_bearing("B", true)]).unwrap();
    assert_eq!(entry, Some("B".to_string()));
}

#[test]
fn several_markers_conflict() {
    let e = resolve(vec![
        main_bearing("A", true),
        main_bearing("B", false),
        main_bearing("C", true),
    ])
    .unwrap_err();
    match e.kind {
        ErrorKind::MultipleMainMarkers { marked } => {
            assert_eq!(marked, vec!["A".to_string(), "C".to_string()]);
        },
        other => panic!("unexpected kind: {:?}", other),
    }
}

#[test]
fn non_public_or_non_static_main_is_no_candidate() {
    let mut c = main_bearing("A", false);
    if let ClassMember::Method(m) = &mut c.members[0] {
        m.modifiers = vec![Modifier::Public];  // not static
    }
    assert_eq!(resolve(vec![c]).unwrap(), None);
}
