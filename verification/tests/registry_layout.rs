//! Tests of the registry: the shared namespace, lookups, and the instance
//! layout rule that keeps a subclass prefix-compatible with its parent.

use cavvy::ast::{ClassDecl, ClassMember, Expr, FieldDecl, InterfaceDecl, MethodDecl, Modifier, Program, SourceLocation};
use cavvy::error::ErrorKind;
use cavvy::registry::{InterfaceInfo, TypeRegistry};
use cavvy::semantic::analyzer::SemanticAnalyzer;
use cavvy::types::{types_equal, Type};

fn here() -> SourceLocation {
    SourceLocation::new(1, 1)
}

fn field_decl(name: &str, ty: Type, modifiers: Vec<Modifier>) -> ClassMember {
    ClassMember::Field(FieldDecl {
        name: name.to_string(),
        field_type: ty,
        modifiers,
        initializer: None,
        loc: here(),
    })
}

fn class_decl(name: &str, parent: Option<&str>, members: Vec<ClassMember>) -> ClassDecl {
    ClassDecl {
        name: name.to_string(),
        modifiers: vec![],
        parent: parent.map(|p| p.to_string()),
        interfaces: vec![],
        members,
        loc: here(),
    }
}

fn collected(classes: Vec<ClassDecl>) -> SemanticAnalyzer {
    let program = Program { classes, interfaces: vec![] };
    let mut a = SemanticAnalyzer::new();
    a.collect_classes(&program).unwrap();
    a.analyze_methods(&program).unwrap();
    a
}

#[test]
fn duplicate_class_is_rejected() {
    let mut a = SemanticAnalyzer::new();
    let program = Program {
        classes: vec![class_decl("A", None, vec![]), class_decl("A", None, vec![])],
        interfaces: vec![],
    };
    let e = a.collect_classes(&program).unwrap_err();
    assert!(matches!(e.kind, ErrorKind::DuplicateDefinition { ref name } if name == "A"));
    // the first registration survives
    assert!(a.type_registry.class_exists("A"));
}

#[test]
fn classes_and_interfaces_share_one_namespace() {
    let mut reg = TypeRegistry::new();
    reg.register_interface(InterfaceInfo::new("Shape".to_string(), here()))
        .unwrap();
    let mut a = SemanticAnalyzer::new();
    a.type_registry = reg;
    let program = Program { classes: vec![class_decl("Shape", None, vec![])], interfaces: vec![] };
    let e = a.collect_classes(&program).unwrap_err();
    assert!(matches!(e.kind, ErrorKind::DuplicateDefinition { .. }));
}

#[test]
fn lookups_never_panic_on_missing_names() {
    let reg = TypeRegistry::new();
    assert!(!reg.class_exists("Nope"));
    assert!(reg.get_class("Nope").is_none());
    assert!(reg.get_interface("Nope").is_none());
    assert!(reg.instance_size("Nope").is_none());
    assert!(reg.get_instance_field("Nope", "f").is_none());
}

#[test]
fn subclass_layout_extends_parent_layout() {
    let a = collected(vec![
        class_decl(
            "A",
            None,
            vec![
                field_decl("f0", Type::Int32, vec![]),
                field_decl("f1", Type::Int64, vec![]),
            ],
        ),
        class_decl("B", Some("A"), vec![field_decl("f2", Type::Char, vec![])]),
    ]);
    let reg = &a.type_registry;
    assert_eq!(reg.instance_size("A"), Some(12));
    assert_eq!(reg.instance_size("B"), Some(13));

    let (off_a0, ty_a0) = reg.get_instance_field("A", "f0").unwrap();
    let (off_b0, ty_b0) = reg.get_instance_field("B", "f0").unwrap();
    assert_eq!(off_a0, 0);
    assert_eq!(off_b0, 0);
    assert!(types_equal(&ty_a0, &Type::Int32));
    assert!(types_equal(&ty_b0, &Type::Int32));

    let (off_a1, _) = reg.get_instance_field("A", "f1").unwrap();
    let (off_b1, _) = reg.get_instance_field("B", "f1").unwrap();
    assert_eq!(off_a1, 4);
    assert_eq!(off_b1, 4);

    let (off_b2, ty_b2) = reg.get_instance_field("B", "f2").unwrap();
    assert_eq!(off_b2, 12);
    assert!(types_equal(&ty_b2, &Type::Char));

    // a field declared only by the subclass is invisible through the parent
    assert!(reg.get_instance_field("A", "f2").is_none());
}

#[test]
fn static_fields_take_no_layout_space() {
    let a = collected(vec![class_decl(
        "C",
        None,
        vec![
            field_decl("s", Type::Int64, vec![Modifier::Static]),
            field_decl("x", Type::Int32, vec![]),
        ],
    )]);
    let reg = &a.type_registry;
    assert_eq!(reg.instance_size("C"), Some(4));
    assert!(reg.get_instance_field("C", "s").is_none());
    let (off_x, _) = reg.get_instance_field("C", "x").unwrap();
    assert_eq!(off_x, 0);
}

#[test]
fn nearest_field_declaration_wins_through_subclass() {
    let a = collected(vec![
        class_decl("A", None, vec![field_decl("x", Type::Int64, vec![])]),
        class_decl("B", Some("A"), vec![field_decl("x", Type::Int32, vec![])]),
    ]);
    let reg = &a.type_registry;
    // through B the redeclared field is its own, placed after A's layout
    let (off, ty) = reg.get_instance_field("B", "x").unwrap();
    assert_eq!(off, 8);
    assert!(types_equal(&ty, &Type::Int32));
    // through A the base declaration remains at offset zero
    let (off_a, _) = reg.get_instance_field("A", "x").unwrap();
    assert_eq!(off_a, 0);
}

#[test]
fn const_expr_flag_requires_static_final_literal() {
    let lit_init = ClassMember::Field(FieldDecl {
        name: "k".to_string(),
        field_type: Type::Int32,
        modifiers: vec![Modifier::Static, Modifier::Final],
        initializer: Some(Expr::Literal(Type::Int32)),
        loc: here(),
    });
    let computed_init = ClassMember::Field(FieldDecl {
        name: "c".to_string(),
        field_type: Type::Int32,
        modifiers: vec![Modifier::Static, Modifier::Final],
        initializer: Some(Expr::Computed(Type::Int32)),
        loc: here(),
    });
    let non_static = ClassMember::Field(FieldDecl {
        name: "n".to_string(),
        field_type: Type::Int32,
        modifiers: vec![Modifier::Final],
        initializer: Some(Expr::Literal(Type::Int32)),
        loc: here(),
    });
    let a = collected(vec![class_decl("K", None, vec![lit_init, computed_init, non_static])]);
    let c = a.type_registry.get_class("K").unwrap();
    assert_eq!(c.fields.len(), 3);
    assert!(c.fields[0].is_const_expr);
    assert!(!c.fields[1].is_const_expr);
    assert!(!c.fields[2].is_const_expr);
}

#[test]
fn method_analysis_attaches_overload_sets() {
    let m1 = ClassMember::Method(MethodDecl {
        name: "f".to_string(),
        modifiers: vec![Modifier::Public],
        return_type: Type::Void,
        params: vec![],
        body: None,
        loc: here(),
    });
    let m2 = ClassMember::Method(MethodDecl {
        name: "f".to_string(),
        modifiers: vec![Modifier::Public],
        return_type: Type::Void,
        params: vec![cavvy::types::ParameterInfo::new("a".to_string(), Type::Int32)],
        body: None,
        loc: here(),
    });
    let a = collected(vec![class_decl("O", None, vec![m1, m2])]);
    let c = a.type_registry.get_class("O").unwrap();
    assert_eq!(c.methods.len(), 2);
    assert_eq!(c.methods[0].name, "f");
    assert_eq!(c.methods[1].params.len(), 1);
}

#[test]
fn interface_methods_are_normalized_public_instance() {
    let decl = InterfaceDecl {
        name: "Runnable".to_string(),
        modifiers: vec![Modifier::Public],
        methods: vec![MethodDecl {
            name: "run".to_string(),
            modifiers: vec![Modifier::Static, Modifier::Final],
            return_type: Type::Void,
            params: vec![],
            body: None,
            loc: here(),
        }],
        loc: here(),
    };
    let program = Program { classes: vec![], interfaces: vec![decl] };
    let mut a = SemanticAnalyzer::new();
    a.collect_classes(&program).unwrap();
    let it = a.type_registry.get_interface("Runnable").unwrap();
    assert_eq!(it.methods.len(), 1);
    let m = &it.methods[0];
    assert_eq!(m.name, "run");
    assert_eq!(m.class_name, "Runnable");
    // interface methods are implicitly public, never static, never final
    assert!(m.is_public);
    assert!(!m.is_static);
    assert!(!m.is_final);
    assert!(!m.is_override);
}

#[test]
fn interfaces_register_before_classes() {
    // a class may implement an interface declared after it in the unit;
    // collection registers every interface first
    let iface = InterfaceDecl {
        name: "Late".to_string(),
        modifiers: vec![],
        methods: vec![],
        loc: here(),
    };
    let mut cls = class_decl("User", None, vec![]);
    cls.interfaces = vec!["Late".to_string()];
    let program = Program { classes: vec![cls], interfaces: vec![iface] };
    let mut a = SemanticAnalyzer::new();
    a.collect_classes(&program).unwrap();
    assert!(a.type_registry.get_interface("Late").is_some());
    let c = a.type_registry.get_class("User").unwrap();
    assert_eq!(c.interfaces, vec!["Late".to_string()]);
}
