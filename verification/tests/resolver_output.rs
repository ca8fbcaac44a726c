//! Tests of the resolver's priority order, member-access handling, the
//! emitted runtime header, the substring bounds rule, and output paths.

use cavvy::ast::{ClassDecl, ClassMember, FieldDecl, Modifier, Program, SourceLocation};
use cavvy::codegen::context::{IRGenerator, Receiver, Resolution};
use cavvy::codegen::member::{MemberAccessExpr, ObjectExpr};
use cavvy::codegen::runtime::{emit, substring_bounds};
use cavvy::codegen::scope::CodegenSymbolInfo;
use cavvy::error::ErrorKind;
use cavvy::paths::default_output_path;
use cavvy::registry::TypeRegistry;
use cavvy::semantic::analyzer::SemanticAnalyzer;
use cavvy::types::{types_equal, Type};

fn here() -> SourceLocation {
    SourceLocation::new(0, 0)
}

fn field_decl(name: &str, ty: Type, modifiers: Vec<Modifier>) -> ClassMember {
    ClassMember::Field(FieldDecl {
        name: name.to_string(),
        field_type: ty,
        modifiers,
        initializer: None,
        loc: here(),
    })
}

fn registry_with(classes: Vec<ClassDecl>) -> TypeRegistry {
    let program = Program { classes, interfaces: vec![] };
    let mut a = SemanticAnalyzer::new();
    a.collect_classes(&program).unwrap();
    a.analyze_methods(&program).unwrap();
    a.type_registry
}

fn sample_generator() -> IRGenerator {
    let reg = registry_with(vec![
        ClassDecl {
            name: "C".to_string(),
            modifiers: vec![],
            parent: None,
            interfaces: vec![],
            members: vec![
                field_decl("x", Type::Int64, vec![Modifier::Static]),
                field_decl("x", Type::Int32, vec![]),
                field_decl("y", Type::Int32, vec![]),
            ],
            loc: here(),
        },
        ClassDecl {
            name: "D".to_string(),
            modifiers: vec![],
            parent: Some("C".to_string()),
            interfaces: vec![],
            members: vec![field_decl("z", Type::Char, vec![])],
            loc: here(),
        },
    ]);
    let mut gen = IRGenerator::new(reg);
    gen.current_class = "C".to_string();
    gen
}

fn local(name: &str, ty: Type, storage: &str) -> CodegenSymbolInfo {
    CodegenSymbolInfo { name: name.to_string(), symbol_type: ty, storage: storage.to_string() }
}

#[test]
fn class_name_resolves_to_placeholder() {
    let gen = sample_generator();
    let r = gen.generate_identifier("C").unwrap();
    assert!(matches!(r, Resolution::ClassPlaceholder));
}

#[test]
fn static_field_wins_over_instance_field() {
    let gen = sample_generator();
    // C has both a static and an instance field named x and no local is in
    // scope: the static field wins.
    match gen.generate_identifier("x").unwrap() {
        Resolution::StaticLoad { symbol, ty } => {
            assert_eq!(symbol, "C.x");
            assert!(types_equal(&ty, &Type::Int64));
        },
        other => panic!("unexpected resolution: {:?}", other),
    }
}

#[test]
fn local_shadows_instance_field() {
    let mut gen = sample_generator();
    // y is an instance field; without a local it loads through the receiver
    match gen.generate_identifier("y").unwrap() {
        Resolution::FieldLoad { receiver, offset, ty } => {
            assert_eq!(receiver, Receiver::This);
            // x (Int32) occupies the first four bytes of C's layout
            assert_eq!(offset, 4);
            assert!(types_equal(&ty, &Type::Int32));
        },
        other => panic!("unexpected resolution: {:?}", other),
    }
    // a local y shadows the instance field
    gen.scope.declare("y".to_string(), local("y", Type::Int64, "y_s1"));
    match gen.generate_identifier("y").unwrap() {
        Resolution::LocalLoad { storage, ty } => {
            assert_eq!(storage, "y_s1");
            assert!(types_equal(&ty, &Type::Int64));
        },
        other => panic!("unexpected resolution: {:?}", other),
    }
}

#[test]
fn unresolved_identifier_fails_loudly() {
    let gen = sample_generator();
    let e = gen.generate_identifier("nothing").unwrap_err();
    assert!(matches!(
        e.kind,
        ErrorKind::UnresolvedIdentifier { ref name } if name == "nothing"
    ));
}

#[test]
fn member_access_on_class_name_is_static() {
    let gen = sample_generator();
    let access = MemberAccessExpr {
        object: ObjectExpr::Name("C".to_string()),
        member: "x".to_string(),
    };
    match gen.generate_member_access(&access).unwrap() {
        Resolution::StaticLoad { symbol, .. } => assert_eq!(symbol, "C.x"),
        other => panic!("unexpected resolution: {:?}", other),
    }
}

#[test]
fn array_length_reads_the_header() {
    let mut gen = sample_generator();
    gen.scope.declare(
        "nums".to_string(),
        local("nums", Type::Array(Box::new(Type::Int32)), "nums_s1"),
    );
    let access = MemberAccessExpr {
        object: ObjectExpr::Name("nums".to_string()),
        member: "length".to_string(),
    };
    assert!(matches!(gen.generate_member_access(&access).unwrap(), Resolution::ArrayLength));

    let typed = MemberAccessExpr {
        object: ObjectExpr::Typed(Type::Array(Box::new(Type::Char))),
        member: "length".to_string(),
    };
    assert!(matches!(gen.generate_member_access(&typed).unwrap(), Resolution::ArrayLength));

    // a non-array receiver named length degrades instead
    let not_array = MemberAccessExpr {
        object: ObjectExpr::Typed(Type::Int32),
        member: "length".to_string(),
    };
    assert!(matches!(gen.generate_member_access(&not_array).unwrap(), Resolution::OpaquePointer));
}

#[test]
fn this_member_uses_the_current_class_layout() {
    let gen = sample_generator();
    let access = MemberAccessExpr {
        object: ObjectExpr::Name("this".to_string()),
        member: "y".to_string(),
    };
    match gen.generate_member_access(&access).unwrap() {
        Resolution::FieldLoad { receiver, offset, .. } => {
            assert_eq!(receiver, Receiver::This);
            assert_eq!(offset, 4);
        },
        other => panic!("unexpected resolution: {:?}", other),
    }
}

#[test]
fn object_member_uses_the_variables_class_layout() {
    let mut gen = sample_generator();
    cavvy::codegen::context::record_var_class(
        &mut gen.var_classes,
        "d".to_string(),
        "D".to_string(),
    );
    // z sits after C's full instance layout (x Int32 + y Int32 = 8 bytes)
    let access = MemberAccessExpr {
        object: ObjectExpr::Name("d".to_string()),
        member: "z".to_string(),
    };
    match gen.generate_member_access(&access).unwrap() {
        Resolution::FieldLoad { receiver, offset, ty } => {
            assert_eq!(receiver, Receiver::Value);
            assert_eq!(offset, 8);
            assert!(types_equal(&ty, &Type::Char));
        },
        other => panic!("unexpected resolution: {:?}", other),
    }
    // inherited fields keep their parent offsets through the subclass
    let inherited = MemberAccessExpr {
        object: ObjectExpr::Name("d".to_string()),
        member: "y".to_string(),
    };
    match gen.generate_member_access(&inherited).unwrap() {
        Resolution::FieldLoad { offset, .. } => assert_eq!(offset, 4),
        other => panic!("unexpected resolution: {:?}", other),
    }
}

#[test]
fn unknown_member_degrades_to_opaque_pointer() {
    let gen = sample_generator();
    let access = MemberAccessExpr {
        object: ObjectExpr::Typed(Type::Str),
        member: "whatever".to_string(),
    };
    assert!(matches!(gen.generate_member_access(&access).unwrap(), Resolution::OpaquePointer));
}

#[test]
fn legacy_header_emits_declarations_and_two_routines() {
    let mut gen = IRGenerator::new(TypeRegistry::new());
    gen.emit_header();
    let out = &gen.output;
    assert_eq!(out[0], "; EOL (Ethernos Object Language) Generated LLVM IR");
    assert!(out.contains(&"declare i64 @strlen(i8*)".to_string()));
    assert!(out.contains(&"define i8* @__eol_string_concat(i8* %a, i8* %b) {".to_string()));
    assert!(out.contains(&"define i8* @__eol_float_to_string(double %value) {".to_string()));
    assert!(!out.contains(&"define i8* @__eol_int_to_string(i64 %value) {".to_string()));
}

#[test]
fn full_header_emits_every_runtime_routine() {
    let mut gen = IRGenerator::new(TypeRegistry::new());
    emit(&mut gen);
    let out = &gen.output;
    for needle in [
        "define i8* @__eol_string_concat(i8* %a, i8* %b) {",
        "define i8* @__eol_float_to_string(double %value) {",
        "define i8* @__eol_int_to_string(i64 %value) {",
        "define i8* @__cay_bool_to_string(i1 %value) {",
        "define i8* @__eol_char_to_string(i8 %value) {",
        "define i32 @__cay_string_length(i8* %str) {",
        "define i8* @__eol_string_substring(i8* %str, i32 %begin, i32 %end) {",
        "define i32 @__eol_string_indexof(i8* %str, i8* %substr) {",
        "define i8 @__eol_string_charat(i8* %str, i32 %index) {",
        "declare i32 @strncmp(i8*, i8*, i64)",
    ] {
        assert!(out.contains(&needle.to_string()), "missing line: {}", needle);
    }
}

#[test]
fn static_slots_are_collected_up_front() {
    let gen = sample_generator();
    assert_eq!(gen.static_fields.len(), 1);
    assert_eq!(gen.static_fields[0].symbol, "C.x");
    assert_eq!(gen.static_fields[0].class_name, "C");
    assert_eq!(gen.static_fields[0].field_name, "x");
}

#[test]
fn substring_bounds_clamp_out_of_range() {
    // for a string of length 7, substring(-3, 12) clamps to substring(0, 7)
    assert_eq!(substring_bounds(-3, 12, 7), (0, 7));
    assert_eq!(substring_bounds(-3, 5, 0), (0, 0));
}

#[test]
fn substring_bounds_reversed_range_is_empty() {
    let (b, e) = substring_bounds(5, 2, 10);
    assert_eq!(e - b, 0);
}

#[test]
fn substring_bounds_in_range_pass_through() {
    assert_eq!(substring_bounds(2, 5, 10), (2, 5));
    assert_eq!(substring_bounds(0, 10, 10), (0, 10));
}

#[test]
fn default_output_path_replaces_source_extension() {
    assert_eq!(default_output_path("prog.cay"), "prog.ll");
    assert_eq!(default_output_path("dir.cay.cay"), "dir.cay.ll");
    assert_eq!(default_output_path("plain"), "plain.ll");
    assert_eq!(default_output_path(""), ".ll");
}

#[test]
fn resolution_without_a_class_context() {
    let reg = registry_with(vec![ClassDecl {
        name: "C".to_string(),
        modifiers: vec![],
        parent: None,
        interfaces: vec![],
        members: vec![field_decl("x", Type::Int32, vec![Modifier::Static])],
        loc: here(),
    }]);
    let mut gen = IRGenerator::new(reg);
    // no enclosing class: a class name is still a placeholder
    assert!(matches!(gen.generate_identifier("C").unwrap(), Resolution::ClassPlaceholder));
    // without a class context the static and instance rules cannot apply
    let e = gen.generate_identifier("x").unwrap_err();
    assert!(matches!(e.kind, ErrorKind::UnresolvedIdentifier { .. }));
    // but a scope binding still resolves
    gen.scope.declare("x".to_string(), local("x", Type::Int32, "x_s1"));
    assert!(matches!(gen.generate_identifier("x").unwrap(), Resolution::LocalLoad { .. }));
}
