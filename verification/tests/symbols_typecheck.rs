//! Tests of the scoped symbol table, the type-checking walk, and the
//! argument and string-method rules.

use cavvy::ast::{
    Block, ClassDecl, ClassMember, Expr, MethodDecl, Modifier, Program, SourceLocation, Stmt,
    VarDeclStmt,
};
use cavvy::error::ErrorKind;
use cavvy::semantic::analyzer::SemanticAnalyzer;
use cavvy::semantic::symbol_table::{SemanticSymbolInfo, SemanticSymbolTable};
use cavvy::types::{types_equal, ParameterInfo, Type};

fn sym(name: &str, ty: Type, initialized: bool) -> SemanticSymbolInfo {
    SemanticSymbolInfo {
        name: name.to_string(),
        symbol_type: ty,
        is_final: false,
        is_initialized: initialized,
    }
}

#[test]
fn inner_scope_shadows_outer() {
    let mut t = SemanticSymbolTable::new();
    t.declare("x".to_string(), sym("x", Type::Int32, true));
    t.enter_scope();
    t.declare("x".to_string(), sym("x", Type::Str, false));
    let inner = t.lookup("x").unwrap();
    assert!(types_equal(&inner.symbol_type, &Type::Str));
    t.exit_scope();
    let outer = t.lookup("x").unwrap();
    assert!(types_equal(&outer.symbol_type, &Type::Int32));
}

#[test]
fn lookup_walks_outward_and_misses_cleanly() {
    let mut t = SemanticSymbolTable::new();
    t.declare("a".to_string(), sym("a", Type::Bool, true));
    t.enter_scope();
    assert!(t.lookup("a").is_some());
    assert!(t.lookup_current("a").is_none());
    assert!(t.lookup("b").is_none());
}

#[test]
fn update_flips_payload_in_nearest_frame() {
    let mut t = SemanticSymbolTable::new();
    t.declare("x".to_string(), sym("x", Type::Int32, false));
    t.enter_scope();
    assert!(t.update("x", sym("x", Type::Int32, true)));
    t.exit_scope();
    assert!(t.lookup("x").unwrap().is_initialized);
}

#[test]
fn update_never_declares() {
    let mut t = SemanticSymbolTable::new();
    assert!(!t.update("ghostly", sym("ghostly", Type::Int32, true)));
    assert!(t.lookup("ghostly").is_none());
}

#[test]
fn outermost_scope_survives_exit() {
    let mut t = SemanticSymbolTable::new();
    t.declare("x".to_string(), sym("x", Type::Int32, true));
    t.exit_scope();
    t.exit_scope();
    assert!(t.lookup("x").is_some());
}

fn var_decl(name: &str, ty: Type, init: Option<Expr>) -> Stmt {
    Stmt::VarDecl(VarDeclStmt {
        name: name.to_string(),
        var_type: ty,
        is_final: false,
        initializer: init,
        loc: SourceLocation::new(9, 1),
    })
}

#[test]
fn incompatible_initializer_is_accumulated() {
    let mut a = SemanticAnalyzer::new();
    let stmt = var_decl("x", Type::Int32, Some(Expr::Literal(Type::Str)));
    a.type_check_statement(&stmt, None).unwrap();
    assert_eq!(a.errors.len(), 1);
    assert!(matches!(a.errors[0].kind, ErrorKind::IncompatibleAssignment { .. }));
    assert_eq!(a.errors[0].loc.line, 9);
    // the declaration still binds the name
    assert!(a.symbol_table.lookup("x").is_some());
}

#[test]
fn compatible_initializer_passes_silently() {
    let mut a = SemanticAnalyzer::new();
    let stmt = var_decl("x", Type::Int64, Some(Expr::Literal(Type::Int32)));
    a.type_check_statement(&stmt, None).unwrap();
    assert!(a.errors.is_empty());
}

#[test]
fn return_type_mismatches_accumulate_without_aborting() {
    let body = Block {
        statements: vec![
            var_decl("x", Type::Int32, Some(Expr::Literal(Type::Str))),
            Stmt::Return(Some(Expr::Literal(Type::Str))),
            Stmt::Return(None),
        ],
    };
    let program = Program {
        classes: vec![ClassDecl {
            name: "C".to_string(),
            modifiers: vec![],
            parent: None,
            interfaces: vec![],
            members: vec![ClassMember::Method(MethodDecl {
                name: "m".to_string(),
                modifiers: vec![Modifier::Public],
                return_type: Type::Int32,
                params: vec![],
                body: Some(body),
                loc: SourceLocation::new(0, 0),
            })],
            loc: SourceLocation::new(0, 0),
        }],
        interfaces: vec![],
    };
    let mut a = SemanticAnalyzer::new();
    a.type_check_program(&program).unwrap();
    assert_eq!(a.errors.len(), 3);
    assert!(matches!(a.errors[0].kind, ErrorKind::IncompatibleAssignment { .. }));
    assert!(matches!(a.errors[1].kind, ErrorKind::ReturnTypeMismatch { .. }));
    assert!(matches!(a.errors[2].kind, ErrorKind::ReturnTypeMismatch { .. }));
    assert!(a.current_class.is_none());
    assert!(a.current_method.is_none());
}

#[test]
fn block_scopes_do_not_leak_bindings() {
    let mut a = SemanticAnalyzer::new();
    let inner = Stmt::Block(Block {
        statements: vec![var_decl("local", Type::Int32, None)],
    });
    a.type_check_statement(&inner, None).unwrap();
    assert!(a.symbol_table.lookup("local").is_none());
}

#[test]
fn exact_argument_counts_are_enforced() {
    let a = SemanticAnalyzer::new();
    let params = vec![ParameterInfo::new("a".to_string(), Type::Int32)];
    let ok = a.check_arguments_compatible(&vec![Expr::Literal(Type::Int32)], &params, 1, 1);
    assert!(ok.is_ok());
    let e = a.check_arguments_compatible(&vec![], &params, 1, 1).unwrap_err();
    assert!(matches!(
        e.kind,
        ErrorKind::ArgumentCountMismatch { min: 1, max: 1, got: 0 }
    ));
}

#[test]
fn zero_parameter_calls_take_no_arguments() {
    let a = SemanticAnalyzer::new();
    let e = a
        .check_arguments_compatible(&vec![Expr::Literal(Type::Int32)], &vec![], 1, 1)
        .unwrap_err();
    assert!(matches!(
        e.kind,
        ErrorKind::ArgumentCountMismatch { min: 0, max: 0, got: 1 }
    ));
}

#[test]
fn argument_type_mismatch_reports_lowest_index() {
    let a = SemanticAnalyzer::new();
    let params = vec![
        ParameterInfo::new("a".to_string(), Type::Int32),
        ParameterInfo::new("b".to_string(), Type::Str),
    ];
    let args = vec![Expr::Literal(Type::Str), Expr::Literal(Type::Int32)];
    let e = a.check_arguments_compatible(&args, &params, 1, 1).unwrap_err();
    assert!(matches!(e.kind, ErrorKind::ArgumentTypeMismatch { index: 0, .. }));
}

#[test]
fn varargs_accept_any_trailing_count() {
    let a = SemanticAnalyzer::new();
    let params = vec![
        ParameterInfo::new("fmt".to_string(), Type::Str),
        ParameterInfo::new_varargs("rest".to_string(), Type::Array(Box::new(Type::Int64))),
    ];
    // just the fixed argument
    assert!(a
        .check_arguments_compatible(&vec![Expr::Literal(Type::Str)], &params, 1, 1)
        .is_ok());
    // several varargs, checked against the element type
    let args = vec![
        Expr::Literal(Type::Str),
        Expr::Literal(Type::Int32),
        Expr::Literal(Type::Int64),
    ];
    assert!(a.check_arguments_compatible(&args, &params, 1, 1).is_ok());
    // a bad vararg reports its position
    let bad = vec![Expr::Literal(Type::Str), Expr::Literal(Type::Str)];
    let e = a.check_arguments_compatible(&bad, &params, 1, 1).unwrap_err();
    assert!(matches!(e.kind, ErrorKind::ArgumentTypeMismatch { index: 1, .. }));
    // too few fixed arguments
    let e2 = a.check_arguments_compatible(&vec![], &params, 1, 1).unwrap_err();
    assert!(matches!(e2.kind, ErrorKind::ArgumentCountMismatch { min: 1, got: 0, .. }));
}

#[test]
fn string_method_signatures() {
    let a = SemanticAnalyzer::new();
    let ok = a.infer_string_method_call("length", &vec![], 1, 1).unwrap();
    assert!(types_equal(&ok, &Type::Int32));

    let sub = a
        .infer_string_method_call(
            "substring",
            &vec![Expr::Literal(Type::Int32), Expr::Literal(Type::Int64)],
            1,
            1,
        )
        .unwrap();
    assert!(types_equal(&sub, &Type::Str));

    let idx = a
        .infer_string_method_call("indexOf", &vec![Expr::Literal(Type::Str)], 1, 1)
        .unwrap();
    assert!(types_equal(&idx, &Type::Int32));

    let ch = a
        .infer_string_method_call("charAt", &vec![Expr::Literal(Type::Int32)], 1, 1)
        .unwrap();
    assert!(types_equal(&ch, &Type::Char));

    let rep = a
        .infer_string_method_call(
            "replace",
            &vec![Expr::Literal(Type::Str), Expr::Literal(Type::Str)],
            1,
            1,
        )
        .unwrap();
    assert!(types_equal(&rep, &Type::Str));
}

#[test]
fn string_method_errors() {
    let a = SemanticAnalyzer::new();
    let e = a
        .infer_string_method_call("length", &vec![Expr::Literal(Type::Int32)], 1, 1)
        .unwrap_err();
    assert!(matches!(e.kind, ErrorKind::ArgumentCountMismatch { min: 0, max: 0, got: 1 }));

    let e2 = a
        .infer_string_method_call("substring", &vec![Expr::Literal(Type::Str)], 1, 1)
        .unwrap_err();
    assert!(matches!(e2.kind, ErrorKind::ArgumentTypeMismatch { index: 0, .. }));

    let e3 = a.infer_string_method_call("substring", &vec![], 1, 1).unwrap_err();
    assert!(matches!(e3.kind, ErrorKind::ArgumentCountMismatch { min: 1, max: 2, got: 0 }));

    let e4 = a
        .infer_string_method_call("indexOf", &vec![Expr::Literal(Type::Int32)], 1, 1)
        .unwrap_err();
    assert!(matches!(e4.kind, ErrorKind::ArgumentTypeMismatch { index: 0, .. }));

    let e5 = a
        .infer_string_method_call("charAt", &vec![Expr::Literal(Type::Str)], 1, 1)
        .unwrap_err();
    assert!(matches!(e5.kind, ErrorKind::ArgumentTypeMismatch { index: 0, .. }));

    let e6 = a
        .infer_string_method_call(
            "replace",
            &vec![Expr::Literal(Type::Str), Expr::Literal(Type::Int32)],
            1,
            1,
        )
        .unwrap_err();
    assert!(matches!(e6.kind, ErrorKind::ArgumentTypeMismatch { index: 1, .. }));

    let e7 = a.infer_string_method_call("trim", &vec![], 1, 1).unwrap_err();
    assert!(matches!(e7.kind, ErrorKind::UnknownStringMethod { ref name } if name == "trim"));
}
