//! Tests of the type model: structural equality, compatibility, promotion.

use cavvy::semantic::analyzer::SemanticAnalyzer;
use cavvy::types::{size_of_type, type_is_integer, types_equal, Type};

fn obj(name: &str) -> Type {
    Type::Object(name.to_string())
}

fn arr(elem: Type) -> Type {
    Type::Array(Box::new(elem))
}

#[test]
fn equality_is_structural() {
    assert!(types_equal(&Type::Int32, &Type::Int32));
    assert!(!types_equal(&Type::Int32, &Type::Int64));
    assert!(types_equal(&obj("A"), &obj("A")));
    assert!(!types_equal(&obj("A"), &obj("B")));
    assert!(types_equal(&arr(Type::Int32), &arr(Type::Int32)));
    assert!(!types_equal(&arr(Type::Int32), &arr(Type::Int64)));
    assert!(!types_equal(&arr(Type::Int32), &Type::Int32));
}

#[test]
fn compatibility_reflexive_for_every_variant() {
    let a = SemanticAnalyzer::new();
    let samples = vec![
        Type::Void,
        Type::Bool,
        Type::Char,
        Type::Int32,
        Type::Int64,
        Type::Float32,
        Type::Float64,
        Type::Str,
        obj("Point"),
        arr(Type::Int64),
        arr(arr(Type::Char)),
    ];
    for t in &samples {
        assert!(a.types_compatible(t, t));
    }
}

#[test]
fn numeric_widenings_are_one_directional() {
    let a = SemanticAnalyzer::new();
    assert!(a.types_compatible(&Type::Int32, &Type::Int64));
    assert!(!a.types_compatible(&Type::Int64, &Type::Int32));
    assert!(a.types_compatible(&Type::Int32, &Type::Float32));
    assert!(a.types_compatible(&Type::Int32, &Type::Float64));
    assert!(a.types_compatible(&Type::Int64, &Type::Float64));
    assert!(!a.types_compatible(&Type::Float64, &Type::Int64));
}

#[test]
fn float_widths_convert_both_ways() {
    let a = SemanticAnalyzer::new();
    assert!(a.types_compatible(&Type::Float32, &Type::Float64));
    assert!(a.types_compatible(&Type::Float64, &Type::Float32));
}

#[test]
fn char_widens_to_integers() {
    let a = SemanticAnalyzer::new();
    assert!(a.types_compatible(&Type::Char, &Type::Int32));
    assert!(a.types_compatible(&Type::Char, &Type::Int64));
    assert!(!a.types_compatible(&Type::Int32, &Type::Char));
}

#[test]
fn null_object_flows_into_reference_types() {
    let a = SemanticAnalyzer::new();
    assert!(a.types_compatible(&obj("Object"), &obj("Point")));
    assert!(a.types_compatible(&obj("Object"), &Type::Str));
    assert!(!a.types_compatible(&obj("Object"), &Type::Int32));
}

#[test]
fn unrelated_object_types_are_incompatible() {
    let a = SemanticAnalyzer::new();
    assert!(!a.types_compatible(&obj("Point"), &obj("Shape")));
}

#[test]
fn arrays_are_covariant_elementwise() {
    let a = SemanticAnalyzer::new();
    assert!(a.types_compatible(&arr(Type::Int32), &arr(Type::Int64)));
    assert!(!a.types_compatible(&arr(Type::Int64), &arr(Type::Int32)));
    assert!(!a.types_compatible(&arr(Type::Int32), &Type::Int32));
}

#[test]
fn promotion_order() {
    let a = SemanticAnalyzer::new();
    assert!(types_equal(
        &a.promote_types(&Type::Int32, &Type::Float64),
        &Type::Float64
    ));
    assert!(types_equal(
        &a.promote_types(&Type::Float32, &Type::Int64),
        &Type::Float32
    ));
    assert!(types_equal(
        &a.promote_types(&Type::Int64, &Type::Int32),
        &Type::Int64
    ));
    assert!(types_equal(
        &a.promote_types(&Type::Char, &Type::Char),
        &Type::Int32
    ));
    assert!(types_equal(
        &a.promote_types(&Type::Char, &Type::Int32),
        &Type::Int32
    ));
    assert!(types_equal(
        &a.promote_types(&Type::Str, &Type::Bool),
        &Type::Str
    ));
}

#[test]
fn integer_promotion() {
    let a = SemanticAnalyzer::new();
    assert!(types_equal(
        &a.promote_integer_types(&Type::Int64, &Type::Int32),
        &Type::Int64
    ));
    assert!(types_equal(
        &a.promote_integer_types(&Type::Int32, &Type::Char),
        &Type::Int32
    ));
}

#[test]
fn sizes_and_integer_classification() {
    assert_eq!(size_of_type(&Type::Bool), 1);
    assert_eq!(size_of_type(&Type::Char), 1);
    assert_eq!(size_of_type(&Type::Int32), 4);
    assert_eq!(size_of_type(&Type::Int64), 8);
    assert_eq!(size_of_type(&Type::Str), 8);
    assert_eq!(size_of_type(&obj("A")), 8);
    assert_eq!(size_of_type(&arr(Type::Char)), 8);
    assert!(type_is_integer(&Type::Int32));
    assert!(type_is_integer(&Type::Int64));
    assert!(!type_is_integer(&Type::Char));
    assert!(!type_is_integer(&Type::Str));
}
