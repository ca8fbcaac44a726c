//! Diagnostics: every error the registry, the validator, the type checker
//! and the resolver can report, each anchored to a source location where one
//! is available.

use vstd::prelude::*;
use crate::ast::SourceLocation;
use crate::types::{Type, TypeV};

verus! {

/// The kind of a diagnostic.
///
/// `ArgumentCountMismatch` carries the acceptable count range: an exact
/// requirement has `min == max`, and an open-ended "at least" requirement
/// has `max == usize::MAX`.
///
/// `UnresolvedIdentifier` marks an internal invariant violation: a name that
/// reached code generation without semantic analysis having resolved it. It
/// is never user-triggerable when the earlier phases are correct.
#[derive(Debug)]
pub enum ErrorKind {
    DuplicateDefinition { name: String },
    UndefinedParent { class_name: String, parent: String },
    InheritFromFinal { class_name: String, parent: String },
    CircularInheritance { class_name: String },
    OverrideWithoutParent { method: String, class_name: String },
    InvalidOverride { method: String, class_name: String, parent: String },
    OverrideOfFinalMethod { method: String, ancestor: String },
    AmbiguousMain { candidates: Vec<String> },
    MultipleMainMarkers { marked: Vec<String> },
    ArgumentCountMismatch { min: usize, max: usize, got: usize },
    ArgumentTypeMismatch { index: usize, expected: Type, actual: Type },
    IncompatibleAssignment { from: Type, to: Type },
    ReturnTypeMismatch { expected: Type, actual: Type },
    UnknownStringMethod { name: String },
    UnresolvedIdentifier { name: String },
}

/// Specification view of [`ErrorKind`].
pub enum ErrorKindV {
    DuplicateDefinition { name: Seq<char> },
    UndefinedParent { class_name: Seq<char>, parent: Seq<char> },
    InheritFromFinal { class_name: Seq<char>, parent: Seq<char> },
    CircularInheritance { class_name: Seq<char> },
    OverrideWithoutParent { method: Seq<char>, class_name: Seq<char> },
    InvalidOverride { method: Seq<char>, class_name: Seq<char>, parent: Seq<char> },
    OverrideOfFinalMethod { method: Seq<char>, ancestor: Seq<char> },
    AmbiguousMain { candidates: Seq<Seq<char>> },
    MultipleMainMarkers { marked: Seq<Seq<char>> },
    ArgumentCountMismatch { min: usize, max: usize, got: usize },
    ArgumentTypeMismatch { index: usize, expected: TypeV, actual: TypeV },
    IncompatibleAssignment { from: TypeV, to: TypeV },
    ReturnTypeMismatch { expected: TypeV, actual: TypeV },
    UnknownStringMethod { name: Seq<char> },
    UnresolvedIdentifier { name: Seq<char> },
}

impl View for ErrorKind {
    type V = ErrorKindV;

    open spec fn view(&self) -> ErrorKindV {
        match self {
            ErrorKind::DuplicateDefinition { name } => ErrorKindV::DuplicateDefinition {
                name: name@,
            },
            ErrorKind::UndefinedParent { class_name, parent } => ErrorKindV::UndefinedParent {
                class_name: class_name@,
                parent: parent@,
            },
            ErrorKind::InheritFromFinal { class_name, parent } => ErrorKindV::InheritFromFinal {
                class_name: class_name@,
                parent: parent@,
            },
            ErrorKind::CircularInheritance { class_name } => ErrorKindV::CircularInheritance {
                class_name: class_name@,
            },
            ErrorKind::OverrideWithoutParent { method, class_name } => (
            ErrorKindV::OverrideWithoutParent { method: method@, class_name: class_name@ }),
            ErrorKind::InvalidOverride { method, class_name, parent } => (
            ErrorKindV::InvalidOverride {
                method: method@,
                class_name: class_name@,
                parent: parent@,
            }),
            ErrorKind::OverrideOfFinalMethod { method, ancestor } => (
            ErrorKindV::OverrideOfFinalMethod { method: method@, ancestor: ancestor@ }),
            ErrorKind::AmbiguousMain { candidates } => ErrorKindV::AmbiguousMain {
                candidates: candidates@.map_values(|s: String| s@),
            },
            ErrorKind::MultipleMainMarkers { marked } => ErrorKindV::MultipleMainMarkers {
                marked: marked@.map_values(|s: String| s@),
            },
            ErrorKind::ArgumentCountMismatch { min, max, got } => (
            ErrorKindV::ArgumentCountMismatch { min: *min, max: *max, got: *got }),
            ErrorKind::ArgumentTypeMismatch { index, expected, actual } => (
            ErrorKindV::ArgumentTypeMismatch { index: *index, expected: expected@, actual: actual@ }),
            ErrorKind::IncompatibleAssignment { from, to } => ErrorKindV::IncompatibleAssignment {
                from: from@,
                to: to@,
            },
            ErrorKind::ReturnTypeMismatch { expected, actual } => ErrorKindV::ReturnTypeMismatch {
                expected: expected@,
                actual: actual@,
            },
            ErrorKind::UnknownStringMethod { name } => ErrorKindV::UnknownStringMethod {
                name: name@,
            },
            ErrorKind::UnresolvedIdentifier { name } => ErrorKindV::UnresolvedIdentifier {
                name: name@,
            },
        }
    }
}

/// A diagnostic with its source anchor. A `(0, 0)` location stands for "no
/// natural anchor".
#[derive(Debug)]
pub struct SemanticError {
    pub loc: SourceLocation,
    pub kind: ErrorKind,
}

/// Specification view of [`SemanticError`].
pub struct SemanticErrorV {
    pub loc: SourceLocation,
    pub kind: ErrorKindV,
}

impl View for SemanticError {
    type V = SemanticErrorV;

    open spec fn view(&self) -> SemanticErrorV {
        SemanticErrorV { loc: self.loc, kind: self.kind@ }
    }
}

impl SemanticError {
    pub fn new(loc: SourceLocation, kind: ErrorKind) -> (r: Self)
        ensures
            r@ == (SemanticErrorV { loc, kind: kind@ }),
    {
        SemanticError { loc, kind }
    }
}

/// The view of an accumulated diagnostic list.
pub open spec fn errors_view(es: Seq<SemanticError>) -> Seq<SemanticErrorV> {
    es.map_values(|e: SemanticError| e@)
}

} // verus!
