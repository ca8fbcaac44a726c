//! Front and middle end of a compiler for a small class-based object
//! language: a type registry with inheritance validation and memory-layout
//! computation, scoped symbol tables, and the resolver that turns bare names
//! and member accesses into concrete storage locations for the IR emitter.

pub mod ast;
pub mod codegen;
pub mod error;
pub mod paths;
pub mod registry;
pub mod semantic;
pub mod types;
