//! Semantic analysis: the analyzer state, the scoped symbol table, class
//! collection and inheritance validation, type checking, and the type
//! utility rules.

pub mod analyzer;
pub mod class_analysis;
pub mod symbol_table;
pub mod type_check;
pub mod type_utils;
