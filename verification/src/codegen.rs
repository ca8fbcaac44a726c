//! Code generation for the object model: the generator context, the scoped
//! code-generation symbol table, the identifier and member-access resolver,
//! and the fixed runtime-support routines emitted into every module.

pub mod context;
pub mod identifier;
pub mod member;
pub mod runtime;
pub mod scope;
