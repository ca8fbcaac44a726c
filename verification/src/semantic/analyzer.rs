//! The semantic analyzer: the registry it populates, the scoped symbol
//! table it checks with, the class/method cursor, and the accumulated
//! type-checking diagnostics.

use vstd::prelude::*;
use crate::error::SemanticError;
use crate::registry::{ClassV, InterfaceV, TypeRegistry};
use crate::semantic::symbol_table::{SemanticSymbolInfoV, SemanticSymbolTable};

verus! {

/// State of semantic analysis for one compilation unit.
pub struct SemanticAnalyzer {
    pub type_registry: TypeRegistry,
    pub symbol_table: SemanticSymbolTable,
    pub current_class: Option<String>,
    pub current_method: Option<String>,
    pub errors: Vec<SemanticError>,
}

impl SemanticAnalyzer {
    /// A fresh analyzer: empty registry, one empty scope, no diagnostics.
    pub fn new() -> (r: Self)
        ensures
            r.type_registry@.classes == Seq::<ClassV>::empty(),
            r.type_registry@.interfaces == Seq::<InterfaceV>::empty(),
            r.symbol_table@ =~= seq![Map::<Seq<char>, SemanticSymbolInfoV>::empty()],
            r.current_class is None,
            r.current_method is None,
            r.errors@.len() == 0,
    {
        SemanticAnalyzer {
            type_registry: TypeRegistry::new(),
            symbol_table: SemanticSymbolTable::new(),
            current_class: None,
            current_method: None,
            errors: Vec::new(),
        }
    }
}

} // verus!
