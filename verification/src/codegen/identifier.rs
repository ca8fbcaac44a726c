//! Bare-identifier resolution.
//!
//! Given the enclosing class (empty when none) and a name, the resolver
//! decides in a fixed priority order: a registered class name is an inert
//! placeholder for the enclosing member access; then the current class's
//! static field; then the active lexical scope; then an instance field of
//! the current class or an ancestor, loaded through the implicit receiver at
//! its layout offset. A name none of these covers is an internal resolution
//! error — semantic analysis must have rejected the program first — and is
//! reported loudly rather than lowered to a guessed load.

use vstd::prelude::*;
use crate::ast::SourceLocation;
use crate::codegen::context::{
    find_static, find_static_field, IRGenerator, Receiver, Resolution, ResolutionV, StaticFieldInfo,
};
use crate::codegen::scope::cg_scopes_lookup;
use crate::error::{ErrorKind, ErrorKindV, SemanticError};
use crate::registry::{field_slot_opt, has_class};
use crate::types::TypeV;

verus! {

/// An instance-field slot whose byte offset a machine word can hold.
pub open spec fn field_slot_fits(
    cs: Seq<crate::registry::ClassV>,
    cname: Seq<char>,
    fname: Seq<char>,
) -> Option<(int, TypeV)> {
    match field_slot_opt(cs, cname, fname) {
        Some((o, t)) => if 0 <= o <= u64::MAX as int {
            Some((o, t))
        } else {
            None
        },
        None => None,
    }
}

impl IRGenerator {
    /// Resolves a bare identifier in the fixed priority order: registered
    /// class name, current class's static field, lexical scope, instance
    /// field of the current class or an ancestor; anything else is an
    /// unresolved-identifier error.
    pub fn generate_identifier(&self, name: &str) -> (r: Result<Resolution, SemanticError>)
        ensures
            ({
                let cs = self.type_registry@.classes;
                let cls = self.current_class@;
                let sfs = self.static_fields@.map_values(|s: StaticFieldInfo| s@);
                if has_class(cs, name@) {
                    r matches Ok(res) && res@ == ResolutionV::ClassPlaceholder
                } else if cls.len() > 0 && find_static(sfs, cls, name@) is Some {
                    r matches Ok(res) && (res@ matches ResolutionV::StaticLoad { symbol, ty }
                        && symbol == find_static(sfs, cls, name@).unwrap().symbol && ty
                        == find_static(sfs, cls, name@).unwrap().field_type)
                } else if cg_scopes_lookup(self.scope@, name@) is Some {
                    r matches Ok(res) && (res@ matches ResolutionV::LocalLoad { storage, ty }
                        && storage == cg_scopes_lookup(self.scope@, name@).unwrap().storage && ty
                        == cg_scopes_lookup(self.scope@, name@).unwrap().symbol_type)
                } else if cls.len() > 0 && field_slot_fits(cs, cls, name@) is Some {
                    r matches Ok(res) && (res@ matches ResolutionV::FieldLoad {
                        receiver,
                        offset,
                        ty,
                    } && receiver == Receiver::This && offset as int == field_slot_fits(
                        cs,
                        cls,
                        name@,
                    ).unwrap().0 && ty == field_slot_fits(cs, cls, name@).unwrap().1)
                } else {
                    r matches Err(e) && e@.loc == (SourceLocation { line: 0, column: 0 })
                        && e@.kind == (ErrorKindV::UnresolvedIdentifier { name: name@ })
                }
            }),
    {
        if self.type_registry.class_exists(name) {
            return Ok(Resolution::ClassPlaceholder);
        }
        if !self.current_class.as_str().is_empty() {
            if let Some(sf) = find_static_field(
                &self.static_fields,
                self.current_class.as_str(),
                name,
            ) {
                return Ok(
                    Resolution::StaticLoad {
                        symbol: sf.symbol.clone(),
                        ty: sf.field_type.clone(),
                    },
                );
            }
        }
        if let Some(info) = self.scope.lookup(name) {
            return Ok(
                Resolution::LocalLoad {
                    storage: info.storage.clone(),
                    ty: info.symbol_type.clone(),
                },
            );
        }
        if !self.current_class.as_str().is_empty() {
            if let Some((offset, ty)) = self.type_registry.get_instance_field(
                self.current_class.as_str(),
                name,
            ) {
                return Ok(Resolution::FieldLoad { receiver: Receiver::This, offset, ty });
            }
        }
        Err(
            SemanticError::new(
                SourceLocation::none(),
                ErrorKind::UnresolvedIdentifier { name: name.to_owned() },
            ),
        )
    }
}

} // verus!
