//! Member-access resolution.
//!
//! A `ClassName.member` receiver is a static access; a `.length` access on a
//! value whose static type is an array loads the 32-bit element count from
//! the fixed header preceding element zero; otherwise the statically known
//! class of the receiver (`this` is the current class, an object-typed local
//! carries its class in the side map) selects an instance field by layout
//! offset within that class. When no class or field can be determined the
//! access degrades to the evaluated object's own pointer value typed as an
//! opaque byte pointer — a modeling gap of the object model, kept visible
//! here rather than hidden.

use vstd::prelude::*;
use crate::codegen::context::{
    find_static, find_static_field, find_var_class, lookup_var_class, IRGenerator, Receiver,
    Resolution, ResolutionV, StaticFieldInfo, VarClass,
};
use crate::codegen::identifier::field_slot_fits;
use crate::codegen::scope::cg_scopes_lookup;
use crate::error::SemanticError;
use crate::types::{str_eq, Type, TypeV};

verus! {

/// The receiver expression of a member access: a bare identifier (possibly
/// the receiver keyword or a class name), or any other expression already
/// lowered elsewhere, abstracted to its static type.
#[derive(Debug)]
pub enum ObjectExpr {
    Name(String),
    Typed(Type),
}

/// Specification view of [`ObjectExpr`].
pub enum ObjectExprV {
    Name(Seq<char>),
    Typed(TypeV),
}

impl View for ObjectExpr {
    type V = ObjectExprV;

    open spec fn view(&self) -> ObjectExprV {
        match self {
            ObjectExpr::Name(n) => ObjectExprV::Name(n@),
            ObjectExpr::Typed(t) => ObjectExprV::Typed(t@),
        }
    }
}

/// A member-access node: `object.member`.
#[derive(Debug)]
pub struct MemberAccessExpr {
    pub object: ObjectExpr,
    pub member: String,
}

/// Specification view of [`MemberAccessExpr`].
pub struct MemberAccessV {
    pub object: ObjectExprV,
    pub member: Seq<char>,
}

impl View for MemberAccessExpr {
    type V = MemberAccessV;

    open spec fn view(&self) -> MemberAccessV {
        MemberAccessV { object: self.object@, member: self.member@ }
    }
}

/// Whether the receiver's static type is an array: a bare identifier other
/// than the receiver keyword goes by its scope-recorded type; any other
/// expression by the type it carries.
pub open spec fn object_is_array(
    obj: ObjectExprV,
    scope: Seq<Map<Seq<char>, crate::codegen::scope::CodegenSymbolInfoV>>,
) -> bool {
    match obj {
        ObjectExprV::Name(n) => n != "this"@ && (cg_scopes_lookup(scope, n) matches Some(info)
            && info.symbol_type is Array),
        ObjectExprV::Typed(t) => t is Array,
    }
}

/// The statically known class of the receiver: the current class for the
/// receiver keyword, the side map's record for a bare identifier, and none
/// for any other expression.
pub open spec fn object_class(
    obj: ObjectExprV,
    current_class: Seq<char>,
    vcs: Seq<crate::codegen::context::VarClassV>,
) -> Option<Seq<char>> {
    match obj {
        ObjectExprV::Name(n) => if n == "this"@ {
            Some(current_class)
        } else {
            find_var_class(vcs, n)
        },
        ObjectExprV::Typed(_) => None,
    }
}

impl IRGenerator {
    /// Resolves `object.member`: a static field named by a bare class-name
    /// receiver, else the array length header, else an instance field of the
    /// receiver's statically known class, else the degraded opaque-pointer
    /// case (no error is raised for it).
    pub fn generate_member_access(&self, member: &MemberAccessExpr) -> (r: Result<
        Resolution,
        SemanticError,
    >)
        ensures
            r is Ok,
            ({
                let cs = self.type_registry@.classes;
                let sfs = self.static_fields@.map_values(|s: StaticFieldInfo| s@);
                let vcs = self.var_classes@.map_values(|s: VarClass| s@);
                let objv = member@.object;
                let mname = member@.member;
                let static_hit = objv matches ObjectExprV::Name(n) && find_static(sfs, n, mname)
                    is Some;
                if static_hit {
                    r matches Ok(res) && (res@ matches ResolutionV::StaticLoad { symbol, ty } && {
                        let f = find_static(sfs, objv->Name_0, mname).unwrap();
                        symbol == f.symbol && ty == f.field_type
                    })
                } else if mname == "length"@ && object_is_array(objv, self.scope@) {
                    r matches Ok(res) && res@ == ResolutionV::ArrayLength
                } else if object_class(objv, self.current_class@, vcs) matches Some(cn)
                    && field_slot_fits(cs, cn, mname) is Some {
                    r matches Ok(res) && (res@ matches ResolutionV::FieldLoad {
                        receiver,
                        offset,
                        ty,
                    } && {
                        let cn = object_class(objv, self.current_class@, vcs).unwrap();
                        let slot = field_slot_fits(cs, cn, mname).unwrap();
                        &&& receiver == (if objv matches ObjectExprV::Name(n) && n == "this"@ {
                            Receiver::This
                        } else {
                            Receiver::Value
                        })
                        &&& offset as int == slot.0
                        &&& ty == slot.1
                    })
                } else {
                    r matches Ok(res) && res@ == ResolutionV::OpaquePointer
                }
            }),
    {
        if let ObjectExpr::Name(obj_name) = &member.object {
            if let Some(sf) = find_static_field(
                &self.static_fields,
                obj_name.as_str(),
                member.member.as_str(),
            ) {
                return Ok(
                    Resolution::StaticLoad {
                        symbol: sf.symbol.clone(),
                        ty: sf.field_type.clone(),
                    },
                );
            }
        }
        if str_eq(member.member.as_str(), "length") {
            let is_array = match &member.object {
                ObjectExpr::Name(n) => {
                    if str_eq(n.as_str(), "this") {
                        false
                    } else {
                        match self.scope.lookup(n.as_str()) {
                            Some(info) => matches!(&info.symbol_type, Type::Array(_)),
                            None => false,
                        }
                    }
                },
                ObjectExpr::Typed(t) => matches!(t, Type::Array(_)),
            };
            if is_array {
                return Ok(Resolution::ArrayLength);
            }
        }
        let mut receiver = Receiver::Value;
        let class_name: Option<String> = match &member.object {
            ObjectExpr::Name(n) => {
                if str_eq(n.as_str(), "this") {
                    receiver = Receiver::This;
                    Some(self.current_class.clone())
                } else {
                    match lookup_var_class(&self.var_classes, n.as_str()) {
                        Some(c) => Some(c.clone()),
                        None => None,
                    }
                }
            },
            ObjectExpr::Typed(_) => None,
        };
        if let Some(cn) = class_name {
            if let Some((offset, ty)) = self.type_registry.get_instance_field(
                cn.as_str(),
                member.member.as_str(),
            ) {
                return Ok(Resolution::FieldLoad { receiver, offset, ty });
            }
        }
        Ok(Resolution::OpaquePointer)
    }
}

} // verus!
