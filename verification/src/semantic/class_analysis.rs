//! Class collection and inheritance validation.
//!
//! Collection populates the registry in two passes (interfaces first, then
//! classes, so classes may reference interfaces declared anywhere in the
//! unit), and method analysis then attaches method descriptors. Validation
//! runs as an ordered sequence of total passes over every registered class:
//! parent existence, final parents, inheritance cycles, override legality,
//! and final-method protection. Main-entry resolution is an independent
//! pass over the declarations.

use vstd::prelude::*;
use crate::ast::{
    has_modifier, ClassDecl, ClassDeclV, ClassMember, ClassMemberV, ConstructorDeclV, Expr, ExprV,
    FieldDeclV, InterfaceDeclV, MethodDecl, MethodDeclV, Modifier, Program, SourceLocation,
    modifiers_contain,
};
use crate::error::{ErrorKind, ErrorKindV, SemanticError, SemanticErrorV};
use crate::registry::{
    find_class, first_class_idx, has_class, has_interface, ClassInfo, ClassV, ConstructorInfo,
    ConstructorV, FieldInfo, FieldV, InterfaceInfo, InterfaceV, MethodInfo, MethodV, RegistryV,
    TypeRegistry,
};
use crate::semantic::analyzer::SemanticAnalyzer;
use crate::types::{clone_params, clone_strings, param_types, str_eq, ParameterInfo, Type, TypeV};

verus! {

/// The descriptor of an interface method: implicitly public, never static,
/// never final, body always absent.
pub open spec fn interface_method_info(iname: Seq<char>, m: MethodDeclV) -> MethodV {
    MethodV {
        name: m.name,
        class_name: iname,
        params: m.params,
        return_type: m.return_type,
        is_public: true,
        is_private: false,
        is_protected: false,
        is_static: false,
        is_native: false,
        is_override: false,
        is_final: false,
        loc: m.loc,
    }
}

/// Map of an interface-method list to descriptors.
pub open spec fn interface_methods_of(iname: Seq<char>, ms: Seq<MethodDeclV>) -> Seq<MethodV> {
    ms.map_values(|m: MethodDeclV| interface_method_info(iname, m))
}

/// The descriptor an interface declaration registers.
pub open spec fn interface_info_of(d: InterfaceDeclV) -> InterfaceV {
    InterfaceV { name: d.name, methods: interface_methods_of(d.name, d.methods), loc: d.loc }
}

/// The descriptor of a declared field. A `static final` field whose
/// initializer is a literal is a compile-time constant; any other
/// initializer shape is conservatively not.
pub open spec fn field_info_of(f: FieldDeclV) -> FieldV {
    let is_static = has_modifier(f.modifiers, Modifier::Static);
    let is_final = has_modifier(f.modifiers, Modifier::Final);
    FieldV {
        name: f.name,
        field_type: f.field_type,
        is_public: has_modifier(f.modifiers, Modifier::Public),
        is_private: has_modifier(f.modifiers, Modifier::Private),
        is_protected: has_modifier(f.modifiers, Modifier::Protected),
        is_static,
        is_final,
        is_const_expr: is_static && is_final && (f.initializer matches Some(ExprV::Literal(_))),
    }
}

/// The field descriptors of a member list, in declaration order.
pub open spec fn class_fields_of(ms: Seq<ClassMemberV>) -> Seq<FieldV>
    decreases ms.len(),
{
    if ms.len() == 0 {
        Seq::empty()
    } else {
        let rest = class_fields_of(ms.drop_last());
        match ms.last() {
            ClassMemberV::Field(f) => rest.push(field_info_of(f)),
            _ => rest,
        }
    }
}

/// The descriptor of a declared constructor.
pub open spec fn ctor_info_of(c: ConstructorDeclV) -> ConstructorV {
    ConstructorV {
        params: c.params,
        is_public: has_modifier(c.modifiers, Modifier::Public),
        is_private: has_modifier(c.modifiers, Modifier::Private),
        is_protected: has_modifier(c.modifiers, Modifier::Protected),
    }
}

/// The constructor descriptors of a member list, in declaration order.
pub open spec fn class_ctors_of(ms: Seq<ClassMemberV>) -> Seq<ConstructorV>
    decreases ms.len(),
{
    if ms.len() == 0 {
        Seq::empty()
    } else {
        let rest = class_ctors_of(ms.drop_last());
        match ms.last() {
            ClassMemberV::Constructor(c) => rest.push(ctor_info_of(c)),
            _ => rest,
        }
    }
}

/// Whether a member list declares a destructor.
pub open spec fn members_have_destructor(ms: Seq<ClassMemberV>) -> bool {
    exists|i: int| 0 <= i < ms.len() && ms[i] is Destructor
}

/// The descriptor a class declaration registers. Methods are attached by the
/// separate method-analysis pass.
pub open spec fn class_info_of(d: ClassDeclV) -> ClassV {
    ClassV {
        name: d.name,
        parent: d.parent,
        interfaces: d.interfaces,
        fields: class_fields_of(d.members),
        methods: Seq::empty(),
        constructors: class_ctors_of(d.members),
        has_destructor: members_have_destructor(d.members),
        is_abstract: has_modifier(d.modifiers, Modifier::Abstract),
        is_final: has_modifier(d.modifiers, Modifier::Final),
        loc: d.loc,
    }
}

/// The descriptor of a class method, with its flags taken from the
/// declaration's modifier list.
pub open spec fn method_info_of(cname: Seq<char>, m: MethodDeclV) -> MethodV {
    MethodV {
        name: m.name,
        class_name: cname,
        params: m.params,
        return_type: m.return_type,
        is_public: has_modifier(m.modifiers, Modifier::Public),
        is_private: has_modifier(m.modifiers, Modifier::Private),
        is_protected: has_modifier(m.modifiers, Modifier::Protected),
        is_static: has_modifier(m.modifiers, Modifier::Static),
        is_native: has_modifier(m.modifiers, Modifier::Native),
        is_override: has_modifier(m.modifiers, Modifier::Override),
        is_final: has_modifier(m.modifiers, Modifier::Final),
        loc: m.loc,
    }
}

/// The method descriptors of a member list, in declaration order.
pub open spec fn class_methods_of(cname: Seq<char>, ms: Seq<ClassMemberV>) -> Seq<MethodV>
    decreases ms.len(),
{
    if ms.len() == 0 {
        Seq::empty()
    } else {
        let rest = class_methods_of(cname, ms.drop_last());
        match ms.last() {
            ClassMemberV::Method(m) => rest.push(method_info_of(cname, m)),
            _ => rest,
        }
    }
}

/// A duplicate-definition diagnostic anchored to a declaration.
pub open spec fn dup_error(name: Seq<char>, loc: SourceLocation) -> SemanticErrorV {
    SemanticErrorV { loc, kind: ErrorKindV::DuplicateDefinition { name } }
}

/// Registration of one interface descriptor in the shared namespace.
pub open spec fn register_interface_spec(reg: RegistryV, it: InterfaceV) -> (
    RegistryV,
    Option<SemanticErrorV>,
) {
    if has_class(reg.classes, it.name) || has_interface(reg.interfaces, it.name) {
        (reg, Some(dup_error(it.name, it.loc)))
    } else {
        (RegistryV { classes: reg.classes, interfaces: reg.interfaces.push(it) }, None)
    }
}

/// Registration of one class descriptor in the shared namespace.
pub open spec fn register_class_spec(reg: RegistryV, c: ClassV) -> (
    RegistryV,
    Option<SemanticErrorV>,
) {
    if has_class(reg.classes, c.name) || has_interface(reg.interfaces, c.name) {
        (reg, Some(dup_error(c.name, c.loc)))
    } else {
        (RegistryV { classes: reg.classes.push(c), interfaces: reg.interfaces }, None)
    }
}

/// Sequential registration of interface declarations, stopping at the first
/// duplicate.
pub open spec fn collect_interfaces_spec(reg: RegistryV, ds: Seq<InterfaceDeclV>) -> (
    RegistryV,
    Option<SemanticErrorV>,
)
    decreases ds.len(),
{
    if ds.len() == 0 {
        (reg, None)
    } else {
        let step = register_interface_spec(reg, interface_info_of(ds[0]));
        if step.1 is Some {
            step
        } else {
            collect_interfaces_spec(step.0, ds.subrange(1, ds.len() as int))
        }
    }
}

/// Sequential registration of class declarations, stopping at the first
/// duplicate.
pub open spec fn collect_program_classes_spec(reg: RegistryV, ds: Seq<ClassDeclV>) -> (
    RegistryV,
    Option<SemanticErrorV>,
)
    decreases ds.len(),
{
    if ds.len() == 0 {
        (reg, None)
    } else {
        let step = register_class_spec(reg, class_info_of(ds[0]));
        if step.1 is Some {
            step
        } else {
            collect_program_classes_spec(step.0, ds.subrange(1, ds.len() as int))
        }
    }
}

/// The whole collection pass: interfaces first, then classes.
pub open spec fn collect_spec(reg: RegistryV, classes: Seq<ClassDeclV>, interfaces: Seq<InterfaceDeclV>) -> (
    RegistryV,
    Option<SemanticErrorV>,
) {
    let step = collect_interfaces_spec(reg, interfaces);
    if step.1 is Some {
        step
    } else {
        collect_program_classes_spec(step.0, classes)
    }
}

/// Effect of the method-analysis pass for one class declaration: its method
/// descriptors are appended to the overload sets of the first registered
/// class of that name; a declaration naming no registered class changes
/// nothing.
pub open spec fn add_decl_methods(reg: RegistryV, d: ClassDeclV) -> RegistryV {
    let i = first_class_idx(reg.classes, d.name);
    if i < 0 {
        reg
    } else {
        RegistryV {
            classes: reg.classes.update(
                i,
                ClassV {
                    methods: reg.classes[i].methods + class_methods_of(d.name, d.members),
                    ..reg.classes[i]
                },
            ),
            interfaces: reg.interfaces,
        }
    }
}

/// The whole method-analysis pass, declaration by declaration.
pub open spec fn analyze_methods_spec(reg: RegistryV, ds: Seq<ClassDeclV>) -> RegistryV
    decreases ds.len(),
{
    if ds.len() == 0 {
        reg
    } else {
        analyze_methods_spec(add_decl_methods(reg, ds[0]), ds.subrange(1, ds.len() as int))
    }
}

/// A `public static` method named `main`.
pub open spec fn method_is_main(m: MethodDeclV) -> bool {
    &&& m.name == "main"@
    &&& has_modifier(m.modifiers, Modifier::Public)
    &&& has_modifier(m.modifiers, Modifier::Static)
}

/// Whether a class declaration exposes a main method.
pub open spec fn decl_has_main(d: ClassDeclV) -> bool {
    exists|i: int|
        0 <= i < d.members.len() && (#[trigger] d.members[i] matches ClassMemberV::Method(m)
            && method_is_main(m))
}

/// The main-bearing class declarations, in declaration order.
pub open spec fn main_candidates(ds: Seq<ClassDeclV>) -> Seq<ClassDeclV>
    decreases ds.len(),
{
    if ds.len() == 0 {
        Seq::empty()
    } else {
        let rest = main_candidates(ds.drop_last());
        if decl_has_main(ds.last()) {
            rest.push(ds.last())
        } else {
            rest
        }
    }
}

/// The main-bearing class declarations carrying the designated-entry marker.
pub open spec fn marked_mains(ds: Seq<ClassDeclV>) -> Seq<ClassDeclV>
    decreases ds.len(),
{
    if ds.len() == 0 {
        Seq::empty()
    } else {
        let rest = marked_mains(ds.drop_last());
        if decl_has_main(ds.last()) && has_modifier(ds.last().modifiers, Modifier::Main) {
            rest.push(ds.last())
        } else {
            rest
        }
    }
}

/// The names of a declaration list.
pub open spec fn names_of(ds: Seq<ClassDeclV>) -> Seq<Seq<char>> {
    ds.map_values(|d: ClassDeclV| d.name)
}

/// Builds the method descriptor of an interface method.
fn build_interface_method(iname: &String, m: &MethodDecl) -> (r: MethodInfo)
    ensures
        r@ == interface_method_info(iname@, m@),
{
    MethodInfo {
        name: m.name.clone(),
        class_name: iname.clone(),
        params: clone_params(&m.params),
        return_type: m.return_type.clone(),
        is_public: true,
        is_private: false,
        is_protected: false,
        is_static: false,
        is_native: false,
        is_override: false,
        is_final: false,
        loc: m.loc,
    }
}

/// Builds the method descriptor of a class method.
fn build_class_method(cname: &String, m: &MethodDecl) -> (r: MethodInfo)
    ensures
        r@ == method_info_of(cname@, m@),
{
    MethodInfo {
        name: m.name.clone(),
        class_name: cname.clone(),
        params: clone_params(&m.params),
        return_type: m.return_type.clone(),
        is_public: modifiers_contain(&m.modifiers, Modifier::Public),
        is_private: modifiers_contain(&m.modifiers, Modifier::Private),
        is_protected: modifiers_contain(&m.modifiers, Modifier::Protected),
        is_static: modifiers_contain(&m.modifiers, Modifier::Static),
        is_native: modifiers_contain(&m.modifiers, Modifier::Native),
        is_override: modifiers_contain(&m.modifiers, Modifier::Override),
        is_final: modifiers_contain(&m.modifiers, Modifier::Final),
        loc: m.loc,
    }
}

/// Builds the registry descriptor of an interface declaration.
fn build_interface_info(d: &crate::ast::InterfaceDecl) -> (r: InterfaceInfo)
    ensures
        r@ == interface_info_of(d@),
{
    let mut info = InterfaceInfo::new(d.name.clone(), d.loc);
    let mut j: usize = 0;
    while j < d.methods.len()
        invariant
            0 <= j <= d.methods@.len(),
            info@.name == d@.name,
            info@.loc == d@.loc,
            info@.methods =~= interface_methods_of(d@.name, d@.methods.subrange(0, j as int)),
        decreases d.methods@.len() - j,
    {
        let m = build_interface_method(&d.name, &d.methods[j]);
        info.add_method(m);
        proof {
            assert(d@.methods.subrange(0, j as int + 1).drop_last() =~= d@.methods.subrange(
                0,
                j as int,
            ));
            assert(d@.methods.subrange(0, j as int + 1).last() == d@.methods[j as int]);
            assert(interface_methods_of(d@.name, d@.methods.subrange(0, j as int + 1))
                =~= interface_methods_of(d@.name, d@.methods.subrange(0, j as int)).push(
                interface_method_info(d@.name, d@.methods[j as int]),
            ));
        }
        j += 1;
    }
    proof {
        assert(d@.methods.subrange(0, d@.methods.len() as int) =~= d@.methods);
        assert(info@.methods =~= interface_methods_of(d@.name, d@.methods));
    }
    info
}

/// Builds the registry descriptor of a class declaration (fields,
/// constructors, destructor presence; methods come later).
fn build_class_info(d: &ClassDecl) -> (r: ClassInfo)
    ensures
        r@ == class_info_of(d@),
{
    let mut fields: Vec<FieldInfo> = Vec::new();
    let mut constructors: Vec<ConstructorInfo> = Vec::new();
    let mut has_destructor = false;
    let mut j: usize = 0;
    while j < d.members.len()
        invariant
            0 <= j <= d.members@.len(),
            fields@.map_values(|f: FieldInfo| f@) =~= class_fields_of(
                d@.members.subrange(0, j as int),
            ),
            constructors@.map_values(|c: ConstructorInfo| c@) =~= class_ctors_of(
                d@.members.subrange(0, j as int),
            ),
            has_destructor == exists|t: int|
                0 <= t < j && d@.members[t] is Destructor,
        decreases d.members@.len() - j,
    {
        proof {
            assert(d@.members.subrange(0, j as int + 1).drop_last() =~= d@.members.subrange(
                0,
                j as int,
            ));
            assert(d@.members.subrange(0, j as int + 1).last() == d@.members[j as int]);
        }
        match &d.members[j] {
            ClassMember::Field(f) => {
                let is_static = modifiers_contain(&f.modifiers, Modifier::Static);
                let is_final = modifiers_contain(&f.modifiers, Modifier::Final);
                let is_literal_init = match &f.initializer {
                    Some(Expr::Literal(_)) => true,
                    _ => false,
                };
                let fi = FieldInfo {
                    name: f.name.clone(),
                    field_type: f.field_type.clone(),
                    is_public: modifiers_contain(&f.modifiers, Modifier::Public),
                    is_private: modifiers_contain(&f.modifiers, Modifier::Private),
                    is_protected: modifiers_contain(&f.modifiers, Modifier::Protected),
                    is_static,
                    is_final,
                    is_const_expr: is_static && is_final && is_literal_init,
                };
                proof {
                    assert(fi@ == field_info_of(d@.members[j as int]->Field_0));
                }
                fields.push(fi);
                proof {
                    assert(fields@.map_values(|f: FieldInfo| f@) =~= class_fields_of(
                        d@.members.subrange(0, j as int + 1),
                    ));
                }
            },
            ClassMember::Constructor(c) => {
                let ci = ConstructorInfo {
                    params: clone_params(&c.params),
                    is_public: modifiers_contain(&c.modifiers, Modifier::Public),
                    is_private: modifiers_contain(&c.modifiers, Modifier::Private),
                    is_protected: modifiers_contain(&c.modifiers, Modifier::Protected),
                };
                constructors.push(ci);
                proof {
                    assert(constructors@.map_values(|c: ConstructorInfo| c@) =~= class_ctors_of(
                        d@.members.subrange(0, j as int + 1),
                    ));
                }
            },
            ClassMember::Destructor(_) => {
                has_destructor = true;
            },
            _ => {},
        }
        j += 1;
    }
    proof {
        assert(d@.members.subrange(0, d@.members.len() as int) =~= d@.members);
    }
    let parent = match &d.parent {
        Some(p) => Some(p.clone()),
        None => None,
    };
    let r = ClassInfo {
        name: d.name.clone(),
        parent,
        interfaces: clone_strings(&d.interfaces),
        fields,
        methods: Vec::new(),
        constructors,
        has_destructor,
        is_abstract: modifiers_contain(&d.modifiers, Modifier::Abstract),
        is_final: modifiers_contain(&d.modifiers, Modifier::Final),
        loc: d.loc,
    };
    proof {
        assert(r@.methods =~= Seq::<MethodV>::empty());
        assert(r@ == class_info_of(d@));
    }
    r
}

/// Whether a class declaration exposes a `public static` method named
/// `main`.
fn decl_declares_main(d: &ClassDecl) -> (r: bool)
    ensures
        r == decl_has_main(d@),
{
    let mut j: usize = 0;
    while j < d.members.len()
        invariant
            0 <= j <= d.members@.len(),
            forall|t: int|
                0 <= t < j ==> !(#[trigger] d@.members[t] matches ClassMemberV::Method(m)
                    && method_is_main(m)),
        decreases d.members@.len() - j,
    {
        if let ClassMember::Method(m) = &d.members[j] {
            if str_eq(m.name.as_str(), "main") && modifiers_contain(&m.modifiers, Modifier::Public)
                && modifiers_contain(&m.modifiers, Modifier::Static) {
                proof {
                    assert(d@.members[j as int] matches ClassMemberV::Method(mv)
                        && method_is_main(mv));
                }
                return true;
            }
        }
        j += 1;
    }
    false
}

impl SemanticAnalyzer {
    /// Populates the registry from the declarations: every interface first,
    /// then every class with its fields, constructors and destructor flag.
    /// Stops at the first duplicate name in the shared namespace, leaving
    /// the entities registered so far in place.
    pub fn collect_classes(&mut self, program: &Program) -> (r: Result<(), SemanticError>)
        ensures
            ({
                let outcome = collect_spec(
                    old(self).type_registry@,
                    program@.classes,
                    program@.interfaces,
                );
                &&& final(self).type_registry@.classes == outcome.0.classes
                &&& final(self).type_registry@.interfaces == outcome.0.interfaces
                &&& match r {
                    Ok(()) => outcome.1 is None,
                    Err(e) => outcome.1 == Some(e@),
                }
            }),
            final(self).symbol_table == old(self).symbol_table,
            final(self).errors == old(self).errors,
            final(self).current_class == old(self).current_class,
            final(self).current_method == old(self).current_method,
    {
        let ghost reg0 = self.type_registry@;
        let ghost dsv = program@.interfaces;
        proof {
            assert(dsv.subrange(0, dsv.len() as int) =~= dsv);
        }
        let mut i: usize = 0;
        while i < program.interfaces.len()
            invariant
                0 <= i <= program.interfaces@.len(),
                dsv == program@.interfaces,
                dsv.len() == program.interfaces@.len(),
                reg0 == old(self).type_registry@,
                collect_interfaces_spec(reg0, dsv) == collect_interfaces_spec(
                    self.type_registry@,
                    dsv.subrange(i as int, dsv.len() as int),
                ),
                self.symbol_table == old(self).symbol_table,
                self.errors == old(self).errors,
                self.current_class == old(self).current_class,
                self.current_method == old(self).current_method,
            decreases program.interfaces@.len() - i,
        {
            let ghost pre = self.type_registry@;
            let info = build_interface_info(&program.interfaces[i]);
            proof {
                assert(dsv.subrange(i as int, dsv.len() as int)[0] == dsv[i as int]);
                assert(dsv[i as int] == program.interfaces@[i as int]@);
                assert(dsv.subrange(i as int, dsv.len() as int).subrange(
                    1,
                    dsv.len() as int - i as int,
                ) =~= dsv.subrange(i as int + 1, dsv.len() as int));
            }
            let ghost rest = dsv.subrange(i as int, dsv.len() as int);
            match self.type_registry.register_interface(info) {
                Ok(()) => {},
                Err(e) => {
                    proof {
                        assert(collect_interfaces_spec(pre, rest) == (pre, Some(e@)));
                        assert(collect_spec(reg0, program@.classes, program@.interfaces) == (
                        pre,
                        Some(e@),
                        ));
                    }
                    return Err(e);
                },
            }
            i += 1;
        }
        proof {
            assert(dsv.subrange(dsv.len() as int, dsv.len() as int) =~= Seq::<
                InterfaceDeclV,
            >::empty());
        }
        let ghost csv = program@.classes;
        let ghost reg1 = self.type_registry@;
        proof {
            assert(csv.subrange(0, csv.len() as int) =~= csv);
        }
        let mut i: usize = 0;
        while i < program.classes.len()
            invariant
                0 <= i <= program.classes@.len(),
                csv == program@.classes,
                csv.len() == program.classes@.len(),
                reg0 == old(self).type_registry@,
                dsv == program@.interfaces,
                collect_interfaces_spec(reg0, dsv) == (reg1, None::<SemanticErrorV>),
                collect_program_classes_spec(reg1, csv) == collect_program_classes_spec(
                    self.type_registry@,
                    csv.subrange(i as int, csv.len() as int),
                ),
                self.symbol_table == old(self).symbol_table,
                self.errors == old(self).errors,
                self.current_class == old(self).current_class,
                self.current_method == old(self).current_method,
            decreases program.classes@.len() - i,
        {
            let ghost pre = self.type_registry@;
            let info = build_class_info(&program.classes[i]);
            proof {
                assert(csv.subrange(i as int, csv.len() as int)[0] == csv[i as int]);
                assert(csv[i as int] == program.classes@[i as int]@);
                assert(csv.subrange(i as int, csv.len() as int).subrange(
                    1,
                    csv.len() as int - i as int,
                ) =~= csv.subrange(i as int + 1, csv.len() as int));
            }
            let ghost rest = csv.subrange(i as int, csv.len() as int);
            match self.type_registry.register_class(info) {
                Ok(()) => {},
                Err(e) => {
                    proof {
                        assert(collect_program_classes_spec(pre, rest) == (pre, Some(e@)));
                    }
                    return Err(e);
                },
            }
            i += 1;
        }
        proof {
            assert(csv.subrange(csv.len() as int, csv.len() as int) =~= Seq::<
                ClassDeclV,
            >::empty());
        }
        Ok(())
    }

    /// Attaches every class declaration's method descriptors to its
    /// registered class, in declaration order.
    pub fn analyze_methods(&mut self, program: &Program) -> (r: Result<(), SemanticError>)
        ensures
            r is Ok,
            ({
                let regf = analyze_methods_spec(old(self).type_registry@, program@.classes);
                &&& final(self).type_registry@.classes == regf.classes
                &&& final(self).type_registry@.interfaces == regf.interfaces
            }),
            final(self).symbol_table == old(self).symbol_table,
            final(self).errors == old(self).errors,
            final(self).current_class == old(self).current_class,
            final(self).current_method == old(self).current_method,
    {
        let ghost reg0 = self.type_registry@;
        let ghost dsv = program@.classes;
        proof {
            assert(dsv.subrange(0, dsv.len() as int) =~= dsv);
        }
        let mut i: usize = 0;
        while i < program.classes.len()
            invariant
                0 <= i <= program.classes@.len(),
                dsv == program@.classes,
                dsv.len() == program.classes@.len(),
                reg0 == old(self).type_registry@,
                analyze_methods_spec(reg0, dsv) == analyze_methods_spec(
                    self.type_registry@,
                    dsv.subrange(i as int, dsv.len() as int),
                ),
                self.symbol_table == old(self).symbol_table,
                self.errors == old(self).errors,
                self.current_class == old(self).current_class,
                self.current_method == old(self).current_method,
            decreases program.classes@.len() - i,
        {
            proof {
                assert(dsv.subrange(i as int, dsv.len() as int)[0] == dsv[i as int]);
                assert(dsv[i as int] == program.classes@[i as int]@);
                assert(dsv.subrange(i as int, dsv.len() as int).subrange(
                    1,
                    dsv.len() as int - i as int,
                ) =~= dsv.subrange(i as int + 1, dsv.len() as int));
            }
            self.attach_decl_methods(&program.classes[i]);
            i += 1;
        }
        proof {
            assert(dsv.subrange(dsv.len() as int, dsv.len() as int) =~= Seq::<
                ClassDeclV,
            >::empty());
        }
        Ok(())
    }

    /// Attaches one declaration's method descriptors to its registered
    /// class.
    fn attach_decl_methods(&mut self, d: &ClassDecl)
        ensures
            final(self).type_registry@ == add_decl_methods(old(self).type_registry@, d@),
            final(self).symbol_table == old(self).symbol_table,
            final(self).errors == old(self).errors,
            final(self).current_class == old(self).current_class,
            final(self).current_method == old(self).current_method,
    {
        let ghost reg0 = self.type_registry@;
        let idx = match self.type_registry.class_index(d.name.as_str()) {
            Some(idx) => idx,
            None => {
                proof {
                    assert(final(self).type_registry@ =~= add_decl_methods(reg0, d@));
                }
                return ;
            },
        };
        proof {
            crate::registry::lemma_first_class_idx(reg0.classes, d@.name);
        }
        let ghost orig_methods = reg0.classes[idx as int].methods;
        let mut j: usize = 0;
        while j < d.members.len()
            invariant
                0 <= j <= d.members@.len(),
                idx < self.type_registry.classes@.len(),
                self.type_registry@.classes.len() == reg0.classes.len(),
                self.type_registry@.interfaces == reg0.interfaces,
                forall|t: int|
                    0 <= t < reg0.classes.len() && t != idx ==> self.type_registry@.classes[t]
                        == reg0.classes[t],
                self.type_registry@.classes[idx as int] == (ClassV {
                    methods: orig_methods + class_methods_of(
                        d@.name,
                        d@.members.subrange(0, j as int),
                    ),
                    ..reg0.classes[idx as int]
                }),
                self.symbol_table == old(self).symbol_table,
                self.errors == old(self).errors,
                self.current_class == old(self).current_class,
                self.current_method == old(self).current_method,
            decreases d.members@.len() - j,
        {
            proof {
                assert(d@.members.subrange(0, j as int + 1).drop_last() =~= d@.members.subrange(
                    0,
                    j as int,
                ));
                assert(d@.members.subrange(0, j as int + 1).last() == d@.members[j as int]);
            }
            if let ClassMember::Method(m) = &d.members[j] {
                let info = build_class_method(&d.name, m);
                self.type_registry.classes[idx].add_method(info);
                proof {
                    assert(orig_methods + class_methods_of(
                        d@.name,
                        d@.members.subrange(0, j as int + 1),
                    ) =~= (orig_methods + class_methods_of(d@.name, d@.members.subrange(0, j as int))).push(
                        method_info_of(d@.name, d@.members[j as int]->Method_0),
                    ));
                }
            } else {
                proof {
                    assert(class_methods_of(d@.name, d@.members.subrange(0, j as int + 1))
                        =~= class_methods_of(d@.name, d@.members.subrange(0, j as int)));
                }
            }
            j += 1;
        }
        proof {
            assert(d@.members.subrange(0, d@.members.len() as int) =~= d@.members);
            assert(final(self).type_registry@.classes =~= add_decl_methods(reg0, d@).classes);
            assert(final(self).type_registry@.interfaces =~= add_decl_methods(
                reg0,
                d@,
            ).interfaces);
        }
    }

    /// Resolves the program's entry point. Zero main-bearing classes is
    /// library mode; one is the entry point; among several, exactly one
    /// designated-entry marker picks the entry point, none is ambiguous, and
    /// several markers conflict.
    pub fn check_main_class_conflicts(&mut self, program: &Program) -> (r: Result<
        Option<String>,
        SemanticError,
    >)
        ensures
            *final(self) == *old(self),
            ({
                let cands = main_candidates(program@.classes);
                let marked = marked_mains(program@.classes);
                if cands.len() == 0 {
                    r matches Ok(o) && o is None
                } else if cands.len() == 1 {
                    r matches Ok(o) && (o matches Some(n) && n@ == cands[0].name)
                } else if marked.len() == 0 {
                    r matches Err(e) && e@.loc == (SourceLocation { line: 0, column: 0 })
                        && e@.kind == (ErrorKindV::AmbiguousMain { candidates: names_of(cands) })
                } else if marked.len() == 1 {
                    r matches Ok(o) && (o matches Some(n) && n@ == marked[0].name)
                } else {
                    r matches Err(e) && e@.loc == (SourceLocation { line: 0, column: 0 })
                        && e@.kind == (ErrorKindV::MultipleMainMarkers {
                        marked: names_of(marked),
                    })
                }
            }),
    {
        let ghost dsv = program@.classes;
        proof {
            assert(dsv.subrange(0, 0) =~= Seq::<ClassDeclV>::empty());
        }
        let mut cand_names: Vec<String> = Vec::new();
        let mut marked_names: Vec<String> = Vec::new();
        let mut i: usize = 0;
        while i < program.classes.len()
            invariant
                0 <= i <= program.classes@.len(),
                dsv == program@.classes,
                dsv.len() == program.classes@.len(),
                cand_names@.len() == main_candidates(dsv.subrange(0, i as int)).len(),
                forall|t: int|
                    0 <= t < cand_names@.len() ==> cand_names@[t]@ == main_candidates(
                        dsv.subrange(0, i as int),
                    )[t].name,
                marked_names@.len() == marked_mains(dsv.subrange(0, i as int)).len(),
                forall|t: int|
                    0 <= t < marked_names@.len() ==> marked_names@[t]@ == marked_mains(
                        dsv.subrange(0, i as int),
                    )[t].name,
                *self == *old(self),
            decreases program.classes@.len() - i,
        {
            proof {
                assert(dsv.subrange(0, i as int + 1).drop_last() =~= dsv.subrange(0, i as int));
                assert(dsv.subrange(0, i as int + 1).last() == dsv[i as int]);
                assert(dsv[i as int] == program.classes@[i as int]@);
            }
            let d = &program.classes[i];
            if decl_declares_main(d) {
                cand_names.push(d.name.clone());
                proof {
                    let sub1 = dsv.subrange(0, i as int + 1);
                    let sub0 = dsv.subrange(0, i as int);
                    assert(sub1.drop_last() == sub0);
                    assert(decl_has_main(dsv[i as int]));
                    assert(main_candidates(sub1) == main_candidates(sub0).push(dsv[i as int]));
                }
                let marked_here = modifiers_contain(&d.modifiers, Modifier::Main);
                if marked_here {
                    marked_names.push(d.name.clone());
                }
                proof {
                    let sub1 = dsv.subrange(0, i as int + 1);
                    let sub0 = dsv.subrange(0, i as int);
                    assert(sub1.drop_last() == sub0);
                    if marked_here {
                        assert(marked_mains(sub1) == marked_mains(sub0).push(dsv[i as int]));
                    } else {
                        assert(marked_mains(sub1) == marked_mains(sub0));
                    }
                }
            } else {
                proof {
                    let sub1 = dsv.subrange(0, i as int + 1);
                    let sub0 = dsv.subrange(0, i as int);
                    assert(sub1.drop_last() == sub0);
                    assert(main_candidates(sub1) == main_candidates(sub0));
                    assert(marked_mains(sub1) == marked_mains(sub0));
                }
            }
            i += 1;
        }
        proof {
            assert(dsv.subrange(0, dsv.len() as int) =~= dsv);
        }
        if cand_names.len() == 0 {
            Ok(None)
        } else if cand_names.len() == 1 {
            proof {
                assert(names_of(main_candidates(dsv))[0] == main_candidates(dsv)[0].name);
            }
            Ok(Some(cand_names[0].clone()))
        } else if marked_names.len() == 0 {
            proof {
                assert(cand_names@.map_values(|s: String| s@) =~= names_of(
                    main_candidates(dsv),
                ));
            }
            Err(
                SemanticError::new(
                    SourceLocation::none(),
                    ErrorKind::AmbiguousMain { candidates: cand_names },
                ),
            )
        } else if marked_names.len() == 1 {
            proof {
                assert(names_of(marked_mains(dsv))[0] == marked_mains(dsv)[0].name);
            }
            Ok(Some(marked_names[0].clone()))
        } else {
            proof {
                assert(marked_names@.map_values(|s: String| s@) =~= names_of(
                    marked_mains(dsv),
                ));
            }
            Err(
                SemanticError::new(
                    SourceLocation::none(),
                    ErrorKind::MultipleMainMarkers { marked: marked_names },
                ),
            )
        }
    }
}

/// A bounded walk up the parent chain reaches a root (a class without a
/// parent, or an unregistered name) within `fuel` hops.
pub open spec fn terminates_within(cs: Seq<ClassV>, name: Seq<char>, fuel: nat) -> bool
    decreases fuel,
{
    match find_class(cs, name) {
        None => true,
        Some(c) => match c.parent {
            None => true,
            Some(p) => fuel > 0 && terminates_within(cs, p, (fuel - 1) as nat),
        },
    }
}

/// Every registered class's parent chain terminates. A terminating chain
/// never revisits a name, so the class count bounds its length.
pub open spec fn registry_acyclic(cs: Seq<ClassV>) -> bool {
    forall|i: int|
        0 <= i < cs.len() ==> #[trigger] terminates_within(cs, cs[i].name, cs.len())
}

/// A class's parent, when declared, is a registered class.
pub open spec fn parent_ok(cs: Seq<ClassV>, c: ClassV) -> bool {
    c.parent matches Some(p) ==> has_class(cs, p)
}

/// A class's parent, when declared and registered, is not final.
pub open spec fn parent_not_final(cs: Seq<ClassV>, c: ClassV) -> bool {
    c.parent matches Some(p) ==> (find_class(cs, p) matches Some(pc) ==> !pc.is_final)
}

/// A method descriptor with this name, exactly these parameter types, and
/// exactly this return type.
pub open spec fn method_matches(m: MethodV, name: Seq<char>, ptypes: Seq<TypeV>, ret: TypeV) -> bool {
    m.name == name && param_types(m.params) == ptypes && m.return_type == ret
}

/// The class itself declares a matching method.
pub open spec fn class_has_method_match(
    c: ClassV,
    name: Seq<char>,
    ptypes: Seq<TypeV>,
    ret: TypeV,
) -> bool {
    exists|i: int|
        0 <= i < c.methods.len() && method_matches(#[trigger] c.methods[i], name, ptypes, ret)
}

/// Some class on the ancestor chain starting at `cname` (inclusive), within
/// `fuel` hops, declares a matching method.
pub open spec fn method_in_ancestors(
    cs: Seq<ClassV>,
    cname: Seq<char>,
    name: Seq<char>,
    ptypes: Seq<TypeV>,
    ret: TypeV,
    fuel: nat,
) -> bool
    decreases fuel,
{
    match find_class(cs, cname) {
        None => false,
        Some(c) => class_has_method_match(c, name, ptypes, ret) || (match c.parent {
            None => false,
            Some(p) => fuel > 0 && method_in_ancestors(cs, p, name, ptypes, ret, (fuel - 1) as nat),
        }),
    }
}

/// A final method with this name and exactly these parameter types.
pub open spec fn final_matches(m: MethodV, name: Seq<char>, ptypes: Seq<TypeV>) -> bool {
    m.name == name && param_types(m.params) == ptypes && m.is_final
}

/// The class itself declares a matching final method.
pub open spec fn class_has_final_match(c: ClassV, name: Seq<char>, ptypes: Seq<TypeV>) -> bool {
    exists|i: int|
        0 <= i < c.methods.len() && final_matches(#[trigger] c.methods[i], name, ptypes)
}

/// The nearest class on the ancestor chain starting at `cname` (inclusive),
/// within `fuel` hops, that declares a matching final method.
pub open spec fn final_holder(
    cs: Seq<ClassV>,
    cname: Seq<char>,
    name: Seq<char>,
    ptypes: Seq<TypeV>,
    fuel: nat,
) -> Option<Seq<char>>
    decreases fuel,
{
    match find_class(cs, cname) {
        None => None,
        Some(c) => if class_has_final_match(c, name, ptypes) {
            Some(c.name)
        } else {
            match c.parent {
                None => None,
                Some(p) => if fuel == 0 {
                    None
                } else {
                    final_holder(cs, p, name, ptypes, (fuel - 1) as nat)
                },
            }
        },
    }
}

/// Override legality of one method: a method marked override must have a
/// parent class, and the ancestor chain must declare a method with the same
/// name, identical parameter types, and identical return type.
pub open spec fn override_ok(cs: Seq<ClassV>, c: ClassV, m: MethodV) -> bool {
    m.is_override ==> (c.parent matches Some(p) && method_in_ancestors(
        cs,
        p,
        m.name,
        param_types(m.params),
        m.return_type,
        cs.len(),
    ))
}

/// The diagnostic an illegal override produces, anchored to the method.
pub open spec fn override_error(c: ClassV, m: MethodV) -> SemanticErrorV {
    match c.parent {
        None => SemanticErrorV {
            loc: m.loc,
            kind: ErrorKindV::OverrideWithoutParent { method: m.name, class_name: c.name },
        },
        Some(p) => SemanticErrorV {
            loc: m.loc,
            kind: ErrorKindV::InvalidOverride { method: m.name, class_name: c.name, parent: p },
        },
    }
}

/// Final-method protection for one method: no ancestor (the class's own
/// declarations are exempt) declares a final method with the same name and
/// parameter types, whether or not the method is marked override.
pub open spec fn final_ok(cs: Seq<ClassV>, c: ClassV, m: MethodV) -> bool {
    !(c.parent matches Some(p) && final_holder(cs, p, m.name, param_types(m.params), cs.len())
        is Some)
}

/// The diagnostic a final-method override produces, naming the nearest
/// ancestor holding the final method.
pub open spec fn final_error(cs: Seq<ClassV>, c: ClassV, m: MethodV) -> SemanticErrorV {
    SemanticErrorV {
        loc: m.loc,
        kind: ErrorKindV::OverrideOfFinalMethod {
            method: m.name,
            ancestor: final_holder(
                cs,
                c.parent.unwrap(),
                m.name,
                param_types(m.params),
                cs.len(),
            ).unwrap(),
        },
    }
}

/// Every method of the class passes the override-legality check.
pub open spec fn class_overrides_ok(cs: Seq<ClassV>, c: ClassV) -> bool {
    forall|t: int| 0 <= t < c.methods.len() ==> override_ok(cs, c, #[trigger] c.methods[t])
}

/// Every method of the class passes final-method protection.
pub open spec fn class_finals_ok(cs: Seq<ClassV>, c: ClassV) -> bool {
    forall|t: int| 0 <= t < c.methods.len() ==> final_ok(cs, c, #[trigger] c.methods[t])
}

/// All five validation passes hold of every registered class.
pub open spec fn inheritance_ok(cs: Seq<ClassV>) -> bool {
    &&& forall|i: int| 0 <= i < cs.len() ==> parent_ok(cs, #[trigger] cs[i])
    &&& forall|i: int| 0 <= i < cs.len() ==> parent_not_final(cs, #[trigger] cs[i])
    &&& registry_acyclic(cs)
    &&& forall|i: int| 0 <= i < cs.len() ==> class_overrides_ok(cs, #[trigger] cs[i])
    &&& forall|i: int| 0 <= i < cs.len() ==> class_finals_ok(cs, #[trigger] cs[i])
}

/// On a closed parent cycle, no amount of fuel reaches a root.
pub proof fn lemma_cycle_never_terminates(cs: Seq<ClassV>, w: Seq<Seq<char>>, i: int, fuel: nat)
    requires
        w.len() >= 1,
        0 <= i < w.len(),
        forall|j: int|
            0 <= j < w.len() ==> ((#[trigger] find_class(cs, w[j])) matches Some(c) && c.parent
                == Some(w[if j + 1 < w.len() { j + 1 } else { 0 }])),
    ensures
        !terminates_within(cs, w[i], fuel),
    decreases fuel,
{
    let next_i: int = if i + 1 < w.len() { i + 1 } else { 0 };
    assert(find_class(cs, w[i]) matches Some(c) && c.parent == Some(w[next_i]));
    if fuel > 0 {
        lemma_cycle_never_terminates(cs, w, next_i, (fuel - 1) as nat);
    }
}

/// Distinct names that are all registered are no more numerous than the
/// registered classes.
pub proof fn lemma_distinct_registered_bound(cs: Seq<ClassV>, names: Seq<Seq<char>>)
    requires
        names.no_duplicates(),
        forall|j: int| 0 <= j < names.len() ==> has_class(cs, #[trigger] names[j]),
    ensures
        names.len() <= cs.len(),
{
    broadcast use vstd::set_lib::group_set_lib_default;

    let f = |n: Seq<char>| first_class_idx(cs, n);
    let idxs = names.map_values(f);
    assert forall|j: int, k: int|
        0 <= j < idxs.len() && 0 <= k < idxs.len() && j != k implies idxs[j] != idxs[k] by {
        crate::registry::lemma_first_class_idx(cs, names[j]);
        crate::registry::lemma_first_class_idx(cs, names[k]);
        if idxs[j] == idxs[k] {
            assert(cs[f(names[j])].name == names[j]);
            assert(cs[f(names[k])].name == names[k]);
            assert(names[j] == names[k]);
        }
    }
    assert(idxs.no_duplicates());
    idxs.unique_seq_to_set();
    let rng = vstd::set_lib::set_int_range(0, cs.len() as int);
    assert forall|x: int| idxs.to_set().contains(x) implies rng.contains(x) by {
        assert(idxs.contains(x));
        let j = choose|j: int| 0 <= j < idxs.len() && idxs[j] == x;
        crate::registry::lemma_first_class_idx(cs, names[j]);
    }
    vstd::set_lib::lemma_int_range(0, cs.len() as int);
    vstd::set_lib::lemma_len_subset(idxs.to_set(), rng);
}

/// Finds an entry of a name list equal to the target.
fn find_name(names: &Vec<String>, target: &str) -> (r: Option<usize>)
    ensures
        match r {
            Some(j) => (j as int) < names@.len() && names@[j as int]@ == target@,
            None => forall|t: int| 0 <= t < names@.len() ==> names@[t]@ != target@,
        },
{
    let mut i: usize = 0;
    while i < names.len()
        invariant
            0 <= i <= names@.len(),
            forall|t: int| 0 <= t < i ==> names@[t]@ != target@,
        decreases names@.len() - i,
    {
        if str_eq(names[i].as_str(), target) {
            return Some(i);
        }
        i += 1;
    }
    None
}

/// Walks the parent chain from `start` with an explicit visited list;
/// reports whether the chain revisits a name, which is exactly failure of
/// the bounded termination predicate.
fn chain_has_cycle(reg: &TypeRegistry, start: &str) -> (b: bool)
    ensures
        b == !terminates_within(reg@.classes, start@, reg@.classes.len() as nat),
{
    let ghost cs = reg@.classes;
    let n = reg.classes.len();
    let mut visited: Vec<String> = Vec::new();
    let mut cur: String = start.to_owned();
    loop
        invariant
            cs == reg@.classes,
            n == cs.len(),
            visited@.len() <= n,
            forall|j: int, k: int|
                0 <= j < k < visited@.len() ==> visited@[j]@ != visited@[k]@,
            forall|j: int| 0 <= j < visited@.len() ==> has_class(cs, #[trigger] visited@[j]@),
            forall|j: int|
                0 <= j < visited@.len() ==> ((#[trigger] find_class(cs, visited@[j]@))
                    matches Some(c) && c.parent == Some(
                    if j + 1 < visited@.len() {
                        visited@[j + 1]@
                    } else {
                        cur@
                    },
                )),
            terminates_within(cs, start@, n as nat) == terminates_within(
                cs,
                cur@,
                (n - visited@.len()) as nat,
            ),
        decreases n - visited@.len(),
    {
        let m = visited.len();
        if let Some(j0) = find_name(&visited, cur.as_str()) {
            proof {
                let w = Seq::new((m - j0) as nat, |t: int| visited@[j0 + t]@);
                assert(w[0] == cur@);
                assert forall|t: int|
                    0 <= t < w.len() implies (#[trigger] find_class(cs, w[t])) matches Some(c)
                        && c.parent == Some(w[if t + 1 < w.len() { t + 1 } else { 0 }]) by {
                    assert(w[t] == visited@[j0 + t]@);
                    assert(find_class(cs, visited@[j0 + t]@) matches Some(c) && c.parent == Some(
                        if j0 + t + 1 < visited@.len() {
                            visited@[j0 + t + 1]@
                        } else {
                            cur@
                        },
                    ));
                    if t + 1 < w.len() {
                        assert(w[t + 1] == visited@[j0 + t + 1]@);
                    }
                }
                lemma_cycle_never_terminates(cs, w, 0, (n - m) as nat);
            }
            return true;
        }
        match reg.get_class(cur.as_str()) {
            None => {
                return false;
            },
            Some(c) => {
                match &c.parent {
                    None => {
                        return false;
                    },
                    Some(p) => {
                        proof {
                            let vn = visited@.map_values(|s: String| s@).push(cur@);
                            assert forall|j: int, k: int|
                                0 <= j < vn.len() && 0 <= k < vn.len() && j != k implies vn[j]
                                != vn[k] by {
                                if j < k {
                                    if k == vn.len() - 1 {
                                        assert(vn[j] == visited@[j]@);
                                        assert(vn[k] == cur@);
                                    } else {
                                        assert(vn[j] == visited@[j]@);
                                        assert(vn[k] == visited@[k]@);
                                    }
                                } else {
                                    if j == vn.len() - 1 {
                                        assert(vn[j] == cur@);
                                        assert(vn[k] == visited@[k]@);
                                    } else {
                                        assert(vn[j] == visited@[j]@);
                                        assert(vn[k] == visited@[k]@);
                                    }
                                }
                            }
                            assert(vn.no_duplicates());
                            assert forall|j: int| 0 <= j < vn.len() implies has_class(
                                cs,
                                #[trigger] vn[j],
                            ) by {
                                if j < vn.len() - 1 {
                                    assert(vn[j] == visited@[j]@);
                                } else {
                                    assert(vn[j] == cur@);
                                    assert(find_class(cs, cur@) is Some);
                                }
                            }
                            lemma_distinct_registered_bound(cs, vn);
                            assert(m + 1 <= n);
                        }
                        let ghost visited0 = visited@;
                        let ghost cur0 = cur@;
                        let next = p.clone();
                        visited.push(cur);
                        cur = next;
                        proof {
                            assert forall|j: int|
                                0 <= j < visited@.len() implies (#[trigger] find_class(
                                cs,
                                visited@[j]@,
                            )) matches Some(c2) && c2.parent == Some(
                                if j + 1 < visited@.len() {
                                    visited@[j + 1]@
                                } else {
                                    cur@
                                },
                            ) by {
                                if j < visited@.len() - 1 {
                                    assert(visited@[j] == visited0[j]);
                                } else {
                                    assert(visited@[j]@ == cur0);
                                }
                            }
                        }
                    },
                }
            },
        }
    }
}

/// Whether a class's own overload set holds a method matching name,
/// parameter types, and return type exactly.
fn class_method_match(c: &ClassInfo, name: &str, params: &Vec<ParameterInfo>, ret: &Type) -> (r:
    bool)
    ensures
        r == class_has_method_match(
            c@,
            name@,
            param_types(params@.map_values(|p: ParameterInfo| p@)),
            ret@,
        ),
{
    let ghost ptv = param_types(params@.map_values(|p: ParameterInfo| p@));
    let mut i: usize = 0;
    while i < c.methods.len()
        invariant
            0 <= i <= c.methods@.len(),
            ptv == param_types(params@.map_values(|p: ParameterInfo| p@)),
            forall|t: int|
                0 <= t < i ==> !method_matches(#[trigger] c@.methods[t], name@, ptv, ret@),
        decreases c.methods@.len() - i,
    {
        let m = &c.methods[i];
        if str_eq(m.name.as_str(), name) && params_types_eq(&m.params, params) && crate::types::types_equal(
            &m.return_type,
            ret,
        ) {
            proof {
                assert(method_matches(c@.methods[i as int], name@, ptv, ret@));
            }
            return true;
        }
        i += 1;
    }
    false
}

/// Whether a class's own overload set holds a final method matching name
/// and parameter types.
fn class_final_match(c: &ClassInfo, name: &str, ptypes: &Vec<Type>) -> (r: bool)
    ensures
        r == class_has_final_match(c@, name@, ptypes@.map_values(|t: Type| t@)),
{
    let ghost ptv = ptypes@.map_values(|t: Type| t@);
    let mut i: usize = 0;
    while i < c.methods.len()
        invariant
            0 <= i <= c.methods@.len(),
            ptv == ptypes@.map_values(|t: Type| t@),
            forall|t: int| 0 <= t < i ==> !final_matches(#[trigger] c@.methods[t], name@, ptv),
        decreases c.methods@.len() - i,
    {
        let m = &c.methods[i];
        if m.is_final && str_eq(m.name.as_str(), name) && params_match_types(&m.params, ptypes) {
            proof {
                assert(final_matches(c@.methods[i as int], name@, ptv));
            }
            return true;
        }
        i += 1;
    }
    false
}

/// Pairwise structural equality of two parameter lists' declared types.
fn params_types_eq(a: &Vec<ParameterInfo>, b: &Vec<ParameterInfo>) -> (r: bool)
    ensures
        r == (param_types(a@.map_values(|p: ParameterInfo| p@)) == param_types(
            b@.map_values(|p: ParameterInfo| p@),
        )),
{
    let ghost av = param_types(a@.map_values(|p: ParameterInfo| p@));
    let ghost bv = param_types(b@.map_values(|p: ParameterInfo| p@));
    if a.len() != b.len() {
        proof {
            assert(av.len() != bv.len());
        }
        return false;
    }
    let mut i: usize = 0;
    while i < a.len()
        invariant
            0 <= i <= a@.len(),
            a@.len() == b@.len(),
            av == param_types(a@.map_values(|p: ParameterInfo| p@)),
            bv == param_types(b@.map_values(|p: ParameterInfo| p@)),
            av.len() == a@.len() && bv.len() == b@.len(),
            forall|t: int| 0 <= t < i ==> av[t] == bv[t],
        decreases a@.len() - i,
    {
        if !crate::types::types_equal(&a[i].param_type, &b[i].param_type) {
            proof {
                assert(av[i as int] != bv[i as int]);
            }
            return false;
        }
        i += 1;
    }
    proof {
        assert(av =~= bv);
    }
    true
}

/// Pairwise structural equality of a parameter list's declared types against
/// a type list.
fn params_match_types(a: &Vec<ParameterInfo>, b: &Vec<Type>) -> (r: bool)
    ensures
        r == (param_types(a@.map_values(|p: ParameterInfo| p@)) == b@.map_values(
            |t: Type| t@,
        )),
{
    let ghost av = param_types(a@.map_values(|p: ParameterInfo| p@));
    let ghost bv = b@.map_values(|t: Type| t@);
    if a.len() != b.len() {
        proof {
            assert(av.len() != bv.len());
        }
        return false;
    }
    let mut i: usize = 0;
    while i < a.len()
        invariant
            0 <= i <= a@.len(),
            a@.len() == b@.len(),
            av == param_types(a@.map_values(|p: ParameterInfo| p@)),
            bv == b@.map_values(|t: Type| t@),
            av.len() == a@.len() && bv.len() == b@.len(),
            forall|t: int| 0 <= t < i ==> av[t] == bv[t],
        decreases a@.len() - i,
    {
        if !crate::types::types_equal(&a[i].param_type, &b[i]) {
            proof {
                assert(av[i as int] != bv[i as int]);
            }
            return false;
        }
        i += 1;
    }
    proof {
        assert(av =~= bv);
    }
    true
}

impl SemanticAnalyzer {
    /// Pairwise structural equality of two type lists.
    pub fn types_match(&self, types1: &Vec<Type>, types2: &Vec<Type>) -> (r: bool)
        ensures
            r == (types1@.map_values(|t: Type| t@) == types2@.map_values(|t: Type| t@)),
    {
        let ghost av = types1@.map_values(|t: Type| t@);
        let ghost bv = types2@.map_values(|t: Type| t@);
        if types1.len() != types2.len() {
            proof {
                assert(av.len() != bv.len());
            }
            return false;
        }
        let mut i: usize = 0;
        while i < types1.len()
            invariant
                0 <= i <= types1@.len(),
                types1@.len() == types2@.len(),
                av == types1@.map_values(|t: Type| t@),
                bv == types2@.map_values(|t: Type| t@),
                av.len() == types1@.len() && bv.len() == types2@.len(),
                forall|t: int| 0 <= t < i ==> av[t] == bv[t],
            decreases types1@.len() - i,
        {
            if !crate::types::types_equal(&types1[i], &types2[i]) {
                proof {
                    assert(av[i as int] != bv[i as int]);
                }
                return false;
            }
            i += 1;
        }
        proof {
            assert(av =~= bv);
        }
        true
    }

    /// Whether the ancestor chain starting at `parent_name` declares a
    /// method with the same name, identical parameter types, and identical
    /// return type.
    pub fn method_exists_in_parent(
        &self,
        parent_name: &str,
        method_name: &str,
        params: &Vec<ParameterInfo>,
        return_type: &Type,
    ) -> (r: bool)
        ensures
            r == method_in_ancestors(
                self.type_registry@.classes,
                parent_name@,
                method_name@,
                param_types(params@.map_values(|p: ParameterInfo| p@)),
                return_type@,
                self.type_registry@.classes.len(),
            ),
    {
        let ghost cs = self.type_registry@.classes;
        let ghost ptv = param_types(params@.map_values(|p: ParameterInfo| p@));
        let ghost retv = return_type@;
        let mut cur: String = parent_name.to_owned();
        let mut fuel: usize = self.type_registry.classes.len();
        loop
            invariant
                cs == self.type_registry@.classes,
                fuel <= cs.len(),
                ptv == param_types(params@.map_values(|p: ParameterInfo| p@)),
                retv == return_type@,
                method_in_ancestors(cs, parent_name@, method_name@, ptv, retv, cs.len())
                    == method_in_ancestors(cs, cur@, method_name@, ptv, retv, fuel as nat),
            decreases fuel,
        {
            match self.type_registry.get_class(cur.as_str()) {
                None => {
                    return false;
                },
                Some(c) => {
                    if class_method_match(c, method_name, params, return_type) {
                        return true;
                    }
                    match &c.parent {
                        None => {
                            return false;
                        },
                        Some(p) => {
                            if fuel == 0 {
                                return false;
                            }
                            let next = p.clone();
                            fuel = fuel - 1;
                            cur = next;
                        },
                    }
                },
            }
        }
    }

    /// Rejects a method if any ancestor (from `parent_name` up) declares a
    /// final method with the same name and parameter types, naming the
    /// nearest such ancestor.
    pub fn check_final_method_in_ancestors(
        &self,
        parent_name: &str,
        method_name: &str,
        param_types_list: &Vec<Type>,
        line: usize,
        column: usize,
    ) -> (r: Result<(), SemanticError>)
        ensures
            ({
                let holder = final_holder(
                    self.type_registry@.classes,
                    parent_name@,
                    method_name@,
                    param_types_list@.map_values(|t: Type| t@),
                    self.type_registry@.classes.len(),
                );
                match r {
                    Ok(()) => holder is None,
                    Err(e) => holder matches Some(h) && e@.loc == (SourceLocation {
                        line,
                        column,
                    }) && e@.kind == (ErrorKindV::OverrideOfFinalMethod {
                        method: method_name@,
                        ancestor: h,
                    }),
                }
            }),
    {
        let ghost cs = self.type_registry@.classes;
        let ghost ptv = param_types_list@.map_values(|t: Type| t@);
        let mut cur: String = parent_name.to_owned();
        let mut fuel: usize = self.type_registry.classes.len();
        loop
            invariant
                cs == self.type_registry@.classes,
                fuel <= cs.len(),
                ptv == param_types_list@.map_values(|t: Type| t@),
                final_holder(cs, parent_name@, method_name@, ptv, cs.len()) == final_holder(
                    cs,
                    cur@,
                    method_name@,
                    ptv,
                    fuel as nat,
                ),
            decreases fuel,
        {
            match self.type_registry.get_class(cur.as_str()) {
                None => {
                    return Ok(());
                },
                Some(c) => {
                    if class_final_match(c, method_name, param_types_list) {
                        return Err(
                            SemanticError::new(
                                SourceLocation::new(line, column),
                                ErrorKind::OverrideOfFinalMethod {
                                    method: method_name.to_owned(),
                                    ancestor: c.name.clone(),
                                },
                            ),
                        );
                    }
                    match &c.parent {
                        None => {
                            return Ok(());
                        },
                        Some(p) => {
                            if fuel == 0 {
                                return Ok(());
                            }
                            let next = p.clone();
                            fuel = fuel - 1;
                            cur = next;
                        },
                    }
                },
            }
        }
    }

    /// Checks every method of one class that carries the override marker:
    /// the class must have a parent, and the ancestor chain must declare an
    /// exactly matching method.
    pub fn check_override_methods(&self, c: &ClassInfo) -> (r: Result<(), SemanticError>)
        ensures
            ({
                let cs = self.type_registry@.classes;
                &&& (r is Ok <==> class_overrides_ok(cs, c@))
                &&& (r matches Err(e) ==> exists|t: int|
                    0 <= t < c@.methods.len() && !override_ok(cs, c@, #[trigger] c@.methods[t])
                        && (forall|u: int|
                        0 <= u < t ==> override_ok(cs, c@, #[trigger] c@.methods[u])) && e@
                        == override_error(c@, c@.methods[t]))
            }),
    {
        let ghost cs = self.type_registry@.classes;
        let mut i: usize = 0;
        while i < c.methods.len()
            invariant
                0 <= i <= c.methods@.len(),
                cs == self.type_registry@.classes,
                forall|t: int| 0 <= t < i ==> override_ok(cs, c@, #[trigger] c@.methods[t]),
            decreases c.methods@.len() - i,
        {
            let m = &c.methods[i];
            if m.is_override {
                match &c.parent {
                    None => {
                        let err = SemanticError::new(
                            m.loc,
                            ErrorKind::OverrideWithoutParent {
                                method: m.name.clone(),
                                class_name: c.name.clone(),
                            },
                        );
                        proof {
                            assert(c@.methods[i as int] == m@);
                            assert(!override_ok(cs, c@, c@.methods[i as int]));
                            assert(err@ == override_error(c@, c@.methods[i as int]));
                        }
                        return Err(err);
                    },
                    Some(p) => {
                        if !self.method_exists_in_parent(
                            p.as_str(),
                            m.name.as_str(),
                            &m.params,
                            &m.return_type,
                        ) {
                            let err = SemanticError::new(
                                m.loc,
                                ErrorKind::InvalidOverride {
                                    method: m.name.clone(),
                                    class_name: c.name.clone(),
                                    parent: p.clone(),
                                },
                            );
                            proof {
                                assert(c@.methods[i as int] == m@);
                                assert(c@.parent == Some(p@));
                                assert(!override_ok(cs, c@, c@.methods[i as int]));
                                assert(err@ == override_error(c@, c@.methods[i as int]));
                            }
                            return Err(err);
                        }
                    },
                }
            }
            i += 1;
        }
        Ok(())
    }

    /// Checks every method of one class against final-method protection on
    /// its parent's ancestor chain; the class's own declarations are exempt,
    /// and no override marker is required for the check to apply.
    pub fn check_final_method_override(&self, c: &ClassInfo) -> (r: Result<(), SemanticError>)
        ensures
            ({
                let cs = self.type_registry@.classes;
                &&& (r is Ok <==> class_finals_ok(cs, c@))
                &&& (r matches Err(e) ==> exists|t: int|
                    0 <= t < c@.methods.len() && !final_ok(cs, c@, #[trigger] c@.methods[t]) && (
                    forall|u: int| 0 <= u < t ==> final_ok(cs, c@, #[trigger] c@.methods[u]))
                        && e@ == final_error(cs, c@, c@.methods[t]))
            }),
    {
        let ghost cs = self.type_registry@.classes;
        let parent = match &c.parent {
            None => {
                return Ok(());
            },
            Some(p) => p,
        };
        let mut i: usize = 0;
        while i < c.methods.len()
            invariant
                0 <= i <= c.methods@.len(),
                cs == self.type_registry@.classes,
                c@.parent matches Some(pv) && pv == parent@,
                forall|t: int| 0 <= t < i ==> final_ok(cs, c@, #[trigger] c@.methods[t]),
            decreases c.methods@.len() - i,
        {
            let m = &c.methods[i];
            let ptypes = crate::types::param_types_vec(&m.params);
            match self.check_final_method_in_ancestors(
                parent.as_str(),
                m.name.as_str(),
                &ptypes,
                m.loc.line,
                m.loc.column,
            ) {
                Ok(()) => {},
                Err(e) => {
                    proof {
                        assert(!final_ok(cs, c@, c@.methods[i as int]));
                        assert(e@ == final_error(cs, c@, c@.methods[i as int]));
                    }
                    return Err(e);
                },
            }
            i += 1;
        }
        Ok(())
    }

    /// Pass one: every declared parent names a registered class.
    pub fn check_parents_exist(&self) -> (r: Result<(), SemanticError>)
        ensures
            ({
                let cs = self.type_registry@.classes;
                &&& (r is Ok <==> forall|i: int|
                    0 <= i < cs.len() ==> parent_ok(cs, #[trigger] cs[i]))
                &&& (r matches Err(e) ==> exists|i: int|
                    0 <= i < cs.len() && !parent_ok(cs, #[trigger] cs[i]) && (forall|j: int|
                        0 <= j < i ==> parent_ok(cs, #[trigger] cs[j])) && e@.loc == cs[i].loc
                        && e@.kind == (ErrorKindV::UndefinedParent {
                        class_name: cs[i].name,
                        parent: cs[i].parent.unwrap(),
                    }))
            }),
    {
        let ghost cs = self.type_registry@.classes;
        let mut i: usize = 0;
        while i < self.type_registry.classes.len()
            invariant
                0 <= i <= cs.len(),
                cs == self.type_registry@.classes,
                forall|j: int| 0 <= j < i ==> parent_ok(cs, #[trigger] cs[j]),
            decreases cs.len() - i,
        {
            let c = &self.type_registry.classes[i];
            if let Some(p) = &c.parent {
                if !self.type_registry.class_exists(p.as_str()) {
                    let err = SemanticError::new(
                        c.loc,
                        ErrorKind::UndefinedParent {
                            class_name: c.name.clone(),
                            parent: p.clone(),
                        },
                    );
                    proof {
                        assert(cs[i as int] == c@);
                        assert(cs[i as int].parent == Some(p@));
                        assert(!parent_ok(cs, cs[i as int]));
                    }
                    return Err(err);
                }
            }
            i += 1;
        }
        Ok(())
    }

    /// Pass two: no class extends a final class.
    pub fn check_final_parents(&self) -> (r: Result<(), SemanticError>)
        ensures
            ({
                let cs = self.type_registry@.classes;
                &&& (r is Ok <==> forall|i: int|
                    0 <= i < cs.len() ==> parent_not_final(cs, #[trigger] cs[i]))
                &&& (r matches Err(e) ==> exists|i: int|
                    0 <= i < cs.len() && !parent_not_final(cs, #[trigger] cs[i]) && (forall|
                        j: int,
                    |
                        0 <= j < i ==> parent_not_final(cs, #[trigger] cs[j])) && e@.loc
                        == cs[i].loc && e@.kind == (ErrorKindV::InheritFromFinal {
                        class_name: cs[i].name,
                        parent: cs[i].parent.unwrap(),
                    }))
            }),
    {
        let ghost cs = self.type_registry@.classes;
        let mut i: usize = 0;
        while i < self.type_registry.classes.len()
            invariant
                0 <= i <= cs.len(),
                cs == self.type_registry@.classes,
                forall|j: int| 0 <= j < i ==> parent_not_final(cs, #[trigger] cs[j]),
            decreases cs.len() - i,
        {
            let c = &self.type_registry.classes[i];
            if let Some(p) = &c.parent {
                match self.type_registry.get_class(p.as_str()) {
                    Some(pc) => {
                        if pc.is_final {
                            let err = SemanticError::new(
                                c.loc,
                                ErrorKind::InheritFromFinal {
                                    class_name: c.name.clone(),
                                    parent: p.clone(),
                                },
                            );
                            proof {
                                assert(cs[i as int] == c@);
                                assert(cs[i as int].parent == Some(p@));
                                assert(find_class(cs, p@) == Some(pc@));
                                assert(!parent_not_final(cs, cs[i as int]));
                            }
                            return Err(err);
                        }
                    },
                    None => {},
                }
            }
            i += 1;
        }
        Ok(())
    }

    /// Pass three: cycle detection. Every registered class is visited as a
    /// potential cycle origin, so a cycle unreachable from the first class
    /// in iteration order is still caught.
    pub fn check_circular_inheritance(&self) -> (r: Result<(), SemanticError>)
        ensures
            ({
                let cs = self.type_registry@.classes;
                &&& (r is Ok <==> registry_acyclic(cs))
                &&& (r matches Err(e) ==> exists|i: int|
                    0 <= i < cs.len() && !(#[trigger] terminates_within(cs, cs[i].name, cs.len()))
                        && (forall|j: int|
                        0 <= j < i ==> #[trigger] terminates_within(cs, cs[j].name, cs.len()))
                        && e@.loc == (SourceLocation { line: 0, column: 0 }) && e@.kind == (
                    ErrorKindV::CircularInheritance { class_name: cs[i].name }))
            }),
    {
        let ghost cs = self.type_registry@.classes;
        let mut i: usize = 0;
        while i < self.type_registry.classes.len()
            invariant
                0 <= i <= cs.len(),
                cs == self.type_registry@.classes,
                forall|j: int|
                    0 <= j < i ==> #[trigger] terminates_within(cs, cs[j].name, cs.len()),
            decreases cs.len() - i,
        {
            let name = &self.type_registry.classes[i].name;
            if chain_has_cycle(&self.type_registry, name.as_str()) {
                let err = SemanticError::new(
                    SourceLocation::none(),
                    ErrorKind::CircularInheritance { class_name: name.clone() },
                );
                proof {
                    assert(cs[i as int].name == name@);
                    assert(!terminates_within(cs, cs[i as int].name, cs.len()));
                    assert(!registry_acyclic(cs));
                }
                return Err(err);
            }
            i += 1;
        }
        Ok(())
    }

    /// The inheritance validator: parent existence, final parents, cycle
    /// detection, then override legality and final-method protection class
    /// by class. Succeeds exactly when every pass holds of every registered
    /// class; otherwise reports the first failing pass's first diagnostic.
    pub fn check_inheritance(&self) -> (r: Result<(), SemanticError>)
        ensures
            ({
                let cs = self.type_registry@.classes;
                r is Ok <==> inheritance_ok(cs)
            }),
            ({
                let cs = self.type_registry@.classes;
                r matches Err(e) ==> !inheritance_ok(cs)
            }),
    {
        match self.check_parents_exist() {
            Ok(()) => {},
            Err(e) => {
                proof {
                    assert(!inheritance_ok(self.type_registry@.classes));
                }
                return Err(e);
            },
        }
        match self.check_final_parents() {
            Ok(()) => {},
            Err(e) => {
                proof {
                    assert(!inheritance_ok(self.type_registry@.classes));
                }
                return Err(e);
            },
        }
        match self.check_circular_inheritance() {
            Ok(()) => {},
            Err(e) => {
                proof {
                    assert(!registry_acyclic(self.type_registry@.classes));
                    assert(!inheritance_ok(self.type_registry@.classes));
                }
                return Err(e);
            },
        }
        let ghost cs = self.type_registry@.classes;
        let mut i: usize = 0;
        while i < self.type_registry.classes.len()
            invariant
                0 <= i <= cs.len(),
                cs == self.type_registry@.classes,
                forall|j: int|
                    0 <= j < cs.len() ==> parent_ok(cs, #[trigger] cs[j]),
                forall|j: int|
                    0 <= j < cs.len() ==> parent_not_final(cs, #[trigger] cs[j]),
                registry_acyclic(cs),
                forall|j: int| 0 <= j < i ==> class_overrides_ok(cs, #[trigger] cs[j]),
                forall|j: int| 0 <= j < i ==> class_finals_ok(cs, #[trigger] cs[j]),
            decreases cs.len() - i,
        {
            let c = &self.type_registry.classes[i];
            match self.check_override_methods(c) {
                Ok(()) => {},
                Err(e) => {
                    proof {
                        assert(c@ == cs[i as int]);
                        assert(!class_overrides_ok(cs, cs[i as int]));
                        assert(!inheritance_ok(cs));
                    }
                    return Err(e);
                },
            }
            match self.check_final_method_override(c) {
                Ok(()) => {},
                Err(e) => {
                    proof {
                        assert(c@ == cs[i as int]);
                        assert(!class_finals_ok(cs, cs[i as int]));
                        assert(!inheritance_ok(cs));
                    }
                    return Err(e);
                },
            }
            i += 1;
        }
        Ok(())
    }
}

/// Registering a class preserves the registry's name-uniqueness invariant:
/// the shared-namespace check admits only fresh names.
pub proof fn lemma_register_class_spec_wf(reg: RegistryV, c: ClassV)
    requires
        crate::registry::registry_wf(reg),
    ensures
        crate::registry::registry_wf(register_class_spec(reg, c).0),
{
    if !(has_class(reg.classes, c.name) || has_interface(reg.interfaces, c.name)) {
        crate::registry::lemma_first_class_idx(reg.classes, c.name);
        crate::registry::lemma_first_interface_idx(reg.interfaces, c.name);
        let cs2 = reg.classes.push(c);
        assert(forall|i: int| 0 <= i < reg.classes.len() ==> cs2[i] == reg.classes[i]);
        assert(cs2[cs2.len() - 1] == c);
    }
}

/// Registering an interface preserves the registry's name-uniqueness
/// invariant.
pub proof fn lemma_register_interface_spec_wf(reg: RegistryV, it: InterfaceV)
    requires
        crate::registry::registry_wf(reg),
    ensures
        crate::registry::registry_wf(register_interface_spec(reg, it).0),
{
    if !(has_class(reg.classes, it.name) || has_interface(reg.interfaces, it.name)) {
        crate::registry::lemma_first_class_idx(reg.classes, it.name);
        crate::registry::lemma_first_interface_idx(reg.interfaces, it.name);
        let is2 = reg.interfaces.push(it);
        assert(forall|i: int| 0 <= i < reg.interfaces.len() ==> is2[i] == reg.interfaces[i]);
        assert(is2[is2.len() - 1] == it);
    }
}

/// Sequential interface registration preserves the invariant, whether it
/// stops at a duplicate or runs to the end.
pub proof fn lemma_collect_interfaces_spec_wf(reg: RegistryV, ds: Seq<InterfaceDeclV>)
    requires
        crate::registry::registry_wf(reg),
    ensures
        crate::registry::registry_wf(collect_interfaces_spec(reg, ds).0),
    decreases ds.len(),
{
    if ds.len() > 0 {
        lemma_register_interface_spec_wf(reg, interface_info_of(ds[0]));
        let step = register_interface_spec(reg, interface_info_of(ds[0]));
        if step.1 is None {
            lemma_collect_interfaces_spec_wf(step.0, ds.subrange(1, ds.len() as int));
        }
    }
}

/// Sequential class registration preserves the invariant.
pub proof fn lemma_collect_classes_spec_wf(reg: RegistryV, ds: Seq<ClassDeclV>)
    requires
        crate::registry::registry_wf(reg),
    ensures
        crate::registry::registry_wf(collect_program_classes_spec(reg, ds).0),
    decreases ds.len(),
{
    if ds.len() > 0 {
        lemma_register_class_spec_wf(reg, class_info_of(ds[0]));
        let step = register_class_spec(reg, class_info_of(ds[0]));
        if step.1 is None {
            lemma_collect_classes_spec_wf(step.0, ds.subrange(1, ds.len() as int));
        }
    }
}

/// The registry invariant of the whole collection pass: starting from a
/// registry with unique names (an empty one included), class and interface
/// names stay unique and the two namespaces stay disjoint, however far the
/// pass got.
pub proof fn lemma_collect_preserves_wf(
    reg: RegistryV,
    classes: Seq<ClassDeclV>,
    interfaces: Seq<InterfaceDeclV>,
)
    requires
        crate::registry::registry_wf(reg),
    ensures
        crate::registry::registry_wf(collect_spec(reg, classes, interfaces).0),
{
    lemma_collect_interfaces_spec_wf(reg, interfaces);
    let step = collect_interfaces_spec(reg, interfaces);
    if step.1 is None {
        lemma_collect_classes_spec_wf(step.0, classes);
    }
}

} // verus!
