//! The type registry: descriptors for classes, interfaces, fields, methods
//! and constructors, name lookup over a shared class/interface namespace,
//! and the instance memory layout.
//!
//! Layout is the load-bearing invariant of the object model: a subclass's
//! layout is its parent's full layout followed by its own declared instance
//! fields in declaration order, so any instance of a subclass can be read
//! through an ancestor's field offsets without adjustment. The spec functions
//! [`layout_size`] and [`field_slot`] state that rule in one place; the
//! executable walks mirror them exactly.

use vstd::prelude::*;
use crate::ast::SourceLocation;
use crate::error::{ErrorKind, ErrorKindV, SemanticError};
use crate::types::{
    str_eq, size_of_type, type_size, ParamV, ParameterInfo, Type, TypeV,
};

verus! {

/// A field descriptor. Instance fields occupy a byte offset in the owning
/// object's layout (computed on demand by the registry); a static field
/// instead owns one process-wide storage slot named `OwningClass.fieldName`.
#[derive(Debug)]
pub struct FieldInfo {
    pub name: String,
    pub field_type: Type,
    pub is_public: bool,
    pub is_private: bool,
    pub is_protected: bool,
    pub is_static: bool,
    pub is_final: bool,
    pub is_const_expr: bool,
}

/// Specification view of [`FieldInfo`].
pub struct FieldV {
    pub name: Seq<char>,
    pub field_type: TypeV,
    pub is_public: bool,
    pub is_private: bool,
    pub is_protected: bool,
    pub is_static: bool,
    pub is_final: bool,
    pub is_const_expr: bool,
}

impl View for FieldInfo {
    type V = FieldV;

    open spec fn view(&self) -> FieldV {
        FieldV {
            name: self.name@,
            field_type: self.field_type@,
            is_public: self.is_public,
            is_private: self.is_private,
            is_protected: self.is_protected,
            is_static: self.is_static,
            is_final: self.is_final,
            is_const_expr: self.is_const_expr,
        }
    }
}

/// A method descriptor, stored per owning class. Distinct entries may share
/// a name and differ in their parameter lists (an overload set).
#[derive(Debug)]
pub struct MethodInfo {
    pub name: String,
    pub class_name: String,
    pub params: Vec<ParameterInfo>,
    pub return_type: Type,
    pub is_public: bool,
    pub is_private: bool,
    pub is_protected: bool,
    pub is_static: bool,
    pub is_native: bool,
    pub is_override: bool,
    pub is_final: bool,
    pub loc: SourceLocation,
}

/// Specification view of [`MethodInfo`].
pub struct MethodV {
    pub name: Seq<char>,
    pub class_name: Seq<char>,
    pub params: Seq<ParamV>,
    pub return_type: TypeV,
    pub is_public: bool,
    pub is_private: bool,
    pub is_protected: bool,
    pub is_static: bool,
    pub is_native: bool,
    pub is_override: bool,
    pub is_final: bool,
    pub loc: SourceLocation,
}

impl View for MethodInfo {
    type V = MethodV;

    open spec fn view(&self) -> MethodV {
        MethodV {
            name: self.name@,
            class_name: self.class_name@,
            params: self.params@.map_values(|p: ParameterInfo| p@),
            return_type: self.return_type@,
            is_public: self.is_public,
            is_private: self.is_private,
            is_protected: self.is_protected,
            is_static: self.is_static,
            is_native: self.is_native,
            is_override: self.is_override,
            is_final: self.is_final,
            loc: self.loc,
        }
    }
}

/// A constructor descriptor: parameter list and visibility.
#[derive(Debug)]
pub struct ConstructorInfo {
    pub params: Vec<ParameterInfo>,
    pub is_public: bool,
    pub is_private: bool,
    pub is_protected: bool,
}

/// Specification view of [`ConstructorInfo`].
pub struct ConstructorV {
    pub params: Seq<ParamV>,
    pub is_public: bool,
    pub is_private: bool,
    pub is_protected: bool,
}

impl View for ConstructorInfo {
    type V = ConstructorV;

    open spec fn view(&self) -> ConstructorV {
        ConstructorV {
            params: self.params@.map_values(|p: ParameterInfo| p@),
            is_public: self.is_public,
            is_private: self.is_private,
            is_protected: self.is_protected,
        }
    }
}

/// A class descriptor. Fields are kept in declaration order, which the
/// layout depends on; methods are the flattened overload sets.
#[derive(Debug)]
pub struct ClassInfo {
    pub name: String,
    pub parent: Option<String>,
    pub interfaces: Vec<String>,
    pub fields: Vec<FieldInfo>,
    pub methods: Vec<MethodInfo>,
    pub constructors: Vec<ConstructorInfo>,
    pub has_destructor: bool,
    pub is_abstract: bool,
    pub is_final: bool,
    pub loc: SourceLocation,
}

/// Specification view of [`ClassInfo`].
pub struct ClassV {
    pub name: Seq<char>,
    pub parent: Option<Seq<char>>,
    pub interfaces: Seq<Seq<char>>,
    pub fields: Seq<FieldV>,
    pub methods: Seq<MethodV>,
    pub constructors: Seq<ConstructorV>,
    pub has_destructor: bool,
    pub is_abstract: bool,
    pub is_final: bool,
    pub loc: SourceLocation,
}

impl View for ClassInfo {
    type V = ClassV;

    open spec fn view(&self) -> ClassV {
        ClassV {
            name: self.name@,
            parent: match self.parent {
                Some(p) => Some(p@),
                None => None,
            },
            interfaces: self.interfaces@.map_values(|s: String| s@),
            fields: self.fields@.map_values(|f: FieldInfo| f@),
            methods: self.methods@.map_values(|m: MethodInfo| m@),
            constructors: self.constructors@.map_values(|c: ConstructorInfo| c@),
            has_destructor: self.has_destructor,
            is_abstract: self.is_abstract,
            is_final: self.is_final,
            loc: self.loc,
        }
    }
}

impl ClassInfo {
    /// Appends a method to the class's overload sets.
    pub fn add_method(&mut self, m: MethodInfo)
        ensures
            final(self)@ == (ClassV { methods: old(self)@.methods.push(m@), ..old(self)@ }),
    {
        self.methods.push(m);
        proof {
            assert(final(self)@.methods =~= old(self)@.methods.push(m@));
        }
    }
}

/// An interface descriptor: method signatures, implicitly public, never
/// static, never final, bodies always absent.
#[derive(Debug)]
pub struct InterfaceInfo {
    pub name: String,
    pub methods: Vec<MethodInfo>,
    pub loc: SourceLocation,
}

/// Specification view of [`InterfaceInfo`].
pub struct InterfaceV {
    pub name: Seq<char>,
    pub methods: Seq<MethodV>,
    pub loc: SourceLocation,
}

impl View for InterfaceInfo {
    type V = InterfaceV;

    open spec fn view(&self) -> InterfaceV {
        InterfaceV {
            name: self.name@,
            methods: self.methods@.map_values(|m: MethodInfo| m@),
            loc: self.loc,
        }
    }
}

impl InterfaceInfo {
    pub fn new(name: String, loc: SourceLocation) -> (r: Self)
        ensures
            r@ == (InterfaceV { name: name@, methods: Seq::empty(), loc }),
    {
        let r = InterfaceInfo { name, methods: Vec::new(), loc };
        proof {
            assert(r@.methods =~= Seq::<MethodV>::empty());
        }
        r
    }

    /// Appends a method to the interface's overload sets.
    pub fn add_method(&mut self, m: MethodInfo)
        ensures
            final(self)@ == (InterfaceV { methods: old(self)@.methods.push(m@), ..old(self)@ }),
    {
        self.methods.push(m);
        proof {
            assert(final(self)@.methods =~= old(self)@.methods.push(m@));
        }
    }
}

/// The registry owning every class and interface descriptor by name.
/// Populated once (interfaces first, then classes), then read-only for
/// validation and code generation.
#[derive(Debug)]
pub struct TypeRegistry {
    pub classes: Vec<ClassInfo>,
    pub interfaces: Vec<InterfaceInfo>,
}

/// Specification view of [`TypeRegistry`].
pub struct RegistryV {
    pub classes: Seq<ClassV>,
    pub interfaces: Seq<InterfaceV>,
}

impl View for TypeRegistry {
    type V = RegistryV;

    open spec fn view(&self) -> RegistryV {
        RegistryV {
            classes: self.classes@.map_values(|c: ClassInfo| c@),
            interfaces: self.interfaces@.map_values(|i: InterfaceInfo| i@),
        }
    }
}

/// Index of the first class with the given name, or `-1` if none.
pub open spec fn first_class_idx(cs: Seq<ClassV>, name: Seq<char>) -> int
    decreases cs.len(),
{
    if cs.len() == 0 {
        -1
    } else if cs[0].name == name {
        0
    } else {
        let rest = first_class_idx(cs.subrange(1, cs.len() as int), name);
        if rest < 0 {
            -1
        } else {
            rest + 1
        }
    }
}

/// The first class with the given name, if any.
pub open spec fn find_class(cs: Seq<ClassV>, name: Seq<char>) -> Option<ClassV> {
    let i = first_class_idx(cs, name);
    if i >= 0 {
        Some(cs[i])
    } else {
        None
    }
}

pub open spec fn has_class(cs: Seq<ClassV>, name: Seq<char>) -> bool {
    find_class(cs, name) is Some
}

/// `first_class_idx` is the least matching index, or `-1` when no class
/// carries the name.
pub proof fn lemma_first_class_idx(cs: Seq<ClassV>, name: Seq<char>)
    ensures
        first_class_idx(cs, name) == -1 ==> forall|j: int|
            0 <= j < cs.len() ==> cs[j].name != name,
        first_class_idx(cs, name) >= 0 ==> {
            let i = first_class_idx(cs, name);
            &&& i < cs.len()
            &&& cs[i].name == name
            &&& forall|j: int| 0 <= j < i ==> cs[j].name != name
        },
    decreases cs.len(),
{
    if cs.len() > 0 && cs[0].name != name {
        let sub = cs.subrange(1, cs.len() as int);
        lemma_first_class_idx(sub, name);
        assert(forall|j: int| 1 <= j < cs.len() ==> cs[j] == sub[j - 1]);
    }
}

/// Index of the first interface with the given name, or `-1` if none.
pub open spec fn first_interface_idx(is: Seq<InterfaceV>, name: Seq<char>) -> int
    decreases is.len(),
{
    if is.len() == 0 {
        -1
    } else if is[0].name == name {
        0
    } else {
        let rest = first_interface_idx(is.subrange(1, is.len() as int), name);
        if rest < 0 {
            -1
        } else {
            rest + 1
        }
    }
}

/// The first interface with the given name, if any.
pub open spec fn find_interface(is: Seq<InterfaceV>, name: Seq<char>) -> Option<InterfaceV> {
    let i = first_interface_idx(is, name);
    if i >= 0 {
        Some(is[i])
    } else {
        None
    }
}

pub open spec fn has_interface(is: Seq<InterfaceV>, name: Seq<char>) -> bool {
    find_interface(is, name) is Some
}

/// Companion of [`lemma_first_class_idx`] for interfaces.
pub proof fn lemma_first_interface_idx(is: Seq<InterfaceV>, name: Seq<char>)
    ensures
        first_interface_idx(is, name) == -1 ==> forall|j: int|
            0 <= j < is.len() ==> is[j].name != name,
        first_interface_idx(is, name) >= 0 ==> {
            let i = first_interface_idx(is, name);
            &&& i < is.len()
            &&& is[i].name == name
            &&& forall|j: int| 0 <= j < i ==> is[j].name != name
        },
    decreases is.len(),
{
    if is.len() > 0 && is[0].name != name {
        let sub = is.subrange(1, is.len() as int);
        lemma_first_interface_idx(sub, name);
        assert(forall|j: int| 1 <= j < is.len() ==> is[j] == sub[j - 1]);
    }
}

/// Class names are unique, interface names are unique, and the two share one
/// namespace: no name is both a class and an interface.
pub open spec fn registry_wf(reg: RegistryV) -> bool {
    &&& forall|i: int, j: int|
        0 <= i < j < reg.classes.len() ==> reg.classes[i].name != reg.classes[j].name
    &&& forall|i: int, j: int|
        0 <= i < j < reg.interfaces.len() ==> reg.interfaces[i].name != reg.interfaces[j].name
    &&& forall|i: int, j: int|
        0 <= i < reg.classes.len() && 0 <= j < reg.interfaces.len() ==> reg.classes[i].name
            != reg.interfaces[j].name
}

/// Total size in bytes of the declared instance fields of one class, in
/// declaration order. Static fields occupy no layout space.
pub open spec fn own_fields_size(fs: Seq<FieldV>) -> int
    decreases fs.len(),
{
    if fs.len() == 0 {
        0
    } else {
        own_fields_size(fs.drop_last()) + (if fs.last().is_static {
            0
        } else {
            type_size(fs.last().field_type)
        })
    }
}

pub proof fn lemma_own_fields_size_nonneg(fs: Seq<FieldV>)
    ensures
        own_fields_size(fs) >= 0,
    decreases fs.len(),
{
    if fs.len() > 0 {
        lemma_own_fields_size_nonneg(fs.drop_last());
    }
}

/// A prefix of a field list never outgrows the whole list.
pub proof fn lemma_own_fields_size_prefix(fs: Seq<FieldV>, i: int)
    requires
        0 <= i <= fs.len(),
    ensures
        own_fields_size(fs.subrange(0, i)) <= own_fields_size(fs),
    decreases fs.len() - i,
{
    if i < fs.len() {
        lemma_own_fields_size_prefix(fs, i + 1);
        assert(fs.subrange(0, i + 1).drop_last() =~= fs.subrange(0, i));
        assert(fs.subrange(0, i + 1).last() == fs[i]);
    } else {
        assert(fs.subrange(0, i) =~= fs);
    }
}

/// Offset of the first instance field with the given name relative to the
/// start of the class's own field block, with its declared type.
pub open spec fn offset_in_own(fs: Seq<FieldV>, name: Seq<char>) -> Option<(int, TypeV)>
    decreases fs.len(),
{
    if fs.len() == 0 {
        None
    } else if !fs[0].is_static && fs[0].name == name {
        Some((0, fs[0].field_type))
    } else {
        let head = if fs[0].is_static {
            0
        } else {
            type_size(fs[0].field_type)
        };
        match offset_in_own(fs.subrange(1, fs.len() as int), name) {
            Some((rel, ty)) => Some((rel + head, ty)),
            None => None,
        }
    }
}

/// Full instance size of a class: its parent's full layout size plus its own
/// instance fields. `fuel` bounds the ancestor walk; `None` means the class
/// (or an ancestor within `fuel` hops) is unregistered or the chain does not
/// bottom out within `fuel` hops.
pub open spec fn layout_size(cs: Seq<ClassV>, name: Seq<char>, fuel: nat) -> Option<int>
    decreases fuel,
{
    match find_class(cs, name) {
        None => None,
        Some(c) => match c.parent {
            None => Some(own_fields_size(c.fields)),
            Some(p) => if fuel == 0 {
                None
            } else {
                match layout_size(cs, p, (fuel - 1) as nat) {
                    None => None,
                    Some(ps) => Some(ps + own_fields_size(c.fields)),
                }
            },
        },
    }
}

pub proof fn lemma_layout_size_nonneg(cs: Seq<ClassV>, name: Seq<char>, fuel: nat)
    ensures
        layout_size(cs, name, fuel) matches Some(s) ==> s >= 0,
    decreases fuel,
{
    if let Some(c) = find_class(cs, name) {
        lemma_own_fields_size_nonneg(c.fields);
        if c.parent is Some && fuel > 0 {
            lemma_layout_size_nonneg(cs, c.parent.unwrap(), (fuel - 1) as nat);
        }
    }
}

/// Byte offset and declared type of the named instance field as seen through
/// the given class: the nearest declaration on the ancestor chain wins, and
/// a field declared by the class itself sits immediately after the parent's
/// full layout.
pub open spec fn field_slot(cs: Seq<ClassV>, cname: Seq<char>, fname: Seq<char>, fuel: nat) -> Option<
    (int, TypeV),
>
    decreases fuel,
{
    match find_class(cs, cname) {
        None => None,
        Some(c) => match offset_in_own(c.fields, fname) {
            Some((rel, ty)) => match c.parent {
                None => Some((rel, ty)),
                Some(p) => if fuel == 0 {
                    None
                } else {
                    match layout_size(cs, p, (fuel - 1) as nat) {
                        None => None,
                        Some(b) => Some((b + rel, ty)),
                    }
                },
            },
            None => match c.parent {
                None => None,
                Some(p) => if fuel == 0 {
                    None
                } else {
                    field_slot(cs, p, fname, (fuel - 1) as nat)
                },
            },
        },
    }
}

/// Canonical fuel for ancestor walks: a terminating parent chain never
/// revisits a name, so it is no longer than the class list.
pub open spec fn chain_fuel(cs: Seq<ClassV>) -> nat {
    cs.len()
}

/// The instance size of a class under the canonical fuel.
pub open spec fn class_size_opt(cs: Seq<ClassV>, name: Seq<char>) -> Option<int> {
    layout_size(cs, name, chain_fuel(cs))
}

/// The resolved slot of an instance field under the canonical fuel.
pub open spec fn field_slot_opt(cs: Seq<ClassV>, cname: Seq<char>, fname: Seq<char>) -> Option<
    (int, TypeV),
> {
    field_slot(cs, cname, fname, chain_fuel(cs))
}

/// Layout compatibility, first half: a field that a subclass inherits (and
/// does not redeclare) resolves to exactly the slot it has through the
/// parent, so reading it through either class touches the same bytes.
pub proof fn lemma_inherited_field_slot(
    cs: Seq<ClassV>,
    c: ClassV,
    p: Seq<char>,
    fname: Seq<char>,
    fuel: nat,
)
    requires
        find_class(cs, c.name) == Some(c),
        c.parent == Some(p),
        offset_in_own(c.fields, fname) is None,
        fuel > 0,
    ensures
        field_slot(cs, c.name, fname, fuel) == field_slot(cs, p, fname, (fuel - 1) as nat),
{
}

/// Layout compatibility, second half: a field the subclass itself declares
/// sits at the parent's full size plus its offset within the subclass's own
/// field block — new fields extend the parent's layout, never overlap it.
pub proof fn lemma_own_field_slot(
    cs: Seq<ClassV>,
    c: ClassV,
    p: Seq<char>,
    fname: Seq<char>,
    fuel: nat,
    rel: int,
    ty: TypeV,
    psize: int,
)
    requires
        find_class(cs, c.name) == Some(c),
        c.parent == Some(p),
        offset_in_own(c.fields, fname) == Some((rel, ty)),
        fuel > 0,
        layout_size(cs, p, (fuel - 1) as nat) == Some(psize),
    ensures
        field_slot(cs, c.name, fname, fuel) == Some((psize + rel, ty)),
{
}

/// A subclass's total size is its parent's total size plus its own block:
/// the parent's layout is a prefix of the subclass's.
pub proof fn lemma_subclass_size(cs: Seq<ClassV>, c: ClassV, p: Seq<char>, fuel: nat, psize: int)
    requires
        find_class(cs, c.name) == Some(c),
        c.parent == Some(p),
        fuel > 0,
        layout_size(cs, p, (fuel - 1) as nat) == Some(psize),
    ensures
        layout_size(cs, c.name, fuel) == Some(psize + own_fields_size(c.fields)),
{
}

impl TypeRegistry {
    /// An empty registry, as created at the start of semantic analysis.
    pub fn new() -> (r: Self)
        ensures
            r@.classes == Seq::<ClassV>::empty(),
            r@.interfaces == Seq::<InterfaceV>::empty(),
    {
        TypeRegistry { classes: Vec::new(), interfaces: Vec::new() }
    }

    /// Index of the first class with this name.
    pub fn class_index(&self, name: &str) -> (r: Option<usize>)
        ensures
            match r {
                Some(i) => first_class_idx(self@.classes, name@) == i as int,
                None => first_class_idx(self@.classes, name@) == -1,
            },
    {
        let cs = &self.classes;
        let mut i: usize = 0;
        while i < cs.len()
            invariant
                0 <= i <= cs@.len(),
                self@.classes.len() == cs@.len(),
                forall|j: int| 0 <= j < cs@.len() ==> self@.classes[j] == cs@[j]@,
                forall|j: int| 0 <= j < i ==> self@.classes[j].name != name@,
            decreases cs@.len() - i,
        {
            if str_eq(cs[i].name.as_str(), name) {
                proof {
                    lemma_first_class_idx(self@.classes, name@);
                    let idx = first_class_idx(self@.classes, name@);
                    assert(self@.classes[i as int].name == name@);
                    if idx == -1 {
                        assert(false);
                    } else if idx < i as int {
                        assert(false);
                    } else if idx > i as int {
                        assert(self@.classes[i as int].name != name@);
                        assert(false);
                    }
                }
                return Some(i);
            }
            i += 1;
        }
        proof {
            lemma_first_class_idx(self@.classes, name@);
        }
        None
    }

    /// Index of the first interface with this name.
    pub fn interface_index(&self, name: &str) -> (r: Option<usize>)
        ensures
            match r {
                Some(i) => first_interface_idx(self@.interfaces, name@) == i as int,
                None => first_interface_idx(self@.interfaces, name@) == -1,
            },
    {
        let is = &self.interfaces;
        let mut i: usize = 0;
        while i < is.len()
            invariant
                0 <= i <= is@.len(),
                self@.interfaces.len() == is@.len(),
                forall|j: int| 0 <= j < is@.len() ==> self@.interfaces[j] == is@[j]@,
                forall|j: int| 0 <= j < i ==> self@.interfaces[j].name != name@,
            decreases is@.len() - i,
        {
            if str_eq(is[i].name.as_str(), name) {
                proof {
                    lemma_first_interface_idx(self@.interfaces, name@);
                    let idx = first_interface_idx(self@.interfaces, name@);
                    assert(self@.interfaces[i as int].name == name@);
                    if idx == -1 {
                        assert(false);
                    } else if idx < i as int {
                        assert(false);
                    } else if idx > i as int {
                        assert(self@.interfaces[i as int].name != name@);
                        assert(false);
                    }
                }
                return Some(i);
            }
            i += 1;
        }
        proof {
            lemma_first_interface_idx(self@.interfaces, name@);
        }
        None
    }

    /// Whether a class with this name is registered. Never panics.
    pub fn class_exists(&self, name: &str) -> (r: bool)
        ensures
            r == has_class(self@.classes, name@),
    {
        self.class_index(name).is_some()
    }

    /// The registered class with this name, or `None` on a miss.
    pub fn get_class(&self, name: &str) -> (r: Option<&ClassInfo>)
        ensures
            match r {
                Some(c) => find_class(self@.classes, name@) == Some(c@),
                None => find_class(self@.classes, name@) is None,
            },
    {
        match self.class_index(name) {
            Some(i) => {
                proof {
                    lemma_first_class_idx(self@.classes, name@);
                }
                Some(&self.classes[i])
            },
            None => None,
        }
    }

    /// The registered interface with this name, or `None` on a miss.
    pub fn get_interface(&self, name: &str) -> (r: Option<&InterfaceInfo>)
        ensures
            match r {
                Some(it) => find_interface(self@.interfaces, name@) == Some(it@),
                None => find_interface(self@.interfaces, name@) is None,
            },
    {
        match self.interface_index(name) {
            Some(i) => {
                proof {
                    lemma_first_interface_idx(self@.interfaces, name@);
                }
                Some(&self.interfaces[i])
            },
            None => None,
        }
    }

    /// Registers a class. Classes and interfaces share one namespace, so any
    /// existing entity with the same name is a duplicate definition; the
    /// registry is left unchanged in that case.
    pub fn register_class(&mut self, info: ClassInfo) -> (r: Result<(), SemanticError>)
        ensures
            ({
                let clash = has_class(old(self)@.classes, info@.name) || has_interface(
                    old(self)@.interfaces,
                    info@.name,
                );
                match r {
                    Ok(()) => !clash && final(self)@.classes == old(self)@.classes.push(info@)
                        && final(self)@.interfaces == old(self)@.interfaces,
                    Err(e) => clash && final(self)@ == old(self)@ && e@.loc == info@.loc
                        && e@.kind == (ErrorKindV::DuplicateDefinition { name: info@.name }),
                }
            }),
            registry_wf(old(self)@) ==> registry_wf(final(self)@),
    {
        let clash = self.class_index(info.name.as_str()).is_some() || self.interface_index(
            info.name.as_str(),
        ).is_some();
        proof {
            lemma_first_class_idx(self@.classes, info@.name);
            lemma_first_interface_idx(self@.interfaces, info@.name);
        }
        if clash {
            let loc = info.loc;
            return Err(
                SemanticError::new(loc, ErrorKind::DuplicateDefinition { name: info.name }),
            );
        }
        self.classes.push(info);
        proof {
            assert(final(self)@.classes =~= old(self)@.classes.push(info@));
            assert(final(self)@.interfaces =~= old(self)@.interfaces);
        }
        Ok(())
    }

    /// Registers an interface, under the same shared-namespace rule.
    pub fn register_interface(&mut self, info: InterfaceInfo) -> (r: Result<(), SemanticError>)
        ensures
            ({
                let clash = has_class(old(self)@.classes, info@.name) || has_interface(
                    old(self)@.interfaces,
                    info@.name,
                );
                match r {
                    Ok(()) => !clash && final(self)@.interfaces == old(self)@.interfaces.push(info@)
                        && final(self)@.classes == old(self)@.classes,
                    Err(e) => clash && final(self)@ == old(self)@ && e@.loc == info@.loc
                        && e@.kind == (ErrorKindV::DuplicateDefinition { name: info@.name }),
                }
            }),
            registry_wf(old(self)@) ==> registry_wf(final(self)@),
    {
        let clash = self.class_index(info.name.as_str()).is_some() || self.interface_index(
            info.name.as_str(),
        ).is_some();
        proof {
            lemma_first_class_idx(self@.classes, info@.name);
            lemma_first_interface_idx(self@.interfaces, info@.name);
        }
        if clash {
            let loc = info.loc;
            return Err(
                SemanticError::new(loc, ErrorKind::DuplicateDefinition { name: info.name }),
            );
        }
        self.interfaces.push(info);
        proof {
            assert(final(self)@.interfaces =~= old(self)@.interfaces.push(info@));
            assert(final(self)@.classes =~= old(self)@.classes);
        }
        Ok(())
    }
}

/// Helper result of scanning one class's own field block.
pub enum OwnFieldSlot {
    /// No instance field of that name is declared by the class itself.
    Missing,
    /// Declared here, at this offset within the class's own block.
    At(u64, Type),
    /// Declared here, but at an offset beyond what a machine word can hold.
    Oversize,
}

/// Splitting an own-block scan at position `i`: when no instance field among
/// the first `i` matches, the offset of a later match is its offset within
/// the remaining suffix plus the size of the first `i` entries.
pub proof fn lemma_offset_in_own_split(fs: Seq<FieldV>, name: Seq<char>, i: int)
    requires
        0 <= i <= fs.len(),
        forall|j: int| 0 <= j < i ==> !(!fs[j].is_static && fs[j].name == name),
    ensures
        offset_in_own(fs, name) == match offset_in_own(fs.subrange(i, fs.len() as int), name) {
            Some((rel, ty)) => Some((rel + own_fields_size(fs.subrange(0, i)), ty)),
            None => None,
        },
    decreases i,
{
    if i == 0 {
        assert(fs.subrange(0, fs.len() as int) =~= fs);
        assert(fs.subrange(0, 0) =~= Seq::<FieldV>::empty());
        assert(own_fields_size(fs.subrange(0, 0)) == 0);
    } else {
        lemma_offset_in_own_split(fs, name, i - 1);
        let sub_prev = fs.subrange(i - 1, fs.len() as int);
        let sub_cur = fs.subrange(i, fs.len() as int);
        assert(sub_prev.len() > 0);
        assert(sub_prev[0] == fs[i - 1]);
        assert(sub_prev.subrange(1, sub_prev.len() as int) =~= sub_cur);
        assert(fs.subrange(0, i).drop_last() =~= fs.subrange(0, i - 1));
        assert(fs.subrange(0, i).last() == fs[i - 1]);
    }
}

/// An own-block offset is never negative.
pub proof fn lemma_offset_in_own_nonneg(fs: Seq<FieldV>, name: Seq<char>)
    ensures
        offset_in_own(fs, name) matches Some((o, _)) ==> o >= 0,
    decreases fs.len(),
{
    if fs.len() > 0 && !(!fs[0].is_static && fs[0].name == name) {
        lemma_offset_in_own_nonneg(fs.subrange(1, fs.len() as int), name);
    }
}

/// Sums the sizes of a class's own instance fields.
fn own_size_of_fields(fields: &Vec<FieldInfo>) -> (r: Option<u64>)
    ensures
        ({
            let total = own_fields_size(fields@.map_values(|f: FieldInfo| f@));
            match r {
                Some(n) => total == n as int,
                None => total > u64::MAX as int,
            }
        }),
{
    let ghost fsv = fields@.map_values(|f: FieldInfo| f@);
    let mut acc: u64 = 0;
    let mut i: usize = 0;
    while i < fields.len()
        invariant
            0 <= i <= fields@.len(),
            fsv == fields@.map_values(|f: FieldInfo| f@),
            fsv.len() == fields@.len(),
            acc as int == own_fields_size(fsv.subrange(0, i as int)),
        decreases fields@.len() - i,
    {
        let sz: u64 = if fields[i].is_static {
            0
        } else {
            size_of_type(&fields[i].field_type)
        };
        proof {
            assert(fsv.subrange(0, i as int + 1).drop_last() =~= fsv.subrange(0, i as int));
            assert(fsv.subrange(0, i as int + 1).last() == fsv[i as int]);
        }
        if acc > u64::MAX - sz {
            proof {
                lemma_own_fields_size_prefix(fsv, i as int + 1);
            }
            return None;
        }
        acc = acc + sz;
        i += 1;
    }
    proof {
        assert(fsv.subrange(0, fsv.len() as int) =~= fsv);
    }
    Some(acc)
}

/// Scans a class's own field block for an instance field of the given name.
fn find_own_offset(fields: &Vec<FieldInfo>, name: &str) -> (r: OwnFieldSlot)
    ensures
        ({
            let slot = offset_in_own(fields@.map_values(|f: FieldInfo| f@), name@);
            match r {
                OwnFieldSlot::Missing => slot is None,
                OwnFieldSlot::At(off, ty) => slot == Some((off as int, ty@)),
                OwnFieldSlot::Oversize => slot matches Some((o, _)) && o > u64::MAX as int,
            }
        }),
{
    let ghost fsv = fields@.map_values(|f: FieldInfo| f@);
    let mut acc: u64 = 0;
    let mut oversize: bool = false;
    let mut i: usize = 0;
    while i < fields.len()
        invariant
            0 <= i <= fields@.len(),
            fsv == fields@.map_values(|f: FieldInfo| f@),
            fsv.len() == fields@.len(),
            forall|j: int| 0 <= j < i ==> !(!fsv[j].is_static && fsv[j].name == name@),
            !oversize ==> acc as int == own_fields_size(fsv.subrange(0, i as int)),
            oversize ==> own_fields_size(fsv.subrange(0, i as int)) > u64::MAX as int,
        decreases fields@.len() - i,
    {
        if !fields[i].is_static && str_eq(fields[i].name.as_str(), name) {
            proof {
                lemma_offset_in_own_split(fsv, name@, i as int);
                let sub = fsv.subrange(i as int, fsv.len() as int);
                assert(sub[0] == fsv[i as int]);
            }
            if oversize {
                return OwnFieldSlot::Oversize;
            }
            return OwnFieldSlot::At(acc, fields[i].field_type.clone());
        }
        let sz: u64 = if fields[i].is_static {
            0
        } else {
            size_of_type(&fields[i].field_type)
        };
        proof {
            assert(fsv.subrange(0, i as int + 1).drop_last() =~= fsv.subrange(0, i as int));
            assert(fsv.subrange(0, i as int + 1).last() == fsv[i as int]);
        }
        if !oversize {
            if acc > u64::MAX - sz {
                oversize = true;
            } else {
                acc = acc + sz;
            }
        }
        i += 1;
    }
    proof {
        lemma_offset_in_own_split(fsv, name@, fsv.len() as int);
        assert(fsv.subrange(fsv.len() as int, fsv.len() as int) =~= Seq::<FieldV>::empty());
    }
    OwnFieldSlot::Missing
}

impl TypeRegistry {
    /// Instance size of a class, walking at most `fuel` parent hops; mirrors
    /// [`layout_size`] exactly, except that a size beyond `u64::MAX` is
    /// reported as `None`.
    pub fn size_with_fuel(&self, name: &str, fuel: usize) -> (r: Option<u64>)
        ensures
            ({
                let spec = layout_size(self@.classes, name@, fuel as nat);
                &&& (r matches Some(n) ==> spec == Some(n as int))
                &&& (spec matches Some(s) ==> (s <= u64::MAX as int ==> (r matches Some(n)
                    && n as int == s)))
                &&& (spec is None ==> r is None)
            }),
        decreases fuel,
    {
        let c = match self.get_class(name) {
            Some(c) => c,
            None => {
                return None;
            },
        };
        proof {
            lemma_layout_size_nonneg(self@.classes, name@, fuel as nat);
        }
        let own = match own_size_of_fields(&c.fields) {
            Some(n) => n,
            None => {
                proof {
                    if let Some(p) = c@.parent {
                        if fuel > 0 {
                            lemma_layout_size_nonneg(self@.classes, p, (fuel - 1) as nat);
                        }
                    }
                    lemma_own_fields_size_nonneg(c@.fields);
                }
                return None;
            },
        };
        match &c.parent {
            None => Some(own),
            Some(p) => {
                if fuel == 0 {
                    return None;
                }
                match self.size_with_fuel(p.as_str(), fuel - 1) {
                    None => None,
                    Some(ps) => {
                        proof {
                            lemma_layout_size_nonneg(self@.classes, p@, (fuel - 1) as nat);
                        }
                        if ps > u64::MAX - own {
                            None
                        } else {
                            Some(ps + own)
                        }
                    },
                }
            },
        }
    }

    /// Slot of an instance field seen through a class, walking at most
    /// `fuel` parent hops; mirrors [`field_slot`] exactly, except that an
    /// offset beyond `u64::MAX` is reported as `None`.
    pub fn field_with_fuel(&self, cname: &str, fname: &str, fuel: usize) -> (r: Option<
        (u64, Type),
    >)
        ensures
            ({
                let spec = field_slot(self@.classes, cname@, fname@, fuel as nat);
                &&& (r matches Some((off, ty)) ==> spec == Some((off as int, ty@)))
                &&& (spec matches Some((o, tv)) ==> (o <= u64::MAX as int ==> (r matches Some(
                    (off, ty),
                ) && off as int == o && ty@ == tv)))
                &&& (spec is None ==> r is None)
            }),
        decreases fuel,
    {
        let c = match self.get_class(cname) {
            Some(c) => c,
            None => {
                return None;
            },
        };
        match find_own_offset(&c.fields, fname) {
            OwnFieldSlot::At(rel, ty) => {
                match &c.parent {
                    None => Some((rel, ty)),
                    Some(p) => {
                        if fuel == 0 {
                            return None;
                        }
                        match self.size_with_fuel(p.as_str(), fuel - 1) {
                            None => {
                                proof {
                                    lemma_layout_size_nonneg(self@.classes, p@, (fuel - 1) as nat);
                                }
                                None
                            },
                            Some(b) => {
                                proof {
                                    lemma_layout_size_nonneg(self@.classes, p@, (fuel - 1) as nat);
                                }
                                if b > u64::MAX - rel {
                                    None
                                } else {
                                    Some((b + rel, ty))
                                }
                            },
                        }
                    },
                }
            },
            OwnFieldSlot::Oversize => {
                proof {
                    lemma_offset_in_own_nonneg(c@.fields, fname@);
                    if let Some(p) = c@.parent {
                        if fuel > 0 {
                            lemma_layout_size_nonneg(self@.classes, p, (fuel - 1) as nat);
                        }
                    }
                }
                None
            },
            OwnFieldSlot::Missing => {
                match &c.parent {
                    None => None,
                    Some(p) => {
                        if fuel == 0 {
                            return None;
                        }
                        self.field_with_fuel(p.as_str(), fname, fuel - 1)
                    },
                }
            },
        }
    }

    /// Full instance size of a class under the canonical ancestor-walk
    /// bound; `None` for an unregistered class, an unterminated chain, or a
    /// size beyond `u64::MAX`.
    pub fn instance_size(&self, name: &str) -> (r: Option<u64>)
        ensures
            ({
                let spec = class_size_opt(self@.classes, name@);
                &&& (r matches Some(n) ==> spec == Some(n as int))
                &&& (spec matches Some(s) ==> (s <= u64::MAX as int ==> (r matches Some(n)
                    && n as int == s)))
                &&& (spec is None ==> r is None)
            }),
    {
        self.size_with_fuel(name, self.classes.len())
    }

    /// Resolves an instance field through a class and its ancestor chain:
    /// the byte offset into the object and the field's declared type.
    pub fn get_instance_field(&self, class_name: &str, field_name: &str) -> (r: Option<
        (u64, Type),
    >)
        ensures
            ({
                let spec = field_slot_opt(self@.classes, class_name@, field_name@);
                &&& (r matches Some((off, ty)) ==> spec == Some((off as int, ty@)))
                &&& (spec matches Some((o, tv)) ==> (o <= u64::MAX as int ==> (r matches Some(
                    (off, ty),
                ) && off as int == o && ty@ == tv)))
                &&& (spec is None ==> r is None)
            }),
    {
        self.field_with_fuel(class_name, field_name, self.classes.len())
    }
}

/// More fuel never changes an instance size the walk already reached.
pub proof fn lemma_layout_size_mono(cs: Seq<ClassV>, name: Seq<char>, f1: nat, f2: nat)
    requires
        f1 <= f2,
        layout_size(cs, name, f1) is Some,
    ensures
        layout_size(cs, name, f2) == layout_size(cs, name, f1),
    decreases f1,
{
    match find_class(cs, name) {
        Some(c) => match c.parent {
            Some(p) => {
                lemma_layout_size_mono(cs, p, (f1 - 1) as nat, (f2 - 1) as nat);
            },
            None => {},
        },
        None => {},
    }
}

/// More fuel never changes a field slot the walk already reached.
pub proof fn lemma_field_slot_mono(
    cs: Seq<ClassV>,
    cname: Seq<char>,
    fname: Seq<char>,
    f1: nat,
    f2: nat,
)
    requires
        f1 <= f2,
        field_slot(cs, cname, fname, f1) is Some,
    ensures
        field_slot(cs, cname, fname, f2) == field_slot(cs, cname, fname, f1),
    decreases f1,
{
    match find_class(cs, cname) {
        Some(c) => match offset_in_own(c.fields, fname) {
            Some(_) => match c.parent {
                Some(p) => {
                    lemma_layout_size_mono(cs, p, (f1 - 1) as nat, (f2 - 1) as nat);
                },
                None => {},
            },
            None => match c.parent {
                Some(p) => {
                    lemma_field_slot_mono(cs, p, fname, (f1 - 1) as nat, (f2 - 1) as nat);
                },
                None => {},
            },
        },
        None => {},
    }
}

/// Layout compatibility at the registry interface: an instance field that
/// resolves through a subclass which does not redeclare it resolves through
/// the parent to exactly the same slot — same byte offset, same declared
/// type — so a subclass instance can be read through any ancestor's offsets
/// without adjustment.
pub proof fn lemma_layout_compatibility(
    cs: Seq<ClassV>,
    b: ClassV,
    p: Seq<char>,
    fname: Seq<char>,
)
    requires
        find_class(cs, b.name) == Some(b),
        b.parent == Some(p),
        offset_in_own(b.fields, fname) is None,
        field_slot_opt(cs, b.name, fname) is Some,
    ensures
        field_slot_opt(cs, p, fname) == field_slot_opt(cs, b.name, fname),
{
    lemma_first_class_idx(cs, b.name);
    assert(cs.len() >= 1);
    assert(field_slot(cs, b.name, fname, cs.len()) == field_slot(
        cs,
        p,
        fname,
        (cs.len() - 1) as nat,
    ));
    lemma_field_slot_mono(cs, p, fname, (cs.len() - 1) as nat, cs.len());
}

} // verus!
