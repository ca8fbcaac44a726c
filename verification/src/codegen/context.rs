//! The code generator's state: the frozen registry, the current class, the
//! scoped code-generation symbol table, the static-field slots, the side map
//! from object-typed locals to their class, and the emitted IR lines.
//!
//! The resolver never renders IR text itself: it decides what must be loaded
//! and from where — a local slot, a global by symbol, or an address at a
//! byte offset from a receiver pointer — and hands that decision to the
//! emitter as a [`Resolution`].

use vstd::prelude::*;
use vstd::string::StringExecFns;
use crate::codegen::scope::CodegenSymbolTable;
use crate::registry::{ClassV, FieldV, TypeRegistry};
use crate::types::{str_eq, Type, TypeV};

verus! {

/// One process-wide static-field slot, named `OwningClass.fieldName`.
#[derive(Debug)]
pub struct StaticFieldInfo {
    pub class_name: String,
    pub field_name: String,
    pub symbol: String,
    pub field_type: Type,
}

/// Specification view of [`StaticFieldInfo`].
pub struct StaticFieldV {
    pub class_name: Seq<char>,
    pub field_name: Seq<char>,
    pub symbol: Seq<char>,
    pub field_type: TypeV,
}

impl View for StaticFieldInfo {
    type V = StaticFieldV;

    open spec fn view(&self) -> StaticFieldV {
        StaticFieldV {
            class_name: self.class_name@,
            field_name: self.field_name@,
            symbol: self.symbol@,
            field_type: self.field_type@,
        }
    }
}

/// The slot descriptor of one static field of one class.
pub open spec fn static_slot_of(cname: Seq<char>, f: FieldV) -> StaticFieldV {
    StaticFieldV {
        class_name: cname,
        field_name: f.name,
        symbol: cname + "."@ + f.name,
        field_type: f.field_type,
    }
}

/// The static-field slots of one class's field list, in declaration order.
pub open spec fn fields_statics(cname: Seq<char>, fs: Seq<FieldV>) -> Seq<StaticFieldV>
    decreases fs.len(),
{
    if fs.len() == 0 {
        Seq::empty()
    } else {
        let rest = fields_statics(cname, fs.drop_last());
        if fs.last().is_static {
            rest.push(static_slot_of(cname, fs.last()))
        } else {
            rest
        }
    }
}

/// The static-field slots of a whole registry, class by class.
pub open spec fn statics_of(cs: Seq<ClassV>) -> Seq<StaticFieldV>
    decreases cs.len(),
{
    if cs.len() == 0 {
        Seq::empty()
    } else {
        statics_of(cs.drop_last()) + fields_statics(cs.last().name, cs.last().fields)
    }
}

/// The first static slot registered for this class and field name.
pub open spec fn find_static(
    sfs: Seq<StaticFieldV>,
    cname: Seq<char>,
    fname: Seq<char>,
) -> Option<StaticFieldV>
    decreases sfs.len(),
{
    if sfs.len() == 0 {
        None
    } else if sfs[0].class_name == cname && sfs[0].field_name == fname {
        Some(sfs[0])
    } else {
        find_static(sfs.subrange(1, sfs.len() as int), cname, fname)
    }
}

/// A local variable's statically known class identity, tracked by a side
/// map; only object-typed locals carry one.
#[derive(Debug)]
pub struct VarClass {
    pub var: String,
    pub class_name: String,
}

/// Specification view of [`VarClass`].
pub struct VarClassV {
    pub var: Seq<char>,
    pub class_name: Seq<char>,
}

impl View for VarClass {
    type V = VarClassV;

    open spec fn view(&self) -> VarClassV {
        VarClassV { var: self.var@, class_name: self.class_name@ }
    }
}

/// The first recorded class identity of a variable.
pub open spec fn find_var_class(vcs: Seq<VarClassV>, var: Seq<char>) -> Option<Seq<char>>
    decreases vcs.len(),
{
    if vcs.len() == 0 {
        None
    } else if vcs[0].var == var {
        Some(vcs[0].class_name)
    } else {
        find_var_class(vcs.subrange(1, vcs.len() as int), var)
    }
}

/// How the emitter reaches the receiver of a field load: the bound receiver
/// pointer of the current method, or the already-evaluated object
/// expression's pointer value.
#[derive(Clone, Copy, Debug, PartialEq, Eq, Structural)]
pub enum Receiver {
    This,
    Value,
}

/// What the resolver decided for one name or member access, in the
/// vocabulary the IR emitter renders: load a local slot, load a global by
/// symbol, or compute an address at a byte offset from a receiver pointer
/// and load through it.
#[derive(Debug)]
pub enum Resolution {
    /// A bare class name: inert on its own, consumed by the enclosing
    /// member-access compilation.
    ClassPlaceholder,
    /// Load from a static field's process-wide slot.
    StaticLoad { symbol: String, ty: Type },
    /// Load from a local's storage slot.
    LocalLoad { storage: String, ty: Type },
    /// Compute `receiver + offset`, reinterpret as a pointer to the field's
    /// type, and load.
    FieldLoad { receiver: Receiver, offset: u64, ty: Type },
    /// Load the 32-bit element count from the fixed 8-byte header
    /// immediately preceding the array's first element.
    ArrayLength,
    /// The degraded case: yield the evaluated object expression's own
    /// pointer value, typed as an opaque byte pointer.
    OpaquePointer,
}

/// Specification view of [`Resolution`].
pub enum ResolutionV {
    ClassPlaceholder,
    StaticLoad { symbol: Seq<char>, ty: TypeV },
    LocalLoad { storage: Seq<char>, ty: TypeV },
    FieldLoad { receiver: Receiver, offset: u64, ty: TypeV },
    ArrayLength,
    OpaquePointer,
}

impl View for Resolution {
    type V = ResolutionV;

    open spec fn view(&self) -> ResolutionV {
        match self {
            Resolution::ClassPlaceholder => ResolutionV::ClassPlaceholder,
            Resolution::StaticLoad { symbol, ty } => ResolutionV::StaticLoad {
                symbol: symbol@,
                ty: ty@,
            },
            Resolution::LocalLoad { storage, ty } => ResolutionV::LocalLoad {
                storage: storage@,
                ty: ty@,
            },
            Resolution::FieldLoad { receiver, offset, ty } => ResolutionV::FieldLoad {
                receiver: *receiver,
                offset: *offset,
                ty: ty@,
            },
            Resolution::ArrayLength => ResolutionV::ArrayLength,
            Resolution::OpaquePointer => ResolutionV::OpaquePointer,
        }
    }
}

/// The emitted lines as character sequences.
pub open spec fn lines_view(v: Seq<String>) -> Seq<Seq<char>> {
    v.map_values(|s: String| s@)
}

/// The code generator.
#[derive(Debug)]
pub struct IRGenerator {
    pub type_registry: TypeRegistry,
    pub current_class: String,
    pub scope: CodegenSymbolTable,
    pub static_fields: Vec<StaticFieldInfo>,
    pub var_classes: Vec<VarClass>,
    pub output: Vec<String>,
}

/// Builds the static-field slots of one class.
fn class_static_fields(c: &crate::registry::ClassInfo) -> (r: Vec<StaticFieldInfo>)
    ensures
        r@.map_values(|s: StaticFieldInfo| s@) == fields_statics(c@.name, c@.fields),
{
    let mut r: Vec<StaticFieldInfo> = Vec::new();
    let mut j: usize = 0;
    while j < c.fields.len()
        invariant
            0 <= j <= c.fields@.len(),
            r@.map_values(|s: StaticFieldInfo| s@) =~= fields_statics(
                c@.name,
                c@.fields.subrange(0, j as int),
            ),
        decreases c.fields@.len() - j,
    {
        proof {
            assert(c@.fields.subrange(0, j as int + 1).drop_last() =~= c@.fields.subrange(
                0,
                j as int,
            ));
            assert(c@.fields.subrange(0, j as int + 1).last() == c@.fields[j as int]);
        }
        let f = &c.fields[j];
        if f.is_static {
            let mut symbol = c.name.clone();
            symbol.append(".");
            symbol.append(f.name.as_str());
            let slot = StaticFieldInfo {
                class_name: c.name.clone(),
                field_name: f.name.clone(),
                symbol,
                field_type: f.field_type.clone(),
            };
            proof {
                assert(slot@ == static_slot_of(c@.name, c@.fields[j as int]));
            }
            r.push(slot);
            proof {
                assert(r@.map_values(|s: StaticFieldInfo| s@) =~= fields_statics(
                    c@.name,
                    c@.fields.subrange(0, j as int + 1),
                ));
            }
        } else {
            proof {
                assert(r@.map_values(|s: StaticFieldInfo| s@) =~= fields_statics(
                    c@.name,
                    c@.fields.subrange(0, j as int + 1),
                ));
            }
        }
        j += 1;
    }
    proof {
        assert(c@.fields.subrange(0, c@.fields.len() as int) =~= c@.fields);
    }
    r
}

/// Finds the slot of a static field by owning class and field name.
pub fn find_static_field<'a>(
    sfs: &'a Vec<StaticFieldInfo>,
    cname: &str,
    fname: &str,
) -> (r: Option<&'a StaticFieldInfo>)
    ensures
        ({
            let v = sfs@.map_values(|s: StaticFieldInfo| s@);
            match r {
                Some(sf) => find_static(v, cname@, fname@) == Some(sf@),
                None => find_static(v, cname@, fname@) is None,
            }
        }),
{
    let ghost v = sfs@.map_values(|s: StaticFieldInfo| s@);
    proof {
        assert(v.subrange(0, v.len() as int) =~= v);
    }
    let mut i: usize = 0;
    while i < sfs.len()
        invariant
            0 <= i <= v.len(),
            v == sfs@.map_values(|s: StaticFieldInfo| s@),
            v.len() == sfs@.len(),
            find_static(v, cname@, fname@) == find_static(
                v.subrange(i as int, v.len() as int),
                cname@,
                fname@,
            ),
        decreases v.len() - i,
    {
        proof {
            assert(v.subrange(i as int, v.len() as int)[0] == v[i as int]);
            assert(v.subrange(i as int, v.len() as int).subrange(1, v.len() as int - i as int)
                =~= v.subrange(i as int + 1, v.len() as int));
        }
        if str_eq(sfs[i].class_name.as_str(), cname) && str_eq(sfs[i].field_name.as_str(), fname) {
            return Some(&sfs[i]);
        }
        i += 1;
    }
    proof {
        assert(v.subrange(v.len() as int, v.len() as int) =~= Seq::<StaticFieldV>::empty());
    }
    None
}

/// Records a variable's class identity in the side map.
pub fn record_var_class(vcs: &mut Vec<VarClass>, var: String, class_name: String)
    ensures
        final(vcs)@.map_values(|s: VarClass| s@) == old(vcs)@.map_values(
            |s: VarClass| s@,
        ).push(VarClassV { var: var@, class_name: class_name@ }),
{
    vcs.push(VarClass { var, class_name });
    proof {
        assert(final(vcs)@.map_values(|s: VarClass| s@) =~= old(vcs)@.map_values(
            |s: VarClass| s@,
        ).push(VarClassV { var: var@, class_name: class_name@ }));
    }
}

/// Looks up a variable's recorded class identity.
pub fn lookup_var_class<'a>(vcs: &'a Vec<VarClass>, var: &str) -> (r: Option<&'a String>)
    ensures
        ({
            let v = vcs@.map_values(|s: VarClass| s@);
            match r {
                Some(c) => find_var_class(v, var@) == Some(c@),
                None => find_var_class(v, var@) is None,
            }
        }),
{
    let ghost v = vcs@.map_values(|s: VarClass| s@);
    proof {
        assert(v.subrange(0, v.len() as int) =~= v);
    }
    let mut i: usize = 0;
    while i < vcs.len()
        invariant
            0 <= i <= v.len(),
            v == vcs@.map_values(|s: VarClass| s@),
            v.len() == vcs@.len(),
            find_var_class(v, var@) == find_var_class(
                v.subrange(i as int, v.len() as int),
                var@,
            ),
        decreases v.len() - i,
    {
        proof {
            assert(v.subrange(i as int, v.len() as int)[0] == v[i as int]);
            assert(v.subrange(i as int, v.len() as int).subrange(1, v.len() as int - i as int)
                =~= v.subrange(i as int + 1, v.len() as int));
        }
        if str_eq(vcs[i].var.as_str(), var) {
            return Some(&vcs[i].class_name);
        }
        i += 1;
    }
    proof {
        assert(v.subrange(v.len() as int, v.len() as int) =~= Seq::<VarClassV>::empty());
    }
    None
}

impl IRGenerator {
    /// A generator over a frozen registry: its static-field slots are
    /// collected up front, the scope stack starts with one empty scope, and
    /// no line has been emitted.
    pub fn new(type_registry: TypeRegistry) -> (r: Self)
        ensures
            r.type_registry == type_registry,
            r.current_class@.len() == 0,
            r.scope@ =~= seq![
                Map::<Seq<char>, crate::codegen::scope::CodegenSymbolInfoV>::empty(),
            ],
            r.static_fields@.map_values(|s: StaticFieldInfo| s@) == statics_of(
                type_registry@.classes,
            ),
            r.var_classes@.len() == 0,
            r.output@.len() == 0,
    {
        let ghost csv = type_registry@.classes;
        proof {
            assert(csv.subrange(0, 0) =~= Seq::<ClassV>::empty());
        }
        let mut static_fields: Vec<StaticFieldInfo> = Vec::new();
        let mut i: usize = 0;
        while i < type_registry.classes.len()
            invariant
                0 <= i <= type_registry.classes@.len(),
                csv == type_registry@.classes,
                csv.len() == type_registry.classes@.len(),
                static_fields@.map_values(|s: StaticFieldInfo| s@) =~= statics_of(
                    csv.subrange(0, i as int),
                ),
            decreases type_registry.classes@.len() - i,
        {
            proof {
                assert(csv.subrange(0, i as int + 1).drop_last() =~= csv.subrange(0, i as int));
                assert(csv.subrange(0, i as int + 1).last() == csv[i as int]);
                assert(csv[i as int] == type_registry.classes@[i as int]@);
            }
            let mut slots = class_static_fields(&type_registry.classes[i]);
            static_fields.append(&mut slots);
            proof {
                assert(static_fields@.map_values(|s: StaticFieldInfo| s@) =~= statics_of(
                    csv.subrange(0, i as int + 1),
                ));
            }
            i += 1;
        }
        proof {
            assert(csv.subrange(0, csv.len() as int) =~= csv);
        }
        IRGenerator {
            type_registry,
            current_class: String::new(),
            scope: CodegenSymbolTable::new(),
            static_fields,
            var_classes: Vec::new(),
            output: Vec::new(),
        }
    }

    /// Appends one line of IR text to the output.
    pub fn emit_raw(&mut self, line: &str)
        ensures
            *final(self) == (IRGenerator { output: final(self).output, ..*old(self) }),
            lines_view(final(self).output@) == lines_view(old(self).output@).push(line@),
    {
        self.output.push(line.to_owned());
        proof {
            assert(lines_view(self.output@) =~= lines_view(old(self).output@).push(line@));
        }
    }
}

} // verus!
