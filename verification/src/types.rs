//! The type model: the closed set of value types of the language, structural
//! equality, byte sizes for layout computation, and the compatibility and
//! promotion rules used by type checking.

use vstd::prelude::*;

verus! {

/// Specification-level mirror of [`Type`], with object class names abstracted
/// as character sequences.
#[verifier::ext_equal]
pub enum TypeV {
    Void,
    Bool,
    Char,
    Int32,
    Int64,
    Float32,
    Float64,
    Str,
    Object(Seq<char>),
    Array(Box<TypeV>),
}

/// A value type of the language. `Object` carries the class name; `Array` the
/// element type. Equality is structural.
#[derive(Debug)]
pub enum Type {
    Void,
    Bool,
    Char,
    Int32,
    Int64,
    Float32,
    Float64,
    Str,
    Object(String),
    Array(Box<Type>),
}

pub open spec fn type_view(t: Type) -> TypeV
    decreases t,
{
    match t {
        Type::Void => TypeV::Void,
        Type::Bool => TypeV::Bool,
        Type::Char => TypeV::Char,
        Type::Int32 => TypeV::Int32,
        Type::Int64 => TypeV::Int64,
        Type::Float32 => TypeV::Float32,
        Type::Float64 => TypeV::Float64,
        Type::Str => TypeV::Str,
        Type::Object(name) => TypeV::Object(name@),
        Type::Array(elem) => TypeV::Array(Box::new(type_view(*elem))),
    }
}

impl View for Type {
    type V = TypeV;

    open spec fn view(&self) -> TypeV {
        type_view(*self)
    }
}

impl Clone for Type {
    fn clone(&self) -> (r: Self)
        ensures
            r@ == self@,
        decreases self,
    {
        match self {
            Type::Void => Type::Void,
            Type::Bool => Type::Bool,
            Type::Char => Type::Char,
            Type::Int32 => Type::Int32,
            Type::Int64 => Type::Int64,
            Type::Float32 => Type::Float32,
            Type::Float64 => Type::Float64,
            Type::Str => Type::Str,
            Type::Object(name) => Type::Object(name.clone()),
            Type::Array(elem) => Type::Array(Box::new((**elem).clone())),
        }
    }
}

/// Equality on owned strings, stated over their character sequences.
pub fn string_eq(a: &String, b: &String) -> (r: bool)
    ensures
        r == (a@ == b@),
{
    a.eq(b)
}

/// Equality on string slices, stated over their character sequences.
pub fn str_eq(a: &str, b: &str) -> (r: bool)
    ensures
        r == (a@ == b@),
{
    let sa: String = a.to_owned();
    let sb: String = b.to_owned();
    sa == sb
}

/// Structural equality of two types: variants match, object names are equal
/// character for character, and array element types are equal recursively.
pub fn types_equal(a: &Type, b: &Type) -> (r: bool)
    ensures
        r == (a@ == b@),
    decreases a,
{
    match (a, b) {
        (Type::Void, Type::Void) => return true,
        (Type::Bool, Type::Bool) => return true,
        (Type::Char, Type::Char) => return true,
        (Type::Int32, Type::Int32) => return true,
        (Type::Int64, Type::Int64) => return true,
        (Type::Float32, Type::Float32) => return true,
        (Type::Float64, Type::Float64) => return true,
        (Type::Str, Type::Str) => return true,
        (Type::Object(n1), Type::Object(n2)) => return string_eq(n1, n2),
        (Type::Array(e1), Type::Array(e2)) => return types_equal(e1, e2),
        _ => return false,
    }
}

/// Byte size of a value of this type inside an instance layout. References
/// (objects, strings, arrays) are one pointer wide; `Void` is empty.
pub open spec fn type_size(t: TypeV) -> int {
    match t {
        TypeV::Void => 0,
        TypeV::Bool => 1,
        TypeV::Char => 1,
        TypeV::Int32 => 4,
        TypeV::Int64 => 8,
        TypeV::Float32 => 4,
        TypeV::Float64 => 8,
        TypeV::Str => 8,
        TypeV::Object(_) => 8,
        TypeV::Array(_) => 8,
    }
}

pub fn size_of_type(t: &Type) -> (n: u64)
    ensures
        n as int == type_size(t@),
{
    match t {
        Type::Void => 0,
        Type::Bool => 1,
        Type::Char => 1,
        Type::Int32 => 4,
        Type::Int64 => 8,
        Type::Float32 => 4,
        Type::Float64 => 8,
        Type::Str => 8,
        Type::Object(_) => 8,
        Type::Array(_) => 8,
    }
}

/// An integer-valued type, as required by the string method argument rules.
pub open spec fn is_integer_type(t: TypeV) -> bool {
    t == TypeV::Int32 || t == TypeV::Int64
}

pub fn type_is_integer(t: &Type) -> (r: bool)
    ensures
        r == is_integer_type(t@),
{
    match t {
        Type::Int32 => true,
        Type::Int64 => true,
        _ => false,
    }
}

/// The name of the pseudo-class whose values stand for the null literal.
pub open spec fn null_class_name() -> Seq<char> {
    "Object"@
}

/// Assignment compatibility. Identity is always compatible; an
/// `Object("Object")` source (the null literal) may flow into any object type
/// or into `Str`; the numeric widenings are one-directional except between the
/// two float widths, which convert both ways; `Char` widens into either
/// integer type; arrays are covariant in their element type. Every other
/// pairing, including unrelated object types, is incompatible.
pub open spec fn compatible_spec(from: TypeV, to: TypeV) -> bool
    decreases from,
{
    if from == to {
        true
    } else if from == TypeV::Object(null_class_name()) && (to matches TypeV::Object(_)
        || to == TypeV::Str) {
        true
    } else {
        match (from, to) {
            (TypeV::Int32, TypeV::Int64) => true,
            (TypeV::Int32, TypeV::Float32) => true,
            (TypeV::Int32, TypeV::Float64) => true,
            (TypeV::Int64, TypeV::Float64) => true,
            (TypeV::Float32, TypeV::Float64) => true,
            (TypeV::Float64, TypeV::Float32) => true,
            (TypeV::Char, TypeV::Int32) => true,
            (TypeV::Char, TypeV::Int64) => true,
            (TypeV::Array(a), TypeV::Array(b)) => compatible_spec(*a, *b),
            _ => false,
        }
    }
}

/// Compatibility is reflexive at every type.
pub proof fn lemma_compatible_reflexive(t: TypeV)
    ensures
        compatible_spec(t, t),
{
}

/// The promotion rule for binary arithmetic: `Float64` dominates, then
/// `Float32`, then `Int64`; `Char` and `Int32` both promote to `Int32`; any
/// other pairing defaults to the left operand's type.
pub open spec fn promote_spec(left: TypeV, right: TypeV) -> TypeV {
    if left == TypeV::Float64 || right == TypeV::Float64 {
        TypeV::Float64
    } else if left == TypeV::Float32 || right == TypeV::Float32 {
        TypeV::Float32
    } else if left == TypeV::Int64 || right == TypeV::Int64 {
        TypeV::Int64
    } else if (left == TypeV::Char || left == TypeV::Int32) && (right == TypeV::Char || right
        == TypeV::Int32) {
        TypeV::Int32
    } else {
        left
    }
}

/// The promotion rule for integer operations: `Int64` if either side is
/// `Int64`, else `Int32`.
pub open spec fn promote_integer_spec(left: TypeV, right: TypeV) -> TypeV {
    if left == TypeV::Int64 || right == TypeV::Int64 {
        TypeV::Int64
    } else {
        TypeV::Int32
    }
}

/// A formal parameter: name, declared type, and whether it is the trailing
/// varargs parameter.
#[derive(Debug)]
pub struct ParameterInfo {
    pub name: String,
    pub param_type: Type,
    pub is_varargs: bool,
}

/// Specification view of [`ParameterInfo`].
pub struct ParamV {
    pub name: Seq<char>,
    pub param_type: TypeV,
    pub is_varargs: bool,
}

impl View for ParameterInfo {
    type V = ParamV;

    open spec fn view(&self) -> ParamV {
        ParamV { name: self.name@, param_type: self.param_type@, is_varargs: self.is_varargs }
    }
}

impl Clone for ParameterInfo {
    fn clone(&self) -> (r: Self)
        ensures
            r@ == self@,
    {
        ParameterInfo {
            name: self.name.clone(),
            param_type: self.param_type.clone(),
            is_varargs: self.is_varargs,
        }
    }
}

impl ParameterInfo {
    pub fn new(name: String, param_type: Type) -> (r: Self)
        ensures
            r@ == (ParamV { name: name@, param_type: param_type@, is_varargs: false }),
    {
        ParameterInfo { name, param_type, is_varargs: false }
    }

    pub fn new_varargs(name: String, param_type: Type) -> (r: Self)
        ensures
            r@ == (ParamV { name: name@, param_type: param_type@, is_varargs: true }),
    {
        ParameterInfo { name, param_type, is_varargs: true }
    }
}

/// The declared types of a parameter list, in order.
pub open spec fn param_types(ps: Seq<ParamV>) -> Seq<TypeV> {
    ps.map_values(|p: ParamV| p.param_type)
}

/// View of a parameter vector as a sequence of parameter views.
pub open spec fn params_view(ps: Seq<ParameterInfo>) -> Seq<ParamV> {
    ps.map_values(|p: ParameterInfo| p@)
}

/// Deep copy of a parameter list, preserving its view.
pub fn clone_params(ps: &Vec<ParameterInfo>) -> (r: Vec<ParameterInfo>)
    ensures
        r@.map_values(|p: ParameterInfo| p@) == ps@.map_values(|p: ParameterInfo| p@),
{
    let mut r: Vec<ParameterInfo> = Vec::new();
    let mut i: usize = 0;
    while i < ps.len()
        invariant
            0 <= i <= ps@.len(),
            r@.len() == i,
            forall|j: int| 0 <= j < i ==> r@[j]@ == ps@[j]@,
        decreases ps@.len() - i,
    {
        r.push(ps[i].clone());
        i += 1;
    }
    proof {
        assert(r@.map_values(|p: ParameterInfo| p@) =~= ps@.map_values(
            |p: ParameterInfo| p@,
        ));
    }
    r
}

/// Deep copy of a name list, preserving its view.
pub fn clone_strings(ss: &Vec<String>) -> (r: Vec<String>)
    ensures
        r@.map_values(|s: String| s@) == ss@.map_values(|s: String| s@),
{
    let mut r: Vec<String> = Vec::new();
    let mut i: usize = 0;
    while i < ss.len()
        invariant
            0 <= i <= ss@.len(),
            r@.len() == i,
            forall|j: int| 0 <= j < i ==> r@[j]@ == ss@[j]@,
        decreases ss@.len() - i,
    {
        r.push(ss[i].clone());
        i += 1;
    }
    proof {
        assert(r@.map_values(|s: String| s@) =~= ss@.map_values(|s: String| s@));
    }
    r
}

/// The declared types of a parameter list, as owned values.
pub fn param_types_vec(ps: &Vec<ParameterInfo>) -> (r: Vec<Type>)
    ensures
        r@.map_values(|t: Type| t@) == param_types(ps@.map_values(|p: ParameterInfo| p@)),
{
    let mut r: Vec<Type> = Vec::new();
    let mut i: usize = 0;
    while i < ps.len()
        invariant
            0 <= i <= ps@.len(),
            r@.len() == i,
            forall|j: int| 0 <= j < i ==> r@[j]@ == ps@[j]@.param_type,
        decreases ps@.len() - i,
    {
        r.push(ps[i].param_type.clone());
        i += 1;
    }
    proof {
        assert(r@.map_values(|t: Type| t@) =~= param_types(
            ps@.map_values(|p: ParameterInfo| p@),
        ));
    }
    r
}

} // verus!
