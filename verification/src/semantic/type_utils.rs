//! Type utility rules of the analyzer: assignment compatibility, arithmetic
//! promotion, argument-list checking (with a trailing varargs parameter),
//! and the return types of the built-in string methods.

use vstd::prelude::*;
use crate::ast::{expr_type, type_of_expr, Expr, SourceLocation};
use crate::error::{ErrorKind, ErrorKindV, SemanticError, SemanticErrorV};
use crate::semantic::analyzer::SemanticAnalyzer;
use crate::types::{
    compatible_spec, is_integer_type, promote_integer_spec, promote_spec, str_eq, type_is_integer,
    types_equal, ParamV, ParameterInfo, Type, TypeV,
};

verus! {

/// The inferred types of an argument list.
pub open spec fn exprs_types(args: Seq<Expr>) -> Seq<TypeV> {
    args.map_values(|e: Expr| expr_type(e@))
}

/// The element type a varargs parameter accepts: the element type of its
/// array type, or the parameter type itself when it is not an array.
pub open spec fn vararg_element(t: TypeV) -> TypeV {
    match t {
        TypeV::Array(e) => *e,
        _ => t,
    }
}

/// The type each of `n` arguments is checked against: the fixed parameters
/// in order and, past them, the varargs element type.
pub open spec fn expected_types(ps: Seq<ParamV>, n: nat) -> Seq<TypeV> {
    if ps.len() > 0 && ps.last().is_varargs {
        Seq::new(
            n,
            |i: int|
                if i < ps.len() - 1 {
                    ps[i].param_type
                } else {
                    vararg_element(ps.last().param_type)
                },
        )
    } else {
        ps.map_values(|p: ParamV| p.param_type)
    }
}

/// Index of the first argument type not compatible with its expected type,
/// or `-1` when all pairs are compatible.
pub open spec fn first_incompat_idx(ats: Seq<TypeV>, exps: Seq<TypeV>) -> int
    decreases ats.len(),
{
    if ats.len() == 0 || exps.len() == 0 {
        -1
    } else if !compatible_spec(ats[0], exps[0]) {
        0
    } else {
        let rest = first_incompat_idx(
            ats.subrange(1, ats.len() as int),
            exps.subrange(1, exps.len() as int),
        );
        if rest < 0 {
            -1
        } else {
            rest + 1
        }
    }
}

pub proof fn lemma_first_incompat_idx(ats: Seq<TypeV>, exps: Seq<TypeV>)
    requires
        ats.len() <= exps.len(),
    ensures
        first_incompat_idx(ats, exps) == -1 ==> forall|i: int|
            0 <= i < ats.len() ==> compatible_spec(ats[i], exps[i]),
        first_incompat_idx(ats, exps) >= 0 ==> {
            let i = first_incompat_idx(ats, exps);
            &&& i < ats.len()
            &&& !compatible_spec(ats[i], exps[i])
            &&& forall|j: int| 0 <= j < i ==> compatible_spec(ats[j], exps[j])
        },
    decreases ats.len(),
{
    if ats.len() > 0 && compatible_spec(ats[0], exps[0]) {
        let at = ats.subrange(1, ats.len() as int);
        let et = exps.subrange(1, exps.len() as int);
        lemma_first_incompat_idx(at, et);
        let ridx = first_incompat_idx(at, et);
        if ridx < 0 {
            assert forall|i: int| 0 <= i < ats.len() implies compatible_spec(
                ats[i],
                exps[i],
            ) by {
                if i >= 1 {
                    assert(at[i - 1] == ats[i]);
                    assert(et[i - 1] == exps[i]);
                    assert(compatible_spec(at[i - 1], et[i - 1]));
                }
            }
        } else {
            let idx = first_incompat_idx(ats, exps);
            assert(idx == ridx + 1);
            assert(ats[idx] == at[ridx]);
            assert(exps[idx] == et[ridx]);
            assert forall|j: int| 0 <= j < idx implies compatible_spec(ats[j], exps[j]) by {
                if j >= 1 {
                    assert(at[j - 1] == ats[j]);
                    assert(et[j - 1] == exps[j]);
                    assert(compatible_spec(at[j - 1], et[j - 1]));
                }
            }
        }
    }
}

/// An argument-count diagnostic.
pub open spec fn count_error(min: int, max: int, got: int, loc: SourceLocation) -> SemanticErrorV {
    SemanticErrorV {
        loc,
        kind: ErrorKindV::ArgumentCountMismatch {
            min: min as usize,
            max: max as usize,
            got: got as usize,
        },
    }
}

/// An argument-type diagnostic.
pub open spec fn type_error(index: int, expected: TypeV, got: TypeV, loc: SourceLocation) -> SemanticErrorV {
    SemanticErrorV {
        loc,
        kind: ErrorKindV::ArgumentTypeMismatch { index: index as usize, expected, actual: got },
    }
}

/// Whether an argument list satisfies a parameter list: without a varargs
/// parameter the counts match exactly and each pair is compatible; with one,
/// at least the fixed parameters are supplied and every argument is
/// compatible with its expected type.
pub open spec fn args_ok(args: Seq<Expr>, ps: Seq<ParamV>) -> bool {
    let ats = exprs_types(args);
    let n = ats.len();
    let m = ps.len();
    if m == 0 {
        n == 0
    } else if ps.last().is_varargs {
        &&& n >= m - 1
        &&& forall|i: int| 0 <= i < n ==> compatible_spec(ats[i], expected_types(ps, n)[i])
    } else {
        &&& n == m
        &&& forall|i: int| 0 <= i < n ==> compatible_spec(ats[i], expected_types(ps, n)[i])
    }
}

/// The exact outcome of argument checking: `None` for success, otherwise the
/// first diagnostic in argument order (a count mismatch, else the lowest
/// incompatible argument index).
pub open spec fn check_args_spec(
    args: Seq<Expr>,
    ps: Seq<ParamV>,
    loc: SourceLocation,
) -> Option<SemanticErrorV> {
    let ats = exprs_types(args);
    let n = ats.len() as int;
    let m = ps.len() as int;
    if m == 0 {
        if n == 0 {
            None
        } else {
            Some(count_error(0, 0, n, loc))
        }
    } else if ps.last().is_varargs {
        if n < m - 1 {
            Some(count_error(m - 1, usize::MAX as int, n, loc))
        } else {
            let exps = expected_types(ps, n as nat);
            let i = first_incompat_idx(ats, exps);
            if i < 0 {
                None
            } else {
                Some(type_error(i, exps[i], ats[i], loc))
            }
        }
    } else {
        if n != m {
            Some(count_error(m, m, n, loc))
        } else {
            let exps = expected_types(ps, n as nat);
            let i = first_incompat_idx(ats, exps);
            if i < 0 {
                None
            } else {
                Some(type_error(i, exps[i], ats[i], loc))
            }
        }
    }
}

/// Index of the first non-integer type, or `-1`.
pub open spec fn first_non_integer(ats: Seq<TypeV>) -> int
    decreases ats.len(),
{
    if ats.len() == 0 {
        -1
    } else if !is_integer_type(ats[0]) {
        0
    } else {
        let rest = first_non_integer(ats.subrange(1, ats.len() as int));
        if rest < 0 {
            -1
        } else {
            rest + 1
        }
    }
}

pub proof fn lemma_first_non_integer(ats: Seq<TypeV>)
    ensures
        first_non_integer(ats) == -1 ==> forall|i: int|
            0 <= i < ats.len() ==> is_integer_type(ats[i]),
        first_non_integer(ats) >= 0 ==> {
            let i = first_non_integer(ats);
            &&& i < ats.len()
            &&& !is_integer_type(ats[i])
            &&& forall|j: int| 0 <= j < i ==> is_integer_type(ats[j])
        },
    decreases ats.len(),
{
    if ats.len() > 0 && is_integer_type(ats[0]) {
        let at = ats.subrange(1, ats.len() as int);
        lemma_first_non_integer(at);
        let ridx = first_non_integer(at);
        if ridx < 0 {
            assert forall|i: int| 0 <= i < ats.len() implies is_integer_type(ats[i]) by {
                if i >= 1 {
                    assert(at[i - 1] == ats[i]);
                    assert(is_integer_type(at[i - 1]));
                }
            }
        } else {
            let idx = first_non_integer(ats);
            assert(idx == ridx + 1);
            assert(ats[idx] == at[ridx]);
            assert forall|j: int| 0 <= j < idx implies is_integer_type(ats[j]) by {
                if j >= 1 {
                    assert(at[j - 1] == ats[j]);
                    assert(is_integer_type(at[j - 1]));
                }
            }
        }
    }
}

/// Index of the first non-string type, or `-1`.
pub open spec fn first_non_str(ats: Seq<TypeV>) -> int
    decreases ats.len(),
{
    if ats.len() == 0 {
        -1
    } else if ats[0] != TypeV::Str {
        0
    } else {
        let rest = first_non_str(ats.subrange(1, ats.len() as int));
        if rest < 0 {
            -1
        } else {
            rest + 1
        }
    }
}

pub proof fn lemma_first_non_str(ats: Seq<TypeV>)
    ensures
        first_non_str(ats) == -1 ==> forall|i: int| 0 <= i < ats.len() ==> ats[i] == TypeV::Str,
        first_non_str(ats) >= 0 ==> {
            let i = first_non_str(ats);
            &&& i < ats.len()
            &&& ats[i] != TypeV::Str
            &&& forall|j: int| 0 <= j < i ==> ats[j] == TypeV::Str
        },
    decreases ats.len(),
{
    if ats.len() > 0 && ats[0] == TypeV::Str {
        let at = ats.subrange(1, ats.len() as int);
        lemma_first_non_str(at);
        let ridx = first_non_str(at);
        if ridx < 0 {
            assert forall|i: int| 0 <= i < ats.len() implies ats[i] == TypeV::Str by {
                if i >= 1 {
                    assert(at[i - 1] == ats[i]);
                }
            }
        } else {
            let idx = first_non_str(ats);
            assert(idx == ridx + 1);
            assert(ats[idx] == at[ridx]);
            assert forall|j: int| 0 <= j < idx implies ats[j] == TypeV::Str by {
                if j >= 1 {
                    assert(at[j - 1] == ats[j]);
                }
            }
        }
    }
}

/// The exact outcome of typing a built-in string method call: its return
/// type, or the first diagnostic (count first, then the lowest offending
/// argument), or an unknown-method error.
pub open spec fn string_call_spec(
    mname: Seq<char>,
    args: Seq<Expr>,
    loc: SourceLocation,
) -> Result<TypeV, SemanticErrorV> {
    let ats = exprs_types(args);
    let n = ats.len() as int;
    if mname == "length"@ {
        if n != 0 {
            Err(count_error(0, 0, n, loc))
        } else {
            Ok(TypeV::Int32)
        }
    } else if mname == "substring"@ {
        if n < 1 || n > 2 {
            Err(count_error(1, 2, n, loc))
        } else {
            let i = first_non_integer(ats);
            if i >= 0 {
                Err(type_error(i, TypeV::Int32, ats[i], loc))
            } else {
                Ok(TypeV::Str)
            }
        }
    } else if mname == "indexOf"@ {
        if n != 1 {
            Err(count_error(1, 1, n, loc))
        } else if ats[0] != TypeV::Str {
            Err(type_error(0, TypeV::Str, ats[0], loc))
        } else {
            Ok(TypeV::Int32)
        }
    } else if mname == "charAt"@ {
        if n != 1 {
            Err(count_error(1, 1, n, loc))
        } else if !is_integer_type(ats[0]) {
            Err(type_error(0, TypeV::Int32, ats[0], loc))
        } else {
            Ok(TypeV::Char)
        }
    } else if mname == "replace"@ {
        if n != 2 {
            Err(count_error(2, 2, n, loc))
        } else {
            let i = first_non_str(ats);
            if i >= 0 {
                Err(type_error(i, TypeV::Str, ats[i], loc))
            } else {
                Ok(TypeV::Str)
            }
        }
    } else {
        Err(SemanticErrorV { loc, kind: ErrorKindV::UnknownStringMethod { name: mname } })
    }
}

impl SemanticAnalyzer {
    /// Assignment compatibility of two types, per the type model's rule.
    pub fn types_compatible(&self, from: &Type, to: &Type) -> (r: bool)
        ensures
            r == compatible_spec(from@, to@),
        decreases from,
    {
        if types_equal(from, to) {
            return true;
        }
        if let Type::Object(n) = from {
            if str_eq(n.as_str(), "Object") {
                return match to {
                    Type::Object(_) => true,
                    Type::Str => true,
                    _ => false,
                };
            }
        }
        match (from, to) {
            (Type::Int32, Type::Int64) => true,
            (Type::Int32, Type::Float32) => true,
            (Type::Int32, Type::Float64) => true,
            (Type::Int64, Type::Float64) => true,
            (Type::Float32, Type::Float64) => true,
            (Type::Float64, Type::Float32) => true,
            (Type::Char, Type::Int32) => true,
            (Type::Char, Type::Int64) => true,
            (Type::Array(a), Type::Array(b)) => self.types_compatible(a, b),
            _ => false,
        }
    }

    /// The arithmetic promotion of two operand types.
    pub fn promote_types(&self, left: &Type, right: &Type) -> (r: Type)
        ensures
            r@ == promote_spec(left@, right@),
    {
        if matches!(left, Type::Float64) || matches!(right, Type::Float64) {
            Type::Float64
        } else if matches!(left, Type::Float32) || matches!(right, Type::Float32) {
            Type::Float32
        } else if matches!(left, Type::Int64) || matches!(right, Type::Int64) {
            Type::Int64
        } else if (matches!(left, Type::Char) || matches!(left, Type::Int32)) && (matches!(
            right,
            Type::Char,
        ) || matches!(right, Type::Int32)) {
            Type::Int32
        } else {
            left.clone()
        }
    }

    /// The integer promotion of two operand types.
    pub fn promote_integer_types(&self, left: &Type, right: &Type) -> (r: Type)
        ensures
            r@ == promote_integer_spec(left@, right@),
    {
        if matches!(left, Type::Int64) || matches!(right, Type::Int64) {
            Type::Int64
        } else {
            Type::Int32
        }
    }

    /// Checks an argument list against a parameter list, honouring a
    /// trailing varargs parameter. Succeeds exactly when the counts fit and
    /// every argument is compatible with its expected type; otherwise the
    /// first diagnostic in argument order is returned.
    pub fn check_arguments_compatible(
        &self,
        args: &Vec<Expr>,
        params: &Vec<ParameterInfo>,
        line: usize,
        column: usize,
    ) -> (r: Result<(), SemanticError>)
        ensures
            ({
                let ps = params@.map_values(|p: ParameterInfo| p@);
                let loc = SourceLocation { line, column };
                &&& (r matches Ok(()) ==> check_args_spec(args@, ps, loc) is None)
                &&& (r matches Err(e) ==> check_args_spec(args@, ps, loc) == Some(e@))
                &&& r is Ok == args_ok(args@, ps)
            }),
    {
        let ghost ps = params@.map_values(|p: ParameterInfo| p@);
        let ghost ats = exprs_types(args@);
        let ghost locv = SourceLocation { line, column };
        let loc = SourceLocation::new(line, column);
        if params.len() == 0 {
            if args.len() == 0 {
                return Ok(());
            }
            return Err(
                SemanticError::new(
                    loc,
                    ErrorKind::ArgumentCountMismatch { min: 0, max: 0, got: args.len() },
                ),
            );
        }
        let last_idx = params.len() - 1;
        let ghost exps = expected_types(ps, ats.len());
        if params[last_idx].is_varargs {
            if args.len() < last_idx {
                return Err(
                    SemanticError::new(
                        loc,
                        ErrorKind::ArgumentCountMismatch {
                            min: last_idx,
                            max: usize::MAX,
                            got: args.len(),
                        },
                    ),
                );
            }
            let mut i: usize = 0;
            while i < last_idx
                invariant
                    0 <= i <= last_idx,
                    last_idx == params@.len() - 1,
                    args@.len() >= last_idx,
                    ps == params@.map_values(|p: ParameterInfo| p@),
                    ats == exprs_types(args@),
                    exps == expected_types(ps, ats.len()),
                    loc == (SourceLocation { line, column }),
                    ps.len() > 0 && ps.last().is_varargs,
                    forall|j: int| 0 <= j < i ==> compatible_spec(ats[j], exps[j]),
                decreases last_idx - i,
            {
                let at = type_of_expr(&args[i]);
                if !self.types_compatible(at, &params[i].param_type) {
                    proof {
                        lemma_first_incompat_idx(ats, exps);
                        let idx = first_incompat_idx(ats, exps);
                        assert(ats[i as int] == expr_type(args@[i as int]@));
                        assert(exps[i as int] == ps[i as int].param_type);
                        assert(!compatible_spec(ats[i as int], exps[i as int]));
                        if idx == -1 {
                            assert(compatible_spec(ats[i as int], exps[i as int]));
                        } else if idx < i as int {
                            assert(compatible_spec(ats[idx], exps[idx]));
                        } else if idx > i as int {
                            assert(compatible_spec(ats[i as int], exps[i as int]));
                        }
                        assert(idx == i as int);
                    }
                    return Err(
                        SemanticError::new(
                            loc,
                            ErrorKind::ArgumentTypeMismatch {
                                index: i,
                                expected: params[i].param_type.clone(),
                                actual: at.clone(),
                            },
                        ),
                    );
                }
                i += 1;
            }
            let elem: &Type = match &params[last_idx].param_type {
                Type::Array(e) => e,
                t => t,
            };
            let mut i: usize = last_idx;
            while i < args.len()
                invariant
                    last_idx <= i <= args@.len(),
                    last_idx == params@.len() - 1,
                    ps == params@.map_values(|p: ParameterInfo| p@),
                    ats == exprs_types(args@),
                    exps == expected_types(ps, ats.len()),
                    loc == (SourceLocation { line, column }),
                    ps.len() > 0 && ps.last().is_varargs,
                    elem@ == vararg_element(ps.last().param_type),
                    forall|j: int| 0 <= j < i ==> compatible_spec(ats[j], exps[j]),
                decreases args@.len() - i,
            {
                let at = type_of_expr(&args[i]);
                if !self.types_compatible(at, elem) {
                    proof {
                        lemma_first_incompat_idx(ats, exps);
                        let idx = first_incompat_idx(ats, exps);
                        assert(ats[i as int] == expr_type(args@[i as int]@));
                        assert(exps[i as int] == vararg_element(ps.last().param_type));
                        assert(!compatible_spec(ats[i as int], exps[i as int]));
                        if idx == -1 {
                            assert(compatible_spec(ats[i as int], exps[i as int]));
                        } else if idx < i as int {
                            assert(compatible_spec(ats[idx], exps[idx]));
                        } else if idx > i as int {
                            assert(compatible_spec(ats[i as int], exps[i as int]));
                        }
                        assert(idx == i as int);
                    }
                    return Err(
                        SemanticError::new(
                            loc,
                            ErrorKind::ArgumentTypeMismatch {
                                index: i,
                                expected: elem.clone(),
                                actual: at.clone(),
                            },
                        ),
                    );
                }
                i += 1;
            }
            proof {
                lemma_first_incompat_idx(ats, exps);
                let idx = first_incompat_idx(ats, exps);
                if idx >= 0 {
                    assert(compatible_spec(ats[idx], exps[idx]));
                }
                assert(idx == -1);
            }
            Ok(())
        } else {
            if params.len() != args.len() {
                return Err(
                    SemanticError::new(
                        loc,
                        ErrorKind::ArgumentCountMismatch {
                            min: params.len(),
                            max: params.len(),
                            got: args.len(),
                        },
                    ),
                );
            }
            let mut i: usize = 0;
            while i < args.len()
                invariant
                    0 <= i <= args@.len(),
                    args@.len() == params@.len(),
                    ps == params@.map_values(|p: ParameterInfo| p@),
                    ats == exprs_types(args@),
                    exps == expected_types(ps, ats.len()),
                    loc == (SourceLocation { line, column }),
                    ps.len() > 0 && !ps.last().is_varargs,
                    forall|j: int| 0 <= j < i ==> compatible_spec(ats[j], exps[j]),
                decreases args@.len() - i,
            {
                let at = type_of_expr(&args[i]);
                if !self.types_compatible(at, &params[i].param_type) {
                    proof {
                        lemma_first_incompat_idx(ats, exps);
                        let idx = first_incompat_idx(ats, exps);
                        assert(ats[i as int] == expr_type(args@[i as int]@));
                        assert(exps[i as int] == ps[i as int].param_type);
                        assert(!compatible_spec(ats[i as int], exps[i as int]));
                        if idx == -1 {
                            assert(compatible_spec(ats[i as int], exps[i as int]));
                        } else if idx < i as int {
                            assert(compatible_spec(ats[idx], exps[idx]));
                        } else if idx > i as int {
                            assert(compatible_spec(ats[i as int], exps[i as int]));
                        }
                        assert(idx == i as int);
                    }
                    return Err(
                        SemanticError::new(
                            loc,
                            ErrorKind::ArgumentTypeMismatch {
                                index: i,
                                expected: params[i].param_type.clone(),
                                actual: at.clone(),
                            },
                        ),
                    );
                }
                i += 1;
            }
            proof {
                lemma_first_incompat_idx(ats, exps);
                let idx = first_incompat_idx(ats, exps);
                if idx >= 0 {
                    assert(compatible_spec(ats[idx], exps[idx]));
                }
                assert(idx == -1);
            }
            Ok(())
        }
    }

    /// Types a call to a built-in string method: the method's return type,
    /// or the first diagnostic, or an unknown-method error.
    pub fn infer_string_method_call(
        &self,
        method_name: &str,
        args: &Vec<Expr>,
        line: usize,
        column: usize,
    ) -> (r: Result<Type, SemanticError>)
        ensures
            ({
                let loc = SourceLocation { line, column };
                match r {
                    Ok(t) => string_call_spec(method_name@, args@, loc) == Ok::<
                        TypeV,
                        SemanticErrorV,
                    >(t@),
                    Err(e) => string_call_spec(method_name@, args@, loc) == Err::<
                        TypeV,
                        SemanticErrorV,
                    >(e@),
                }
            }),
    {
        let ghost ats = exprs_types(args@);
        let loc = SourceLocation::new(line, column);
        if str_eq(method_name, "length") {
            if args.len() != 0 {
                return Err(
                    SemanticError::new(
                        loc,
                        ErrorKind::ArgumentCountMismatch { min: 0, max: 0, got: args.len() },
                    ),
                );
            }
            Ok(Type::Int32)
        } else if str_eq(method_name, "substring") {
            if args.len() < 1 || args.len() > 2 {
                return Err(
                    SemanticError::new(
                        loc,
                        ErrorKind::ArgumentCountMismatch { min: 1, max: 2, got: args.len() },
                    ),
                );
            }
            match self.first_non_integer_arg(args) {
                Some(i) => {
                    proof {
                        lemma_first_non_integer(ats);
                    }
                    return Err(
                    SemanticError::new(
                        loc,
                        ErrorKind::ArgumentTypeMismatch {
                            index: i,
                            expected: Type::Int32,
                            actual: type_of_expr(&args[i]).clone(),
                        },
                    ));
                },
                None => Ok(Type::Str),
            }
        } else if str_eq(method_name, "indexOf") {
            if args.len() != 1 {
                return Err(
                    SemanticError::new(
                        loc,
                        ErrorKind::ArgumentCountMismatch { min: 1, max: 1, got: args.len() },
                    ),
                );
            }
            let at = type_of_expr(&args[0]);
            if !matches!(at, Type::Str) {
                return Err(
                    SemanticError::new(
                        loc,
                        ErrorKind::ArgumentTypeMismatch {
                            index: 0,
                            expected: Type::Str,
                            actual: at.clone(),
                        },
                    ),
                );
            }
            Ok(Type::Int32)
        } else if str_eq(method_name, "charAt") {
            if args.len() != 1 {
                return Err(
                    SemanticError::new(
                        loc,
                        ErrorKind::ArgumentCountMismatch { min: 1, max: 1, got: args.len() },
                    ),
                );
            }
            let at = type_of_expr(&args[0]);
            if !type_is_integer(at) {
                return Err(
                    SemanticError::new(
                        loc,
                        ErrorKind::ArgumentTypeMismatch {
                            index: 0,
                            expected: Type::Int32,
                            actual: at.clone(),
                        },
                    ),
                );
            }
            Ok(Type::Char)
        } else if str_eq(method_name, "replace") {
            if args.len() != 2 {
                return Err(
                    SemanticError::new(
                        loc,
                        ErrorKind::ArgumentCountMismatch { min: 2, max: 2, got: args.len() },
                    ),
                );
            }
            match self.first_non_str_arg(args) {
                Some(i) => {
                    proof {
                        lemma_first_non_str(ats);
                    }
                    return Err(
                    SemanticError::new(
                        loc,
                        ErrorKind::ArgumentTypeMismatch {
                            index: i,
                            expected: Type::Str,
                            actual: type_of_expr(&args[i]).clone(),
                        },
                    ));
                },
                None => Ok(Type::Str),
            }
        } else {
            Err(
                SemanticError::new(
                    loc,
                    ErrorKind::UnknownStringMethod { name: method_name.to_owned() },
                ),
            )
        }
    }

    /// First argument whose inferred type is not an integer type.
    fn first_non_integer_arg(&self, args: &Vec<Expr>) -> (r: Option<usize>)
        ensures
            ({
                let ats = exprs_types(args@);
                match r {
                    Some(i) => first_non_integer(ats) == i as int,
                    None => first_non_integer(ats) == -1,
                }
            }),
    {
        let ghost ats = exprs_types(args@);
        let mut i: usize = 0;
        while i < args.len()
            invariant
                0 <= i <= args@.len(),
                ats == exprs_types(args@),
                forall|j: int| 0 <= j < i ==> is_integer_type(ats[j]),
            decreases args@.len() - i,
        {
            if !type_is_integer(type_of_expr(&args[i])) {
                proof {
                    lemma_first_non_integer(ats);
                    let idx = first_non_integer(ats);
                    assert(ats[i as int] == expr_type(args@[i as int]@));
                    assert(!is_integer_type(ats[i as int]));
                    if idx == -1 {
                        assert(is_integer_type(ats[i as int]));
                    } else if idx < i as int {
                        assert(is_integer_type(ats[idx]));
                    } else if idx > i as int {
                        assert(is_integer_type(ats[i as int]));
                    }
                    assert(idx == i as int);
                }
                return Some(i);
            }
            i += 1;
        }
        proof {
            lemma_first_non_integer(ats);
        }
        None
    }

    /// First argument whose inferred type is not `Str`.
    fn first_non_str_arg(&self, args: &Vec<Expr>) -> (r: Option<usize>)
        ensures
            ({
                let ats = exprs_types(args@);
                match r {
                    Some(i) => first_non_str(ats) == i as int,
                    None => first_non_str(ats) == -1,
                }
            }),
    {
        let ghost ats = exprs_types(args@);
        let mut i: usize = 0;
        while i < args.len()
            invariant
                0 <= i <= args@.len(),
                ats == exprs_types(args@),
                forall|j: int| 0 <= j < i ==> ats[j] == TypeV::Str,
            decreases args@.len() - i,
        {
            if !matches!(type_of_expr(&args[i]), Type::Str) {
                proof {
                    lemma_first_non_str(ats);
                    let idx = first_non_str(ats);
                    assert(ats[i as int] == expr_type(args@[i as int]@));
                    assert(ats[i as int] != TypeV::Str);
                    if idx == -1 {
                        assert(ats[i as int] == TypeV::Str);
                    } else if idx < i as int {
                        assert(ats[idx] == TypeV::Str);
                    } else if idx > i as int {
                        assert(ats[i as int] == TypeV::Str);
                    }
                    assert(idx == i as int);
                }
                return Some(i);
            }
            i += 1;
        }
        proof {
            lemma_first_non_str(ats);
        }
        None
    }
}

} // verus!
