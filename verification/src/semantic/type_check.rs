//! The type-checking walk over method bodies. Unlike registry validation it
//! accumulates diagnostics — incompatible initializations and return-type
//! mismatches — into the analyzer's list instead of aborting on the first,
//! so one run reports every independent type error it finds.

use vstd::prelude::*;
use crate::ast::{
    block_view, expr_type, stmt_view, stmts_view, type_of_expr, Block, ClassDecl, ClassDeclV,
    ClassMember, ClassMemberV, MethodDeclV, Program, SourceLocation, Stmt, StmtV, VarDeclV,
    lemma_stmts_view_index,
};
use crate::error::{errors_view, ErrorKind, ErrorKindV, SemanticError, SemanticErrorV};
use crate::semantic::analyzer::SemanticAnalyzer;
use crate::semantic::symbol_table::{SemanticSymbolInfo, SemanticSymbolInfoV};
use crate::types::{compatible_spec, Type, TypeV};

verus! {

/// View of an optional expected return type.
pub open spec fn opt_type_view(o: Option<&Type>) -> Option<TypeV> {
    match o {
        Some(t) => Some(t@),
        None => None,
    }
}

/// The diagnostics one statement contributes, in source order. A variable
/// declaration whose initializer is incompatible with the declared type
/// contributes an incompatible-assignment diagnostic anchored to the
/// declaration; a return whose value (or `Void` when absent) is incompatible
/// with the expected return type contributes a return-type mismatch, with no
/// natural anchor.
pub open spec fn stmt_diags(s: StmtV, expected: Option<TypeV>) -> Seq<SemanticErrorV>
    decreases s,
{
    match s {
        StmtV::Expr(_) => Seq::empty(),
        StmtV::VarDecl(v) => match v.initializer {
            Some(e) => if !compatible_spec(expr_type(e), v.var_type) {
                seq![
                    SemanticErrorV {
                        loc: v.loc,
                        kind: ErrorKindV::IncompatibleAssignment {
                            from: expr_type(e),
                            to: v.var_type,
                        },
                    },
                ]
            } else {
                Seq::empty()
            },
            None => Seq::empty(),
        },
        StmtV::Return(oe) => {
            let rt = match oe {
                Some(e) => expr_type(e),
                None => TypeV::Void,
            };
            match expected {
                Some(exp) => if !compatible_spec(rt, exp) {
                    seq![
                        SemanticErrorV {
                            loc: SourceLocation { line: 0, column: 0 },
                            kind: ErrorKindV::ReturnTypeMismatch { expected: exp, actual: rt },
                        },
                    ]
                } else {
                    Seq::empty()
                },
                None => Seq::empty(),
            }
        },
        StmtV::Block(b) => stmts_diags(b.statements, expected),
    }
}

/// The diagnostics of a statement list, in order.
pub open spec fn stmts_diags(ss: Seq<StmtV>, expected: Option<TypeV>) -> Seq<SemanticErrorV>
    decreases ss,
{
    if ss.len() == 0 {
        Seq::empty()
    } else {
        stmts_diags(ss.drop_last(), expected) + stmt_diags(ss.last(), expected)
    }
}

/// The diagnostics of one method: its body checked against its declared
/// return type; native and interface methods have no body and contribute
/// nothing.
pub open spec fn method_diags(m: MethodDeclV) -> Seq<SemanticErrorV> {
    match m.body {
        Some(b) => stmts_diags(b.statements, Some(m.return_type)),
        None => Seq::empty(),
    }
}

/// The diagnostics of one class member.
pub open spec fn member_diags(mem: ClassMemberV) -> Seq<SemanticErrorV> {
    match mem {
        ClassMemberV::Method(m) => method_diags(m),
        _ => Seq::empty(),
    }
}

/// The diagnostics of a member list, in order.
pub open spec fn members_diags(ms: Seq<ClassMemberV>) -> Seq<SemanticErrorV>
    decreases ms.len(),
{
    if ms.len() == 0 {
        Seq::empty()
    } else {
        members_diags(ms.drop_last()) + member_diags(ms.last())
    }
}

/// The diagnostics of one class declaration.
pub open spec fn class_diags(d: ClassDeclV) -> Seq<SemanticErrorV> {
    members_diags(d.members)
}

/// The diagnostics of the whole program, class by class.
pub open spec fn program_diags(ds: Seq<ClassDeclV>) -> Seq<SemanticErrorV>
    decreases ds.len(),
{
    if ds.len() == 0 {
        Seq::empty()
    } else {
        program_diags(ds.drop_last()) + class_diags(ds.last())
    }
}

/// Effect of declaring a local variable in the innermost scope.
pub open spec fn declare_effect(
    v: Seq<Map<Seq<char>, SemanticSymbolInfoV>>,
    d: VarDeclV,
) -> Seq<Map<Seq<char>, SemanticSymbolInfoV>> {
    v.update(
        v.len() - 1,
        v.last().insert(
            d.name,
            SemanticSymbolInfoV {
                name: d.name,
                symbol_type: d.var_type,
                is_final: d.is_final,
                is_initialized: d.initializer is Some,
            },
        ),
    )
}

impl SemanticAnalyzer {
    /// Type-checks one statement, accumulating diagnostics. A variable
    /// declaration binds its name in the innermost scope (initialized
    /// exactly when it has an initializer); every other statement leaves the
    /// symbol table as it was.
    pub fn type_check_statement(&mut self, stmt: &Stmt, expected_return: Option<&Type>) -> (r:
        Result<(), SemanticError>)
        requires
            old(self).symbol_table@.len() >= 1,
        ensures
            r is Ok,
            errors_view(final(self).errors@) == errors_view(old(self).errors@) + stmt_diags(
                stmt@,
                opt_type_view(expected_return),
            ),
            stmt@ matches StmtV::VarDecl(v) ==> final(self).symbol_table@ == declare_effect(
                old(self).symbol_table@,
                v,
            ),
            !(stmt@ matches StmtV::VarDecl(_)) ==> final(self).symbol_table@ == old(
                self,
            ).symbol_table@,
            final(self).symbol_table@.len() == old(self).symbol_table@.len(),
            final(self).type_registry == old(self).type_registry,
            final(self).current_class == old(self).current_class,
            final(self).current_method == old(self).current_method,
        decreases stmt,
    {
        match stmt {
            Stmt::Expr(_) => {
                proof {
                    assert(errors_view(self.errors@) =~= errors_view(old(self).errors@)
                        + stmt_diags(stmt@, opt_type_view(expected_return)));
                }
                Ok(())
            },
            Stmt::VarDecl(var) => {
                if let Some(init) = &var.initializer {
                    let init_type = type_of_expr(init);
                    if !self.types_compatible(init_type, &var.var_type) {
                        self.errors.push(
                            SemanticError::new(
                                var.loc,
                                ErrorKind::IncompatibleAssignment {
                                    from: init_type.clone(),
                                    to: var.var_type.clone(),
                                },
                            ),
                        );
                    }
                }
                let is_initialized = var.initializer.is_some();
                self.symbol_table.declare(
                    var.name.clone(),
                    SemanticSymbolInfo {
                        name: var.name.clone(),
                        symbol_type: var.var_type.clone(),
                        is_final: var.is_final,
                        is_initialized,
                    },
                );
                proof {
                    assert(errors_view(self.errors@) =~= errors_view(old(self).errors@)
                        + stmt_diags(stmt@, opt_type_view(expected_return)));
                    assert(final(self).symbol_table@ =~= declare_effect(
                        old(self).symbol_table@,
                        stmt@->VarDecl_0,
                    ));
                }
                Ok(())
            },
            Stmt::Return(oe) => {
                let return_type: &Type = match oe {
                    Some(e) => type_of_expr(e),
                    None => &Type::Void,
                };
                if let Some(expected) = expected_return {
                    if !self.types_compatible(return_type, expected) {
                        self.errors.push(
                            SemanticError::new(
                                SourceLocation::none(),
                                ErrorKind::ReturnTypeMismatch {
                                    expected: expected.clone(),
                                    actual: return_type.clone(),
                                },
                            ),
                        );
                    }
                }
                proof {
                    assert(errors_view(self.errors@) =~= errors_view(old(self).errors@)
                        + stmt_diags(stmt@, opt_type_view(expected_return)));
                }
                Ok(())
            },
            Stmt::Block(block) => {
                let res = self.type_check_block(block, expected_return);
                res
            },
        }
    }

    /// Type-checks a braced statement list in a fresh scope; bindings made
    /// inside it do not survive it.
    pub fn type_check_block(&mut self, block: &Block, expected_return: Option<&Type>) -> (r:
        Result<(), SemanticError>)
        requires
            old(self).symbol_table@.len() >= 1,
        ensures
            r is Ok,
            errors_view(final(self).errors@) == errors_view(old(self).errors@) + stmts_diags(
                block_view(*block).statements,
                opt_type_view(expected_return),
            ),
            final(self).symbol_table@ == old(self).symbol_table@,
            final(self).type_registry == old(self).type_registry,
            final(self).current_class == old(self).current_class,
            final(self).current_method == old(self).current_method,
        decreases block,
    {
        let ghost old_table = self.symbol_table@;
        let ghost ssv = stmts_view(block.statements@);
        proof {
            lemma_stmts_view_index(block.statements@);
            assert(ssv.subrange(0, 0) =~= Seq::<StmtV>::empty());
        }
        self.symbol_table.enter_scope();
        let mut j: usize = 0;
        while j < block.statements.len()
            invariant
                0 <= j <= block.statements@.len(),
                ssv == stmts_view(block.statements@),
                ssv.len() == block.statements@.len(),
                forall|t: int| 0 <= t < ssv.len() ==> ssv[t] == stmt_view(block.statements@[t]),
                old_table == old(self).symbol_table@,
                old_table.len() >= 1,
                self.symbol_table@.len() == old_table.len() + 1,
                self.symbol_table@.subrange(0, old_table.len() as int) == old_table,
                errors_view(self.errors@) == errors_view(old(self).errors@) + stmts_diags(
                    ssv.subrange(0, j as int),
                    opt_type_view(expected_return),
                ),
                self.type_registry == old(self).type_registry,
                self.current_class == old(self).current_class,
                self.current_method == old(self).current_method,
            decreases block.statements@.len() - j,
        {
            let ghost table_before = self.symbol_table@;
            let ghost errs_before = self.errors@;
            let res = self.type_check_statement(&block.statements[j], expected_return);
            proof {
                assert(ssv.subrange(0, j as int + 1).drop_last() =~= ssv.subrange(0, j as int));
                assert(ssv.subrange(0, j as int + 1).last() == ssv[j as int]);
                assert(stmts_diags(ssv.subrange(0, j as int + 1), opt_type_view(expected_return))
                    =~= stmts_diags(ssv.subrange(0, j as int), opt_type_view(expected_return))
                    + stmt_diags(ssv[j as int], opt_type_view(expected_return)));
                assert(errors_view(self.errors@) =~= errors_view(old(self).errors@) + stmts_diags(
                    ssv.subrange(0, j as int + 1),
                    opt_type_view(expected_return),
                ));
                match stmt_view(block.statements@[j as int]) {
                    StmtV::VarDecl(v) => {
                        assert(self.symbol_table@ == declare_effect(table_before, v));
                        assert(self.symbol_table@.subrange(0, old_table.len() as int)
                            =~= table_before.subrange(0, old_table.len() as int));
                    },
                    _ => {},
                }
            }
            j += 1;
        }
        proof {
            assert(ssv.subrange(0, ssv.len() as int) =~= ssv);
        }
        self.symbol_table.exit_scope();
        proof {
            assert(final(self).symbol_table@ =~= old_table);
        }
        Ok(())
    }

    /// Type-checks every method body of one class declaration, leaving the
    /// class/method cursors cleared and the symbol table as it was.
    fn type_check_class(&mut self, d: &ClassDecl) -> (r: Result<(), SemanticError>)
        requires
            old(self).symbol_table@.len() >= 1,
        ensures
            r is Ok,
            errors_view(final(self).errors@) == errors_view(old(self).errors@) + class_diags(d@),
            final(self).symbol_table@ == old(self).symbol_table@,
            final(self).type_registry == old(self).type_registry,
            final(self).current_class is None,
            final(self).current_method is None,
    {
        let ghost old_table = self.symbol_table@;
        let ghost msv = d@.members;
        proof {
            assert(msv.subrange(0, 0) =~= Seq::<ClassMemberV>::empty());
        }
        self.current_class = Some(d.name.clone());
        let mut j: usize = 0;
        while j < d.members.len()
            invariant
                0 <= j <= d.members@.len(),
                msv == d@.members,
                msv.len() == d.members@.len(),
                old_table == old(self).symbol_table@,
                old_table.len() >= 1,
                self.symbol_table@ == old_table,
                errors_view(self.errors@) == errors_view(old(self).errors@) + members_diags(
                    msv.subrange(0, j as int),
                ),
                self.type_registry == old(self).type_registry,
            decreases d.members@.len() - j,
        {
            proof {
                assert(msv.subrange(0, j as int + 1).drop_last() =~= msv.subrange(0, j as int));
                assert(msv.subrange(0, j as int + 1).last() == msv[j as int]);
                assert(msv[j as int] == d.members@[j as int]@);
            }
            if let ClassMember::Method(m) = &d.members[j] {
                self.current_method = Some(m.name.clone());
                self.symbol_table.enter_scope();
                let ghost entered = self.symbol_table@;
                let mut k: usize = 0;
                while k < m.params.len()
                    invariant
                        0 <= k <= m.params@.len(),
                        0 <= j < d.members@.len(),
                        msv == d@.members,
                        msv.len() == d.members@.len(),
                        old_table == old(self).symbol_table@,
                        old_table.len() >= 1,
                        self.symbol_table@.len() == old_table.len() + 1,
                        self.symbol_table@.subrange(0, old_table.len() as int) == old_table,
                        errors_view(self.errors@) == errors_view(old(self).errors@)
                            + members_diags(msv.subrange(0, j as int)),
                        self.type_registry == old(self).type_registry,
                    decreases m.params@.len() - k,
                {
                    let p = &m.params[k];
                    self.symbol_table.declare(
                        p.name.clone(),
                        SemanticSymbolInfo {
                            name: p.name.clone(),
                            symbol_type: p.param_type.clone(),
                            is_final: false,
                            is_initialized: true,
                        },
                    );
                    k += 1;
                }
                if let Some(body) = &m.body {
                    let res = self.type_check_block(body, Some(&m.return_type));
                    proof {
                        assert(member_diags(msv[j as int]) == method_diags(m@));
                    }
                    match res {
                        Ok(()) => {},
                        Err(e) => {
                            return Err(e);
                        },
                    }
                }
                self.symbol_table.exit_scope();
                self.current_method = None;
                proof {
                    assert(self.symbol_table@ =~= old_table);
                    assert(members_diags(msv.subrange(0, j as int + 1)) =~= members_diags(
                        msv.subrange(0, j as int),
                    ) + member_diags(msv[j as int]));
                }
            } else {
                proof {
                    assert(members_diags(msv.subrange(0, j as int + 1)) =~= members_diags(
                        msv.subrange(0, j as int),
                    ));
                }
            }
            j += 1;
        }
        proof {
            assert(msv.subrange(0, msv.len() as int) =~= msv);
        }
        self.current_class = None;
        self.current_method = None;
        Ok(())
    }

    /// Type-checks every method body of the program, accumulating every
    /// diagnostic found; the registry and the symbol table are left as they
    /// were, and the class/method cursors end cleared.
    pub fn type_check_program(&mut self, program: &Program) -> (r: Result<(), SemanticError>)
        requires
            old(self).symbol_table@.len() >= 1,
        ensures
            r is Ok,
            errors_view(final(self).errors@) == errors_view(old(self).errors@) + program_diags(
                program@.classes,
            ),
            final(self).symbol_table@ == old(self).symbol_table@,
            final(self).type_registry == old(self).type_registry,
            final(self).current_class is None,
            final(self).current_method is None,
    {
        let ghost dsv = program@.classes;
        proof {
            assert(dsv.subrange(0, 0) =~= Seq::<ClassDeclV>::empty());
        }
        let mut i: usize = 0;
        while i < program.classes.len()
            invariant
                0 <= i <= program.classes@.len(),
                dsv == program@.classes,
                dsv.len() == program.classes@.len(),
                old(self).symbol_table@.len() >= 1,
                self.symbol_table@ == old(self).symbol_table@,
                errors_view(self.errors@) == errors_view(old(self).errors@) + program_diags(
                    dsv.subrange(0, i as int),
                ),
                self.type_registry == old(self).type_registry,
            decreases program.classes@.len() - i,
        {
            proof {
                assert(dsv.subrange(0, i as int + 1).drop_last() =~= dsv.subrange(0, i as int));
                assert(dsv.subrange(0, i as int + 1).last() == dsv[i as int]);
                assert(dsv[i as int] == program.classes@[i as int]@);
            }
            let res = self.type_check_class(&program.classes[i]);
            proof {
                assert(program_diags(dsv.subrange(0, i as int + 1)) =~= program_diags(
                    dsv.subrange(0, i as int),
                ) + class_diags(dsv[i as int]));
            }
            match res {
                Ok(()) => {},
                Err(e) => {
                    return Err(e);
                },
            }
            i += 1;
        }
        proof {
            assert(dsv.subrange(0, dsv.len() as int) =~= dsv);
        }
        self.current_class = None;
        self.current_method = None;
        Ok(())
    }
}

} // verus!
