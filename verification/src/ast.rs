//! The abstract syntax consumed by semantic analysis and code generation.
//!
//! The grammar front end is an external collaborator: it hands this crate an
//! already-built declaration list. Expression bodies are likewise typed by an
//! external inference pass, so an expression appears here abstracted to its
//! inferred type, keeping only the distinction between a literal and any
//! other expression shape (which drives the compile-time-constant flag on
//! `static final` fields).

use vstd::prelude::*;
use crate::types::{ParamV, ParameterInfo, Type, TypeV};

verus! {

/// A position in the source text, used to anchor diagnostics.
#[derive(Clone, Copy, Debug, PartialEq, Eq, Structural)]
pub struct SourceLocation {
    pub line: usize,
    pub column: usize,
}

impl SourceLocation {
    pub fn new(line: usize, column: usize) -> (r: Self)
        ensures
            r == (SourceLocation { line, column }),
    {
        SourceLocation { line, column }
    }

    /// The fallback anchor for errors without a natural source position.
    pub fn none() -> (r: Self)
        ensures
            r == (SourceLocation { line: 0, column: 0 }),
    {
        SourceLocation { line: 0, column: 0 }
    }
}

/// A declaration modifier or annotation.
#[derive(Clone, Copy, Debug, PartialEq, Eq, Structural)]
pub enum Modifier {
    Public,
    Private,
    Protected,
    Static,
    Final,
    Abstract,
    Native,
    Override,
    Main,
}

/// Whether a modifier list carries the given modifier.
pub open spec fn has_modifier(mods: Seq<Modifier>, m: Modifier) -> bool {
    exists|i: int| 0 <= i < mods.len() && mods[i] == m
}

pub fn modifiers_contain(mods: &Vec<Modifier>, m: Modifier) -> (r: bool)
    ensures
        r == has_modifier(mods@, m),
{
    let mut i: usize = 0;
    while i < mods.len()
        invariant
            0 <= i <= mods@.len(),
            forall|j: int| 0 <= j < i ==> mods@[j] != m,
        decreases mods@.len() - i,
    {
        if mods[i] == m {
            return true;
        }
        i += 1;
    }
    false
}

/// An expression, abstracted to the type the external inference pass gave it.
/// `Literal` is a literal token; `Computed` is any other expression shape.
#[derive(Debug)]
pub enum Expr {
    Literal(Type),
    Computed(Type),
}

/// Specification view of [`Expr`].
pub enum ExprV {
    Literal(TypeV),
    Computed(TypeV),
}

impl View for Expr {
    type V = ExprV;

    open spec fn view(&self) -> ExprV {
        match self {
            Expr::Literal(t) => ExprV::Literal(t@),
            Expr::Computed(t) => ExprV::Computed(t@),
        }
    }
}

/// The inferred type of an expression, whatever its shape.
pub open spec fn expr_type(e: ExprV) -> TypeV {
    match e {
        ExprV::Literal(t) => t,
        ExprV::Computed(t) => t,
    }
}

pub fn type_of_expr(e: &Expr) -> (r: &Type)
    ensures
        r@ == expr_type(e@),
{
    match e {
        Expr::Literal(t) => t,
        Expr::Computed(t) => t,
    }
}

/// A local variable declaration statement.
#[derive(Debug)]
pub struct VarDeclStmt {
    pub name: String,
    pub var_type: Type,
    pub is_final: bool,
    pub initializer: Option<Expr>,
    pub loc: SourceLocation,
}

/// Specification view of [`VarDeclStmt`].
pub struct VarDeclV {
    pub name: Seq<char>,
    pub var_type: TypeV,
    pub is_final: bool,
    pub initializer: Option<ExprV>,
    pub loc: SourceLocation,
}

impl View for VarDeclStmt {
    type V = VarDeclV;

    open spec fn view(&self) -> VarDeclV {
        VarDeclV {
            name: self.name@,
            var_type: self.var_type@,
            is_final: self.is_final,
            initializer: match self.initializer {
                Some(e) => Some(e@),
                None => None,
            },
            loc: self.loc,
        }
    }
}

/// A braced statement list.
#[derive(Debug)]
pub struct Block {
    pub statements: Vec<Stmt>,
}

/// Specification view of [`Block`].
pub struct BlockV {
    pub statements: Seq<StmtV>,
}

/// A statement of a method body, reduced to the shapes the core inspects.
#[derive(Debug)]
pub enum Stmt {
    Expr(Expr),
    VarDecl(VarDeclStmt),
    Return(Option<Expr>),
    Block(Block),
}

/// Specification view of [`Stmt`].
pub enum StmtV {
    Expr(ExprV),
    VarDecl(VarDeclV),
    Return(Option<ExprV>),
    Block(BlockV),
}

pub open spec fn stmt_view(s: Stmt) -> StmtV
    decreases s,
{
    match s {
        Stmt::Expr(e) => StmtV::Expr(e@),
        Stmt::VarDecl(v) => StmtV::VarDecl(v@),
        Stmt::Return(oe) => StmtV::Return(
            match oe {
                Some(e) => Some(e@),
                None => None,
            },
        ),
        Stmt::Block(b) => StmtV::Block(block_view(b)),
    }
}

pub open spec fn stmts_view(ss: Seq<Stmt>) -> Seq<StmtV>
    decreases ss,
{
    if ss.len() == 0 {
        Seq::empty()
    } else {
        stmts_view(ss.drop_last()).push(stmt_view(ss.last()))
    }
}

pub open spec fn block_view(b: Block) -> BlockV
    decreases b,
{
    BlockV { statements: stmts_view(b.statements@) }
}

impl View for Stmt {
    type V = StmtV;

    open spec fn view(&self) -> StmtV {
        stmt_view(*self)
    }
}

impl View for Block {
    type V = BlockV;

    open spec fn view(&self) -> BlockV {
        block_view(*self)
    }
}

/// A statement-sequence view is the element-wise statement view.
pub proof fn lemma_stmts_view_index(ss: Seq<Stmt>)
    ensures
        stmts_view(ss).len() == ss.len(),
        forall|i: int| 0 <= i < ss.len() ==> stmts_view(ss)[i] == stmt_view(ss[i]),
    decreases ss,
{
    if ss.len() > 0 {
        lemma_stmts_view_index(ss.drop_last());
        assert(forall|i: int|
            0 <= i < ss.len() - 1 ==> ss.drop_last()[i] == ss[i]);
    }
}

/// A field declaration.
#[derive(Debug)]
pub struct FieldDecl {
    pub name: String,
    pub field_type: Type,
    pub modifiers: Vec<Modifier>,
    pub initializer: Option<Expr>,
    pub loc: SourceLocation,
}

/// Specification view of [`FieldDecl`].
pub struct FieldDeclV {
    pub name: Seq<char>,
    pub field_type: TypeV,
    pub modifiers: Seq<Modifier>,
    pub initializer: Option<ExprV>,
    pub loc: SourceLocation,
}

impl View for FieldDecl {
    type V = FieldDeclV;

    open spec fn view(&self) -> FieldDeclV {
        FieldDeclV {
            name: self.name@,
            field_type: self.field_type@,
            modifiers: self.modifiers@,
            initializer: match self.initializer {
                Some(e) => Some(e@),
                None => None,
            },
            loc: self.loc,
        }
    }
}

/// A method declaration. A `None` body marks a native method or an interface
/// method; bodies are statement lists as described above.
#[derive(Debug)]
pub struct MethodDecl {
    pub name: String,
    pub modifiers: Vec<Modifier>,
    pub return_type: Type,
    pub params: Vec<ParameterInfo>,
    pub body: Option<Block>,
    pub loc: SourceLocation,
}

/// Specification view of [`MethodDecl`].
pub struct MethodDeclV {
    pub name: Seq<char>,
    pub modifiers: Seq<Modifier>,
    pub return_type: TypeV,
    pub params: Seq<ParamV>,
    pub body: Option<BlockV>,
    pub loc: SourceLocation,
}

impl View for MethodDecl {
    type V = MethodDeclV;

    open spec fn view(&self) -> MethodDeclV {
        MethodDeclV {
            name: self.name@,
            modifiers: self.modifiers@,
            return_type: self.return_type@,
            params: self.params@.map_values(|p: ParameterInfo| p@),
            body: match self.body {
                Some(b) => Some(b@),
                None => None,
            },
            loc: self.loc,
        }
    }
}

/// A constructor declaration. Its body is compiled elsewhere; the core keeps
/// the parameter list and visibility.
#[derive(Debug)]
pub struct ConstructorDecl {
    pub modifiers: Vec<Modifier>,
    pub params: Vec<ParameterInfo>,
    pub loc: SourceLocation,
}

/// Specification view of [`ConstructorDecl`].
pub struct ConstructorDeclV {
    pub modifiers: Seq<Modifier>,
    pub params: Seq<ParamV>,
    pub loc: SourceLocation,
}

impl View for ConstructorDecl {
    type V = ConstructorDeclV;

    open spec fn view(&self) -> ConstructorDeclV {
        ConstructorDeclV {
            modifiers: self.modifiers@,
            params: self.params@.map_values(|p: ParameterInfo| p@),
            loc: self.loc,
        }
    }
}

/// A destructor declaration; only its presence matters to the registry.
#[derive(Debug)]
pub struct DestructorDecl {
    pub modifiers: Vec<Modifier>,
    pub loc: SourceLocation,
}

/// Specification view of [`DestructorDecl`].
pub struct DestructorDeclV {
    pub modifiers: Seq<Modifier>,
    pub loc: SourceLocation,
}

impl View for DestructorDecl {
    type V = DestructorDeclV;

    open spec fn view(&self) -> DestructorDeclV {
        DestructorDeclV { modifiers: self.modifiers@, loc: self.loc }
    }
}

/// A member of a class body.
#[derive(Debug)]
pub enum ClassMember {
    Field(FieldDecl),
    Method(MethodDecl),
    Constructor(ConstructorDecl),
    Destructor(DestructorDecl),
    StaticInitializer(Block),
    InstanceInitializer(Block),
}

/// Specification view of [`ClassMember`].
pub enum ClassMemberV {
    Field(FieldDeclV),
    Method(MethodDeclV),
    Constructor(ConstructorDeclV),
    Destructor(DestructorDeclV),
    StaticInitializer(BlockV),
    InstanceInitializer(BlockV),
}

impl View for ClassMember {
    type V = ClassMemberV;

    open spec fn view(&self) -> ClassMemberV {
        match self {
            ClassMember::Field(f) => ClassMemberV::Field(f@),
            ClassMember::Method(m) => ClassMemberV::Method(m@),
            ClassMember::Constructor(c) => ClassMemberV::Constructor(c@),
            ClassMember::Destructor(d) => ClassMemberV::Destructor(d@),
            ClassMember::StaticInitializer(b) => ClassMemberV::StaticInitializer(b@),
            ClassMember::InstanceInitializer(b) => ClassMemberV::InstanceInitializer(b@),
        }
    }
}

/// A class declaration.
#[derive(Debug)]
pub struct ClassDecl {
    pub name: String,
    pub modifiers: Vec<Modifier>,
    pub parent: Option<String>,
    pub interfaces: Vec<String>,
    pub members: Vec<ClassMember>,
    pub loc: SourceLocation,
}

/// Specification view of [`ClassDecl`].
pub struct ClassDeclV {
    pub name: Seq<char>,
    pub modifiers: Seq<Modifier>,
    pub parent: Option<Seq<char>>,
    pub interfaces: Seq<Seq<char>>,
    pub members: Seq<ClassMemberV>,
    pub loc: SourceLocation,
}

impl View for ClassDecl {
    type V = ClassDeclV;

    open spec fn view(&self) -> ClassDeclV {
        ClassDeclV {
            name: self.name@,
            modifiers: self.modifiers@,
            parent: match self.parent {
                Some(p) => Some(p@),
                None => None,
            },
            interfaces: self.interfaces@.map_values(|s: String| s@),
            members: self.members@.map_values(|m: ClassMember| m@),
            loc: self.loc,
        }
    }
}

/// An interface declaration: method signatures only, never bodies.
#[derive(Debug)]
pub struct InterfaceDecl {
    pub name: String,
    pub modifiers: Vec<Modifier>,
    pub methods: Vec<MethodDecl>,
    pub loc: SourceLocation,
}

/// Specification view of [`InterfaceDecl`].
pub struct InterfaceDeclV {
    pub name: Seq<char>,
    pub modifiers: Seq<Modifier>,
    pub methods: Seq<MethodDeclV>,
    pub loc: SourceLocation,
}

impl View for InterfaceDecl {
    type V = InterfaceDeclV;

    open spec fn view(&self) -> InterfaceDeclV {
        InterfaceDeclV {
            name: self.name@,
            modifiers: self.modifiers@,
            methods: self.methods@.map_values(|m: MethodDecl| m@),
            loc: self.loc,
        }
    }
}

/// A compilation unit: every interface and class declaration it contains.
#[derive(Debug)]
pub struct Program {
    pub classes: Vec<ClassDecl>,
    pub interfaces: Vec<InterfaceDecl>,
}

/// Specification view of [`Program`].
pub struct ProgramV {
    pub classes: Seq<ClassDeclV>,
    pub interfaces: Seq<InterfaceDeclV>,
}

impl View for Program {
    type V = ProgramV;

    open spec fn view(&self) -> ProgramV {
        ProgramV {
            classes: self.classes@.map_values(|c: ClassDecl| c@),
            interfaces: self.interfaces@.map_values(|i: InterfaceDecl| i@),
        }
    }
}

} // verus!
