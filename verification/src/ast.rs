//! A closed sum type over the syntactic shapes the instrumentation passes
//! read and build: paths, calls, method calls, references, slices, named-field
//! structure. The transformer consumes a structured [`ProcDef`] and produces
//! new ones; no textual grammar is involved.

use vstd::prelude::*;

verus! {

/// A path such as `crate::trace::Step`, kept as its ordered segments.
#[derive(Debug, PartialEq, Eq)]
pub struct PathDef {
    pub segments: Vec<String>,
}

/// The declared type of a parameter or local, restricted to the shapes the
/// capture-policy resolution distinguishes.
#[derive(Debug, PartialEq, Eq)]
pub enum Ty {
    /// A plain named type, `foo::Bar`.
    Named(PathDef),
    /// A reference `&T`.
    Ref(Box<Ty>),
    /// A slice `[T]`.
    Slice(Box<Ty>),
    /// An `impl Bound<Item = T>` parameter type; `item` is the associated
    /// element type when the bound declares one.
    ImplTrait { bound: String, item: Option<Box<Ty>> },
    /// The unit type `()`.
    Unit,
}

/// A binary operator appearing in a procedure body.
#[derive(Debug, Clone, Copy, PartialEq, Eq, Structural)]
pub enum BinOp {
    Add,
    Mul,
}

/// An expression, covering exactly the shapes the call-rewriting pass must
/// traverse or emit.
#[derive(Debug, PartialEq, Eq)]
pub enum Expr {
    /// An integer literal.
    Lit(i64),
    /// A string literal.
    StrLit(String),
    /// A reference to a variable or item by path.
    PathRef(PathDef),
    /// A call `path(args...)`.
    Call { func: PathDef, args: Vec<Expr> },
    /// A method call `recv.method(args...)`.
    MethodCall { recv: Box<Expr>, method: String, args: Vec<Expr> },
    /// A reference expression `&e`.
    Ref(Box<Expr>),
    /// A field access `base.field`.
    Field { base: Box<Expr>, field: String },
    /// A binary operation.
    Binary { op: BinOp, lhs: Box<Expr>, rhs: Box<Expr> },
    /// A struct expression `path { field: value, ... }` with named fields.
    Struct { path: PathDef, fields: Vec<FieldValue> },
    /// An immediately invoked closure `(|| { ... })()`, the unit the
    /// instrumented variants wrap the original body in.
    ClosureCall { body: Block },
}

/// One `name: value` pair of a struct expression.
#[derive(Debug, PartialEq, Eq)]
pub struct FieldValue {
    pub name: String,
    pub value: Expr,
}

/// A binding pattern, either bare or with a type annotation.
#[derive(Debug, PartialEq, Eq)]
pub enum Pat {
    Ident(String),
    Typed { name: String, ty: Ty },
}

/// A statement.
#[derive(Debug, PartialEq, Eq)]
pub enum Stmt {
    /// `let pat = init;`
    Local { pat: Pat, init: Expr },
    /// `expr;`
    Semi(Expr),
    /// A trailing expression in value position.
    Expr(Expr),
    /// A generated run-time check `assert!(cond)`.
    Assert(Expr),
    /// A generated run-time check `assert_eq!(lhs, rhs)`.
    AssertEq { lhs: Expr, rhs: Expr },
}

/// An ordered statement sequence.
#[derive(Debug, PartialEq, Eq)]
pub struct Block {
    pub stmts: Vec<Stmt>,
}

/// One parameter: its binding name and declared type.
#[derive(Debug, PartialEq, Eq)]
pub struct Param {
    pub name: String,
    pub ty: Ty,
}

/// A procedure definition: the structured form the transformer reads and
/// rebuilds. Only the name, parameters, return type and body are exposed.
#[derive(Debug, PartialEq, Eq)]
pub struct ProcDef {
    pub name: String,
    pub params: Vec<Param>,
    pub ret: Ty,
    pub body: Block,
}

/// Mathematical image of a path: its segments as character sequences.
pub type PathV = Seq<Seq<char>>;

/// Mathematical image of a [`Ty`].
pub enum TyV {
    Named(PathV),
    Ref(Box<TyV>),
    Slice(Box<TyV>),
    ImplTrait { bound: Seq<char>, item: Option<Box<TyV>> },
    Unit,
}

/// Mathematical image of an [`Expr`].
pub enum ExprV {
    Lit(i64),
    StrLit(Seq<char>),
    PathRef(PathV),
    Call { func: PathV, args: Seq<ExprV> },
    MethodCall { recv: Box<ExprV>, method: Seq<char>, args: Seq<ExprV> },
    Ref(Box<ExprV>),
    Field { base: Box<ExprV>, field: Seq<char> },
    Binary { op: BinOp, lhs: Box<ExprV>, rhs: Box<ExprV> },
    Struct { path: PathV, fields: Seq<FieldValueV> },
    ClosureCall { body: BlockV },
}

/// Mathematical image of a [`FieldValue`].
pub struct FieldValueV {
    pub name: Seq<char>,
    pub value: ExprV,
}

/// Mathematical image of a [`Pat`].
pub enum PatV {
    Ident(Seq<char>),
    Typed { name: Seq<char>, ty: TyV },
}

/// Mathematical image of a [`Stmt`].
pub enum StmtV {
    Local { pat: PatV, init: ExprV },
    Semi(ExprV),
    Expr(ExprV),
    Assert(ExprV),
    AssertEq { lhs: ExprV, rhs: ExprV },
}

/// Mathematical image of a [`Block`].
pub struct BlockV {
    pub stmts: Seq<StmtV>,
}

/// Mathematical image of a [`Param`].
pub struct ParamV {
    pub name: Seq<char>,
    pub ty: TyV,
}

/// Mathematical image of a [`ProcDef`].
pub struct ProcDefV {
    pub name: Seq<char>,
    pub params: Seq<ParamV>,
    pub ret: TyV,
    pub body: BlockV,
}

impl View for PathDef {
    type V = PathV;

    open spec fn view(&self) -> PathV {
        self.segments.deep_view()
    }
}

impl DeepView for PathDef {
    type V = PathV;

    open spec fn deep_view(&self) -> PathV {
        self@
    }
}

impl DeepView for Ty {
    type V = TyV;

    open spec fn deep_view(&self) -> TyV
        decreases self,
    {
        match self {
            Ty::Named(p) => TyV::Named(p@),
            Ty::Ref(t) => TyV::Ref(Box::new((**t).deep_view())),
            Ty::Slice(t) => TyV::Slice(Box::new((**t).deep_view())),
            Ty::ImplTrait { bound, item } => TyV::ImplTrait {
                bound: bound@,
                item: match item {
                    Some(t) => Some(Box::new((**t).deep_view())),
                    None => None,
                },
            },
            Ty::Unit => TyV::Unit,
        }
    }
}

/// Elementwise image of an expression sequence.
pub open spec fn exprs_dv(es: Seq<Expr>) -> Seq<ExprV>
    decreases es,
{
    if es.len() == 0 {
        Seq::empty()
    } else {
        exprs_dv(es.drop_last()).push(es.last().deep_view())
    }
}

/// Elementwise image of a field-value sequence.
pub open spec fn field_values_dv(fs: Seq<FieldValue>) -> Seq<FieldValueV>
    decreases fs,
{
    if fs.len() == 0 {
        Seq::empty()
    } else {
        field_values_dv(fs.drop_last()).push(fs.last().deep_view())
    }
}

/// Elementwise image of a statement sequence.
pub open spec fn stmts_dv(ss: Seq<Stmt>) -> Seq<StmtV>
    decreases ss,
{
    if ss.len() == 0 {
        Seq::empty()
    } else {
        stmts_dv(ss.drop_last()).push(ss.last().deep_view())
    }
}

/// Elementwise image of a parameter sequence.
pub open spec fn params_dv(ps: Seq<Param>) -> Seq<ParamV>
    decreases ps,
{
    if ps.len() == 0 {
        Seq::empty()
    } else {
        params_dv(ps.drop_last()).push(ps.last().deep_view())
    }
}

impl DeepView for Expr {
    type V = ExprV;

    open spec fn deep_view(&self) -> ExprV
        decreases self,
    {
        match self {
            Expr::Lit(n) => ExprV::Lit(*n),
            Expr::StrLit(s) => ExprV::StrLit(s@),
            Expr::PathRef(p) => ExprV::PathRef(p@),
            Expr::Call { func, args } => ExprV::Call { func: func@, args: exprs_dv(args@) },
            Expr::MethodCall { recv, method, args } => ExprV::MethodCall {
                recv: Box::new((**recv).deep_view()),
                method: method@,
                args: exprs_dv(args@),
            },
            Expr::Ref(e) => ExprV::Ref(Box::new((**e).deep_view())),
            Expr::Field { base, field } => ExprV::Field {
                base: Box::new((**base).deep_view()),
                field: field@,
            },
            Expr::Binary { op, lhs, rhs } => ExprV::Binary {
                op: *op,
                lhs: Box::new((**lhs).deep_view()),
                rhs: Box::new((**rhs).deep_view()),
            },
            Expr::Struct { path, fields } => ExprV::Struct {
                path: path@,
                fields: field_values_dv(fields@),
            },
            Expr::ClosureCall { body } => ExprV::ClosureCall { body: body.deep_view() },
        }
    }
}

impl DeepView for FieldValue {
    type V = FieldValueV;

    open spec fn deep_view(&self) -> FieldValueV
        decreases self,
    {
        FieldValueV { name: self.name@, value: self.value.deep_view() }
    }
}

impl DeepView for Pat {
    type V = PatV;

    open spec fn deep_view(&self) -> PatV {
        match self {
            Pat::Ident(n) => PatV::Ident(n@),
            Pat::Typed { name, ty } => PatV::Typed { name: name@, ty: ty.deep_view() },
        }
    }
}

impl DeepView for Stmt {
    type V = StmtV;

    open spec fn deep_view(&self) -> StmtV
        decreases self,
    {
        match self {
            Stmt::Local { pat, init } => StmtV::Local {
                pat: pat.deep_view(),
                init: init.deep_view(),
            },
            Stmt::Semi(e) => StmtV::Semi(e.deep_view()),
            Stmt::Expr(e) => StmtV::Expr(e.deep_view()),
            Stmt::Assert(e) => StmtV::Assert(e.deep_view()),
            Stmt::AssertEq { lhs, rhs } => StmtV::AssertEq {
                lhs: lhs.deep_view(),
                rhs: rhs.deep_view(),
            },
        }
    }
}

impl DeepView for Block {
    type V = BlockV;

    open spec fn deep_view(&self) -> BlockV
        decreases self,
    {
        BlockV { stmts: stmts_dv(self.stmts@) }
    }
}

impl DeepView for Param {
    type V = ParamV;

    open spec fn deep_view(&self) -> ParamV
        decreases self,
    {
        ParamV { name: self.name@, ty: self.ty.deep_view() }
    }
}

impl DeepView for ProcDef {
    type V = ProcDefV;

    open spec fn deep_view(&self) -> ProcDefV
        decreases self,
    {
        ProcDefV {
            name: self.name@,
            params: params_dv(self.params@),
            ret: self.ret.deep_view(),
            body: self.body.deep_view(),
        }
    }
}

/// Indexing facts for the sequence images: they are elementwise.
pub proof fn lemma_exprs_dv(es: Seq<Expr>)
    ensures
        exprs_dv(es).len() == es.len(),
        forall|i: int| 0 <= i < es.len() ==> exprs_dv(es)[i] == es[i].deep_view(),
    decreases es,
{
    if es.len() > 0 {
        lemma_exprs_dv(es.drop_last());
        assert(exprs_dv(es) == exprs_dv(es.drop_last()).push(es.last().deep_view()));
        assert forall|i: int| 0 <= i < es.len() implies exprs_dv(es)[i] == es[i].deep_view() by {
            if i < es.len() - 1 {
                assert(exprs_dv(es)[i] == exprs_dv(es.drop_last())[i]);
                assert(es.drop_last()[i] == es[i]);
            } else {
                assert(es[i] == es.last());
            }
        }
    }
}

/// Indexing facts for field-value images.
pub proof fn lemma_field_values_dv(fs: Seq<FieldValue>)
    ensures
        field_values_dv(fs).len() == fs.len(),
        forall|i: int| 0 <= i < fs.len() ==> field_values_dv(fs)[i] == fs[i].deep_view(),
    decreases fs,
{
    if fs.len() > 0 {
        lemma_field_values_dv(fs.drop_last());
        assert(field_values_dv(fs) == field_values_dv(fs.drop_last()).push(fs.last().deep_view()));
        assert forall|i: int| 0 <= i < fs.len() implies field_values_dv(fs)[i] == fs[i].deep_view() by {
            if i < fs.len() - 1 {
                assert(field_values_dv(fs)[i] == field_values_dv(fs.drop_last())[i]);
                assert(fs.drop_last()[i] == fs[i]);
            } else {
                assert(fs[i] == fs.last());
            }
        }
    }
}

/// Indexing facts for statement images.
pub proof fn lemma_stmts_dv(ss: Seq<Stmt>)
    ensures
        stmts_dv(ss).len() == ss.len(),
        forall|i: int| 0 <= i < ss.len() ==> stmts_dv(ss)[i] == ss[i].deep_view(),
    decreases ss,
{
    if ss.len() > 0 {
        lemma_stmts_dv(ss.drop_last());
        assert(stmts_dv(ss) == stmts_dv(ss.drop_last()).push(ss.last().deep_view()));
        assert forall|i: int| 0 <= i < ss.len() implies stmts_dv(ss)[i] == ss[i].deep_view() by {
            if i < ss.len() - 1 {
                assert(stmts_dv(ss)[i] == stmts_dv(ss.drop_last())[i]);
                assert(ss.drop_last()[i] == ss[i]);
            } else {
                assert(ss[i] == ss.last());
            }
        }
    }
}

/// The statement image distributes over concatenation.
pub proof fn lemma_stmts_dv_concat(a: Seq<Stmt>, b: Seq<Stmt>)
    ensures
        stmts_dv(a + b) == stmts_dv(a) + stmts_dv(b),
    decreases b,
{
    if b.len() == 0 {
        assert(a + b =~= a);
        assert(stmts_dv(a) + stmts_dv(b) =~= stmts_dv(a));
    } else {
        lemma_stmts_dv_concat(a, b.drop_last());
        assert((a + b).drop_last() =~= a + b.drop_last());
        assert((a + b).last() == b.last());
        assert(stmts_dv(a) + stmts_dv(b) =~= (stmts_dv(a) + stmts_dv(b.drop_last())).push(
            b.last().deep_view(),
        ));
    }
}

/// Indexing facts for parameter images.
pub proof fn lemma_params_dv(ps: Seq<Param>)
    ensures
        params_dv(ps).len() == ps.len(),
        forall|i: int| 0 <= i < ps.len() ==> params_dv(ps)[i] == ps[i].deep_view(),
    decreases ps,
{
    if ps.len() > 0 {
        lemma_params_dv(ps.drop_last());
        assert(params_dv(ps) == params_dv(ps.drop_last()).push(ps.last().deep_view()));
        assert forall|i: int| 0 <= i < ps.len() implies params_dv(ps)[i] == ps[i].deep_view() by {
            if i < ps.len() - 1 {
                assert(params_dv(ps)[i] == params_dv(ps.drop_last())[i]);
                assert(ps.drop_last()[i] == ps[i]);
            } else {
                assert(ps[i] == ps.last());
            }
        }
    }
}

} // verus!
