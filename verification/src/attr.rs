//! The attribute-style tracing pass: rewrites one procedure in place so that
//! its body runs inside a step's push/pop bracket against an ambient,
//! lock-guarded tracer handle. This is the single-variant companion of the
//! two-variant transformer: the caller names where the tracer lives and
//! which step constructor to record.

use vstd::prelude::*;

use crate::ast::Block;
use crate::ast::BlockV;
use crate::ast::Expr;
use crate::ast::ExprV;
use crate::ast::FieldValue;
use crate::ast::FieldValueV;
use crate::ast::Pat;
use crate::ast::PatV;
use crate::ast::PathDef;
use crate::ast::ProcDef;
use crate::ast::ProcDefV;
use crate::ast::Stmt;
use crate::ast::StmtV;
use crate::ast::Ty;
use crate::ast::TyV;
use crate::ast::exprs_dv;
use crate::ast::field_values_dv;
use crate::ast::stmts_dv;
use crate::ast::lemma_exprs_dv;
use crate::ast::lemma_field_values_dv;
use crate::ast::lemma_stmts_dv;
use crate::helpers::snake_case_name;
use crate::helpers::snake_of;
use crate::transform::TransformError;
use crate::transform::local_stmt;
use crate::transform::method_call;
use crate::transform::path_ref1_str;
use crate::transform::clone_pat;
use crate::transform::clone_path;
use crate::transform::clone_ty;
use crate::transform::type_is_step;
use crate::transform::type_is_step_v;

verus! {

/// Deep copy of an expression; the copy denotes the same tree.
pub fn clone_expr(e: &Expr) -> (r: Expr)
    ensures
        r.deep_view() == e.deep_view(),
    decreases *e,
{
    match e {
        Expr::Lit(n) => Expr::Lit(*n),
        Expr::StrLit(s) => Expr::StrLit(s.clone()),
        Expr::PathRef(p) => Expr::PathRef(clone_path(p)),
        Expr::Call { func, args } => Expr::Call {
            func: clone_path(func),
            args: clone_exprs(args),
        },
        Expr::MethodCall { recv, method, args } => Expr::MethodCall {
            recv: Box::new(clone_expr(&**recv)),
            method: method.clone(),
            args: clone_exprs(args),
        },
        Expr::Ref(inner) => Expr::Ref(Box::new(clone_expr(&**inner))),
        Expr::Field { base, field } => Expr::Field {
            base: Box::new(clone_expr(&**base)),
            field: field.clone(),
        },
        Expr::Binary { op, lhs, rhs } => Expr::Binary {
            op: *op,
            lhs: Box::new(clone_expr(&**lhs)),
            rhs: Box::new(clone_expr(&**rhs)),
        },
        Expr::Struct { path, fields } => Expr::Struct {
            path: clone_path(path),
            fields: clone_fvs(fields),
        },
        Expr::ClosureCall { body } => Expr::ClosureCall { body: clone_block(body) },
    }
}

/// Deep copy of an expression list.
pub fn clone_exprs(es: &Vec<Expr>) -> (r: Vec<Expr>)
    ensures
        exprs_dv(r@) == exprs_dv(es@),
    decreases es@,
{
    let mut r: Vec<Expr> = Vec::new();
    let mut i: usize = 0;
    proof {
        lemma_exprs_dv(es@);
    }
    while i < es.len()
        invariant
            0 <= i <= es@.len(),
            exprs_dv(es@).len() == es@.len(),
            forall|j: int| 0 <= j < es@.len() ==> exprs_dv(es@)[j] == es@[j].deep_view(),
            exprs_dv(r@) == exprs_dv(es@).take(i as int),
        decreases es@.len() - i,
    {
        let c = clone_expr(&es[i]);
        proof {
            assert(exprs_dv(es@).take(i + 1 as int).drop_last() =~= exprs_dv(es@).take(i as int));
            assert(exprs_dv(es@).take(i + 1 as int).last() == exprs_dv(es@)[i as int]);
            assert(r@.push(c).drop_last() =~= r@);
        }
        r.push(c);
        i += 1;
    }
    proof {
        assert(exprs_dv(es@).take(es@.len() as int) =~= exprs_dv(es@));
    }
    r
}

/// Deep copy of a struct-field list.
pub fn clone_fvs(fs: &Vec<FieldValue>) -> (r: Vec<FieldValue>)
    ensures
        field_values_dv(r@) == field_values_dv(fs@),
    decreases fs@,
{
    let mut r: Vec<FieldValue> = Vec::new();
    let mut i: usize = 0;
    proof {
        lemma_field_values_dv(fs@);
    }
    while i < fs.len()
        invariant
            0 <= i <= fs@.len(),
            field_values_dv(fs@).len() == fs@.len(),
            forall|j: int| 0 <= j < fs@.len() ==> field_values_dv(fs@)[j] == fs@[j].deep_view(),
            field_values_dv(r@) == field_values_dv(fs@).take(i as int),
        decreases fs@.len() - i,
    {
        let c = FieldValue { name: fs[i].name.clone(), value: clone_expr(&fs[i].value) };
        proof {
            assert(field_values_dv(fs@).take(i + 1 as int).drop_last() =~= field_values_dv(
                fs@,
            ).take(i as int));
            assert(field_values_dv(fs@).take(i + 1 as int).last() == field_values_dv(
                fs@,
            )[i as int]);
            assert(r@.push(c).drop_last() =~= r@);
            assert(fs@[i as int].deep_view() == (FieldValueV {
                name: fs@[i as int].name@,
                value: fs@[i as int].value.deep_view(),
            }));
            assert(c.deep_view() == fs@[i as int].deep_view());
        }
        r.push(c);
        i += 1;
    }
    proof {
        assert(field_values_dv(fs@).take(fs@.len() as int) =~= field_values_dv(fs@));
    }
    r
}

/// Deep copy of a statement.
pub fn clone_stmt(s: &Stmt) -> (r: Stmt)
    ensures
        r.deep_view() == s.deep_view(),
    decreases *s,
{
    match s {
        Stmt::Local { pat, init } => Stmt::Local { pat: clone_pat(pat), init: clone_expr(init) },
        Stmt::Semi(e) => Stmt::Semi(clone_expr(e)),
        Stmt::Expr(e) => Stmt::Expr(clone_expr(e)),
        Stmt::Assert(e) => Stmt::Assert(clone_expr(e)),
        Stmt::AssertEq { lhs, rhs } => Stmt::AssertEq {
            lhs: clone_expr(lhs),
            rhs: clone_expr(rhs),
        },
    }
}

/// Deep copy of a body.
pub fn clone_block(b: &Block) -> (r: Block)
    ensures
        r.deep_view() == b.deep_view(),
    decreases *b,
{
    let mut stmts: Vec<Stmt> = Vec::new();
    let mut i: usize = 0;
    proof {
        lemma_stmts_dv(b.stmts@);
    }
    while i < b.stmts.len()
        invariant
            0 <= i <= b.stmts@.len(),
            stmts_dv(b.stmts@).len() == b.stmts@.len(),
            forall|j: int| 0 <= j < b.stmts@.len() ==> stmts_dv(b.stmts@)[j] == b.stmts@[j].deep_view(),
            stmts_dv(stmts@) == stmts_dv(b.stmts@).take(i as int),
        decreases b.stmts@.len() - i,
    {
        let c = clone_stmt(&b.stmts[i]);
        proof {
            assert(stmts_dv(b.stmts@).take(i + 1 as int).drop_last() =~= stmts_dv(b.stmts@).take(
                i as int,
            ));
            assert(stmts_dv(b.stmts@).take(i + 1 as int).last() == stmts_dv(b.stmts@)[i as int]);
            assert(stmts@.push(c).drop_last() =~= stmts@);
        }
        stmts.push(c);
        i += 1;
    }
    proof {
        assert(stmts_dv(b.stmts@).take(b.stmts@.len() as int) =~= stmts_dv(b.stmts@));
    }
    Block { stmts }
}

/// The extra argument handed to every `push_extra` call in a traced body.
pub open spec fn safety_arg_v() -> ExprV {
    ExprV::PathRef(seq!["___safety_idx_before"@])
}

/// The visiting pass on one expression: every method call named
/// `push_extra` gets the remembered safety index appended. The traversal
/// stops at method-call nodes, as the visitor it models does: their
/// receivers and arguments are left untouched.
pub open spec fn add_safety_arg_expr_v(e: ExprV) -> ExprV
    decreases e,
{
    match e {
        ExprV::Lit(n) => ExprV::Lit(n),
        ExprV::StrLit(s) => ExprV::StrLit(s),
        ExprV::PathRef(p) => ExprV::PathRef(p),
        ExprV::Call { func, args } => ExprV::Call {
            func,
            args: add_safety_arg_exprs_v(args),
        },
        ExprV::MethodCall { recv, method, args } => if method == "push_extra"@ {
            ExprV::MethodCall { recv, method, args: args.push(safety_arg_v()) }
        } else {
            ExprV::MethodCall { recv, method, args }
        },
        ExprV::Ref(inner) => ExprV::Ref(Box::new(add_safety_arg_expr_v(*inner))),
        ExprV::Field { base, field } => ExprV::Field {
            base: Box::new(add_safety_arg_expr_v(*base)),
            field,
        },
        ExprV::Binary { op, lhs, rhs } => ExprV::Binary {
            op,
            lhs: Box::new(add_safety_arg_expr_v(*lhs)),
            rhs: Box::new(add_safety_arg_expr_v(*rhs)),
        },
        ExprV::Struct { path, fields } => ExprV::Struct {
            path,
            fields: add_safety_arg_fvs_v(fields),
        },
        ExprV::ClosureCall { body } => ExprV::ClosureCall {
            body: BlockV { stmts: add_safety_arg_stmts_v(body.stmts) },
        },
    }
}

pub open spec fn add_safety_arg_exprs_v(es: Seq<ExprV>) -> Seq<ExprV>
    decreases es,
{
    if es.len() == 0 {
        Seq::empty()
    } else {
        add_safety_arg_exprs_v(es.drop_last()).push(add_safety_arg_expr_v(es.last()))
    }
}

pub open spec fn add_safety_arg_fvs_v(fs: Seq<FieldValueV>) -> Seq<FieldValueV>
    decreases fs,
{
    if fs.len() == 0 {
        Seq::empty()
    } else {
        add_safety_arg_fvs_v(fs.drop_last()).push(
            FieldValueV {
                name: fs.last().name,
                value: add_safety_arg_expr_v(fs.last().value),
            },
        )
    }
}

pub open spec fn add_safety_arg_stmt_v(s: StmtV) -> StmtV
    decreases s,
{
    match s {
        StmtV::Local { pat, init } => StmtV::Local { pat, init: add_safety_arg_expr_v(init) },
        StmtV::Semi(e) => StmtV::Semi(add_safety_arg_expr_v(e)),
        StmtV::Expr(e) => StmtV::Expr(add_safety_arg_expr_v(e)),
        StmtV::Assert(e) => StmtV::Assert(add_safety_arg_expr_v(e)),
        StmtV::AssertEq { lhs, rhs } => StmtV::AssertEq {
            lhs: add_safety_arg_expr_v(lhs),
            rhs: add_safety_arg_expr_v(rhs),
        },
    }
}

pub open spec fn add_safety_arg_stmts_v(ss: Seq<StmtV>) -> Seq<StmtV>
    decreases ss,
{
    if ss.len() == 0 {
        Seq::empty()
    } else {
        add_safety_arg_stmts_v(ss.drop_last()).push(add_safety_arg_stmt_v(ss.last()))
    }
}

/// Appends the remembered safety index to every `push_extra` method call.
/// The traversal does not descend into method-call nodes.
pub fn add_safety_arg_expr(e: &Expr) -> (r: Expr)
    ensures
        r.deep_view() == add_safety_arg_expr_v(e.deep_view()),
    decreases *e,
{
    match e {
        Expr::Lit(n) => Expr::Lit(*n),
        Expr::StrLit(s) => Expr::StrLit(s.clone()),
        Expr::PathRef(p) => Expr::PathRef(clone_path(p)),
        Expr::Call { func, args } => Expr::Call {
            func: clone_path(func),
            args: add_safety_arg_exprs(args),
        },
        Expr::MethodCall { recv, method, args } => {
            if crate::transform::str_is(method, "push_extra") {
                let mut nargs = clone_exprs(args);
                let ghost pre = nargs@;
                let mut arg_path: Vec<String> = Vec::new();
                arg_path.push(String::from_str("___safety_idx_before"));
                let arg = Expr::PathRef(PathDef { segments: arg_path });
                proof {
                    assert(arg.deep_view() == safety_arg_v()) by {
                        match arg {
                            Expr::PathRef(p) => {
                                assert(p@ =~= seq!["___safety_idx_before"@]);
                            },
                            _ => {},
                        }
                    }
                }
                nargs.push(arg);
                let r = Expr::MethodCall {
                    recv: Box::new(clone_expr(&**recv)),
                    method: method.clone(),
                    args: nargs,
                };
                proof {
                    assert(nargs@.drop_last() =~= pre);
                    assert(exprs_dv(nargs@) == exprs_dv(pre).push(safety_arg_v()));
                }
                r
            } else {
                Expr::MethodCall {
                    recv: Box::new(clone_expr(&**recv)),
                    method: method.clone(),
                    args: clone_exprs(args),
                }
            }
        },
        Expr::Ref(inner) => Expr::Ref(Box::new(add_safety_arg_expr(&**inner))),
        Expr::Field { base, field } => Expr::Field {
            base: Box::new(add_safety_arg_expr(&**base)),
            field: field.clone(),
        },
        Expr::Binary { op, lhs, rhs } => Expr::Binary {
            op: *op,
            lhs: Box::new(add_safety_arg_expr(&**lhs)),
            rhs: Box::new(add_safety_arg_expr(&**rhs)),
        },
        Expr::Struct { path, fields } => Expr::Struct {
            path: clone_path(path),
            fields: add_safety_arg_fvs(fields),
        },
        Expr::ClosureCall { body } => {
            let nb = add_safety_arg_block(body);
            proof {
                assert(body.deep_view() == (BlockV { stmts: stmts_dv(body.stmts@) }));
            }
            Expr::ClosureCall { body: nb }
        },
    }
}

/// The visiting pass, elementwise on an argument list.
pub fn add_safety_arg_exprs(es: &Vec<Expr>) -> (r: Vec<Expr>)
    ensures
        exprs_dv(r@) == add_safety_arg_exprs_v(exprs_dv(es@)),
    decreases es@,
{
    let mut r: Vec<Expr> = Vec::new();
    let mut i: usize = 0;
    proof {
        lemma_exprs_dv(es@);
    }
    while i < es.len()
        invariant
            0 <= i <= es@.len(),
            exprs_dv(es@).len() == es@.len(),
            forall|j: int| 0 <= j < es@.len() ==> exprs_dv(es@)[j] == es@[j].deep_view(),
            exprs_dv(r@) == add_safety_arg_exprs_v(exprs_dv(es@).take(i as int)),
        decreases es@.len() - i,
    {
        let c = add_safety_arg_expr(&es[i]);
        proof {
            assert(exprs_dv(es@).take(i + 1 as int).drop_last() =~= exprs_dv(es@).take(i as int));
            assert(exprs_dv(es@).take(i + 1 as int).last() == exprs_dv(es@)[i as int]);
            assert(r@.push(c).drop_last() =~= r@);
        }
        r.push(c);
        i += 1;
    }
    proof {
        assert(exprs_dv(es@).take(es@.len() as int) =~= exprs_dv(es@));
    }
    r
}

/// The visiting pass, elementwise on struct fields.
pub fn add_safety_arg_fvs(fs: &Vec<FieldValue>) -> (r: Vec<FieldValue>)
    ensures
        field_values_dv(r@) == add_safety_arg_fvs_v(field_values_dv(fs@)),
    decreases fs@,
{
    let mut r: Vec<FieldValue> = Vec::new();
    let mut i: usize = 0;
    proof {
        lemma_field_values_dv(fs@);
    }
    while i < fs.len()
        invariant
            0 <= i <= fs@.len(),
            field_values_dv(fs@).len() == fs@.len(),
            forall|j: int| 0 <= j < fs@.len() ==> field_values_dv(fs@)[j] == fs@[j].deep_view(),
            field_values_dv(r@) == add_safety_arg_fvs_v(field_values_dv(fs@).take(i as int)),
        decreases fs@.len() - i,
    {
        let c = FieldValue { name: fs[i].name.clone(), value: add_safety_arg_expr(&fs[i].value) };
        proof {
            assert(field_values_dv(fs@).take(i + 1 as int).drop_last() =~= field_values_dv(
                fs@,
            ).take(i as int));
            assert(field_values_dv(fs@).take(i + 1 as int).last() == field_values_dv(
                fs@,
            )[i as int]);
            assert(r@.push(c).drop_last() =~= r@);
            assert(fs@[i as int].deep_view() == (FieldValueV {
                name: fs@[i as int].name@,
                value: fs@[i as int].value.deep_view(),
            }));
            assert(c.deep_view() == (FieldValueV {
                name: fs@[i as int].name@,
                value: add_safety_arg_expr_v(fs@[i as int].value.deep_view()),
            }));
        }
        r.push(c);
        i += 1;
    }
    proof {
        assert(field_values_dv(fs@).take(fs@.len() as int) =~= field_values_dv(fs@));
    }
    r
}

/// The visiting pass on one statement.
pub fn add_safety_arg_stmt(s: &Stmt) -> (r: Stmt)
    ensures
        r.deep_view() == add_safety_arg_stmt_v(s.deep_view()),
    decreases *s,
{
    match s {
        Stmt::Local { pat, init } => Stmt::Local {
            pat: clone_pat(pat),
            init: add_safety_arg_expr(init),
        },
        Stmt::Semi(e) => Stmt::Semi(add_safety_arg_expr(e)),
        Stmt::Expr(e) => Stmt::Expr(add_safety_arg_expr(e)),
        Stmt::Assert(e) => Stmt::Assert(add_safety_arg_expr(e)),
        Stmt::AssertEq { lhs, rhs } => Stmt::AssertEq {
            lhs: add_safety_arg_expr(lhs),
            rhs: add_safety_arg_expr(rhs),
        },
    }
}

/// The visiting pass on a whole body.
pub fn add_safety_arg_block(b: &Block) -> (r: Block)
    ensures
        r.deep_view() == (BlockV { stmts: add_safety_arg_stmts_v(stmts_dv(b.stmts@)) }),
    decreases *b,
{
    let mut stmts: Vec<Stmt> = Vec::new();
    let mut i: usize = 0;
    proof {
        lemma_stmts_dv(b.stmts@);
    }
    while i < b.stmts.len()
        invariant
            0 <= i <= b.stmts@.len(),
            stmts_dv(b.stmts@).len() == b.stmts@.len(),
            forall|j: int| 0 <= j < b.stmts@.len() ==> stmts_dv(b.stmts@)[j] == b.stmts@[j].deep_view(),
            stmts_dv(stmts@) == add_safety_arg_stmts_v(stmts_dv(b.stmts@).take(i as int)),
        decreases b.stmts@.len() - i,
    {
        let c = add_safety_arg_stmt(&b.stmts[i]);
        proof {
            assert(stmts_dv(b.stmts@).take(i + 1 as int).drop_last() =~= stmts_dv(b.stmts@).take(
                i as int,
            ));
            assert(stmts_dv(b.stmts@).take(i + 1 as int).last() == stmts_dv(b.stmts@)[i as int]);
            assert(stmts@.push(c).drop_last() =~= stmts@);
        }
        stmts.push(c);
        i += 1;
    }
    proof {
        assert(stmts_dv(b.stmts@).take(b.stmts@.len() as int) =~= stmts_dv(b.stmts@));
    }
    Block { stmts }
}

/// The constructor-method name derived from a step variant's name.
pub open spec fn new_cnstr_name_v(n: Seq<char>) -> Seq<char> {
    "new_"@ + snake_of(n)
}

/// Renames the final path segment of a step-constructor call to the derived
/// `new_`-prefixed, snake-cased constructor method. Anything other than a
/// call with a non-empty path is a usage error.
pub open spec fn change_call_ident_v(e: ExprV) -> Result<ExprV, TransformError> {
    match e {
        ExprV::Call { func, args } => if func.len() > 0 {
            Ok(
                ExprV::Call {
                    func: func.update(func.len() - 1, new_cnstr_name_v(func.last())),
                    args,
                },
            )
        } else {
            Err(TransformError::ExpectedCallExpr)
        },
        _ => Err(TransformError::ExpectedCallExpr),
    }
}

/// Renames a step-constructor call to its derived constructor method.
pub fn change_call_ident(e: &Expr) -> (r: Result<Expr, TransformError>)
    ensures
        match r {
            Ok(x) => change_call_ident_v(e.deep_view()) == Ok::<_, TransformError>(x.deep_view()),
            Err(err) => change_call_ident_v(e.deep_view()) == Err::<ExprV, _>(err),
        },
{
    match e {
        Expr::Call { func, args } => {
            let n = func.segments.len();
            if n == 0 {
                proof {
                    assert(e.deep_view() == (ExprV::Call {
                        func: func@,
                        args: exprs_dv(args@),
                    }));
                    assert(func@.len() == 0);
                }
                return Err(TransformError::ExpectedCallExpr);
            }
            let snake = snake_case_name(&func.segments[n - 1]);
            let renamed = String::from_str("new_").concat(snake.as_str());
            let mut new_func = clone_path(func);
            new_func.segments.set(n - 1, renamed);
            let r = Expr::Call { func: new_func, args: clone_exprs(args) };
            proof {
                assert(func@[n - 1] == func.segments@[n - 1]@);
                assert(func@.last() == func.segments@[n - 1]@);
                assert(new_func@ =~= func@.update(func@.len() - 1, new_cnstr_name_v(func@.last())));
            }
            Ok(r)
        },
        _ => Err(TransformError::ExpectedCallExpr),
    }
}

/// The step type written in full, as the added annotation spells it.
pub open spec fn step_ty_v() -> TyV {
    TyV::Named(seq!["crate"@, "trace"@, "Step"@])
}

/// Builds the fully spelled step type.
fn step_ty() -> (r: Ty)
    ensures
        r.deep_view() == step_ty_v(),
{
    let mut segments: Vec<String> = Vec::new();
    segments.push(String::from_str("crate"));
    segments.push(String::from_str("trace"));
    segments.push(String::from_str("Step"));
    let p = PathDef { segments };
    proof {
        assert(p@ =~= seq!["crate"@, "trace"@, "Step"@]);
    }
    Ty::Named(p)
}

/// The step binding that must open a traced body: a bare `let` gets the
/// step type annotation added; an annotated `let` must already name the
/// step type; anything else is a usage error. Returns the binding's name
/// together with the annotated statement.
pub open spec fn step_declar_add_type_v(s: StmtV) -> Result<(Seq<char>, StmtV), TransformError> {
    match s {
        StmtV::Local { pat, init } => match pat {
            PatV::Ident(name) => Ok(
                (name, StmtV::Local { pat: PatV::Typed { name, ty: step_ty_v() }, init }),
            ),
            PatV::Typed { name, ty } => if type_is_step_v(ty) {
                Ok((name, StmtV::Local { pat: PatV::Typed { name, ty }, init }))
            } else {
                Err(TransformError::FirstStmtNotStepTyped)
            },
        },
        _ => Err(TransformError::FirstStmtNotLocal),
    }
}

/// Ensures the step binding that opens a traced body carries the step type,
/// adding the annotation where the binding is bare.
pub fn step_declar_add_type(s: &Stmt) -> (r: Result<(String, Stmt), TransformError>)
    ensures
        match r {
            Ok(p) => step_declar_add_type_v(s.deep_view()) == Ok::<_, TransformError>(
                (p.0@, p.1.deep_view()),
            ),
            Err(err) => step_declar_add_type_v(s.deep_view()) == Err::<(Seq<char>, StmtV), _>(err),
        },
{
    match s {
        Stmt::Local { pat, init } => match pat {
            Pat::Ident(name) => {
                let stmt = Stmt::Local {
                    pat: Pat::Typed { name: name.clone(), ty: step_ty() },
                    init: clone_expr(init),
                };
                Ok((name.clone(), stmt))
            },
            Pat::Typed { name, ty } => {
                if type_is_step(ty) {
                    let stmt = Stmt::Local {
                        pat: Pat::Typed { name: name.clone(), ty: clone_ty(ty) },
                        init: clone_expr(init),
                    };
                    Ok((name.clone(), stmt))
                } else {
                    Err(TransformError::FirstStmtNotStepTyped)
                }
            },
        },
        _ => Err(TransformError::FirstStmtNotLocal),
    }
}

/// The two expressions a trace attribute names: where the lock-guarded
/// tracer handle lives, and the step-constructor call to record.
pub struct TraceAttr {
    pub tracer_location: Expr,
    pub step: Expr,
}

impl TraceAttr {
    /// Packs the two attribute arguments.
    pub fn new(tracer_location: Expr, step: Expr) -> (r: TraceAttr)
        ensures
            r.tracer_location == tracer_location,
            r.step == step,
    {
        TraceAttr { tracer_location, step }
    }

    /// Reads the attribute's two arguments from the parsed argument list:
    /// the tracer location first, the step-constructor call second. Fewer
    /// arguments are a usage error naming what is missing.
    pub fn from_args(args: Vec<Expr>) -> (r: Result<TraceAttr, TransformError>)
        ensures
            args@.len() >= 2 ==> r is Ok,
            args@.len() == 1 ==> r == Err::<TraceAttr, _>(TransformError::TraceAttrNeedsStep),
            args@.len() == 0 ==> r == Err::<TraceAttr, _>(TransformError::TraceAttrNeedsBoth),
            match r {
                Ok(a) => args@.len() >= 2 && a.tracer_location == args@[0] && a.step == args@[1],
                Err(_) => args@.len() < 2,
            },
    {
        let mut args = args;
        if args.len() >= 2 {
            let fst = args.remove(0);
            let snd = args.remove(0);
            Ok(TraceAttr { tracer_location: fst, step: snd })
        } else if args.len() == 1 {
            Err(TransformError::TraceAttrNeedsStep)
        } else {
            Err(TransformError::TraceAttrNeedsBoth)
        }
    }
}

/// The opening statements of a traced body: build and remember the step,
/// remember the stack depth and the step's safety index, and push the step.
pub open spec fn tracing_head_v(loc: ExprV, cm: Seq<char>, cargs: Seq<ExprV>) -> Seq<StmtV> {
    seq![
        StmtV::Local {
            pat: PatV::Typed { name: "this_step"@, ty: step_ty_v() },
            init: ExprV::MethodCall {
                recv: Box::new(
                    ExprV::MethodCall { recv: Box::new(loc), method: "write"@, args: Seq::empty() },
                ),
                method: cm,
                args: cargs,
            },
        },
        StmtV::Local {
            pat: PatV::Ident("stack_size_before"@),
            init: ExprV::MethodCall {
                recv: Box::new(
                    ExprV::MethodCall { recv: Box::new(loc), method: "read"@, args: Seq::empty() },
                ),
                method: "stack_len"@,
                args: Seq::empty(),
            },
        },
        StmtV::Local {
            pat: PatV::Ident("___safety_idx_before"@),
            init: ExprV::MethodCall {
                recv: Box::new(ExprV::PathRef(seq!["this_step"@])),
                method: "get_safety_idx"@,
                args: Seq::empty(),
            },
        },
        StmtV::Semi(
            ExprV::MethodCall {
                recv: Box::new(
                    ExprV::MethodCall { recv: Box::new(loc), method: "write"@, args: Seq::empty() },
                ),
                method: "push"@,
                args: seq![ExprV::PathRef(seq!["this_step"@])],
            },
        ),
    ]
}

/// The middle of a traced body: the original statements run as an
/// immediately invoked closure, with the safety index handed to every
/// `push_extra` call, and the result bound under its declared type.
pub open spec fn tracing_run_v(ret: TyV, body: BlockV) -> Seq<StmtV> {
    seq![
        StmtV::Local {
            pat: PatV::Typed { name: "result____"@, ty: ret },
            init: ExprV::ClosureCall {
                body: BlockV { stmts: add_safety_arg_stmts_v(body.stmts) },
            },
        },
    ]
}

/// The closing statements of a traced body: capture the result, pop the
/// step, write its op index and result exactly once each, link it under its
/// parent, hand it to the tracer, and check the stack depth and safety
/// index are as remembered.
pub open spec fn tracing_tail_v(loc: ExprV) -> Seq<StmtV> {
    seq![
        StmtV::Local {
            pat: PatV::Ident("write_guard"@),
            init: ExprV::MethodCall { recv: Box::new(loc), method: "write"@, args: Seq::empty() },
        },
        StmtV::Local {
            pat: PatV::Ident("result_idx"@),
            init: ExprV::MethodCall {
                recv: Box::new(
                    ExprV::MethodCall {
                        recv: Box::new(ExprV::PathRef(seq!["result____"@])),
                        method: "clone"@,
                        args: Seq::empty(),
                    },
                ),
                method: "insert_item"@,
                args: seq![
                    ExprV::Ref(
                        Box::new(
                            ExprV::Field {
                                base: Box::new(ExprV::PathRef(seq!["write_guard"@])),
                                field: "item_storage"@,
                            },
                        ),
                    ),
                ],
            },
        },
        StmtV::Local {
            pat: PatV::Ident("recovered_this_step"@),
            init: ExprV::MethodCall {
                recv: Box::new(ExprV::PathRef(seq!["write_guard"@])),
                method: "pop"@,
                args: Seq::empty(),
            },
        },
        StmtV::Local {
            pat: PatV::Ident("this_step_idx"@),
            init: ExprV::MethodCall {
                recv: Box::new(ExprV::PathRef(seq!["write_guard"@])),
                method: "next_step_idx"@,
                args: Seq::empty(),
            },
        },
        StmtV::Assert(
            ExprV::MethodCall {
                recv: Box::new(
                    ExprV::MethodCall {
                        recv: Box::new(ExprV::PathRef(seq!["recovered_this_step"@])),
                        method: "get_self_idx"@,
                        args: Seq::empty(),
                    },
                ),
                method: "is_none"@,
                args: Seq::empty(),
            },
        ),
        StmtV::Semi(
            ExprV::MethodCall {
                recv: Box::new(ExprV::PathRef(seq!["recovered_this_step"@])),
                method: "set_self_idx"@,
                args: seq![ExprV::PathRef(seq!["this_step_idx"@])],
            },
        ),
        StmtV::Semi(
            ExprV::MethodCall {
                recv: Box::new(ExprV::PathRef(seq!["write_guard"@])),
                method: "add_child"@,
                args: seq![
                    ExprV::PathRef(seq!["this_step_idx"@]),
                    ExprV::Ref(Box::new(ExprV::PathRef(seq!["recovered_this_step"@]))),
                ],
            },
        ),
        StmtV::Assert(
            ExprV::MethodCall {
                recv: Box::new(
                    ExprV::MethodCall {
                        recv: Box::new(ExprV::PathRef(seq!["recovered_this_step"@])),
                        method: "get_result"@,
                        args: Seq::empty(),
                    },
                ),
                method: "is_none"@,
                args: Seq::empty(),
            },
        ),
        StmtV::Semi(
            ExprV::MethodCall {
                recv: Box::new(ExprV::PathRef(seq!["recovered_this_step"@])),
                method: "set_result"@,
                args: seq![ExprV::PathRef(seq!["result_idx"@])],
            },
        ),
        StmtV::Semi(
            ExprV::MethodCall {
                recv: Box::new(ExprV::PathRef(seq!["write_guard"@])),
                method: "trace_step"@,
                args: seq![ExprV::Ref(Box::new(ExprV::PathRef(seq!["recovered_this_step"@])))],
            },
        ),
        StmtV::AssertEq {
            lhs: ExprV::PathRef(seq!["stack_size_before"@]),
            rhs: ExprV::MethodCall {
                recv: Box::new(ExprV::PathRef(seq!["write_guard"@])),
                method: "stack_len"@,
                args: Seq::empty(),
            },
        },
        StmtV::AssertEq {
            lhs: ExprV::PathRef(seq!["___safety_idx_before"@]),
            rhs: ExprV::MethodCall {
                recv: Box::new(ExprV::PathRef(seq!["recovered_this_step"@])),
                method: "get_safety_idx"@,
                args: Seq::empty(),
            },
        },
        StmtV::Expr(ExprV::PathRef(seq!["result____"@])),
    ]
}

/// The whole instrumented body.
pub open spec fn add_tracing_body_v(
    loc: ExprV,
    cm: Seq<char>,
    cargs: Seq<ExprV>,
    ret: TyV,
    body: BlockV,
) -> Seq<StmtV> {
    tracing_head_v(loc, cm, cargs) + tracing_run_v(ret, body) + tracing_tail_v(loc)
}

/// What the attribute pass produces: the same procedure, its body replaced
/// by the instrumented one, with the step constructed through the renamed
/// constructor method. The errors are the constructor call's.
pub open spec fn add_tracing_v(loc: ExprV, step: ExprV, proc: ProcDefV) -> Result<
    ProcDefV,
    TransformError,
> {
    match change_call_ident_v(step) {
        Ok(cc) => match cc {
            ExprV::Call { func, args } => Ok(
                ProcDefV {
                    name: proc.name,
                    params: proc.params,
                    ret: proc.ret,
                    body: BlockV {
                        stmts: add_tracing_body_v(loc, func.last(), args, proc.ret, proc.body),
                    },
                },
            ),
            _ => Err(TransformError::ExpectedCallExpr),
        },
        Err(e) => Err(e),
    }
}

/// Builds the opening statements of a traced body.
#[verifier::rlimit(50)]
fn tracing_head(loc: &Expr, cnstr_method: String, cnstr_args: Vec<Expr>) -> (r: Vec<Stmt>)
    ensures
        stmts_dv(r@) == tracing_head_v(loc.deep_view(), cnstr_method@, exprs_dv(cnstr_args@)),
{
    let ghost locv = loc.deep_view();
    let ghost cm = cnstr_method@;
    let ghost cargs = exprs_dv(cnstr_args@);
    let mut stmts: Vec<Stmt> = Vec::new();
    let h0 = Stmt::Local {
        pat: Pat::Typed { name: String::from_str("this_step"), ty: step_ty() },
        init: Expr::MethodCall {
            recv: Box::new(method_call(clone_expr(loc), "write", Vec::new())),
            method: cnstr_method,
            args: cnstr_args,
        },
    };
    let h1 = local_stmt(
        String::from_str("stack_size_before"),
        method_call(
            method_call(clone_expr(loc), "read", Vec::new()),
            "stack_len",
            Vec::new(),
        ),
    );
    let h2 = local_stmt(
        String::from_str("___safety_idx_before"),
        method_call(path_ref1_str("this_step"), "get_safety_idx", Vec::new()),
    );
    let mut push_args: Vec<Expr> = Vec::new();
    push_args.push(path_ref1_str("this_step"));
    let h3 = Stmt::Semi(
        method_call(method_call(clone_expr(loc), "write", Vec::new()), "push", push_args),
    );
    proof {
        assert(exprs_dv(Seq::<Expr>::empty()) =~= Seq::<ExprV>::empty());
        lemma_exprs_dv(push_args@);
        assert(exprs_dv(push_args@) =~= seq![ExprV::PathRef(seq!["this_step"@])]);
        assert(h0.deep_view() == tracing_head_v(locv, cm, cargs)[0]);
        assert(h1.deep_view() == tracing_head_v(locv, cm, cargs)[1]);
        assert(h2.deep_view() == tracing_head_v(locv, cm, cargs)[2]);
        assert(h3.deep_view() == tracing_head_v(locv, cm, cargs)[3]);
    }
    let ghost p0 = stmts@;
    stmts.push(h0);
    proof {
        assert(stmts@.drop_last() =~= p0);
        assert(stmts_dv(stmts@) == stmts_dv(p0).push(h0.deep_view()));
    }
    let ghost p1 = stmts@;
    stmts.push(h1);
    proof {
        assert(stmts@.drop_last() =~= p1);
        assert(stmts_dv(stmts@) == stmts_dv(p1).push(h1.deep_view()));
    }
    let ghost p2 = stmts@;
    stmts.push(h2);
    proof {
        assert(stmts@.drop_last() =~= p2);
        assert(stmts_dv(stmts@) == stmts_dv(p2).push(h2.deep_view()));
    }
    let ghost p3 = stmts@;
    stmts.push(h3);
    proof {
        assert(stmts@.drop_last() =~= p3);
        assert(stmts_dv(stmts@) == stmts_dv(p3).push(h3.deep_view()));
        assert(stmts_dv(stmts@) =~= tracing_head_v(locv, cm, cargs));
    }
    stmts
}

/// Builds the closing statements of a traced body.
#[verifier::rlimit(80)]
fn tracing_tail(loc: &Expr) -> (r: Vec<Stmt>)
    ensures
        stmts_dv(r@) == tracing_tail_v(loc.deep_view()),
{
    let ghost locv = loc.deep_view();
    let mut tail: Vec<Stmt> = Vec::new();
    let t0 = local_stmt(
        String::from_str("write_guard"),
        method_call(clone_expr(loc), "write", Vec::new()),
    );
    let mut ins_args: Vec<Expr> = Vec::new();
    let storage_field = Expr::Field {
        base: Box::new(path_ref1_str("write_guard")),
        field: String::from_str("item_storage"),
    };
    let storage_ref = Expr::Ref(Box::new(storage_field));
    proof {
        assert(storage_field.deep_view() == (ExprV::Field {
            base: Box::new(ExprV::PathRef(seq!["write_guard"@])),
            field: "item_storage"@,
        }));
        assert(storage_ref.deep_view() == ExprV::Ref(Box::new(storage_field.deep_view())));
    }
    ins_args.push(storage_ref);
    let t1 = local_stmt(
        String::from_str("result_idx"),
        method_call(
            method_call(path_ref1_str("result____"), "clone", Vec::new()),
            "insert_item",
            ins_args,
        ),
    );
    let t2 = local_stmt(
        String::from_str("recovered_this_step"),
        method_call(path_ref1_str("write_guard"), "pop", Vec::new()),
    );
    let t3 = local_stmt(
        String::from_str("this_step_idx"),
        method_call(path_ref1_str("write_guard"), "next_step_idx", Vec::new()),
    );
    let t4 = Stmt::Assert(
        method_call(
            method_call(path_ref1_str("recovered_this_step"), "get_self_idx", Vec::new()),
            "is_none",
            Vec::new(),
        ),
    );
    let mut set_self_args: Vec<Expr> = Vec::new();
    set_self_args.push(path_ref1_str("this_step_idx"));
    let t5 = Stmt::Semi(
        method_call(path_ref1_str("recovered_this_step"), "set_self_idx", set_self_args),
    );
    let mut add_child_args: Vec<Expr> = Vec::new();
    add_child_args.push(path_ref1_str("this_step_idx"));
    let recovered_ref = Expr::Ref(Box::new(path_ref1_str("recovered_this_step")));
    proof {
        assert(recovered_ref.deep_view() == ExprV::Ref(
            Box::new(ExprV::PathRef(seq!["recovered_this_step"@])),
        ));
    }
    add_child_args.push(recovered_ref);
    let t6 = Stmt::Semi(method_call(path_ref1_str("write_guard"), "add_child", add_child_args));
    let t7 = Stmt::Assert(
        method_call(
            method_call(path_ref1_str("recovered_this_step"), "get_result", Vec::new()),
            "is_none",
            Vec::new(),
        ),
    );
    let mut set_result_args: Vec<Expr> = Vec::new();
    set_result_args.push(path_ref1_str("result_idx"));
    let t8 = Stmt::Semi(
        method_call(path_ref1_str("recovered_this_step"), "set_result", set_result_args),
    );
    let mut trace_step_args: Vec<Expr> = Vec::new();
    let recovered_ref2 = Expr::Ref(Box::new(path_ref1_str("recovered_this_step")));
    proof {
        assert(recovered_ref2.deep_view() == ExprV::Ref(
            Box::new(ExprV::PathRef(seq!["recovered_this_step"@])),
        ));
    }
    trace_step_args.push(recovered_ref2);
    let t9 = Stmt::Semi(method_call(path_ref1_str("write_guard"), "trace_step", trace_step_args));
    let t10 = Stmt::AssertEq {
        lhs: path_ref1_str("stack_size_before"),
        rhs: method_call(path_ref1_str("write_guard"), "stack_len", Vec::new()),
    };
    let t11 = Stmt::AssertEq {
        lhs: path_ref1_str("___safety_idx_before"),
        rhs: method_call(path_ref1_str("recovered_this_step"), "get_safety_idx", Vec::new()),
    };
    let t12 = Stmt::Expr(path_ref1_str("result____"));
    proof {
        assert(exprs_dv(Seq::<Expr>::empty()) =~= Seq::<ExprV>::empty());
        lemma_exprs_dv(ins_args@);
        assert(exprs_dv(ins_args@) =~= seq![
            ExprV::Ref(
                Box::new(
                    ExprV::Field {
                        base: Box::new(ExprV::PathRef(seq!["write_guard"@])),
                        field: "item_storage"@,
                    },
                ),
            ),
        ]);
        lemma_exprs_dv(set_self_args@);
        assert(exprs_dv(set_self_args@) =~= seq![ExprV::PathRef(seq!["this_step_idx"@])]);
        lemma_exprs_dv(add_child_args@);
        assert(exprs_dv(add_child_args@) =~= seq![
            ExprV::PathRef(seq!["this_step_idx"@]),
            ExprV::Ref(Box::new(ExprV::PathRef(seq!["recovered_this_step"@]))),
        ]);
        lemma_exprs_dv(set_result_args@);
        assert(exprs_dv(set_result_args@) =~= seq![ExprV::PathRef(seq!["result_idx"@])]);
        lemma_exprs_dv(trace_step_args@);
        assert(exprs_dv(trace_step_args@) =~= seq![
            ExprV::Ref(Box::new(ExprV::PathRef(seq!["recovered_this_step"@]))),
        ]);
        assert(t0.deep_view() == tracing_tail_v(locv)[0]);
        assert(t1.deep_view() == tracing_tail_v(locv)[1]);
        assert(t2.deep_view() == tracing_tail_v(locv)[2]);
        assert(t3.deep_view() == tracing_tail_v(locv)[3]);
        assert(t4.deep_view() == tracing_tail_v(locv)[4]);
        assert(t5.deep_view() == tracing_tail_v(locv)[5]);
        assert(t6.deep_view() == tracing_tail_v(locv)[6]);
        assert(t7.deep_view() == tracing_tail_v(locv)[7]);
        assert(t8.deep_view() == tracing_tail_v(locv)[8]);
        assert(t9.deep_view() == tracing_tail_v(locv)[9]);
        assert(t10.deep_view() == tracing_tail_v(locv)[10]);
        assert(t11.deep_view() == tracing_tail_v(locv)[11]);
        assert(t12.deep_view() == tracing_tail_v(locv)[12]);
    }
    let ghost q0 = tail@;
    tail.push(t0);
    proof {
        assert(tail@.drop_last() =~= q0);
        assert(stmts_dv(tail@) == stmts_dv(q0).push(t0.deep_view()));
    }
    let ghost q1 = tail@;
    tail.push(t1);
    proof {
        assert(tail@.drop_last() =~= q1);
        assert(stmts_dv(tail@) == stmts_dv(q1).push(t1.deep_view()));
    }
    let ghost q2 = tail@;
    tail.push(t2);
    proof {
        assert(tail@.drop_last() =~= q2);
        assert(stmts_dv(tail@) == stmts_dv(q2).push(t2.deep_view()));
    }
    let ghost q3 = tail@;
    tail.push(t3);
    proof {
        assert(tail@.drop_last() =~= q3);
        assert(stmts_dv(tail@) == stmts_dv(q3).push(t3.deep_view()));
    }
    let ghost q4 = tail@;
    tail.push(t4);
    proof {
        assert(tail@.drop_last() =~= q4);
        assert(stmts_dv(tail@) == stmts_dv(q4).push(t4.deep_view()));
    }
    let ghost q5 = tail@;
    tail.push(t5);
    proof {
        assert(tail@.drop_last() =~= q5);
        assert(stmts_dv(tail@) == stmts_dv(q5).push(t5.deep_view()));
    }
    let ghost q6 = tail@;
    tail.push(t6);
    proof {
        assert(tail@.drop_last() =~= q6);
        assert(stmts_dv(tail@) == stmts_dv(q6).push(t6.deep_view()));
    }
    let ghost q7 = tail@;
    tail.push(t7);
    proof {
        assert(tail@.drop_last() =~= q7);
        assert(stmts_dv(tail@) == stmts_dv(q7).push(t7.deep_view()));
    }
    let ghost q8 = tail@;
    tail.push(t8);
    proof {
        assert(tail@.drop_last() =~= q8);
        assert(stmts_dv(tail@) == stmts_dv(q8).push(t8.deep_view()));
    }
    let ghost q9 = tail@;
    tail.push(t9);
    proof {
        assert(tail@.drop_last() =~= q9);
        assert(stmts_dv(tail@) == stmts_dv(q9).push(t9.deep_view()));
    }
    let ghost q10 = tail@;
    tail.push(t10);
    proof {
        assert(tail@.drop_last() =~= q10);
        assert(stmts_dv(tail@) == stmts_dv(q10).push(t10.deep_view()));
    }
    let ghost q11 = tail@;
    tail.push(t11);
    proof {
        assert(tail@.drop_last() =~= q11);
        assert(stmts_dv(tail@) == stmts_dv(q11).push(t11.deep_view()));
    }
    let ghost q12 = tail@;
    tail.push(t12);
    proof {
        assert(tail@.drop_last() =~= q12);
        assert(stmts_dv(tail@) == stmts_dv(q12).push(t12.deep_view()));
        assert(stmts_dv(tail@) =~= tracing_tail_v(locv));
    }
    tail
}

/// Rewrites one procedure so that its body runs inside a step's push/pop
/// bracket: the prologue builds the step through the renamed constructor,
/// remembers the stack depth and safety index and pushes the step; the body
/// runs unchanged as an immediately invoked closure; the epilogue captures
/// the result, finalizes the step — each once-only slot written exactly
/// once — links it under its parent, and checks the remembered invariants.
pub fn add_tracing_to_item_fn(trace_attr: TraceAttr, item_fn: &ProcDef) -> (r: Result<
    ProcDef,
    TransformError,
>)
    ensures
        match r {
            Ok(p) => add_tracing_v(
                trace_attr.tracer_location.deep_view(),
                trace_attr.step.deep_view(),
                item_fn.deep_view(),
            ) == Ok::<_, TransformError>(p.deep_view()),
            Err(e) => add_tracing_v(
                trace_attr.tracer_location.deep_view(),
                trace_attr.step.deep_view(),
                item_fn.deep_view(),
            ) == Err::<ProcDefV, _>(e),
        },
{
    let ghost locv = trace_attr.tracer_location.deep_view();
    let ghost stepv = trace_attr.step.deep_view();
    let ghost procv = item_fn.deep_view();
    let changed = match change_call_ident(&trace_attr.step) {
        Ok(c) => c,
        Err(e) => {
            return Err(e);
        },
    };
    let (cnstr_method, cnstr_args) = match changed {
        Expr::Call { func, args } => {
            let n = func.segments.len();
            proof {
                assert(changed.deep_view() == (ExprV::Call { func: func@, args: exprs_dv(args@) }));
                assert(func@.len() > 0);
                assert(func@[n - 1] == func.segments@[n - 1]@);
            }
            (func.segments[n - 1].clone(), args)
        },
        _ => {
            proof {
                assert(false);
            }
            return Err(TransformError::ExpectedCallExpr);
        },
    };
    let ghost cm = cnstr_method@;
    let ghost cargs = exprs_dv(cnstr_args@);

    let mut stmts = tracing_head(&trace_attr.tracer_location, cnstr_method, cnstr_args);
    let ghost head = stmts@;

    let closure_block = add_safety_arg_block(&item_fn.body);
    let run = Stmt::Local {
        pat: Pat::Typed { name: String::from_str("result____"), ty: clone_ty(&item_fn.ret) },
        init: Expr::ClosureCall { body: closure_block },
    };
    proof {
        assert(item_fn.body.deep_view() == (BlockV { stmts: stmts_dv(item_fn.body.stmts@) }));
        assert(run.deep_view() == tracing_run_v(procv.ret, procv.body)[0]);
    }
    let ghost p4 = stmts@;
    stmts.push(run);
    proof {
        assert(stmts@.drop_last() =~= p4);
        assert(stmts_dv(stmts@) == stmts_dv(p4).push(run.deep_view()));
        assert(stmts_dv(stmts@) =~= tracing_head_v(locv, cm, cargs) + tracing_run_v(
            procv.ret,
            procv.body,
        ));
    }
    let ghost mid = stmts@;

    let mut tail = tracing_tail(&trace_attr.tracer_location);
    let ghost tailv = tail@;
    stmts.append(&mut tail);
    proof {
        crate::ast::lemma_stmts_dv_concat(mid, tailv);
        assert(stmts_dv(stmts@) =~= add_tracing_body_v(locv, cm, cargs, procv.ret, procv.body));
    }
    let r = ProcDef {
        name: item_fn.name.clone(),
        params: crate::transform::clone_params(&item_fn.params),
        ret: clone_ty(&item_fn.ret),
        body: Block { stmts },
    };
    proof {
        assert(add_tracing_v(locv, stepv, procv) == Ok::<_, TransformError>(r.deep_view()));
    }
    Ok(r)
}

/// The attribute pass entry: hands the attribute's two expressions and the
/// procedure to the rewriting above.
pub fn trace(attr_contents: TraceAttr, original_function: &ProcDef) -> (r: Result<
    ProcDef,
    TransformError,
>)
    ensures
        match r {
            Ok(p) => add_tracing_v(
                attr_contents.tracer_location.deep_view(),
                attr_contents.step.deep_view(),
                original_function.deep_view(),
            ) == Ok::<_, TransformError>(p.deep_view()),
            Err(e) => add_tracing_v(
                attr_contents.tracer_location.deep_view(),
                attr_contents.step.deep_view(),
                original_function.deep_view(),
            ) == Err::<ProcDefV, _>(e),
        },
{
    add_tracing_to_item_fn(attr_contents, original_function)
}

} // verus!
