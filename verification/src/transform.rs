//! The instrumentation transformer: capture-policy resolution against the
//! type blacklist, the call-rewriting traversal that routes calls between
//! traced procedures through their Internal variants, and the generation of
//! the Root and Internal variants of a procedure definition.

use vstd::prelude::*;

use crate::ast::Block;
use crate::ast::BlockV;
use crate::ast::Expr;
use crate::ast::ExprV;
use crate::ast::FieldValue;
use crate::ast::FieldValueV;
use crate::ast::Param;
use crate::ast::ParamV;
use crate::ast::Pat;
use crate::ast::PatV;
use crate::ast::PathDef;
use crate::ast::PathV;
use crate::ast::ProcDef;
use crate::ast::ProcDefV;
use crate::ast::Stmt;
use crate::ast::StmtV;
use crate::ast::Ty;
use crate::ast::TyV;
use crate::ast::exprs_dv;
use crate::ast::field_values_dv;
use crate::ast::params_dv;
use crate::ast::stmts_dv;
use crate::ast::lemma_exprs_dv;
use crate::ast::lemma_field_values_dv;
use crate::ast::lemma_params_dv;
use crate::ast::lemma_stmts_dv;

verus! {

/// A configuration or usage mistake caught while transforming. All of these
/// abort generation; there is no partial instrumentation mode.
#[derive(Debug, PartialEq, Eq, Structural, Clone, Copy)]
pub enum TransformError {
    /// The set of traced procedure names is empty.
    EmptyTraceTargets,
    /// A parameter's declared type cannot be resolved to a named type
    /// comparable against the blacklist.
    UnresolvableParamType,
    /// An `impl` parameter type whose bound is not the iteration capability,
    /// or whose element type cannot be recovered.
    MalformedIteratorBound,
    /// The step-constructor position held something other than a call.
    ExpectedCallExpr,
    /// The first statement of a traced body must be a local binding.
    FirstStmtNotLocal,
    /// The first statement's annotated type is not the step type.
    FirstStmtNotStepTyped,
    /// The trace attribute lacks its step argument.
    TraceAttrNeedsStep,
    /// The trace attribute lacks its tracer-location argument; the arm
    /// mirrors the attribute grammar, though a parsed argument list cannot
    /// hold a step without the location before it.
    TraceAttrNeedsTracer,
    /// The trace attribute lacks both of its arguments.
    TraceAttrNeedsBoth,
}

/// How a parameter is captured: as the value itself (cloned), or by eagerly
/// collecting an iterator of references into an owned sequence first.
#[derive(Debug, PartialEq, Eq, Structural, Clone, Copy)]
pub enum CaptureMode {
    Direct,
    Collect,
}

/// Whether an executable string equals a literal, by view.
pub fn str_is(s: &String, lit: &str) -> (r: bool)
    ensures
        r == (s@ == lit@),
{
    let l = String::from_str(lit);
    *s == l
}

/// Whether a name occurs in a list of names.
pub fn name_in_list(names: &Vec<String>, n: &String) -> (r: bool)
    ensures
        r == names.deep_view().contains(n@),
{
    let mut i: usize = 0;
    while i < names.len()
        invariant
            0 <= i <= names@.len(),
            forall|j: int| 0 <= j < i ==> names@[j]@ != n@,
        decreases names@.len() - i,
    {
        if names[i] == *n {
            assert(names.deep_view()[i as int] == n@);
            return true;
        }
        i += 1;
    }
    false
}

/// Whether two paths are the same sequence of segments, by view.
pub fn path_eq(a: &PathDef, b: &PathDef) -> (r: bool)
    ensures
        r == (a@ == b@),
{
    if a.segments.len() != b.segments.len() {
        proof {
            assert(a@.len() == a.segments@.len());
            assert(b@.len() == b.segments@.len());
        }
        return false;
    }
    let mut i: usize = 0;
    while i < a.segments.len()
        invariant
            a.segments@.len() == b.segments@.len(),
            0 <= i <= a.segments@.len(),
            forall|j: int| 0 <= j < i ==> a.segments@[j]@ == b.segments@[j]@,
        decreases a.segments@.len() - i,
    {
        if a.segments[i] != b.segments[i] {
            assert(a@[i as int] != b@[i as int]);
            return false;
        }
        i += 1;
    }
    proof {
        assert(a@ =~= b@);
    }
    true
}

/// Whether a path occurs in a list of paths (the blacklist test).
pub fn path_in_list(list: &Vec<PathDef>, p: &PathDef) -> (r: bool)
    ensures
        r == list.deep_view().contains(p@),
{
    let mut i: usize = 0;
    while i < list.len()
        invariant
            0 <= i <= list@.len(),
            forall|j: int| 0 <= j < i ==> list@[j]@ != p@,
        decreases list@.len() - i,
    {
        if path_eq(&list[i], p) {
            assert(list.deep_view()[i as int] == p@);
            return true;
        }
        i += 1;
    }
    false
}

/// Copies a path segment by segment.
pub fn clone_path(p: &PathDef) -> (r: PathDef)
    ensures
        r@ == p@,
{
    let mut segments: Vec<String> = Vec::new();
    let mut i: usize = 0;
    while i < p.segments.len()
        invariant
            0 <= i <= p.segments@.len(),
            segments@.len() == i,
            forall|j: int| 0 <= j < i ==> segments@[j]@ == p.segments@[j]@,
        decreases p.segments@.len() - i,
    {
        segments.push(p.segments[i].clone());
        i += 1;
    }
    let r = PathDef { segments };
    proof {
        assert(r@ =~= p@);
    }
    r
}

/// A path made of the given literal segments.
pub(crate) fn path_of_one(a: &str) -> (r: PathDef)
    ensures
        r@ =~= seq![a@],
{
    let mut segments: Vec<String> = Vec::new();
    segments.push(String::from_str(a));
    PathDef { segments }
}

/// The accepted spellings of the step type: `Step`, `trace::Step` and
/// `crate::trace::Step`.
pub open spec fn type_is_step_v(t: TyV) -> bool {
    t == TyV::Named(seq!["Step"@]) || t == TyV::Named(seq!["trace"@, "Step"@]) || t == TyV::Named(
        seq!["crate"@, "trace"@, "Step"@],
    )
}

/// Whether a declared type is one of the acceptable forms of the step type.
pub fn type_is_step(t: &Ty) -> (r: bool)
    ensures
        r == type_is_step_v(t.deep_view()),
{
    match t {
        Ty::Named(p) => {
            if p.segments.len() == 1 {
                let r = str_is(&p.segments[0], "Step");
                proof {
                    assert(p@[0] == p.segments@[0]@);
                    if r {
                        assert(p@ =~= seq!["Step"@]);
                    } else {
                        assert(p@ != seq!["Step"@]) by {
                            assert(seq!["Step"@][0] == "Step"@);
                        }
                        assert(p@.len() != 2 && p@.len() != 3);
                    }
                }
                r
            } else if p.segments.len() == 2 {
                let r = str_is(&p.segments[0], "trace") && str_is(&p.segments[1], "Step");
                proof {
                    assert(p@[0] == p.segments@[0]@);
                    assert(p@[1] == p.segments@[1]@);
                    if r {
                        assert(p@ =~= seq!["trace"@, "Step"@]);
                    } else {
                        assert(p@ != seq!["trace"@, "Step"@]) by {
                            assert(seq!["trace"@, "Step"@][0] == "trace"@);
                            assert(seq!["trace"@, "Step"@][1] == "Step"@);
                        }
                        assert(p@.len() != 1 && p@.len() != 3);
                    }
                }
                r
            } else if p.segments.len() == 3 {
                let r = str_is(&p.segments[0], "crate") && str_is(&p.segments[1], "trace")
                    && str_is(&p.segments[2], "Step");
                proof {
                    assert(p@[0] == p.segments@[0]@);
                    assert(p@[1] == p.segments@[1]@);
                    assert(p@[2] == p.segments@[2]@);
                    if r {
                        assert(p@ =~= seq!["crate"@, "trace"@, "Step"@]);
                    } else {
                        assert(p@ != seq!["crate"@, "trace"@, "Step"@]) by {
                            assert(seq!["crate"@, "trace"@, "Step"@][0] == "crate"@);
                            assert(seq!["crate"@, "trace"@, "Step"@][1] == "trace"@);
                            assert(seq!["crate"@, "trace"@, "Step"@][2] == "Step"@);
                        }
                        assert(p@.len() != 1 && p@.len() != 2);
                    }
                }
                r
            } else {
                proof {
                    assert(p@.len() == p.segments@.len());
                    assert(p@.len() != 1 && p@.len() != 2 && p@.len() != 3);
                }
                false
            }
        },
        _ => false,
    }
}

/// Whether a statement is a local binding.
pub fn is_local_stmt(s: &Stmt) -> (r: bool)
    ensures
        r == (s.deep_view() is Local),
{
    match s {
        Stmt::Local { .. } => true,
        _ => false,
    }
}

/// The named type a parameter's declared type resolves to for blacklist
/// comparison, with the capture mode: an `impl Iterator<Item = &T>` resolves
/// to `T` and is captured by collecting; `&T` and `&[T]` resolve to `T`; a
/// bare named type resolves to itself. Anything else is a configuration
/// error, not a data error.
pub open spec fn resolve_collectible_v(t: TyV) -> Result<(PathV, CaptureMode), TransformError> {
    match t {
        TyV::Named(p) => Ok((p, CaptureMode::Direct)),
        TyV::Ref(inner) => match *inner {
            TyV::Named(p) => Ok((p, CaptureMode::Direct)),
            TyV::Slice(inner2) => match *inner2 {
                TyV::Named(p) => Ok((p, CaptureMode::Direct)),
                _ => Err(TransformError::UnresolvableParamType),
            },
            _ => Err(TransformError::UnresolvableParamType),
        },
        TyV::ImplTrait { bound, item } => if bound == "Iterator"@ {
            match item {
                Some(it) => match *it {
                    TyV::Ref(el) => match *el {
                        TyV::Named(p) => Ok((p, CaptureMode::Collect)),
                        _ => Err(TransformError::MalformedIteratorBound),
                    },
                    _ => Err(TransformError::MalformedIteratorBound),
                },
                None => Err(TransformError::MalformedIteratorBound),
            }
        } else {
            Err(TransformError::MalformedIteratorBound)
        },
        _ => Err(TransformError::UnresolvableParamType),
    }
}

/// Resolves a parameter's declared type to the named type used for
/// blacklist comparison, and how to capture the value.
pub fn resolve_collectible<'a>(t: &'a Ty) -> (r: Result<(&'a PathDef, CaptureMode), TransformError>)
    ensures
        match r {
            Ok((p, m)) => resolve_collectible_v(t.deep_view()) == Ok::<_, TransformError>(
                (p@, m),
            ),
            Err(e) => resolve_collectible_v(t.deep_view()) == Err::<(PathV, CaptureMode), _>(e),
        },
{
    match t {
        Ty::Named(p) => {
            proof {
                assert(t.deep_view() == TyV::Named(p@));
                assert(resolve_collectible_v(TyV::Named(p@)) == Ok::<_, TransformError>(
                    (p@, CaptureMode::Direct),
                ));
            }
            Ok((p, CaptureMode::Direct))
        },
        Ty::Ref(inner) => match &**inner {
            Ty::Named(p) => {
                proof {
                    assert((**inner).deep_view() == TyV::Named(p@));
                    assert(t.deep_view() == TyV::Ref(Box::new(TyV::Named(p@))));
                    assert(resolve_collectible_v(t.deep_view()) == Ok::<_, TransformError>(
                        (p@, CaptureMode::Direct),
                    ));
                }
                Ok((p, CaptureMode::Direct))
            },
            Ty::Slice(inner2) => match &**inner2 {
                Ty::Named(p) => {
                    proof {
                        assert((**inner2).deep_view() == TyV::Named(p@));
                        assert((**inner).deep_view() == TyV::Slice(Box::new(TyV::Named(p@))));
                        assert(t.deep_view() == TyV::Ref(
                            Box::new(TyV::Slice(Box::new(TyV::Named(p@)))),
                        ));
                        assert(resolve_collectible_v(t.deep_view()) == Ok::<_, TransformError>(
                            (p@, CaptureMode::Direct),
                        ));
                    }
                    Ok((p, CaptureMode::Direct))
                },
                _ => {
                    proof {
                        assert(resolve_collectible_v(t.deep_view()) == Err::<
                            (PathV, CaptureMode),
                            _,
                        >(TransformError::UnresolvableParamType));
                    }
                    Err(TransformError::UnresolvableParamType)
                },
            },
            _ => {
                proof {
                    assert(resolve_collectible_v(t.deep_view()) == Err::<
                        (PathV, CaptureMode),
                        _,
                    >(TransformError::UnresolvableParamType));
                }
                Err(TransformError::UnresolvableParamType)
            },
        },
        Ty::ImplTrait { bound, item } => {
            if str_is(bound, "Iterator") {
                match item {
                    Some(it) => match &**it {
                        Ty::Ref(el) => match &**el {
                            Ty::Named(p) => {
                                proof {
                                    assert((**el).deep_view() == TyV::Named(p@));
                                    assert((**it).deep_view() == TyV::Ref(
                                        Box::new(TyV::Named(p@)),
                                    ));
                                    assert(t.deep_view() == TyV::ImplTrait {
                                        bound: bound@,
                                        item: Some(
                                            Box::new(TyV::Ref(Box::new(TyV::Named(p@)))),
                                        ),
                                    });
                                    assert(resolve_collectible_v(t.deep_view())
                                        == Ok::<_, TransformError>((p@, CaptureMode::Collect)));
                                }
                                Ok((p, CaptureMode::Collect))
                            },
                            _ => {
                                proof {
                                    assert(resolve_collectible_v(t.deep_view()) == Err::<
                                        (PathV, CaptureMode),
                                        _,
                                    >(TransformError::MalformedIteratorBound));
                                }
                                Err(TransformError::MalformedIteratorBound)
                            },
                        },
                        _ => {
                            proof {
                                assert(resolve_collectible_v(t.deep_view()) == Err::<
                                    (PathV, CaptureMode),
                                    _,
                                >(TransformError::MalformedIteratorBound));
                            }
                            Err(TransformError::MalformedIteratorBound)
                        },
                    },
                    None => {
                        proof {
                            assert(resolve_collectible_v(t.deep_view()) == Err::<
                                (PathV, CaptureMode),
                                _,
                            >(TransformError::MalformedIteratorBound));
                        }
                        Err(TransformError::MalformedIteratorBound)
                    },
                }
            } else {
                proof {
                    assert(resolve_collectible_v(t.deep_view()) == Err::<
                        (PathV, CaptureMode),
                        _,
                    >(TransformError::MalformedIteratorBound));
                }
                Err(TransformError::MalformedIteratorBound)
            }
        },
        Ty::Unit => Err(TransformError::UnresolvableParamType),
        Ty::Slice(_) => Err(TransformError::UnresolvableParamType),
    }
}

/// The Internal variant's name for a traced procedure.
pub open spec fn internal_name_v(n: Seq<char>) -> Seq<char> {
    n + "_internal"@
}

/// The Root variant's name for a traced procedure.
pub open spec fn root_name_v(n: Seq<char>) -> Seq<char> {
    n + "_root"@
}

/// The name of the threaded trace-context binding in generated code.
pub open spec fn ctx_name_v() -> Seq<char> {
    "___tracer"@
}

/// The call-rewriting pass on one expression: a call or method call whose
/// target name is traced is redirected to that target's Internal variant
/// with the trace context appended as final argument; every other shape is
/// rebuilt unchanged, with the pass applied to its subexpressions.
pub open spec fn rewrite_expr_v(targets: Seq<Seq<char>>, ctx: Seq<char>, e: ExprV) -> ExprV
    decreases e,
{
    match e {
        ExprV::Lit(n) => ExprV::Lit(n),
        ExprV::StrLit(s) => ExprV::StrLit(s),
        ExprV::PathRef(p) => ExprV::PathRef(p),
        ExprV::Call { func, args } => {
            let rargs = rewrite_exprs_v(targets, ctx, args);
            if func.len() > 0 && targets.contains(func.last()) {
                ExprV::Call {
                    func: func.update(func.len() - 1, internal_name_v(func.last())),
                    args: rargs.push(ExprV::PathRef(seq![ctx])),
                }
            } else {
                ExprV::Call { func, args: rargs }
            }
        },
        ExprV::MethodCall { recv, method, args } => {
            let rrecv = rewrite_expr_v(targets, ctx, *recv);
            let rargs = rewrite_exprs_v(targets, ctx, args);
            if targets.contains(method) {
                ExprV::MethodCall {
                    recv: Box::new(rrecv),
                    method: internal_name_v(method),
                    args: rargs.push(ExprV::PathRef(seq![ctx])),
                }
            } else {
                ExprV::MethodCall { recv: Box::new(rrecv), method, args: rargs }
            }
        },
        ExprV::Ref(inner) => ExprV::Ref(Box::new(rewrite_expr_v(targets, ctx, *inner))),
        ExprV::Field { base, field } => ExprV::Field {
            base: Box::new(rewrite_expr_v(targets, ctx, *base)),
            field,
        },
        ExprV::Binary { op, lhs, rhs } => ExprV::Binary {
            op,
            lhs: Box::new(rewrite_expr_v(targets, ctx, *lhs)),
            rhs: Box::new(rewrite_expr_v(targets, ctx, *rhs)),
        },
        ExprV::Struct { path, fields } => ExprV::Struct {
            path,
            fields: rewrite_fvs_v(targets, ctx, fields),
        },
        ExprV::ClosureCall { body } => ExprV::ClosureCall {
            body: rewrite_block_v(targets, ctx, body),
        },
    }
}

/// The call-rewriting pass, elementwise on an argument sequence.
pub open spec fn rewrite_exprs_v(targets: Seq<Seq<char>>, ctx: Seq<char>, es: Seq<ExprV>) -> Seq<
    ExprV,
>
    decreases es,
{
    if es.len() == 0 {
        Seq::empty()
    } else {
        rewrite_exprs_v(targets, ctx, es.drop_last()).push(
            rewrite_expr_v(targets, ctx, es.last()),
        )
    }
}

/// The call-rewriting pass, elementwise on struct fields.
pub open spec fn rewrite_fvs_v(targets: Seq<Seq<char>>, ctx: Seq<char>, fs: Seq<FieldValueV>) -> Seq<
    FieldValueV,
>
    decreases fs,
{
    if fs.len() == 0 {
        Seq::empty()
    } else {
        rewrite_fvs_v(targets, ctx, fs.drop_last()).push(
            FieldValueV {
                name: fs.last().name,
                value: rewrite_expr_v(targets, ctx, fs.last().value),
            },
        )
    }
}

/// The call-rewriting pass on one statement.
pub open spec fn rewrite_stmt_v(targets: Seq<Seq<char>>, ctx: Seq<char>, s: StmtV) -> StmtV
    decreases s,
{
    match s {
        StmtV::Local { pat, init } => StmtV::Local {
            pat,
            init: rewrite_expr_v(targets, ctx, init),
        },
        StmtV::Semi(e) => StmtV::Semi(rewrite_expr_v(targets, ctx, e)),
        StmtV::Expr(e) => StmtV::Expr(rewrite_expr_v(targets, ctx, e)),
        StmtV::Assert(e) => StmtV::Assert(rewrite_expr_v(targets, ctx, e)),
        StmtV::AssertEq { lhs, rhs } => StmtV::AssertEq {
            lhs: rewrite_expr_v(targets, ctx, lhs),
            rhs: rewrite_expr_v(targets, ctx, rhs),
        },
    }
}

/// The call-rewriting pass, elementwise on a statement sequence.
pub open spec fn rewrite_stmts_v(targets: Seq<Seq<char>>, ctx: Seq<char>, ss: Seq<StmtV>) -> Seq<
    StmtV,
>
    decreases ss,
{
    if ss.len() == 0 {
        Seq::empty()
    } else {
        rewrite_stmts_v(targets, ctx, ss.drop_last()).push(
            rewrite_stmt_v(targets, ctx, ss.last()),
        )
    }
}

/// The call-rewriting pass on a whole body.
pub open spec fn rewrite_block_v(targets: Seq<Seq<char>>, ctx: Seq<char>, b: BlockV) -> BlockV
    decreases b,
{
    BlockV { stmts: rewrite_stmts_v(targets, ctx, b.stmts) }
}

/// One step of the elementwise pass, stated over a prefix: rewriting one
/// more element extends the rewritten prefix by that element's image.
proof fn lemma_rewrite_exprs_v_take(targets: Seq<Seq<char>>, ctx: Seq<char>, s: Seq<ExprV>, i: int)
    requires
        0 <= i < s.len(),
    ensures
        rewrite_exprs_v(targets, ctx, s.take(i + 1)) == rewrite_exprs_v(
            targets,
            ctx,
            s.take(i),
        ).push(rewrite_expr_v(targets, ctx, s[i])),
{
    assert(s.take(i + 1).drop_last() =~= s.take(i));
    assert(s.take(i + 1).last() == s[i]);
}

/// One step of the elementwise pass on struct fields, over a prefix.
proof fn lemma_rewrite_fvs_v_take(
    targets: Seq<Seq<char>>,
    ctx: Seq<char>,
    s: Seq<FieldValueV>,
    i: int,
)
    requires
        0 <= i < s.len(),
    ensures
        rewrite_fvs_v(targets, ctx, s.take(i + 1)) == rewrite_fvs_v(targets, ctx, s.take(i)).push(
            FieldValueV { name: s[i].name, value: rewrite_expr_v(targets, ctx, s[i].value) },
        ),
{
    assert(s.take(i + 1).drop_last() =~= s.take(i));
    assert(s.take(i + 1).last() == s[i]);
}

/// One step of the elementwise pass on statements, over a prefix.
proof fn lemma_rewrite_stmts_v_take(
    targets: Seq<Seq<char>>,
    ctx: Seq<char>,
    s: Seq<StmtV>,
    i: int,
)
    requires
        0 <= i < s.len(),
    ensures
        rewrite_stmts_v(targets, ctx, s.take(i + 1)) == rewrite_stmts_v(
            targets,
            ctx,
            s.take(i),
        ).push(rewrite_stmt_v(targets, ctx, s[i])),
{
    assert(s.take(i + 1).drop_last() =~= s.take(i));
    assert(s.take(i + 1).last() == s[i]);
}

/// Builds the Internal variant's name for a traced procedure.
pub fn internal_name(n: &String) -> (r: String)
    ensures
        r@ == internal_name_v(n@),
{
    let mut r = n.clone();
    r.append("_internal");
    r
}

/// Builds the Root variant's name for a traced procedure.
pub fn root_name(n: &String) -> (r: String)
    ensures
        r@ == root_name_v(n@),
{
    let mut r = n.clone();
    r.append("_root");
    r
}

/// Rewrites one expression: every call or method call whose target name is
/// in `targets` is redirected to the target's Internal variant, with the
/// trace context `ctx` appended as the final argument; non-target calls are
/// left untouched. The rewrite reaches every nested expression.
pub fn rewrite_expr(targets: &Vec<String>, ctx: &String, e: &Expr) -> (r: Expr)
    ensures
        r.deep_view() == rewrite_expr_v(targets.deep_view(), ctx@, e.deep_view()),
    decreases *e,
{
    let ghost tv = targets.deep_view();
    let ghost cv = ctx@;
    match e {
        Expr::Lit(n) => Expr::Lit(*n),
        Expr::StrLit(s) => Expr::StrLit(s.clone()),
        Expr::PathRef(p) => Expr::PathRef(clone_path(p)),
        Expr::Call { func, args } => {
            let rargs = rewrite_exprs(targets, ctx, args);
            let n = func.segments.len();
            if n > 0 && name_in_list(targets, &func.segments[n - 1]) {
                proof {
                    assert(func@[n - 1] == func.segments@[n - 1]@);
                    assert(func@.last() == func.segments@[n - 1]@);
                }
                let mut new_func = clone_path(func);
                let new_last = internal_name(&func.segments[n - 1]);
                new_func.segments.set(n - 1, new_last);
                let mut rargs = rargs;
                let ghost pre = rargs@;
                let ctxe = path_ref1(ctx);
                rargs.push(ctxe);
                let r = Expr::Call { func: new_func, args: rargs };
                proof {
                    assert(new_func@ =~= func@.update(
                        func@.len() - 1,
                        internal_name_v(func@.last()),
                    ));
                    assert(rargs@.drop_last() =~= pre);
                    assert(exprs_dv(rargs@) == exprs_dv(pre).push(ExprV::PathRef(seq![cv])));
                }
                r
            } else {
                proof {
                    if n > 0 {
                        assert(func@.last() == func.segments@[n - 1]@);
                    } else {
                        assert(func@.len() == 0);
                    }
                }
                Expr::Call { func: clone_path(func), args: rargs }
            }
        },
        Expr::MethodCall { recv, method, args } => {
            let rrecv = rewrite_expr(targets, ctx, &**recv);
            let rargs = rewrite_exprs(targets, ctx, args);
            if name_in_list(targets, method) {
                let mut rargs = rargs;
                let ghost pre = rargs@;
                let ctxe = path_ref1(ctx);
                rargs.push(ctxe);
                let r = Expr::MethodCall {
                    recv: Box::new(rrecv),
                    method: internal_name(method),
                    args: rargs,
                };
                proof {
                    assert(rargs@.drop_last() =~= pre);
                    assert(exprs_dv(rargs@) == exprs_dv(pre).push(ExprV::PathRef(seq![cv])));
                }
                r
            } else {
                Expr::MethodCall { recv: Box::new(rrecv), method: method.clone(), args: rargs }
            }
        },
        Expr::Ref(inner) => Expr::Ref(Box::new(rewrite_expr(targets, ctx, &**inner))),
        Expr::Field { base, field } => Expr::Field {
            base: Box::new(rewrite_expr(targets, ctx, &**base)),
            field: field.clone(),
        },
        Expr::Binary { op, lhs, rhs } => Expr::Binary {
            op: *op,
            lhs: Box::new(rewrite_expr(targets, ctx, &**lhs)),
            rhs: Box::new(rewrite_expr(targets, ctx, &**rhs)),
        },
        Expr::Struct { path, fields } => Expr::Struct {
            path: clone_path(path),
            fields: rewrite_fvs(targets, ctx, fields),
        },
        Expr::ClosureCall { body } => Expr::ClosureCall { body: rewrite_block(targets, ctx, body) },
    }
}

/// Rewrites each element of an argument list.
pub fn rewrite_exprs(targets: &Vec<String>, ctx: &String, es: &Vec<Expr>) -> (r: Vec<Expr>)
    ensures
        exprs_dv(r@) == rewrite_exprs_v(targets.deep_view(), ctx@, exprs_dv(es@)),
    decreases es@,
{
    let ghost tv = targets.deep_view();
    let ghost cv = ctx@;
    let mut r: Vec<Expr> = Vec::new();
    let mut i: usize = 0;
    proof {
        lemma_exprs_dv(es@);
    }
    while i < es.len()
        invariant
            0 <= i <= es@.len(),
            exprs_dv(es@).len() == es@.len(),
            forall|j: int| 0 <= j < es@.len() ==> exprs_dv(es@)[j] == es@[j].deep_view(),
            exprs_dv(r@) == rewrite_exprs_v(tv, cv, exprs_dv(es@).take(i as int)),
            tv == targets.deep_view(),
            cv == ctx@,
        decreases es@.len() - i,
    {
        let re = rewrite_expr(targets, ctx, &es[i]);
        proof {
            lemma_rewrite_exprs_v_take(tv, cv, exprs_dv(es@), i as int);
            assert(r@.push(re).drop_last() =~= r@);
        }
        r.push(re);
        i += 1;
    }
    proof {
        assert(exprs_dv(es@).take(es@.len() as int) =~= exprs_dv(es@));
    }
    r
}

/// Rewrites each struct field's value.
pub fn rewrite_fvs(targets: &Vec<String>, ctx: &String, fs: &Vec<FieldValue>) -> (r: Vec<
    FieldValue,
>)
    ensures
        field_values_dv(r@) == rewrite_fvs_v(targets.deep_view(), ctx@, field_values_dv(fs@)),
    decreases fs@,
{
    let ghost tv = targets.deep_view();
    let ghost cv = ctx@;
    let mut r: Vec<FieldValue> = Vec::new();
    let mut i: usize = 0;
    proof {
        lemma_field_values_dv(fs@);
    }
    while i < fs.len()
        invariant
            0 <= i <= fs@.len(),
            field_values_dv(fs@).len() == fs@.len(),
            forall|j: int| 0 <= j < fs@.len() ==> field_values_dv(fs@)[j] == fs@[j].deep_view(),
            field_values_dv(r@) == rewrite_fvs_v(tv, cv, field_values_dv(fs@).take(i as int)),
            tv == targets.deep_view(),
            cv == ctx@,
        decreases fs@.len() - i,
    {
        let fv = &fs[i];
        let rv = rewrite_expr(targets, ctx, &fv.value);
        let nfv = FieldValue { name: fv.name.clone(), value: rv };
        proof {
            lemma_rewrite_fvs_v_take(tv, cv, field_values_dv(fs@), i as int);
            assert(r@.push(nfv).drop_last() =~= r@);
            assert(fs@[i as int].deep_view() == (FieldValueV {
                name: fs@[i as int].name@,
                value: fs@[i as int].value.deep_view(),
            }));
            assert(nfv.deep_view() == (FieldValueV {
                name: fs@[i as int].name@,
                value: rv.deep_view(),
            }));
        }
        r.push(nfv);
        i += 1;
    }
    proof {
        assert(field_values_dv(fs@).take(fs@.len() as int) =~= field_values_dv(fs@));
    }
    r
}

/// Rewrites one statement.
pub fn rewrite_stmt(targets: &Vec<String>, ctx: &String, s: &Stmt) -> (r: Stmt)
    ensures
        r.deep_view() == rewrite_stmt_v(targets.deep_view(), ctx@, s.deep_view()),
    decreases *s,
{
    match s {
        Stmt::Local { pat, init } => Stmt::Local {
            pat: clone_pat(pat),
            init: rewrite_expr(targets, ctx, init),
        },
        Stmt::Semi(e) => Stmt::Semi(rewrite_expr(targets, ctx, e)),
        Stmt::Expr(e) => Stmt::Expr(rewrite_expr(targets, ctx, e)),
        Stmt::Assert(e) => Stmt::Assert(rewrite_expr(targets, ctx, e)),
        Stmt::AssertEq { lhs, rhs } => Stmt::AssertEq {
            lhs: rewrite_expr(targets, ctx, lhs),
            rhs: rewrite_expr(targets, ctx, rhs),
        },
    }
}

/// Rewrites a whole body, reaching every nested expression.
pub fn rewrite_block(targets: &Vec<String>, ctx: &String, b: &Block) -> (r: Block)
    ensures
        r.deep_view() == rewrite_block_v(targets.deep_view(), ctx@, b.deep_view()),
    decreases *b,
{
    let ghost tv = targets.deep_view();
    let ghost cv = ctx@;
    let mut stmts: Vec<Stmt> = Vec::new();
    let mut i: usize = 0;
    proof {
        lemma_stmts_dv(b.stmts@);
    }
    while i < b.stmts.len()
        invariant
            0 <= i <= b.stmts@.len(),
            stmts_dv(b.stmts@).len() == b.stmts@.len(),
            forall|j: int| 0 <= j < b.stmts@.len() ==> stmts_dv(b.stmts@)[j] == b.stmts@[j].deep_view(),
            stmts_dv(stmts@) == rewrite_stmts_v(tv, cv, stmts_dv(b.stmts@).take(i as int)),
            tv == targets.deep_view(),
            cv == ctx@,
        decreases b.stmts@.len() - i,
    {
        let rs = rewrite_stmt(targets, ctx, &b.stmts[i]);
        proof {
            lemma_rewrite_stmts_v_take(tv, cv, stmts_dv(b.stmts@), i as int);
            assert(stmts@.push(rs).drop_last() =~= stmts@);
        }
        stmts.push(rs);
        i += 1;
    }
    proof {
        assert(stmts_dv(b.stmts@).take(b.stmts@.len() as int) =~= stmts_dv(b.stmts@));
    }
    Block { stmts }
}

/// Builds a string-literal expression from a name.
pub(crate) fn str_lit_expr(s: &String) -> (r: Expr)
    ensures
        r.deep_view() == ExprV::StrLit(s@),
{
    Expr::StrLit(s.clone())
}

/// Builds a method-call expression.
pub(crate) fn method_call(recv: Expr, m: &str, args: Vec<Expr>) -> (r: Expr)
    ensures
        r.deep_view() == (ExprV::MethodCall {
            recv: Box::new(recv.deep_view()),
            method: m@,
            args: exprs_dv(args@),
        }),
{
    Expr::MethodCall { recv: Box::new(recv), method: String::from_str(m), args }
}

/// Builds a `let name = init;` statement.
pub(crate) fn local_stmt(name: String, init: Expr) -> (r: Stmt)
    ensures
        r.deep_view() == (StmtV::Local { pat: PatV::Ident(name@), init: init.deep_view() }),
{
    Stmt::Local { pat: Pat::Ident(name), init }
}

/// The built-in default blacklist: the large shared structures that must
/// never be captured, always unioned with the user's list.
pub open spec fn default_blacklist_v() -> Seq<PathV> {
    seq![seq!["Env"@], seq!["Cache"@], seq!["CheckerCtx"@]]
}

/// Builds the default blacklist.
pub fn default_blacklist() -> (r: Vec<PathDef>)
    ensures
        r.deep_view() == default_blacklist_v(),
{
    let mut r: Vec<PathDef> = Vec::new();
    r.push(path_of_one("Env"));
    r.push(path_of_one("Cache"));
    r.push(path_of_one("CheckerCtx"));
    proof {
        assert(r.deep_view() =~= default_blacklist_v());
    }
    r
}

/// Whether one parameter is captured: its type resolves, the resolved named
/// type is not blacklisted, and it is not `self` unless self-capture is on.
pub open spec fn param_captured_v(p: ParamV, blacklist: Seq<PathV>, capture_self: bool) -> bool {
    match resolve_collectible_v(p.ty) {
        Ok((path, mode)) => !blacklist.contains(path) && (capture_self || p.name != "self"@),
        Err(_) => false,
    }
}

/// The parameters the generated variants capture, in declaration order.
pub open spec fn captured_params_v(
    params: Seq<ParamV>,
    blacklist: Seq<PathV>,
    capture_self: bool,
) -> Seq<ParamV>
    decreases params,
{
    if params.len() == 0 {
        Seq::empty()
    } else {
        let pre = captured_params_v(params.drop_last(), blacklist, capture_self);
        if param_captured_v(params.last(), blacklist, capture_self) {
            pre.push(params.last())
        } else {
            pre
        }
    }
}

/// The expression whose value is stored for one captured parameter: the
/// value cloned, or — for an iterator of references — eagerly collected
/// into an owned sequence first, so the captured value outlives the call.
pub open spec fn capture_expr_v(p: ParamV) -> ExprV {
    match resolve_collectible_v(p.ty) {
        Ok((path, mode)) => if mode == CaptureMode::Collect {
            ExprV::MethodCall {
                recv: Box::new(
                    ExprV::MethodCall {
                        recv: Box::new(ExprV::PathRef(seq![p.name])),
                        method: "cloned"@,
                        args: Seq::empty(),
                    },
                ),
                method: "collect"@,
                args: Seq::empty(),
            }
        } else {
            ExprV::MethodCall {
                recv: Box::new(ExprV::PathRef(seq![p.name])),
                method: "clone"@,
                args: Seq::empty(),
            }
        },
        Err(_) => ExprV::PathRef(seq![p.name]),
    }
}

/// The two statements that capture one parameter: store its value in the
/// arena, then record the returned index as an argument of the op bound to
/// `op_var`.
pub open spec fn capture_pair_v(p: ParamV, op_var: Seq<char>) -> Seq<StmtV> {
    seq![
        StmtV::Local {
            pat: PatV::Ident(p.name + "_item"@),
            init: ExprV::MethodCall {
                recv: Box::new(ExprV::PathRef(seq![ctx_name_v()])),
                method: "insert_item"@,
                args: seq![capture_expr_v(p)],
            },
        },
        StmtV::Semi(
            ExprV::MethodCall {
                recv: Box::new(ExprV::PathRef(seq![ctx_name_v()])),
                method: "push_arg"@,
                args: seq![
                    ExprV::PathRef(seq![op_var]),
                    ExprV::PathRef(seq![p.name + "_item"@]),
                ],
            },
        ),
    ]
}

/// All capture statements of a variant, two per captured parameter.
pub open spec fn capture_pairs_v(ps: Seq<ParamV>, op_var: Seq<char>) -> Seq<StmtV>
    decreases ps,
{
    if ps.len() == 0 {
        Seq::empty()
    } else {
        capture_pairs_v(ps.drop_last(), op_var) + capture_pair_v(ps.last(), op_var)
    }
}

/// The first configuration error among the parameters, if any: the error of
/// the earliest parameter whose type does not resolve.
pub open spec fn first_param_error_v(params: Seq<ParamV>) -> Option<TransformError>
    decreases params,
{
    if params.len() == 0 {
        None
    } else {
        match resolve_collectible_v(params.first().ty) {
            Ok(_) => first_param_error_v(params.drop_first()),
            Err(e) => Some(e),
        }
    }
}

/// If every parameter before `i` resolves and parameter `i` does not, the
/// first parameter error is parameter `i`'s.
proof fn lemma_first_param_error_at(params: Seq<ParamV>, i: int, e: TransformError)
    requires
        0 <= i < params.len(),
        forall|j: int| 0 <= j < i ==> resolve_collectible_v(#[trigger] params[j].ty) is Ok,
        resolve_collectible_v(params[i].ty) == Err::<(PathV, CaptureMode), _>(e),
    ensures
        first_param_error_v(params) == Some(e),
    decreases i,
{
    if i == 0 {
    } else {
        lemma_first_param_error_at(params.drop_first(), i - 1, e);
    }
}

/// If every parameter resolves, there is no first parameter error.
proof fn lemma_first_param_error_none(params: Seq<ParamV>)
    requires
        forall|j: int| 0 <= j < params.len() ==> resolve_collectible_v(
            #[trigger] params[j].ty,
        ) is Ok,
    ensures
        first_param_error_v(params) is None,
    decreases params,
{
    if params.len() > 0 {
        lemma_first_param_error_none(params.drop_first());
    }
}

/// One step of the captured-parameter filter, over a prefix.
proof fn lemma_captured_params_v_take(
    params: Seq<ParamV>,
    blacklist: Seq<PathV>,
    capture_self: bool,
    i: int,
)
    requires
        0 <= i < params.len(),
    ensures
        captured_params_v(params.take(i + 1), blacklist, capture_self) == if param_captured_v(
            params[i],
            blacklist,
            capture_self,
        ) {
            captured_params_v(params.take(i), blacklist, capture_self).push(params[i])
        } else {
            captured_params_v(params.take(i), blacklist, capture_self)
        },
{
    assert(params.take(i + 1).drop_last() =~= params.take(i));
    assert(params.take(i + 1).last() == params[i]);
}

/// One step of the capture-statement generation, over a prefix.
proof fn lemma_capture_pairs_v_push(ps: Seq<ParamV>, p: ParamV, op_var: Seq<char>)
    ensures
        capture_pairs_v(ps.push(p), op_var) == capture_pairs_v(ps, op_var) + capture_pair_v(
            p,
            op_var,
        ),
{
    assert(ps.push(p).drop_last() =~= ps);
    assert(ps.push(p).last() == p);
}

/// Generates the capture statements for the captured parameters, two per
/// parameter, naming `op_var` as the op that receives the argument indices.
fn capture_stmts(
    params: &Vec<Param>,
    blacklist: &Vec<PathDef>,
    capture_self: bool,
    op_var: &str,
) -> (r: Vec<Stmt>)
    ensures
        stmts_dv(r@) == capture_pairs_v(
            captured_params_v(params_dv(params@), blacklist.deep_view(), capture_self),
            op_var@,
        ),
{
    let ghost pv = params_dv(params@);
    let ghost bv = blacklist.deep_view();
    let mut r: Vec<Stmt> = Vec::new();
    let mut i: usize = 0;
    proof {
        lemma_params_dv(params@);
        assert(pv.take(0) =~= Seq::<ParamV>::empty());
    }
    while i < params.len()
        invariant
            0 <= i <= params@.len(),
            pv == params_dv(params@),
            bv == blacklist.deep_view(),
            pv.len() == params@.len(),
            forall|j: int| 0 <= j < params@.len() ==> pv[j] == params@[j].deep_view(),
            stmts_dv(r@) == capture_pairs_v(
                captured_params_v(pv.take(i as int), bv, capture_self),
                op_var@,
            ),
        decreases params@.len() - i,
    {
        let p = &params[i];
        let ghost pview = pv[i as int];
        proof {
            lemma_captured_params_v_take(pv, bv, capture_self, i as int);
            assert(pview == (ParamV { name: params@[i as int].name@, ty: params@[i as int].ty.deep_view() }));
        }
        let captured: bool = match resolve_collectible(&p.ty) {
            Ok((path, mode)) => !path_in_list(blacklist, path) && (capture_self || !str_is(
                &p.name,
                "self",
            )),
            Err(_) => false,
        };
        proof {
            assert(captured == param_captured_v(pview, bv, capture_self));
        }
        if captured {
            let mode = match resolve_collectible(&p.ty) {
                Ok((path, mode)) => mode,
                Err(_) => CaptureMode::Direct,
            };
            let cap_expr: Expr = if mode == CaptureMode::Collect {
                let inner = method_call(path_ref1(&p.name), "cloned", Vec::new());
                method_call(inner, "collect", Vec::new())
            } else {
                method_call(path_ref1(&p.name), "clone", Vec::new())
            };
            proof {
                assert(exprs_dv(Seq::<Expr>::empty()) =~= Seq::<ExprV>::empty());
                assert(cap_expr.deep_view() == capture_expr_v(pview));
            }
            let item_name = p.name.clone().concat("_item");
            let mut insert_args: Vec<Expr> = Vec::new();
            insert_args.push(cap_expr);
            let s1 = local_stmt(
                item_name,
                method_call(path_ref1_str("___tracer"), "insert_item", insert_args),
            );
            let mut push_args: Vec<Expr> = Vec::new();
            push_args.push(path_ref1_str(op_var));
            let op_item = p.name.clone().concat("_item");
            push_args.push(path_ref1(&op_item));
            let s2 = Stmt::Semi(method_call(path_ref1_str("___tracer"), "push_arg", push_args));
            let ghost pre = r@;
            r.push(s1);
            proof {
                assert(r@.drop_last() =~= pre);
                assert(stmts_dv(r@) == stmts_dv(pre).push(s1.deep_view()));
            }
            let ghost pre2 = r@;
            r.push(s2);
            proof {
                assert(r@.drop_last() =~= pre2);
                assert(stmts_dv(r@) == stmts_dv(pre2).push(s2.deep_view()));
                lemma_capture_pairs_v_push(
                    captured_params_v(pv.take(i as int), bv, capture_self),
                    pview,
                    op_var@,
                );
                lemma_exprs_dv(insert_args@);
                assert(exprs_dv(insert_args@) =~= seq![capture_expr_v(pview)]);
                lemma_exprs_dv(push_args@);
                assert(exprs_dv(push_args@) =~= seq![
                    ExprV::PathRef(seq![op_var@]),
                    ExprV::PathRef(seq![pview.name + "_item"@]),
                ]);
                assert(s1.deep_view() == capture_pair_v(pview, op_var@)[0]);
                assert(s2.deep_view() == capture_pair_v(pview, op_var@)[1]);
                assert(stmts_dv(r@) =~= capture_pairs_v(
                    captured_params_v(pv.take(i + 1 as int), bv, capture_self),
                    op_var@,
                ));
            }
        }
        i += 1;
    }
    proof {
        assert(pv.take(pv.len() as int) =~= pv);
    }
    r
}

/// Builds a path-reference expression on one dynamic segment.
pub(crate) fn path_ref1(name: &String) -> (r: Expr)
    ensures
        r.deep_view() == ExprV::PathRef(seq![name@]),
{
    let mut segments: Vec<String> = Vec::new();
    segments.push(name.clone());
    let p = PathDef { segments };
    proof {
        assert(p@ =~= seq![name@]);
    }
    Expr::PathRef(p)
}

/// Builds a path-reference expression on one literal segment.
pub(crate) fn path_ref1_str(name: &str) -> (r: Expr)
    ensures
        r.deep_view() == ExprV::PathRef(seq![name@]),
{
    Expr::PathRef(path_of_one(name))
}

/// Name of the op binding in generated variant bodies.
pub open spec fn op_name_v() -> Seq<char> {
    "___op"@
}

/// Name of the result binding in generated variant bodies.
pub open spec fn result_name_v() -> Seq<char> {
    "result____"@
}

/// The Root variant's opening statements: create a fresh trace and open a
/// root op named after the procedure.
pub open spec fn root_prologue_v(name: Seq<char>) -> Seq<StmtV> {
    seq![
        StmtV::Local {
            pat: PatV::Ident(ctx_name_v()),
            init: ExprV::Call { func: seq!["TraceData"@, "new"@], args: Seq::empty() },
        },
        StmtV::Local {
            pat: PatV::Ident(op_name_v()),
            init: ExprV::MethodCall {
                recv: Box::new(ExprV::PathRef(seq![ctx_name_v()])),
                method: "new_root_op"@,
                args: seq![ExprV::StrLit(name)],
            },
        },
    ]
}

/// The Root variant's closing statements: run the original body as an
/// immediately invoked closure with its internal calls rewritten, record
/// the result, check the current-parent stack is balanced again, and return
/// the result unchanged.
pub open spec fn root_tail_v(proc: ProcDefV, targets: Seq<Seq<char>>) -> Seq<StmtV> {
    seq![
        StmtV::Local {
            pat: PatV::Ident(result_name_v()),
            init: ExprV::ClosureCall { body: rewrite_block_v(targets, ctx_name_v(), proc.body) },
        },
        StmtV::Semi(
            ExprV::MethodCall {
                recv: Box::new(ExprV::PathRef(seq![ctx_name_v()])),
                method: "end_root"@,
                args: seq![
                    ExprV::PathRef(seq![op_name_v()]),
                    ExprV::PathRef(seq![result_name_v()]),
                ],
            },
        ),
        StmtV::AssertEq {
            lhs: ExprV::MethodCall {
                recv: Box::new(ExprV::PathRef(seq![ctx_name_v()])),
                method: "stack_len"@,
                args: Seq::empty(),
            },
            rhs: ExprV::Lit(0),
        },
        StmtV::Expr(ExprV::PathRef(seq![result_name_v()])),
    ]
}

/// The Root variant's whole body: prologue, argument captures, tail.
pub open spec fn root_body_v(
    proc: ProcDefV,
    targets: Seq<Seq<char>>,
    blacklist: Seq<PathV>,
    capture_self: bool,
) -> Seq<StmtV> {
    root_prologue_v(proc.name) + capture_pairs_v(
        captured_params_v(proc.params, blacklist, capture_self),
        op_name_v(),
    ) + root_tail_v(proc, targets)
}

/// The Root variant: same signature, instrumented body.
pub open spec fn root_variant_v(
    proc: ProcDefV,
    targets: Seq<Seq<char>>,
    blacklist: Seq<PathV>,
    capture_self: bool,
) -> ProcDefV {
    ProcDefV {
        name: root_name_v(proc.name),
        params: proc.params,
        ret: proc.ret,
        body: BlockV { stmts: root_body_v(proc, targets, blacklist, capture_self) },
    }
}

/// The Internal variant's opening statement: attach a new op under the
/// ambient current parent read from the threaded trace context.
pub open spec fn internal_prologue_v(name: Seq<char>) -> Seq<StmtV> {
    seq![
        StmtV::Local {
            pat: PatV::Ident(op_name_v()),
            init: ExprV::MethodCall {
                recv: Box::new(ExprV::PathRef(seq![ctx_name_v()])),
                method: "begin_internal"@,
                args: seq![ExprV::StrLit(name)],
            },
        },
    ]
}

/// The Internal variant's closing statements: run the rewritten body,
/// record the result, restore the previous current parent, and return the
/// result unchanged.
pub open spec fn internal_tail_v(proc: ProcDefV, targets: Seq<Seq<char>>) -> Seq<StmtV> {
    seq![
        StmtV::Local {
            pat: PatV::Ident(result_name_v()),
            init: ExprV::ClosureCall { body: rewrite_block_v(targets, ctx_name_v(), proc.body) },
        },
        StmtV::Semi(
            ExprV::MethodCall {
                recv: Box::new(ExprV::PathRef(seq![ctx_name_v()])),
                method: "end_internal"@,
                args: seq![
                    ExprV::PathRef(seq![op_name_v()]),
                    ExprV::PathRef(seq![result_name_v()]),
                ],
            },
        ),
        StmtV::Expr(ExprV::PathRef(seq![result_name_v()])),
    ]
}

/// The Internal variant's whole body: prologue, argument captures, tail.
pub open spec fn internal_body_v(
    proc: ProcDefV,
    targets: Seq<Seq<char>>,
    blacklist: Seq<PathV>,
    capture_self: bool,
) -> Seq<StmtV> {
    internal_prologue_v(proc.name) + capture_pairs_v(
        captured_params_v(proc.params, blacklist, capture_self),
        op_name_v(),
    ) + internal_tail_v(proc, targets)
}

/// The threaded trace-context parameter appended to the Internal variant.
pub open spec fn ctx_param_v() -> ParamV {
    ParamV { name: ctx_name_v(), ty: TyV::Ref(Box::new(TyV::Named(seq!["TraceData"@]))) }
}

/// The Internal variant: the original signature plus the trace-context
/// parameter, and the instrumented body.
pub open spec fn internal_variant_v(
    proc: ProcDefV,
    targets: Seq<Seq<char>>,
    blacklist: Seq<PathV>,
    capture_self: bool,
) -> ProcDefV {
    ProcDefV {
        name: internal_name_v(proc.name),
        params: proc.params.push(ctx_param_v()),
        ret: proc.ret,
        body: BlockV { stmts: internal_body_v(proc, targets, blacklist, capture_self) },
    }
}

/// A path made of two literal segments.
pub(crate) fn path_of_two(a: &str, b: &str) -> (r: PathDef)
    ensures
        r@ == seq![a@, b@],
{
    let mut segments: Vec<String> = Vec::new();
    segments.push(String::from_str(a));
    segments.push(String::from_str(b));
    let r = PathDef { segments };
    proof {
        assert(r@ =~= seq![a@, b@]);
    }
    r
}

/// Copies a parameter list.
pub(crate) fn clone_params(ps: &Vec<Param>) -> (r: Vec<Param>)
    ensures
        params_dv(r@) == params_dv(ps@),
{
    let mut r: Vec<Param> = Vec::new();
    let mut i: usize = 0;
    proof {
        lemma_params_dv(ps@);
    }
    while i < ps.len()
        invariant
            0 <= i <= ps@.len(),
            params_dv(ps@).len() == ps@.len(),
            forall|j: int| 0 <= j < ps@.len() ==> params_dv(ps@)[j] == ps@[j].deep_view(),
            params_dv(r@) == params_dv(ps@).take(i as int),
        decreases ps@.len() - i,
    {
        let np = Param { name: ps[i].name.clone(), ty: clone_ty(&ps[i].ty) };
        let ghost pre = r@;
        r.push(np);
        proof {
            assert(r@.drop_last() =~= pre);
            assert(params_dv(ps@).take(i + 1 as int).drop_last() =~= params_dv(ps@).take(
                i as int,
            ));
            assert(params_dv(ps@).take(i + 1 as int).last() == params_dv(ps@)[i as int]);
            assert(np.deep_view() == ps@[i as int].deep_view());
        }
        i += 1;
    }
    proof {
        assert(params_dv(ps@).take(ps@.len() as int) =~= params_dv(ps@));
    }
    r
}

/// Builds the Root variant of a procedure.
#[verifier::rlimit(50)]
fn build_root_variant(
    proc: &ProcDef,
    targets: &Vec<String>,
    blacklist: &Vec<PathDef>,
    capture_self: bool,
) -> (r: ProcDef)
    ensures
        r.deep_view() == root_variant_v(
            proc.deep_view(),
            targets.deep_view(),
            blacklist.deep_view(),
            capture_self,
        ),
{
    let ghost procv = proc.deep_view();
    let ghost tv = targets.deep_view();
    let ghost bv = blacklist.deep_view();
    let mut stmts: Vec<Stmt> = Vec::new();

    let s0 = local_stmt(
        String::from_str("___tracer"),
        Expr::Call { func: path_of_two("TraceData", "new"), args: Vec::new() },
    );
    let mut op_args: Vec<Expr> = Vec::new();
    op_args.push(str_lit_expr(&proc.name));
    let s1 = local_stmt(
        String::from_str("___op"),
        method_call(path_ref1_str("___tracer"), "new_root_op", op_args),
    );
    proof {
        assert(exprs_dv(Seq::<Expr>::empty()) =~= Seq::<ExprV>::empty());
        lemma_exprs_dv(op_args@);
        assert(exprs_dv(op_args@) =~= seq![ExprV::StrLit(procv.name)]);
        assert(s0.deep_view() == root_prologue_v(procv.name)[0]);
        assert(s1.deep_view() == root_prologue_v(procv.name)[1]);
    }
    let ghost e0 = stmts@;
    stmts.push(s0);
    proof {
        assert(stmts@.drop_last() =~= e0);
        assert(stmts_dv(stmts@) == stmts_dv(e0).push(s0.deep_view()));
    }
    let ghost e1 = stmts@;
    stmts.push(s1);
    proof {
        assert(stmts@.drop_last() =~= e1);
        assert(stmts_dv(stmts@) == stmts_dv(e1).push(s1.deep_view()));
        assert(stmts_dv(stmts@) =~= root_prologue_v(procv.name));
    }
    let ghost head = stmts@;
    let mut caps = capture_stmts(&proc.params, blacklist, capture_self, "___op");
    let ghost capsv = caps@;
    stmts.append(&mut caps);
    proof {
        crate::ast::lemma_stmts_dv_concat(head, capsv);
        assert(stmts_dv(stmts@) == root_prologue_v(procv.name) + capture_pairs_v(
            captured_params_v(procv.params, bv, capture_self),
            op_name_v(),
        ));
    }
    let ghost mid = stmts@;

    let mut tail: Vec<Stmt> = Vec::new();
    let body2 = rewrite_block(targets, &String::from_str("___tracer"), &proc.body);
    let s2 = local_stmt(String::from_str("result____"), Expr::ClosureCall { body: body2 });
    let mut end_args: Vec<Expr> = Vec::new();
    end_args.push(path_ref1_str("___op"));
    end_args.push(path_ref1_str("result____"));
    let s3 = Stmt::Semi(method_call(path_ref1_str("___tracer"), "end_root", end_args));
    let s4 = Stmt::AssertEq {
        lhs: method_call(path_ref1_str("___tracer"), "stack_len", Vec::new()),
        rhs: Expr::Lit(0),
    };
    let s5 = Stmt::Expr(path_ref1_str("result____"));
    proof {
        assert(exprs_dv(Seq::<Expr>::empty()) =~= Seq::<ExprV>::empty());
        lemma_exprs_dv(end_args@);
        assert(exprs_dv(end_args@) =~= seq![
            ExprV::PathRef(seq![op_name_v()]),
            ExprV::PathRef(seq![result_name_v()]),
        ]);
        assert(s2.deep_view() == root_tail_v(procv, tv)[0]);
        assert(s3.deep_view() == root_tail_v(procv, tv)[1]);
        assert(s4.deep_view() == root_tail_v(procv, tv)[2]);
        assert(s5.deep_view() == root_tail_v(procv, tv)[3]);
    }
    let ghost t0 = tail@;
    tail.push(s2);
    proof {
        assert(tail@.drop_last() =~= t0);
        assert(stmts_dv(tail@) == stmts_dv(t0).push(s2.deep_view()));
    }
    let ghost t1 = tail@;
    tail.push(s3);
    proof {
        assert(tail@.drop_last() =~= t1);
        assert(stmts_dv(tail@) == stmts_dv(t1).push(s3.deep_view()));
    }
    let ghost t2 = tail@;
    tail.push(s4);
    proof {
        assert(tail@.drop_last() =~= t2);
        assert(stmts_dv(tail@) == stmts_dv(t2).push(s4.deep_view()));
    }
    let ghost t3 = tail@;
    tail.push(s5);
    proof {
        assert(tail@.drop_last() =~= t3);
        assert(stmts_dv(tail@) == stmts_dv(t3).push(s5.deep_view()));
        assert(stmts_dv(tail@) =~= root_tail_v(procv, tv));
    }
    let ghost tailv = tail@;
    stmts.append(&mut tail);
    proof {
        crate::ast::lemma_stmts_dv_concat(mid, tailv);
        assert(stmts_dv(stmts@) =~= root_body_v(procv, tv, bv, capture_self));
    }
    let r = ProcDef {
        name: root_name(&proc.name),
        params: clone_params(&proc.params),
        ret: clone_ty(&proc.ret),
        body: Block { stmts },
    };
    proof {
        assert(r.deep_view() == root_variant_v(procv, tv, bv, capture_self));
    }
    r
}

/// Builds the Internal variant of a procedure.
#[verifier::rlimit(50)]
fn build_internal_variant(
    proc: &ProcDef,
    targets: &Vec<String>,
    blacklist: &Vec<PathDef>,
    capture_self: bool,
) -> (r: ProcDef)
    ensures
        r.deep_view() == internal_variant_v(
            proc.deep_view(),
            targets.deep_view(),
            blacklist.deep_view(),
            capture_self,
        ),
{
    let ghost procv = proc.deep_view();
    let ghost tv = targets.deep_view();
    let ghost bv = blacklist.deep_view();
    let mut stmts: Vec<Stmt> = Vec::new();

    let mut op_args: Vec<Expr> = Vec::new();
    op_args.push(str_lit_expr(&proc.name));
    let s0 = local_stmt(
        String::from_str("___op"),
        method_call(path_ref1_str("___tracer"), "begin_internal", op_args),
    );
    proof {
        lemma_exprs_dv(op_args@);
        assert(exprs_dv(op_args@) =~= seq![ExprV::StrLit(procv.name)]);
        assert(s0.deep_view() == internal_prologue_v(procv.name)[0]);
    }
    let ghost e0 = stmts@;
    stmts.push(s0);
    proof {
        assert(stmts@.drop_last() =~= e0);
        assert(stmts_dv(stmts@) == stmts_dv(e0).push(s0.deep_view()));
        assert(stmts_dv(stmts@) =~= internal_prologue_v(procv.name));
    }
    let ghost head = stmts@;
    let mut caps = capture_stmts(&proc.params, blacklist, capture_self, "___op");
    let ghost capsv = caps@;
    stmts.append(&mut caps);
    proof {
        crate::ast::lemma_stmts_dv_concat(head, capsv);
        assert(stmts_dv(stmts@) == internal_prologue_v(procv.name) + capture_pairs_v(
            captured_params_v(procv.params, bv, capture_self),
            op_name_v(),
        ));
    }
    let ghost mid = stmts@;

    let mut tail: Vec<Stmt> = Vec::new();
    let body2 = rewrite_block(targets, &String::from_str("___tracer"), &proc.body);
    let s2 = local_stmt(String::from_str("result____"), Expr::ClosureCall { body: body2 });
    let mut end_args: Vec<Expr> = Vec::new();
    end_args.push(path_ref1_str("___op"));
    end_args.push(path_ref1_str("result____"));
    let s3 = Stmt::Semi(method_call(path_ref1_str("___tracer"), "end_internal", end_args));
    let s4 = Stmt::Expr(path_ref1_str("result____"));
    proof {
        lemma_exprs_dv(end_args@);
        assert(exprs_dv(end_args@) =~= seq![
            ExprV::PathRef(seq![op_name_v()]),
            ExprV::PathRef(seq![result_name_v()]),
        ]);
        assert(s2.deep_view() == internal_tail_v(procv, tv)[0]);
        assert(s3.deep_view() == internal_tail_v(procv, tv)[1]);
        assert(s4.deep_view() == internal_tail_v(procv, tv)[2]);
    }
    let ghost t0 = tail@;
    tail.push(s2);
    proof {
        assert(tail@.drop_last() =~= t0);
        assert(stmts_dv(tail@) == stmts_dv(t0).push(s2.deep_view()));
    }
    let ghost t1 = tail@;
    tail.push(s3);
    proof {
        assert(tail@.drop_last() =~= t1);
        assert(stmts_dv(tail@) == stmts_dv(t1).push(s3.deep_view()));
    }
    let ghost t2 = tail@;
    tail.push(s4);
    proof {
        assert(tail@.drop_last() =~= t2);
        assert(stmts_dv(tail@) == stmts_dv(t2).push(s4.deep_view()));
        assert(stmts_dv(tail@) =~= internal_tail_v(procv, tv));
    }
    let ghost tailv = tail@;
    stmts.append(&mut tail);
    proof {
        crate::ast::lemma_stmts_dv_concat(mid, tailv);
        assert(stmts_dv(stmts@) =~= internal_body_v(procv, tv, bv, capture_self));
    }
    let mut params = clone_params(&proc.params);
    let ctx_param = Param {
        name: String::from_str("___tracer"),
        ty: Ty::Ref(Box::new(Ty::Named(path_of_one("TraceData")))),
    };
    proof {
        let inner_ty = ctx_param.ty;
        match inner_ty {
            Ty::Ref(b) => {
                assert((*b).deep_view() == TyV::Named(seq!["TraceData"@]));
            },
            _ => {},
        }
        assert(ctx_param.ty.deep_view() == TyV::Ref(Box::new(TyV::Named(seq!["TraceData"@]))));
        assert(ctx_param.deep_view() == ctx_param_v());
    }
    let ghost pre_params = params@;
    params.push(ctx_param);
    proof {
        assert(params@.drop_last() =~= pre_params);
        assert(params_dv(params@) == params_dv(pre_params).push(ctx_param_v()));
    }
    let r = ProcDef {
        name: internal_name(&proc.name),
        params,
        ret: clone_ty(&proc.ret),
        body: Block { stmts },
    };
    proof {
        assert(r.deep_view() == internal_variant_v(procv, tv, bv, capture_self));
    }
    r
}

/// Whether `n` is the Internal variant's name of some traced target.
pub open spec fn is_internal_of(targets: Seq<Seq<char>>, n: Seq<char>) -> bool {
    exists|t: Seq<char>| targets.contains(t) && n == internal_name_v(t)
}

/// No target name occurs among the targets' own Internal-variant names; a
/// configuration in which one traced name is another's Internal name would
/// make the routing of the two indistinguishable.
pub open spec fn targets_internal_free(targets: Seq<Seq<char>>) -> bool {
    forall|t: Seq<char>| targets.contains(t) ==> !targets.contains(#[trigger] internal_name_v(t))
}

/// No call site in the expression already invokes an Internal-variant name.
pub open spec fn no_internal_calls_expr_v(targets: Seq<Seq<char>>, e: ExprV) -> bool
    decreases e,
{
    match e {
        ExprV::Lit(_) => true,
        ExprV::StrLit(_) => true,
        ExprV::PathRef(_) => true,
        ExprV::Call { func, args } => (func.len() > 0 ==> !is_internal_of(targets, func.last()))
            && no_internal_calls_exprs_v(targets, args),
        ExprV::MethodCall { recv, method, args } => !is_internal_of(targets, method)
            && no_internal_calls_expr_v(targets, *recv) && no_internal_calls_exprs_v(targets, args),
        ExprV::Ref(inner) => no_internal_calls_expr_v(targets, *inner),
        ExprV::Field { base, field } => no_internal_calls_expr_v(targets, *base),
        ExprV::Binary { op, lhs, rhs } => no_internal_calls_expr_v(targets, *lhs)
            && no_internal_calls_expr_v(targets, *rhs),
        ExprV::Struct { path, fields } => no_internal_calls_fvs_v(targets, fields),
        ExprV::ClosureCall { body } => no_internal_calls_stmts_v(targets, body.stmts),
    }
}

pub open spec fn no_internal_calls_exprs_v(targets: Seq<Seq<char>>, es: Seq<ExprV>) -> bool
    decreases es,
{
    forall|i: int| 0 <= i < es.len() ==> no_internal_calls_expr_v(targets, #[trigger] es[i])
}

pub open spec fn no_internal_calls_fvs_v(targets: Seq<Seq<char>>, fs: Seq<FieldValueV>) -> bool
    decreases fs,
{
    forall|i: int| 0 <= i < fs.len() ==> no_internal_calls_expr_v(targets, #[trigger] fs[i].value)
}

pub open spec fn no_internal_calls_stmt_v(targets: Seq<Seq<char>>, s: StmtV) -> bool
    decreases s,
{
    match s {
        StmtV::Local { pat, init } => no_internal_calls_expr_v(targets, init),
        StmtV::Semi(e) => no_internal_calls_expr_v(targets, e),
        StmtV::Expr(e) => no_internal_calls_expr_v(targets, e),
        StmtV::Assert(e) => no_internal_calls_expr_v(targets, e),
        StmtV::AssertEq { lhs, rhs } => no_internal_calls_expr_v(targets, lhs)
            && no_internal_calls_expr_v(targets, rhs),
    }
}

pub open spec fn no_internal_calls_stmts_v(targets: Seq<Seq<char>>, ss: Seq<StmtV>) -> bool
    decreases ss,
{
    forall|i: int| 0 <= i < ss.len() ==> no_internal_calls_stmt_v(targets, #[trigger] ss[i])
}

/// Correct routing of a rewritten expression: no call site invokes a traced
/// target's plain (Root-capable) name any more, and every call site that
/// invokes a target's Internal variant carries the trace context as its
/// final argument.
pub open spec fn routed_expr_v(targets: Seq<Seq<char>>, ctx: Seq<char>, e: ExprV) -> bool
    decreases e,
{
    match e {
        ExprV::Lit(_) => true,
        ExprV::StrLit(_) => true,
        ExprV::PathRef(_) => true,
        ExprV::Call { func, args } => (func.len() > 0 ==> !targets.contains(func.last())) && (
        func.len() > 0 && is_internal_of(targets, func.last()) ==> args.len() > 0 && args.last()
            == ExprV::PathRef(seq![ctx])) && routed_exprs_v(targets, ctx, args),
        ExprV::MethodCall { recv, method, args } => !targets.contains(method) && (is_internal_of(
            targets,
            method,
        ) ==> args.len() > 0 && args.last() == ExprV::PathRef(seq![ctx])) && routed_expr_v(
            targets,
            ctx,
            *recv,
        ) && routed_exprs_v(targets, ctx, args),
        ExprV::Ref(inner) => routed_expr_v(targets, ctx, *inner),
        ExprV::Field { base, field } => routed_expr_v(targets, ctx, *base),
        ExprV::Binary { op, lhs, rhs } => routed_expr_v(targets, ctx, *lhs) && routed_expr_v(
            targets,
            ctx,
            *rhs,
        ),
        ExprV::Struct { path, fields } => routed_fvs_v(targets, ctx, fields),
        ExprV::ClosureCall { body } => routed_stmts_v(targets, ctx, body.stmts),
    }
}

pub open spec fn routed_exprs_v(targets: Seq<Seq<char>>, ctx: Seq<char>, es: Seq<ExprV>) -> bool
    decreases es,
{
    forall|i: int| 0 <= i < es.len() ==> routed_expr_v(targets, ctx, #[trigger] es[i])
}

pub open spec fn routed_fvs_v(targets: Seq<Seq<char>>, ctx: Seq<char>, fs: Seq<FieldValueV>) -> bool
    decreases fs,
{
    forall|i: int| 0 <= i < fs.len() ==> routed_expr_v(targets, ctx, #[trigger] fs[i].value)
}

pub open spec fn routed_stmt_v(targets: Seq<Seq<char>>, ctx: Seq<char>, s: StmtV) -> bool
    decreases s,
{
    match s {
        StmtV::Local { pat, init } => routed_expr_v(targets, ctx, init),
        StmtV::Semi(e) => routed_expr_v(targets, ctx, e),
        StmtV::Expr(e) => routed_expr_v(targets, ctx, e),
        StmtV::Assert(e) => routed_expr_v(targets, ctx, e),
        StmtV::AssertEq { lhs, rhs } => routed_expr_v(targets, ctx, lhs) && routed_expr_v(
            targets,
            ctx,
            rhs,
        ),
    }
}

pub open spec fn routed_stmts_v(targets: Seq<Seq<char>>, ctx: Seq<char>, ss: Seq<StmtV>) -> bool
    decreases ss,
{
    forall|i: int| 0 <= i < ss.len() ==> routed_stmt_v(targets, ctx, #[trigger] ss[i])
}

/// Call routing of the rewriting pass, on one expression: provided no
/// traced name is another target's Internal name and the original code does
/// not already call Internal names, the rewritten expression calls no
/// traced target's plain name — so never a Root variant — and every call it
/// makes to a target's Internal variant carries the trace context as its
/// final argument.
pub proof fn lemma_rewrite_routes_expr(targets: Seq<Seq<char>>, ctx: Seq<char>, e: ExprV)
    requires
        targets_internal_free(targets),
        no_internal_calls_expr_v(targets, e),
    ensures
        routed_expr_v(targets, ctx, rewrite_expr_v(targets, ctx, e)),
    decreases e,
{
    match e {
        ExprV::Lit(_) => {},
        ExprV::StrLit(_) => {},
        ExprV::PathRef(_) => {},
        ExprV::Call { func, args } => {
            lemma_rewrite_routes_exprs(targets, ctx, args);
            let rargs = rewrite_exprs_v(targets, ctx, args);
            if func.len() > 0 && targets.contains(func.last()) {
                let nfunc = func.update(func.len() - 1, internal_name_v(func.last()));
                assert(nfunc.last() == internal_name_v(func.last()));
                assert(!targets.contains(nfunc.last()));
                let nargs = rargs.push(ExprV::PathRef(seq![ctx]));
                assert(routed_exprs_v(targets, ctx, nargs)) by {
                    assert(forall|i: int|
                        0 <= i < rargs.len() ==> #[trigger] nargs[i] == rargs[i]);
                    assert(nargs[nargs.len() - 1] == ExprV::PathRef(seq![ctx]));
                }
            }
        },
        ExprV::MethodCall { recv, method, args } => {
            lemma_rewrite_routes_expr(targets, ctx, *recv);
            lemma_rewrite_routes_exprs(targets, ctx, args);
            let rargs = rewrite_exprs_v(targets, ctx, args);
            if targets.contains(method) {
                assert(!targets.contains(internal_name_v(method)));
                let nargs = rargs.push(ExprV::PathRef(seq![ctx]));
                assert(routed_exprs_v(targets, ctx, nargs)) by {
                    assert(forall|i: int|
                        0 <= i < rargs.len() ==> #[trigger] nargs[i] == rargs[i]);
                    assert(nargs[nargs.len() - 1] == ExprV::PathRef(seq![ctx]));
                }
            }
        },
        ExprV::Ref(inner) => {
            lemma_rewrite_routes_expr(targets, ctx, *inner);
        },
        ExprV::Field { base, field } => {
            lemma_rewrite_routes_expr(targets, ctx, *base);
        },
        ExprV::Binary { op, lhs, rhs } => {
            lemma_rewrite_routes_expr(targets, ctx, *lhs);
            lemma_rewrite_routes_expr(targets, ctx, *rhs);
        },
        ExprV::Struct { path, fields } => {
            lemma_rewrite_routes_fvs(targets, ctx, fields);
        },
        ExprV::ClosureCall { body } => {
            lemma_rewrite_routes_stmts(targets, ctx, body.stmts);
            assert(rewrite_block_v(targets, ctx, body).stmts == rewrite_stmts_v(
                targets,
                ctx,
                body.stmts,
            ));
        },
    }
}

/// Call routing, elementwise on an argument sequence.
proof fn lemma_rewrite_routes_exprs(targets: Seq<Seq<char>>, ctx: Seq<char>, es: Seq<ExprV>)
    requires
        targets_internal_free(targets),
        no_internal_calls_exprs_v(targets, es),
    ensures
        routed_exprs_v(targets, ctx, rewrite_exprs_v(targets, ctx, es)),
        rewrite_exprs_v(targets, ctx, es).len() == es.len(),
    decreases es,
{
    if es.len() > 0 {
        lemma_rewrite_routes_exprs(targets, ctx, es.drop_last());
        lemma_rewrite_routes_expr(targets, ctx, es.last());
        let r = rewrite_exprs_v(targets, ctx, es);
        let pre = rewrite_exprs_v(targets, ctx, es.drop_last());
        assert forall|i: int| 0 <= i < r.len() implies routed_expr_v(
            targets,
            ctx,
            #[trigger] r[i],
        ) by {
            if i < r.len() - 1 {
                assert(r[i] == pre[i]);
            } else {
                assert(r[i] == rewrite_expr_v(targets, ctx, es.last()));
            }
        }
    }
}

/// Call routing, elementwise on struct fields.
proof fn lemma_rewrite_routes_fvs(targets: Seq<Seq<char>>, ctx: Seq<char>, fs: Seq<FieldValueV>)
    requires
        targets_internal_free(targets),
        no_internal_calls_fvs_v(targets, fs),
    ensures
        routed_fvs_v(targets, ctx, rewrite_fvs_v(targets, ctx, fs)),
        rewrite_fvs_v(targets, ctx, fs).len() == fs.len(),
    decreases fs,
{
    if fs.len() > 0 {
        lemma_rewrite_routes_fvs(targets, ctx, fs.drop_last());
        lemma_rewrite_routes_expr(targets, ctx, fs.last().value);
        let r = rewrite_fvs_v(targets, ctx, fs);
        let pre = rewrite_fvs_v(targets, ctx, fs.drop_last());
        assert forall|i: int| 0 <= i < r.len() implies routed_expr_v(
            targets,
            ctx,
            #[trigger] r[i].value,
        ) by {
            if i < r.len() - 1 {
                assert(r[i] == pre[i]);
            } else {
                assert(r[i].value == rewrite_expr_v(targets, ctx, fs.last().value));
            }
        }
    }
}

/// Call routing, on one statement.
proof fn lemma_rewrite_routes_stmt(targets: Seq<Seq<char>>, ctx: Seq<char>, s: StmtV)
    requires
        targets_internal_free(targets),
        no_internal_calls_stmt_v(targets, s),
    ensures
        routed_stmt_v(targets, ctx, rewrite_stmt_v(targets, ctx, s)),
    decreases s,
{
    match s {
        StmtV::Local { pat, init } => {
            lemma_rewrite_routes_expr(targets, ctx, init);
        },
        StmtV::Semi(e) => {
            lemma_rewrite_routes_expr(targets, ctx, e);
        },
        StmtV::Expr(e) => {
            lemma_rewrite_routes_expr(targets, ctx, e);
        },
        StmtV::Assert(e) => {
            lemma_rewrite_routes_expr(targets, ctx, e);
        },
        StmtV::AssertEq { lhs, rhs } => {
            lemma_rewrite_routes_expr(targets, ctx, lhs);
            lemma_rewrite_routes_expr(targets, ctx, rhs);
        },
    }
}

/// Call routing, elementwise on a statement sequence.
proof fn lemma_rewrite_routes_stmts(targets: Seq<Seq<char>>, ctx: Seq<char>, ss: Seq<StmtV>)
    requires
        targets_internal_free(targets),
        no_internal_calls_stmts_v(targets, ss),
    ensures
        routed_stmts_v(targets, ctx, rewrite_stmts_v(targets, ctx, ss)),
        rewrite_stmts_v(targets, ctx, ss).len() == ss.len(),
    decreases ss,
{
    if ss.len() > 0 {
        lemma_rewrite_routes_stmts(targets, ctx, ss.drop_last());
        lemma_rewrite_routes_stmt(targets, ctx, ss.last());
        let r = rewrite_stmts_v(targets, ctx, ss);
        let pre = rewrite_stmts_v(targets, ctx, ss.drop_last());
        assert forall|i: int| 0 <= i < r.len() implies routed_stmt_v(
            targets,
            ctx,
            #[trigger] r[i],
        ) by {
            if i < r.len() - 1 {
                assert(r[i] == pre[i]);
            } else {
                assert(r[i] == rewrite_stmt_v(targets, ctx, ss.last()));
            }
        }
    }
}

/// Call routing of a whole rewritten body: between traced procedures, every
/// generated call site goes to the callee's Internal variant with the trace
/// context appended, and never to its plain (Root-capable) name.
pub proof fn lemma_rewrite_routes_block(targets: Seq<Seq<char>>, ctx: Seq<char>, b: BlockV)
    requires
        targets_internal_free(targets),
        no_internal_calls_stmts_v(targets, b.stmts),
    ensures
        routed_stmts_v(targets, ctx, rewrite_block_v(targets, ctx, b).stmts),
{
    lemma_rewrite_routes_stmts(targets, ctx, b.stmts);
}

/// No argument-capture statement is generated for a blacklisted parameter:
/// a parameter whose resolved type is in the blacklist — or does not
/// resolve at all — is not among the captured parameters, from which alone
/// the capture statements are generated.
pub proof fn lemma_blacklisted_not_captured(
    params: Seq<ParamV>,
    blacklist: Seq<PathV>,
    capture_self: bool,
    i: int,
)
    requires
        0 <= i < params.len(),
        !param_captured_v(params[i], blacklist, capture_self),
    ensures
        !captured_params_v(params, blacklist, capture_self).contains(params[i]),
    decreases params,
{
    let p = params[i];
    if params.len() > 0 {
        let pre = captured_params_v(params.drop_last(), blacklist, capture_self);
        if i < params.len() - 1 {
            assert(params.drop_last()[i] == p);
            lemma_blacklisted_not_captured(params.drop_last(), blacklist, capture_self, i);
        } else {
            if pre.contains(p) {
                let w = choose|w: int| 0 <= w < pre.len() && pre[w] == p;
                lemma_captured_params_are_captured(
                    params.drop_last(),
                    blacklist,
                    capture_self,
                    w,
                );
                assert(false);
            }
        }
        if param_captured_v(params.last(), blacklist, capture_self) {
            let whole = pre.push(params.last());
            assert forall|j: int| 0 <= j < whole.len() implies whole[j] != p by {
                if j < whole.len() - 1 {
                    assert(whole[j] == pre[j]);
                    assert(pre.contains(pre[j]));
                } else {
                    assert(whole[j] == params.last());
                }
            }
        } else {
            assert forall|j: int| 0 <= j < pre.len() implies pre[j] != p by {
                assert(pre.contains(pre[j]));
            }
        }
    }
}

/// Every element of the captured-parameter list satisfies the capture
/// condition.
proof fn lemma_captured_params_are_captured(
    params: Seq<ParamV>,
    blacklist: Seq<PathV>,
    capture_self: bool,
    j: int,
)
    requires
        0 <= j < captured_params_v(params, blacklist, capture_self).len(),
    ensures
        param_captured_v(
            captured_params_v(params, blacklist, capture_self)[j],
            blacklist,
            capture_self,
        ),
    decreases params,
{
    if params.len() > 0 {
        let pre = captured_params_v(params.drop_last(), blacklist, capture_self);
        if j < pre.len() {
            lemma_captured_params_are_captured(params.drop_last(), blacklist, capture_self, j);
        }
    }
}

/// The configuration the transformer consumes: which procedure names are
/// traced, which named types must never be captured (always unioned with
/// the built-in defaults), and whether a `self` parameter is captured.
pub struct TraceConfig {
    pub targets: Vec<String>,
    pub blacklist: Vec<PathDef>,
    pub capture_self: bool,
}

/// The blacklist actually used: the built-in defaults unioned with the
/// user's list.
pub open spec fn full_blacklist_v(user: Seq<PathV>) -> Seq<PathV> {
    default_blacklist_v() + user
}

/// Produces the Root and the Internal variant of one procedure definition.
/// Fails, with no partial output, when the trace-target configuration is
/// empty or when some parameter's declared type cannot be resolved for
/// blacklist comparison; the error is the earliest parameter's.
pub fn instrument(proc: &ProcDef, cfg: &TraceConfig) -> (r: Result<
    (ProcDef, ProcDef),
    TransformError,
>)
    ensures
        r is Err <==> (cfg.targets@.len() == 0 || first_param_error_v(
            params_dv(proc.params@),
        ) is Some),
        cfg.targets@.len() == 0 ==> r == Err::<(ProcDef, ProcDef), _>(
            TransformError::EmptyTraceTargets,
        ),
        cfg.targets@.len() > 0 && first_param_error_v(params_dv(proc.params@)) is Some ==> r
            == Err::<(ProcDef, ProcDef), _>(
            first_param_error_v(params_dv(proc.params@)).unwrap(),
        ),
        r is Ok ==> r.unwrap().0.deep_view() == root_variant_v(
            proc.deep_view(),
            cfg.targets.deep_view(),
            full_blacklist_v(cfg.blacklist.deep_view()),
            cfg.capture_self,
        ),
        r is Ok ==> r.unwrap().1.deep_view() == internal_variant_v(
            proc.deep_view(),
            cfg.targets.deep_view(),
            full_blacklist_v(cfg.blacklist.deep_view()),
            cfg.capture_self,
        ),
{
    if cfg.targets.len() == 0 {
        return Err(TransformError::EmptyTraceTargets);
    }
    let ghost pv = params_dv(proc.params@);
    proof {
        lemma_params_dv(proc.params@);
    }
    let mut i: usize = 0;
    while i < proc.params.len()
        invariant
            cfg.targets@.len() > 0,
            0 <= i <= proc.params@.len(),
            pv == params_dv(proc.params@),
            pv.len() == proc.params@.len(),
            forall|j: int| 0 <= j < proc.params@.len() ==> pv[j] == proc.params@[j].deep_view(),
            forall|j: int| 0 <= j < i ==> resolve_collectible_v(#[trigger] pv[j].ty) is Ok,
        decreases proc.params@.len() - i,
    {
        match resolve_collectible(&proc.params[i].ty) {
            Ok(_) => {},
            Err(e) => {
                proof {
                    assert(pv[i as int].ty == proc.params@[i as int].ty.deep_view());
                    lemma_first_param_error_at(pv, i as int, e);
                }
                return Err(e);
            },
        }
        i += 1;
    }
    proof {
        lemma_first_param_error_none(pv);
    }
    let mut full_bl = default_blacklist();
    let mut j: usize = 0;
    while j < cfg.blacklist.len()
        invariant
            0 <= j <= cfg.blacklist@.len(),
            full_bl.deep_view() =~= default_blacklist_v() + cfg.blacklist.deep_view().take(
                j as int,
            ),
        decreases cfg.blacklist@.len() - j,
    {
        let p = clone_path(&cfg.blacklist[j]);
        let ghost pre = full_bl.deep_view();
        full_bl.push(p);
        proof {
            assert(full_bl.deep_view() =~= pre.push(cfg.blacklist.deep_view()[j as int]));
            assert(pre.push(cfg.blacklist.deep_view()[j as int]) =~= default_blacklist_v()
                + cfg.blacklist.deep_view().take(j + 1 as int));
        }
        j += 1;
    }
    proof {
        assert(cfg.blacklist.deep_view().take(cfg.blacklist@.len() as int) =~= cfg.blacklist.deep_view());
        assert(full_bl.deep_view() =~= full_blacklist_v(cfg.blacklist.deep_view()));
    }
    let root = build_root_variant(proc, &cfg.targets, &full_bl, cfg.capture_self);
    let internal = build_internal_variant(proc, &cfg.targets, &full_bl, cfg.capture_self);
    Ok((root, internal))
}

/// Copies a pattern.
pub fn clone_pat(p: &Pat) -> (r: Pat)
    ensures
        r.deep_view() == p.deep_view(),
{
    match p {
        Pat::Ident(n) => Pat::Ident(n.clone()),
        Pat::Typed { name, ty } => Pat::Typed { name: name.clone(), ty: clone_ty(ty) },
    }
}

/// Copies a declared type.
pub fn clone_ty(t: &Ty) -> (r: Ty)
    ensures
        r.deep_view() == t.deep_view(),
    decreases *t,
{
    match t {
        Ty::Named(p) => Ty::Named(clone_path(p)),
        Ty::Ref(inner) => Ty::Ref(Box::new(clone_ty(&**inner))),
        Ty::Slice(inner) => Ty::Slice(Box::new(clone_ty(&**inner))),
        Ty::ImplTrait { bound, item } => Ty::ImplTrait {
            bound: bound.clone(),
            item: match item {
                Some(it) => Some(Box::new(clone_ty(&**it))),
                None => None,
            },
        },
        Ty::Unit => Ty::Unit,
    }
}

} // verus!
