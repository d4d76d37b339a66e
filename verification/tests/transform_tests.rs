use optrace::ast::BinOp;
use optrace::ast::Block;
use optrace::ast::Expr;
use optrace::ast::Param;
use optrace::ast::Pat;
use optrace::ast::PathDef;
use optrace::ast::ProcDef;
use optrace::ast::Stmt;
use optrace::ast::Ty;
use optrace::attr::add_tracing_to_item_fn;
use optrace::attr::change_call_ident;
use optrace::attr::step_declar_add_type;
use optrace::attr::trace;
use optrace::attr::TraceAttr;
use optrace::config::parse_name_list;
use optrace::helpers::fold_with;
use optrace::helpers::snake_case_name;
use optrace::transform::default_blacklist;
use optrace::transform::instrument;
use optrace::transform::is_local_stmt;
use optrace::transform::resolve_collectible;
use optrace::transform::rewrite_expr;
use optrace::transform::type_is_step;
use optrace::transform::CaptureMode;
use optrace::transform::TraceConfig;
use optrace::transform::TransformError;

fn strv(s: &str) -> String {
    String::from(s)
}

fn path(segs: &[&str]) -> PathDef {
    PathDef { segments: segs.iter().map(|s| String::from(*s)).collect() }
}

fn var(name: &str) -> Expr {
    Expr::PathRef(path(&[name]))
}

fn call(name: &str, args: Vec<Expr>) -> Expr {
    Expr::Call { func: path(&[name]), args }
}

fn named_ty(name: &str) -> Ty {
    Ty::Named(path(&[name]))
}

#[test]
fn fold_with_appends() {
    let v = vec![1, 2];
    let v = fold_with(v, 3);
    assert_eq!(v, vec![1, 2, 3]);
}

#[test]
fn snake_case_examples() {
    assert_eq!(snake_case_name(&strv("EqCore")).as_str(), "eq_core");
    assert_eq!(snake_case_name(&strv("Whnf")).as_str(), "whnf");
    // An underscore is not lowercase, so a second separator is inserted
    // after a lowercase character; the original casing pass does the same.
    assert_eq!(snake_case_name(&strv("already_snake")).as_str(), "already__snake");
    assert_eq!(snake_case_name(&strv("XY")).as_str(), "x_y");
    assert_eq!(snake_case_name(&strv("AbCd")).as_str(), "ab_cd");
}

#[test]
fn step_type_spellings() {
    assert!(type_is_step(&Ty::Named(path(&["Step"]))));
    assert!(type_is_step(&Ty::Named(path(&["trace", "Step"]))));
    assert!(type_is_step(&Ty::Named(path(&["crate", "trace", "Step"]))));
    assert!(!type_is_step(&Ty::Named(path(&["Other"]))));
    assert!(!type_is_step(&Ty::Named(path(&["other", "Step"]))));
    assert!(!type_is_step(&Ty::Unit));
}

#[test]
fn local_stmt_shapes() {
    let local = Stmt::Local { pat: Pat::Ident(strv("x")), init: Expr::Lit(1) };
    assert!(is_local_stmt(&local));
    assert!(!is_local_stmt(&Stmt::Semi(Expr::Lit(1))));
}

#[test]
fn resolve_collectible_shapes() {
    assert_eq!(
        resolve_collectible(&named_ty("Expr")).map(|(p, m)| (p.segments[0].clone(), m)),
        Ok((strv("Expr"), CaptureMode::Direct))
    );
    let r = Ty::Ref(Box::new(named_ty("Expr")));
    assert_eq!(
        resolve_collectible(&r).map(|(p, m)| (p.segments[0].clone(), m)),
        Ok((strv("Expr"), CaptureMode::Direct))
    );
    let rs = Ty::Ref(Box::new(Ty::Slice(Box::new(named_ty("Expr")))));
    assert_eq!(
        resolve_collectible(&rs).map(|(p, m)| (p.segments[0].clone(), m)),
        Ok((strv("Expr"), CaptureMode::Direct))
    );
    let it = Ty::ImplTrait {
        bound: strv("Iterator"),
        item: Some(Box::new(Ty::Ref(Box::new(named_ty("Expr"))))),
    };
    assert_eq!(
        resolve_collectible(&it).map(|(p, m)| (p.segments[0].clone(), m)),
        Ok((strv("Expr"), CaptureMode::Collect))
    );
    let bad_bound = Ty::ImplTrait {
        bound: strv("IntoIterator"),
        item: Some(Box::new(Ty::Ref(Box::new(named_ty("Expr"))))),
    };
    assert_eq!(
        resolve_collectible(&bad_bound).err(),
        Some(TransformError::MalformedIteratorBound)
    );
    let no_item = Ty::ImplTrait { bound: strv("Iterator"), item: None };
    assert_eq!(resolve_collectible(&no_item).err(), Some(TransformError::MalformedIteratorBound));
    assert_eq!(resolve_collectible(&Ty::Unit).err(), Some(TransformError::UnresolvableParamType));
}

#[test]
fn rewrite_routes_traced_call() {
    let targets = vec![strv("inner")];
    let ctx = strv("___tracer");
    let e = Expr::Binary {
        op: BinOp::Add,
        lhs: Box::new(call("inner", vec![var("x")])),
        rhs: Box::new(Expr::Lit(1)),
    };
    let r = rewrite_expr(&targets, &ctx, &e);
    match r {
        Expr::Binary { lhs, rhs, .. } => {
            match *lhs {
                Expr::Call { func, args } => {
                    assert_eq!(func.segments, vec![strv("inner_internal")]);
                    assert_eq!(args.len(), 2);
                    assert_eq!(args[0], var("x"));
                    assert_eq!(args[1], var("___tracer"));
                },
                other => panic!("expected a rewritten call, got {:?}", other),
            }
            assert_eq!(*rhs, Expr::Lit(1));
        },
        other => panic!("expected a binary expression, got {:?}", other),
    }
}

#[test]
fn rewrite_leaves_untraced_call() {
    let targets = vec![strv("inner")];
    let ctx = strv("___tracer");
    let e = call("helper", vec![var("x")]);
    let r = rewrite_expr(&targets, &ctx, &e);
    assert_eq!(r, call("helper", vec![var("x")]));
}

#[test]
fn rewrite_renames_method_calls() {
    let targets = vec![strv("infer")];
    let ctx = strv("___tracer");
    let e = Expr::MethodCall {
        recv: Box::new(var("checker")),
        method: strv("infer"),
        args: vec![var("t")],
    };
    let r = rewrite_expr(&targets, &ctx, &e);
    match r {
        Expr::MethodCall { method, args, .. } => {
            assert_eq!(method.as_str(), "infer_internal");
            assert_eq!(args.len(), 2);
            assert_eq!(args[1], var("___tracer"));
        },
        other => panic!("expected a method call, got {:?}", other),
    }
}

fn outer_proc() -> ProcDef {
    // outer(x: int) -> int { inner(x) + 1 }
    ProcDef {
        name: strv("outer"),
        params: vec![Param { name: strv("x"), ty: named_ty("int") }],
        ret: named_ty("int"),
        body: Block {
            stmts: vec![Stmt::Expr(Expr::Binary {
                op: BinOp::Add,
                lhs: Box::new(call("inner", vec![var("x")])),
                rhs: Box::new(Expr::Lit(1)),
            })],
        },
    }
}

#[test]
fn instrument_rejects_empty_targets() {
    let cfg = TraceConfig { targets: Vec::new(), blacklist: Vec::new(), capture_self: false };
    assert_eq!(instrument(&outer_proc(), &cfg).err(), Some(TransformError::EmptyTraceTargets));
}

#[test]
fn instrument_rejects_unresolvable_param() {
    let cfg = TraceConfig { targets: vec![strv("outer")], blacklist: Vec::new(), capture_self: false };
    let mut p = outer_proc();
    p.params.push(Param { name: strv("u"), ty: Ty::Unit });
    assert_eq!(instrument(&p, &cfg).err(), Some(TransformError::UnresolvableParamType));
}

#[test]
fn instrument_produces_both_variants() {
    let cfg = TraceConfig {
        targets: vec![strv("outer"), strv("inner")],
        blacklist: Vec::new(),
        capture_self: false,
    };
    let (root, internal) = instrument(&outer_proc(), &cfg).unwrap();
    assert_eq!(root.name.as_str(), "outer_root");
    assert_eq!(internal.name.as_str(), "outer_internal");
    // Root keeps the signature; Internal gains the trace-context parameter.
    assert_eq!(root.params.len(), 1);
    assert_eq!(internal.params.len(), 2);
    assert_eq!(internal.params[1].name.as_str(), "___tracer");
    // Prologue (2) + capture pair for x (2) + tail (4).
    assert_eq!(root.body.stmts.len(), 8);
    // Prologue (1) + capture pair for x (2) + tail (3).
    assert_eq!(internal.body.stmts.len(), 6);
    // The body's call to inner is routed to inner_internal with the context.
    let run_stmt = &root.body.stmts[4];
    match run_stmt {
        Stmt::Local { init: Expr::ClosureCall { body }, .. } => match &body.stmts[0] {
            Stmt::Expr(Expr::Binary { lhs, .. }) => match &**lhs {
                Expr::Call { func, args } => {
                    assert_eq!(func.segments, vec![strv("inner_internal")]);
                    assert_eq!(args.len(), 2);
                    assert_eq!(args[1], var("___tracer"));
                },
                other => panic!("expected the rewritten call, got {:?}", other),
            },
            other => panic!("expected the body expression, got {:?}", other),
        },
        other => panic!("expected the closure-call local, got {:?}", other),
    }
}

#[test]
fn blacklisted_param_not_captured() {
    let cfg = TraceConfig {
        targets: vec![strv("outer")],
        blacklist: vec![path(&["BigState"])],
        capture_self: false,
    };
    let mut p = outer_proc();
    p.params.push(Param { name: strv("state"), ty: Ty::Ref(Box::new(named_ty("BigState"))) });
    let (root, _internal) = instrument(&p, &cfg).unwrap();
    // Only x is captured: prologue (2) + one capture pair (2) + tail (4).
    assert_eq!(root.body.stmts.len(), 8);
    for s in &root.body.stmts {
        if let Stmt::Local { pat: Pat::Ident(n), .. } = s {
            assert_ne!(n.as_str(), "state_item");
        }
    }
}

#[test]
fn default_blacklist_suppresses_capture() {
    let cfg = TraceConfig { targets: vec![strv("outer")], blacklist: Vec::new(), capture_self: false };
    let mut p = outer_proc();
    p.params.push(Param { name: strv("env"), ty: Ty::Ref(Box::new(named_ty("Env"))) });
    let (root, _internal) = instrument(&p, &cfg).unwrap();
    assert_eq!(root.body.stmts.len(), 8);
    assert_eq!(default_blacklist().len(), 3);
}

#[test]
fn self_captured_only_on_request() {
    let mk = |capture_self: bool| {
        let cfg = TraceConfig {
            targets: vec![strv("outer")],
            blacklist: Vec::new(),
            capture_self,
        };
        let mut p = outer_proc();
        p.params.push(Param { name: strv("self"), ty: Ty::Ref(Box::new(named_ty("Checker"))) });
        instrument(&p, &cfg).unwrap().0.body.stmts.len()
    };
    assert_eq!(mk(false), 8);
    assert_eq!(mk(true), 10);
}

#[test]
fn change_call_ident_renames() {
    let e = call("EqCore", vec![var("a")]);
    let r = change_call_ident(&e).unwrap();
    match r {
        Expr::Call { func, args } => {
            assert_eq!(func.segments, vec![strv("new_eq_core")]);
            assert_eq!(args, vec![var("a")]);
        },
        other => panic!("expected a call, got {:?}", other),
    }
    assert_eq!(change_call_ident(&Expr::Lit(3)).err(), Some(TransformError::ExpectedCallExpr));
}

#[test]
fn step_declar_annotation() {
    let bare = Stmt::Local { pat: Pat::Ident(strv("s")), init: call("mk_step", Vec::new()) };
    let (name, annotated) = step_declar_add_type(&bare).unwrap();
    assert_eq!(name.as_str(), "s");
    match annotated {
        Stmt::Local { pat: Pat::Typed { name, ty }, .. } => {
            assert_eq!(name.as_str(), "s");
            assert_eq!(ty, Ty::Named(path(&["crate", "trace", "Step"])));
        },
        other => panic!("expected an annotated local, got {:?}", other),
    }
    let typed = Stmt::Local {
        pat: Pat::Typed { name: strv("s"), ty: Ty::Named(path(&["Step"])) },
        init: call("mk_step", Vec::new()),
    };
    assert!(step_declar_add_type(&typed).is_ok());
    let wrong = Stmt::Local {
        pat: Pat::Typed { name: strv("s"), ty: named_ty("Other") },
        init: call("mk_step", Vec::new()),
    };
    assert_eq!(step_declar_add_type(&wrong).err(), Some(TransformError::FirstStmtNotStepTyped));
    assert_eq!(
        step_declar_add_type(&Stmt::Semi(Expr::Lit(1))).err(),
        Some(TransformError::FirstStmtNotLocal)
    );
}

#[test]
fn trace_attr_argument_errors() {
    assert_eq!(
        TraceAttr::from_args(Vec::new()).err(),
        Some(TransformError::TraceAttrNeedsBoth)
    );
    assert_eq!(
        TraceAttr::from_args(vec![var("mgr")]).err(),
        Some(TransformError::TraceAttrNeedsStep)
    );
    let a = TraceAttr::from_args(vec![var("mgr"), call("EqCore", Vec::new())]).unwrap();
    assert_eq!(a.tracer_location, var("mgr"));
    assert_eq!(a.step, call("EqCore", Vec::new()));
}

#[test]
fn trace_attribute_pass_shape() {
    let attr = TraceAttr::new(var("mgr"), call("EqCore", vec![var("a")]));
    let p = ProcDef {
        name: strv("infer"),
        params: vec![Param { name: strv("t"), ty: named_ty("Term") }],
        ret: named_ty("Term"),
        body: Block {
            stmts: vec![Stmt::Expr(Expr::MethodCall {
                recv: Box::new(var("tracer")),
                method: strv("push_extra"),
                args: vec![var("a")],
            })],
        },
    };
    let out = trace(attr, &p).unwrap();
    assert_eq!(out.name.as_str(), "infer");
    assert_eq!(out.body.stmts.len(), 18);
    // The step local opens the body, annotated with the step type and built
    // through the renamed constructor.
    match &out.body.stmts[0] {
        Stmt::Local { pat: Pat::Typed { name, ty }, init } => {
            assert_eq!(name.as_str(), "this_step");
            assert_eq!(*ty, Ty::Named(path(&["crate", "trace", "Step"])));
            match init {
                Expr::MethodCall { method, .. } => assert_eq!(method.as_str(), "new_eq_core"),
                other => panic!("expected the constructor call, got {:?}", other),
            }
        },
        other => panic!("expected the step local, got {:?}", other),
    }
    // The visited body hands ___safety_idx_before to push_extra.
    match &out.body.stmts[4] {
        Stmt::Local { init: Expr::ClosureCall { body }, .. } => match &body.stmts[0] {
            Stmt::Expr(Expr::MethodCall { method, args, .. }) => {
                assert_eq!(method.as_str(), "push_extra");
                assert_eq!(args.len(), 2);
                assert_eq!(args[1], var("___safety_idx_before"));
            },
            other => panic!("expected the visited method call, got {:?}", other),
        },
        other => panic!("expected the closure-call local, got {:?}", other),
    }
    match &out.body.stmts[17] {
        Stmt::Expr(Expr::PathRef(p)) => assert_eq!(p.segments, vec![strv("result____")]),
        other => panic!("expected the trailing result, got {:?}", other),
    }
    // A non-call step-constructor position is a usage error.
    let attr2 = TraceAttr::new(var("mgr"), Expr::Lit(1));
    assert_eq!(
        add_tracing_to_item_fn(attr2, &outer_proc()).err(),
        Some(TransformError::ExpectedCallExpr)
    );
}

#[test]
fn parse_name_list_strips_comments_and_blanks() {
    let names = parse_name_list("outer\ninner # traced too\n\n# a full comment line\n  spaced  \n");
    let names: Vec<&str> = names.iter().map(|s| s.as_str()).collect();
    assert_eq!(names, vec!["outer", "inner", "spaced"]);
}

#[test]
fn parse_name_list_empty_text() {
    assert_eq!(parse_name_list("").len(), 0);
    assert_eq!(parse_name_list("# only comments\n   \n").len(), 0);
}

#[test]
fn iterator_param_collected_before_capture() {
    let cfg = TraceConfig { targets: vec![strv("outer")], blacklist: Vec::new(), capture_self: false };
    let mut p = outer_proc();
    p.params.push(Param {
        name: strv("exprs"),
        ty: Ty::ImplTrait {
            bound: strv("Iterator"),
            item: Some(Box::new(Ty::Ref(Box::new(named_ty("Expr"))))),
        },
    });
    let (root, _internal) = instrument(&p, &cfg).unwrap();
    // Two capture pairs now: x, then exprs.
    assert_eq!(root.body.stmts.len(), 10);
    // The iterator parameter is eagerly collected into an owned sequence.
    match &root.body.stmts[4] {
        Stmt::Local { pat: Pat::Ident(n), init } => {
            assert_eq!(n.as_str(), "exprs_item");
            match init {
                Expr::MethodCall { method, args, .. } => {
                    assert_eq!(method.as_str(), "insert_item");
                    match &args[0] {
                        Expr::MethodCall { recv, method, .. } => {
                            assert_eq!(method.as_str(), "collect");
                            match &**recv {
                                Expr::MethodCall { method, .. } => {
                                    assert_eq!(method.as_str(), "cloned")
                                },
                                other => panic!("expected the cloning step, got {:?}", other),
                            }
                        },
                        other => panic!("expected the collected capture, got {:?}", other),
                    }
                },
                other => panic!("expected the arena insertion, got {:?}", other),
            }
        },
        other => panic!("expected the capture local, got {:?}", other),
    }
}

#[test]
fn parse_name_list_handles_crlf() {
    let names = parse_name_list("alpha\r\nbeta\r\n");
    let names: Vec<&str> = names.iter().map(|s| s.as_str()).collect();
    assert_eq!(names, vec!["alpha", "beta"]);
}
