use optrace::ast::Expr;
use optrace::ast::Pat;
use optrace::ast::Stmt;
use optrace::ast::Ty;
use optrace::step_derive::collect_short_attrs;
use optrace::step_derive::derive_cnstrs;
use optrace::step_derive::derive_cnstrs2;
use optrace::step_derive::fields_diff;
use optrace::step_derive::fields_inter;
use optrace::step_derive::fields_union;
use optrace::step_derive::gen_cnstr_one;
use optrace::step_derive::get_unique_fields;
use optrace::step_derive::is_step;
use optrace::step_derive::mk_match_arm_one;
use optrace::step_derive::mk_match_arm_one_short;
use optrace::step_derive::mk_name_getters;
use optrace::step_derive::mk_name_getters2;
use optrace::step_derive::mk_name_getters_short;
use optrace::step_derive::mk_short_name_getters;
use optrace::step_derive::DeriveError;
use optrace::step_derive::FieldsDef;
use optrace::step_derive::LabelEntry;
use optrace::step_derive::UnionDef;
use optrace::step_derive::VariantDef;

fn strv(s: &str) -> String {
    String::from(s)
}

fn names(ns: &[&str]) -> Vec<String> {
    ns.iter().map(|s| String::from(*s)).collect()
}

fn variant(name: &str, fields: &[&str], short: Option<&str>) -> VariantDef {
    VariantDef {
        name: strv(name),
        fields: FieldsDef::Named(names(fields)),
        short: short.map(String::from),
    }
}

fn step_union() -> UnionDef {
    UnionDef {
        name: strv("Step"),
        variants: vec![
            variant("EqCore", &["info", "lhs", "rhs"], None),
            variant("Whnf", &["info", "term"], None),
        ],
    }
}

fn sorted(mut v: Vec<String>) -> Vec<String> {
    v.sort();
    v
}

#[test]
fn field_set_operations() {
    let u = step_union();
    assert_eq!(sorted(fields_union(&u.variants)), names(&["info", "lhs", "rhs", "term"]));
    assert_eq!(sorted(fields_inter(&u.variants)), names(&["info"]));
    assert_eq!(sorted(fields_diff(&u.variants)), names(&["lhs", "rhs", "term"]));
    assert_eq!(sorted(get_unique_fields(&u.variants)), names(&["lhs", "rhs", "term"]));
}

#[test]
fn field_sets_without_named_variants() {
    let variants = vec![VariantDef { name: strv("A"), fields: FieldsDef::Unit, short: None }];
    assert_eq!(fields_union(&variants).len(), 0);
    assert_eq!(fields_inter(&variants).len(), 0);
    assert_eq!(fields_diff(&variants).len(), 0);
}

#[test]
fn field_sets_disjoint_variants() {
    // With no common field, the intersection is empty and every field is
    // unique.
    let variants = vec![variant("A", &["x"], None), variant("B", &["y"], None)];
    assert_eq!(sorted(fields_inter(&variants)), Vec::<String>::new());
    assert_eq!(sorted(fields_diff(&variants)), names(&["x", "y"]));
}

#[test]
fn gen_cnstr_one_shape() {
    let c = gen_cnstr_one(&strv("EqCore"), &names(&["lhs", "rhs"]));
    assert_eq!(c.name.as_str(), "new_eq_core");
    // Receiver plus one parameter per unique field.
    assert_eq!(c.params.len(), 3);
    assert_eq!(c.params[0].name.as_str(), "self");
    assert_eq!(c.params[1].name.as_str(), "lhs");
    assert_eq!(c.params[2].name.as_str(), "rhs");
    match &c.params[1].ty {
        Ty::ImplTrait { bound, item } => {
            assert_eq!(bound.as_str(), "HasInsertItem");
            assert!(item.is_none());
        },
        other => panic!("expected an impl-trait parameter, got {:?}", other),
    }
    // One index binding per field, then the struct expression.
    assert_eq!(c.body.stmts.len(), 3);
    match &c.body.stmts[0] {
        Stmt::Local { pat: Pat::Ident(n), init } => {
            assert_eq!(n.as_str(), "lhs_idx");
            match init {
                Expr::MethodCall { method, .. } => assert_eq!(method.as_str(), "insert_item"),
                other => panic!("expected the arena insertion, got {:?}", other),
            }
        },
        other => panic!("expected the index binding, got {:?}", other),
    }
    match &c.body.stmts[2] {
        Stmt::Expr(Expr::Struct { path, fields }) => {
            assert_eq!(path.segments, names(&["crate", "trace", "Step", "EqCore"]));
            assert_eq!(fields.len(), 3);
            assert_eq!(fields[0].name.as_str(), "info");
            assert_eq!(fields[1].name.as_str(), "lhs");
            assert_eq!(fields[2].name.as_str(), "rhs");
        },
        other => panic!("expected the struct return, got {:?}", other),
    }
}

#[test]
fn gen_cnstr_one_without_unique_fields() {
    let c = gen_cnstr_one(&strv("Plain"), &Vec::new());
    assert_eq!(c.name.as_str(), "new_plain");
    assert_eq!(c.params.len(), 1);
    assert_eq!(c.body.stmts.len(), 1);
}

#[test]
fn match_arms() {
    let a = mk_match_arm_one(&strv("EqCore"));
    assert_eq!(a.variant.as_str(), "EqCore");
    assert_eq!(a.label.as_str(), "EqCore");
    let s = mk_match_arm_one_short(&strv("EqCore"), &strv("EQ"));
    assert_eq!(s.variant.as_str(), "EqCore");
    assert_eq!(s.label.as_str(), "EQ");
}

#[test]
fn name_getters() {
    let u = step_union();
    let g = mk_name_getters2(&u);
    assert_eq!(g.method_name.as_str(), "get_step_name_string");
    assert_eq!(g.arms.len(), 2);
    assert_eq!(g.arms[0].variant.as_str(), "EqCore");
    assert_eq!(g.arms[0].label.as_str(), "EqCore");
    let g2 = mk_name_getters(&u);
    assert_eq!(g2, g);
    let g3 = mk_short_name_getters(&u);
    assert_eq!(g3, g);
    let entries = vec![
        LabelEntry { variant: strv("EqCore"), label: strv("EQ") },
        LabelEntry { variant: strv("Whnf"), label: strv("W") },
    ];
    let gs = mk_name_getters_short(&entries);
    assert_eq!(gs.method_name.as_str(), "get_step_name_string_short");
    assert_eq!(gs.arms[0].label.as_str(), "EQ");
    assert_eq!(gs.arms[1].label.as_str(), "W");
}

#[test]
fn short_labels_default_to_names() {
    let u = step_union();
    let m = collect_short_attrs(&u).unwrap();
    assert_eq!(m.len(), 2);
    assert_eq!(m[0].variant.as_str(), "EqCore");
    assert_eq!(m[0].label.as_str(), "EqCore");
    assert_eq!(m[1].label.as_str(), "Whnf");
}

#[test]
fn short_labels_use_annotations() {
    let u = UnionDef {
        name: strv("Step"),
        variants: vec![
            variant("EqCore", &["info"], Some("EQ")),
            variant("Whnf", &["info"], None),
        ],
    };
    let m = collect_short_attrs(&u).unwrap();
    assert_eq!(m[0].label.as_str(), "EQ");
    assert_eq!(m[1].label.as_str(), "Whnf");
}

#[test]
fn duplicate_short_labels_rejected() {
    // Two variants declaring the same short label must fail, never pick one.
    let u = UnionDef {
        name: strv("Step"),
        variants: vec![
            variant("A", &["info"], Some("a")),
            variant("B", &["info"], Some("a")),
        ],
    };
    assert_eq!(collect_short_attrs(&u).err(), Some(DeriveError::DuplicateShortName));
}

#[test]
fn duplicate_label_via_default_rejected() {
    // An annotation that collides with another variant's own name fails too.
    let u = UnionDef {
        name: strv("Step"),
        variants: vec![
            variant("A", &["info"], Some("B")),
            variant("B", &["info"], None),
        ],
    };
    assert_eq!(collect_short_attrs(&u).err(), Some(DeriveError::DuplicateShortName));
}

#[test]
fn derive_constructors() {
    let u = step_union();
    let cs = derive_cnstrs2(&u).unwrap();
    assert_eq!(cs.len(), 2);
    assert_eq!(cs[0].name.as_str(), "new_eq_core");
    // EqCore's unique fields are lhs and rhs; info is common.
    assert_eq!(cs[0].params.len(), 3);
    assert_eq!(cs[1].name.as_str(), "new_whnf");
    assert_eq!(cs[1].params.len(), 2);
    assert_eq!(cs[1].params[1].name.as_str(), "term");
    let cs2 = derive_cnstrs(&u).unwrap();
    assert_eq!(cs2, cs);
}

#[test]
fn derive_constructors_reject_positional() {
    let u = UnionDef {
        name: strv("Step"),
        variants: vec![
            variant("A", &["info"], None),
            VariantDef { name: strv("B"), fields: FieldsDef::Unnamed(2), short: None },
        ],
    };
    assert_eq!(derive_cnstrs2(&u).err(), Some(DeriveError::NotNamedFields));
}

#[test]
fn is_step_full_derivation() {
    let u = step_union();
    let out = is_step(&u).unwrap();
    assert_eq!(out.short_name_getters.method_name.as_str(), "get_step_name_string_short");
    assert_eq!(out.short_name_getters.arms.len(), 2);
    assert_eq!(out.name_getters.method_name.as_str(), "get_step_name_string");
    assert_eq!(out.cnstr_impls.len(), 2);
}

#[test]
fn is_step_error_order() {
    let dup = UnionDef {
        name: strv("Step"),
        variants: vec![
            VariantDef { name: strv("A"), fields: FieldsDef::Unnamed(1), short: Some(strv("a")) },
            variant("B", &["info"], Some("a")),
        ],
    };
    // The duplicate label is reported before the field-form error.
    assert_eq!(is_step(&dup).err(), Some(DeriveError::DuplicateShortName));
    let pos = UnionDef {
        name: strv("Step"),
        variants: vec![VariantDef { name: strv("A"), fields: FieldsDef::Unnamed(1), short: None }],
    };
    assert_eq!(is_step(&pos).err(), Some(DeriveError::NotNamedFields));
}
