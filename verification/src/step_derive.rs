//! Derivation over a tagged-union definition of trace events: the unique
//! fields of each variant, a generated constructor method per variant that
//! stores its field values and stamps a fresh safety index, and the total,
//! collision-checked mapping from variant to short display label.

use vstd::prelude::*;

use crate::ast::Block;
use crate::ast::BlockV;
use crate::ast::Expr;
use crate::ast::ExprV;
use crate::ast::FieldValue;
use crate::ast::FieldValueV;
use crate::ast::Param;
use crate::ast::ParamV;
use crate::ast::PatV;
use crate::ast::PathDef;
use crate::ast::ProcDef;
use crate::ast::ProcDefV;
use crate::ast::Stmt;
use crate::ast::StmtV;
use crate::ast::Ty;
use crate::ast::TyV;
use crate::ast::exprs_dv;
use crate::ast::field_values_dv;
use crate::ast::params_dv;
use crate::ast::stmts_dv;
use crate::ast::lemma_exprs_dv;
use crate::helpers::snake_case_name;
use crate::helpers::snake_of;
use crate::transform::name_in_list;

verus! {

/// A generation-time mistake in the tagged-union definition.
#[derive(Debug, PartialEq, Eq, Structural, Clone, Copy)]
pub enum DeriveError {
    /// A variant's fields are not in named form; positional-only variants
    /// are unsupported.
    NotNamedFields,
    /// Two variants resolve to the same short label.
    DuplicateShortName,
}

/// The field list of one variant.
#[derive(Debug, PartialEq, Eq)]
pub enum FieldsDef {
    /// Named fields, by name; the shared header is conceptually among them.
    Named(Vec<String>),
    /// Positional fields, by count.
    Unnamed(usize),
    /// No fields at all.
    Unit,
}

/// One variant of the tagged union, with its optional short-label
/// annotation.
#[derive(Debug, PartialEq, Eq)]
pub struct VariantDef {
    pub name: String,
    pub fields: FieldsDef,
    pub short: Option<String>,
}

/// The tagged-union definition the derivations consume.
#[derive(Debug, PartialEq, Eq)]
pub struct UnionDef {
    pub name: String,
    pub variants: Vec<VariantDef>,
}

/// Mathematical image of a [`FieldsDef`].
pub enum FieldsDefV {
    Named(Seq<Seq<char>>),
    Unnamed(usize),
    Unit,
}

/// Mathematical image of a [`VariantDef`].
pub struct VariantDefV {
    pub name: Seq<char>,
    pub fields: FieldsDefV,
    pub short: Option<Seq<char>>,
}

impl DeepView for FieldsDef {
    type V = FieldsDefV;

    open spec fn deep_view(&self) -> FieldsDefV {
        match self {
            FieldsDef::Named(fs) => FieldsDefV::Named(fs.deep_view()),
            FieldsDef::Unnamed(n) => FieldsDefV::Unnamed(*n),
            FieldsDef::Unit => FieldsDefV::Unit,
        }
    }
}

impl DeepView for VariantDef {
    type V = VariantDefV;

    open spec fn deep_view(&self) -> VariantDefV {
        VariantDefV { name: self.name@, fields: self.fields.deep_view(), short: match self.short {
            Some(ref s) => Some(s@),
            None => None,
        } }
    }
}

/// The named fields of a variant; empty for the other field forms.
pub open spec fn named_fields_v(v: VariantDefV) -> Seq<Seq<char>> {
    match v.fields {
        FieldsDefV::Named(fs) => fs,
        _ => Seq::empty(),
    }
}

/// Whether a field name occurs in some variant's named fields.
pub open spec fn in_union_v(vs: Seq<VariantDefV>, f: Seq<char>) -> bool {
    exists|i: int| 0 <= i < vs.len() && named_fields_v(#[trigger] vs[i]).contains(f)
}

/// Whether a field name occurs in every named variant's fields, there being
/// at least one named variant.
pub open spec fn in_inter_v(vs: Seq<VariantDefV>, f: Seq<char>) -> bool {
    &&& exists|i: int| 0 <= i < vs.len() && (#[trigger] vs[i].fields) is Named
    &&& forall|i: int|
        0 <= i < vs.len() && (#[trigger] vs[i].fields) is Named ==> named_fields_v(
            vs[i],
        ).contains(f)
}

/// Whether a field name is unique to some variants: in the union of all
/// named field sets but not common to every named variant.
pub open spec fn in_diff_v(vs: Seq<VariantDefV>, f: Seq<char>) -> bool {
    in_union_v(vs, f) && !in_inter_v(vs, f)
}

/// A name list without repetition.
pub open spec fn nodup_v(s: Seq<Seq<char>>) -> bool {
    forall|i: int, j: int| 0 <= i < j < s.len() ==> #[trigger] s[i] != #[trigger] s[j]
}

/// Collects every named field of every variant, once each.
pub fn fields_union(variants: &Vec<VariantDef>) -> (r: Vec<String>)
    ensures
        forall|f: Seq<char>| #[trigger]
            r.deep_view().contains(f) <==> in_union_v(variants.deep_view(), f),
        nodup_v(r.deep_view()),
{
    let ghost vs = variants.deep_view();
    let mut r: Vec<String> = Vec::new();
    let mut i: usize = 0;
    while i < variants.len()
        invariant
            0 <= i <= variants@.len(),
            vs == variants.deep_view(),
            vs.len() == variants@.len(),
            forall|j: int| 0 <= j < variants@.len() ==> vs[j] == variants@[j].deep_view(),
            forall|f: Seq<char>| #[trigger]
                r.deep_view().contains(f) <==> in_union_v(vs.take(i as int), f),
            nodup_v(r.deep_view()),
        decreases variants@.len() - i,
    {
        match &variants[i] {
            VariantDef { name, fields: FieldsDef::Named(fs), short } => {
                let mut k: usize = 0;
                while k < fs.len()
                    invariant
                        0 <= k <= fs@.len(),
                        vs == variants.deep_view(),
                        vs.len() == variants@.len(),
                        0 <= i < variants@.len(),
                        forall|j: int| 0 <= j < variants@.len() ==> vs[j] == variants@[j].deep_view(),
                        named_fields_v(vs[i as int]) == fs.deep_view(),
                        forall|f: Seq<char>| #[trigger]
                            r.deep_view().contains(f) <==> (in_union_v(vs.take(i as int), f)
                                || fs.deep_view().take(k as int).contains(f)),
                        nodup_v(r.deep_view()),
                    decreases fs@.len() - k,
                {
                    let f = &fs[k];
                    if !name_in_list(&r, f) {
                        let ghost pre = r.deep_view();
                        r.push(f.clone());
                        proof {
                            assert(r.deep_view() =~= pre.push(f@));
                            assert forall|g: Seq<char>| #[trigger]
                                r.deep_view().contains(g) implies (in_union_v(vs.take(i as int), g)
                                || fs.deep_view().take(k + 1 as int).contains(g)) by {
                                let w = choose|w: int|
                                    0 <= w < r.deep_view().len() && r.deep_view()[w] == g;
                                if w < pre.len() {
                                    assert(pre.contains(g));
                                } else {
                                    assert(g == f@);
                                    assert(fs.deep_view().take(k + 1 as int)[k as int] == f@);
                                    assert(fs.deep_view().take(k + 1 as int).contains(f@));
                                }
                            }
                            assert forall|g: Seq<char>|
                                in_union_v(vs.take(i as int), g) || fs.deep_view().take(
                                k + 1 as int,
                            ).contains(g) implies #[trigger] r.deep_view().contains(g) by {
                                if fs.deep_view().take(k + 1 as int).contains(g) {
                                    let w = choose|w: int|
                                        0 <= w < k + 1 && #[trigger] fs.deep_view().take(
                                            k + 1 as int,
                                        )[w] == g;
                                    if w < k {
                                        assert(fs.deep_view().take(k as int)[w] == g);
                                        assert(fs.deep_view().take(k as int).contains(g));
                                        assert(pre.contains(g));
                                        let u = choose|u: int|
                                            0 <= u < pre.len() && pre[u] == g;
                                        assert(r.deep_view()[u] == g);
                                    } else {
                                        assert(g == f@);
                                        assert(r.deep_view()[pre.len() as int] == f@);
                                    }
                                } else {
                                    assert(pre.contains(g));
                                    let u = choose|u: int| 0 <= u < pre.len() && pre[u] == g;
                                    assert(r.deep_view()[u] == g);
                                }
                            }
                        }
                    } else {
                        proof {
                            assert(fs.deep_view()[k as int] == f@);
                            assert forall|g: Seq<char>|
                                fs.deep_view().take(k + 1 as int).contains(g) implies (in_union_v(
                                vs.take(i as int),
                                g,
                            ) || fs.deep_view().take(k as int).contains(g) || g == f@) by {
                                let w = choose|w: int|
                                    0 <= w < k + 1 && #[trigger] fs.deep_view().take(
                                        k + 1 as int,
                                    )[w] == g;
                                if w < k {
                                    assert(fs.deep_view().take(k as int)[w] == g);
                                }
                            }
                        }
                    }
                    k += 1;
                }
                proof {
                    assert(fs.deep_view().take(fs@.len() as int) =~= fs.deep_view());
                    assert forall|g: Seq<char>| #[trigger]
                        r.deep_view().contains(g) implies in_union_v(vs.take(i + 1 as int), g) by {
                        if in_union_v(vs.take(i as int), g) {
                            let w = choose|w: int|
                                0 <= w < i && named_fields_v(
                                    #[trigger] vs.take(i as int)[w],
                                ).contains(g);
                            assert(vs.take(i + 1 as int)[w] == vs[w]);
                            assert(named_fields_v(vs.take(i + 1 as int)[w]).contains(g));
                        } else {
                            assert(fs.deep_view().contains(g));
                            assert(vs.take(i + 1 as int)[i as int] == vs[i as int]);
                            assert(named_fields_v(vs.take(i + 1 as int)[i as int]).contains(g));
                        }
                    }
                    assert forall|g: Seq<char>|
                        in_union_v(vs.take(i + 1 as int), g) implies #[trigger] r.deep_view().contains(
                        g,
                    ) by {
                        let w = choose|w: int|
                            0 <= w < i + 1 && named_fields_v(
                                #[trigger] vs.take(i + 1 as int)[w],
                            ).contains(g);
                        if w < i {
                            assert(vs.take(i as int)[w] == vs[w]);
                            assert(in_union_v(vs.take(i as int), g));
                        } else {
                            assert(named_fields_v(vs[i as int]).contains(g));
                        }
                    }
                }
            },
            _ => {
                proof {
                    assert(named_fields_v(vs[i as int]).len() == 0);
                    assert forall|g: Seq<char>|
                        in_union_v(vs.take(i + 1 as int), g) implies in_union_v(
                        vs.take(i as int),
                        g,
                    ) by {
                        let w = choose|w: int|
                            0 <= w < i + 1 && named_fields_v(
                                #[trigger] vs.take(i + 1 as int)[w],
                            ).contains(g);
                        assert(vs.take(i + 1 as int)[w] == vs[w]);
                        if w < i {
                            assert(vs.take(i as int)[w] == vs[w]);
                        } else {
                            assert(named_fields_v(vs[w]).contains(g));
                        }
                    }
                    assert forall|g: Seq<char>|
                        in_union_v(vs.take(i as int), g) implies in_union_v(
                        vs.take(i + 1 as int),
                        g,
                    ) by {
                        let w = choose|w: int|
                            0 <= w < i && named_fields_v(
                                #[trigger] vs.take(i as int)[w],
                            ).contains(g);
                        assert(vs.take(i + 1 as int)[w] == vs[w]);
                        assert(named_fields_v(vs.take(i + 1 as int)[w]).contains(g));
                    }
                }
            },
        }
        i += 1;
    }
    proof {
        assert(vs.take(vs.len() as int) =~= vs);
    }
    r
}

/// Whether any variant has named fields.
fn has_named_variant(variants: &Vec<VariantDef>) -> (r: bool)
    ensures
        r == exists|j: int|
            0 <= j < variants.deep_view().len() && (#[trigger] variants.deep_view()[j].fields) is Named,
{
    let ghost vs = variants.deep_view();
    let mut i: usize = 0;
    proof {
        assert(vs.len() == variants@.len());
    }
    while i < variants.len()
        invariant
            0 <= i <= variants@.len(),
            vs == variants.deep_view(),
            vs.len() == variants@.len(),
            forall|j: int| 0 <= j < variants@.len() ==> vs[j] == variants@[j].deep_view(),
            forall|j: int| 0 <= j < i ==> !((#[trigger] vs[j].fields) is Named),
        decreases variants@.len() - i,
    {
        match &variants[i].fields {
            FieldsDef::Named(fs) => {
                proof {
                    assert(vs[i as int].fields is Named);
                }
                return true;
            },
            _ => {},
        }
        i += 1;
    }
    false
}

/// Whether a field name occurs in every named variant's fields.
fn in_all_named(variants: &Vec<VariantDef>, f: &String) -> (r: bool)
    ensures
        r == forall|j: int|
            0 <= j < variants.deep_view().len() && (#[trigger] variants.deep_view()[j].fields) is Named
                ==> named_fields_v(variants.deep_view()[j]).contains(f@),
{
    let ghost vs = variants.deep_view();
    let mut i: usize = 0;
    while i < variants.len()
        invariant
            0 <= i <= variants@.len(),
            vs == variants.deep_view(),
            vs.len() == variants@.len(),
            forall|j: int| 0 <= j < variants@.len() ==> vs[j] == variants@[j].deep_view(),
            forall|j: int|
                0 <= j < i && (#[trigger] vs[j].fields) is Named ==> named_fields_v(
                    vs[j],
                ).contains(f@),
        decreases variants@.len() - i,
    {
        match &variants[i].fields {
            FieldsDef::Named(fs) => {
                if !name_in_list(fs, f) {
                    proof {
                        assert(named_fields_v(vs[i as int]) == fs.deep_view());
                        assert(!named_fields_v(vs[i as int]).contains(f@));
                    }
                    return false;
                }
                proof {
                    assert(named_fields_v(vs[i as int]).contains(f@));
                }
            },
            _ => {},
        }
        i += 1;
    }
    true
}

/// A name common to every named variant occurs in the union.
proof fn lemma_inter_in_union(vs: Seq<VariantDefV>, f: Seq<char>)
    requires
        in_inter_v(vs, f),
    ensures
        in_union_v(vs, f),
{
    let i = choose|i: int| 0 <= i < vs.len() && (#[trigger] vs[i].fields) is Named;
    assert(named_fields_v(vs[i]).contains(f));
}

/// Collects the field names common to every named variant; empty when no
/// variant has named fields.
pub fn fields_inter(variants: &Vec<VariantDef>) -> (r: Vec<String>)
    ensures
        forall|f: Seq<char>| #[trigger]
            r.deep_view().contains(f) <==> in_inter_v(variants.deep_view(), f),
        nodup_v(r.deep_view()),
{
    let ghost vs = variants.deep_view();
    let u = fields_union(variants);
    let ghost uv = u.deep_view();
    let mut r: Vec<String> = Vec::new();
    if !has_named_variant(variants) {
        proof {
            assert(forall|f: Seq<char>| !in_inter_v(vs, f));
            assert(forall|f: Seq<char>| !r.deep_view().contains(f));
        }
        return r;
    }
    let mut k: usize = 0;
    while k < u.len()
        invariant
            0 <= k <= u@.len(),
            vs == variants.deep_view(),
            uv == u.deep_view(),
            uv.len() == u@.len(),
            forall|f: Seq<char>| #[trigger] uv.contains(f) <==> in_union_v(vs, f),
            nodup_v(uv),
            exists|j: int| 0 <= j < vs.len() && (#[trigger] vs[j].fields) is Named,
            forall|f: Seq<char>| #[trigger]
                r.deep_view().contains(f) <==> (uv.take(k as int).contains(f) && in_inter_v(
                    vs,
                    f,
                )),
            nodup_v(r.deep_view()),
        decreases u@.len() - k,
    {
        let keep = in_all_named(variants, &u[k]);
        proof {
            assert(uv[k as int] == u@[k as int]@);
        }
        if keep {
            let ghost pre = r.deep_view();
            proof {
                assert(in_inter_v(vs, uv[k as int]));
                if pre.contains(uv[k as int]) {
                    assert(uv.take(k as int).contains(uv[k as int]));
                    let w = choose|w: int|
                        0 <= w < k && #[trigger] uv.take(k as int)[w] == uv[k as int];
                    assert(uv[w] == uv[k as int]);
                    assert(false);
                }
            }
            r.push(u[k].clone());
            proof {
                assert(r.deep_view() =~= pre.push(uv[k as int]));
                assert forall|f: Seq<char>| #[trigger]
                    r.deep_view().contains(f) <==> (uv.take(k + 1 as int).contains(f)
                        && in_inter_v(vs, f)) by {
                    if r.deep_view().contains(f) {
                        let w = choose|w: int|
                            0 <= w < r.deep_view().len() && #[trigger] r.deep_view()[w] == f;
                        if w < pre.len() {
                            assert(pre.contains(f));
                            let x = choose|x: int|
                                0 <= x < k && #[trigger] uv.take(k as int)[x] == f;
                            assert(uv.take(k + 1 as int)[x] == f);
                            assert(uv.take(k + 1 as int).contains(f));
                        } else {
                            assert(f == uv[k as int]);
                            assert(uv.take(k + 1 as int)[k as int] == f);
                            assert(uv.take(k + 1 as int).contains(f));
                        }
                    }
                    if uv.take(k + 1 as int).contains(f) && in_inter_v(vs, f) {
                        let w = choose|w: int|
                            0 <= w < k + 1 && #[trigger] uv.take(k + 1 as int)[w] == f;
                        if w < k {
                            assert(uv.take(k as int)[w] == f);
                            assert(uv.take(k as int).contains(f));
                            assert(pre.contains(f));
                            let x = choose|x: int| 0 <= x < pre.len() && #[trigger] pre[x] == f;
                            assert(r.deep_view()[x] == f);
                        } else {
                            assert(f == uv[k as int]);
                            assert(r.deep_view()[pre.len() as int] == f);
                        }
                    }
                }
            }
        } else {
            proof {
                assert(!in_inter_v(vs, uv[k as int]));
                assert forall|f: Seq<char>| #[trigger]
                    r.deep_view().contains(f) <==> (uv.take(k + 1 as int).contains(f)
                        && in_inter_v(vs, f)) by {
                    if r.deep_view().contains(f) {
                        assert(uv.take(k as int).contains(f));
                        let x = choose|x: int|
                            0 <= x < k && #[trigger] uv.take(k as int)[x] == f;
                        assert(uv.take(k + 1 as int)[x] == f);
                        assert(uv.take(k + 1 as int).contains(f));
                    }
                    if uv.take(k + 1 as int).contains(f) && in_inter_v(vs, f) {
                        let w = choose|w: int|
                            0 <= w < k + 1 && #[trigger] uv.take(k + 1 as int)[w] == f;
                        if w < k {
                            assert(uv.take(k as int)[w] == f);
                            assert(uv.take(k as int).contains(f));
                        } else {
                            assert(f == uv[k as int]);
                            assert(false);
                        }
                    }
                }
            }
        }
        k += 1;
    }
    proof {
        assert(uv.take(uv.len() as int) =~= uv);
        assert forall|f: Seq<char>| #[trigger]
            r.deep_view().contains(f) <==> in_inter_v(vs, f) by {
            if in_inter_v(vs, f) {
                lemma_inter_in_union(vs, f);
                assert(uv.contains(f));
            }
        }
    }
    r
}

/// Collects the unique fields: those in the union of all named field sets
/// but not common to every named variant.
pub fn fields_diff(variants: &Vec<VariantDef>) -> (r: Vec<String>)
    ensures
        forall|f: Seq<char>| #[trigger]
            r.deep_view().contains(f) <==> in_diff_v(variants.deep_view(), f),
        nodup_v(r.deep_view()),
{
    let ghost vs = variants.deep_view();
    let u = fields_union(variants);
    let ghost uv = u.deep_view();
    let mut r: Vec<String> = Vec::new();
    let has_named = has_named_variant(variants);
    let mut k: usize = 0;
    while k < u.len()
        invariant
            0 <= k <= u@.len(),
            vs == variants.deep_view(),
            uv == u.deep_view(),
            uv.len() == u@.len(),
            forall|f: Seq<char>| #[trigger] uv.contains(f) <==> in_union_v(vs, f),
            nodup_v(uv),
            has_named == exists|j: int|
                0 <= j < vs.len() && (#[trigger] vs[j].fields) is Named,
            forall|f: Seq<char>| #[trigger]
                r.deep_view().contains(f) <==> (uv.take(k as int).contains(f) && !in_inter_v(
                    vs,
                    f,
                )),
            nodup_v(r.deep_view()),
        decreases u@.len() - k,
    {
        let keep = !has_named || !in_all_named(variants, &u[k]);
        proof {
            assert(uv[k as int] == u@[k as int]@);
        }
        if keep {
            let ghost pre = r.deep_view();
            proof {
                assert(!in_inter_v(vs, uv[k as int]));
                if pre.contains(uv[k as int]) {
                    assert(uv.take(k as int).contains(uv[k as int]));
                    let w = choose|w: int|
                        0 <= w < k && #[trigger] uv.take(k as int)[w] == uv[k as int];
                    assert(uv[w] == uv[k as int]);
                    assert(false);
                }
            }
            r.push(u[k].clone());
            proof {
                assert(r.deep_view() =~= pre.push(uv[k as int]));
                assert forall|f: Seq<char>| #[trigger]
                    r.deep_view().contains(f) <==> (uv.take(k + 1 as int).contains(f)
                        && !in_inter_v(vs, f)) by {
                    if r.deep_view().contains(f) {
                        let w = choose|w: int|
                            0 <= w < r.deep_view().len() && #[trigger] r.deep_view()[w] == f;
                        if w < pre.len() {
                            assert(pre.contains(f));
                            let x = choose|x: int|
                                0 <= x < k && #[trigger] uv.take(k as int)[x] == f;
                            assert(uv.take(k + 1 as int)[x] == f);
                            assert(uv.take(k + 1 as int).contains(f));
                        } else {
                            assert(f == uv[k as int]);
                            assert(uv.take(k + 1 as int)[k as int] == f);
                            assert(uv.take(k + 1 as int).contains(f));
                        }
                    }
                    if uv.take(k + 1 as int).contains(f) && !in_inter_v(vs, f) {
                        let w = choose|w: int|
                            0 <= w < k + 1 && #[trigger] uv.take(k + 1 as int)[w] == f;
                        if w < k {
                            assert(uv.take(k as int)[w] == f);
                            assert(uv.take(k as int).contains(f));
                            assert(pre.contains(f));
                            let x = choose|x: int| 0 <= x < pre.len() && #[trigger] pre[x] == f;
                            assert(r.deep_view()[x] == f);
                        } else {
                            assert(f == uv[k as int]);
                            assert(r.deep_view()[pre.len() as int] == f);
                        }
                    }
                }
            }
        } else {
            proof {
                assert(in_inter_v(vs, uv[k as int]));
                assert forall|f: Seq<char>| #[trigger]
                    r.deep_view().contains(f) <==> (uv.take(k + 1 as int).contains(f)
                        && !in_inter_v(vs, f)) by {
                    if r.deep_view().contains(f) {
                        assert(uv.take(k as int).contains(f));
                        let x = choose|x: int|
                            0 <= x < k && #[trigger] uv.take(k as int)[x] == f;
                        assert(uv.take(k + 1 as int)[x] == f);
                        assert(uv.take(k + 1 as int).contains(f));
                    }
                    if uv.take(k + 1 as int).contains(f) && !in_inter_v(vs, f) {
                        let w = choose|w: int|
                            0 <= w < k + 1 && #[trigger] uv.take(k + 1 as int)[w] == f;
                        if w < k {
                            assert(uv.take(k as int)[w] == f);
                            assert(uv.take(k as int).contains(f));
                        } else {
                            assert(f == uv[k as int]);
                            assert(false);
                        }
                    }
                }
            }
        }
        k += 1;
    }
    proof {
        assert(uv.take(uv.len() as int) =~= uv);
    }
    r
}

/// The cumulative set of fields not shared by every variant: the fields the
/// per-variant constructors take as arguments.
pub fn get_unique_fields(variants: &Vec<VariantDef>) -> (r: Vec<String>)
    ensures
        forall|f: Seq<char>| #[trigger]
            r.deep_view().contains(f) <==> in_diff_v(variants.deep_view(), f),
        nodup_v(r.deep_view()),
{
    fields_diff(variants)
}

/// The constructor method's name for one variant.
pub open spec fn cnstr_method_name_v(variant: Seq<char>) -> Seq<char> {
    "new_"@ + snake_of(variant)
}

/// The receiver of a generated constructor: the trace manager itself.
pub open spec fn self_param_v() -> ParamV {
    ParamV { name: "self"@, ty: TyV::Ref(Box::new(TyV::Named(seq!["TraceMgr"@]))) }
}

/// The constructor's explicit parameters: one per unique field, each typed
/// as anything insertable into the arena.
pub open spec fn cnstr_params_v(fields: Seq<Seq<char>>) -> Seq<ParamV>
    decreases fields,
{
    if fields.len() == 0 {
        Seq::empty()
    } else {
        cnstr_params_v(fields.drop_last()).push(
            ParamV {
                name: fields.last(),
                ty: TyV::ImplTrait { bound: "HasInsertItem"@, item: None },
            },
        )
    }
}

/// The statement that stores one field's value and binds its index.
pub open spec fn cnstr_idx_stmt_v(f: Seq<char>) -> StmtV {
    StmtV::Local {
        pat: PatV::Ident(f + "_idx"@),
        init: ExprV::MethodCall {
            recv: Box::new(ExprV::PathRef(seq![f])),
            method: "insert_item"@,
            args: seq![
                ExprV::Ref(
                    Box::new(
                        ExprV::Field {
                            base: Box::new(ExprV::PathRef(seq!["self"@])),
                            field: "item_storage"@,
                        },
                    ),
                ),
            ],
        },
    }
}

/// The index-binding statements, one per unique field.
pub open spec fn cnstr_idx_stmts_v(fields: Seq<Seq<char>>) -> Seq<StmtV>
    decreases fields,
{
    if fields.len() == 0 {
        Seq::empty()
    } else {
        cnstr_idx_stmts_v(fields.drop_last()).push(cnstr_idx_stmt_v(fields.last()))
    }
}

/// The shared header field of the constructed step: a fresh safety index.
pub open spec fn info_field_v() -> FieldValueV {
    FieldValueV {
        name: "info"@,
        value: ExprV::Call {
            func: seq!["StepInfo"@, "new"@],
            args: seq![
                ExprV::MethodCall {
                    recv: Box::new(ExprV::PathRef(seq!["self"@])),
                    method: "next_safety_idx"@,
                    args: Seq::empty(),
                },
            ],
        },
    }
}

/// The variant-specific fields of the constructed step, each set to the
/// bound index.
pub open spec fn cnstr_ret_fields_v(fields: Seq<Seq<char>>) -> Seq<FieldValueV>
    decreases fields,
{
    if fields.len() == 0 {
        Seq::empty()
    } else {
        cnstr_ret_fields_v(fields.drop_last()).push(
            FieldValueV {
                name: fields.last(),
                value: ExprV::PathRef(seq![fields.last() + "_idx"@]),
            },
        )
    }
}

/// The whole generated constructor for one variant: it takes one argument
/// per unique field, stores each in the arena, stamps a fresh safety index,
/// and returns the fully formed step value.
pub open spec fn gen_cnstr_one_v(variant: Seq<char>, fields: Seq<Seq<char>>) -> ProcDefV {
    ProcDefV {
        name: cnstr_method_name_v(variant),
        params: seq![self_param_v()] + cnstr_params_v(fields),
        ret: TyV::Named(seq!["Step"@]),
        body: BlockV {
            stmts: cnstr_idx_stmts_v(fields).push(
                StmtV::Expr(
                    ExprV::Struct {
                        path: seq!["crate"@, "trace"@, "Step"@, variant],
                        fields: seq![info_field_v()] + cnstr_ret_fields_v(fields),
                    },
                ),
            ),
        },
    }
}

/// Generates the constructor method for one variant from its unique fields.
#[verifier::rlimit(60)]
pub fn gen_cnstr_one(variant_ident: &String, unique_fields: &Vec<String>) -> (r: ProcDef)
    ensures
        r.deep_view() == gen_cnstr_one_v(variant_ident@, unique_fields.deep_view()),
{
    let ghost fv = unique_fields.deep_view();
    let mut params: Vec<Param> = Vec::new();
    let self_p = Param {
        name: String::from_str("self"),
        ty: Ty::Ref(Box::new(Ty::Named(crate::transform::path_of_one("TraceMgr")))),
    };
    proof {
        match self_p.ty {
            Ty::Ref(ref b) => {
                assert((**b).deep_view() == TyV::Named(seq!["TraceMgr"@]));
            },
            _ => {},
        }
        assert(self_p.deep_view() == self_param_v());
    }
    params.push(self_p);
    proof {
        assert(fv.take(0) =~= Seq::<Seq<char>>::empty());
        assert(params_dv(Seq::<Param>::empty()) =~= Seq::<ParamV>::empty());
        assert(params@.drop_last() =~= Seq::<Param>::empty());
        assert(params_dv(params@) =~= seq![self_param_v()] + cnstr_params_v(fv.take(0)));
    }
    let mut idx_stmts: Vec<Stmt> = Vec::new();
    let mut ret_fields: Vec<FieldValue> = Vec::new();
    ret_fields.push(
        FieldValue {
            name: String::from_str("info"),
            value: Expr::Call {
                func: crate::transform::path_of_two("StepInfo", "new"),
                args: {
                    let mut v: Vec<Expr> = Vec::new();
                    v.push(
                        crate::transform::method_call(
                            crate::transform::path_ref1_str("self"),
                            "next_safety_idx",
                            Vec::new(),
                        ),
                    );
                    v
                },
            },
        },
    );
    proof {
        assert(exprs_dv(Seq::<Expr>::empty()) =~= Seq::<ExprV>::empty());
        assert(ret_fields@.len() == 1);
        assert(ret_fields@[0].deep_view() == info_field_v()) by {
            let fvz = ret_fields@[0];
            match fvz.value {
                Expr::Call { ref func, ref args } => {
                    lemma_exprs_dv(args@);
                    assert(exprs_dv(args@) =~= seq![
                        ExprV::MethodCall {
                            recv: Box::new(ExprV::PathRef(seq!["self"@])),
                            method: "next_safety_idx"@,
                            args: Seq::empty(),
                        },
                    ]);
                },
                _ => {},
            }
        }
        assert(fv.take(0) =~= Seq::<Seq<char>>::empty());
        assert(field_values_dv(Seq::<FieldValue>::empty()) =~= Seq::<FieldValueV>::empty());
        assert(ret_fields@.drop_last() =~= Seq::<FieldValue>::empty());
        assert(field_values_dv(ret_fields@) =~= seq![info_field_v()] + cnstr_ret_fields_v(
            fv.take(0),
        ));
    }
    let mut k: usize = 0;
    while k < unique_fields.len()
        invariant
            0 <= k <= unique_fields@.len(),
            fv == unique_fields.deep_view(),
            fv.len() == unique_fields@.len(),
            params_dv(params@) == seq![self_param_v()] + cnstr_params_v(fv.take(k as int)),
            stmts_dv(idx_stmts@) == cnstr_idx_stmts_v(fv.take(k as int)),
            field_values_dv(ret_fields@) == seq![info_field_v()] + cnstr_ret_fields_v(
                fv.take(k as int),
            ),
        decreases unique_fields@.len() - k,
    {
        let f = &unique_fields[k];
        proof {
            assert(fv[k as int] == f@);
            assert(fv.take(k + 1 as int).drop_last() =~= fv.take(k as int));
            assert(fv.take(k + 1 as int).last() == fv[k as int]);
        }
        let p = Param {
            name: f.clone(),
            ty: Ty::ImplTrait { bound: String::from_str("HasInsertItem"), item: None },
        };
        let ghost pp = params@;
        params.push(p);
        proof {
            assert(params@.drop_last() =~= pp);
            assert(p.deep_view() == (ParamV {
                name: fv[k as int],
                ty: TyV::ImplTrait { bound: "HasInsertItem"@, item: None },
            }));
            assert(params_dv(params@) =~= seq![self_param_v()] + cnstr_params_v(
                fv.take(k + 1 as int),
            ));
        }
        let storage_field = Expr::Field {
            base: Box::new(crate::transform::path_ref1_str("self")),
            field: String::from_str("item_storage"),
        };
        let storage_ref = Expr::Ref(Box::new(storage_field));
        proof {
            assert(storage_field.deep_view() == (ExprV::Field {
                base: Box::new(ExprV::PathRef(seq!["self"@])),
                field: "item_storage"@,
            }));
            assert(storage_ref.deep_view() == ExprV::Ref(Box::new(storage_field.deep_view())));
        }
        let mut ins_args: Vec<Expr> = Vec::new();
        ins_args.push(storage_ref);
        let stmt = crate::transform::local_stmt(
            f.clone().concat("_idx"),
            crate::transform::method_call(
                crate::transform::path_ref1(f),
                "insert_item",
                ins_args,
            ),
        );
        let ghost ss = idx_stmts@;
        idx_stmts.push(stmt);
        proof {
            lemma_exprs_dv(ins_args@);
            assert(exprs_dv(ins_args@) =~= seq![storage_ref.deep_view()]);
            assert(idx_stmts@.drop_last() =~= ss);
            assert(stmt.deep_view() == cnstr_idx_stmt_v(fv[k as int]));
            assert(stmts_dv(idx_stmts@) =~= cnstr_idx_stmts_v(fv.take(k + 1 as int)));
        }
        let rf = FieldValue {
            name: f.clone(),
            value: crate::transform::path_ref1(&f.clone().concat("_idx")),
        };
        let ghost rr = ret_fields@;
        ret_fields.push(rf);
        proof {
            assert(ret_fields@.drop_last() =~= rr);
            assert(rf.deep_view() == (FieldValueV {
                name: fv[k as int],
                value: ExprV::PathRef(seq![fv[k as int] + "_idx"@]),
            }));
            assert(field_values_dv(ret_fields@) =~= seq![info_field_v()] + cnstr_ret_fields_v(
                fv.take(k + 1 as int),
            ));
        }
        k += 1;
    }
    proof {
        assert(fv.take(fv.len() as int) =~= fv);
    }
    let mut path_segs: Vec<String> = Vec::new();
    path_segs.push(String::from_str("crate"));
    path_segs.push(String::from_str("trace"));
    path_segs.push(String::from_str("Step"));
    path_segs.push(variant_ident.clone());
    let struct_path = PathDef { segments: path_segs };
    proof {
        assert(struct_path@ =~= seq!["crate"@, "trace"@, "Step"@, variant_ident@]);
    }
    let ret_expr = Expr::Struct { path: struct_path, fields: ret_fields };
    let ghost body_pre = idx_stmts@;
    let mut body_stmts = idx_stmts;
    let final_stmt = Stmt::Expr(ret_expr);
    body_stmts.push(final_stmt);
    proof {
        assert(body_stmts@.drop_last() =~= body_pre);
        assert(stmts_dv(body_stmts@) == stmts_dv(body_pre).push(final_stmt.deep_view()));
    }
    let method_name = String::from_str("new_").concat(snake_case_name(variant_ident).as_str());
    let step_ret = Ty::Named(crate::transform::path_of_one("Step"));
    proof {
        assert(step_ret.deep_view() == TyV::Named(seq!["Step"@]));
    }
    let r = ProcDef { name: method_name, params, ret: step_ret, body: Block { stmts: body_stmts } };
    proof {
        assert(r.deep_view() == gen_cnstr_one_v(variant_ident@, fv));
    }
    r
}

/// One generated display arm: `Variant { .. } => "label"`.
#[derive(Debug, PartialEq, Eq)]
pub struct MatchArm {
    pub variant: String,
    pub label: String,
}

/// A generated display-name lookup: one method matching each variant to a
/// static label.
#[derive(Debug, PartialEq, Eq)]
pub struct NameGetter {
    pub method_name: String,
    pub arms: Vec<MatchArm>,
}

/// One entry of the variant-to-short-label mapping.
#[derive(Debug, PartialEq, Eq)]
pub struct LabelEntry {
    pub variant: String,
    pub label: String,
}

/// Builds the display arm that answers a variant's short label.
pub fn mk_match_arm_one_short(variant_ident: &String, retval: &String) -> (r: MatchArm)
    ensures
        r.variant@ == variant_ident@,
        r.label@ == retval@,
{
    MatchArm { variant: variant_ident.clone(), label: retval.clone() }
}

/// Builds the display arm that answers a variant's own name.
pub fn mk_match_arm_one(variant_ident: &String) -> (r: MatchArm)
    ensures
        r.variant@ == variant_ident@,
        r.label@ == variant_ident@,
{
    MatchArm { variant: variant_ident.clone(), label: variant_ident.clone() }
}

/// Generates the long-name lookup: one arm per variant, each answering the
/// variant's own name.
pub fn mk_name_getters2(base_enum: &UnionDef) -> (r: NameGetter)
    ensures
        r.method_name@ == "get_step_name_string"@,
        r.arms@.len() == base_enum.variants@.len(),
        forall|i: int|
            0 <= i < base_enum.variants@.len() ==> (#[trigger] r.arms@[i]).variant@
                == base_enum.variants@[i].name@ && r.arms@[i].label@ == base_enum.variants@[i].name@,
{
    let mut arms: Vec<MatchArm> = Vec::new();
    let mut i: usize = 0;
    while i < base_enum.variants.len()
        invariant
            0 <= i <= base_enum.variants@.len(),
            arms@.len() == i,
            forall|j: int|
                0 <= j < i ==> (#[trigger] arms@[j]).variant@ == base_enum.variants@[j].name@
                    && arms@[j].label@ == base_enum.variants@[j].name@,
        decreases base_enum.variants@.len() - i,
    {
        arms.push(mk_match_arm_one(&base_enum.variants[i].name));
        i += 1;
    }
    NameGetter { method_name: String::from_str("get_step_name_string"), arms }
}

/// The long-name lookup, generated from the enum's original declaration
/// form; the arms are the same as [`mk_name_getters2`]'s.
pub fn mk_name_getters(original_input: &UnionDef) -> (r: NameGetter)
    ensures
        r.method_name@ == "get_step_name_string"@,
        r.arms@.len() == original_input.variants@.len(),
        forall|i: int|
            0 <= i < original_input.variants@.len() ==> (#[trigger] r.arms@[i]).variant@
                == original_input.variants@[i].name@ && r.arms@[i].label@
                == original_input.variants@[i].name@,
{
    mk_name_getters2(original_input)
}

/// The long-name lookup once more, under the name the short-name pass
/// reaches it by; it answers long names, as its arms show.
pub fn mk_short_name_getters(original_input: &UnionDef) -> (r: NameGetter)
    ensures
        r.method_name@ == "get_step_name_string"@,
        r.arms@.len() == original_input.variants@.len(),
        forall|i: int|
            0 <= i < original_input.variants@.len() ==> (#[trigger] r.arms@[i]).variant@
                == original_input.variants@[i].name@ && r.arms@[i].label@
                == original_input.variants@[i].name@,
{
    mk_name_getters2(original_input)
}

/// Generates the short-name lookup from a variant-to-label mapping.
pub fn mk_name_getters_short(kvs: &Vec<LabelEntry>) -> (r: NameGetter)
    ensures
        r.method_name@ == "get_step_name_string_short"@,
        r.arms@.len() == kvs@.len(),
        forall|i: int|
            0 <= i < kvs@.len() ==> (#[trigger] r.arms@[i]).variant@ == kvs@[i].variant@
                && r.arms@[i].label@ == kvs@[i].label@,
{
    let mut arms: Vec<MatchArm> = Vec::new();
    let mut i: usize = 0;
    while i < kvs.len()
        invariant
            0 <= i <= kvs@.len(),
            arms@.len() == i,
            forall|j: int|
                0 <= j < i ==> (#[trigger] arms@[j]).variant@ == kvs@[j].variant@
                    && arms@[j].label@ == kvs@[j].label@,
        decreases kvs@.len() - i,
    {
        arms.push(mk_match_arm_one_short(&kvs[i].variant, &kvs[i].label));
        i += 1;
    }
    NameGetter { method_name: String::from_str("get_step_name_string_short"), arms }
}

/// The label a variant resolves to: its explicit short annotation when
/// present, its own name otherwise.
pub open spec fn label_of_v(v: VariantDefV) -> Seq<char> {
    match v.short {
        Some(s) => s,
        None => v.name,
    }
}

/// No two variants resolve to the same label.
pub open spec fn labels_distinct_v(vs: Seq<VariantDefV>) -> bool {
    forall|i: int, j: int|
        0 <= i < j < vs.len() ==> label_of_v(#[trigger] vs[i]) != label_of_v(#[trigger] vs[j])
}

/// Resolves the total variant-to-label mapping: the explicit short label
/// where annotated, the variant's own name otherwise. Fails — rather than
/// silently picking one — exactly when two variants resolve to the same
/// label, which must be globally unique display keys.
pub fn collect_short_attrs(base_enum: &UnionDef) -> (r: Result<Vec<LabelEntry>, DeriveError>)
    ensures
        r is Ok <==> labels_distinct_v(base_enum.variants.deep_view()),
        r is Err ==> r == Err::<Vec<LabelEntry>, _>(DeriveError::DuplicateShortName),
        match r {
            Ok(m) => {
                &&& m@.len() == base_enum.variants@.len()
                &&& forall|i: int|
                    0 <= i < m@.len() ==> (#[trigger] m@[i]).variant@
                        == base_enum.variants.deep_view()[i].name && m@[i].label@ == label_of_v(
                        base_enum.variants.deep_view()[i],
                    )
            },
            Err(_) => true,
        },
{
    let ghost vs = base_enum.variants.deep_view();
    let mut acc: Vec<LabelEntry> = Vec::new();
    let mut i: usize = 0;
    proof {
        assert(vs.len() == base_enum.variants@.len());
    }
    while i < base_enum.variants.len()
        invariant
            0 <= i <= base_enum.variants@.len(),
            vs == base_enum.variants.deep_view(),
            vs.len() == base_enum.variants@.len(),
            forall|j: int| 0 <= j < vs.len() ==> vs[j] == base_enum.variants@[j].deep_view(),
            acc@.len() == i,
            forall|j: int|
                0 <= j < i ==> (#[trigger] acc@[j]).variant@ == vs[j].name && acc@[j].label@
                    == label_of_v(vs[j]),
        decreases base_enum.variants@.len() - i,
    {
        let v = &base_enum.variants[i];
        let label = match &v.short {
            Some(s) => s.clone(),
            None => v.name.clone(),
        };
        acc.push(LabelEntry { variant: v.name.clone(), label });
        i += 1;
    }
    let mut a: usize = 0;
    while a < acc.len()
        invariant
            0 <= a <= acc@.len(),
            vs == base_enum.variants.deep_view(),
            vs.len() == acc@.len(),
            forall|j: int|
                0 <= j < acc@.len() ==> (#[trigger] acc@[j]).variant@ == vs[j].name
                    && acc@[j].label@ == label_of_v(vs[j]),
            forall|x: int, y: int|
                0 <= x < a && x < y < acc@.len() ==> label_of_v(#[trigger] vs[x]) != label_of_v(
                    #[trigger] vs[y],
                ),
        decreases acc@.len() - a,
    {
        let mut b: usize = a + 1;
        while b < acc.len()
            invariant
                0 <= a < b <= acc@.len() || (a + 1 == b && b > acc@.len() - 1 && a < acc@.len()),
                a < acc@.len(),
                a + 1 <= b,
                b <= acc@.len() || b == a + 1,
                vs == base_enum.variants.deep_view(),
                vs.len() == acc@.len(),
                forall|j: int|
                    0 <= j < acc@.len() ==> (#[trigger] acc@[j]).variant@ == vs[j].name
                        && acc@[j].label@ == label_of_v(vs[j]),
                forall|y: int|
                    a < y < b && y < acc@.len() ==> label_of_v(vs[a as int]) != label_of_v(
                        #[trigger] vs[y],
                    ),
            decreases acc@.len() - b,
        {
            if acc[a].label == acc[b].label {
                proof {
                    assert(label_of_v(vs[a as int]) == label_of_v(vs[b as int]));
                    assert(!labels_distinct_v(vs));
                }
                return Err(DeriveError::DuplicateShortName);
            }
            b += 1;
        }
        a += 1;
    }
    proof {
        assert(labels_distinct_v(vs));
    }
    Ok(acc)
}

/// The named fields of one variant that are among the unique fields, in
/// declaration order: the argument list of that variant's constructor.
pub open spec fn filter_unique_v(fs: Seq<Seq<char>>, vs: Seq<VariantDefV>) -> Seq<Seq<char>>
    decreases fs,
{
    if fs.len() == 0 {
        Seq::empty()
    } else {
        let pre = filter_unique_v(fs.drop_last(), vs);
        if in_diff_v(vs, fs.last()) {
            pre.push(fs.last())
        } else {
            pre
        }
    }
}

/// Generates one constructor per variant, each taking that variant's unique
/// fields. Fails when some variant's fields are not in named form.
pub fn derive_cnstrs2(base_enum: &UnionDef) -> (r: Result<Vec<ProcDef>, DeriveError>)
    ensures
        r is Err <==> (exists|i: int|
            0 <= i < base_enum.variants.deep_view().len() && !((
            #[trigger] base_enum.variants.deep_view()[i].fields) is Named)),
        r is Err ==> r == Err::<Vec<ProcDef>, _>(DeriveError::NotNamedFields),
        match r {
            Ok(cs) => {
                &&& cs@.len() == base_enum.variants@.len()
                &&& forall|i: int|
                    0 <= i < cs@.len() ==> (#[trigger] cs@[i]).deep_view() == gen_cnstr_one_v(
                        base_enum.variants.deep_view()[i].name,
                        filter_unique_v(
                            named_fields_v(base_enum.variants.deep_view()[i]),
                            base_enum.variants.deep_view(),
                        ),
                    )
            },
            Err(_) => true,
        },
{
    let ghost vs = base_enum.variants.deep_view();
    let unique = get_unique_fields(&base_enum.variants);
    let mut out: Vec<ProcDef> = Vec::new();
    let mut i: usize = 0;
    proof {
        assert(vs.len() == base_enum.variants@.len());
    }
    while i < base_enum.variants.len()
        invariant
            0 <= i <= base_enum.variants@.len(),
            vs == base_enum.variants.deep_view(),
            vs.len() == base_enum.variants@.len(),
            forall|j: int| 0 <= j < vs.len() ==> vs[j] == base_enum.variants@[j].deep_view(),
            forall|f: Seq<char>| #[trigger] unique.deep_view().contains(f) <==> in_diff_v(vs, f),
            out@.len() == i,
            forall|j: int| 0 <= j < i ==> (#[trigger] vs[j].fields) is Named,
            forall|j: int|
                0 <= j < i ==> (#[trigger] out@[j]).deep_view() == gen_cnstr_one_v(
                    vs[j].name,
                    filter_unique_v(named_fields_v(vs[j]), vs),
                ),
        decreases base_enum.variants@.len() - i,
    {
        match &base_enum.variants[i] {
            VariantDef { name, fields: FieldsDef::Named(fs), short } => {
                let ghost fsv = fs.deep_view();
                proof {
                    assert(named_fields_v(vs[i as int]) == fsv);
                }
                let mut filtered: Vec<String> = Vec::new();
                let mut k: usize = 0;
                proof {
                    assert(filtered.deep_view() =~= filter_unique_v(fsv.take(0), vs));
                }
                while k < fs.len()
                    invariant
                        0 <= k <= fs@.len(),
                        fsv == fs.deep_view(),
                        fsv.len() == fs@.len(),
                        vs == base_enum.variants.deep_view(),
                        forall|f: Seq<char>| #[trigger]
                            unique.deep_view().contains(f) <==> in_diff_v(vs, f),
                        filtered.deep_view() == filter_unique_v(fsv.take(k as int), vs),
                    decreases fs@.len() - k,
                {
                    proof {
                        assert(fsv[k as int] == fs@[k as int]@);
                        assert(fsv.take(k + 1 as int).drop_last() =~= fsv.take(k as int));
                        assert(fsv.take(k + 1 as int).last() == fsv[k as int]);
                    }
                    if name_in_list(&unique, &fs[k]) {
                        let ghost pre = filtered.deep_view();
                        filtered.push(fs[k].clone());
                        proof {
                            assert(filtered.deep_view() =~= pre.push(fsv[k as int]));
                        }
                    }
                    k += 1;
                }
                proof {
                    assert(fsv.take(fsv.len() as int) =~= fsv);
                }
                let c = gen_cnstr_one(name, &filtered);
                out.push(c);
            },
            _ => {
                proof {
                    assert(!(vs[i as int].fields is Named));
                }
                return Err(DeriveError::NotNamedFields);
            },
        }
        i += 1;
    }
    Ok(out)
}

/// Generates the constructors from the enum's original declaration form;
/// the result is the same as [`derive_cnstrs2`]'s.
pub fn derive_cnstrs(original_input: &UnionDef) -> (r: Result<Vec<ProcDef>, DeriveError>)
    ensures
        r is Err <==> (exists|i: int|
            0 <= i < original_input.variants.deep_view().len() && !((
            #[trigger] original_input.variants.deep_view()[i].fields) is Named)),
        r is Err ==> r == Err::<Vec<ProcDef>, _>(DeriveError::NotNamedFields),
        match r {
            Ok(cs) => {
                &&& cs@.len() == original_input.variants@.len()
                &&& forall|i: int|
                    0 <= i < cs@.len() ==> (#[trigger] cs@[i]).deep_view() == gen_cnstr_one_v(
                        original_input.variants.deep_view()[i].name,
                        filter_unique_v(
                            named_fields_v(original_input.variants.deep_view()[i]),
                            original_input.variants.deep_view(),
                        ),
                    )
            },
            Err(_) => true,
        },
{
    derive_cnstrs2(original_input)
}

/// Everything the step derivation produces for one tagged union: the
/// short-name lookup, the long-name lookup, and one constructor per
/// variant.
#[derive(Debug, PartialEq, Eq)]
pub struct StepDeriveOutput {
    pub short_name_getters: NameGetter,
    pub name_getters: NameGetter,
    pub cnstr_impls: Vec<ProcDef>,
}

/// Runs the whole step derivation: resolves and checks the short labels,
/// generates both display-name lookups, and derives the per-variant
/// constructors. Fails on a duplicate label, then on a variant whose fields
/// are not named.
pub fn is_step(as_enum: &UnionDef) -> (r: Result<StepDeriveOutput, DeriveError>)
    ensures
        !labels_distinct_v(as_enum.variants.deep_view()) ==> r == Err::<StepDeriveOutput, _>(
            DeriveError::DuplicateShortName,
        ),
        labels_distinct_v(as_enum.variants.deep_view()) && (exists|i: int|
            0 <= i < as_enum.variants.deep_view().len() && !((
            #[trigger] as_enum.variants.deep_view()[i].fields) is Named)) ==> r == Err::<
            StepDeriveOutput,
            _,
        >(DeriveError::NotNamedFields),
        match r {
            Ok(out) => {
                &&& labels_distinct_v(as_enum.variants.deep_view())
                &&& out.short_name_getters.method_name@ == "get_step_name_string_short"@
                &&& out.short_name_getters.arms@.len() == as_enum.variants@.len()
                &&& forall|i: int|
                    0 <= i < as_enum.variants@.len() ==> (
                    #[trigger] out.short_name_getters.arms@[i]).variant@
                        == as_enum.variants.deep_view()[i].name
                        && out.short_name_getters.arms@[i].label@ == label_of_v(
                        as_enum.variants.deep_view()[i],
                    )
                &&& out.name_getters.method_name@ == "get_step_name_string"@
                &&& out.name_getters.arms@.len() == as_enum.variants@.len()
                &&& forall|i: int|
                    0 <= i < as_enum.variants@.len() ==> (#[trigger] out.name_getters.arms@[i]).variant@
                        == as_enum.variants@[i].name@ && out.name_getters.arms@[i].label@
                        == as_enum.variants@[i].name@
                &&& out.cnstr_impls@.len() == as_enum.variants@.len()
                &&& forall|i: int|
                    0 <= i < out.cnstr_impls@.len() ==> (#[trigger] out.cnstr_impls@[i]).deep_view()
                        == gen_cnstr_one_v(
                        as_enum.variants.deep_view()[i].name,
                        filter_unique_v(
                            named_fields_v(as_enum.variants.deep_view()[i]),
                            as_enum.variants.deep_view(),
                        ),
                    )
            },
            Err(_) => !labels_distinct_v(as_enum.variants.deep_view()) || (exists|i: int|
                0 <= i < as_enum.variants.deep_view().len() && !((
                #[trigger] as_enum.variants.deep_view()[i].fields) is Named)),
        },
{
    let short_set = match collect_short_attrs(as_enum) {
        Ok(m) => m,
        Err(e) => {
            return Err(DeriveError::DuplicateShortName);
        },
    };
    let short_name_getters = mk_name_getters_short(&short_set);
    let name_getters = mk_name_getters2(as_enum);
    let cnstr_impls = match derive_cnstrs2(as_enum) {
        Ok(cs) => cs,
        Err(e) => {
            return Err(DeriveError::NotNamedFields);
        },
    };
    Ok(StepDeriveOutput { short_name_getters, name_getters, cnstr_impls })
}

} // verus!
