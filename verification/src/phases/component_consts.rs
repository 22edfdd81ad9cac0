//! Constant collection over a component's template: the extracted attributes of every view are
//! gathered per target element, each target's non-empty array becomes a constant, and the
//! element operations take the index of their target's constant (projections the array itself).

use vstd::prelude::*;
use crate::output::{Expression, SExpr, XrefId, expr_view, exprs_view, clone_expr};
use crate::ir::{
    ConstIndex, CompatibilityMode, CreateOp, SCreateOp, SElementBase, SExtracted, create_op_view, create_ops_view,
    extracted_view, opt_expr_view, lemma_create_ops_view_push, lemma_create_ops_view_index, lemma_create_ops_view_len,
};
use crate::component::{
    ComponentCompilationJob, ViewCompilationUnit, spec_add_const, same_unit_but_create, units_related, view_entries, take_view_units, restore_view_units, unit_keys,
    lemma_units_related_push, lemma_units_related_keys,
};
use crate::phases::const_collection::{ElementAttributes, SAttrs, empty_attrs, spec_add, spec_serialize, serialize_attributes};

verus! {

/// The index of the first entry for target `x` in a list of keys.
pub open spec fn key_index(keys: Seq<XrefId>, x: XrefId) -> Option<int>
    decreases keys.len(),
{
    if keys.len() == 0 {
        None
    } else {
        match key_index(keys.drop_last(), x) {
            Some(i) => Some(i),
            None => if keys.last() == x {
                Some(keys.len() - 1)
            } else {
                None
            },
        }
    }
}

/// The targets of gathered attributes, in order.
pub open spec fn gathered_keys(g: Seq<(XrefId, SAttrs)>) -> Seq<XrefId> {
    g.map_values(|p: (XrefId, SAttrs)| p.0)
}

/// The gathered attributes with one more extracted attribute, added to those of its target (a
/// target seen for the first time goes last); `None` where the attribute cannot be added.
pub open spec fn gather_attribute(g: Seq<(XrefId, SAttrs)>, compat: CompatibilityMode, e: SExtracted) -> Option<
    Seq<(XrefId, SAttrs)>,
> {
    let found = key_index(gathered_keys(g), e.target);
    let base = match found {
        Some(i) => g[i].1,
        None => empty_attrs(),
    };
    match spec_add(base, compat, e.binding_kind, e.name, e.expression, e.namespace, e.trusted_value_fn) {
        None => None,
        Some(b) => Some(
            match found {
                Some(i) => g.update(i, (e.target, b)),
                None => g.push((e.target, b)),
            },
        ),
    }
}

/// The gathered attributes after the extracted attributes of a creation list, in order.
pub open spec fn gather_list(g: Option<Seq<(XrefId, SAttrs)>>, ops: Seq<SCreateOp>, compat: CompatibilityMode) -> Option<
    Seq<(XrefId, SAttrs)>,
>
    decreases ops.len(),
{
    if ops.len() == 0 {
        g
    } else {
        match gather_list(g, ops.drop_last(), compat) {
            None => None,
            Some(h) => match ops.last() {
                SCreateOp::ExtractedAttribute(e) => gather_attribute(h, compat, e),
                _ => Some(h),
            },
        }
    }
}

/// The gathered attributes after the creation lists of a list of views, in order.
pub open spec fn gather_units(
    g: Option<Seq<(XrefId, SAttrs)>>,
    units: Seq<(u64, ViewCompilationUnit)>,
    compat: CompatibilityMode,
) -> Option<Seq<(XrefId, SAttrs)>>
    decreases units.len(),
{
    if units.len() == 0 {
        g
    } else {
        gather_list(gather_units(g, units.drop_last(), compat), create_ops_view(units.last().1.create@), compat)
    }
}

/// The attributes of a whole template, gathered from the root view and then from each embedded
/// view; `None` where one of them cannot be added.
pub open spec fn spec_gather_job(job: ComponentCompilationJob) -> Option<Seq<(XrefId, SAttrs)>> {
    gather_units(
        gather_list(Some(Seq::empty()), create_ops_view(job.root.create@), job.compatibility),
        view_entries(job.views),
        job.compatibility,
    )
}

/// A creation list without its extracted attributes.
pub open spec fn drop_extracted(ops: Seq<SCreateOp>) -> Seq<SCreateOp>
    decreases ops.len(),
{
    if ops.len() == 0 {
        Seq::empty()
    } else {
        let r = drop_extracted(ops.drop_last());
        match ops.last() {
            SCreateOp::ExtractedAttribute(_) => r,
            op => r.push(op),
        }
    }
}

/// The constant array of a target's attributes.
pub open spec fn attr_array(a: SAttrs) -> SExpr {
    SExpr::LiteralArray { entries: spec_serialize(a), source_span: None }
}

/// The constants after each target's non-empty array is added, in order, and the constant
/// index of each target (`None` for an empty array).
pub open spec fn assign_consts(consts: Seq<SExpr>, g: Seq<(XrefId, SAttrs)>) -> (Seq<SExpr>, Seq<Option<usize>>)
    decreases g.len(),
{
    if g.len() == 0 {
        (consts, Seq::empty())
    } else {
        let (c, idx) = assign_consts(consts, g.drop_last());
        if spec_serialize(g.last().1).len() > 0 {
            let (c2, i) = spec_add_const(c, attr_array(g.last().1));
            (c2, idx.push(Some(i as usize)))
        } else {
            (c, idx.push(None))
        }
    }
}

/// The array of each target, where it is not empty.
pub open spec fn target_arrays(g: Seq<(XrefId, SAttrs)>) -> Seq<Option<SExpr>> {
    g.map_values(
        |p: (XrefId, SAttrs)|
            if spec_serialize(p.1).len() > 0 {
                Some(attr_array(p.1))
            } else {
                None
            },
    )
}

/// The constant index of a target's attributes, where it has a non-empty array.
pub open spec fn const_for(keys: Seq<XrefId>, idx: Seq<Option<usize>>, x: XrefId) -> Option<ConstIndex> {
    match key_index(keys, x) {
        Some(i) => match idx[i] {
            Some(k) => Some(ConstIndex { index: k }),
            None => None,
        },
        None => None,
    }
}

/// An element base with the given attributes.
pub open spec fn with_attributes(b: SElementBase, a: Option<ConstIndex>) -> SElementBase {
    SElementBase { attributes: a, ..b }
}

/// An operation with its target's constant: an element-like operation takes the constant index
/// of its attributes (none where it has none), a projection the array itself where it has one.
pub open spec fn place_const(op: SCreateOp, keys: Seq<XrefId>, idx: Seq<Option<usize>>, arrs: Seq<Option<SExpr>>) -> SCreateOp {
    match op {
        SCreateOp::ElementStart(b) => SCreateOp::ElementStart(with_attributes(b, const_for(keys, idx, b.xref))),
        SCreateOp::Element(b) => SCreateOp::Element(with_attributes(b, const_for(keys, idx, b.xref))),
        SCreateOp::Template(b) => SCreateOp::Template(with_attributes(b, const_for(keys, idx, b.xref))),
        SCreateOp::ContainerStart(b) => SCreateOp::ContainerStart(with_attributes(b, const_for(keys, idx, b.xref))),
        SCreateOp::Container(b) => SCreateOp::Container(with_attributes(b, const_for(keys, idx, b.xref))),
        SCreateOp::ConditionalCreate(b) => SCreateOp::ConditionalCreate(with_attributes(b, const_for(keys, idx, b.xref))),
        SCreateOp::ConditionalBranchCreate(b) => SCreateOp::ConditionalBranchCreate(
            with_attributes(b, const_for(keys, idx, b.xref)),
        ),
        SCreateOp::RepeaterCreate(b) => SCreateOp::RepeaterCreate(with_attributes(b, const_for(keys, idx, b.xref))),
        SCreateOp::Projection { xref, slot, projection_slot_index, attributes } => match key_index(keys, xref) {
            Some(i) => match arrs[i] {
                Some(a) => SCreateOp::Projection { xref, slot, projection_slot_index, attributes: Some(a) },
                None => op,
            },
            None => op,
        },
        _ => op,
    }
}

/// A creation list with each operation given its target's constant.
pub open spec fn place_consts(ops: Seq<SCreateOp>, keys: Seq<XrefId>, idx: Seq<Option<usize>>, arrs: Seq<Option<SExpr>>) -> Seq<
    SCreateOp,
> {
    ops.map_values(|op: SCreateOp| place_const(op, keys, idx, arrs))
}

/// A view after constant collection: its extracted attributes are gone and its operations hold
/// their targets' constants; the rest is as it was.
pub open spec fn consts_step(
    u: ViewCompilationUnit,
    v: ViewCompilationUnit,
    keys: Seq<XrefId>,
    idx: Seq<Option<usize>>,
    arrs: Seq<Option<SExpr>>,
) -> bool {
    &&& same_unit_but_create(v, u)
    &&& create_ops_view(v.create@) == place_consts(drop_extracted(create_ops_view(u.create@)), keys, idx, arrs)
}

/// The relation of each embedded view after constant collection to the view before it.
pub open spec fn consts_step_rel(
    keys: Seq<XrefId>,
    idx: Seq<Option<usize>>,
    arrs: Seq<Option<SExpr>>,
) -> spec_fn(int, ViewCompilationUnit, ViewCompilationUnit) -> bool {
    |i: int, u: ViewCompilationUnit, v: ViewCompilationUnit| consts_step(u, v, keys, idx, arrs)
}

/// A view after its extracted attributes are taken out.
pub open spec fn drop_step(u: ViewCompilationUnit, v: ViewCompilationUnit) -> bool {
    &&& same_unit_but_create(v, u)
    &&& create_ops_view(v.create@) == drop_extracted(create_ops_view(u.create@))
}

pub open spec fn drop_step_rel() -> spec_fn(int, ViewCompilationUnit, ViewCompilationUnit) -> bool {
    |i: int, u: ViewCompilationUnit, v: ViewCompilationUnit| drop_step(u, v)
}

/// A view whose operations take their targets' constants.
pub open spec fn place_step(
    u: ViewCompilationUnit,
    v: ViewCompilationUnit,
    keys: Seq<XrefId>,
    idx: Seq<Option<usize>>,
    arrs: Seq<Option<SExpr>>,
) -> bool {
    &&& same_unit_but_create(v, u)
    &&& create_ops_view(v.create@) == place_consts(create_ops_view(u.create@), keys, idx, arrs)
}

pub open spec fn place_step_rel(
    keys: Seq<XrefId>,
    idx: Seq<Option<usize>>,
    arrs: Seq<Option<SExpr>>,
) -> spec_fn(int, ViewCompilationUnit, ViewCompilationUnit) -> bool {
    |i: int, u: ViewCompilationUnit, v: ViewCompilationUnit| place_step(u, v, keys, idx, arrs)
}

/// The gathered attributes of an executable list.
pub open spec fn gathered_view(v: Seq<(XrefId, ElementAttributes)>) -> Seq<(XrefId, SAttrs)> {
    v.map_values(|p: (XrefId, ElementAttributes)| (p.0, p.1@))
}

proof fn lemma_key_index_prefix(s: Seq<XrefId>, x: XrefId, k: int)
    requires
        0 <= k <= s.len(),
        key_index(s.take(k), x) is Some,
    ensures
        key_index(s, x) == key_index(s.take(k), x),
    decreases s.len(),
{
    if k < s.len() {
        assert(s.drop_last().take(k) =~= s.take(k));
        lemma_key_index_prefix(s.drop_last(), x, k);
    } else {
        assert(s.take(k) =~= s);
    }
}

proof fn lemma_key_index_bounds(s: Seq<XrefId>, x: XrefId)
    ensures
        key_index(s, x) matches Some(i) ==> 0 <= i < s.len() && s[i] == x,
    decreases s.len(),
{
    if s.len() > 0 {
        lemma_key_index_bounds(s.drop_last(), x);
    }
}

/// The first index of `x` among the keys.
fn find_key(keys: &Vec<XrefId>, x: XrefId) -> (r: Option<usize>)
    ensures
        r matches Some(i) ==> key_index(keys@, x) == Some(i as int) && i < keys@.len() && keys@[i as int] == x,
        r is None ==> key_index(keys@, x) is None,
{
    let mut j: usize = 0;
    proof {
        assert(keys@.take(0) =~= Seq::<XrefId>::empty());
    }
    while j < keys.len()
        invariant
            j <= keys@.len(),
            key_index(keys@.take(j as int), x) is None,
        decreases keys@.len() - j,
    {
        proof {
            assert(keys@.take(j + 1).drop_last() =~= keys@.take(j as int));
        }
        if keys[j] == x {
            proof {
                assert(key_index(keys@.take(j + 1), x) == Some(j as int));
                lemma_key_index_prefix(keys@, x, j + 1);
                assert(keys@[j as int] == x);
            }
            return Some(j);
        }
        j += 1;
    }
    proof {
        assert(keys@.take(keys@.len() as int) =~= keys@);
    }
    None
}

proof fn lemma_gather_list_prefix(g: Option<Seq<(XrefId, SAttrs)>>, s: Seq<SCreateOp>, compat: CompatibilityMode, k: int)
    requires
        0 <= k <= s.len(),
        gather_list(g, s, compat) is Some,
    ensures
        gather_list(g, s.take(k), compat) is Some,
    decreases s.len(),
{
    if k < s.len() {
        assert(s.drop_last().take(k) =~= s.take(k));
        lemma_gather_list_prefix(g, s.drop_last(), compat, k);
    } else {
        assert(s.take(k) =~= s);
    }
}

proof fn lemma_gather_list_none(s: Seq<SCreateOp>, compat: CompatibilityMode)
    ensures
        gather_list(None, s, compat) is None,
    decreases s.len(),
{
    if s.len() > 0 {
        lemma_gather_list_none(s.drop_last(), compat);
    }
}

proof fn lemma_gather_units_none(s: Seq<(u64, ViewCompilationUnit)>, compat: CompatibilityMode)
    ensures
        gather_units(None, s, compat) is None,
    decreases s.len(),
{
    if s.len() > 0 {
        lemma_gather_units_none(s.drop_last(), compat);
        lemma_gather_list_none(create_ops_view(s.last().1.create@), compat);
    }
}

proof fn lemma_gather_units_prefix(
    g: Option<Seq<(XrefId, SAttrs)>>,
    s: Seq<(u64, ViewCompilationUnit)>,
    compat: CompatibilityMode,
    k: int,
)
    requires
        0 <= k <= s.len(),
        gather_units(g, s, compat) is Some,
    ensures
        gather_units(g, s.take(k), compat) is Some,
    decreases s.len(),
{
    if k < s.len() {
        assert(s.drop_last().take(k) =~= s.take(k));
        if gather_units(g, s.drop_last(), compat) is None {
            lemma_gather_list_none(create_ops_view(s.last().1.create@), compat);
        }
        lemma_gather_units_prefix(g, s.drop_last(), compat, k);
    } else {
        assert(s.take(k) =~= s);
    }
}

/// Whether an executable list of gathered attributes and its keys agree, each with the
/// compatibility mode.
pub open spec fn gathered_ok(g: Seq<(XrefId, ElementAttributes)>, keys: Seq<XrefId>, compat: CompatibilityMode) -> bool {
    &&& keys == gathered_keys(gathered_view(g))
    &&& forall|k: int| 0 <= k < g.len() ==> (#[trigger] g[k]).1.compatibility == compat
}

/// Add one extracted attribute to the gathered attributes.
fn gather_one(
    g: &mut Vec<(XrefId, ElementAttributes)>,
    keys: &mut Vec<XrefId>,
    compat: CompatibilityMode,
    e: crate::ir::ExtractedAttributeOp,
)
    requires
        gathered_ok(old(g)@, old(keys)@, compat),
        gather_attribute(gathered_view(old(g)@), compat, extracted_view(e)) is Some,
    ensures
        gathered_ok(final(g)@, final(keys)@, compat),
        Some(gathered_view(final(g)@)) == gather_attribute(gathered_view(old(g)@), compat, extracted_view(e)),
{
    let ghost gv = gathered_view(g@);
    let ghost ev = extracted_view(e);
    let target = e.target;
    let found = find_key(keys, target);
    proof {
        lemma_key_index_bounds(keys@, target);
    }
    match found {
        Some(i) => {
            let ghost g0 = g@;
            let (x, mut ea) = g.remove(i);
            proof {
                assert(g0[i as int] == (x, ea));
                assert(ea.compatibility == compat);
                assert(gv[i as int] == (g0[i as int].0, g0[i as int].1@));
                assert(gathered_keys(gv)[i as int] == gv[i as int].0);
                assert(keys@[i as int] == target);
                assert(x == target);
                assert(ea@ == gv[i as int].1);
            }
            ea.add(e.binding_kind, e.name, e.expression, e.namespace, e.trusted_value_fn);
            let ghost entry = (x, ea);
            let ghost g1 = g@;
            g.insert(i, (x, ea));
            proof {
                assert(g1 == g0.remove(i as int));
                assert(g@ == g1.insert(i as int, entry));
                assert(g@ =~= g0.update(i as int, entry));
                assert(gathered_view(g@) =~= gv.update(i as int, (target, entry.1@)));
                assert(gathered_keys(gathered_view(g@)) =~= keys@);
            }
        },
        None => {
            let mut ea = ElementAttributes::new(compat);
            ea.add(e.binding_kind, e.name, e.expression, e.namespace, e.trusted_value_fn);
            let ghost g0 = g@;
            g.push((target, ea));
            keys.push(target);
            proof {
                assert(gathered_view(g@) =~= gv.push((target, ea@)));
                assert(gathered_keys(gathered_view(g@)) =~= gathered_keys(gv).push(target));
            }
        },
    }
}

/// Gather the extracted attributes of a creation list and take them out of it.
fn gather_from_list(
    create: &mut Vec<CreateOp>,
    g: &mut Vec<(XrefId, ElementAttributes)>,
    keys: &mut Vec<XrefId>,
    compat: CompatibilityMode,
)
    requires
        gathered_ok(old(g)@, old(keys)@, compat),
        gather_list(Some(gathered_view(old(g)@)), create_ops_view(old(create)@), compat) is Some,
    ensures
        gathered_ok(final(g)@, final(keys)@, compat),
        Some(gathered_view(final(g)@)) == gather_list(Some(gathered_view(old(g)@)), create_ops_view(old(create)@), compat),
        create_ops_view(final(create)@) == drop_extracted(create_ops_view(old(create)@)),
{
    let ghost c0 = create@;
    let ghost cv = create_ops_view(c0);
    let ghost g0 = gathered_view(g@);
    proof {
        lemma_create_ops_view_len(c0);
    }
    let mut ops: Vec<CreateOp> = Vec::new();
    std::mem::swap(&mut ops, create);
    let n = ops.len();
    let mut rest: Vec<CreateOp> = Vec::new();
    let mut i: usize = 0;
    proof {
        assert(cv.take(0) =~= Seq::<SCreateOp>::empty());
        assert(create_ops_view(rest@) =~= Seq::<SCreateOp>::empty());
    }
    while i < n
        invariant
            n == c0.len(),
            i <= n,
            ops@ == c0.skip(i as int),
            cv == create_ops_view(c0),
            cv.len() == n,
            gathered_ok(g@, keys@, compat),
            gather_list(Some(g0), cv, compat) is Some,
            gather_list(Some(g0), cv.take(i as int), compat) == Some(gathered_view(g@)),
            create_ops_view(rest@) == drop_extracted(cv.take(i as int)),
        decreases n - i,
    {
        let op = ops.remove(0);
        assert(op == c0[i as int]);
        proof {
            lemma_create_ops_view_index(c0, i as int);
            assert(cv.take(i + 1).drop_last() =~= cv.take(i as int));
            assert(cv.take(i + 1).last() == create_op_view(op));
            lemma_gather_list_prefix(Some(g0), cv, compat, i + 1);
        }
        match op {
            CreateOp::ExtractedAttribute(e) => {
                gather_one(g, keys, compat, e);
            },
            other => {
                let ghost b = rest@;
                rest.push(other);
                proof {
                    lemma_create_ops_view_push(b, other);
                }
            },
        }
        proof {
            assert(ops@ =~= c0.skip(i + 1));
        }
        i += 1;
    }
    proof {
        assert(cv.take(n as int) =~= cv);
    }
    *create = rest;
}

/// The values of a list of optional expressions.
pub open spec fn opt_exprs_view(s: Seq<Option<Expression>>) -> Seq<Option<SExpr>> {
    s.map_values(|o: Option<Expression>| opt_expr_view(o))
}

/// The constant of an element operation's target.
fn const_of(keys: &Vec<XrefId>, idx: &Vec<Option<usize>>, x: XrefId) -> (r: Option<ConstIndex>)
    requires
        keys@.len() == idx@.len(),
    ensures
        r == const_for(keys@, idx@, x),
{
    match find_key(keys, x) {
        Some(i) => match idx[i] {
            Some(k) => Some(ConstIndex { index: k }),
            None => None,
        },
        None => None,
    }
}

/// An operation with its target's constant.
fn place_op(op: CreateOp, keys: &Vec<XrefId>, idx: &Vec<Option<usize>>, arrs: &Vec<Option<Expression>>) -> (r: CreateOp)
    requires
        keys@.len() == idx@.len(),
        keys@.len() == arrs@.len(),
    ensures
        create_op_view(r) == place_const(create_op_view(op), keys@, idx@, opt_exprs_view(arrs@)),
{
    match op {
        CreateOp::ElementStart(mut b) => {
            b.attributes = const_of(keys, idx, b.xref);
            CreateOp::ElementStart(b)
        },
        CreateOp::Element(mut b) => {
            b.attributes = const_of(keys, idx, b.xref);
            CreateOp::Element(b)
        },
        CreateOp::Template(mut b) => {
            b.attributes = const_of(keys, idx, b.xref);
            CreateOp::Template(b)
        },
        CreateOp::ContainerStart(mut b) => {
            b.attributes = const_of(keys, idx, b.xref);
            CreateOp::ContainerStart(b)
        },
        CreateOp::Container(mut b) => {
            b.attributes = const_of(keys, idx, b.xref);
            CreateOp::Container(b)
        },
        CreateOp::ConditionalCreate(mut b) => {
            b.attributes = const_of(keys, idx, b.xref);
            CreateOp::ConditionalCreate(b)
        },
        CreateOp::ConditionalBranchCreate(mut b) => {
            b.attributes = const_of(keys, idx, b.xref);
            CreateOp::ConditionalBranchCreate(b)
        },
        CreateOp::RepeaterCreate(mut b) => {
            b.attributes = const_of(keys, idx, b.xref);
            CreateOp::RepeaterCreate(b)
        },
        CreateOp::Projection { xref, slot, projection_slot_index, attributes } => {
            match find_key(keys, xref) {
                Some(i) => {
                    assert(opt_exprs_view(arrs@)[i as int] == opt_expr_view(arrs@[i as int]));
                    match &arrs[i] {
                        Some(a) => CreateOp::Projection {
                            xref,
                            slot,
                            projection_slot_index,
                            attributes: Some(clone_expr(a)),
                        },
                        None => CreateOp::Projection { xref, slot, projection_slot_index, attributes },
                    }
                },
                None => CreateOp::Projection { xref, slot, projection_slot_index, attributes },
            }
        },
        other => other,
    }
}

/// Give each operation of a creation list its target's constant.
fn place_in_list(create: &mut Vec<CreateOp>, keys: &Vec<XrefId>, idx: &Vec<Option<usize>>, arrs: &Vec<Option<Expression>>)
    requires
        keys@.len() == idx@.len(),
        keys@.len() == arrs@.len(),
    ensures
        create_ops_view(final(create)@) == place_consts(create_ops_view(old(create)@), keys@, idx@, opt_exprs_view(arrs@)),
{
    let ghost c0 = create@;
    let ghost cv = create_ops_view(c0);
    let ghost av = opt_exprs_view(arrs@);
    proof {
        lemma_create_ops_view_len(c0);
    }
    let mut ops: Vec<CreateOp> = Vec::new();
    std::mem::swap(&mut ops, create);
    let n = ops.len();
    let mut out: Vec<CreateOp> = Vec::new();
    let mut i: usize = 0;
    proof {
        assert(create_ops_view(out@) =~= place_consts(cv.take(0), keys@, idx@, av));
    }
    while i < n
        invariant
            n == c0.len(),
            i <= n,
            ops@ == c0.skip(i as int),
            cv == create_ops_view(c0),
            cv.len() == n,
            av == opt_exprs_view(arrs@),
            keys@.len() == idx@.len(),
            keys@.len() == arrs@.len(),
            create_ops_view(out@) == place_consts(cv.take(i as int), keys@, idx@, av),
        decreases n - i,
    {
        let op = ops.remove(0);
        assert(op == c0[i as int]);
        proof {
            lemma_create_ops_view_index(c0, i as int);
        }
        let placed = place_op(op, keys, idx, arrs);
        let ghost o0 = out@;
        out.push(placed);
        proof {
            lemma_create_ops_view_push(o0, placed);
            assert(place_consts(cv.take(i + 1), keys@, idx@, av) =~= place_consts(cv.take(i as int), keys@, idx@, av).push(
                place_const(cv[i as int], keys@, idx@, av),
            ));
            assert(ops@ =~= c0.skip(i + 1));
        }
        i += 1;
    }
    proof {
        assert(cv.take(n as int) =~= cv);
    }
    *create = out;
}

/// The two jobs agree on everything but their views and constants.
pub open spec fn same_but_views_and_consts(a: ComponentCompilationJob, b: ComponentCompilationJob) -> bool {
    &&& a.component_name == b.component_name
    &&& a.pool == b.pool
    &&& a.compatibility == b.compatibility
    &&& a.mode == b.mode
    &&& a.relative_context_file_path == b.relative_context_file_path
    &&& a.i18n_use_external_ids == b.i18n_use_external_ids
    &&& a.all_deferrable_deps_fn == b.all_deferrable_deps_fn
    &&& a.relative_template_path == b.relative_template_path
    &&& a.enable_debug_locations == b.enable_debug_locations
    &&& a.content_selectors == b.content_selectors
    &&& a.next_id() == b.next_id()
}

/// Gather the extracted attributes of a list of views, in order, and take them out of the
/// views' creation lists.
fn gather_views(
    units: Vec<(u64, ViewCompilationUnit)>,
    g: &mut Vec<(XrefId, ElementAttributes)>,
    keys: &mut Vec<XrefId>,
    compat: CompatibilityMode,
) -> (r: Vec<(u64, ViewCompilationUnit)>)
    requires
        gathered_ok(old(g)@, old(keys)@, compat),
        gather_units(Some(gathered_view(old(g)@)), units@, compat) is Some,
    ensures
        gathered_ok(final(g)@, final(keys)@, compat),
        Some(gathered_view(final(g)@)) == gather_units(Some(gathered_view(old(g)@)), units@, compat),
        units_related(units@, r@, drop_step_rel()),
{
    let ghost all = units@;
    let ghost g0 = gathered_view(g@);
    let mut units = units;
    let n = units.len();
    let mut mid: Vec<(u64, ViewCompilationUnit)> = Vec::new();
    let mut j: usize = 0;
    proof {
        assert(all.skip(0) =~= all);
        assert(all.take(0) =~= Seq::<(u64, ViewCompilationUnit)>::empty());
    }
    while j < n
        invariant
            n == all.len(),
            j <= n,
            units@ == all.skip(j as int),
            units_related(all.take(j as int), mid@, drop_step_rel()),
            gathered_ok(g@, keys@, compat),
            gather_units(Some(g0), all, compat) is Some,
            gather_units(Some(g0), all.take(j as int), compat) == Some(gathered_view(g@)),
        decreases n - j,
    {
        let ghost before = units@;
        let (k, mut u) = units.remove(0);
        let ghost u0 = u;
        proof {
            assert(before[0] == all[j as int]);
            assert(all.take(j + 1).drop_last() =~= all.take(j as int));
            lemma_gather_units_prefix(Some(g0), all, compat, j + 1);
        }
        gather_from_list(&mut u.create, g, keys, compat);
        proof {
            assert(drop_step_rel()(j as int, u0, u));
            lemma_units_related_push(all, mid@, drop_step_rel(), j as int, k, u);
            assert(units@ =~= all.skip(j + 1));
        }
        mid.push((k, u));
        j += 1;
    }
    proof {
        assert(all.take(n as int) =~= all);
    }
    mid
}

/// Add each target's non-empty array to the constants, in order; the constant index and the
/// array of each target.
fn add_target_consts(job: &mut ComponentCompilationJob, g: Vec<(XrefId, ElementAttributes)>) -> (r: (
    Vec<Option<usize>>,
    Vec<Option<Expression>>,
))
    ensures
        assign_consts(exprs_view(old(job).consts@), gathered_view(g@)) == (exprs_view(final(job).consts@), r.0@),
        opt_exprs_view(r.1@) == target_arrays(gathered_view(g@)),
        r.0@.len() == g@.len(),
        r.1@.len() == g@.len(),
        exprs_view(final(job).consts_initializers@) == exprs_view(old(job).consts_initializers@),
        same_but_views_and_consts(*final(job), *old(job)),
        final(job).root == old(job).root,
        final(job).views == old(job).views,
{
    let ghost gall = g@;
    let ghost gv = gathered_view(gall);
    let ghost c0 = exprs_view(job.consts@);
    let ghost init0 = exprs_view(job.consts_initializers@);
    let mut g = g;
    let m = g.len();
    let mut idx: Vec<Option<usize>> = Vec::new();
    let mut arrs: Vec<Option<Expression>> = Vec::new();
    let mut k: usize = 0;
    proof {
        assert(gall.skip(0) =~= gall);
        assert(gv.take(0) =~= Seq::<(XrefId, SAttrs)>::empty());
        assert(opt_exprs_view(arrs@) =~= Seq::<Option<SExpr>>::empty());
    }
    while k < m
        invariant
            m == gall.len(),
            k <= m,
            g@ == gall.skip(k as int),
            gv == gathered_view(gall),
            idx@.len() == k,
            arrs@.len() == k,
            assign_consts(c0, gv.take(k as int)) == (exprs_view(job.consts@), idx@),
            opt_exprs_view(arrs@) == target_arrays(gv.take(k as int)),
            exprs_view(job.consts_initializers@) == init0,
            same_but_views_and_consts(*job, *old(job)),
            job.root == old(job).root,
            job.views == old(job).views,
        decreases m - k,
    {
        let (x, ea) = g.remove(0);
        proof {
            assert(gall[k as int] == (x, ea));
            assert(gv[k as int] == (x, ea@));
            assert(gv.take(k + 1).drop_last() =~= gv.take(k as int));
            assert(gv.take(k + 1).last() == (x, ea@));
        }
        let ghost a = ea@;
        let arr = serialize_attributes(ea);
        proof {
            crate::output::lemma_exprs_view_len(arr.entries@);
        }
        let ghost r0 = arrs@;
        if arr.entries.len() > 0 {
            let e = Expression::LiteralArray(arr);
            assert(expr_view(e) == attr_array(a));
            let e2 = clone_expr(&e);
            let ci = job.add_const(e, None);
            idx.push(Some(ci.index));
            arrs.push(Some(e2));
            proof {
                assert(exprs_view(job.consts_initializers@) =~= init0);
                assert(opt_exprs_view(arrs@) =~= opt_exprs_view(r0).push(Some(attr_array(a))));
            }
        } else {
            idx.push(None);
            arrs.push(None);
            proof {
                assert(opt_exprs_view(arrs@) =~= opt_exprs_view(r0).push(None));
            }
        }
        proof {
            assert(target_arrays(gv.take(k + 1)) =~= target_arrays(gv.take(k as int)).push(
                if spec_serialize(a).len() > 0 {
                    Some(attr_array(a))
                } else {
                    None
                },
            ));
            assert(g@ =~= gall.skip(k + 1));
        }
        k += 1;
    }
    proof {
        assert(gv.take(m as int) =~= gv);
    }
    (idx, arrs)
}

/// Give the operations of each of a list of views their targets' constants.
fn place_in_views(
    units: Vec<(u64, ViewCompilationUnit)>,
    keys: &Vec<XrefId>,
    idx: &Vec<Option<usize>>,
    arrs: &Vec<Option<Expression>>,
) -> (r: Vec<(u64, ViewCompilationUnit)>)
    requires
        keys@.len() == idx@.len(),
        keys@.len() == arrs@.len(),
    ensures
        units_related(units@, r@, place_step_rel(keys@, idx@, opt_exprs_view(arrs@))),
{
    let ghost mids = units@;
    let ghost av = opt_exprs_view(arrs@);
    let mut rest = units;
    let n = rest.len();
    let mut done: Vec<(u64, ViewCompilationUnit)> = Vec::new();
    let mut t: usize = 0;
    proof {
        assert(mids.skip(0) =~= mids);
        assert(mids.take(0) =~= Seq::<(u64, ViewCompilationUnit)>::empty());
    }
    while t < n
        invariant
            n == mids.len(),
            t <= n,
            rest@ == mids.skip(t as int),
            units_related(mids.take(t as int), done@, place_step_rel(keys@, idx@, av)),
            av == opt_exprs_view(arrs@),
            keys@.len() == idx@.len(),
            keys@.len() == arrs@.len(),
        decreases n - t,
    {
        let ghost before = rest@;
        let (k2, mut u) = rest.remove(0);
        let ghost u0 = u;
        proof {
            assert(before[0] == mids[t as int]);
        }
        place_in_list(&mut u.create, keys, idx, arrs);
        proof {
            assert(place_step_rel(keys@, idx@, av)(t as int, u0, u));
            lemma_units_related_push(mids, done@, place_step_rel(keys@, idx@, av), t as int, k2, u);
            assert(rest@ =~= mids.skip(t + 1));
        }
        done.push((k2, u));
        t += 1;
    }
    proof {
        assert(mids.take(n as int) =~= mids);
    }
    done
}

/// Taking out the extracted attributes and then placing the constants is one step of the phase.
proof fn lemma_steps_compose(
    a: Seq<(u64, ViewCompilationUnit)>,
    b: Seq<(u64, ViewCompilationUnit)>,
    c: Seq<(u64, ViewCompilationUnit)>,
    keys: Seq<XrefId>,
    idx: Seq<Option<usize>>,
    arrs: Seq<Option<SExpr>>,
)
    requires
        units_related(a, b, drop_step_rel()),
        units_related(b, c, place_step_rel(keys, idx, arrs)),
    ensures
        units_related(a, c, consts_step_rel(keys, idx, arrs)),
{
    assert forall|i: int| #![trigger c[i]] 0 <= i < a.len() implies c[i].0 == a[i].0 && consts_step_rel(keys, idx, arrs)(
        i,
        a[i].1,
        c[i].1,
    ) by {
        assert(b[i].0 == a[i].0);
        assert(drop_step_rel()(i, a[i].1, b[i].1));
        assert(place_step_rel(keys, idx, arrs)(i, b[i].1, c[i].1));
    }
}

/// Collect the constants of a component's elements: the extracted attributes of every view (the
/// root view first, then each embedded view) are gathered per target element and taken out of
/// the creation lists; each target's array, where it is not empty, is added to the constants,
/// in the order in which the targets first appear; then every element-like operation takes the
/// index of its target's constant (none where it has none) and every projection its target's
/// array, where there is one. Every attribute must be one that can be added (see `spec_add`):
/// the phase cannot proceed on others.
pub fn collect_element_consts_in_component(job: &mut ComponentCompilationJob)
    requires
        spec_gather_job(*old(job)) is Some,
    ensures
        same_but_views_and_consts(*final(job), *old(job)),
        ({
            let g = spec_gather_job(*old(job)).unwrap();
            let (c, idx) = assign_consts(exprs_view(old(job).consts@), g);
            let keys = gathered_keys(g);
            let arrs = target_arrays(g);
            &&& exprs_view(final(job).consts@) == c
            &&& exprs_view(final(job).consts_initializers@) == exprs_view(old(job).consts_initializers@)
            &&& consts_step(old(job).root, final(job).root, keys, idx, arrs)
            &&& units_related(view_entries(old(job).views), view_entries(final(job).views), consts_step_rel(keys, idx, arrs))
        }),
{
    let ghost j0 = *job;
    let compat = job.compatibility;
    let mut g: Vec<(XrefId, ElementAttributes)> = Vec::new();
    let mut keys: Vec<XrefId> = Vec::new();
    let ghost g_root_spec = gather_list(Some(Seq::empty()), create_ops_view(j0.root.create@), compat);
    proof {
        assert(gathered_view(g@) =~= Seq::<(XrefId, SAttrs)>::empty());
        assert(gathered_keys(gathered_view(g@)) =~= keys@);
        if g_root_spec is None {
            lemma_gather_units_none(view_entries(j0.views), compat);
        }
    }
    gather_from_list(&mut job.root.create, &mut g, &mut keys, compat);
    let ghost root1 = job.root;
    let units = take_view_units(job);
    let ghost all = units@;
    let mid = gather_views(units, &mut g, &mut keys, compat);
    let ghost mids = mid@;
    let ghost gv = gathered_view(g@);
    assert(Some(gv) == spec_gather_job(j0));
    let ghost jm = *job;
    let (idx, arrs) = add_target_consts(job, g);
    place_in_list(&mut job.root.create, &keys, &idx, &arrs);
    let done = place_in_views(mid, &keys, &idx, &arrs);
    proof {
        lemma_steps_compose(all, mids, done@, keys@, idx@, opt_exprs_view(arrs@));
        lemma_units_related_keys(all, done@, consts_step_rel(keys@, idx@, opt_exprs_view(arrs@)));
    }
    restore_view_units(job, done);
}

} // verus!
