//! Local references: the local references of each element start, template and conditional
//! move into the component's constants, as an array of names and targets, and the operation
//! keeps the index of that constant.

use vstd::prelude::*;
use crate::output::{
    Expression, LiteralArrayExpr, LiteralExpr, LiteralValue, SExpr, exprs_view, expr_view, lemma_exprs_view_push,
    lemma_exprs_view_len,
};
use crate::ir::{
    ConstIndex, CreateOp, ElementOpBase, LocalRef, SCreateOp, SElementBase, SLocalRef, create_op_view, create_ops_view,
    element_base_view, local_refs_view, lemma_create_ops_view_index, lemma_create_ops_view_len,
    lemma_create_ops_view_push,
};
use crate::component::{
    ComponentCompilationJob, ViewCompilationUnit, first_equivalent, spec_add_const, lemma_units_related_keys,
    lemma_units_related_push, restore_view_units, same_unit_but_create, take_view_units, unit_keys, units_related,
    view_entries,
};
use crate::emit::text_lit;

verus! {

/// The names and targets of local references, in order.
pub open spec fn ref_entries(refs: Seq<SLocalRef>) -> Seq<SExpr>
    decreases refs.len(),
{
    if refs.len() == 0 {
        Seq::empty()
    } else {
        ref_entries(refs.drop_last()) + seq![text_lit(refs.last().name), text_lit(refs.last().target)]
    }
}

/// The array literal of local references.
pub open spec fn spec_serialize_local_refs(refs: Seq<SLocalRef>) -> SExpr {
    SExpr::LiteralArray { entries: ref_entries(refs), source_span: None }
}

/// The array literal of local references: the name and the target of each, in order.
pub fn serialize_local_refs(refs: &Vec<LocalRef>) -> (r: Expression)
    ensures
        expr_view(r) == spec_serialize_local_refs(local_refs_view(refs@)),
{
    let ghost rv = local_refs_view(refs@);
    let mut entries: Vec<Expression> = Vec::new();
    let mut i: usize = 0;
    proof {
        assert(rv.take(0) =~= Seq::<SLocalRef>::empty());
        assert(exprs_view(entries@) =~= Seq::<SExpr>::empty());
    }
    while i < refs.len()
        invariant
            i <= refs@.len(),
            rv == local_refs_view(refs@),
            exprs_view(entries@) == ref_entries(rv.take(i as int)),
        decreases refs.len() - i,
    {
        let name = Expression::Literal(LiteralExpr { value: LiteralValue::String(refs[i].name.clone()), source_span: None });
        let target = Expression::Literal(
            LiteralExpr { value: LiteralValue::String(refs[i].target.clone()), source_span: None },
        );
        let ghost e0 = entries@;
        entries.push(name);
        let ghost e1 = entries@;
        entries.push(target);
        proof {
            lemma_exprs_view_push(e0, name);
            lemma_exprs_view_push(e1, target);
            assert(rv.take(i + 1).drop_last() =~= rv.take(i as int));
            assert(rv.take(i + 1).last() == rv[i as int]);
            assert(exprs_view(entries@) =~= ref_entries(rv.take(i as int)) + seq![
                text_lit(rv[i as int].name),
                text_lit(rv[i as int].target),
            ]);
        }
        i += 1;
    }
    proof {
        assert(rv.take(refs@.len() as int) =~= rv);
    }
    Expression::LiteralArray(LiteralArrayExpr { entries, source_span: None })
}

/// The base of an operation whose local references are lifted.
pub open spec fn lifted_base(op: SCreateOp) -> Option<SElementBase> {
    match op {
        SCreateOp::ElementStart(b) => Some(b),
        SCreateOp::Template(b) => Some(b),
        SCreateOp::ConditionalCreate(b) => Some(b),
        SCreateOp::ConditionalBranchCreate(b) => Some(b),
        _ => None,
    }
}

/// The operation with another base.
pub open spec fn with_base(op: SCreateOp, b: SElementBase) -> SCreateOp {
    match op {
        SCreateOp::ElementStart(_) => SCreateOp::ElementStart(b),
        SCreateOp::Template(_) => SCreateOp::Template(b),
        SCreateOp::ConditionalCreate(_) => SCreateOp::ConditionalCreate(b),
        SCreateOp::ConditionalBranchCreate(_) => SCreateOp::ConditionalBranchCreate(b),
        _ => op,
    }
}

/// One operation with its local references lifted into the constants.
pub open spec fn spec_lift_op(op: SCreateOp, consts: Seq<SExpr>) -> (SCreateOp, Seq<SExpr>) {
    match lifted_base(op) {
        Some(b) => if b.local_refs.len() > 0 {
            let (c2, idx) = spec_add_const(consts, spec_serialize_local_refs(b.local_refs));
            (
                with_base(
                    op,
                    SElementBase {
                        local_refs: Seq::empty(),
                        local_refs_index: Some(ConstIndex { index: idx as usize }),
                        ..b
                    },
                ),
                c2,
            )
        } else {
            (with_base(op, SElementBase { local_refs: Seq::empty(), ..b }), consts)
        },
        None => (op, consts),
    }
}

/// A creation list with the local references of its operations lifted, in order, into the
/// constants; and the constants at the end.
pub open spec fn spec_lift(ops: Seq<SCreateOp>, consts: Seq<SExpr>) -> (Seq<SCreateOp>, Seq<SExpr>)
    decreases ops.len(),
{
    if ops.len() == 0 {
        (ops, consts)
    } else {
        let (op2, c2) = spec_lift_op(ops[0], consts);
        let (rest, c3) = spec_lift(ops.drop_first(), c2);
        (seq![op2] + rest, c3)
    }
}

/// The job's parts that lifting local references leaves alone.
pub open spec fn same_but_lists_and_consts(a: ComponentCompilationJob, b: ComponentCompilationJob) -> bool {
    &&& a.component_name == b.component_name
    &&& a.pool == b.pool
    &&& a.compatibility == b.compatibility
    &&& a.mode == b.mode
    &&& a.relative_context_file_path == b.relative_context_file_path
    &&& a.i18n_use_external_ids == b.i18n_use_external_ids
    &&& a.all_deferrable_deps_fn == b.all_deferrable_deps_fn
    &&& a.relative_template_path == b.relative_template_path
    &&& a.enable_debug_locations == b.enable_debug_locations
    &&& a.content_selectors == b.content_selectors
    &&& a.next_xref_id == b.next_xref_id
}

fn lift_base(job: &mut ComponentCompilationJob, b: ElementOpBase) -> (r: ElementOpBase)
    ensures
        same_but_lists_and_consts(*final(job), *old(job)),
        final(job).root == old(job).root,
        final(job).views == old(job).views,
        ({
            let sb = element_base_view(b);
            let lifted = if sb.local_refs.len() > 0 {
                let (c2, idx) = spec_add_const(exprs_view(old(job).consts@), spec_serialize_local_refs(sb.local_refs));
                (SElementBase { local_refs: Seq::empty(), local_refs_index: Some(ConstIndex { index: idx as usize }), ..sb }, c2)
            } else {
                (SElementBase { local_refs: Seq::empty(), ..sb }, exprs_view(old(job).consts@))
            };
            element_base_view(r) == lifted.0 && exprs_view(final(job).consts@) == lifted.1
        }),
{
    let mut b = b;
    let mut refs: Vec<LocalRef> = Vec::new();
    std::mem::swap(&mut refs, &mut b.local_refs);
    proof {
        assert(local_refs_view(b.local_refs@) =~= Seq::<SLocalRef>::empty());
    }
    if refs.len() > 0 {
        let e = serialize_local_refs(&refs);
        proof {
            lemma_exprs_view_len(job.consts@);
        }
        let idx = job.add_const(e, None);
        b.local_refs_index = Some(idx);
    }
    b
}

/// Lift the local references of one operation.
fn lift_op(job: &mut ComponentCompilationJob, op: CreateOp) -> (r: CreateOp)
    ensures
        same_but_lists_and_consts(*final(job), *old(job)),
        final(job).root == old(job).root,
        final(job).views == old(job).views,
        (create_op_view(r), exprs_view(final(job).consts@)) == spec_lift_op(create_op_view(op), exprs_view(old(job).consts@)),
{
    match op {
        CreateOp::ElementStart(b) => CreateOp::ElementStart(lift_base(job, b)),
        CreateOp::Template(b) => CreateOp::Template(lift_base(job, b)),
        CreateOp::ConditionalCreate(b) => CreateOp::ConditionalCreate(lift_base(job, b)),
        CreateOp::ConditionalBranchCreate(b) => CreateOp::ConditionalBranchCreate(lift_base(job, b)),
        other => other,
    }
}

/// Lift the local references of a creation list, in order, into the job's constants.
fn lift_list(job: &mut ComponentCompilationJob, create: Vec<CreateOp>) -> (r: Vec<CreateOp>)
    ensures
        same_but_lists_and_consts(*final(job), *old(job)),
        final(job).root == old(job).root,
        final(job).views == old(job).views,
        (create_ops_view(r@), exprs_view(final(job).consts@)) == spec_lift(
            create_ops_view(create@),
            exprs_view(old(job).consts@),
        ),
{
    let ghost c0 = create@;
    let ghost cv = create_ops_view(c0);
    proof {
        lemma_create_ops_view_len(c0);
        assert(cv.skip(0) =~= cv);
    }
    let mut ops = create;
    let n = ops.len();
    let mut out: Vec<CreateOp> = Vec::new();
    let mut j: usize = 0;
    proof {
        assert(create_ops_view(out@) =~= Seq::<SCreateOp>::empty());
        let s = spec_lift(cv, exprs_view(job.consts@));
        assert(Seq::<SCreateOp>::empty() + s.0 =~= s.0);
    }
    while j < n
        invariant
            n == c0.len(),
            j <= n,
            ops@ == c0.skip(j as int),
            cv == create_ops_view(c0),
            cv.len() == n,
            same_but_lists_and_consts(*job, *old(job)),
            job.root == old(job).root,
            job.views == old(job).views,
            spec_lift(cv, exprs_view(old(job).consts@)) == (
                create_ops_view(out@) + spec_lift(cv.skip(j as int), exprs_view(job.consts@)).0,
                spec_lift(cv.skip(j as int), exprs_view(job.consts@)).1,
            ),
        decreases n - j,
    {
        let op = ops.remove(0);
        proof {
            lemma_create_ops_view_index(c0, j as int);
            assert(cv.skip(j as int)[0] == create_op_view(op));
            assert(cv.skip(j as int).drop_first() =~= cv.skip(j + 1));
        }
        let ghost before = out@;
        let r = lift_op(job, op);
        out.push(r);
        proof {
            lemma_create_ops_view_push(before, r);
            let rest = spec_lift(cv.skip(j + 1), exprs_view(job.consts@)).0;
            assert(create_ops_view(out@) + rest =~= create_ops_view(before) + (seq![create_op_view(r)] + rest));
            assert(ops@ =~= c0.skip(j + 1));
        }
        j += 1;
    }
    proof {
        assert(cv.skip(n as int) =~= Seq::<SCreateOp>::empty());
        assert(create_ops_view(out@) + Seq::<SCreateOp>::empty() =~= create_ops_view(out@));
    }
    out
}

/// The constants after lifting the local references of a list of views in order, starting
/// from `consts`.
pub open spec fn consts_through(units: Seq<(u64, ViewCompilationUnit)>, consts: Seq<SExpr>) -> Seq<SExpr>
    decreases units.len(),
{
    if units.len() == 0 {
        consts
    } else {
        spec_lift(create_ops_view(units.last().1.create@), consts_through(units.drop_last(), consts)).1
    }
}

/// A view after lifting its local references, with the constants at `consts` before.
pub open spec fn lift_step(u: ViewCompilationUnit, v: ViewCompilationUnit, consts: Seq<SExpr>) -> bool {
    &&& same_unit_but_create(v, u)
    &&& create_ops_view(v.create@) == spec_lift(create_ops_view(u.create@), consts).0
}

/// The relation of each embedded view after the phase to the view before it: the constants
/// are those after the root and the views before it.
pub open spec fn lift_rel(all: Seq<(u64, ViewCompilationUnit)>, consts: Seq<SExpr>) -> spec_fn(
    int,
    ViewCompilationUnit,
    ViewCompilationUnit,
) -> bool {
    |i: int, u: ViewCompilationUnit, v: ViewCompilationUnit| lift_step(u, v, consts_through(all.take(i), consts))
}

/// Lift the local references of every view of a component's template into its constants: the
/// root view first, then each embedded view in order.
pub fn lift_local_refs(job: &mut ComponentCompilationJob)
    ensures
        same_but_lists_and_consts(*final(job), *old(job)),
        lift_step(old(job).root, final(job).root, exprs_view(old(job).consts@)),
        units_related(
            view_entries(old(job).views),
            view_entries(final(job).views),
            lift_rel(
                view_entries(old(job).views),
                spec_lift(create_ops_view(old(job).root.create@), exprs_view(old(job).consts@)).1,
            ),
        ),
        exprs_view(final(job).consts@) == consts_through(
            view_entries(old(job).views),
            spec_lift(create_ops_view(old(job).root.create@), exprs_view(old(job).consts@)).1,
        ),
{
    let mut create: Vec<CreateOp> = Vec::new();
    std::mem::swap(&mut create, &mut job.root.create);
    let lifted = lift_list(job, create);
    job.root.create = lifted;
    let ghost after_root = exprs_view(job.consts@);
    let ghost mid = *job;
    let mut units = take_view_units(job);
    let ghost all = units@;
    let ghost rel = lift_rel(all, after_root);
    let n = units.len();
    let mut done: Vec<(u64, ViewCompilationUnit)> = Vec::new();
    let mut j: usize = 0;
    proof {
        assert(all.skip(0) =~= all);
        assert(all.take(0) =~= Seq::<(u64, ViewCompilationUnit)>::empty());
    }
    while j < n
        invariant
            n == all.len(),
            j <= n,
            all == view_entries(old(job).views),
            rel == lift_rel(all, after_root),
            unit_keys(all).no_duplicates(),
            units@ == all.skip(j as int),
            units_related(all.take(j as int), done@, rel),
            exprs_view(job.consts@) == consts_through(all.take(j as int), after_root),
            view_entries(job.views) == Seq::<(u64, ViewCompilationUnit)>::empty(),
            same_but_lists_and_consts(*job, *old(job)),
            job.root == mid.root,
        decreases n - j,
    {
        let ghost before = units@;
        let (k, mut u) = units.remove(0);
        let ghost u0 = u;
        proof {
            assert(before[0] == all[j as int]);
        }
        let mut c: Vec<CreateOp> = Vec::new();
        std::mem::swap(&mut c, &mut u.create);
        let lifted = lift_list(job, c);
        u.create = lifted;
        proof {
            assert(rel(j as int, u0, u));
            lemma_units_related_push(all, done@, rel, j as int, k, u);
            assert(units@ =~= all.skip(j + 1));
            assert(all.take(j + 1).drop_last() =~= all.take(j as int));
            assert(all.take(j + 1).last() == all[j as int]);
        }
        done.push((k, u));
        j += 1;
    }
    proof {
        assert(all.take(n as int) =~= all);
        lemma_units_related_keys(all, done@, rel);
    }
    restore_view_units(job, done);
}

/// Lifting only adds constants after those already there.
pub proof fn lemma_lift_extends(ops: Seq<SCreateOp>, consts: Seq<SExpr>)
    ensures
        spec_lift(ops, consts).1.len() >= consts.len(),
        spec_lift(ops, consts).1.take(consts.len() as int) == consts,
    decreases ops.len(),
{
    if ops.len() == 0 {
        assert(consts.take(consts.len() as int) =~= consts);
    } else {
        let c2 = spec_lift_op(ops[0], consts).1;
        assert(c2.len() >= consts.len() && c2.take(consts.len() as int) =~= consts);
        lemma_lift_extends(ops.drop_first(), c2);
        let c3 = spec_lift(ops.drop_first(), c2).1;
        assert(c3.take(consts.len() as int) =~= c3.take(c2.len() as int).take(consts.len() as int));
    }
}

/// After lifting, no operation of the list holds local references.
pub proof fn lemma_lift_leaves_no_local_refs(ops: Seq<SCreateOp>, consts: Seq<SExpr>, i: int)
    requires
        0 <= i < spec_lift(ops, consts).0.len(),
        lifted_base(spec_lift(ops, consts).0[i]) is Some,
    ensures
        lifted_base(spec_lift(ops, consts).0[i])->0.local_refs.len() == 0,
    decreases ops.len(),
{
    let (op2, c2) = spec_lift_op(ops[0], consts);
    let rest = spec_lift(ops.drop_first(), c2).0;
    assert(spec_lift(ops, consts).0 == seq![op2] + rest);
    if i > 0 {
        assert(spec_lift(ops, consts).0[i] == rest[i - 1]);
        lemma_lift_leaves_no_local_refs(ops.drop_first(), c2, i - 1);
    }
}

} // verus!
