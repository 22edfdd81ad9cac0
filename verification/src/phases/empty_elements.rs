//! Empty elements: an element start directly followed by its own end becomes one element
//! operation, and a container start directly followed by its own end one container operation.

use vstd::prelude::*;
use crate::component::{
    ComponentCompilationJob, ViewCompilationUnit, lemma_units_related_keys, lemma_units_related_push,
    restore_view_units, same_but_views, same_unit_but_create, take_view_units, unit_keys, units_related, view_entries,
};
use crate::ir::{
    CreateOp, SCreateOp, create_op_view, create_ops_view, lemma_create_ops_view_index,
    lemma_create_ops_view_len, lemma_create_ops_view_push,
};

verus! {

/// Whether `end` closes `start` and the two can merge.
pub open spec fn mergeable(start: SCreateOp, end: SCreateOp) -> bool {
    match (start, end) {
        (SCreateOp::ElementStart(b), SCreateOp::ElementEnd { xref }) => b.xref == xref,
        (SCreateOp::ContainerStart(b), SCreateOp::ContainerEnd { xref }) => b.xref == xref,
        _ => false,
    }
}

/// The single operation that a start and its end merge into.
pub open spec fn merged(start: SCreateOp) -> SCreateOp {
    match start {
        SCreateOp::ElementStart(b) => SCreateOp::Element(b),
        SCreateOp::ContainerStart(b) => SCreateOp::Container(b),
        _ => start,
    }
}

/// The creation list with each start that is directly followed by its own end merged with it.
#[verifier::opaque]
pub open spec fn spec_collapse_empty(ops: Seq<SCreateOp>) -> Seq<SCreateOp>
    decreases ops.len(),
{
    if ops.len() < 2 {
        ops
    } else if mergeable(ops[0], ops[1]) {
        seq![merged(ops[0])] + spec_collapse_empty(ops.skip(2))
    } else {
        seq![ops[0]] + spec_collapse_empty(ops.drop_first())
    }
}

/// Whether no start in a creation list is directly followed by its own end.
pub open spec fn no_empty_pairs(ops: Seq<SCreateOp>) -> bool {
    forall|i: int| 0 <= i < ops.len() - 1 ==> !mergeable(#[trigger] ops[i], ops[i + 1])
}

fn closes(start: &CreateOp, end: &CreateOp) -> (r: bool)
    ensures
        r == mergeable(create_op_view(*start), create_op_view(*end)),
{
    match (start, end) {
        (CreateOp::ElementStart(b), CreateOp::ElementEnd { xref }) => b.xref.id == xref.id,
        (CreateOp::ContainerStart(b), CreateOp::ContainerEnd { xref }) => b.xref.id == xref.id,
        _ => false,
    }
}

fn merge(start: CreateOp) -> (r: CreateOp)
    ensures
        create_op_view(r) == merged(create_op_view(start)),
{
    match start {
        CreateOp::ElementStart(b) => CreateOp::Element(b),
        CreateOp::ContainerStart(b) => CreateOp::Container(b),
        other => other,
    }
}

/// One step of the merge: what the first operation of the list turns into.
proof fn lemma_collapse_step(ops: Seq<SCreateOp>)
    requires
        ops.len() > 0,
    ensures
        ops.len() >= 2 && mergeable(ops[0], ops[1]) ==> spec_collapse_empty(ops) == seq![merged(ops[0])]
            + spec_collapse_empty(ops.skip(2)),
        !(ops.len() >= 2 && mergeable(ops[0], ops[1])) ==> spec_collapse_empty(ops) == seq![ops[0]]
            + spec_collapse_empty(ops.drop_first()),
{
    reveal(spec_collapse_empty);
    if ops.len() == 1 {
        assert(ops.drop_first() =~= Seq::<SCreateOp>::empty());
        assert(seq![ops[0]] + Seq::<SCreateOp>::empty() =~= ops);
    }
}

/// Merge the empty elements and containers of one view's creation list.
pub fn collapse_empty_for_unit(create: &mut Vec<CreateOp>)
    ensures
        create_ops_view(final(create)@) == spec_collapse_empty(create_ops_view(old(create)@)),
{
    let mut ops: Vec<CreateOp> = Vec::new();
    std::mem::swap(&mut ops, create);
    let ghost c0 = ops@;
    let ghost cv = create_ops_view(c0);
    proof {
        lemma_create_ops_view_len(c0);
    }
    let n = ops.len();
    let mut out: Vec<CreateOp> = Vec::new();
    let mut j: usize = 0;
    proof {
        assert(create_ops_view(out@) =~= Seq::<SCreateOp>::empty());
        assert(cv.skip(0) =~= cv);
    }
    while j < n
        invariant
            n == c0.len(),
            j <= n,
            ops@ == c0.skip(j as int),
            cv == create_ops_view(c0),
            cv.len() == n,
            spec_collapse_empty(cv) == create_ops_view(out@) + spec_collapse_empty(cv.skip(j as int)),
        decreases n - j,
    {
        let op = ops.remove(0);
        proof {
            lemma_create_ops_view_index(c0, j as int);
            assert(cv.skip(j as int)[0] == create_op_view(op));
        }
        let ghost before = out@;
        let ghost here = cv.skip(j as int);
        proof {
            lemma_collapse_step(here);
        }
        if ops.len() > 0 && closes(&op, &ops[0]) {
            proof {
                lemma_create_ops_view_index(c0, j + 1);
                assert(here[1] == create_op_view(ops@[0]));
                assert(here.skip(2) =~= cv.skip(j + 2));
            }
            let _end = ops.remove(0);
            let m = merge(op);
            out.push(m);
            proof {
                lemma_create_ops_view_push(before, m);
                let rest = spec_collapse_empty(cv.skip(j + 2));
                let one = seq![create_op_view(m)];
                assert(create_ops_view(out@) =~= create_ops_view(before) + one);
                assert(create_ops_view(before) + one + rest =~= create_ops_view(before) + (one + rest));
                assert(ops@ =~= c0.skip(j + 2));
            }
            j += 2;
        } else {
            proof {
                if j + 1 < n {
                    lemma_create_ops_view_index(c0, j + 1);
                    assert(here[1] == create_op_view(ops@[0]));
                }
                assert(here.drop_first() =~= cv.skip(j + 1));
            }
            out.push(op);
            proof {
                lemma_create_ops_view_push(before, op);
                let rest = spec_collapse_empty(cv.skip(j + 1));
                let one = seq![create_op_view(op)];
                assert(create_ops_view(out@) =~= create_ops_view(before) + one);
                assert(create_ops_view(before) + one + rest =~= create_ops_view(before) + (one + rest));
                assert(ops@ =~= c0.skip(j + 1));
            }
            j += 1;
        }
    }
    proof {
        assert(cv.skip(j as int) =~= Seq::<SCreateOp>::empty());
        assert(spec_collapse_empty(Seq::<SCreateOp>::empty()) == Seq::<SCreateOp>::empty()) by {
            reveal(spec_collapse_empty);
        }
        assert(create_ops_view(out@) + Seq::<SCreateOp>::empty() =~= create_ops_view(out@));
    }
    *create = out;
}

/// A view after merging empty elements: its creation list merged, the rest as it was.
pub open spec fn collapse_empty_step(u: ViewCompilationUnit, v: ViewCompilationUnit) -> bool {
    &&& same_unit_but_create(v, u)
    &&& create_ops_view(v.create@) == spec_collapse_empty(create_ops_view(u.create@))
}

/// The relation of each embedded view after the phase to the view before it.
pub open spec fn collapse_empty_step_rel() -> spec_fn(int, ViewCompilationUnit, ViewCompilationUnit) -> bool {
    |i: int, u: ViewCompilationUnit, v: ViewCompilationUnit| collapse_empty_step(u, v)
}

/// Merge the empty elements and containers of every view of a component's template: the root
/// view and each embedded view.
pub fn collapse_empty_instructions(job: &mut ComponentCompilationJob)
    ensures
        same_but_views(*final(job), *old(job)),
        collapse_empty_step(old(job).root, final(job).root),
        units_related(view_entries(old(job).views), view_entries(final(job).views), collapse_empty_step_rel()),
{
    collapse_empty_for_unit(&mut job.root.create);
    let ghost mid = *job;
    let mut units = take_view_units(job);
    let ghost all = units@;
    let n = units.len();
    let mut done: Vec<(u64, ViewCompilationUnit)> = Vec::new();
    let mut j: usize = 0;
    proof {
        assert(all.skip(0) =~= all);
        assert(all.take(0) =~= Seq::<(u64, ViewCompilationUnit)>::empty());
    }
    while j < n
        invariant
            n == all.len(),
            j <= n,
            all == view_entries(old(job).views),
            unit_keys(all).no_duplicates(),
            units@ == all.skip(j as int),
            units_related(all.take(j as int), done@, collapse_empty_step_rel()),
            view_entries(job.views) == Seq::<(u64, ViewCompilationUnit)>::empty(),
            same_but_views(*job, mid),
            job.root == mid.root,
        decreases n - j,
    {
        let ghost before = units@;
        let (k, mut u) = units.remove(0);
        let ghost u0 = u;
        proof {
            assert(before[0] == all[j as int]);
        }
        collapse_empty_for_unit(&mut u.create);
        proof {
            assert(collapse_empty_step_rel()(j as int, u0, u));
            lemma_units_related_push(all, done@, collapse_empty_step_rel(), j as int, k, u);
            assert(units@ =~= all.skip(j + 1));
        }
        done.push((k, u));
        j += 1;
    }
    proof {
        assert(all.take(n as int) =~= all);
        lemma_units_related_keys(all, done@, collapse_empty_step_rel());
    }
    restore_view_units(job, done);
}

proof fn lemma_collapse_first(ops: Seq<SCreateOp>)
    requires
        ops.len() > 0,
    ensures
        spec_collapse_empty(ops).len() > 0,
        spec_collapse_empty(ops)[0] == if ops.len() >= 2 && mergeable(ops[0], ops[1]) {
            merged(ops[0])
        } else {
            ops[0]
        },
{
    reveal(spec_collapse_empty);
}

/// Once empty elements and containers are merged, no start is directly followed by its own end.
pub proof fn lemma_collapse_leaves_no_empty_pairs(ops: Seq<SCreateOp>)
    ensures
        no_empty_pairs(spec_collapse_empty(ops)),
    decreases ops.len(),
{
    reveal(spec_collapse_empty);
    let out = spec_collapse_empty(ops);
    if ops.len() < 2 {
        assert(no_empty_pairs(out)) by {
            assert forall|i: int| 0 <= i < out.len() - 1 implies !mergeable(#[trigger] out[i], out[i + 1]) by {
            }
        }
    } else if mergeable(ops[0], ops[1]) {
        let rest = ops.skip(2);
        lemma_collapse_leaves_no_empty_pairs(rest);
        let r = spec_collapse_empty(rest);
        assert(out == seq![merged(ops[0])] + r);
        assert forall|i: int| 0 <= i < out.len() - 1 implies !mergeable(#[trigger] out[i], out[i + 1]) by {
            if i == 0 {
                assert(out[0] == merged(ops[0]));
            } else {
                assert(out[i] == r[i - 1]);
                assert(out[i + 1] == r[i]);
            }
        }
    } else {
        let rest = ops.drop_first();
        lemma_collapse_leaves_no_empty_pairs(rest);
        let r = spec_collapse_empty(rest);
        assert(out == seq![ops[0]] + r);
        assert forall|i: int| 0 <= i < out.len() - 1 implies !mergeable(#[trigger] out[i], out[i + 1]) by {
            if i == 0 {
                lemma_collapse_first(rest);
                assert(rest[0] == ops[1]);
                if rest.len() >= 2 && mergeable(rest[0], rest[1]) {
                    assert(out[1] == merged(ops[1]));
                } else {
                    assert(out[1] == ops[1]);
                }
            } else {
                assert(out[i] == r[i - 1]);
                assert(out[i + 1] == r[i]);
            }
        }
    }
}

/// A list with no start directly followed by its own end is left as it is.
pub proof fn lemma_collapse_keeps_settled(ops: Seq<SCreateOp>)
    requires
        no_empty_pairs(ops),
    ensures
        spec_collapse_empty(ops) == ops,
    decreases ops.len(),
{
    reveal(spec_collapse_empty);
    if ops.len() >= 2 {
        assert(!mergeable(ops[0], ops[1]));
        let rest = ops.drop_first();
        assert(no_empty_pairs(rest)) by {
            assert forall|i: int| 0 <= i < rest.len() - 1 implies !mergeable(#[trigger] rest[i], rest[i + 1]) by {
                assert(rest[i] == ops[i + 1]);
                assert(rest[i + 1] == ops[i + 2]);
            }
        }
        lemma_collapse_keeps_settled(rest);
        assert(seq![ops[0]] + rest =~= ops);
    }
}

/// Merging empty elements twice gives what merging once gives.
pub proof fn lemma_collapse_empty_idempotent(ops: Seq<SCreateOp>)
    ensures
        spec_collapse_empty(spec_collapse_empty(ops)) == spec_collapse_empty(ops),
{
    lemma_collapse_leaves_no_empty_pairs(ops);
    lemma_collapse_keeps_settled(spec_collapse_empty(ops));
}

} // verus!
