//! Namespace changes: before an element start whose namespace differs from the one in force, a
//! namespace operation switches to the element's namespace. Each view starts in HTML.

use vstd::prelude::*;
use crate::component::{
    ComponentCompilationJob, ViewCompilationUnit, lemma_units_related_keys, lemma_units_related_push,
    restore_view_units, same_but_views, same_unit_but_create, take_view_units, unit_keys, units_related, view_entries,
};
use crate::ir::{
    CreateOp, Namespace, SCreateOp, create_op_view, create_ops_view, lemma_create_ops_view_index,
    lemma_create_ops_view_len, lemma_create_ops_view_push,
};

verus! {

/// The creation list with a namespace change before each element start whose namespace differs
/// from the one in force (`active` at the start).
pub open spec fn spec_namespace_changes(ops: Seq<SCreateOp>, active: Namespace) -> Seq<SCreateOp>
    decreases ops.len(),
{
    if ops.len() == 0 {
        Seq::empty()
    } else {
        match ops[0] {
            SCreateOp::ElementStart(b) => if b.namespace != active {
                seq![SCreateOp::Namespace { active: b.namespace }, ops[0]] + spec_namespace_changes(
                    ops.drop_first(),
                    b.namespace,
                )
            } else {
                seq![ops[0]] + spec_namespace_changes(ops.drop_first(), active)
            },
            _ => seq![ops[0]] + spec_namespace_changes(ops.drop_first(), active),
        }
    }
}

/// The namespace in force after a list of creation ops: that of the last namespace operation,
/// or `initial` where there is none.
pub open spec fn namespace_at(ops: Seq<SCreateOp>, initial: Namespace) -> Namespace
    decreases ops.len(),
{
    if ops.len() == 0 {
        initial
    } else {
        match ops.last() {
            SCreateOp::Namespace { active } => active,
            _ => namespace_at(ops.drop_last(), initial),
        }
    }
}

/// Whether a list of creation ops holds no namespace operation.
pub open spec fn no_namespace_ops(ops: Seq<SCreateOp>) -> bool {
    forall|i: int| 0 <= i < ops.len() ==> !(#[trigger] ops[i] is Namespace)
}

/// Insert the namespace changes into one view's creation list.
pub fn namespace_changes_for_unit(create: &mut Vec<CreateOp>)
    ensures
        create_ops_view(final(create)@) == spec_namespace_changes(create_ops_view(old(create)@), Namespace::HTML),
{
    let mut ops: Vec<CreateOp> = Vec::new();
    std::mem::swap(&mut ops, create);
    let ghost c0 = ops@;
    let ghost cv = create_ops_view(c0);
    proof {
        lemma_create_ops_view_len(c0);
    }
    let n = ops.len();
    let mut out: Vec<CreateOp> = Vec::new();
    let mut active = Namespace::HTML;
    let mut j: usize = 0;
    proof {
        assert(create_ops_view(out@) =~= Seq::<SCreateOp>::empty());
        assert(cv.skip(0) =~= cv);
    }
    while j < n
        invariant
            n == c0.len(),
            j <= n,
            ops@ == c0.skip(j as int),
            cv == create_ops_view(c0),
            cv.len() == n,
            spec_namespace_changes(cv, Namespace::HTML) == create_ops_view(out@) + spec_namespace_changes(
                cv.skip(j as int),
                active,
            ),
        decreases n - j,
    {
        let op = ops.remove(0);
        proof {
            lemma_create_ops_view_index(c0, j as int);
            assert(cv.skip(j as int).drop_first() =~= cv.skip(j + 1));
            assert(cv.skip(j as int)[0] == create_op_view(op));
        }
        let ghost before = out@;
        let ghost rest = spec_namespace_changes(cv.skip(j + 1), active);
        let change = match &op {
            CreateOp::ElementStart(b) => if b.namespace != active {
                Some(b.namespace)
            } else {
                None
            },
            _ => None,
        };
        match change {
            Some(ns) => {
                out.push(CreateOp::Namespace { active: ns });
                let ghost mid = out@;
                out.push(op);
                proof {
                    lemma_create_ops_view_push(before, CreateOp::Namespace { active: ns });
                    lemma_create_ops_view_push(mid, op);
                    assert(create_ops_view(out@) + spec_namespace_changes(cv.skip(j + 1), ns) =~= create_ops_view(
                        before,
                    ) + spec_namespace_changes(cv.skip(j as int), active));
                }
                active = ns;
            },
            None => {
                out.push(op);
                proof {
                    lemma_create_ops_view_push(before, op);
                    assert(create_ops_view(out@) + rest =~= create_ops_view(before) + spec_namespace_changes(
                        cv.skip(j as int),
                        active,
                    ));
                }
            },
        }
        proof {
            assert(ops@ =~= c0.skip(j + 1));
        }
        j += 1;
    }
    proof {
        assert(cv.skip(n as int) =~= Seq::<SCreateOp>::empty());
        assert(create_ops_view(out@) + Seq::<SCreateOp>::empty() =~= create_ops_view(out@));
    }
    *create = out;
}

/// A view after the namespace changes: its creation list has them, the rest is as it was.
pub open spec fn namespace_step(u: ViewCompilationUnit, v: ViewCompilationUnit) -> bool {
    &&& same_unit_but_create(v, u)
    &&& create_ops_view(v.create@) == spec_namespace_changes(create_ops_view(u.create@), Namespace::HTML)
}

/// The relation of each embedded view after the phase to the view before it.
pub open spec fn namespace_step_rel() -> spec_fn(int, ViewCompilationUnit, ViewCompilationUnit) -> bool {
    |i: int, u: ViewCompilationUnit, v: ViewCompilationUnit| namespace_step(u, v)
}

/// Insert the namespace changes into every view of a component's template: the root view
/// and each embedded view.
pub fn emit_namespace_changes(job: &mut ComponentCompilationJob)
    ensures
        same_but_views(*final(job), *old(job)),
        namespace_step(old(job).root, final(job).root),
        units_related(view_entries(old(job).views), view_entries(final(job).views), namespace_step_rel()),
{
    namespace_changes_for_unit(&mut job.root.create);
    let ghost mid = *job;
    let mut units = take_view_units(job);
    let ghost all = units@;
    let n = units.len();
    let mut done: Vec<(u64, ViewCompilationUnit)> = Vec::new();
    let mut j: usize = 0;
    proof {
        assert(all.skip(0) =~= all);
        assert(all.take(0) =~= Seq::<(u64, ViewCompilationUnit)>::empty());
    }
    while j < n
        invariant
            n == all.len(),
            j <= n,
            all == view_entries(old(job).views),
            unit_keys(all).no_duplicates(),
            units@ == all.skip(j as int),
            units_related(all.take(j as int), done@, namespace_step_rel()),
            view_entries(job.views) == Seq::<(u64, ViewCompilationUnit)>::empty(),
            same_but_views(*job, mid),
            job.root == mid.root,
        decreases n - j,
    {
        let ghost before = units@;
        let (k, mut u) = units.remove(0);
        let ghost u0 = u;
        proof {
            assert(before[0] == all[j as int]);
        }
        namespace_changes_for_unit(&mut u.create);
        proof {
            assert(namespace_step_rel()(j as int, u0, u));
            lemma_units_related_push(all, done@, namespace_step_rel(), j as int, k, u);
            assert(units@ =~= all.skip(j + 1));
        }
        done.push((k, u));
        j += 1;
    }
    proof {
        assert(all.take(n as int) =~= all);
        lemma_units_related_keys(all, done@, namespace_step_rel());
    }
    restore_view_units(job, done);
}

proof fn lemma_namespace_at_append(p: Seq<SCreateOp>, q: Seq<SCreateOp>, initial: Namespace)
    ensures
        namespace_at(p + q, initial) == namespace_at(q, namespace_at(p, initial)),
    decreases q.len(),
{
    if q.len() == 0 {
        assert(p + q =~= p);
    } else {
        assert((p + q).drop_last() =~= p + q.drop_last());
        assert((p + q).last() == q.last());
        lemma_namespace_at_append(p, q.drop_last(), initial);
    }
}

/// Once the namespace changes are in place, each element start of a list that held no
/// namespace operation stands in its own namespace: the namespace in force before it, starting
/// from the one in force at the start of the list, is the element's.
pub proof fn lemma_elements_in_their_namespace(ops: Seq<SCreateOp>, active: Namespace, i: int)
    requires
        no_namespace_ops(ops),
        0 <= i < spec_namespace_changes(ops, active).len(),
        spec_namespace_changes(ops, active)[i] is ElementStart,
    ensures
        namespace_at(spec_namespace_changes(ops, active).take(i), active)
            == spec_namespace_changes(ops, active)[i]->ElementStart_0.namespace,
    decreases ops.len(),
{
    let out = spec_namespace_changes(ops, active);
    let tail = ops.drop_first();
    assert(namespace_at(Seq::<SCreateOp>::empty(), active) == active);
    assert(no_namespace_ops(tail)) by {
        assert forall|k: int| 0 <= k < tail.len() implies !(#[trigger] tail[k] is Namespace) by {
            assert(tail[k] == ops[k + 1]);
        }
    }
    match ops[0] {
        SCreateOp::ElementStart(b) => {
            if b.namespace != active {
                let head = seq![SCreateOp::Namespace { active: b.namespace }, ops[0]];
                let rest = spec_namespace_changes(tail, b.namespace);
                assert(out == head + rest);
                assert(out[0] == head[0]);
                let one = seq![SCreateOp::Namespace { active: b.namespace }];
                assert(one.last() == SCreateOp::Namespace { active: b.namespace });
                assert(namespace_at(one, active) == b.namespace);
                assert(head.drop_last() =~= one);
                assert(head.last() == ops[0]);
                assert(namespace_at(head, active) == namespace_at(one, active));
                if i == 1 {
                    assert(out.take(1) =~= one);
                    assert(out[1] == ops[0]);
                    assert(namespace_at(out.take(i), active) == out[i]->ElementStart_0.namespace);
                } else {
                    assert(i >= 2);
                    lemma_elements_in_their_namespace(tail, b.namespace, i - 2);
                    assert(out.take(i) =~= head + rest.take(i - 2));
                    lemma_namespace_at_append(head, rest.take(i - 2), active);
                    assert(out[i] == rest[i - 2]);
                    assert(namespace_at(out.take(i), active) == out[i]->ElementStart_0.namespace);
                }
            } else {
                let head = seq![ops[0]];
                let rest = spec_namespace_changes(tail, active);
                assert(out == head + rest);
                if i == 0 {
                    assert(out.take(0) =~= Seq::<SCreateOp>::empty());
                    assert(out[0] == ops[0]);
                    assert(namespace_at(out.take(i), active) == out[i]->ElementStart_0.namespace);
                } else {
                    lemma_elements_in_their_namespace(tail, active, i - 1);
                    assert(out.take(i) =~= head + rest.take(i - 1));
                    lemma_namespace_at_append(head, rest.take(i - 1), active);
                    assert(head.drop_last() =~= Seq::<SCreateOp>::empty());
                    assert(head.last() == ops[0]);
                    assert(namespace_at(head, active) == active);
                    assert(out[i] == rest[i - 1]);
                    assert(namespace_at(out.take(i), active) == out[i]->ElementStart_0.namespace);
                }
            }
        },
        _ => {
            let head = seq![ops[0]];
            let rest = spec_namespace_changes(tail, active);
            assert(out == head + rest);
            assert(!(ops[0] is Namespace));
            assert(i != 0);
            lemma_elements_in_their_namespace(tail, active, i - 1);
            assert(out.take(i) =~= head + rest.take(i - 1));
            lemma_namespace_at_append(head, rest.take(i - 1), active);
            assert(head.drop_last() =~= Seq::<SCreateOp>::empty());
            assert(head.last() == ops[0]);
            assert(namespace_at(head, active) == active);
            assert(out[i] == rest[i - 1]);
            assert(namespace_at(out.take(i), active) == out[i]->ElementStart_0.namespace);
        },
    }
}

} // verus!
