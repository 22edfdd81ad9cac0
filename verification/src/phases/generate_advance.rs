//! Advance operations: the runtime reads the update operations of a view against an implicit
//! slot counter, which starts at 0 and only moves forward. Before each update operation that
//! targets a slot other than the counter's, an advance operation moves the counter by the
//! difference.

use vstd::prelude::*;
use crate::output::XrefId;
use crate::component::{
    ComponentCompilationJob, ViewCompilationUnit, lemma_units_related_keys, lemma_units_related_push,
    restore_view_units, same_but_views, same_unit_but_update, take_view_units, unit_keys, units_related,
    view_entries,
};
use crate::ir::{
    CreateOp, SCreateOp, SUpdateOp, UpdateOp, create_op_view, create_ops_view, update_op_view, update_ops_view,
    lemma_create_ops_view_index, lemma_create_ops_view_len, lemma_update_ops_view_index, lemma_update_ops_view_len,
    lemma_update_ops_view_push,
};

verus! {

/// The xref and slot of a creation operation that takes a slot.
pub open spec fn slot_consumer(op: SCreateOp) -> Option<(XrefId, Option<usize>)> {
    match op {
        SCreateOp::ElementStart(b) => Some((b.xref, b.slot)),
        SCreateOp::Element(b) => Some((b.xref, b.slot)),
        SCreateOp::ContainerStart(b) => Some((b.xref, b.slot)),
        SCreateOp::Container(b) => Some((b.xref, b.slot)),
        SCreateOp::Template(b) => Some((b.xref, b.slot)),
        SCreateOp::RepeaterCreate(b) => Some((b.xref, b.slot)),
        SCreateOp::ConditionalCreate(b) => Some((b.xref, b.slot)),
        SCreateOp::ConditionalBranchCreate(b) => Some((b.xref, b.slot)),
        SCreateOp::Text { xref, slot, .. } => Some((xref, slot)),
        SCreateOp::Projection { xref, slot, .. } => Some((xref, slot)),
        _ => None,
    }
}

/// Whether every creation operation that takes a slot has been given one.
pub open spec fn all_slotted(create: Seq<SCreateOp>) -> bool {
    forall|i: int|
        0 <= i < create.len() ==> match slot_consumer(#[trigger] create[i]) {
            Some(p) => p.1 is Some,
            None => true,
        }
}

/// The slot of `x`: that of the last creation operation with that xref that takes a slot.
pub open spec fn slot_of(create: Seq<SCreateOp>, x: XrefId) -> Option<usize>
    decreases create.len(),
{
    if create.len() == 0 {
        None
    } else {
        match slot_consumer(create.last()) {
            Some(p) => if p.0 == x {
                p.1
            } else {
                slot_of(create.drop_last(), x)
            },
            None => slot_of(create.drop_last(), x),
        }
    }
}

/// The element an update operation reads the slot counter for.
pub open spec fn consumer_target(op: SUpdateOp) -> Option<XrefId> {
    match op {
        SUpdateOp::Binding(b) => Some(b.target),
        SUpdateOp::Property(p) => Some(p.target),
        SUpdateOp::Attribute(a) => Some(a.target),
        SUpdateOp::StyleProp { target, .. } => Some(target),
        SUpdateOp::ClassProp { target, .. } => Some(target),
        SUpdateOp::StyleMap { target, .. } => Some(target),
        SUpdateOp::ClassMap { target, .. } => Some(target),
        SUpdateOp::TwoWayProperty { target, .. } => Some(target),
        SUpdateOp::InterpolateText { target, .. } => Some(target),
        _ => None,
    }
}

/// Whether the counter, at `ctx` before `ops`, can reach the slot of each operation's target
/// by moving forward only: every target has a slot, and no slot lies behind the counter.
pub open spec fn advance_ok(create: Seq<SCreateOp>, ops: Seq<SUpdateOp>, ctx: usize) -> bool
    decreases ops.len(),
{
    if ops.len() == 0 {
        true
    } else {
        match consumer_target(ops[0]) {
            Some(t) => match slot_of(create, t) {
                Some(s) => s >= ctx && advance_ok(create, ops.drop_first(), s),
                None => false,
            },
            None => advance_ok(create, ops.drop_first(), ctx),
        }
    }
}

/// The update list with an advance operation before each operation whose target's slot is not
/// the counter's, the counter being at `ctx` before the list.
pub open spec fn spec_advance(create: Seq<SCreateOp>, ops: Seq<SUpdateOp>, ctx: usize) -> Seq<SUpdateOp>
    decreases ops.len(),
{
    if ops.len() == 0 {
        Seq::empty()
    } else {
        match consumer_target(ops[0]) {
            Some(t) => match slot_of(create, t) {
                Some(s) => if s != ctx {
                    seq![SUpdateOp::Advance { delta: (s - ctx) as usize }, ops[0]] + spec_advance(
                        create,
                        ops.drop_first(),
                        s,
                    )
                } else {
                    seq![ops[0]] + spec_advance(create, ops.drop_first(), ctx)
                },
                None => seq![ops[0]] + spec_advance(create, ops.drop_first(), ctx),
            },
            None => seq![ops[0]] + spec_advance(create, ops.drop_first(), ctx),
        }
    }
}

/// Whether a view can have its advance operations generated: every slot is assigned, and the
/// counter never has to move back.
pub open spec fn advance_ready(create: Seq<SCreateOp>, update: Seq<SUpdateOp>) -> bool {
    all_slotted(create) && advance_ok(create, update, 0)
}

fn consumer_of(op: &CreateOp) -> (r: Option<(XrefId, Option<usize>)>)
    ensures
        r == slot_consumer(create_op_view(*op)),
{
    match op {
        CreateOp::ElementStart(b) => Some((b.xref, b.slot)),
        CreateOp::Element(b) => Some((b.xref, b.slot)),
        CreateOp::ContainerStart(b) => Some((b.xref, b.slot)),
        CreateOp::Container(b) => Some((b.xref, b.slot)),
        CreateOp::Template(b) => Some((b.xref, b.slot)),
        CreateOp::RepeaterCreate(b) => Some((b.xref, b.slot)),
        CreateOp::ConditionalCreate(b) => Some((b.xref, b.slot)),
        CreateOp::ConditionalBranchCreate(b) => Some((b.xref, b.slot)),
        CreateOp::Text { xref, slot, .. } => Some((*xref, *slot)),
        CreateOp::Projection { xref, slot, .. } => Some((*xref, *slot)),
        _ => None,
    }
}

fn target_of(op: &UpdateOp) -> (r: Option<XrefId>)
    ensures
        r == consumer_target(update_op_view(*op)),
{
    match op {
        UpdateOp::Binding(b) => Some(b.target),
        UpdateOp::Property(p) => Some(p.target),
        UpdateOp::Attribute(a) => Some(a.target),
        UpdateOp::StyleProp { target, .. } => Some(*target),
        UpdateOp::ClassProp { target, .. } => Some(*target),
        UpdateOp::StyleMap { target, .. } => Some(*target),
        UpdateOp::ClassMap { target, .. } => Some(*target),
        UpdateOp::TwoWayProperty { target, .. } => Some(*target),
        UpdateOp::InterpolateText { target, .. } => Some(*target),
        _ => None,
    }
}

/// Whether every creation operation that takes a slot has one.
fn check_slotted(create: &Vec<CreateOp>) -> (r: bool)
    ensures
        r == all_slotted(create_ops_view(create@)),
{
    let ghost cv = create_ops_view(create@);
    proof {
        lemma_create_ops_view_len(create@);
    }
    let mut i: usize = 0;
    while i < create.len()
        invariant
            i <= create@.len(),
            cv == create_ops_view(create@),
            cv.len() == create@.len(),
            forall|k: int|
                0 <= k < i ==> match slot_consumer(#[trigger] cv[k]) {
                    Some(p) => p.1 is Some,
                    None => true,
                },
        decreases create.len() - i,
    {
        proof {
            lemma_create_ops_view_index(create@, i as int);
        }
        match consumer_of(&create[i]) {
            Some((_, None)) => {
                return false;
            },
            _ => {},
        }
        i += 1;
    }
    true
}

/// The slot of `x`, looked up from the last creation operation back.
fn find_slot(create: &Vec<CreateOp>, x: XrefId) -> (r: Option<usize>)
    ensures
        r == slot_of(create_ops_view(create@), x),
{
    let ghost cv = create_ops_view(create@);
    proof {
        lemma_create_ops_view_len(create@);
    }
    let mut i: usize = create.len();
    proof {
        assert(cv.take(i as int) =~= cv);
    }
    while i > 0
        invariant
            i <= create@.len(),
            cv == create_ops_view(create@),
            cv.len() == create@.len(),
            slot_of(cv, x) == slot_of(cv.take(i as int), x),
        decreases i,
    {
        proof {
            lemma_create_ops_view_index(create@, i - 1);
            assert(cv.take(i as int).last() == cv[i - 1]);
            assert(cv.take(i as int).drop_last() =~= cv.take(i - 1));
        }
        match consumer_of(&create[i - 1]) {
            Some((xr, s)) => {
                if xr.id == x.id {
                    return s;
                }
            },
            None => {},
        }
        i -= 1;
    }
    None
}

/// Whether a view is ready for its advance operations.
pub fn check_advance_ready(create: &Vec<CreateOp>, update: &Vec<UpdateOp>) -> (r: bool)
    ensures
        r == advance_ready(create_ops_view(create@), update_ops_view(update@)),
{
    if !check_slotted(create) {
        return false;
    }
    let ghost cv = create_ops_view(create@);
    let ghost uv = update_ops_view(update@);
    proof {
        lemma_update_ops_view_len(update@);
        assert(uv.skip(0) =~= uv);
    }
    let mut ctx: usize = 0;
    let mut j: usize = 0;
    while j < update.len()
        invariant
            j <= update@.len(),
            cv == create_ops_view(create@),
            uv == update_ops_view(update@),
            uv.len() == update@.len(),
            advance_ok(cv, uv, 0) == advance_ok(cv, uv.skip(j as int), ctx),
        decreases update.len() - j,
    {
        proof {
            lemma_update_ops_view_index(update@, j as int);
            assert(uv.skip(j as int)[0] == uv[j as int]);
            assert(uv.skip(j as int).drop_first() =~= uv.skip(j + 1));
        }
        match target_of(&update[j]) {
            Some(t) => match find_slot(create, t) {
                Some(s) => {
                    if s < ctx {
                        return false;
                    }
                    ctx = s;
                },
                None => {
                    return false;
                },
            },
            None => {},
        }
        j += 1;
    }
    proof {
        assert(uv.skip(j as int) =~= Seq::<SUpdateOp>::empty());
    }
    true
}

/// One step of the generation: what the first operation of the list turns into.
proof fn lemma_advance_step(create: Seq<SCreateOp>, ops: Seq<SUpdateOp>, ctx: usize)
    requires
        ops.len() > 0,
        advance_ok(create, ops, ctx),
    ensures
        consumer_target(ops[0]) is None ==> spec_advance(create, ops, ctx) == seq![ops[0]] + spec_advance(
            create,
            ops.drop_first(),
            ctx,
        ) && advance_ok(create, ops.drop_first(), ctx),
        consumer_target(ops[0]) matches Some(t) ==> slot_of(create, t) matches Some(s) && s >= ctx && advance_ok(
            create,
            ops.drop_first(),
            s,
        ) && (s != ctx ==> spec_advance(create, ops, ctx) == seq![
            SUpdateOp::Advance { delta: (s - ctx) as usize },
            ops[0],
        ] + spec_advance(create, ops.drop_first(), s)) && (s == ctx ==> spec_advance(create, ops, ctx) == seq![ops[0]]
            + spec_advance(create, ops.drop_first(), ctx)),
{
}

/// Generate the advance operations of one view.
pub fn generate_advance_for_unit(create: &Vec<CreateOp>, update: &mut Vec<UpdateOp>)
    requires
        advance_ready(create_ops_view(create@), update_ops_view(old(update)@)),
    ensures
        update_ops_view(final(update)@) == spec_advance(create_ops_view(create@), update_ops_view(old(update)@), 0),
{
    let mut ops: Vec<UpdateOp> = Vec::new();
    std::mem::swap(&mut ops, update);
    let ghost u0 = ops@;
    let ghost uv = update_ops_view(u0);
    let ghost cv = create_ops_view(create@);
    proof {
        lemma_update_ops_view_len(u0);
        assert(uv.skip(0) =~= uv);
    }
    let n = ops.len();
    let mut out: Vec<UpdateOp> = Vec::new();
    let mut ctx: usize = 0;
    let mut j: usize = 0;
    proof {
        assert(update_ops_view(out@) =~= Seq::<SUpdateOp>::empty());
    }
    while j < n
        invariant
            n == u0.len(),
            j <= n,
            ops@ == u0.skip(j as int),
            uv == update_ops_view(u0),
            uv.len() == n,
            cv == create_ops_view(create@),
            advance_ok(cv, uv.skip(j as int), ctx),
            spec_advance(cv, uv, 0) == update_ops_view(out@) + spec_advance(cv, uv.skip(j as int), ctx),
        decreases n - j,
    {
        let op = ops.remove(0);
        proof {
            lemma_update_ops_view_index(u0, j as int);
            assert(uv.skip(j as int)[0] == update_op_view(op));
            assert(uv.skip(j as int).drop_first() =~= uv.skip(j + 1));
        }
        let ghost before = out@;
        let ghost tail = uv.skip(j + 1);
        proof {
            lemma_advance_step(cv, uv.skip(j as int), ctx);
        }
        match target_of(&op) {
            Some(t) => {
                let s = find_slot(create, t).unwrap();
                if s != ctx {
                    let adv = UpdateOp::Advance { delta: s - ctx };
                    out.push(adv);
                    let ghost mid = out@;
                    out.push(op);
                    proof {
                        lemma_update_ops_view_push(before, adv);
                        lemma_update_ops_view_push(mid, op);
                        let two = seq![SUpdateOp::Advance { delta: (s - ctx) as usize }, update_op_view(op)];
                        assert(update_ops_view(out@) =~= update_ops_view(before) + two);
                        assert(update_ops_view(before) + two + spec_advance(cv, tail, s) =~= update_ops_view(before)
                            + (two + spec_advance(cv, tail, s)));
                    }
                    ctx = s;
                } else {
                    out.push(op);
                    proof {
                        lemma_update_ops_view_push(before, op);
                        let one = seq![update_op_view(op)];
                        assert(update_ops_view(out@) =~= update_ops_view(before) + one);
                        assert(update_ops_view(before) + one + spec_advance(cv, tail, ctx) =~= update_ops_view(before)
                            + (one + spec_advance(cv, tail, ctx)));
                    }
                }
            },
            None => {
                out.push(op);
                proof {
                    lemma_update_ops_view_push(before, op);
                    let one = seq![update_op_view(op)];
                    assert(update_ops_view(out@) =~= update_ops_view(before) + one);
                    assert(update_ops_view(before) + one + spec_advance(cv, tail, ctx) =~= update_ops_view(before) + (
                    one + spec_advance(cv, tail, ctx)));
                }
            },
        }
        proof {
            assert(ops@ =~= u0.skip(j + 1));
        }
        j += 1;
    }
    proof {
        assert(uv.skip(n as int) =~= Seq::<SUpdateOp>::empty());
        assert(update_ops_view(out@) + Seq::<SUpdateOp>::empty() =~= update_ops_view(out@));
    }
    *update = out;
}

/// Whether a view is ready for its advance operations.
pub open spec fn view_ready(u: ViewCompilationUnit) -> bool {
    advance_ready(create_ops_view(u.create@), update_ops_view(u.update@))
}

/// A view after its advance operations are generated.
pub open spec fn advance_step(u: ViewCompilationUnit, v: ViewCompilationUnit) -> bool {
    &&& same_unit_but_update(v, u)
    &&& update_ops_view(v.update@) == spec_advance(create_ops_view(u.create@), update_ops_view(u.update@), 0)
}

/// Whether the views of a list before index `i` are all ready.
pub open spec fn ready_before(all: Seq<(u64, ViewCompilationUnit)>, i: int) -> bool {
    forall|k: int| 0 <= k < i ==> #[trigger] view_ready(all[k].1)
}

/// The relation of each embedded view after the phase to the view before it: processed where
/// it and every view before it are ready, left as it is otherwise.
pub open spec fn advance_rel(all: Seq<(u64, ViewCompilationUnit)>) -> spec_fn(int, ViewCompilationUnit, ViewCompilationUnit) -> bool {
    |i: int, u: ViewCompilationUnit, v: ViewCompilationUnit|
        if ready_before(all, i) && view_ready(u) {
            advance_step(u, v)
        } else {
            v == u
        }
}

/// Generate the advance operations of every view of a component's template. A view whose
/// slots are not all assigned, or whose counter would have to move back, stops the phase: its
/// xref is returned as the error, and it and the views after it are left as they are. The root
/// view is checked first, and where it fails nothing changes.
pub fn generate_advance(job: &mut ComponentCompilationJob) -> (r: Result<(), XrefId>)
    ensures
        !view_ready(old(job).root) ==> r == Err::<(), XrefId>(old(job).root.xref) && *final(job) == *old(job),
        view_ready(old(job).root) ==> {
            &&& same_but_views(*final(job), *old(job))
            &&& advance_step(old(job).root, final(job).root)
            &&& units_related(view_entries(old(job).views), view_entries(final(job).views), advance_rel(view_entries(old(job).views)))
            &&& (r is Ok <==> ready_before(view_entries(old(job).views), view_entries(old(job).views).len() as int))
            &&& (r matches Err(x) ==> exists|i: int|
                0 <= i < view_entries(old(job).views).len() && view_entries(old(job).views)[i].0 == x.id
                    && !view_ready(view_entries(old(job).views)[i].1) && ready_before(view_entries(old(job).views), i))
        },
{
    if !check_advance_ready(&job.root.create, &job.root.update) {
        return Err(job.root.xref);
    }
    generate_advance_for_unit(&job.root.create, &mut job.root.update);
    let ghost mid = *job;
    let mut units = take_view_units(job);
    let ghost all = units@;
    let ghost rel = advance_rel(all);
    let n = units.len();
    let mut done: Vec<(u64, ViewCompilationUnit)> = Vec::new();
    let mut failed: Option<XrefId> = None;
    let mut j: usize = 0;
    proof {
        assert(all.skip(0) =~= all);
        assert(all.take(0) =~= Seq::<(u64, ViewCompilationUnit)>::empty());
    }
    while j < n
        invariant
            n == all.len(),
            j <= n,
            all == view_entries(old(job).views),
            rel == advance_rel(all),
            unit_keys(all).no_duplicates(),
            units@ == all.skip(j as int),
            units_related(all.take(j as int), done@, rel),
            failed is None <==> ready_before(all, j as int),
            failed matches Some(x) ==> exists|i: int|
                0 <= i < j && all[i].0 == x.id && !view_ready(all[i].1) && ready_before(all, i),
            view_entries(job.views) == Seq::<(u64, ViewCompilationUnit)>::empty(),
            same_but_views(*job, mid),
            job.root == mid.root,
        decreases n - j,
    {
        let ghost before = units@;
        let ghost failed0 = failed;
        let (k, mut u) = units.remove(0);
        let ghost u0 = u;
        proof {
            assert(before[0] == all[j as int]);
        }
        if failed.is_none() {
            if check_advance_ready(&u.create, &u.update) {
                generate_advance_for_unit(&u.create, &mut u.update);
            } else {
                failed = Some(XrefId { id: k });
            }
        }
        proof {
            assert(rel(j as int, u0, u));
            lemma_units_related_push(all, done@, rel, j as int, k, u);
            assert(units@ =~= all.skip(j + 1));
            if failed is None {
                assert forall|q: int| 0 <= q < j + 1 implies #[trigger] view_ready(all[q].1) by {
                    if q < j {
                        assert(ready_before(all, j as int));
                    }
                }
            } else {
                if failed0 is None {
                    assert(!view_ready(all[j as int].1));
                } else {
                    let x = failed->0;
                    let w = choose|i: int| 0 <= i < j && all[i].0 == x.id && !view_ready(all[i].1) && ready_before(all, i);
                    assert(!view_ready(all[w].1));
                }
                assert(!ready_before(all, j + 1));
            }
        }
        done.push((k, u));
        j += 1;
    }
    proof {
        assert(all.take(n as int) =~= all);
        lemma_units_related_keys(all, done@, rel);
    }
    restore_view_units(job, done);
    match failed {
        Some(x) => Err(x),
        None => Ok(()),
    }
}

/// The slot counter after a list of update operations, from `ctx`: each advance operation
/// moves it forward by its delta.
pub open spec fn counter_after(ops: Seq<SUpdateOp>, ctx: int) -> int
    decreases ops.len(),
{
    if ops.len() == 0 {
        ctx
    } else {
        match ops.last() {
            SUpdateOp::Advance { delta } => counter_after(ops.drop_last(), ctx) + delta,
            _ => counter_after(ops.drop_last(), ctx),
        }
    }
}

proof fn lemma_counter_after_append(p: Seq<SUpdateOp>, q: Seq<SUpdateOp>, ctx: int)
    ensures
        counter_after(p + q, ctx) == counter_after(q, counter_after(p, ctx)),
    decreases q.len(),
{
    if q.len() == 0 {
        assert(p + q =~= p);
    } else {
        assert((p + q).drop_last() =~= p + q.drop_last());
        assert((p + q).last() == q.last());
        lemma_counter_after_append(p, q.drop_last(), ctx);
    }
}

/// Once the advance operations are in place, in a list that held none, each update operation
/// that reads the slot counter finds it at its target's slot: the counter, moved from `ctx` by
/// the advance operations before the operation, stands at that slot.
pub proof fn lemma_advance_reaches_each_slot(create: Seq<SCreateOp>, ops: Seq<SUpdateOp>, ctx: usize, i: int)
    requires
        advance_ok(create, ops, ctx),
        forall|k: int| 0 <= k < ops.len() ==> !(#[trigger] ops[k] is Advance),
        0 <= i < spec_advance(create, ops, ctx).len(),
        consumer_target(spec_advance(create, ops, ctx)[i]) is Some,
    ensures
        slot_of(create, consumer_target(spec_advance(create, ops, ctx)[i])->0) == Some(
            counter_after(spec_advance(create, ops, ctx).take(i), ctx as int) as usize,
        ),
        counter_after(spec_advance(create, ops, ctx).take(i), ctx as int) >= 0,
    decreases ops.len(),
{
    let out = spec_advance(create, ops, ctx);
    let tail = ops.drop_first();
    assert forall|k: int| 0 <= k < tail.len() implies !(#[trigger] tail[k] is Advance) by {
        assert(tail[k] == ops[k + 1]);
    }
    assert(counter_after(Seq::<SUpdateOp>::empty(), ctx as int) == ctx);
    assert(!(ops[0] is Advance));
    let single = seq![ops[0]];
    assert(single.last() == ops[0]);
    assert(single.drop_last() =~= Seq::<SUpdateOp>::empty());
    assert(counter_after(single, ctx as int) == ctx);
    match consumer_target(ops[0]) {
        Some(t) => {
            let s = slot_of(create, t)->0;
            if s != ctx {
                let adv = SUpdateOp::Advance { delta: (s - ctx) as usize };
                let head = seq![adv, ops[0]];
                let rest = spec_advance(create, tail, s);
                assert(out == head + rest);
                assert(out[0] == adv);
                let one = seq![adv];
                assert(one.last() == adv);
                assert(one.drop_last() =~= Seq::<SUpdateOp>::empty());
                assert(counter_after(one, ctx as int) == s);
                assert(head.drop_last() =~= one);
                assert(head.last() == ops[0]);
                assert(counter_after(head, ctx as int) == s);
                if i == 1 {
                    assert(out.take(1) =~= one);
                    assert(out[1] == ops[0]);
                } else {
                    lemma_advance_reaches_each_slot(create, tail, s, i - 2);
                    assert(out.take(i) =~= head + rest.take(i - 2));
                    lemma_counter_after_append(head, rest.take(i - 2), ctx as int);
                    assert(out[i] == rest[i - 2]);
                }
            } else {
                let rest = spec_advance(create, tail, ctx);
                assert(out == single + rest);
                if i == 0 {
                    assert(out.take(0) =~= Seq::<SUpdateOp>::empty());
                    assert(out[0] == ops[0]);
                } else {
                    lemma_advance_reaches_each_slot(create, tail, ctx, i - 1);
                    assert(out.take(i) =~= single + rest.take(i - 1));
                    lemma_counter_after_append(single, rest.take(i - 1), ctx as int);
                    assert(out[i] == rest[i - 1]);
                }
            }
        },
        None => {
            let rest = spec_advance(create, tail, ctx);
            assert(out == single + rest);
            assert(out[0] == ops[0]);
            lemma_advance_reaches_each_slot(create, tail, ctx, i - 1);
            assert(out.take(i) =~= single + rest.take(i - 1));
            lemma_counter_after_append(single, rest.take(i - 1), ctx as int);
            assert(out[i] == rest[i - 1]);
        },
    }
}

/// Whether an update operation is not an advance operation.
pub open spec fn not_advance(op: SUpdateOp) -> bool {
    !(op is Advance)
}

/// The generation only adds advance operations: without them, the list is what it was.
pub proof fn lemma_advance_only_adds_advances(create: Seq<SCreateOp>, ops: Seq<SUpdateOp>, ctx: usize)
    ensures
        spec_advance(create, ops, ctx).filter(|o: SUpdateOp| not_advance(o)) == ops.filter(|o: SUpdateOp| not_advance(o)),
    decreases ops.len(),
{
    if ops.len() > 0 {
        let tail = ops.drop_first();
        let f = |o: SUpdateOp| not_advance(o);
        let next = match consumer_target(ops[0]) {
            Some(t) => match slot_of(create, t) {
                Some(s) => s,
                None => ctx,
            },
            None => ctx,
        };
        lemma_advance_only_adds_advances(create, tail, next);
        let rest = spec_advance(create, tail, next);
        let single = seq![ops[0]];
        assert(single + tail =~= ops);
        Seq::filter_distributes_over_add(single, tail, f);
        Seq::filter_distributes_over_add(single, rest, f);
        let head = match consumer_target(ops[0]) {
            Some(t) => match slot_of(create, t) {
                Some(s) => if s != ctx {
                    seq![SUpdateOp::Advance { delta: (s - ctx) as usize }, ops[0]]
                } else {
                    single
                },
                None => single,
            },
            None => single,
        };
        assert(spec_advance(create, ops, ctx) == head + rest);
        Seq::filter_distributes_over_add(head, rest, f);
        assert(head.filter(f) == single.filter(f)) by {
            let e = Seq::<SUpdateOp>::empty();
            assert(e.filter(f) =~= e) by {
                reveal(Seq::filter);
            }
            assert(single =~= e.push(ops[0]));
            e.lemma_filter_push(ops[0], f);
            if head.len() == 2 {
                let a = head[0];
                assert(!f(a));
                assert(head =~= e.push(a).push(ops[0]));
                e.lemma_filter_push(a, f);
                e.push(a).lemma_filter_push(ops[0], f);
            }
        }
    }
}

} // verus!
