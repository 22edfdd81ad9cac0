//! Duplicate text attributes (`<div class="a" class="b">`): the update lists are walked from the
//! last operation back, remembering the names of the text attribute bindings seen per element.
//! In the compatibility mode only the last `style` and the last `class` text attribute of an
//! element are kept; otherwise every duplicate stays.

use vstd::prelude::*;
use crate::text::str_eq;
use crate::component::{
    ComponentCompilationJob, ViewCompilationUnit, lemma_units_related_keys, lemma_units_related_push,
    restore_view_units, same_but_views, same_unit_but_update, take_view_units, unit_keys, units_related,
    view_entries,
};
use crate::ir::{CompatibilityMode, SUpdateOp, UpdateOp, update_op_view, update_ops_view, lemma_update_ops_view_index, lemma_update_ops_view_len};

verus! {

/// The element and name of a text attribute binding.
pub open spec fn text_attr_key(op: SUpdateOp) -> Option<(u64, Seq<char>)> {
    match op {
        SUpdateOp::Binding(b) => if b.is_text_attribute {
            Some((b.target.id, b.name))
        } else {
            None
        },
        _ => None,
    }
}

/// Whether a name is one of which only the last text attribute is kept.
pub open spec fn keeps_last_only(name: Seq<char>) -> bool {
    name == "style"@ || name == "class"@
}

/// The update list without the duplicates that are dropped, walking from the last operation
/// back with the (element, name) pairs in `seen` already seen; and the pairs seen at the end.
pub open spec fn spec_dedup(ops: Seq<SUpdateOp>, seen: Set<(u64, Seq<char>)>, tdb: bool) -> (Seq<SUpdateOp>, Set<
    (u64, Seq<char>),
>)
    decreases ops.len(),
{
    if ops.len() == 0 {
        (ops, seen)
    } else {
        let last = ops.last();
        match text_attr_key(last) {
            Some(k) => {
                let dropped = tdb && seen.contains(k) && keeps_last_only(k.1);
                let (rest, s) = spec_dedup(ops.drop_last(), seen.insert(k), tdb);
                (if dropped { rest } else { rest.push(last) }, s)
            },
            None => {
                let (rest, s) = spec_dedup(ops.drop_last(), seen, tdb);
                (rest.push(last), s)
            },
        }
    }
}

/// The (element, name) pairs held in a list.
pub open spec fn seen_view(v: Seq<(u64, String)>) -> Set<(u64, Seq<char>)> {
    Set::new(|p: (u64, Seq<char>)| exists|i: int| 0 <= i < v.len() && v[i].0 == p.0 && #[trigger] v[i].1@ == p.1)
}

fn seen_contains(seen: &Vec<(u64, String)>, id: u64, name: &str) -> (r: bool)
    ensures
        r == seen_view(seen@).contains((id, name@)),
{
    let mut i: usize = 0;
    while i < seen.len()
        invariant
            i <= seen.len(),
            forall|k: int| 0 <= k < i ==> !(seen@[k].0 == id && #[trigger] seen@[k].1@ == name@),
        decreases seen.len() - i,
    {
        if seen[i].0 == id && str_eq(seen[i].1.as_str(), name) {
            assert(seen@[i as int].1@ == name@);
            return true;
        }
        i += 1;
    }
    false
}

fn seen_add(seen: &mut Vec<(u64, String)>, id: u64, name: String)
    ensures
        seen_view(final(seen)@) == seen_view(old(seen)@).insert((id, name@)),
{
    let ghost v0 = seen@;
    let ghost n = name@;
    seen.push((id, name));
    proof {
        let v1 = seen@;
        assert forall|p: (u64, Seq<char>)| #[trigger] seen_view(v1).contains(p) == seen_view(v0).insert((id, n)).contains(p) by {
            if seen_view(v0).contains(p) {
                let i = choose|i: int| 0 <= i < v0.len() && v0[i].0 == p.0 && #[trigger] v0[i].1@ == p.1;
                assert(v1[i] == v0[i]);
            }
            if p == (id, n) {
                assert(v1[v0.len() as int].1@ == n);
            }
            if seen_view(v1).contains(p) {
                let i = choose|i: int| 0 <= i < v1.len() && v1[i].0 == p.0 && #[trigger] v1[i].1@ == p.1;
                if i < v0.len() {
                    assert(v0[i] == v1[i]);
                }
            }
        }
        assert(seen_view(v1) =~= seen_view(v0).insert((id, n)));
    }
}

proof fn lemma_view_is_map(s: Seq<UpdateOp>)
    ensures
        update_ops_view(s) == s.map_values(|o: UpdateOp| update_op_view(o)),
{
    lemma_update_ops_view_len(s);
    assert forall|i: int| 0 <= i < s.len() implies update_ops_view(s)[i] == s.map_values(
        |o: UpdateOp| update_op_view(o),
    )[i] by {
        lemma_update_ops_view_index(s, i);
    }
    assert(update_ops_view(s) =~= s.map_values(|o: UpdateOp| update_op_view(o)));
}

/// The key of a text attribute binding, read from the operation.
fn text_attr_key_of(op: &UpdateOp) -> (r: Option<(u64, String)>)
    ensures
        match r {
            Some(k) => text_attr_key(update_op_view(*op)) == Some((k.0, k.1@)),
            None => text_attr_key(update_op_view(*op)) is None,
        },
{
    match op {
        UpdateOp::Binding(b) => if b.is_text_attribute {
            Some((b.target.id, b.name.clone()))
        } else {
            None
        },
        _ => None,
    }
}

/// Drop the duplicate text attributes of one view's update list, with the pairs already seen in
/// `seen`, which gets the pairs seen here.
pub fn deduplicate_text_bindings_for_unit(update: &mut Vec<UpdateOp>, seen: &mut Vec<(u64, String)>, tdb: bool)
    ensures
        update_ops_view(final(update)@) == spec_dedup(update_ops_view(old(update)@), seen_view(old(seen)@), tdb).0,
        seen_view(final(seen)@) == spec_dedup(update_ops_view(old(update)@), seen_view(old(seen)@), tdb).1,
{
    let mut ops: Vec<UpdateOp> = Vec::new();
    std::mem::swap(&mut ops, update);
    let ghost u0 = ops@;
    let ghost uv = update_ops_view(u0);
    let ghost seen0 = seen_view(seen@);
    proof {
        lemma_view_is_map(u0);
    }
    let mut kept: Vec<UpdateOp> = Vec::new();
    let mut k: usize = ops.len();
    proof {
        assert(uv.take(k as int) =~= uv);
        assert(ops@ =~= u0.take(k as int));
        let r = spec_dedup(uv, seen0, tdb);
        assert(r.0 + kept@.map_values(|o: UpdateOp| update_op_view(o)) =~= r.0);
    }
    while k > 0
        invariant
            k <= u0.len(),
            ops@ == u0.take(k as int),
            uv == u0.map_values(|o: UpdateOp| update_op_view(o)),
            spec_dedup(uv, seen0, tdb) == (
                spec_dedup(uv.take(k as int), seen_view(seen@), tdb).0 + kept@.map_values(
                    |o: UpdateOp| update_op_view(o),
                ),
                spec_dedup(uv.take(k as int), seen_view(seen@), tdb).1,
            ),
        decreases k,
    {
        let op = ops.pop().unwrap();
        let ghost s_before = seen_view(seen@);
        let ghost kv = kept@.map_values(|o: UpdateOp| update_op_view(o));
        let ghost prefix = uv.take(k as int);
        proof {
            assert(op == u0[k - 1]);
            assert(prefix.last() == update_op_view(op));
            assert(prefix.drop_last() =~= uv.take(k - 1));
        }
        match text_attr_key_of(&op) {
            Some((id, name)) => {
                let dup = seen_contains(seen, id, name.as_str());
                let dropped = tdb && dup && (str_eq(name.as_str(), "style") || str_eq(name.as_str(), "class"));
                seen_add(seen, id, name);
                if !dropped {
                    kept.insert(0, op);
                    proof {
                        let rest = spec_dedup(uv.take(k - 1), seen_view(seen@), tdb).0;
                        assert(kept@.map_values(|o: UpdateOp| update_op_view(o)) =~= seq![update_op_view(op)] + kv);
                        assert(rest.push(update_op_view(op)) + kv =~= rest + (seq![update_op_view(op)] + kv));
                    }
                }
            },
            None => {
                kept.insert(0, op);
                proof {
                    let rest = spec_dedup(uv.take(k - 1), seen_view(seen@), tdb).0;
                    assert(kept@.map_values(|o: UpdateOp| update_op_view(o)) =~= seq![update_op_view(op)] + kv);
                    assert(rest.push(update_op_view(op)) + kv =~= rest + (seq![update_op_view(op)] + kv));
                }
            },
        }
        proof {
            assert(ops@ =~= u0.take(k - 1));
        }
        k -= 1;
    }
    proof {
        assert(uv.take(0) =~= Seq::<crate::ir::SUpdateOp>::empty());
        lemma_view_is_map(kept@);
        let e = spec_dedup(uv.take(0), seen_view(seen@), tdb).0;
        assert(e + kept@.map_values(|o: UpdateOp| update_op_view(o)) =~= kept@.map_values(
            |o: UpdateOp| update_op_view(o),
        ));
    }
    *update = kept;
}

/// The (element, name) pairs seen after walking the update lists of a list of views in
/// order, starting from `seen`.
pub open spec fn seen_through(units: Seq<(u64, ViewCompilationUnit)>, seen: Set<(u64, Seq<char>)>, tdb: bool) -> Set<
    (u64, Seq<char>),
>
    decreases units.len(),
{
    if units.len() == 0 {
        seen
    } else {
        spec_dedup(update_ops_view(units.last().1.update@), seen_through(units.drop_last(), seen, tdb), tdb).1
    }
}

/// A view after dropping its duplicate text attributes, with the pairs in `seen` already seen.
pub open spec fn dedup_step(u: ViewCompilationUnit, v: ViewCompilationUnit, seen: Set<(u64, Seq<char>)>, tdb: bool) -> bool {
    &&& same_unit_but_update(v, u)
    &&& update_ops_view(v.update@) == spec_dedup(update_ops_view(u.update@), seen, tdb).0
}

/// The relation of each embedded view after the phase to the view before it: the pairs seen
/// are those of the root and of the views before it.
pub open spec fn dedup_rel(all: Seq<(u64, ViewCompilationUnit)>, seen: Set<(u64, Seq<char>)>, tdb: bool) -> spec_fn(
    int,
    ViewCompilationUnit,
    ViewCompilationUnit,
) -> bool {
    |i: int, u: ViewCompilationUnit, v: ViewCompilationUnit| dedup_step(u, v, seen_through(all.take(i), seen, tdb), tdb)
}

/// Drop the duplicate text attributes of every view of a component's template, with one record
/// of the pairs seen, which starts empty: the root view first, then each embedded view in
/// order.
pub fn deduplicate_text_bindings(job: &mut ComponentCompilationJob)
    ensures
        same_but_views(*final(job), *old(job)),
        dedup_step(
            old(job).root,
            final(job).root,
            Set::empty(),
            old(job).compatibility == CompatibilityMode::TemplateDefinitionBuilder,
        ),
        units_related(
            view_entries(old(job).views),
            view_entries(final(job).views),
            dedup_rel(
                view_entries(old(job).views),
                spec_dedup(
                    update_ops_view(old(job).root.update@),
                    Set::empty(),
                    old(job).compatibility == CompatibilityMode::TemplateDefinitionBuilder,
                ).1,
                old(job).compatibility == CompatibilityMode::TemplateDefinitionBuilder,
            ),
        ),
{
    let tdb = job.compatibility == CompatibilityMode::TemplateDefinitionBuilder;
    let mut seen: Vec<(u64, String)> = Vec::new();
    proof {
        assert(seen_view(seen@) =~= Set::<(u64, Seq<char>)>::empty());
    }
    deduplicate_text_bindings_for_unit(&mut job.root.update, &mut seen, tdb);
    let ghost seen_root = seen_view(seen@);
    let ghost mid = *job;
    let mut units = take_view_units(job);
    let ghost all = units@;
    let ghost rel = dedup_rel(all, seen_root, tdb);
    let n = units.len();
    let mut done: Vec<(u64, ViewCompilationUnit)> = Vec::new();
    let mut j: usize = 0;
    proof {
        assert(all.skip(0) =~= all);
        assert(all.take(0) =~= Seq::<(u64, ViewCompilationUnit)>::empty());
    }
    while j < n
        invariant
            n == all.len(),
            j <= n,
            all == view_entries(old(job).views),
            rel == dedup_rel(all, seen_root, tdb),
            unit_keys(all).no_duplicates(),
            units@ == all.skip(j as int),
            units_related(all.take(j as int), done@, rel),
            seen_view(seen@) == seen_through(all.take(j as int), seen_root, tdb),
            view_entries(job.views) == Seq::<(u64, ViewCompilationUnit)>::empty(),
            same_but_views(*job, mid),
            job.root == mid.root,
        decreases n - j,
    {
        let ghost before = units@;
        let (k, mut u) = units.remove(0);
        let ghost u0 = u;
        proof {
            assert(before[0] == all[j as int]);
        }
        deduplicate_text_bindings_for_unit(&mut u.update, &mut seen, tdb);
        proof {
            assert(rel(j as int, u0, u));
            lemma_units_related_push(all, done@, rel, j as int, k, u);
            assert(units@ =~= all.skip(j + 1));
            assert(all.take(j + 1).drop_last() =~= all.take(j as int));
            assert(all.take(j + 1).last() == all[j as int]);
        }
        done.push((k, u));
        j += 1;
    }
    proof {
        assert(all.take(n as int) =~= all);
        lemma_units_related_keys(all, done@, rel);
    }
    restore_view_units(job, done);
}

/// Outside the compatibility mode no operation is dropped.
pub proof fn lemma_dedup_keeps_all_outside_compatibility(ops: Seq<SUpdateOp>, seen: Set<(u64, Seq<char>)>)
    ensures
        spec_dedup(ops, seen, false).0 == ops,
    decreases ops.len(),
{
    if ops.len() > 0 {
        match text_attr_key(ops.last()) {
            Some(k) => lemma_dedup_keeps_all_outside_compatibility(ops.drop_last(), seen.insert(k)),
            None => lemma_dedup_keeps_all_outside_compatibility(ops.drop_last(), seen),
        }
        assert(ops.drop_last().push(ops.last()) =~= ops);
    }
}

/// Only text attribute bindings named `style` or `class` are ever dropped: every other
/// operation stays, and what stays keeps its order.
pub proof fn lemma_dedup_drops_only_style_and_class(ops: Seq<SUpdateOp>, seen: Set<(u64, Seq<char>)>, tdb: bool)
    ensures
        spec_dedup(ops, seen, tdb).0.filter(|o: SUpdateOp| !droppable(o)) == ops.filter(|o: SUpdateOp| !droppable(o)),
    decreases ops.len(),
{
    if ops.len() > 0 {
        let last = ops.last();
        let next_seen = match text_attr_key(last) {
            Some(k) => seen.insert(k),
            None => seen,
        };
        lemma_dedup_drops_only_style_and_class(ops.drop_last(), next_seen, tdb);
        let rest = spec_dedup(ops.drop_last(), next_seen, tdb).0;
        assert(ops.drop_last().push(last) =~= ops);
        ops.drop_last().lemma_filter_push(last, |o: SUpdateOp| !droppable(o));
        rest.lemma_filter_push(last, |o: SUpdateOp| !droppable(o));
    }
}

/// Whether an operation is a text attribute binding named `style` or `class`.
pub open spec fn droppable(op: SUpdateOp) -> bool {
    match text_attr_key(op) {
        Some(k) => keeps_last_only(k.1),
        None => false,
    }
}

} // verus!
