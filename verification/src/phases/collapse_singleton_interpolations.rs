//! Singleton interpolations: an attribute, style property, style map or class map binding whose
//! interpolation is one expression between two empty strings (`attr.foo="{{foo}}"`) binds the
//! plain expression instead. Property bindings keep theirs, as they must stringify the value.

use vstd::prelude::*;
use vstd::string::*;
use crate::output::{exprs_view, lemma_exprs_view_index, lemma_exprs_view_len};
use crate::component::{
    ComponentCompilationJob, ViewCompilationUnit, lemma_units_related_keys, lemma_units_related_push,
    restore_view_units, same_but_views, same_unit_but_update, take_view_units, unit_keys, units_related, view_entries,
};
use crate::ir::{
    BindingExpression, Interpolation, SAttribute, SBindingExpr, SInterpolation, SUpdateOp, UpdateOp,
    binding_expr_view, interpolation_view, update_op_view, update_ops_view, lemma_update_ops_view_index,
    lemma_update_ops_view_len, lemma_update_ops_view_ext,
};

verus! {

/// Whether an interpolation is one expression between two empty strings.
pub open spec fn is_singleton(i: SInterpolation) -> bool {
    &&& i.strings.len() == 2
    &&& i.strings[0].len() == 0
    &&& i.strings[1].len() == 0
    &&& i.expressions.len() == 1
}

/// A singleton interpolation becomes its expression; anything else stays.
pub open spec fn collapse_binding(e: SBindingExpr) -> SBindingExpr {
    match e {
        SBindingExpr::Interpolation(i) => if is_singleton(i) {
            SBindingExpr::Expression(i.expressions[0])
        } else {
            e
        },
        _ => e,
    }
}

/// The update operation with its singleton interpolation collapsed, where it is an attribute,
/// style property, style map or class map binding.
pub open spec fn spec_collapse_op(op: SUpdateOp) -> SUpdateOp {
    match op {
        SUpdateOp::Attribute(a) => SUpdateOp::Attribute(SAttribute { expression: collapse_binding(a.expression), ..a }),
        SUpdateOp::StyleProp { target, name, expression, unit, source_span } => SUpdateOp::StyleProp {
            target,
            name,
            expression: collapse_binding(expression),
            unit,
            source_span,
        },
        SUpdateOp::StyleMap { target, expression } => SUpdateOp::StyleMap { target, expression: collapse_binding(expression) },
        SUpdateOp::ClassMap { target, expression } => SUpdateOp::ClassMap { target, expression: collapse_binding(expression) },
        _ => op,
    }
}

/// Whether an update operation is of a kind whose singleton interpolations collapse, and holds
/// one.
pub open spec fn holds_collapsible(op: SUpdateOp) -> bool {
    let e = match op {
        SUpdateOp::Attribute(a) => Some(a.expression),
        SUpdateOp::StyleProp { expression, .. } => Some(expression),
        SUpdateOp::StyleMap { expression, .. } => Some(expression),
        SUpdateOp::ClassMap { expression, .. } => Some(expression),
        _ => None,
    };
    match e {
        Some(SBindingExpr::Interpolation(i)) => is_singleton(i),
        _ => false,
    }
}

fn singleton(i: &Interpolation) -> (r: bool)
    ensures
        r == is_singleton(interpolation_view(*i)),
{
    proof {
        lemma_exprs_view_len(i.expressions@);
    }
    i.strings.len() == 2 && i.strings[0].as_str().unicode_len() == 0 && i.strings[1].as_str().unicode_len() == 0
        && i.expressions.len() == 1
}

fn collapse_expression(b: BindingExpression) -> (r: BindingExpression)
    ensures
        binding_expr_view(r) == collapse_binding(binding_expr_view(b)),
{
    match b {
        BindingExpression::Interpolation(i) => {
            if singleton(&i) {
                let mut i = i;
                proof {
                    lemma_exprs_view_index(i.expressions@, 0);
                }
                let e = i.expressions.remove(0);
                BindingExpression::Expression(e)
            } else {
                BindingExpression::Interpolation(i)
            }
        },
        other => other,
    }
}

fn collapse_op(op: UpdateOp) -> (r: UpdateOp)
    ensures
        update_op_view(r) == spec_collapse_op(update_op_view(op)),
{
    match op {
        UpdateOp::Attribute(a) => {
            let mut a = a;
            let mut e = BindingExpression::Expression(crate::output::Expression::Empty { source_span: None });
            std::mem::swap(&mut e, &mut a.expression);
            a.expression = collapse_expression(e);
            UpdateOp::Attribute(a)
        },
        UpdateOp::StyleProp { target, name, expression, unit, source_span } => UpdateOp::StyleProp {
            target,
            name,
            expression: collapse_expression(expression),
            unit,
            source_span,
        },
        UpdateOp::StyleMap { target, expression } => UpdateOp::StyleMap {
            target,
            expression: collapse_expression(expression),
        },
        UpdateOp::ClassMap { target, expression } => UpdateOp::ClassMap {
            target,
            expression: collapse_expression(expression),
        },
        other => other,
    }
}

/// Collapse the singleton interpolations of one view's update list.
pub fn collapse_singletons_for_unit(update: &mut Vec<UpdateOp>)
    ensures
        update_ops_view(final(update)@) == update_ops_view(old(update)@).map_values(
            |o: SUpdateOp| spec_collapse_op(o),
        ),
{
    let mut ops: Vec<UpdateOp> = Vec::new();
    std::mem::swap(&mut ops, update);
    let ghost u0 = ops@;
    let ghost uv = update_ops_view(u0);
    proof {
        lemma_update_ops_view_len(u0);
    }
    let n = ops.len();
    let mut out: Vec<UpdateOp> = Vec::new();
    let mut j: usize = 0;
    while j < n
        invariant
            n == u0.len(),
            j <= n,
            ops@ == u0.skip(j as int),
            uv == update_ops_view(u0),
            uv.len() == n,
            out@.len() == j,
            forall|k: int| 0 <= k < j ==> update_op_view(#[trigger] out@[k]) == spec_collapse_op(uv[k]),
        decreases n - j,
    {
        let op = ops.remove(0);
        proof {
            lemma_update_ops_view_index(u0, j as int);
            assert(op == u0[j as int]);
        }
        out.push(collapse_op(op));
        proof {
            assert(ops@ =~= u0.skip(j + 1));
        }
        j += 1;
    }
    proof {
        lemma_update_ops_view_len(out@);
        assert forall|k: int| 0 <= k < n implies update_ops_view(out@)[k] == uv.map_values(
            |o: SUpdateOp| spec_collapse_op(o),
        )[k] by {
            lemma_update_ops_view_index(out@, k);
        }
        assert(update_ops_view(out@) =~= uv.map_values(|o: SUpdateOp| spec_collapse_op(o)));
    }
    *update = out;
}

/// A view after collapsing singleton interpolations: its update list collapsed, the rest as it
/// was.
pub open spec fn collapse_singletons_step(u: ViewCompilationUnit, v: ViewCompilationUnit) -> bool {
    &&& same_unit_but_update(v, u)
    &&& update_ops_view(v.update@) == update_ops_view(u.update@).map_values(|o: SUpdateOp| spec_collapse_op(o))
}

/// The relation of each embedded view after the phase to the view before it.
pub open spec fn collapse_singletons_step_rel() -> spec_fn(int, ViewCompilationUnit, ViewCompilationUnit) -> bool {
    |i: int, u: ViewCompilationUnit, v: ViewCompilationUnit| collapse_singletons_step(u, v)
}

/// Collapse the singleton interpolations of every view of a component's template: the root
/// view and each embedded view.
pub fn collapse_singleton_interpolations(job: &mut ComponentCompilationJob)
    ensures
        same_but_views(*final(job), *old(job)),
        collapse_singletons_step(old(job).root, final(job).root),
        units_related(view_entries(old(job).views), view_entries(final(job).views), collapse_singletons_step_rel()),
{
    collapse_singletons_for_unit(&mut job.root.update);
    let ghost mid = *job;
    let mut units = take_view_units(job);
    let ghost all = units@;
    let n = units.len();
    let mut done: Vec<(u64, ViewCompilationUnit)> = Vec::new();
    let mut j: usize = 0;
    proof {
        assert(all.skip(0) =~= all);
        assert(all.take(0) =~= Seq::<(u64, ViewCompilationUnit)>::empty());
    }
    while j < n
        invariant
            n == all.len(),
            j <= n,
            all == view_entries(old(job).views),
            unit_keys(all).no_duplicates(),
            units@ == all.skip(j as int),
            units_related(all.take(j as int), done@, collapse_singletons_step_rel()),
            view_entries(job.views) == Seq::<(u64, ViewCompilationUnit)>::empty(),
            same_but_views(*job, mid),
            job.root == mid.root,
        decreases n - j,
    {
        let ghost before = units@;
        let (k, mut u) = units.remove(0);
        let ghost u0 = u;
        proof {
            assert(before[0] == all[j as int]);
        }
        collapse_singletons_for_unit(&mut u.update);
        proof {
            assert(collapse_singletons_step_rel()(j as int, u0, u));
            lemma_units_related_push(all, done@, collapse_singletons_step_rel(), j as int, k, u);
            assert(units@ =~= all.skip(j + 1));
        }
        done.push((k, u));
        j += 1;
    }
    proof {
        assert(all.take(n as int) =~= all);
        lemma_units_related_keys(all, done@, collapse_singletons_step_rel());
    }
    restore_view_units(job, done);
}

/// After the collapse no attribute, style or class map binding holds a singleton
/// interpolation.
pub proof fn lemma_collapse_leaves_no_singletons(op: SUpdateOp)
    ensures
        !holds_collapsible(spec_collapse_op(op)),
{
}

/// Collapsing twice gives what collapsing once gives.
pub proof fn lemma_collapse_singletons_idempotent(op: SUpdateOp)
    ensures
        spec_collapse_op(spec_collapse_op(op)) == spec_collapse_op(op),
{
}

/// The binding expression of an attribute, style property, style map or class map operation.
pub open spec fn collapsible_binding(op: SUpdateOp) -> Option<SBindingExpr> {
    match op {
        SUpdateOp::Attribute(a) => Some(a.expression),
        SUpdateOp::StyleProp { expression, .. } => Some(expression),
        SUpdateOp::StyleMap { expression, .. } => Some(expression),
        SUpdateOp::ClassMap { expression, .. } => Some(expression),
        _ => None,
    }
}

/// An interpolation with any text around its expressions is kept whole: where some string of
/// the interpolation is not empty (`title="{{name}}!"`), the operation is left as it is.
pub proof fn lemma_collapse_keeps_text(op: SUpdateOp, i: SInterpolation, k: int)
    requires
        collapsible_binding(op) == Some(SBindingExpr::Interpolation(i)),
        0 <= k < i.strings.len(),
        i.strings[k].len() > 0,
    ensures
        spec_collapse_op(op) == op,
{
    assert(!is_singleton(i)) by {
        if is_singleton(i) {
            assert(k == 0 || k == 1);
        }
    }
}

/// An interpolation that is exactly one expression between two empty strings is replaced by
/// that expression; the operation keeps all else.
pub proof fn lemma_collapse_takes_the_expression(op: SUpdateOp, i: SInterpolation)
    requires
        collapsible_binding(op) == Some(SBindingExpr::Interpolation(i)),
        i.strings.len() == 2,
        i.strings[0].len() == 0,
        i.strings[1].len() == 0,
        i.expressions.len() == 1,
    ensures
        collapsible_binding(spec_collapse_op(op)) == Some(SBindingExpr::Expression(i.expressions[0])),
{
}

/// The collapse changes nothing but the binding expression, and only to the interpolation's one
/// expression: whatever it gives differs from the operation only where every string of the
/// interpolation is empty.
pub proof fn lemma_collapse_changes_only_empty_strings(op: SUpdateOp)
    ensures
        spec_collapse_op(op) != op ==> (collapsible_binding(op) matches Some(SBindingExpr::Interpolation(i)) && i.expressions.len()
            == 1 && forall|k: int| 0 <= k < i.strings.len() ==> (#[trigger] i.strings[k]).len() == 0),
{
}

} // verus!
