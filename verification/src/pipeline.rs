//! The sequence of phases through which a host binding job runs.

use vstd::prelude::*;
use crate::ir::{SUpdateOp, create_ops_view, update_ops_view, update_op_view, opt_expr_view, lemma_update_ops_view_len, lemma_update_ops_view_index};
use crate::compilation::{CompilationJobKind, HostBindingCompilationJob};
use crate::phases::host_style_property_parsing::{parse_host_style_properties, spec_parse_host_style_op};
use crate::phases::binding_specialization::{specializable, specialize_bindings, spec_specialize_ops};
use crate::phases::attribute_extraction::{extract_attributes, spec_extract_unit, same_but_lists};
use crate::phases::const_collection::{all_target, collect_element_consts, collected_attributes, spec_collect};
use crate::phases::chaining::{chain, spec_chain_create, spec_chain_update};
use crate::phases::any_cast::{create_op_ok, delete_any_casts, spec_strip_create_op, spec_strip_update_op, update_op_ok};
use crate::ir::{SCreateOp, create_op_view, lemma_create_ops_view_index, lemma_create_ops_view_len};

verus! {

/// The update list after host style parsing.
pub open spec fn spec_parse_host_styles(ops: Seq<SUpdateOp>) -> Seq<SUpdateOp> {
    ops.map_values(|o: SUpdateOp| spec_parse_host_style_op(o))
}

/// The creation and update lists of a host unit after style parsing, specialization and
/// attribute extraction.
#[verifier::opaque]
pub open spec fn spec_host_extracted(job: HostBindingCompilationJob) -> (Seq<crate::ir::SCreateOp>, Seq<SUpdateOp>) {
    spec_extract_unit(
        create_ops_view(job.root.create@),
        spec_specialize_ops(
            spec_parse_host_styles(update_ops_view(job.root.update@)),
            job.mode,
            CompilationJobKind::Host,
        ),
        job.compatibility,
        job.root.xref,
    )
}

/// The creation and update lists of a host unit after extraction and the deletion of `$any`
/// calls.
#[verifier::opaque]
pub open spec fn spec_host_stripped(job: HostBindingCompilationJob) -> (Seq<SCreateOp>, Seq<SUpdateOp>) {
    let x = spec_host_extracted(job);
    (x.0.map_values(|o: SCreateOp| spec_strip_create_op(o)), x.1.map_values(|o: SUpdateOp| spec_strip_update_op(o)))
}

/// What the host pipeline accepts: every binding can be specialized after style parsing, every
/// `$any` call has one argument, and the extracted attributes target the root and can be
/// collected.
#[verifier::opaque]
pub open spec fn host_runnable(job: HostBindingCompilationJob) -> bool {
    let parsed = spec_parse_host_styles(update_ops_view(job.root.update@));
    let x = spec_host_extracted(job);
    &&& forall|i: int| 0 <= i < parsed.len() ==> specializable(#[trigger] parsed[i])
    &&& forall|i: int| 0 <= i < x.0.len() ==> create_op_ok(#[trigger] x.0[i])
    &&& forall|i: int| 0 <= i < x.1.len() ==> update_op_ok(#[trigger] x.1[i])
    &&& all_target(spec_host_stripped(job).0, job.root.xref)
    &&& spec_collect(spec_host_stripped(job).0, job.compatibility) is Some
}

/// The deletion of `$any` calls, over the values of the operation lists.
fn strip_job(job: &mut HostBindingCompilationJob)
    requires
        forall|i: int| 0 <= i < create_ops_view(old(job).root.create@).len() ==> create_op_ok(
            #[trigger] create_ops_view(old(job).root.create@)[i],
        ),
        forall|i: int| 0 <= i < update_ops_view(old(job).root.update@).len() ==> update_op_ok(
            #[trigger] update_ops_view(old(job).root.update@)[i],
        ),
    ensures
        same_but_lists(*final(job), *old(job)),
        final(job).root.attributes == old(job).root.attributes,
        update_ops_view(final(job).root.update@) == update_ops_view(old(job).root.update@).map_values(
            |o: SUpdateOp| spec_strip_update_op(o),
        ),
        create_ops_view(final(job).root.create@) == create_ops_view(old(job).root.create@).map_values(
            |o: SCreateOp| spec_strip_create_op(o),
        ),
{
    proof {
        lemma_update_ops_view_len(job.root.update@);
        lemma_create_ops_view_len(job.root.create@);
        assert forall|i: int| 0 <= i < job.root.update@.len() implies update_op_ok(#[trigger] update_op_view(job.root.update@[i])) by {
            lemma_update_ops_view_index(job.root.update@, i);
        }
        assert forall|i: int| 0 <= i < job.root.create@.len() implies create_op_ok(#[trigger] create_op_view(job.root.create@[i])) by {
            lemma_create_ops_view_index(job.root.create@, i);
        }
    }
    delete_any_casts(job);
}

/// Style parsing, then binding specialization.
fn parse_and_specialize(job: &mut HostBindingCompilationJob)
    requires
        forall|i: int| 0 <= i < spec_parse_host_styles(update_ops_view(old(job).root.update@)).len() ==> specializable(
            #[trigger] spec_parse_host_styles(update_ops_view(old(job).root.update@))[i],
        ),
    ensures
        crate::ingest::same_but_update(*final(job), *old(job)),
        update_ops_view(final(job).root.update@) == spec_specialize_ops(
            spec_parse_host_styles(update_ops_view(old(job).root.update@)),
            old(job).mode,
            CompilationJobKind::Host,
        ),
{
    let ghost j0 = *job;
    parse_host_style_properties(job);
    proof {
        let parsed = spec_parse_host_styles(update_ops_view(j0.root.update@));
        lemma_update_ops_view_len(j0.root.update@);
        lemma_update_ops_view_len(job.root.update@);
        assert forall|i: int| 0 <= i < parsed.len() implies #[trigger] update_ops_view(job.root.update@)[i] == parsed[i] by {
            lemma_update_ops_view_index(j0.root.update@, i);
            lemma_update_ops_view_index(job.root.update@, i);
        }
        assert(update_ops_view(job.root.update@) =~= parsed);
        assert forall|i: int| 0 <= i < job.root.update@.len() implies specializable(#[trigger] update_op_view(job.root.update@[i])) by {
            lemma_update_ops_view_index(job.root.update@, i);
            assert(specializable(parsed[i]));
        }
    }
    specialize_bindings(job);
}

/// The two jobs agree on everything but the root unit's operation lists and attributes.
pub open spec fn same_but_output(a: HostBindingCompilationJob, b: HostBindingCompilationJob) -> bool {
    &&& a.component_name == b.component_name
    &&& a.pool == b.pool
    &&& a.compatibility == b.compatibility
    &&& a.mode == b.mode
    &&& a.root.xref == b.root.xref
    &&& a.root.fn_name == b.root.fn_name
    &&& a.root.vars == b.root.vars
}

/// Constant collection, then chaining.
fn collect_and_chain(job: &mut HostBindingCompilationJob)
    requires
        all_target(create_ops_view(old(job).root.create@), old(job).root.xref),
        spec_collect(create_ops_view(old(job).root.create@), old(job).compatibility) is Some,
    ensures
        same_but_output(*final(job), *old(job)),
        ({
            let c = spec_collect(create_ops_view(old(job).root.create@), old(job).compatibility).unwrap();
            &&& create_ops_view(final(job).root.create@) == spec_chain_create(c.1)
            &&& update_ops_view(final(job).root.update@) == spec_chain_update(update_ops_view(old(job).root.update@))
            &&& opt_expr_view(final(job).root.attributes) == collected_attributes(c.0, opt_expr_view(old(job).root.attributes))
        }),
{
    collect_element_consts(job);
    chain(job);
}

/// Run a host binding job through style parsing, binding specialization, attribute
/// extraction, the deletion of `$any` calls, constant collection and chaining.
pub fn run_host(job: &mut HostBindingCompilationJob)
    requires
        host_runnable(*old(job)),
    ensures
        same_but_output(*final(job), *old(job)),
        ({
            let x = spec_host_stripped(*old(job));
            let c = spec_collect(x.0, old(job).compatibility).unwrap();
            &&& create_ops_view(final(job).root.create@) == spec_chain_create(c.1)
            &&& update_ops_view(final(job).root.update@) == spec_chain_update(x.1)
            &&& opt_expr_view(final(job).root.attributes) == collected_attributes(c.0, opt_expr_view(old(job).root.attributes))
        }),
{
    let ghost j0 = *job;
    let ghost parsed = spec_parse_host_styles(update_ops_view(j0.root.update@));
    let ghost x = spec_host_extracted(j0);
    let ghost y = spec_host_stripped(j0);
    assert(forall|i: int| 0 <= i < parsed.len() ==> specializable(#[trigger] parsed[i])) by {
        reveal(host_runnable);
    }
    assert(forall|i: int| 0 <= i < x.0.len() ==> create_op_ok(#[trigger] x.0[i])) by {
        reveal(host_runnable);
    }
    assert(forall|i: int| 0 <= i < x.1.len() ==> update_op_ok(#[trigger] x.1[i])) by {
        reveal(host_runnable);
    }
    assert(all_target(y.0, j0.root.xref) && spec_collect(y.0, j0.compatibility) is Some) by {
        reveal(host_runnable);
    }
    parse_and_specialize(job);
    extract_attributes(job);
    let ghost j3 = *job;
    assert(create_ops_view(j3.root.create@) == x.0 && update_ops_view(j3.root.update@) == x.1) by {
        reveal(spec_host_extracted);
    }
    strip_job(job);
    let ghost j4 = *job;
    assert(create_ops_view(j4.root.create@) == y.0 && update_ops_view(j4.root.update@) == y.1) by {
        reveal(spec_host_stripped);
    }
    collect_and_chain(job);
}

} // verus!
