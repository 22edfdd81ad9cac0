//! Binding operations are specialized into the operations of their kind: attributes,
//! properties, classes, styles, animations and two-way properties.

use vstd::prelude::*;
use vstd::string::*;
use crate::text::{str_eq, starts_with, seq_starts_with, split_ns_name, spec_split_ns_name, join_strings, concat_all};
use crate::parse_util::opt_string_view;
use crate::output::{Expression, LiteralExpr, LiteralValue, SExpr, SLit};
use crate::ir::{
    AnimationBindingKind, AnimationKind, AttributeOp, BindingExpression, BindingKind, BindingOp,
    PropertyOp, UpdateOp, SUpdateOp, SBinding, SBindingExpr, SAttribute, SProperty, update_op_view,
    update_ops_view, binding_view, lemma_update_ops_view_push,
};
use crate::compilation::{CompilationJobKind, HostBindingCompilationJob, TemplateCompilationMode};
use crate::component::{
    ComponentCompilationJob, ViewCompilationUnit, lemma_units_related_keys, lemma_units_related_push,
    restore_view_units, same_but_views, same_unit_but_update, take_view_units, unit_keys, units_related, view_entries,
};

verus! {

/// Whether a name is an ARIA attribute: `aria-` followed by at least one character.
pub open spec fn spec_is_aria_attribute(name: Seq<char>) -> bool {
    seq_starts_with(name, "aria-"@) && name.len() > 5
}

/// Whether a name is an ARIA attribute.
pub fn is_aria_attribute(name: &str) -> (r: bool)
    ensures
        r == spec_is_aria_attribute(name@),
{
    proof {
        reveal_strlit("aria-");
    }
    starts_with(name, "aria-") && name.unicode_len() > 5
}

/// A binding can be specialized unless it is a two-way binding of an interpolation.
pub open spec fn specializable(op: SUpdateOp) -> bool {
    match op {
        SUpdateOp::Binding(b) => !(b.binding_kind == BindingKind::TwoWayProperty
            && b.expression is Interpolation),
        _ => true,
    }
}

/// What a binding becomes: `ngNonBindable` attributes, template and i18n bindings leave no
/// operation; every other binding becomes the operation of its kind.
#[verifier::opaque]
pub open spec fn spec_specialize_binding(
    b: SBinding,
    mode: TemplateCompilationMode,
    kind: CompilationJobKind,
) -> Option<SUpdateOp> {
    match b.binding_kind {
        BindingKind::Attribute => if b.name == "ngNonBindable"@ {
            None
        } else if seq_starts_with(b.name, "animate."@) {
            Some(
                SUpdateOp::AnimationBinding {
                    name: b.name,
                    target: b.target,
                    animation_kind: if b.name == "animate.enter"@ {
                        AnimationKind::Enter
                    } else {
                        AnimationKind::Leave
                    },
                    expression: b.expression,
                    security_context: b.security_context,
                    binding_kind: AnimationBindingKind::String,
                    source_span: b.source_span,
                },
            )
        } else {
            let (ns, name) = spec_split_ns_name(b.name);
            Some(
                SUpdateOp::Attribute(
                    SAttribute {
                        target: b.target,
                        namespace: ns,
                        name,
                        expression: b.expression,
                        security_context: b.security_context,
                        sanitizer: None,
                        is_text_attribute: b.is_text_attribute,
                        is_structural_template_attribute: b.is_structural_template_attribute,
                        template_kind: b.template_kind,
                        i18n_context: None,
                        i18n_message: b.i18n_message,
                        source_span: b.source_span,
                    },
                ),
            )
        },
        BindingKind::Animation => Some(
            SUpdateOp::AnimationBinding {
                name: b.name,
                target: b.target,
                animation_kind: if b.name == "animate.enter"@ {
                    AnimationKind::Enter
                } else {
                    AnimationKind::Leave
                },
                expression: b.expression,
                security_context: b.security_context,
                binding_kind: AnimationBindingKind::Value,
                source_span: b.source_span,
            },
        ),
        BindingKind::Property | BindingKind::LegacyAnimation => if mode
            == TemplateCompilationMode::DomOnly && spec_is_aria_attribute(b.name) {
            Some(
                SUpdateOp::Attribute(
                    SAttribute {
                        target: b.target,
                        namespace: None,
                        name: b.name,
                        expression: b.expression,
                        security_context: b.security_context,
                        sanitizer: None,
                        is_text_attribute: false,
                        is_structural_template_attribute: b.is_structural_template_attribute,
                        template_kind: b.template_kind,
                        i18n_context: None,
                        i18n_message: b.i18n_message,
                        source_span: b.source_span,
                    },
                ),
            )
        } else if kind != CompilationJobKind::Host && b.name == "field"@ {
            Some(
                SUpdateOp::Control {
                    target: b.target,
                    expression: b.expression,
                    security_context: b.security_context,
                },
            )
        } else {
            Some(
                SUpdateOp::Property(
                    SProperty {
                        target: b.target,
                        name: b.name,
                        expression: b.expression,
                        binding_kind: b.binding_kind,
                        security_context: b.security_context,
                        sanitizer: None,
                        is_structural_template_attribute: b.is_structural_template_attribute,
                        template_kind: b.template_kind,
                        i18n_context: b.i18n_context,
                        i18n_message: b.i18n_message,
                        source_span: b.source_span,
                    },
                ),
            )
        },
        BindingKind::TwoWayProperty => match b.expression {
            SBindingExpr::Expression(e) => Some(
                SUpdateOp::TwoWayProperty {
                    target: b.target,
                    name: b.name,
                    expression: e,
                    security_context: b.security_context,
                },
            ),
            SBindingExpr::Interpolation(_) => None,
        },
        BindingKind::Template | BindingKind::I18n => None,
        BindingKind::ClassName => Some(
            SUpdateOp::ClassProp {
                target: b.target,
                name: b.name,
                expression: match b.expression {
                    SBindingExpr::Expression(e) => e,
                    SBindingExpr::Interpolation(i) => SExpr::Literal {
                        value: SLit::String(concat_all(i.strings)),
                        source_span: None,
                    },
                },
                source_span: b.source_span,
            },
        ),
        BindingKind::StyleProperty => Some(
            SUpdateOp::StyleProp {
                target: b.target,
                name: b.name,
                expression: b.expression,
                unit: b.unit,
                source_span: b.source_span,
            },
        ),
    }
}

/// The operations that an operation becomes: a binding becomes what it specializes to,
/// any other operation stays.
pub open spec fn spec_specialize_piece(op: SUpdateOp, mode: TemplateCompilationMode, kind: CompilationJobKind) -> Seq<SUpdateOp> {
    match op {
        SUpdateOp::Binding(b) => match spec_specialize_binding(b, mode, kind) {
            Some(o) => seq![o],
            None => Seq::empty(),
        },
        _ => seq![op],
    }
}

/// Specialization of a whole operation list, in order.
pub open spec fn spec_specialize_ops(s: Seq<SUpdateOp>, mode: TemplateCompilationMode, kind: CompilationJobKind) -> Seq<SUpdateOp>
    decreases s.len(),
{
    if s.len() == 0 {
        Seq::empty()
    } else {
        spec_specialize_ops(s.drop_last(), mode, kind) + spec_specialize_piece(s.last(), mode, kind)
    }
}

/// A style property binding becomes exactly one style operation that keeps the binding's
/// target, name, expression, unit and span: `[style.width.px]="w"` is `ɵɵstyleProp('width', w,
/// 'px')`, whatever the compilation mode or job.
#[verifier::rlimit(100)]
pub proof fn lemma_style_binding_keeps_unit(
    b: SBinding,
    mode: TemplateCompilationMode,
    kind: CompilationJobKind,
)
    requires
        b.binding_kind == BindingKind::StyleProperty,
    ensures
        spec_specialize_piece(SUpdateOp::Binding(b), mode, kind) == seq![
            SUpdateOp::StyleProp {
                target: b.target,
                name: b.name,
                expression: b.expression,
                unit: b.unit,
                source_span: b.source_span,
            },
        ],
{
    assert(spec_specialize_binding(b, mode, kind) == Some(
        SUpdateOp::StyleProp {
            target: b.target,
            name: b.name,
            expression: b.expression,
            unit: b.unit,
            source_span: b.source_span,
        },
    )) by {
        reveal(spec_specialize_binding);
    }
}

/// Specializing a list that ends in a style property binding specializes the rest and appends
/// the binding's style operation, with the binding's unit.
pub proof fn lemma_style_binding_appends(
    s: Seq<SUpdateOp>,
    b: SBinding,
    mode: TemplateCompilationMode,
    kind: CompilationJobKind,
)
    requires
        b.binding_kind == BindingKind::StyleProperty,
    ensures
        spec_specialize_ops(s.push(SUpdateOp::Binding(b)), mode, kind) == spec_specialize_ops(s, mode, kind).push(
            SUpdateOp::StyleProp {
                target: b.target,
                name: b.name,
                expression: b.expression,
                unit: b.unit,
                source_span: b.source_span,
            },
        ),
{
    lemma_style_binding_keeps_unit(b, mode, kind);
    assert(s.push(SUpdateOp::Binding(b)).drop_last() =~= s);
    assert(spec_specialize_ops(s, mode, kind) + spec_specialize_piece(SUpdateOp::Binding(b), mode, kind) =~= spec_specialize_ops(
        s,
        mode,
        kind,
    ).push(
        SUpdateOp::StyleProp {
            target: b.target,
            name: b.name,
            expression: b.expression,
            unit: b.unit,
            source_span: b.source_span,
        },
    ));
}

#[verifier::rlimit(50)]
fn specialize_attribute(b: BindingOp) -> (r: Option<UpdateOp>)
    requires
        b.binding_kind == BindingKind::Attribute,
    ensures
        match r {
            Some(o) => spec_specialize_binding(binding_view(b), TemplateCompilationMode::Full, CompilationJobKind::Tmpl) == Some(update_op_view(o)),
            None => spec_specialize_binding(binding_view(b), TemplateCompilationMode::Full, CompilationJobKind::Tmpl) is None,
        },
{
    proof {
        reveal_strlit("animate.");
        reveal(spec_specialize_binding);
    }
    if str_eq(b.name.as_str(), "ngNonBindable") {
        None
    } else if starts_with(b.name.as_str(), "animate.") {
        let animation_kind = if str_eq(b.name.as_str(), "animate.enter") {
            AnimationKind::Enter
        } else {
            AnimationKind::Leave
        };
        Some(
            UpdateOp::AnimationBinding {
                name: b.name,
                target: b.target,
                animation_kind,
                expression: b.expression,
                security_context: b.security_context,
                binding_kind: AnimationBindingKind::String,
                source_span: b.source_span,
            },
        )
    } else {
        let (namespace, name) = split_ns_name(b.name.as_str());
        Some(
            UpdateOp::Attribute(
                AttributeOp {
                    target: b.target,
                    namespace,
                    name,
                    expression: b.expression,
                    security_context: b.security_context,
                    sanitizer: None,
                    is_text_attribute: b.is_text_attribute,
                    is_structural_template_attribute: b.is_structural_template_attribute,
                    template_kind: b.template_kind,
                    i18n_context: None,
                    i18n_message: b.i18n_message,
                    source_span: b.source_span,
                },
            ),
        )
    }
}

proof fn lemma_attribute_mode_free(b: SBinding, m1: TemplateCompilationMode, k1: CompilationJobKind, m2: TemplateCompilationMode, k2: CompilationJobKind)
    requires
        b.binding_kind == BindingKind::Attribute || b.binding_kind == BindingKind::Animation
            || b.binding_kind == BindingKind::TwoWayProperty || b.binding_kind == BindingKind::Template
            || b.binding_kind == BindingKind::I18n || b.binding_kind == BindingKind::ClassName
            || b.binding_kind == BindingKind::StyleProperty,
    ensures
        spec_specialize_binding(b, m1, k1) == spec_specialize_binding(b, m2, k2),
{
    reveal(spec_specialize_binding);
}

#[verifier::rlimit(50)]
fn specialize_property(b: BindingOp, mode: TemplateCompilationMode, kind: CompilationJobKind) -> (r: UpdateOp)
    requires
        b.binding_kind == BindingKind::Property || b.binding_kind == BindingKind::LegacyAnimation,
    ensures
        spec_specialize_binding(binding_view(b), mode, kind) == Some(update_op_view(r)),
{
    proof {
        reveal(spec_specialize_binding);
    }
    if mode == TemplateCompilationMode::DomOnly && is_aria_attribute(b.name.as_str()) {
        UpdateOp::Attribute(
            AttributeOp {
                target: b.target,
                namespace: None,
                name: b.name,
                expression: b.expression,
                security_context: b.security_context,
                sanitizer: None,
                is_text_attribute: false,
                is_structural_template_attribute: b.is_structural_template_attribute,
                template_kind: b.template_kind,
                i18n_context: None,
                i18n_message: b.i18n_message,
                source_span: b.source_span,
            },
        )
    } else if kind != CompilationJobKind::Host && str_eq(b.name.as_str(), "field") {
        UpdateOp::Control {
            target: b.target,
            expression: b.expression,
            security_context: b.security_context,
        }
    } else {
        UpdateOp::Property(
            PropertyOp {
                target: b.target,
                name: b.name,
                expression: b.expression,
                binding_kind: b.binding_kind,
                security_context: b.security_context,
                sanitizer: None,
                is_structural_template_attribute: b.is_structural_template_attribute,
                template_kind: b.template_kind,
                i18n_context: b.i18n_context,
                i18n_message: b.i18n_message,
                source_span: b.source_span,
            },
        )
    }
}

#[verifier::rlimit(50)]
fn specialize_other(b: BindingOp) -> (r: Option<UpdateOp>)
    requires
        b.binding_kind == BindingKind::Animation || b.binding_kind == BindingKind::TwoWayProperty
            || b.binding_kind == BindingKind::Template || b.binding_kind == BindingKind::I18n
            || b.binding_kind == BindingKind::ClassName || b.binding_kind == BindingKind::StyleProperty,
    ensures
        match r {
            Some(o) => spec_specialize_binding(binding_view(b), TemplateCompilationMode::Full, CompilationJobKind::Tmpl) == Some(update_op_view(o)),
            None => spec_specialize_binding(binding_view(b), TemplateCompilationMode::Full, CompilationJobKind::Tmpl) is None,
        },
{
    proof {
        reveal(spec_specialize_binding);
    }
    match b.binding_kind {
        BindingKind::Animation => {
            let animation_kind = if str_eq(b.name.as_str(), "animate.enter") {
                AnimationKind::Enter
            } else {
                AnimationKind::Leave
            };
            Some(
                UpdateOp::AnimationBinding {
                    name: b.name,
                    target: b.target,
                    animation_kind,
                    expression: b.expression,
                    security_context: b.security_context,
                    binding_kind: AnimationBindingKind::Value,
                    source_span: b.source_span,
                },
            )
        },
        BindingKind::TwoWayProperty => {
            match b.expression {
                BindingExpression::Expression(e) => Some(
                    UpdateOp::TwoWayProperty {
                        target: b.target,
                        name: b.name,
                        expression: e,
                        security_context: b.security_context,
                    },
                ),
                BindingExpression::Interpolation(_) => None,
            }
        },
        BindingKind::ClassName => {
            let expression = match b.expression {
                BindingExpression::Expression(e) => e,
                BindingExpression::Interpolation(i) => Expression::Literal(
                    LiteralExpr { value: LiteralValue::String(join_strings(&i.strings)), source_span: None },
                ),
            };
            Some(
                UpdateOp::ClassProp {
                    target: b.target,
                    name: b.name,
                    expression,
                    source_span: b.source_span,
                },
            )
        },
        BindingKind::StyleProperty => Some(
            UpdateOp::StyleProp {
                target: b.target,
                name: b.name,
                expression: b.expression,
                unit: b.unit,
                source_span: b.source_span,
            },
        ),
        _ => None,
    }
}

fn specialize_binding(b: BindingOp, mode: TemplateCompilationMode, kind: CompilationJobKind) -> (r: Option<UpdateOp>)
    ensures
        match r {
            Some(o) => spec_specialize_binding(binding_view(b), mode, kind) == Some(update_op_view(o)),
            None => spec_specialize_binding(binding_view(b), mode, kind) is None,
        },
{
    let ghost bv = binding_view(b);
    if b.binding_kind == BindingKind::Property || b.binding_kind == BindingKind::LegacyAnimation {
        Some(specialize_property(b, mode, kind))
    } else {
        proof {
            lemma_attribute_mode_free(bv, mode, kind, TemplateCompilationMode::Full, CompilationJobKind::Tmpl);
        }
        if b.binding_kind == BindingKind::Attribute {
            specialize_attribute(b)
        } else {
            specialize_other(b)
        }
    }
}

/// Specialize every binding of an operation list.
pub fn specialize_update_ops(ops: Vec<UpdateOp>, mode: TemplateCompilationMode, kind: CompilationJobKind) -> (r: Vec<UpdateOp>)
    requires
        forall|i: int| 0 <= i < ops@.len() ==> specializable(#[trigger] update_op_view(ops@[i])),
    ensures
        update_ops_view(r@) == spec_specialize_ops(update_ops_view(ops@), mode, kind),
{
    let ghost old_ops = ops@;
    let mut ops = ops;
    let n = ops.len();
    let mut out: Vec<UpdateOp> = Vec::new();
    let mut i: usize = 0;
    while i < n
        invariant
            n == old_ops.len(),
            i <= n,
            ops@ == old_ops.skip(i as int),
            forall|k: int| 0 <= k < old_ops.len() ==> specializable(#[trigger] update_op_view(old_ops[k])),
            update_ops_view(out@) == spec_specialize_ops(update_ops_view(old_ops.take(i as int)), mode, kind),
        decreases n - i,
    {
        let op = ops.remove(0);
        assert(op == old_ops[i as int]);
        let ghost before = out@;
        proof {
            assert(old_ops.take(i + 1) =~= old_ops.take(i as int).push(op));
            lemma_update_ops_view_push(old_ops.take(i as int), op);
            let s = update_ops_view(old_ops.take(i as int)).push(update_op_view(op));
            assert(s.drop_last() =~= update_ops_view(old_ops.take(i as int)));
        }
        match op {
            UpdateOp::Binding(b) => {
                match specialize_binding(b, mode, kind) {
                    Some(o) => {
                        out.push(o);
                        proof {
                            lemma_update_ops_view_push(before, o);
                        }
                    },
                    None => {
                        proof {
                            assert(update_ops_view(before) + Seq::<SUpdateOp>::empty() =~= update_ops_view(before));
                        }
                    },
                }
            },
            other => {
                out.push(other);
                proof {
                    lemma_update_ops_view_push(before, other);
                }
            },
        }
        proof {
            assert(ops@ =~= old_ops.skip(i + 1));
        }
        i += 1;
    }
    assert(old_ops.take(n as int) =~= old_ops);
    out
}

/// Specialize the bindings of a host binding job.
pub fn specialize_bindings(job: &mut HostBindingCompilationJob)
    requires
        forall|i: int| 0 <= i < old(job).root.update@.len() ==> specializable(#[trigger] update_op_view(old(job).root.update@[i])),
    ensures
        crate::ingest::same_but_update(*final(job), *old(job)),
        update_ops_view(final(job).root.update@) == spec_specialize_ops(
            update_ops_view(old(job).root.update@),
            old(job).mode,
            CompilationJobKind::Host,
        ),
{
    let mut ops: Vec<UpdateOp> = Vec::new();
    std::mem::swap(&mut ops, &mut job.root.update);
    let mode = job.mode;
    let out = specialize_update_ops(ops, mode, CompilationJobKind::Host);
    job.root.update = out;
}

/// Whether every update operation of a view can be specialized.
pub open spec fn unit_specializable(u: ViewCompilationUnit) -> bool {
    forall|i: int| 0 <= i < u.update@.len() ==> specializable(#[trigger] update_op_view(u.update@[i]))
}

/// A view after specialization: its update list is specialized, the rest is as it was.
pub open spec fn specialize_step(u: ViewCompilationUnit, v: ViewCompilationUnit, mode: TemplateCompilationMode) -> bool {
    &&& same_unit_but_update(v, u)
    &&& update_ops_view(v.update@) == spec_specialize_ops(update_ops_view(u.update@), mode, CompilationJobKind::Tmpl)
}

/// The relation of each embedded view after specialization to the view before it.
pub open spec fn specialize_step_rel(mode: TemplateCompilationMode) -> spec_fn(int, ViewCompilationUnit, ViewCompilationUnit) -> bool {
    |i: int, u: ViewCompilationUnit, v: ViewCompilationUnit| specialize_step(u, v, mode)
}

/// Specialize the bindings of one view of a component.
fn specialize_unit(u: &mut ViewCompilationUnit, mode: TemplateCompilationMode)
    requires
        unit_specializable(*old(u)),
    ensures
        specialize_step(*old(u), *final(u), mode),
{
    let mut ops: Vec<UpdateOp> = Vec::new();
    std::mem::swap(&mut ops, &mut u.update);
    u.update = specialize_update_ops(ops, mode, CompilationJobKind::Tmpl);
}

/// Specialize the bindings of every view of a component's template: the root view and each
/// embedded view. Every binding operation must be one that specialization knows.
pub fn specialize_bindings_in_component(job: &mut ComponentCompilationJob)
    requires
        unit_specializable(old(job).root),
        forall|i: int| 0 <= i < view_entries(old(job).views).len() ==> unit_specializable(
            #[trigger] view_entries(old(job).views)[i].1,
        ),
    ensures
        same_but_views(*final(job), *old(job)),
        specialize_step(old(job).root, final(job).root, old(job).mode),
        units_related(view_entries(old(job).views), view_entries(final(job).views), specialize_step_rel(old(job).mode)),
{
    let mode = job.mode;
    specialize_unit(&mut job.root, mode);
    let ghost mid = *job;
    let mut units = take_view_units(job);
    let ghost all = units@;
    let n = units.len();
    let mut done: Vec<(u64, ViewCompilationUnit)> = Vec::new();
    let mut j: usize = 0;
    proof {
        assert(all.skip(0) =~= all);
        assert(all.take(0) =~= Seq::<(u64, ViewCompilationUnit)>::empty());
    }
    while j < n
        invariant
            n == all.len(),
            j <= n,
            all == view_entries(old(job).views),
            mode == old(job).mode,
            forall|i: int| 0 <= i < all.len() ==> unit_specializable(#[trigger] all[i].1),
            unit_keys(all).no_duplicates(),
            units@ == all.skip(j as int),
            units_related(all.take(j as int), done@, specialize_step_rel(mode)),
            view_entries(job.views) == Seq::<(u64, ViewCompilationUnit)>::empty(),
            same_but_views(*job, mid),
            job.root == mid.root,
        decreases n - j,
    {
        let ghost before = units@;
        let (k, mut u) = units.remove(0);
        let ghost u0 = u;
        proof {
            assert(before[0] == all[j as int]);
        }
        specialize_unit(&mut u, mode);
        proof {
            assert(specialize_step_rel(mode)(j as int, u0, u));
            lemma_units_related_push(all, done@, specialize_step_rel(mode), j as int, k, u);
            assert(units@ =~= all.skip(j + 1));
        }
        done.push((k, u));
        j += 1;
    }
    proof {
        assert(all.take(n as int) =~= all);
        lemma_units_related_keys(all, done@, specialize_step_rel(mode));
    }
    restore_view_units(job, done);
}

} // verus!
