//! Ingestion of host bindings into a host binding compilation job.

use vstd::prelude::*;
use vstd::string::*;
use crate::text::{str_eq, starts_with, seq_starts_with, seq_ends_with, ends_with};
use crate::parse_util::{ParseSourceSpan, ParseSourceFile, ParseLocation, SpecSpan, SpecLocation, SpecFile, opt_span_view, opt_string_view};
use crate::output::{Expression, Statement, SExpr, SStmt, XrefId, expr_view, exprs_view, clone_expr};
use crate::expression_ast::{Ast, ParsedProperty, ParsedPropertyType, ParsedEvent, ParsedEventType};
use crate::ir::{
    BindingKind, BindingExpression, BindingOp, CompatibilityMode, CreateOp, Interpolation,
    ListenerOp, AnimationListenerOp, AnimationKind, SecurityContext, UpdateOp, SUpdateOp, SCreateOp,
    SBinding, SBindingExpr, SInterpolation, SListener, SAnimationListener, strings_view,
    update_ops_view, create_ops_view, update_op_view, create_op_view, lemma_update_ops_view_push,
    lemma_create_ops_view_push,
};
use crate::compilation::{
    CompilationJob, ConstantPool, HostBindingCompilationJob, TemplateCompilationMode,
};
use crate::conversion::{
    convert_ast, convert_all, convertible, convertible_list, pipe_count, spec_convert,
    spec_convert_list, base_span_ok, opt_span_ref_view, lemma_convert_keeps_host_job,
    lemma_convert_list_keeps_host_job,
};
use crate::schema::{security_context, spec_security_context};
use crate::i18n::{I18nMeta, I18nNode};

verus! {

/// Whether i18n metadata is a whole message.
pub fn is_i18n_root_node(meta: Option<&I18nMeta>) -> (r: bool)
    ensures
        r == (meta matches Some(I18nMeta::Message(_))),
{
    match meta {
        Some(I18nMeta::Message(_)) => true,
        _ => false,
    }
}

/// Whether i18n metadata is a message made of exactly one ICU.
pub fn is_single_i18n_icu(meta: Option<&I18nMeta>) -> (r: bool)
    ensures
        r == (meta matches Some(I18nMeta::Message(m)) && m.nodes@.len() == 1
            && m.nodes@[0] is Icu),
{
    match meta {
        Some(I18nMeta::Message(msg)) => msg.nodes.len() == 1 && match &msg.nodes[0] {
            I18nNode::Icu { .. } => true,
            _ => false,
        },
        _ => false,
    }
}

/// Whether a template expression reads `$event` from the implicit receiver.
pub open spec fn mentions_dollar_event(ast: Ast) -> bool
    decreases ast,
{
    match ast {
        Ast::LiteralPrimitive(_) => false,
        Ast::Binary { left, right, .. } => mentions_dollar_event(*left) || mentions_dollar_event(*right),
        Ast::Unary { expr, .. } => mentions_dollar_event(*expr),
        Ast::Conditional { condition, true_exp, false_exp, .. } => mentions_dollar_event(*condition)
            || mentions_dollar_event(*true_exp) || mentions_dollar_event(*false_exp),
        Ast::Call { receiver, args, .. } => mentions_dollar_event(*receiver) || any_mentions_dollar_event(args@),
        Ast::PropertyRead { receiver, name, .. } => (*receiver is ImplicitReceiver && name@ == "$event"@)
            || mentions_dollar_event(*receiver),
        Ast::KeyedRead { receiver, key, .. } => mentions_dollar_event(*receiver) || mentions_dollar_event(*key),
        Ast::LiteralArray { expressions, .. } => any_mentions_dollar_event(expressions@),
        Ast::LiteralMap { values, .. } => any_mentions_dollar_event(values@),
        Ast::PrefixNot { expression, .. } => mentions_dollar_event(*expression),
        Ast::TypeofExpression { expression, .. } => mentions_dollar_event(*expression),
        Ast::VoidExpression { expression, .. } => mentions_dollar_event(*expression),
        Ast::NonNullAssert { expression, .. } => mentions_dollar_event(*expression),
        Ast::SafePropertyRead { receiver, .. } => mentions_dollar_event(*receiver),
        Ast::SafeKeyedRead { receiver, key, .. } => mentions_dollar_event(*receiver) || mentions_dollar_event(*key),
        Ast::SafeCall { receiver, args, .. } => mentions_dollar_event(*receiver) || any_mentions_dollar_event(args@),
        Ast::Chain { expressions, .. } => any_mentions_dollar_event(expressions@),
        Ast::BindingPipe { exp, args, .. } => mentions_dollar_event(*exp) || any_mentions_dollar_event(args@),
        Ast::TemplateLiteral { expressions, .. } => any_mentions_dollar_event(expressions@),
        Ast::TaggedTemplateLiteral { tag, expressions, .. } => mentions_dollar_event(*tag)
            || any_mentions_dollar_event(expressions@),
        Ast::ParenthesizedExpression { expression, .. } => mentions_dollar_event(*expression),
        Ast::Interpolation { expressions, .. } => any_mentions_dollar_event(expressions@),
        _ => false,
    }
}

pub open spec fn any_mentions_dollar_event(s: Seq<Ast>) -> bool
    decreases s,
{
    if s.len() == 0 {
        false
    } else {
        any_mentions_dollar_event(s.drop_last()) || mentions_dollar_event(s.last())
    }
}

fn any_uses_dollar_event(v: &Vec<Ast>) -> (r: bool)
    ensures
        r == any_mentions_dollar_event(v@),
    decreases v, 0nat,
{
    let mut i: usize = 0;
    while i < v.len()
        invariant
            i <= v@.len(),
            !any_mentions_dollar_event(v@.take(i as int)),
        decreases v.len() - i,
    {
        proof {
            assert(v@.take(i + 1).drop_last() =~= v@.take(i as int));
        }
        if uses_dollar_event(&v[i]) {
            proof {
                lemma_any_mentions_prefix(v@, i + 1);
            }
            return true;
        }
        i += 1;
    }
    assert(v@.take(v@.len() as int) =~= v@);
    false
}

proof fn lemma_any_mentions_prefix(s: Seq<Ast>, n: int)
    requires
        0 <= n <= s.len(),
        any_mentions_dollar_event(s.take(n)),
    ensures
        any_mentions_dollar_event(s),
    decreases s.len() - n,
{
    if n < s.len() {
        assert(s.take(n + 1).drop_last() =~= s.take(n));
        lemma_any_mentions_prefix(s, n + 1);
    } else {
        assert(s.take(n) =~= s);
    }
}

/// Whether a handler reads `$event`.
pub fn uses_dollar_event(ast: &Ast) -> (r: bool)
    ensures
        r == mentions_dollar_event(*ast),
    decreases ast, 0nat,
{
    match ast {
        Ast::LiteralPrimitive(_) => false,
        Ast::Binary { left, right, .. } => uses_dollar_event(left) || uses_dollar_event(right),
        Ast::Unary { expr, .. } => uses_dollar_event(expr),
        Ast::Conditional { condition, true_exp, false_exp, .. } => uses_dollar_event(condition)
            || uses_dollar_event(true_exp) || uses_dollar_event(false_exp),
        Ast::Call { receiver, args, .. } => uses_dollar_event(receiver) || any_uses_dollar_event(args),
        Ast::PropertyRead { receiver, name, .. } => {
            let implicit = match &**receiver {
                Ast::ImplicitReceiver { .. } => true,
                _ => false,
            };
            (implicit && str_eq(name.as_str(), "$event")) || uses_dollar_event(receiver)
        },
        Ast::KeyedRead { receiver, key, .. } => uses_dollar_event(receiver) || uses_dollar_event(key),
        Ast::LiteralArray { expressions, .. } => any_uses_dollar_event(expressions),
        Ast::LiteralMap { values, .. } => any_uses_dollar_event(values),
        Ast::PrefixNot { expression, .. } => uses_dollar_event(expression),
        Ast::TypeofExpression { expression, .. } => uses_dollar_event(expression),
        Ast::VoidExpression { expression, .. } => uses_dollar_event(expression),
        Ast::NonNullAssert { expression, .. } => uses_dollar_event(expression),
        Ast::SafePropertyRead { receiver, .. } => uses_dollar_event(receiver),
        Ast::SafeKeyedRead { receiver, key, .. } => uses_dollar_event(receiver) || uses_dollar_event(key),
        Ast::SafeCall { receiver, args, .. } => uses_dollar_event(receiver) || any_uses_dollar_event(args),
        Ast::Chain { expressions, .. } => any_uses_dollar_event(expressions),
        Ast::BindingPipe { exp, args, .. } => uses_dollar_event(exp) || any_uses_dollar_event(args),
        Ast::TemplateLiteral { expressions, .. } => any_uses_dollar_event(expressions),
        Ast::TaggedTemplateLiteral { tag, expressions, .. } => uses_dollar_event(tag)
            || any_uses_dollar_event(expressions),
        Ast::ParenthesizedExpression { expression, .. } => uses_dollar_event(expression),
        Ast::Interpolation { expressions, .. } => any_uses_dollar_event(expressions),
        _ => false,
    }
}

} // verus!

verus! {

/// Whether a bound expression can be ingested: an interpolation of convertible expressions, or
/// a convertible expression.
pub open spec fn ingestible(ast: Ast) -> bool {
    match ast {
        Ast::Interpolation { expressions, .. } => convertible_list(expressions@),
        _ => convertible(ast),
    }
}

/// The binding expression of a bound expression: interpolations keep their strings and convert
/// their expressions, anything else is converted.
pub open spec fn spec_binding_expression_of(ast: Ast, job: HostBindingCompilationJob, base: Option<SpecSpan>) -> SBindingExpr {
    match ast {
        Ast::Interpolation { strings, expressions, .. } => SBindingExpr::Interpolation(
            SInterpolation {
                strings: strings_view(strings@),
                expressions: spec_convert_list(expressions@, job, base).0,
                i18n_placeholders: Seq::empty(),
            },
        ),
        _ => SBindingExpr::Expression(spec_convert(ast, job, base).0),
    }
}

/// The binding operation of a host property.
pub open spec fn spec_dom_property_op(
    job: HostBindingCompilationJob,
    property: ParsedProperty,
    binding_kind: BindingKind,
    security_contexts: Seq<SecurityContext>,
) -> SUpdateOp {
    SUpdateOp::Binding(
        SBinding {
            target: job.root.xref,
            binding_kind,
            name: property.name@,
            expression: spec_binding_expression_of(
                property.expression.ast,
                job,
                Some(property.source_span@),
            ),
            unit: None,
            security_context: security_contexts,
            is_text_attribute: false,
            is_structural_template_attribute: false,
            template_kind: None,
            i18n_context: None,
            i18n_message: None,
            source_span: Some(property.source_span@),
        },
    )
}

/// The two jobs agree on everything but the root unit's update operations.
pub open spec fn same_but_update(a: HostBindingCompilationJob, b: HostBindingCompilationJob) -> bool {
    &&& a.component_name == b.component_name
    &&& a.pool == b.pool
    &&& a.compatibility == b.compatibility
    &&& a.mode == b.mode
    &&& a.root.xref == b.root.xref
    &&& a.root.attributes == b.root.attributes
    &&& a.root.fn_name == b.root.fn_name
    &&& a.root.vars == b.root.vars
    &&& a.root.create == b.root.create
}

/// The two jobs agree on everything but the root unit's creation operations.
pub open spec fn same_but_create(a: HostBindingCompilationJob, b: HostBindingCompilationJob) -> bool {
    &&& a.component_name == b.component_name
    &&& a.pool == b.pool
    &&& a.compatibility == b.compatibility
    &&& a.mode == b.mode
    &&& a.root.xref == b.root.xref
    &&& a.root.attributes == b.root.attributes
    &&& a.root.fn_name == b.root.fn_name
    &&& a.root.vars == b.root.vars
    &&& a.root.update == b.root.update
}

fn ingest_binding_expression(
    job: &mut HostBindingCompilationJob,
    ast: &Ast,
    base: &ParseSourceSpan,
) -> (r: BindingExpression)
    requires
        ingestible(*ast),
        base_span_ok(Some(base@)),
    ensures
        *final(job) == *old(job),
        crate::ir::binding_expr_view(r) == spec_binding_expression_of(*ast, *old(job), Some(base@)),
{
    match ast {
        Ast::Interpolation { strings, expressions, .. } => {
            let mut strs: Vec<String> = Vec::new();
            let mut i: usize = 0;
            while i < strings.len()
                invariant
                    i <= strings@.len(),
                    strs@.len() == i,
                    forall|j: int| 0 <= j < i ==> #[trigger] strs@[j]@ == strings@[j]@,
                decreases strings.len() - i,
            {
                strs.push(strings[i].clone());
                i += 1;
            }
            proof {
                assert(strings_view(strs@) =~= strings_view(strings@));
                lemma_convert_list_keeps_host_job(expressions@, *job, Some(base@));
            }
            let exprs = convert_all(expressions, job, Some(base));
            let placeholders: Vec<String> = Vec::new();
            assert(strings_view(placeholders@) =~= Seq::<Seq<char>>::empty());
            BindingExpression::Interpolation(
                Interpolation { strings: strs, expressions: exprs, i18n_placeholders: placeholders },
            )
        },
        _ => {
            proof {
                lemma_convert_keeps_host_job(*ast, *job, Some(base@));
            }
            BindingExpression::Expression(convert_ast(ast, job, Some(base)))
        },
    }
}

/// Ingest a DOM property binding of a host into the root unit's update operations.
pub fn ingest_dom_property(
    job: &mut HostBindingCompilationJob,
    property: ParsedProperty,
    binding_kind: BindingKind,
    security_contexts: Vec<SecurityContext>,
)
    requires
        ingestible(property.expression.ast),
        crate::conversion::location_ok(property.source_span@.start),
    ensures
        same_but_update(*final(job), *old(job)),
        update_ops_view(final(job).root.update@) == update_ops_view(old(job).root.update@).push(
            spec_dom_property_op(*old(job), property, binding_kind, security_contexts@),
        ),
{
    let root_xref = job.root.xref;
    let expression = ingest_binding_expression(job, &property.expression.ast, &property.source_span);
    let op = UpdateOp::Binding(
        BindingOp {
            target: root_xref,
            binding_kind,
            name: property.name,
            expression,
            unit: None,
            security_context: security_contexts,
            is_text_attribute: false,
            is_structural_template_attribute: false,
            template_kind: None,
            i18n_context: None,
            i18n_message: None,
            source_span: Some(property.source_span),
        },
    );
    let ghost before = job.root.update@;
    job.root.update.push(op);
    proof {
        lemma_update_ops_view_push(before, op);
    }
}

/// The source span of an expression, for the kinds of expression that have one.
pub open spec fn spec_expr_source_span(e: SExpr) -> Option<SpecSpan> {
    match e {
        SExpr::Literal { source_span, .. } => source_span,
        SExpr::LiteralArray { source_span, .. } => source_span,
        SExpr::LiteralMap { source_span, .. } => source_span,
        SExpr::ReadVar { source_span, .. } => source_span,
        SExpr::ReadProp { source_span, .. } => source_span,
        SExpr::ReadKey { source_span, .. } => source_span,
        SExpr::BinaryOp { source_span, .. } => source_span,
        SExpr::Unary { source_span, .. } => source_span,
        SExpr::Conditional { source_span, .. } => source_span,
        SExpr::InvokeFn { source_span, .. } => source_span,
        SExpr::NotExpr { source_span, .. } => source_span,
        SExpr::Void { source_span, .. } => source_span,
        SExpr::External { source_span, .. } => source_span,
        SExpr::TaggedTemplate { source_span, .. } => source_span,
        SExpr::LexicalRead { source_span, .. } => source_span,
        SExpr::Empty { source_span } => source_span,
        SExpr::SafeKeyedRead { source_span, .. } => source_span,
        _ => None,
    }
}

/// The source span of an expression, if it has one.
pub fn expr_source_span(e: &Expression) -> (r: Option<ParseSourceSpan>)
    ensures
        opt_span_view(r) == spec_expr_source_span(e@),
{
    let s = match e {
        Expression::Literal(l) => &l.source_span,
        Expression::LiteralArray(a) => &a.source_span,
        Expression::LiteralMap { source_span, .. } => source_span,
        Expression::ReadVar { source_span, .. } => source_span,
        Expression::ReadProp { source_span, .. } => source_span,
        Expression::ReadKey { source_span, .. } => source_span,
        Expression::BinaryOp { source_span, .. } => source_span,
        Expression::Unary { source_span, .. } => source_span,
        Expression::Conditional { source_span, .. } => source_span,
        Expression::InvokeFn { source_span, .. } => source_span,
        Expression::NotExpr { source_span, .. } => source_span,
        Expression::Void { source_span, .. } => source_span,
        Expression::External { source_span, .. } => source_span,
        Expression::TaggedTemplate { source_span, .. } => source_span,
        Expression::LexicalRead { source_span, .. } => source_span,
        Expression::Empty { source_span } => source_span,
        Expression::SafeKeyedRead { source_span, .. } => source_span,
        _ => return None,
    };
    crate::parse_util::clone_opt_span(s)
}

/// The span of an empty, unnamed file at offset 0.
pub open spec fn spec_empty_span() -> SpecSpan {
    let loc = SpecLocation {
        file: SpecFile { content: Seq::empty(), url: Seq::empty() },
        offset: 0,
        line: 0,
        col: 0,
    };
    SpecSpan { start: loc, end: loc, details: None }
}

/// A span of an empty, unnamed file at offset 0.
pub fn create_empty_parse_source_span() -> (r: ParseSourceSpan)
    ensures
        r@ == spec_empty_span(),
{
    let file = ParseSourceFile::new(String::new(), String::new());
    let start = ParseLocation::new(file.clone_file(), 0, 0, 0);
    let end = ParseLocation::new(file, 0, 0, 0);
    ParseSourceSpan::new(start, end)
}

/// The binding operation of a static host attribute: a text attribute, always extracted into
/// the host's constant attributes.
pub open spec fn spec_host_attribute_op(
    job: HostBindingCompilationJob,
    name: Seq<char>,
    value: SExpr,
    security_contexts: Seq<SecurityContext>,
) -> SUpdateOp {
    SUpdateOp::Binding(
        SBinding {
            target: job.root.xref,
            binding_kind: BindingKind::Attribute,
            name,
            expression: SBindingExpr::Expression(value),
            unit: None,
            security_context: security_contexts,
            is_text_attribute: true,
            is_structural_template_attribute: false,
            template_kind: None,
            i18n_context: None,
            i18n_message: None,
            source_span: Some(
                match spec_expr_source_span(value) {
                    Some(s) => s,
                    None => spec_empty_span(),
                },
            ),
        },
    )
}

/// Ingest a static host attribute into the root unit's update operations.
pub fn ingest_host_attribute(
    job: &mut HostBindingCompilationJob,
    name: String,
    value: Expression,
    security_contexts: Vec<SecurityContext>,
)
    ensures
        same_but_update(*final(job), *old(job)),
        update_ops_view(final(job).root.update@) == update_ops_view(old(job).root.update@).push(
            spec_host_attribute_op(*old(job), name@, value@, security_contexts@),
        ),
{
    let span = match expr_source_span(&value) {
        Some(s) => s,
        None => create_empty_parse_source_span(),
    };
    let op = UpdateOp::Binding(
        BindingOp {
            target: job.root.xref,
            binding_kind: BindingKind::Attribute,
            name,
            expression: BindingExpression::Expression(value),
            unit: None,
            security_context: security_contexts,
            is_text_attribute: true,
            is_structural_template_attribute: false,
            template_kind: None,
            i18n_context: None,
            i18n_message: None,
            source_span: Some(span),
        },
    );
    let ghost before = job.root.update@;
    job.root.update.push(op);
    proof {
        lemma_update_ops_view_push(before, op);
    }
}

/// The handler operations of a listener: a single statement returning the handler expression.
pub open spec fn spec_handler_ops(job: HostBindingCompilationJob, handler: Ast, span: SpecSpan) -> Seq<SUpdateOp> {
    seq![SUpdateOp::Statement(SStmt::Return { value: spec_convert(handler, job, Some(span)).0 })]
}

/// Convert an event handler into the operations of its listener.
fn make_listener_handler_ops(
    job: &mut HostBindingCompilationJob,
    handler: &Ast,
    handler_span: &ParseSourceSpan,
) -> (r: Vec<UpdateOp>)
    requires
        convertible(*handler),
        crate::conversion::location_ok(handler_span@.start),
    ensures
        *final(job) == *old(job),
        update_ops_view(r@) == spec_handler_ops(*old(job), *handler, handler_span@),
{
    proof {
        lemma_convert_keeps_host_job(*handler, *job, Some(handler_span@));
    }
    let handler_expr = convert_ast(handler, job, Some(handler_span));
    let stmt = Statement::Return { value: Box::new(handler_expr) };
    let mut ops: Vec<UpdateOp> = Vec::new();
    let op = UpdateOp::Statement(stmt);
    ops.push(op);
    proof {
        lemma_update_ops_view_push(Seq::empty(), op);
        assert(ops@ =~= Seq::<UpdateOp>::empty().push(op));
    }
    ops
}

/// The creation operation of a host event: an animation listener for animation events, a
/// listener otherwise (where a legacy animation event's target-or-phase is its phase, and any
/// other event's is its target).
pub open spec fn spec_host_event_op(job: HostBindingCompilationJob, event: ParsedEvent) -> SCreateOp {
    let handler_ops = spec_handler_ops(job, event.handler.ast, event.handler_span@);
    if event.type_ == ParsedEventType::Animation {
        SCreateOp::AnimationListener(
            SAnimationListener {
                target: job.root.xref,
                element: job.root.xref,
                name: event.name@,
                tag: None,
                handler_ops,
                handler_fn_name: None,
                animation_kind: if seq_ends_with(event.name@, "enter"@) {
                    AnimationKind::Enter
                } else {
                    AnimationKind::Leave
                },
                event_target: opt_string_view(event.target_or_phase),
                host_listener: true,
                source_span: Some(event.source_span@),
            },
        )
    } else {
        let legacy = event.type_ == ParsedEventType::LegacyAnimation;
        SCreateOp::Listener(
            SListener {
                target: job.root.xref,
                element: job.root.xref,
                name: event.name@,
                tag: None,
                handler_ops,
                handler_fn_name: None,
                legacy_animation_phase: if legacy { opt_string_view(event.target_or_phase) } else { None },
                event_target: if legacy { None } else { opt_string_view(event.target_or_phase) },
                host_listener: true,
                is_legacy_animation_listener: legacy,
                consumes_dollar_event: mentions_dollar_event(event.handler.ast),
                source_span: Some(event.source_span@),
            },
        )
    }
}

/// Ingest a host event binding into the root unit's creation operations.
pub fn ingest_host_event(job: &mut HostBindingCompilationJob, event: ParsedEvent)
    requires
        convertible(event.handler.ast),
        crate::conversion::location_ok(event.handler_span@.start),
    ensures
        same_but_create(*final(job), *old(job)),
        create_ops_view(final(job).root.create@) == create_ops_view(old(job).root.create@).push(
            spec_host_event_op(*old(job), event),
        ),
{
    let handler_ops = make_listener_handler_ops(job, &event.handler.ast, &event.handler_span);
    let root = job.root.xref;
    let op = if event.type_ == ParsedEventType::Animation {
        let animation_kind = if ends_with(event.name.as_str(), "enter") {
            AnimationKind::Enter
        } else {
            AnimationKind::Leave
        };
        CreateOp::AnimationListener(
            AnimationListenerOp {
                target: root,
                element: root,
                name: event.name,
                tag: None,
                handler_ops,
                handler_fn_name: None,
                animation_kind,
                event_target: event.target_or_phase,
                host_listener: true,
                source_span: Some(event.source_span),
            },
        )
    } else {
        let legacy = event.type_ == ParsedEventType::LegacyAnimation;
        let consumes_dollar_event = uses_dollar_event(&event.handler.ast);
        let (phase, target) = if legacy {
            (event.target_or_phase, None)
        } else {
            (None, event.target_or_phase)
        };
        CreateOp::Listener(
            ListenerOp {
                target: root,
                element: root,
                name: event.name,
                tag: None,
                handler_ops,
                handler_fn_name: None,
                legacy_animation_phase: phase,
                event_target: target,
                host_listener: true,
                is_legacy_animation_listener: legacy,
                consumes_dollar_event,
                source_span: Some(event.source_span),
            },
        )
    };
    let ghost before = job.root.create@;
    job.root.create.push(op);
    proof {
        lemma_create_ops_view_push(before, op);
    }
}

} // verus!

verus! {

/// The input of host binding compilation.
#[derive(Debug)]
pub struct HostBindingInput {
    pub component_name: String,
    pub component_selector: String,
    pub properties: Option<Vec<ParsedProperty>>,
    /// Static host attributes, by distinct names, in the order in which they are ingested.
    pub attributes: Vec<(String, Expression)>,
    pub events: Option<Vec<ParsedEvent>>,
}

/// The binding kind of a host property: `animate` bindings are animations, `attr.` bindings
/// are attributes, all others are properties.
pub open spec fn spec_host_property_kind(p: ParsedProperty) -> BindingKind {
    if p.property_type == ParsedPropertyType::Animation {
        BindingKind::Animation
    } else if seq_starts_with(p.name@, "attr."@) {
        BindingKind::Attribute
    } else {
        BindingKind::Property
    }
}

/// The name under which a host property's security context is looked up: without `attr.`.
pub open spec fn spec_host_property_security_name(p: ParsedProperty) -> Seq<char> {
    if seq_starts_with(p.name@, "attr."@) {
        p.name@.skip(5)
    } else {
        p.name@
    }
}

pub open spec fn spec_host_property_op(job: HostBindingCompilationJob, p: ParsedProperty, selector: Seq<char>) -> SUpdateOp {
    let name = spec_host_property_security_name(p);
    let attr = seq_starts_with(p.name@, "attr."@);
    let kind = spec_host_property_kind(p);
    spec_dom_property_op(
        job,
        p,
        kind,
        seq![spec_security_context(selector, name, kind == BindingKind::Attribute)],
    )
}

pub open spec fn spec_host_property_ops(job: HostBindingCompilationJob, props: Seq<ParsedProperty>, selector: Seq<char>) -> Seq<SUpdateOp> {
    props.map_values(|p: ParsedProperty| spec_host_property_op(job, p, selector))
}

pub open spec fn spec_host_attribute_ops(job: HostBindingCompilationJob, attrs: Seq<(String, Expression)>, selector: Seq<char>) -> Seq<SUpdateOp> {
    attrs.map_values(
        |a: (String, Expression)|
            spec_host_attribute_op(job, a.0@, a.1@, seq![spec_security_context(selector, a.0@, true)]),
    )
}

pub open spec fn spec_host_event_ops(job: HostBindingCompilationJob, events: Seq<ParsedEvent>) -> Seq<SCreateOp> {
    events.map_values(|e: ParsedEvent| spec_host_event_op(job, e))
}

pub open spec fn opt_vec_seq<T>(v: Option<Vec<T>>) -> Seq<T> {
    match v {
        Some(v) => v@,
        None => Seq::empty(),
    }
}

/// What host binding ingestion accepts: the static attributes have distinct names, every bound
/// expression can be converted, and every source location can be moved within the machine's
/// integers.
pub open spec fn host_input_ok(input: HostBindingInput) -> bool {
    &&& forall|i: int, j: int|
        0 <= i < j < input.attributes@.len() ==> (#[trigger] input.attributes@[i]).0@ != (#[trigger] input.attributes@[j]).0@
    &&& forall|i: int| 0 <= i < opt_vec_seq(input.properties).len() ==> {
        let p = #[trigger] opt_vec_seq(input.properties)[i];
        ingestible(p.expression.ast) && crate::conversion::location_ok(p.source_span@.start)
    }
    &&& forall|i: int| 0 <= i < opt_vec_seq(input.events).len() ==> {
        let e = #[trigger] opt_vec_seq(input.events)[i];
        convertible(e.handler.ast) && crate::conversion::location_ok(e.handler_span@.start)
    }
}

proof fn lemma_property_ops_independent(
    j1: HostBindingCompilationJob,
    j2: HostBindingCompilationJob,
    p: ParsedProperty,
    selector: Seq<char>,
)
    requires
        j1.root.xref == j2.root.xref,
    ensures
        spec_host_property_op(j1, p, selector) == spec_host_property_op(j2, p, selector),
{
    match p.expression.ast {
        Ast::Interpolation { expressions, .. } => {
            crate::conversion::lemma_convert_list_host_root_only(expressions@, j1, j2, Some(p.source_span@));
        },
        _ => {
            crate::conversion::lemma_convert_host_root_only(p.expression.ast, j1, j2, Some(p.source_span@));
        },
    }
}

proof fn lemma_event_ops_independent(
    j1: HostBindingCompilationJob,
    j2: HostBindingCompilationJob,
    e: ParsedEvent,
)
    requires
        j1.root.xref == j2.root.xref,
    ensures
        spec_host_event_op(j1, e) == spec_host_event_op(j2, e),
{
    crate::conversion::lemma_convert_host_root_only(e.handler.ast, j1, j2, Some(e.handler_span@));
}

/// Compile a host binding's input into a host binding compilation job: each property becomes
/// a binding update operation, each static attribute a text-attribute binding, and each event
/// a listener creation operation, all on the root unit and in input order.
pub fn ingest_host_binding(input: HostBindingInput, constant_pool: ConstantPool) -> (job: HostBindingCompilationJob)
    requires
        host_input_ok(input),
    ensures
        job.component_name@ == input.component_name@,
        job.pool == constant_pool,
        job.compatibility == CompatibilityMode::TemplateDefinitionBuilder,
        job.mode == TemplateCompilationMode::DomOnly,
        job.root.xref == (XrefId { id: 0 }),
        job.root.attributes is None,
        job.root.fn_name is None,
        job.root.vars is None,
        update_ops_view(job.root.update@) == spec_host_property_ops(
            job,
            opt_vec_seq(input.properties),
            input.component_selector@,
        ) + spec_host_attribute_ops(job, input.attributes@, input.component_selector@),
        create_ops_view(job.root.create@) == spec_host_event_ops(job, opt_vec_seq(input.events)),
{
    let HostBindingInput { component_name, component_selector, properties, attributes, events } = input;
    let ghost props0 = opt_vec_seq(properties);
    let ghost events0 = opt_vec_seq(events);
    let ghost attrs0 = attributes@;
    let mut job = HostBindingCompilationJob::new(
        component_name,
        constant_pool,
        CompatibilityMode::TemplateDefinitionBuilder,
        TemplateCompilationMode::DomOnly,
    );
    let ghost job0 = job;
    let mut props: Vec<ParsedProperty> = match properties {
        Some(p) => p,
        None => Vec::new(),
    };
    let n = props.len();
    let mut i: usize = 0;
    proof {
        crate::ir::lemma_update_ops_view_len(job.root.update@);
        assert(update_ops_view(job.root.update@) =~= spec_host_property_ops(job0, props0.take(0), component_selector@));
    }
    while i < n
        invariant
            n == props0.len(),
            i <= n,
            props@ == props0.skip(i as int),
            job0.root.xref == (XrefId { id: 0 }),
            job.root.xref == job0.root.xref,
            job.component_name == job0.component_name,
            job.pool == job0.pool,
            job.compatibility == job0.compatibility,
            job.mode == job0.mode,
            job.root.attributes == job0.root.attributes,
            job.root.fn_name == job0.root.fn_name,
            job.root.vars == job0.root.vars,
            job.root.create == job0.root.create,
            update_ops_view(job.root.update@) == spec_host_property_ops(job0, props0.take(i as int), component_selector@),
            forall|k: int| 0 <= k < props0.len() ==> {
                let p = #[trigger] props0[k];
                ingestible(p.expression.ast) && crate::conversion::location_ok(p.source_span@.start)
            },
        decreases n - i,
    {
        let property = props.remove(0);
        assert(property == props0[i as int]);
        let attr = starts_with(property.name.as_str(), "attr.");
        let mut binding_kind = BindingKind::Property;
        let mut property_name = property.name.clone();
        if attr {
            proof {
                reveal_strlit("attr.");
            }
            property_name = crate::text::suffix_from(property.name.as_str(), 5);
            binding_kind = BindingKind::Attribute;
        }
        if property.property_type == ParsedPropertyType::Animation {
            binding_kind = BindingKind::Animation;
        }
        let sec = security_context(
            component_selector.as_str(),
            property_name.as_str(),
            binding_kind == BindingKind::Attribute,
        );
        let mut security_contexts: Vec<SecurityContext> = Vec::new();
        security_contexts.push(sec);
        let ghost job_before = job;
        proof {
            reveal_strlit("attr.");
            assert(security_contexts@ =~= seq![sec]);
            lemma_property_ops_independent(job_before, job0, property, component_selector@);
        }
        ingest_dom_property(&mut job, property, binding_kind, security_contexts);
        proof {
            assert(props0.take(i + 1) =~= props0.take(i as int).push(props0[i as int]));
            assert(spec_host_property_ops(job0, props0.take(i + 1), component_selector@) =~= spec_host_property_ops(
                job0,
                props0.take(i as int),
                component_selector@,
            ).push(spec_host_property_op(job0, props0[i as int], component_selector@)));
            assert(props@ =~= props0.skip(i + 1));
        }
        i += 1;
    }
    proof {
        assert(props0.take(n as int) =~= props0);
    }
    let ghost after_props = update_ops_view(job.root.update@);
    let mut attrs = attributes;
    let m = attrs.len();
    let mut a: usize = 0;
    proof {
        assert(after_props + spec_host_attribute_ops(job0, attrs0.take(0), component_selector@) =~= after_props);
    }
    while a < m
        invariant
            m == attrs0.len(),
            a <= m,
            attrs@ == attrs0.skip(a as int),
            job.root.xref == job0.root.xref,
            job.component_name == job0.component_name,
            job.pool == job0.pool,
            job.compatibility == job0.compatibility,
            job.mode == job0.mode,
            job.root.attributes == job0.root.attributes,
            job.root.fn_name == job0.root.fn_name,
            job.root.vars == job0.root.vars,
            job.root.create == job0.root.create,
            update_ops_view(job.root.update@) == after_props + spec_host_attribute_ops(job0, attrs0.take(a as int), component_selector@),
        decreases m - a,
    {
        let (name, expr) = attrs.remove(0);
        assert((name, expr) == attrs0[a as int]);
        let sec = security_context(component_selector.as_str(), name.as_str(), true);
        let mut security_contexts: Vec<SecurityContext> = Vec::new();
        security_contexts.push(sec);
        proof {
            assert(security_contexts@ =~= seq![sec]);
        }
        ingest_host_attribute(&mut job, name, expr, security_contexts);
        proof {
            assert(attrs0.take(a + 1) =~= attrs0.take(a as int).push(attrs0[a as int]));
            assert(spec_host_attribute_ops(job0, attrs0.take(a + 1), component_selector@) =~= spec_host_attribute_ops(
                job0,
                attrs0.take(a as int),
                component_selector@,
            ).push(
                spec_host_attribute_op(
                    job0,
                    attrs0[a as int].0@,
                    attrs0[a as int].1@,
                    seq![spec_security_context(component_selector@, attrs0[a as int].0@, true)],
                ),
            ));
            assert(attrs@ =~= attrs0.skip(a + 1));
        }
        a += 1;
    }
    proof {
        assert(attrs0.take(m as int) =~= attrs0);
    }
    let mut evs: Vec<ParsedEvent> = match events {
        Some(e) => e,
        None => Vec::new(),
    };
    let q = evs.len();
    let mut e: usize = 0;
    proof {
        crate::ir::lemma_create_ops_view_len(job.root.create@);
        assert(create_ops_view(job.root.create@) =~= spec_host_event_ops(job0, events0.take(0)));
    }
    while e < q
        invariant
            q == events0.len(),
            e <= q,
            evs@ == events0.skip(e as int),
            job.root.xref == job0.root.xref,
            job.component_name == job0.component_name,
            job.pool == job0.pool,
            job.compatibility == job0.compatibility,
            job.mode == job0.mode,
            job.root.attributes == job0.root.attributes,
            job.root.fn_name == job0.root.fn_name,
            job.root.vars == job0.root.vars,
            update_ops_view(job.root.update@) == after_props + spec_host_attribute_ops(job0, attrs0, component_selector@),
            create_ops_view(job.root.create@) == spec_host_event_ops(job0, events0.take(e as int)),
            forall|k: int| 0 <= k < events0.len() ==> {
                let ev = #[trigger] events0[k];
                convertible(ev.handler.ast) && crate::conversion::location_ok(ev.handler_span@.start)
            },
        decreases q - e,
    {
        let event = evs.remove(0);
        assert(event == events0[e as int]);
        let ghost job_before = job;
        proof {
            lemma_event_ops_independent(job_before, job0, event);
        }
        ingest_host_event(&mut job, event);
        proof {
            assert(events0.take(e + 1) =~= events0.take(e as int).push(events0[e as int]));
            assert(spec_host_event_ops(job0, events0.take(e + 1)) =~= spec_host_event_ops(job0, events0.take(e as int)).push(
                spec_host_event_op(job0, events0[e as int]),
            ));
            assert(evs@ =~= events0.skip(e + 1));
        }
        e += 1;
    }
    proof {
        assert(events0.take(q as int) =~= events0);
        assert forall|k: int| 0 <= k < props0.len() implies spec_host_property_ops(job, props0, component_selector@)[k]
            == spec_host_property_ops(job0, props0, component_selector@)[k] by {
            lemma_property_ops_independent(job, job0, props0[k], component_selector@);
        }
        assert(spec_host_property_ops(job, props0, component_selector@) =~= spec_host_property_ops(job0, props0, component_selector@));
        assert(spec_host_attribute_ops(job, attrs0, component_selector@) =~= spec_host_attribute_ops(job0, attrs0, component_selector@));
        assert forall|k: int| 0 <= k < events0.len() implies spec_host_event_ops(job, events0)[k]
            == spec_host_event_ops(job0, events0)[k] by {
            lemma_event_ops_independent(job, job0, events0[k]);
        }
        assert(spec_host_event_ops(job, events0) =~= spec_host_event_ops(job0, events0));
    }
    job
}

} // verus!
