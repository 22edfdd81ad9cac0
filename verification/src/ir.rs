//! The intermediate representation: identifiers, kinds, and the creation-mode and update-mode
//! operations that a compilation unit holds.

use vstd::prelude::*;
use crate::parse_util::{ParseSourceSpan, SpecSpan, opt_span_view, opt_string_view, clone_opt_span};
use crate::output::{
    Expression, Statement, SExpr, SStmt, XrefId, expr_view, exprs_view, stmt_view, clone_expr,
    clone_exprs, clone_stmt, clone_opt_string,
};

verus! {

/// The index of a constant in a component's `consts` array.
#[derive(Debug, Clone, Copy, PartialEq, Eq, Structural)]
pub struct ConstIndex {
    pub index: usize,
}

#[derive(Debug, Clone, Copy, PartialEq, Eq, Structural)]
#[allow(inconsistent_fields)]
pub enum CompatibilityMode {
    Normal,
    TemplateDefinitionBuilder,
}

#[derive(Debug, Clone, Copy, PartialEq, Eq, Structural)]
#[allow(inconsistent_fields)]
pub enum Namespace {
    HTML,
    SVG,
    Math,
}

#[derive(Debug, Clone, Copy, PartialEq, Eq, Structural)]
#[allow(inconsistent_fields)]
pub enum SecurityContext {
    NONE,
    HTML,
    STYLE,
    SCRIPT,
    URL,
    RESOURCE_URL,
}

/// The kind of a binding.
#[derive(Debug, Clone, Copy, PartialEq, Eq, Structural)]
#[allow(inconsistent_fields)]
pub enum BindingKind {
    Attribute,
    ClassName,
    StyleProperty,
    Property,
    Template,
    I18n,
    LegacyAnimation,
    TwoWayProperty,
    Animation,
}

#[derive(Debug, Clone, Copy, PartialEq, Eq, Structural)]
#[allow(inconsistent_fields)]
pub enum TemplateKind {
    NgTemplate,
    StructuralDirective,
    Block,
}

#[derive(Debug, Clone, Copy, PartialEq, Eq, Structural)]
#[allow(inconsistent_fields)]
pub enum AnimationKind {
    Enter,
    Leave,
}

#[derive(Debug, Clone, Copy, PartialEq, Eq, Structural)]
#[allow(inconsistent_fields)]
pub enum AnimationBindingKind {
    String,
    Value,
}

/// The kind of an operation.
#[derive(Debug, Clone, Copy, PartialEq, Eq, Structural)]
#[allow(inconsistent_fields)]
pub enum OpKind {
    ElementStart,
    Element,
    ElementEnd,
    Template,
    ContainerStart,
    Container,
    ContainerEnd,
    Text,
    ExtractedAttribute,
    Listener,
    TwoWayListener,
    AnimationListener,
    Statement,
    Namespace,
    Projection,
    ConditionalCreate,
    ConditionalBranchCreate,
    RepeaterCreate,
    Binding,
    Property,
    Attribute,
    StyleProp,
    ClassProp,
    StyleMap,
    ClassMap,
    TwoWayProperty,
    AnimationBinding,
    Control,
    InterpolateText,
    Advance,
}

/// Strings interleaved with expressions: `strings.len() == expressions.len() + 1`.
#[derive(Debug)]
pub struct Interpolation {
    pub strings: Vec<String>,
    pub expressions: Vec<Expression>,
    pub i18n_placeholders: Vec<String>,
}

/// The right-hand side of a binding.
#[allow(inconsistent_fields)]
#[derive(Debug)]
pub enum BindingExpression {
    Expression(Expression),
    Interpolation(Interpolation),
}

/// The part shared by element-like creation operations.
#[derive(Debug)]
pub struct ElementOpBase {
    pub xref: XrefId,
    pub tag: Option<String>,
    pub namespace: Namespace,
    pub attributes: Option<ConstIndex>,
    pub local_refs: Vec<LocalRef>,
    pub local_refs_index: Option<ConstIndex>,
    pub slot: Option<usize>,
    pub non_bindable: bool,
}

/// A local reference declared on an element (`#name="target"`).
#[derive(Debug)]
pub struct LocalRef {
    pub name: String,
    pub target: String,
}

/// A static attribute or binding name that is collected into an element's const array.
#[derive(Debug)]
pub struct ExtractedAttributeOp {
    pub target: XrefId,
    pub binding_kind: BindingKind,
    pub namespace: Option<String>,
    pub name: String,
    pub expression: Option<Expression>,
    pub i18n_context: Option<XrefId>,
    pub i18n_message: Option<String>,
    pub security_context: Vec<SecurityContext>,
    pub trusted_value_fn: Option<Expression>,
    pub source_span: Option<ParseSourceSpan>,
}

/// An event listener.
#[derive(Debug)]
pub struct ListenerOp {
    pub target: XrefId,
    pub element: XrefId,
    pub name: String,
    pub tag: Option<String>,
    pub handler_ops: Vec<UpdateOp>,
    pub handler_fn_name: Option<String>,
    pub legacy_animation_phase: Option<String>,
    pub event_target: Option<String>,
    pub host_listener: bool,
    pub is_legacy_animation_listener: bool,
    pub consumes_dollar_event: bool,
    pub source_span: Option<ParseSourceSpan>,
}

/// An animation (`animate.enter` / `animate.leave`) listener.
#[derive(Debug)]
pub struct AnimationListenerOp {
    pub target: XrefId,
    pub element: XrefId,
    pub name: String,
    pub tag: Option<String>,
    pub handler_ops: Vec<UpdateOp>,
    pub handler_fn_name: Option<String>,
    pub animation_kind: AnimationKind,
    pub event_target: Option<String>,
    pub host_listener: bool,
    pub source_span: Option<ParseSourceSpan>,
}

/// Creation-mode operations.
#[allow(inconsistent_fields)]
#[derive(Debug)]
pub enum CreateOp {
    ElementStart(ElementOpBase),
    Element(ElementOpBase),
    ElementEnd { xref: XrefId },
    Template(ElementOpBase),
    ContainerStart(ElementOpBase),
    Container(ElementOpBase),
    ContainerEnd { xref: XrefId },
    ConditionalCreate(ElementOpBase),
    ConditionalBranchCreate(ElementOpBase),
    RepeaterCreate(ElementOpBase),
    Projection { xref: XrefId, slot: Option<usize>, projection_slot_index: usize, attributes: Option<Expression> },
    Text { xref: XrefId, slot: Option<usize>, initial_value: String },
    ExtractedAttribute(ExtractedAttributeOp),
    Listener(ListenerOp),
    TwoWayListener { element: XrefId, name: String, handler_ops: Vec<UpdateOp>, handler_fn_name: Option<String> },
    AnimationListener(AnimationListenerOp),
    Namespace { active: Namespace },
    Statement(Statement),
}

/// A binding before specialization.
#[derive(Debug)]
pub struct BindingOp {
    pub target: XrefId,
    pub binding_kind: BindingKind,
    pub name: String,
    pub expression: BindingExpression,
    pub unit: Option<String>,
    pub security_context: Vec<SecurityContext>,
    pub is_text_attribute: bool,
    pub is_structural_template_attribute: bool,
    pub template_kind: Option<TemplateKind>,
    pub i18n_context: Option<XrefId>,
    pub i18n_message: Option<String>,
    pub source_span: Option<ParseSourceSpan>,
}

/// A property binding.
#[derive(Debug)]
pub struct PropertyOp {
    pub target: XrefId,
    pub name: String,
    pub expression: BindingExpression,
    pub binding_kind: BindingKind,
    pub security_context: Vec<SecurityContext>,
    pub sanitizer: Option<Expression>,
    pub is_structural_template_attribute: bool,
    pub template_kind: Option<TemplateKind>,
    pub i18n_context: Option<XrefId>,
    pub i18n_message: Option<String>,
    pub source_span: Option<ParseSourceSpan>,
}

/// An attribute binding.
#[derive(Debug)]
pub struct AttributeOp {
    pub target: XrefId,
    pub namespace: Option<String>,
    pub name: String,
    pub expression: BindingExpression,
    pub security_context: Vec<SecurityContext>,
    pub sanitizer: Option<Expression>,
    pub is_text_attribute: bool,
    pub is_structural_template_attribute: bool,
    pub template_kind: Option<TemplateKind>,
    pub i18n_context: Option<XrefId>,
    pub i18n_message: Option<String>,
    pub source_span: Option<ParseSourceSpan>,
}

/// Update-mode operations.
#[allow(inconsistent_fields)]
#[derive(Debug)]
pub enum UpdateOp {
    Binding(BindingOp),
    Property(PropertyOp),
    Attribute(AttributeOp),
    StyleProp { target: XrefId, name: String, expression: BindingExpression, unit: Option<String>, source_span: Option<ParseSourceSpan> },
    ClassProp { target: XrefId, name: String, expression: Expression, source_span: Option<ParseSourceSpan> },
    StyleMap { target: XrefId, expression: BindingExpression },
    ClassMap { target: XrefId, expression: BindingExpression },
    TwoWayProperty { target: XrefId, name: String, expression: Expression, security_context: Vec<SecurityContext> },
    AnimationBinding {
        name: String,
        target: XrefId,
        animation_kind: AnimationKind,
        expression: BindingExpression,
        security_context: Vec<SecurityContext>,
        binding_kind: AnimationBindingKind,
        source_span: Option<ParseSourceSpan>,
    },
    Control { target: XrefId, expression: BindingExpression, security_context: Vec<SecurityContext> },
    InterpolateText { target: XrefId, interpolation: Interpolation },
    Advance { delta: usize },
    Statement(Statement),
}

impl CreateOp {
    pub open spec fn spec_kind(&self) -> OpKind {
        match self {
            CreateOp::ElementStart(_) => OpKind::ElementStart,
            CreateOp::Element(_) => OpKind::Element,
            CreateOp::ElementEnd { .. } => OpKind::ElementEnd,
            CreateOp::Template(_) => OpKind::Template,
            CreateOp::ContainerStart(_) => OpKind::ContainerStart,
            CreateOp::Container(_) => OpKind::Container,
            CreateOp::ContainerEnd { .. } => OpKind::ContainerEnd,
            CreateOp::ConditionalCreate(_) => OpKind::ConditionalCreate,
            CreateOp::ConditionalBranchCreate(_) => OpKind::ConditionalBranchCreate,
            CreateOp::RepeaterCreate(_) => OpKind::RepeaterCreate,
            CreateOp::Projection { .. } => OpKind::Projection,
            CreateOp::Text { .. } => OpKind::Text,
            CreateOp::ExtractedAttribute(_) => OpKind::ExtractedAttribute,
            CreateOp::Listener(_) => OpKind::Listener,
            CreateOp::TwoWayListener { .. } => OpKind::TwoWayListener,
            CreateOp::AnimationListener(_) => OpKind::AnimationListener,
            CreateOp::Namespace { .. } => OpKind::Namespace,
            CreateOp::Statement(_) => OpKind::Statement,
        }
    }

    /// The kind of this operation.
    #[verifier::when_used_as_spec(spec_kind)]
    pub fn kind(&self) -> (k: OpKind)
        ensures
            k == self.spec_kind(),
    {
        match self {
            CreateOp::ElementStart(_) => OpKind::ElementStart,
            CreateOp::Element(_) => OpKind::Element,
            CreateOp::ElementEnd { .. } => OpKind::ElementEnd,
            CreateOp::Template(_) => OpKind::Template,
            CreateOp::ContainerStart(_) => OpKind::ContainerStart,
            CreateOp::Container(_) => OpKind::Container,
            CreateOp::ContainerEnd { .. } => OpKind::ContainerEnd,
            CreateOp::ConditionalCreate(_) => OpKind::ConditionalCreate,
            CreateOp::ConditionalBranchCreate(_) => OpKind::ConditionalBranchCreate,
            CreateOp::RepeaterCreate(_) => OpKind::RepeaterCreate,
            CreateOp::Projection { .. } => OpKind::Projection,
            CreateOp::Text { .. } => OpKind::Text,
            CreateOp::ExtractedAttribute(_) => OpKind::ExtractedAttribute,
            CreateOp::Listener(_) => OpKind::Listener,
            CreateOp::TwoWayListener { .. } => OpKind::TwoWayListener,
            CreateOp::AnimationListener(_) => OpKind::AnimationListener,
            CreateOp::Namespace { .. } => OpKind::Namespace,
            CreateOp::Statement(_) => OpKind::Statement,
        }
    }
}

impl UpdateOp {
    pub open spec fn spec_kind(&self) -> OpKind {
        match self {
            UpdateOp::Binding(_) => OpKind::Binding,
            UpdateOp::Property(_) => OpKind::Property,
            UpdateOp::Attribute(_) => OpKind::Attribute,
            UpdateOp::StyleProp { .. } => OpKind::StyleProp,
            UpdateOp::ClassProp { .. } => OpKind::ClassProp,
            UpdateOp::StyleMap { .. } => OpKind::StyleMap,
            UpdateOp::ClassMap { .. } => OpKind::ClassMap,
            UpdateOp::TwoWayProperty { .. } => OpKind::TwoWayProperty,
            UpdateOp::AnimationBinding { .. } => OpKind::AnimationBinding,
            UpdateOp::Control { .. } => OpKind::Control,
            UpdateOp::InterpolateText { .. } => OpKind::InterpolateText,
            UpdateOp::Advance { .. } => OpKind::Advance,
            UpdateOp::Statement(_) => OpKind::Statement,
        }
    }

    /// The kind of this operation.
    #[verifier::when_used_as_spec(spec_kind)]
    pub fn kind(&self) -> (k: OpKind)
        ensures
            k == self.spec_kind(),
    {
        match self {
            UpdateOp::Binding(_) => OpKind::Binding,
            UpdateOp::Property(_) => OpKind::Property,
            UpdateOp::Attribute(_) => OpKind::Attribute,
            UpdateOp::StyleProp { .. } => OpKind::StyleProp,
            UpdateOp::ClassProp { .. } => OpKind::ClassProp,
            UpdateOp::StyleMap { .. } => OpKind::StyleMap,
            UpdateOp::ClassMap { .. } => OpKind::ClassMap,
            UpdateOp::TwoWayProperty { .. } => OpKind::TwoWayProperty,
            UpdateOp::AnimationBinding { .. } => OpKind::AnimationBinding,
            UpdateOp::Control { .. } => OpKind::Control,
            UpdateOp::InterpolateText { .. } => OpKind::InterpolateText,
            UpdateOp::Advance { .. } => OpKind::Advance,
            UpdateOp::Statement(_) => OpKind::Statement,
        }
    }
}

} // verus!

verus! {

// ---------------------------------------------------------------------------------------------
// Mathematical values of operations
// ---------------------------------------------------------------------------------------------

pub struct SInterpolation {
    pub strings: Seq<Seq<char>>,
    pub expressions: Seq<SExpr>,
    pub i18n_placeholders: Seq<Seq<char>>,
}

#[allow(inconsistent_fields)]
pub enum SBindingExpr {
    Expression(SExpr),
    Interpolation(SInterpolation),
}

pub struct SLocalRef {
    pub name: Seq<char>,
    pub target: Seq<char>,
}

pub struct SElementBase {
    pub xref: XrefId,
    pub tag: Option<Seq<char>>,
    pub namespace: Namespace,
    pub attributes: Option<ConstIndex>,
    pub local_refs: Seq<SLocalRef>,
    pub local_refs_index: Option<ConstIndex>,
    pub slot: Option<usize>,
    pub non_bindable: bool,
}

pub struct SExtracted {
    pub target: XrefId,
    pub binding_kind: BindingKind,
    pub namespace: Option<Seq<char>>,
    pub name: Seq<char>,
    pub expression: Option<SExpr>,
    pub i18n_context: Option<XrefId>,
    pub i18n_message: Option<Seq<char>>,
    pub security_context: Seq<SecurityContext>,
    pub trusted_value_fn: Option<SExpr>,
    pub source_span: Option<SpecSpan>,
}

pub struct SListener {
    pub target: XrefId,
    pub element: XrefId,
    pub name: Seq<char>,
    pub tag: Option<Seq<char>>,
    pub handler_ops: Seq<SUpdateOp>,
    pub handler_fn_name: Option<Seq<char>>,
    pub legacy_animation_phase: Option<Seq<char>>,
    pub event_target: Option<Seq<char>>,
    pub host_listener: bool,
    pub is_legacy_animation_listener: bool,
    pub consumes_dollar_event: bool,
    pub source_span: Option<SpecSpan>,
}

pub struct SAnimationListener {
    pub target: XrefId,
    pub element: XrefId,
    pub name: Seq<char>,
    pub tag: Option<Seq<char>>,
    pub handler_ops: Seq<SUpdateOp>,
    pub handler_fn_name: Option<Seq<char>>,
    pub animation_kind: AnimationKind,
    pub event_target: Option<Seq<char>>,
    pub host_listener: bool,
    pub source_span: Option<SpecSpan>,
}

#[allow(inconsistent_fields)]
pub enum SCreateOp {
    ElementStart(SElementBase),
    Element(SElementBase),
    ElementEnd { xref: XrefId },
    Template(SElementBase),
    ContainerStart(SElementBase),
    Container(SElementBase),
    ContainerEnd { xref: XrefId },
    ConditionalCreate(SElementBase),
    ConditionalBranchCreate(SElementBase),
    RepeaterCreate(SElementBase),
    Projection { xref: XrefId, slot: Option<usize>, projection_slot_index: usize, attributes: Option<SExpr> },
    Text { xref: XrefId, slot: Option<usize>, initial_value: Seq<char> },
    ExtractedAttribute(SExtracted),
    Listener(SListener),
    TwoWayListener { element: XrefId, name: Seq<char>, handler_ops: Seq<SUpdateOp>, handler_fn_name: Option<Seq<char>> },
    AnimationListener(SAnimationListener),
    Namespace { active: Namespace },
    Statement(SStmt),
}

pub struct SBinding {
    pub target: XrefId,
    pub binding_kind: BindingKind,
    pub name: Seq<char>,
    pub expression: SBindingExpr,
    pub unit: Option<Seq<char>>,
    pub security_context: Seq<SecurityContext>,
    pub is_text_attribute: bool,
    pub is_structural_template_attribute: bool,
    pub template_kind: Option<TemplateKind>,
    pub i18n_context: Option<XrefId>,
    pub i18n_message: Option<Seq<char>>,
    pub source_span: Option<SpecSpan>,
}

pub struct SProperty {
    pub target: XrefId,
    pub name: Seq<char>,
    pub expression: SBindingExpr,
    pub binding_kind: BindingKind,
    pub security_context: Seq<SecurityContext>,
    pub sanitizer: Option<SExpr>,
    pub is_structural_template_attribute: bool,
    pub template_kind: Option<TemplateKind>,
    pub i18n_context: Option<XrefId>,
    pub i18n_message: Option<Seq<char>>,
    pub source_span: Option<SpecSpan>,
}

pub struct SAttribute {
    pub target: XrefId,
    pub namespace: Option<Seq<char>>,
    pub name: Seq<char>,
    pub expression: SBindingExpr,
    pub security_context: Seq<SecurityContext>,
    pub sanitizer: Option<SExpr>,
    pub is_text_attribute: bool,
    pub is_structural_template_attribute: bool,
    pub template_kind: Option<TemplateKind>,
    pub i18n_context: Option<XrefId>,
    pub i18n_message: Option<Seq<char>>,
    pub source_span: Option<SpecSpan>,
}

#[allow(inconsistent_fields)]
pub enum SUpdateOp {
    Binding(SBinding),
    Property(SProperty),
    Attribute(SAttribute),
    StyleProp { target: XrefId, name: Seq<char>, expression: SBindingExpr, unit: Option<Seq<char>>, source_span: Option<SpecSpan> },
    ClassProp { target: XrefId, name: Seq<char>, expression: SExpr, source_span: Option<SpecSpan> },
    StyleMap { target: XrefId, expression: SBindingExpr },
    ClassMap { target: XrefId, expression: SBindingExpr },
    TwoWayProperty { target: XrefId, name: Seq<char>, expression: SExpr, security_context: Seq<SecurityContext> },
    AnimationBinding {
        name: Seq<char>,
        target: XrefId,
        animation_kind: AnimationKind,
        expression: SBindingExpr,
        security_context: Seq<SecurityContext>,
        binding_kind: AnimationBindingKind,
        source_span: Option<SpecSpan>,
    },
    Control { target: XrefId, expression: SBindingExpr, security_context: Seq<SecurityContext> },
    InterpolateText { target: XrefId, interpolation: SInterpolation },
    Advance { delta: usize },
    Statement(SStmt),
}

pub open spec fn strings_view(s: Seq<String>) -> Seq<Seq<char>> {
    s.map_values(|x: String| x@)
}

pub open spec fn opt_expr_view(e: Option<Expression>) -> Option<SExpr> {
    match e {
        Some(e) => Some(expr_view(e)),
        None => None,
    }
}

pub open spec fn interpolation_view(i: Interpolation) -> SInterpolation {
    SInterpolation {
        strings: strings_view(i.strings@),
        expressions: exprs_view(i.expressions@),
        i18n_placeholders: strings_view(i.i18n_placeholders@),
    }
}

pub open spec fn binding_expr_view(b: BindingExpression) -> SBindingExpr {
    match b {
        BindingExpression::Expression(e) => SBindingExpr::Expression(expr_view(e)),
        BindingExpression::Interpolation(i) => SBindingExpr::Interpolation(interpolation_view(i)),
    }
}

pub open spec fn element_base_view(b: ElementOpBase) -> SElementBase {
    SElementBase {
        xref: b.xref,
        tag: opt_string_view(b.tag),
        namespace: b.namespace,
        attributes: b.attributes,
        local_refs: local_refs_view(b.local_refs@),
        local_refs_index: b.local_refs_index,
        slot: b.slot,
        non_bindable: b.non_bindable,
    }
}

/// The values of a list of local references.
pub open spec fn local_refs_view(s: Seq<LocalRef>) -> Seq<SLocalRef> {
    s.map_values(|r: LocalRef| SLocalRef { name: r.name@, target: r.target@ })
}

pub open spec fn extracted_view(e: ExtractedAttributeOp) -> SExtracted {
    SExtracted {
        target: e.target,
        binding_kind: e.binding_kind,
        namespace: opt_string_view(e.namespace),
        name: e.name@,
        expression: opt_expr_view(e.expression),
        i18n_context: e.i18n_context,
        i18n_message: opt_string_view(e.i18n_message),
        security_context: e.security_context@,
        trusted_value_fn: opt_expr_view(e.trusted_value_fn),
        source_span: opt_span_view(e.source_span),
    }
}

pub open spec fn binding_view(b: BindingOp) -> SBinding {
    SBinding {
        target: b.target,
        binding_kind: b.binding_kind,
        name: b.name@,
        expression: binding_expr_view(b.expression),
        unit: opt_string_view(b.unit),
        security_context: b.security_context@,
        is_text_attribute: b.is_text_attribute,
        is_structural_template_attribute: b.is_structural_template_attribute,
        template_kind: b.template_kind,
        i18n_context: b.i18n_context,
        i18n_message: opt_string_view(b.i18n_message),
        source_span: opt_span_view(b.source_span),
    }
}

pub open spec fn property_view(p: PropertyOp) -> SProperty {
    SProperty {
        target: p.target,
        name: p.name@,
        expression: binding_expr_view(p.expression),
        binding_kind: p.binding_kind,
        security_context: p.security_context@,
        sanitizer: opt_expr_view(p.sanitizer),
        is_structural_template_attribute: p.is_structural_template_attribute,
        template_kind: p.template_kind,
        i18n_context: p.i18n_context,
        i18n_message: opt_string_view(p.i18n_message),
        source_span: opt_span_view(p.source_span),
    }
}

pub open spec fn attribute_view(a: AttributeOp) -> SAttribute {
    SAttribute {
        target: a.target,
        namespace: opt_string_view(a.namespace),
        name: a.name@,
        expression: binding_expr_view(a.expression),
        security_context: a.security_context@,
        sanitizer: opt_expr_view(a.sanitizer),
        is_text_attribute: a.is_text_attribute,
        is_structural_template_attribute: a.is_structural_template_attribute,
        template_kind: a.template_kind,
        i18n_context: a.i18n_context,
        i18n_message: opt_string_view(a.i18n_message),
        source_span: opt_span_view(a.source_span),
    }
}

pub open spec fn update_op_view(op: UpdateOp) -> SUpdateOp
    decreases op,
{
    match op {
        UpdateOp::Binding(b) => SUpdateOp::Binding(binding_view(b)),
        UpdateOp::Property(p) => SUpdateOp::Property(property_view(p)),
        UpdateOp::Attribute(a) => SUpdateOp::Attribute(attribute_view(a)),
        UpdateOp::StyleProp { target, name, expression, unit, source_span } => SUpdateOp::StyleProp {
            target,
            name: name@,
            expression: binding_expr_view(expression),
            unit: opt_string_view(unit),
            source_span: opt_span_view(source_span),
        },
        UpdateOp::ClassProp { target, name, expression, source_span } => SUpdateOp::ClassProp {
            target,
            name: name@,
            expression: expr_view(expression),
            source_span: opt_span_view(source_span),
        },
        UpdateOp::StyleMap { target, expression } => SUpdateOp::StyleMap {
            target,
            expression: binding_expr_view(expression),
        },
        UpdateOp::ClassMap { target, expression } => SUpdateOp::ClassMap {
            target,
            expression: binding_expr_view(expression),
        },
        UpdateOp::TwoWayProperty { target, name, expression, security_context } =>
            SUpdateOp::TwoWayProperty {
            target,
            name: name@,
            expression: expr_view(expression),
            security_context: security_context@,
        },
        UpdateOp::AnimationBinding {
            name,
            target,
            animation_kind,
            expression,
            security_context,
            binding_kind,
            source_span,
        } => SUpdateOp::AnimationBinding {
            name: name@,
            target,
            animation_kind,
            expression: binding_expr_view(expression),
            security_context: security_context@,
            binding_kind,
            source_span: opt_span_view(source_span),
        },
        UpdateOp::Control { target, expression, security_context } => SUpdateOp::Control {
            target,
            expression: binding_expr_view(expression),
            security_context: security_context@,
        },
        UpdateOp::InterpolateText { target, interpolation } => SUpdateOp::InterpolateText {
            target,
            interpolation: interpolation_view(interpolation),
        },
        UpdateOp::Advance { delta } => SUpdateOp::Advance { delta },
        UpdateOp::Statement(s) => SUpdateOp::Statement(stmt_view(s)),
    }
}

pub open spec fn update_ops_view(s: Seq<UpdateOp>) -> Seq<SUpdateOp>
    decreases s,
{
    if s.len() == 0 {
        Seq::empty()
    } else {
        update_ops_view(s.drop_last()).push(update_op_view(s.last()))
    }
}

pub open spec fn create_op_view(op: CreateOp) -> SCreateOp
    decreases op,
{
    match op {
        CreateOp::ElementStart(b) => SCreateOp::ElementStart(element_base_view(b)),
        CreateOp::Element(b) => SCreateOp::Element(element_base_view(b)),
        CreateOp::ElementEnd { xref } => SCreateOp::ElementEnd { xref },
        CreateOp::Template(b) => SCreateOp::Template(element_base_view(b)),
        CreateOp::ContainerStart(b) => SCreateOp::ContainerStart(element_base_view(b)),
        CreateOp::Container(b) => SCreateOp::Container(element_base_view(b)),
        CreateOp::ContainerEnd { xref } => SCreateOp::ContainerEnd { xref },
        CreateOp::ConditionalCreate(b) => SCreateOp::ConditionalCreate(element_base_view(b)),
        CreateOp::ConditionalBranchCreate(b) => SCreateOp::ConditionalBranchCreate(
            element_base_view(b),
        ),
        CreateOp::RepeaterCreate(b) => SCreateOp::RepeaterCreate(element_base_view(b)),
        CreateOp::Projection { xref, slot, projection_slot_index, attributes } =>
            SCreateOp::Projection {
            xref,
            slot,
            projection_slot_index,
            attributes: opt_expr_view(attributes),
        },
        CreateOp::Text { xref, slot, initial_value } => SCreateOp::Text {
            xref,
            slot,
            initial_value: initial_value@,
        },
        CreateOp::ExtractedAttribute(e) => SCreateOp::ExtractedAttribute(extracted_view(e)),
        CreateOp::Listener(l) => SCreateOp::Listener(
            SListener {
                target: l.target,
                element: l.element,
                name: l.name@,
                tag: opt_string_view(l.tag),
                handler_ops: update_ops_view(l.handler_ops@),
                handler_fn_name: opt_string_view(l.handler_fn_name),
                legacy_animation_phase: opt_string_view(l.legacy_animation_phase),
                event_target: opt_string_view(l.event_target),
                host_listener: l.host_listener,
                is_legacy_animation_listener: l.is_legacy_animation_listener,
                consumes_dollar_event: l.consumes_dollar_event,
                source_span: opt_span_view(l.source_span),
            },
        ),
        CreateOp::TwoWayListener { element, name, handler_ops, handler_fn_name } =>
            SCreateOp::TwoWayListener {
            element,
            name: name@,
            handler_ops: update_ops_view(handler_ops@),
            handler_fn_name: opt_string_view(handler_fn_name),
        },
        CreateOp::AnimationListener(l) => SCreateOp::AnimationListener(
            SAnimationListener {
                target: l.target,
                element: l.element,
                name: l.name@,
                tag: opt_string_view(l.tag),
                handler_ops: update_ops_view(l.handler_ops@),
                handler_fn_name: opt_string_view(l.handler_fn_name),
                animation_kind: l.animation_kind,
                event_target: opt_string_view(l.event_target),
                host_listener: l.host_listener,
                source_span: opt_span_view(l.source_span),
            },
        ),
        CreateOp::Namespace { active } => SCreateOp::Namespace { active },
        CreateOp::Statement(s) => SCreateOp::Statement(stmt_view(s)),
    }
}

pub open spec fn create_ops_view(s: Seq<CreateOp>) -> Seq<SCreateOp>
    decreases s,
{
    if s.len() == 0 {
        Seq::empty()
    } else {
        create_ops_view(s.drop_last()).push(create_op_view(s.last()))
    }
}

pub proof fn lemma_update_ops_view_push(s: Seq<UpdateOp>, e: UpdateOp)
    ensures
        update_ops_view(s.push(e)) == update_ops_view(s).push(update_op_view(e)),
{
    assert(s.push(e).drop_last() =~= s);
}

pub proof fn lemma_update_ops_view_len(s: Seq<UpdateOp>)
    ensures
        update_ops_view(s).len() == s.len(),
    decreases s.len(),
{
    if s.len() > 0 {
        lemma_update_ops_view_len(s.drop_last());
    }
}

pub proof fn lemma_update_ops_view_index(s: Seq<UpdateOp>, i: int)
    requires
        0 <= i < s.len(),
    ensures
        update_ops_view(s)[i] == update_op_view(s[i]),
        update_ops_view(s).len() == s.len(),
    decreases s.len(),
{
    lemma_update_ops_view_len(s);
    if i < s.len() - 1 {
        lemma_update_ops_view_index(s.drop_last(), i);
    }
}

pub proof fn lemma_create_ops_view_push(s: Seq<CreateOp>, e: CreateOp)
    ensures
        create_ops_view(s.push(e)) == create_ops_view(s).push(create_op_view(e)),
{
    assert(s.push(e).drop_last() =~= s);
}

pub proof fn lemma_create_ops_view_len(s: Seq<CreateOp>)
    ensures
        create_ops_view(s).len() == s.len(),
    decreases s.len(),
{
    if s.len() > 0 {
        lemma_create_ops_view_len(s.drop_last());
    }
}

pub proof fn lemma_create_ops_view_index(s: Seq<CreateOp>, i: int)
    requires
        0 <= i < s.len(),
    ensures
        create_ops_view(s)[i] == create_op_view(s[i]),
        create_ops_view(s).len() == s.len(),
    decreases s.len(),
{
    lemma_create_ops_view_len(s);
    if i < s.len() - 1 {
        lemma_create_ops_view_index(s.drop_last(), i);
    }
}

/// Two op sequences have equal values exactly when they agree element by element.
pub proof fn lemma_update_ops_view_ext(a: Seq<UpdateOp>, b: Seq<UpdateOp>)
    requires
        a.len() == b.len(),
        forall|i: int| 0 <= i < a.len() ==> update_op_view(a[i]) == update_op_view(b[i]),
    ensures
        update_ops_view(a) == update_ops_view(b),
    decreases a.len(),
{
    if a.len() > 0 {
        lemma_update_ops_view_ext(a.drop_last(), b.drop_last());
    }
}

pub proof fn lemma_create_ops_view_ext(a: Seq<CreateOp>, b: Seq<CreateOp>)
    requires
        a.len() == b.len(),
        forall|i: int| 0 <= i < a.len() ==> create_op_view(a[i]) == create_op_view(b[i]),
    ensures
        create_ops_view(a) == create_ops_view(b),
    decreases a.len(),
{
    if a.len() > 0 {
        lemma_create_ops_view_ext(a.drop_last(), b.drop_last());
    }
}


/// A copy of a list of security contexts.
pub fn clone_contexts(v: &Vec<SecurityContext>) -> (r: Vec<SecurityContext>)
    ensures
        r@ == v@,
{
    let mut r: Vec<SecurityContext> = Vec::new();
    let mut i: usize = 0;
    while i < v.len()
        invariant
            i <= v.len(),
            r@ == v@.take(i as int),
        decreases v.len() - i,
    {
        r.push(v[i]);
        proof {
            assert(v@.take(i + 1) =~= v@.take(i as int).push(v@[i as int]));
        }
        i += 1;
    }
    assert(v@.take(v.len() as int) =~= v@);
    r
}

/// A structurally equal copy of an optional expression.
pub fn clone_opt_expr(e: &Option<Expression>) -> (r: Option<Expression>)
    ensures
        opt_expr_view(r) == opt_expr_view(*e),
{
    match e {
        Some(x) => Some(clone_expr(x)),
        None => None,
    }
}

/// A structurally equal copy of an extracted attribute.
pub fn clone_extracted(e: &ExtractedAttributeOp) -> (r: ExtractedAttributeOp)
    ensures
        extracted_view(r) == extracted_view(*e),
{
    ExtractedAttributeOp {
        target: e.target,
        binding_kind: e.binding_kind,
        namespace: clone_opt_string(&e.namespace),
        name: e.name.clone(),
        expression: clone_opt_expr(&e.expression),
        i18n_context: e.i18n_context,
        i18n_message: clone_opt_string(&e.i18n_message),
        security_context: clone_contexts(&e.security_context),
        trusted_value_fn: clone_opt_expr(&e.trusted_value_fn),
        source_span: clone_opt_span(&e.source_span),
    }
}

} // verus!
