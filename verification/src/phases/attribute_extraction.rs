//! Attribute extraction: static attributes, and the names of bindings that need no
//! instruction of their own, become extracted-attribute operations in the creation list.

use vstd::prelude::*;
use crate::text::{
    spec_words, split_whitespace, spec_split_char, split_char, spec_trim, trim, first_index_of,
    find_char, slice_chars, chars_of, string_of, str_eq,
};
use crate::parse_util::{SpecSpan, opt_string_view, opt_span_view, clone_opt_span};
use crate::output::{
    Expression, LiteralExpr, LiteralValue, SExpr, SLit, SMapEntry, XrefId, expr_view, exprs_view,
    map_entries_view, clone_expr, clone_opt_string, lemma_exprs_view_index, lemma_exprs_view_len,
    LiteralMapEntry,
};
use crate::ir::{
    AttributeOp, BindingExpression, BindingKind, CompatibilityMode, CreateOp, ExtractedAttributeOp,
    SecurityContext, SAttribute, SBindingExpr, SCreateOp, SExtracted, SProperty, SUpdateOp, UpdateOp,
    attribute_view, binding_expr_view, create_op_view, create_ops_view, extracted_view,
    update_op_view, update_ops_view, clone_contexts, clone_extracted, lemma_create_ops_view_push,
    lemma_create_ops_view_index, lemma_create_ops_view_len, lemma_update_ops_view_push,
};
use crate::compilation::HostBindingCompilationJob;
use crate::component::{
    ComponentCompilationJob, ViewCompilationUnit, lemma_units_related_keys, lemma_units_related_push,
    restore_view_units, same_but_views, take_view_units, unit_keys, units_related, view_entries,
};

verus! {

// ---------------------------------------------------------------------------------------------
// Constant expressions
// ---------------------------------------------------------------------------------------------

/// Whether an expression is constant: a literal, or an array or map whose entries are constant.
pub open spec fn spec_is_constant(e: SExpr) -> bool
    decreases e,
{
    match e {
        SExpr::Literal { .. } => true,
        SExpr::LiteralArray { entries, .. } => all_constant(entries),
        SExpr::LiteralMap { entries, .. } => all_values_constant(entries),
        _ => false,
    }
}

/// Whether every expression of a list is constant.
pub open spec fn all_constant(s: Seq<SExpr>) -> bool
    decreases s,
{
    if s.len() == 0 {
        true
    } else {
        all_constant(s.drop_last()) && spec_is_constant(s.last())
    }
}

/// Whether every value of a literal map is constant.
pub open spec fn all_values_constant(s: Seq<SMapEntry>) -> bool
    decreases s,
{
    if s.len() == 0 {
        true
    } else {
        all_values_constant(s.drop_last()) && spec_is_constant(s.last().value)
    }
}

/// Whether an expression is constant.
pub fn is_constant(e: &Expression) -> (r: bool)
    ensures
        r == spec_is_constant(expr_view(*e)),
    decreases e, 1nat,
{
    match e {
        Expression::Literal(_) => true,
        Expression::LiteralArray(a) => all_constant_vec(&a.entries),
        Expression::LiteralMap { entries, .. } => all_values_constant_vec(entries),
        _ => false,
    }
}

fn all_constant_vec(v: &Vec<Expression>) -> (r: bool)
    ensures
        r == all_constant(exprs_view(v@)),
    decreases v, 0nat,
{
    proof {
        lemma_all_constant_iff(exprs_view(v@));
        lemma_exprs_view_len(v@);
    }
    let n = v.len();
    let mut i: usize = 0;
    while i < n
        invariant
            n == v@.len(),
            i <= n,
            exprs_view(v@).len() == n,
            all_constant(exprs_view(v@)) <==> forall|j: int| 0 <= j < n ==> spec_is_constant(#[trigger] exprs_view(v@)[j]),
            forall|j: int| 0 <= j < i ==> spec_is_constant(#[trigger] exprs_view(v@)[j]),
        decreases n - i,
    {
        let c = is_constant(&v[i]);
        proof {
            lemma_exprs_view_index(v@, i as int);
        }
        if !c {
            return false;
        }
        i += 1;
    }
    true
}

fn all_values_constant_vec(v: &Vec<LiteralMapEntry>) -> (r: bool)
    ensures
        r == all_values_constant(map_entries_view(v@)),
    decreases v, 0nat,
{
    proof {
        lemma_all_values_constant_iff(map_entries_view(v@));
        lemma_map_entries_view_index(v@);
    }
    let n = v.len();
    let mut i: usize = 0;
    while i < n
        invariant
            n == v@.len(),
            i <= n,
            map_entries_view(v@).len() == n,
            forall|j: int| 0 <= j < n ==> (#[trigger] map_entries_view(v@)[j]).value == expr_view(*v@[j].value),
            all_values_constant(map_entries_view(v@)) <==> forall|j: int| 0 <= j < n ==> spec_is_constant(#[trigger] map_entries_view(v@)[j].value),
            forall|j: int| 0 <= j < i ==> spec_is_constant(#[trigger] map_entries_view(v@)[j].value),
        decreases n - i,
    {
        let c = is_constant(&v[i].value);
        assert(map_entries_view(v@)[i as int].value == expr_view(*v@[i as int].value));
        if !c {
            return false;
        }
        i += 1;
    }
    true
}

proof fn lemma_all_constant_iff(s: Seq<SExpr>)
    ensures
        all_constant(s) <==> forall|j: int| 0 <= j < s.len() ==> spec_is_constant(#[trigger] s[j]),
    decreases s.len(),
{
    if s.len() > 0 {
        lemma_all_constant_iff(s.drop_last());
        if forall|j: int| 0 <= j < s.len() ==> spec_is_constant(#[trigger] s[j]) {
            assert forall|j: int| 0 <= j < s.drop_last().len() implies spec_is_constant(#[trigger] s.drop_last()[j]) by {
                assert(s.drop_last()[j] == s[j]);
            }
            assert(spec_is_constant(s[s.len() - 1]));
        }
        if all_constant(s) {
            assert forall|j: int| 0 <= j < s.len() implies spec_is_constant(#[trigger] s[j]) by {
                if j < s.len() - 1 {
                    assert(s.drop_last()[j] == s[j]);
                }
            }
        }
    }
}

proof fn lemma_all_values_constant_iff(s: Seq<SMapEntry>)
    ensures
        all_values_constant(s) <==> forall|j: int| 0 <= j < s.len() ==> spec_is_constant(#[trigger] s[j].value),
    decreases s.len(),
{
    if s.len() > 0 {
        lemma_all_values_constant_iff(s.drop_last());
        if forall|j: int| 0 <= j < s.len() ==> spec_is_constant(#[trigger] s[j].value) {
            assert forall|j: int| 0 <= j < s.drop_last().len() implies spec_is_constant(#[trigger] s.drop_last()[j].value) by {
                assert(s.drop_last()[j] == s[j]);
            }
            assert(spec_is_constant(s[s.len() - 1].value));
        }
        if all_values_constant(s) {
            assert forall|j: int| 0 <= j < s.len() implies spec_is_constant(#[trigger] s[j].value) by {
                if j < s.len() - 1 {
                    assert(s.drop_last()[j] == s[j]);
                }
            }
        }
    }
}

proof fn lemma_map_entries_view_index(s: Seq<LiteralMapEntry>)
    ensures
        map_entries_view(s).len() == s.len(),
        forall|j: int| 0 <= j < s.len() ==> (#[trigger] map_entries_view(s)[j]).value == expr_view(*s[j].value),
    decreases s.len(),
{
    if s.len() > 0 {
        lemma_map_entries_view_index(s.drop_last());
        assert forall|j: int| 0 <= j < s.len() implies (#[trigger] map_entries_view(s)[j]).value == expr_view(*s[j].value) by {
            if j < s.len() - 1 {
                assert(s.drop_last()[j] == s[j]);
            }
        }
    }
}

// ---------------------------------------------------------------------------------------------
// What one update operation yields
// ---------------------------------------------------------------------------------------------

/// An extracted attribute, with no trusted-value function.
pub open spec fn mk_extracted(
    target: XrefId,
    binding_kind: BindingKind,
    namespace: Option<Seq<char>>,
    name: Seq<char>,
    expression: Option<SExpr>,
    i18n_context: Option<XrefId>,
    i18n_message: Option<Seq<char>>,
    security_context: Seq<SecurityContext>,
    source_span: Option<SpecSpan>,
) -> SExtracted {
    SExtracted {
        target,
        binding_kind,
        namespace,
        name,
        expression,
        i18n_context,
        i18n_message,
        security_context,
        trusted_value_fn: None,
        source_span,
    }
}

/// The values of a list of extracted attributes.
pub open spec fn extracted_list_view(s: Seq<ExtractedAttributeOp>) -> Seq<SExtracted> {
    s.map_values(|e: ExtractedAttributeOp| extracted_view(e))
}

/// The xref that a creation operation declares: that of an element, template, container,
/// repeater, conditional or projection.
pub open spec fn spec_create_xref(op: SCreateOp) -> Option<XrefId> {
    match op {
        SCreateOp::ElementStart(b) => Some(b.xref),
        SCreateOp::Element(b) => Some(b.xref),
        SCreateOp::Template(b) => Some(b.xref),
        SCreateOp::ContainerStart(b) => Some(b.xref),
        SCreateOp::Container(b) => Some(b.xref),
        SCreateOp::RepeaterCreate(b) => Some(b.xref),
        SCreateOp::ConditionalCreate(b) => Some(b.xref),
        SCreateOp::ConditionalBranchCreate(b) => Some(b.xref),
        SCreateOp::Projection { xref, .. } => Some(xref),
        _ => None,
    }
}

/// Whether a creation list holds a template declared with xref `x`.
pub open spec fn has_template(create: Seq<SCreateOp>, x: XrefId) -> bool {
    exists|k: int| 0 <= k < create.len() && (#[trigger] create[k] matches SCreateOp::Template(b) && b.xref == x)
}

/// Each class name of a static `class` attribute, extracted for `target`.
pub open spec fn class_extracted(a: SAttribute, target: XrefId, value: Seq<char>) -> Seq<SExtracted> {
    spec_words(value).map_values(
        |w: Seq<char>|
            mk_extracted(
                target,
                BindingKind::ClassName,
                a.namespace,
                w,
                None,
                a.i18n_context,
                a.i18n_message,
                a.security_context,
                a.source_span,
            ),
    )
}

/// A declaration `name: value` of a style string: trimmed, non-empty, with a colon and a
/// non-empty trimmed name.
pub open spec fn style_decl(d: Seq<char>) -> Option<(Seq<char>, Seq<char>)> {
    let t = spec_trim(d);
    if t.len() == 0 {
        None
    } else {
        match first_index_of(t, ':') {
            Some(i) => {
                let name = spec_trim(t.take(i));
                if name.len() == 0 {
                    None
                } else {
                    Some((name, spec_trim(t.skip(i + 1))))
                }
            },
            None => None,
        }
    }
}

/// The declarations of the pieces of a style string, in order.
pub open spec fn style_decls(pieces: Seq<Seq<char>>) -> Seq<(Seq<char>, Seq<char>)>
    decreases pieces.len(),
{
    if pieces.len() == 0 {
        Seq::empty()
    } else {
        style_decls(pieces.drop_last()) + match style_decl(pieces.last()) {
            Some(p) => seq![p],
            None => Seq::empty(),
        }
    }
}

/// A string literal with no source span.
pub open spec fn string_literal(v: Seq<char>) -> SExpr {
    SExpr::Literal { value: SLit::String(v), source_span: None }
}

/// Each declaration of a static `style` attribute (`name: value`, separated by `;`),
/// extracted for `target` with its value as a string literal.
pub open spec fn style_extracted(a: SAttribute, target: XrefId, value: Seq<char>) -> Seq<SExtracted> {
    style_decls(spec_split_char(value, ';')).map_values(
        |p: (Seq<char>, Seq<char>)|
            mk_extracted(
                target,
                BindingKind::StyleProperty,
                a.namespace,
                p.0,
                Some(string_literal(p.1)),
                a.i18n_context,
                a.i18n_message,
                a.security_context,
                a.source_span,
            ),
    )
}

/// The binding kind under which an extractable attribute is extracted.
pub open spec fn attribute_binding_kind(a: SAttribute, create: Seq<SCreateOp>) -> BindingKind {
    if a.name == "class"@ {
        if has_template(create, a.target) {
            BindingKind::Attribute
        } else {
            BindingKind::ClassName
        }
    } else if a.name == "style"@ {
        BindingKind::StyleProperty
    } else if a.is_structural_template_attribute {
        BindingKind::Template
    } else {
        BindingKind::Attribute
    }
}

/// Whether an attribute is extracted: a text attribute, or (outside the compatibility mode)
/// one whose value is a constant expression.
pub open spec fn extractable(a: SAttribute, e: SExpr, compat: CompatibilityMode) -> bool {
    if compat == CompatibilityMode::TemplateDefinitionBuilder {
        a.is_text_attribute
    } else {
        a.is_text_attribute || spec_is_constant(e)
    }
}

/// The copies for the enclosing conditional, when `target` is the first element of its view.
pub open spec fn cond_copies(
    cond: Option<(XrefId, XrefId)>,
    target: XrefId,
    f: spec_fn(XrefId) -> Seq<SExtracted>,
) -> Seq<SExtracted> {
    match cond {
        Some(p) => if p.0 == target {
            f(p.1)
        } else {
            Seq::empty()
        },
        None => Seq::empty(),
    }
}

/// What an attribute operation yields: the attributes extracted for its target, those for an
/// enclosing conditional, and whether the operation leaves the update list.
pub open spec fn spec_extract_attribute(
    a: SAttribute,
    compat: CompatibilityMode,
    create: Seq<SCreateOp>,
    cond: Option<(XrefId, XrefId)>,
) -> (Seq<SExtracted>, Seq<SExtracted>, bool) {
    match a.expression {
        SBindingExpr::Interpolation(_) => (Seq::empty(), Seq::empty(), false),
        SBindingExpr::Expression(e) => if !extractable(a, e, compat) {
            (Seq::empty(), Seq::empty(), false)
        } else {
            let kind = attribute_binding_kind(a, create);
            match e {
                SExpr::Literal { value: SLit::String(v), .. } => if kind == BindingKind::ClassName {
                    (
                        class_extracted(a, a.target, v),
                        cond_copies(cond, a.target, |x: XrefId| class_extracted(a, x, v)),
                        true,
                    )
                } else if kind == BindingKind::StyleProperty {
                    (
                        style_extracted(a, a.target, v),
                        cond_copies(cond, a.target, |x: XrefId| style_extracted(a, x, v)),
                        true,
                    )
                } else {
                    (seq![plain_extracted(a, kind, e)], Seq::empty(), true)
                },
                _ => (seq![plain_extracted(a, kind, e)], Seq::empty(), true),
            }
        },
    }
}

/// The attribute extracted whole, under `kind`.
pub open spec fn plain_extracted(a: SAttribute, kind: BindingKind, e: SExpr) -> SExtracted {
    mk_extracted(
        a.target,
        kind,
        a.namespace,
        a.name,
        Some(e),
        a.i18n_context,
        a.i18n_message,
        a.security_context,
        a.source_span,
    )
}

/// A style or class binding's name, extracted under the property kind.
pub open spec fn prop_name_extracted(
    target: XrefId,
    name: Seq<char>,
    context: SecurityContext,
    source_span: Option<SpecSpan>,
) -> SExtracted {
    mk_extracted(target, BindingKind::Property, None, name, None, None, None, seq![context], source_span)
}

/// The binding kind under which a property's name is extracted.
pub open spec fn property_kind(p: SProperty) -> BindingKind {
    if p.i18n_message is Some && p.template_kind is None {
        BindingKind::I18n
    } else if p.is_structural_template_attribute {
        BindingKind::Template
    } else {
        BindingKind::Property
    }
}

/// What one update operation yields: the attributes extracted for its target, those for an
/// enclosing conditional, and whether the operation leaves the list. Properties, two-way
/// properties and controls are extracted for templates only, not for host bindings.
pub open spec fn spec_extract_op(
    op: SUpdateOp,
    compat: CompatibilityMode,
    create: Seq<SCreateOp>,
    cond: Option<(XrefId, XrefId)>,
    host: bool,
) -> (Seq<SExtracted>, Seq<SExtracted>, bool) {
    let tdb = compat == CompatibilityMode::TemplateDefinitionBuilder;
    match op {
        SUpdateOp::Property(p) => if !host && p.binding_kind != BindingKind::LegacyAnimation && p.binding_kind
            != BindingKind::Animation {
            let kind = property_kind(p);
            (
                seq![mk_extracted(p.target, kind, None, p.name, None, p.i18n_context, None, p.security_context, p.source_span)],
                cond_copies(
                    cond,
                    p.target,
                    |x: XrefId| seq![mk_extracted(x, kind, None, p.name, None, p.i18n_context, None, p.security_context, p.source_span)],
                ),
                false,
            )
        } else {
            (Seq::empty(), Seq::empty(), false)
        },
        SUpdateOp::Control { target, security_context, .. } => if !host {
            (
                seq![mk_extracted(target, BindingKind::Property, None, "field"@, None, None, None, security_context, None)],
                Seq::empty(),
                false,
            )
        } else {
            (Seq::empty(), Seq::empty(), false)
        },
        SUpdateOp::TwoWayProperty { target, name, security_context, .. } => if !host {
            (
                seq![mk_extracted(target, BindingKind::TwoWayProperty, None, name, None, None, None, security_context, None)],
                Seq::empty(),
                false,
            )
        } else {
            (Seq::empty(), Seq::empty(), false)
        },
        SUpdateOp::Attribute(a) => spec_extract_attribute(a, compat, create, cond),
        SUpdateOp::StyleProp { target, name, expression, source_span, .. } => (
            if tdb && (expression matches SBindingExpr::Expression(e) && e is Empty) {
                seq![prop_name_extracted(target, name, SecurityContext::STYLE, source_span)]
            } else {
                Seq::empty()
            },
            cond_copies(cond, target, |x: XrefId| seq![prop_name_extracted(x, name, SecurityContext::STYLE, source_span)]),
            false,
        ),
        SUpdateOp::ClassProp { target, name, expression, source_span } => (
            if tdb && expression is Empty {
                seq![prop_name_extracted(target, name, SecurityContext::STYLE, source_span)]
            } else {
                Seq::empty()
            },
            cond_copies(cond, target, |x: XrefId| seq![prop_name_extracted(x, name, SecurityContext::NONE, source_span)]),
            false,
        ),
        _ => (Seq::empty(), Seq::empty(), false),
    }
}

/// The declaration of one piece of a style string.
fn style_decl_of(d: &Vec<char>) -> (r: Option<(Vec<char>, Vec<char>)>)
    ensures
        match r {
            Some(p) => style_decl(d@) == Some((p.0@, p.1@)),
            None => style_decl(d@) is None,
        },
{
    let t = trim(d.as_slice());
    if t.len() == 0 {
        return None;
    }
    match find_char(t.as_slice(), ':') {
        Some(i) => {
            proof {
                crate::text::lemma_first_index_of(t@, ':');
            }
            let head = slice_chars(t.as_slice(), 0, i);
            let name = trim(head.as_slice());
            proof {
                assert(head@ =~= t@.take(i as int));
            }
            if name.len() == 0 {
                None
            } else {
                let tail = slice_chars(t.as_slice(), i + 1, t.len());
                let value = trim(tail.as_slice());
                proof {
                    assert(tail@ =~= t@.skip(i + 1));
                }
                Some((name, value))
            }
        },
        None => None,
    }
}

/// An extracted attribute for each class name of a static `class` value.
fn class_attrs(a: &AttributeOp, target: XrefId, value: &String) -> (r: Vec<ExtractedAttributeOp>)
    ensures
        extracted_list_view(r@) == class_extracted(attribute_view(*a), target, value@),
{
    let chars = chars_of(value.as_str());
    let words = split_whitespace(chars.as_slice());
    let ghost ws = spec_words(value@);
    let ghost av = attribute_view(*a);
    let mut r: Vec<ExtractedAttributeOp> = Vec::new();
    let mut i: usize = 0;
    while i < words.len()
        invariant
            i <= words@.len(),
            words@.len() == ws.len(),
            ws == spec_words(value@),
            av == attribute_view(*a),
            forall|j: int| 0 <= j < words@.len() ==> #[trigger] words@[j]@ == ws[j],
            r@.len() == i,
            forall|j: int| 0 <= j < i ==> extracted_view(#[trigger] r@[j]) == class_extracted(av, target, value@)[j],
        decreases words@.len() - i,
    {
        let w = string_of(&words[i], 0, words[i].len());
        proof {
            assert(words@[i as int]@.subrange(0, words@[i as int]@.len() as int) =~= words@[i as int]@);
        }
        r.push(
            ExtractedAttributeOp {
                target,
                binding_kind: BindingKind::ClassName,
                namespace: clone_opt_string(&a.namespace),
                name: w,
                expression: None,
                i18n_context: a.i18n_context,
                i18n_message: clone_opt_string(&a.i18n_message),
                security_context: clone_contexts(&a.security_context),
                trusted_value_fn: None,
                source_span: clone_opt_span(&a.source_span),
            },
        );
        i += 1;
    }
    assert(extracted_list_view(r@) =~= class_extracted(av, target, value@));
    r
}

/// The extracted attribute of one style declaration.
pub open spec fn style_item(a: SAttribute, target: XrefId, p: (Seq<char>, Seq<char>)) -> SExtracted {
    mk_extracted(
        target,
        BindingKind::StyleProperty,
        a.namespace,
        p.0,
        Some(string_literal(p.1)),
        a.i18n_context,
        a.i18n_message,
        a.security_context,
        a.source_span,
    )
}

/// An extracted attribute for each declaration of a static `style` value.
fn style_attrs(a: &AttributeOp, target: XrefId, value: &String) -> (r: Vec<ExtractedAttributeOp>)
    ensures
        extracted_list_view(r@) == style_extracted(attribute_view(*a), target, value@),
{
    let chars = chars_of(value.as_str());
    let pieces = split_char(chars.as_slice(), ';');
    let ghost ps = spec_split_char(value@, ';');
    let ghost av = attribute_view(*a);
    let mut r: Vec<ExtractedAttributeOp> = Vec::new();
    let mut i: usize = 0;
    assert(ps.take(0) =~= Seq::<Seq<char>>::empty());
    assert(extracted_list_view(r@) =~= style_decls(ps.take(0)).map_values(|p: (Seq<char>, Seq<char>)| style_item(av, target, p)));
    while i < pieces.len()
        invariant
            i <= pieces@.len(),
            pieces@.len() == ps.len(),
            ps == spec_split_char(value@, ';'),
            av == attribute_view(*a),
            forall|j: int| 0 <= j < pieces@.len() ==> #[trigger] pieces@[j]@ == ps[j],
            extracted_list_view(r@) == style_decls(ps.take(i as int)).map_values(|p: (Seq<char>, Seq<char>)| style_item(av, target, p)),
        decreases pieces@.len() - i,
    {
        let ghost before = r@;
        proof {
            assert(ps.take(i + 1).drop_last() =~= ps.take(i as int));
            assert(ps.take(i + 1).last() == ps[i as int]);
        }
        match style_decl_of(&pieces[i]) {
            Some(p) => {
                let name = string_of(&p.0, 0, p.0.len());
                let value_str = string_of(&p.1, 0, p.1.len());
                proof {
                    assert(p.0@.subrange(0, p.0@.len() as int) =~= p.0@);
                    assert(p.1@.subrange(0, p.1@.len() as int) =~= p.1@);
                }
                let e = ExtractedAttributeOp {
                    target,
                    binding_kind: BindingKind::StyleProperty,
                    namespace: clone_opt_string(&a.namespace),
                    name,
                    expression: Some(
                        Expression::Literal(LiteralExpr { value: LiteralValue::String(value_str), source_span: None }),
                    ),
                    i18n_context: a.i18n_context,
                    i18n_message: clone_opt_string(&a.i18n_message),
                    security_context: clone_contexts(&a.security_context),
                    trusted_value_fn: None,
                    source_span: clone_opt_span(&a.source_span),
                };
                r.push(e);
                proof {
                    assert(extracted_view(e) == style_item(av, target, (p.0@, p.1@)));
                    assert(extracted_list_view(r@) =~= extracted_list_view(before).push(extracted_view(e)));
                    assert(style_decls(ps.take(i + 1)) =~= style_decls(ps.take(i as int)).push((p.0@, p.1@)));
                    assert(extracted_list_view(r@) =~= style_decls(ps.take(i + 1)).map_values(|p: (Seq<char>, Seq<char>)| style_item(av, target, p)));
                }
            },
            None => {
                proof {
                    assert(style_decls(ps.take(i + 1)) =~= style_decls(ps.take(i as int)));
                }
            },
        }
        i += 1;
    }
    assert(ps.take(pieces@.len() as int) =~= ps);
    assert(extracted_list_view(r@) =~= style_extracted(av, target, value@));
    r
}

/// Whether a creation list holds a template declared with xref `x`.
fn holds_template(create: &Vec<CreateOp>, x: XrefId) -> (r: bool)
    ensures
        r == has_template(create_ops_view(create@), x),
{
    proof {
        lemma_create_ops_view_len(create@);
    }
    let ghost cv = create_ops_view(create@);
    let mut i: usize = 0;
    while i < create.len()
        invariant
            i <= create@.len(),
            cv == create_ops_view(create@),
            cv.len() == create@.len(),
            forall|j: int| 0 <= j < i ==> !(#[trigger] cv[j] matches SCreateOp::Template(b) && b.xref == x),
        decreases create@.len() - i,
    {
        proof {
            lemma_create_ops_view_index(create@, i as int);
        }
        match &create[i] {
            CreateOp::Template(b) => {
                if b.xref == x {
                    assert(cv[i as int] matches SCreateOp::Template(b) && b.xref == x);
                    return true;
                }
            },
            _ => {},
        }
        i += 1;
    }
    false
}

/// An empty list of extracted attributes.
fn no_attrs() -> (r: Vec<ExtractedAttributeOp>)
    ensures
        extracted_list_view(r@) == Seq::<SExtracted>::empty(),
{
    let r: Vec<ExtractedAttributeOp> = Vec::new();
    assert(extracted_list_view(r@) =~= Seq::<SExtracted>::empty());
    r
}

/// What an attribute operation yields.
fn extract_attribute(
    a: &AttributeOp,
    compat: CompatibilityMode,
    create: &Vec<CreateOp>,
    cond: Option<(XrefId, XrefId)>,
) -> (r: (Vec<ExtractedAttributeOp>, Vec<ExtractedAttributeOp>, bool))
    ensures
        (extracted_list_view(r.0@), extracted_list_view(r.1@), r.2) == spec_extract_attribute(
            attribute_view(*a),
            compat,
            create_ops_view(create@),
            cond,
        ),
{
    let ghost av = attribute_view(*a);
    match &a.expression {
        BindingExpression::Interpolation(_) => (no_attrs(), no_attrs(), false),
        BindingExpression::Expression(e) => {
            let ext = if compat == CompatibilityMode::TemplateDefinitionBuilder {
                a.is_text_attribute
            } else {
                a.is_text_attribute || is_constant(e)
            };
            if !ext {
                return (no_attrs(), no_attrs(), false);
            }
            let kind = if str_eq(a.name.as_str(), "class") {
                if holds_template(create, a.target) {
                    BindingKind::Attribute
                } else {
                    BindingKind::ClassName
                }
            } else if str_eq(a.name.as_str(), "style") {
                BindingKind::StyleProperty
            } else if a.is_structural_template_attribute {
                BindingKind::Template
            } else {
                BindingKind::Attribute
            };
            assert(kind == attribute_binding_kind(av, create_ops_view(create@)));
            match e {
                Expression::Literal(l) => {
                    match &l.value {
                        LiteralValue::String(v) => {
                            if kind == BindingKind::ClassName {
                                let main = class_attrs(a, a.target, v);
                                let c = match cond {
                                    Some(p) => if p.0 == a.target {
                                        class_attrs(a, p.1, v)
                                    } else {
                                        no_attrs()
                                    },
                                    None => no_attrs(),
                                };
                                return (main, c, true);
                            } else if kind == BindingKind::StyleProperty {
                                let main = style_attrs(a, a.target, v);
                                let c = match cond {
                                    Some(p) => if p.0 == a.target {
                                        style_attrs(a, p.1, v)
                                    } else {
                                        no_attrs()
                                    },
                                    None => no_attrs(),
                                };
                                return (main, c, true);
                            }
                        },
                        _ => {},
                    }
                },
                _ => {},
            }
            let one = ExtractedAttributeOp {
                target: a.target,
                binding_kind: kind,
                namespace: clone_opt_string(&a.namespace),
                name: a.name.clone(),
                expression: Some(clone_expr(e)),
                i18n_context: a.i18n_context,
                i18n_message: clone_opt_string(&a.i18n_message),
                security_context: clone_contexts(&a.security_context),
                trusted_value_fn: None,
                source_span: clone_opt_span(&a.source_span),
            };
            let mut main: Vec<ExtractedAttributeOp> = Vec::new();
            main.push(one);
            assert(extracted_list_view(main@) =~= seq![plain_extracted(av, kind, expr_view(*e))]);
            (main, no_attrs(), true)
        },
    }
}

/// The name of a style or class binding, extracted under the property kind.
fn name_attr(
    target: XrefId,
    kind: BindingKind,
    name: &String,
    i18n_context: Option<XrefId>,
    security_context: &Vec<SecurityContext>,
    source_span: &Option<crate::parse_util::ParseSourceSpan>,
) -> (r: ExtractedAttributeOp)
    ensures
        extracted_view(r) == mk_extracted(
            target,
            kind,
            None,
            name@,
            None,
            i18n_context,
            None,
            security_context@,
            opt_span_view(*source_span),
        ),
{
    ExtractedAttributeOp {
        target,
        binding_kind: kind,
        namespace: None,
        name: name.clone(),
        expression: None,
        i18n_context,
        i18n_message: None,
        security_context: clone_contexts(security_context),
        trusted_value_fn: None,
        source_span: clone_opt_span(source_span),
    }
}

fn prop_name_attr(
    target: XrefId,
    name: &String,
    context: SecurityContext,
    source_span: &Option<crate::parse_util::ParseSourceSpan>,
) -> (r: ExtractedAttributeOp)
    ensures
        extracted_view(r) == prop_name_extracted(target, name@, context, opt_span_view(*source_span)),
{
    let mut sc: Vec<SecurityContext> = Vec::new();
    sc.push(context);
    let r = ExtractedAttributeOp {
        target,
        binding_kind: BindingKind::Property,
        namespace: None,
        name: name.clone(),
        expression: None,
        i18n_context: None,
        i18n_message: None,
        security_context: sc,
        trusted_value_fn: None,
        source_span: clone_opt_span(source_span),
    };
    assert(sc@ =~= seq![context]);
    r
}

/// A list of one extracted attribute.
fn one_attr(e: ExtractedAttributeOp) -> (r: Vec<ExtractedAttributeOp>)
    ensures
        extracted_list_view(r@) == seq![extracted_view(e)],
{
    let mut r: Vec<ExtractedAttributeOp> = Vec::new();
    r.push(e);
    assert(extracted_list_view(r@) =~= seq![extracted_view(e)]);
    r
}

/// What one update operation of a host binding job yields.
fn extract_op(
    op: &UpdateOp,
    compat: CompatibilityMode,
    create: &Vec<CreateOp>,
    cond: Option<(XrefId, XrefId)>,
    host: bool,
) -> (r: (Vec<ExtractedAttributeOp>, Vec<ExtractedAttributeOp>, bool))
    ensures
        (extracted_list_view(r.0@), extracted_list_view(r.1@), r.2) == spec_extract_op(
            update_op_view(*op),
            compat,
            create_ops_view(create@),
            cond,
            host,
        ),
{
    let tdb = compat == CompatibilityMode::TemplateDefinitionBuilder;
    match op {
        UpdateOp::Property(p) => {
            if !host && p.binding_kind != BindingKind::LegacyAnimation && p.binding_kind != BindingKind::Animation {
                let kind = if p.i18n_message.is_some() && p.template_kind.is_none() {
                    BindingKind::I18n
                } else if p.is_structural_template_attribute {
                    BindingKind::Template
                } else {
                    BindingKind::Property
                };
                let main = one_attr(name_attr(p.target, kind, &p.name, p.i18n_context, &p.security_context, &p.source_span));
                let c = match cond {
                    Some(q) => if q.0 == p.target {
                        one_attr(name_attr(q.1, kind, &p.name, p.i18n_context, &p.security_context, &p.source_span))
                    } else {
                        no_attrs()
                    },
                    None => no_attrs(),
                };
                (main, c, false)
            } else {
                (no_attrs(), no_attrs(), false)
            }
        },
        UpdateOp::Control { target, security_context, .. } => {
            if !host {
                let field = "field".to_string();
                (one_attr(name_attr(*target, BindingKind::Property, &field, None, security_context, &None)), no_attrs(), false)
            } else {
                (no_attrs(), no_attrs(), false)
            }
        },
        UpdateOp::TwoWayProperty { target, name, security_context, .. } => {
            if !host {
                (one_attr(name_attr(*target, BindingKind::TwoWayProperty, name, None, security_context, &None)), no_attrs(), false)
            } else {
                (no_attrs(), no_attrs(), false)
            }
        },
        UpdateOp::Attribute(a) => extract_attribute(a, compat, create, cond),
        UpdateOp::StyleProp { target, name, expression, source_span, .. } => {
            let empty_value = match expression {
                BindingExpression::Expression(Expression::Empty { .. }) => true,
                _ => false,
            };
            let main = if tdb && empty_value {
                one_attr(prop_name_attr(*target, name, SecurityContext::STYLE, source_span))
            } else {
                no_attrs()
            };
            let c = match cond {
                Some(p) => if p.0 == *target {
                    one_attr(prop_name_attr(p.1, name, SecurityContext::STYLE, source_span))
                } else {
                    no_attrs()
                },
                None => no_attrs(),
            };
            (main, c, false)
        },
        UpdateOp::ClassProp { target, name, expression, source_span } => {
            let empty_value = match expression {
                Expression::Empty { .. } => true,
                _ => false,
            };
            let main = if tdb && empty_value {
                one_attr(prop_name_attr(*target, name, SecurityContext::STYLE, source_span))
            } else {
                no_attrs()
            };
            let c = match cond {
                Some(p) => if p.0 == *target {
                    one_attr(prop_name_attr(p.1, name, SecurityContext::NONE, source_span))
                } else {
                    no_attrs()
                },
                None => no_attrs(),
            };
            (main, c, false)
        },
        _ => (no_attrs(), no_attrs(), false),
    }
}

// ---------------------------------------------------------------------------------------------
// The whole unit
// ---------------------------------------------------------------------------------------------

/// What the update list yields, operation by operation: the attributes extracted for their
/// targets, those for an enclosing conditional, and the operations that stay.
pub open spec fn spec_extract_ops(
    ops: Seq<SUpdateOp>,
    compat: CompatibilityMode,
    create: Seq<SCreateOp>,
    cond: Option<(XrefId, XrefId)>,
    host: bool,
) -> (Seq<SExtracted>, Seq<SExtracted>, Seq<SUpdateOp>)
    decreases ops.len(),
{
    if ops.len() == 0 {
        (Seq::empty(), Seq::empty(), Seq::empty())
    } else {
        let prev = spec_extract_ops(ops.drop_last(), compat, create, cond, host);
        let cur = spec_extract_op(ops.last(), compat, create, cond, host);
        (prev.0 + cur.0, prev.1 + cur.1, if cur.2 { prev.2 } else { prev.2.push(ops.last()) })
    }
}

/// Whether some creation operation of `s` declares xref `x`.
pub open spec fn declares(s: Seq<SCreateOp>, x: XrefId) -> bool {
    exists|k: int| 0 <= k < s.len() && #[trigger] spec_create_xref(s[k]) == Some(x)
}

/// The attributes of `m` for target `x`, in order.
pub open spec fn for_target(m: Seq<SExtracted>, x: XrefId) -> Seq<SExtracted>
    decreases m.len(),
{
    if m.len() == 0 {
        Seq::empty()
    } else {
        for_target(m.drop_last(), x) + if m.last().target == x {
            seq![m.last()]
        } else {
            Seq::empty()
        }
    }
}

/// Extracted attributes as creation operations.
pub open spec fn as_create_ops(m: Seq<SExtracted>) -> Seq<SCreateOp> {
    m.map_values(|e: SExtracted| SCreateOp::ExtractedAttribute(e))
}

/// The creation list with the first operation that declares each xref followed by the
/// attributes extracted for that xref.
pub open spec fn with_attributes(create: Seq<SCreateOp>, m: Seq<SExtracted>) -> Seq<SCreateOp>
    decreases create.len(),
{
    if create.len() == 0 {
        Seq::empty()
    } else {
        let op = create.last();
        with_attributes(create.drop_last(), m).push(op) + match spec_create_xref(op) {
            Some(x) => if declares(create.drop_last(), x) {
                Seq::empty()
            } else {
                as_create_ops(for_target(m, x))
            },
            None => Seq::empty(),
        }
    }
}

/// Whether some of the first `n` attributes of `m` has target `t`.
pub open spec fn appears(m: Seq<SExtracted>, n: int, t: XrefId) -> bool {
    exists|j: int| 0 <= j < n && #[trigger] m[j].target == t
}

/// The attributes of the first `n` of `m` whose target no creation operation declares, grouped
/// by target in the order in which the targets first appear.
pub open spec fn leftovers(m: Seq<SExtracted>, n: int, create: Seq<SCreateOp>) -> Seq<SExtracted>
    decreases n,
{
    if n <= 0 {
        Seq::empty()
    } else {
        let t = m[n - 1].target;
        leftovers(m, n - 1, create) + if !declares(create, t) && !appears(m, n - 1, t) {
            for_target(m, t)
        } else {
            Seq::empty()
        }
    }
}

/// Whether a creation operation is a conditional (or conditional branch) declared with xref `x`.
pub open spec fn is_cond_op(op: SCreateOp, x: XrefId) -> bool {
    (op is ConditionalCreate || op is ConditionalBranchCreate) && spec_create_xref(op) == Some(x)
}

/// The list with the first conditional declared with xref `x` followed by the attributes `c`.
pub open spec fn with_cond(s: Seq<SCreateOp>, x: XrefId, c: Seq<SExtracted>) -> Seq<SCreateOp>
    decreases s.len(),
{
    if s.len() == 0 {
        Seq::empty()
    } else {
        let op = s.last();
        with_cond(s.drop_last(), x, c).push(op) + if is_cond_op(op, x) && !has_cond_op(s.drop_last(), x) {
            as_create_ops(c)
        } else {
            Seq::empty()
        }
    }
}

/// Whether the list holds a conditional declared with xref `x`.
pub open spec fn has_cond_op(s: Seq<SCreateOp>, x: XrefId) -> bool {
    exists|k: int| 0 <= k < s.len() && #[trigger] is_cond_op(s[k], x)
}

/// The xref of the first element of the list.
pub open spec fn first_element(s: Seq<SCreateOp>) -> Option<XrefId>
    decreases s.len(),
{
    if s.len() == 0 {
        None
    } else {
        match first_element(s.drop_last()) {
            Some(x) => Some(x),
            None => match s.last() {
                SCreateOp::ElementStart(b) => Some(b.xref),
                SCreateOp::Element(b) => Some(b.xref),
                _ => None,
            },
        }
    }
}

/// When the unit is itself the view of a conditional, its first element and that conditional.
pub open spec fn spec_cond(create: Seq<SCreateOp>, unit_xref: XrefId) -> Option<(XrefId, XrefId)> {
    if has_cond_op(create, unit_xref) {
        match first_element(create) {
            Some(child) => Some((child, unit_xref)),
            None => None,
        }
    } else {
        None
    }
}

/// The creation and update lists of a host unit after attribute extraction: the extracted
/// attributes follow the operation that declares their target (or, when none does, end the
/// list, grouped by target), those for an enclosing conditional follow it, and the attribute
/// operations that were extracted leave the update list.
#[verifier::opaque]
pub open spec fn spec_extract_unit(
    create: Seq<SCreateOp>,
    update: Seq<SUpdateOp>,
    compat: CompatibilityMode,
    unit_xref: XrefId,
) -> (Seq<SCreateOp>, Seq<SUpdateOp>) {
    let cond = spec_cond(create, unit_xref);
    let r = spec_extract_ops(update, compat, create, cond, true);
    let placed = with_attributes(create, r.0) + as_create_ops(leftovers(r.0, r.0.len() as int, create));
    (with_cond(placed, unit_xref, r.1), r.2)
}

/// The xref that a creation operation declares.
fn create_xref(op: &CreateOp) -> (r: Option<XrefId>)
    ensures
        r == spec_create_xref(create_op_view(*op)),
{
    match op {
        CreateOp::ElementStart(b) => Some(b.xref),
        CreateOp::Element(b) => Some(b.xref),
        CreateOp::Template(b) => Some(b.xref),
        CreateOp::ContainerStart(b) => Some(b.xref),
        CreateOp::Container(b) => Some(b.xref),
        CreateOp::RepeaterCreate(b) => Some(b.xref),
        CreateOp::ConditionalCreate(b) => Some(b.xref),
        CreateOp::ConditionalBranchCreate(b) => Some(b.xref),
        CreateOp::Projection { xref, .. } => Some(*xref),
        _ => None,
    }
}

/// Extract from each update operation in turn.
fn extract_ops(
    ops: Vec<UpdateOp>,
    compat: CompatibilityMode,
    create: &Vec<CreateOp>,
    cond: Option<(XrefId, XrefId)>,
    host: bool,
) -> (r: (Vec<ExtractedAttributeOp>, Vec<ExtractedAttributeOp>, Vec<UpdateOp>))
    ensures
        (extracted_list_view(r.0@), extracted_list_view(r.1@), update_ops_view(r.2@)) == spec_extract_ops(
            update_ops_view(ops@),
            compat,
            create_ops_view(create@),
            cond,
            host,
        ),
{
    let ghost old_ops = ops@;
    let ghost cv = create_ops_view(create@);
    let mut ops = ops;
    let n = ops.len();
    let mut main: Vec<ExtractedAttributeOp> = Vec::new();
    let mut conds: Vec<ExtractedAttributeOp> = Vec::new();
    let mut kept: Vec<UpdateOp> = Vec::new();
    let mut i: usize = 0;
    proof {
        assert(old_ops.take(0) =~= Seq::<UpdateOp>::empty());
        assert(update_ops_view(old_ops.take(0)) =~= Seq::<SUpdateOp>::empty());
        assert(extracted_list_view(main@) =~= Seq::<SExtracted>::empty());
        assert(extracted_list_view(conds@) =~= Seq::<SExtracted>::empty());
        assert(update_ops_view(kept@) =~= Seq::<SUpdateOp>::empty());
    }
    while i < n
        invariant
            n == old_ops.len(),
            i <= n,
            ops@ == old_ops.skip(i as int),
            cv == create_ops_view(create@),
            (extracted_list_view(main@), extracted_list_view(conds@), update_ops_view(kept@)) == spec_extract_ops(
                update_ops_view(old_ops.take(i as int)),
                compat,
                cv,
                cond,
                host,
            ),
        decreases n - i,
    {
        let op = ops.remove(0);
        assert(op == old_ops[i as int]);
        proof {
            assert(old_ops.take(i + 1) =~= old_ops.take(i as int).push(op));
            lemma_update_ops_view_push(old_ops.take(i as int), op);
            let s = update_ops_view(old_ops.take(i as int)).push(update_op_view(op));
            assert(s.drop_last() =~= update_ops_view(old_ops.take(i as int)));
            assert(s.last() == update_op_view(op));
        }
        let (mut m1, mut c1, rm) = extract_op(&op, compat, create, cond, host);
        let ghost main0 = main@;
        let ghost conds0 = conds@;
        let ghost m1v = m1@;
        let ghost c1v = c1@;
        main.append(&mut m1);
        conds.append(&mut c1);
        proof {
            assert(extracted_list_view(main@) =~= extracted_list_view(main0) + extracted_list_view(m1v));
            assert(extracted_list_view(conds@) =~= extracted_list_view(conds0) + extracted_list_view(c1v));
        }
        if !rm {
            let ghost kept0 = kept@;
            kept.push(op);
            proof {
                lemma_update_ops_view_push(kept0, op);
            }
        }
        proof {
            assert(ops@ =~= old_ops.skip(i + 1));
        }
        i += 1;
    }
    proof {
        assert(old_ops.take(n as int) =~= old_ops);
    }
    (main, conds, kept)
}

/// Append the attributes of `m` for target `x`, as creation operations.
fn push_for_target(out: &mut Vec<CreateOp>, m: &Vec<ExtractedAttributeOp>, x: XrefId)
    ensures
        create_ops_view(final(out)@) == create_ops_view(old(out)@) + as_create_ops(
            for_target(extracted_list_view(m@), x),
        ),
{
    let ghost mv = extracted_list_view(m@);
    let ghost out0 = create_ops_view(out@);
    let mut j: usize = 0;
    proof {
        assert(mv.take(0) =~= Seq::<SExtracted>::empty());
        assert(out0 + as_create_ops(for_target(mv.take(0), x)) =~= out0);
    }
    while j < m.len()
        invariant
            j <= m@.len(),
            mv == extracted_list_view(m@),
            mv.len() == m@.len(),
            create_ops_view(out@) == out0 + as_create_ops(for_target(mv.take(j as int), x)),
        decreases m@.len() - j,
    {
        proof {
            assert(mv.take(j + 1).drop_last() =~= mv.take(j as int));
            assert(mv.take(j + 1).last() == extracted_view(m@[j as int]));
        }
        if m[j].target == x {
            let e = clone_extracted(&m[j]);
            let ghost before = out@;
            out.push(CreateOp::ExtractedAttribute(e));
            proof {
                lemma_create_ops_view_push(before, CreateOp::ExtractedAttribute(e));
                assert(as_create_ops(for_target(mv.take(j + 1), x)) =~= as_create_ops(for_target(mv.take(j as int), x)).push(
                    SCreateOp::ExtractedAttribute(extracted_view(e)),
                ));
                assert(create_ops_view(out@) =~= out0 + as_create_ops(for_target(mv.take(j + 1), x)));
            }
        } else {
            proof {
                assert(for_target(mv.take(j + 1), x) =~= for_target(mv.take(j as int), x));
            }
        }
        j += 1;
    }
    proof {
        assert(mv.take(m@.len() as int) =~= mv);
    }
}

proof fn lemma_seen_step(t: Seq<SCreateOp>, seen0: Seq<XrefId>, seen1: Seq<XrefId>, x: Option<XrefId>)
    requires
        t.len() > 0,
        forall|y: XrefId| seen0.contains(y) <==> declares(t.drop_last(), y),
        x == spec_create_xref(t.last()),
        seen1 == match x {
            Some(v) => seen0.push(v),
            None => seen0,
        },
    ensures
        forall|y: XrefId| seen1.contains(y) <==> declares(t, y),
{
    let d = t.drop_last();
    assert forall|y: XrefId| seen1.contains(y) <==> declares(t, y) by {
        if declares(t, y) {
            let k = choose|k: int| 0 <= k < t.len() && #[trigger] spec_create_xref(t[k]) == Some(y);
            if k < t.len() - 1 {
                assert(d[k] == t[k]);
                assert(declares(d, y));
                assert(seen0.contains(y));
                let l = choose|l: int| 0 <= l < seen0.len() && seen0[l] == y;
                assert(seen1[l] == y);
            } else {
                assert(seen1[seen1.len() - 1] == y);
            }
        }
        if seen1.contains(y) {
            let l = choose|l: int| 0 <= l < seen1.len() && seen1[l] == y;
            if l < seen0.len() {
                assert(seen0[l] == y);
                assert(seen0.contains(y));
                let k = choose|k: int| 0 <= k < d.len() && #[trigger] spec_create_xref(d[k]) == Some(y);
                assert(t[k] == d[k]);
            } else {
                assert(spec_create_xref(t[t.len() - 1]) == Some(y));
            }
        }
    }
}

fn contains_xref(v: &Vec<XrefId>, x: XrefId) -> (r: bool)
    ensures
        r == v@.contains(x),
{
    let mut i: usize = 0;
    while i < v.len()
        invariant
            i <= v@.len(),
            forall|j: int| 0 <= j < i ==> v@[j] != x,
        decreases v@.len() - i,
    {
        if v[i] == x {
            assert(v@[i as int] == x);
            return true;
        }
        i += 1;
    }
    false
}

/// Whether some of the first `k` attributes has target `t`.
fn appears_before(m: &Vec<ExtractedAttributeOp>, k: usize, t: XrefId) -> (r: bool)
    requires
        k <= m@.len(),
    ensures
        r == appears(extracted_list_view(m@), k as int, t),
{
    let ghost mv = extracted_list_view(m@);
    let mut j: usize = 0;
    while j < k
        invariant
            j <= k <= m@.len(),
            mv == extracted_list_view(m@),
            forall|l: int| 0 <= l < j ==> (#[trigger] mv[l]).target != t,
        decreases k - j,
    {
        assert(mv[j as int].target == m@[j as int].target);
        if m[j].target == t {
            assert(mv[j as int].target == t);
            return true;
        }
        j += 1;
    }
    false
}

/// Place the extracted attributes after the operations that declare their targets, and the
/// rest at the end.
fn place_attributes(create: Vec<CreateOp>, m: &Vec<ExtractedAttributeOp>, with_leftovers: bool) -> (r: Vec<CreateOp>)
    ensures
        with_leftovers ==> create_ops_view(r@) == with_attributes(create_ops_view(create@), extracted_list_view(m@))
            + as_create_ops(
            leftovers(extracted_list_view(m@), m@.len() as int, create_ops_view(create@)),
        ),
        !with_leftovers ==> create_ops_view(r@) == with_attributes(create_ops_view(create@), extracted_list_view(m@)),
{
    let ghost c0 = create@;
    let ghost cv = create_ops_view(c0);
    let ghost mv = extracted_list_view(m@);
    proof {
        lemma_create_ops_view_len(c0);
    }
    let mut create = create;
    let n = create.len();
    let mut out: Vec<CreateOp> = Vec::new();
    let mut seen: Vec<XrefId> = Vec::new();
    let mut i: usize = 0;
    proof {
        assert(cv.take(0) =~= Seq::<SCreateOp>::empty());
        assert(create_ops_view(out@) =~= Seq::<SCreateOp>::empty());
    }
    while i < n
        invariant
            n == c0.len(),
            i <= n,
            create@ == c0.skip(i as int),
            cv == create_ops_view(c0),
            cv.len() == n,
            mv == extracted_list_view(m@),
            create_ops_view(out@) == with_attributes(cv.take(i as int), mv),
            forall|x: XrefId| seen@.contains(x) <==> declares(cv.take(i as int), x),
        decreases n - i,
    {
        let op = create.remove(0);
        assert(op == c0[i as int]);
        proof {
            lemma_create_ops_view_index(c0, i as int);
            assert(cv.take(i + 1).drop_last() =~= cv.take(i as int));
            assert(cv.take(i + 1).last() == create_op_view(op));
        }
        let x = create_xref(&op);
        let ghost before = out@;
        out.push(op);
        proof {
            lemma_create_ops_view_push(before, op);
        }
        let ghost seen0 = seen@;
        match x {
            Some(x) => {
                if !contains_xref(&seen, x) {
                    let ghost mid = out@;
                    push_for_target(&mut out, m, x);
                    assert(create_ops_view(out@) =~= with_attributes(cv.take(i + 1), mv));
                } else {
                    assert(create_ops_view(out@) =~= with_attributes(cv.take(i + 1), mv));
                }
                seen.push(x);
            },
            None => {
                assert(create_ops_view(out@) =~= with_attributes(cv.take(i + 1), mv));
            },
        }
        proof {
            lemma_seen_step(cv.take(i + 1), seen0, seen@, x);
            assert(create@ =~= c0.skip(i + 1));
        }
        i += 1;
    }
    proof {
        assert(cv.take(n as int) =~= cv);
        assert(create_ops_view(out@) =~= with_attributes(cv, mv) + as_create_ops(leftovers(mv, 0, cv)));
    }
    let ghost placed = with_attributes(cv, mv);
    if !with_leftovers {
        proof {
            assert(as_create_ops(leftovers(mv, 0, cv)) =~= Seq::<SCreateOp>::empty());
            assert(create_ops_view(out@) =~= placed);
        }
        return out;
    }
    let mlen = m.len();
    let mut k: usize = 0;
    while k < mlen
        invariant
            k <= mlen == m@.len(),
            mv == extracted_list_view(m@),
            mv.len() == m@.len(),
            placed == with_attributes(cv, mv),
            create_ops_view(out@) == placed + as_create_ops(leftovers(mv, k as int, cv)),
            forall|x: XrefId| seen@.contains(x) <==> declares(cv, x),
        decreases mlen - k,
    {
        let t = m[k].target;
        assert(mv[k as int].target == t);
        let ghost before = create_ops_view(out@);
        if !contains_xref(&seen, t) && !appears_before(m, k, t) {
            push_for_target(&mut out, m, t);
            assert(create_ops_view(out@) =~= placed + as_create_ops(leftovers(mv, k + 1, cv)));
        } else {
            assert(leftovers(mv, k + 1, cv) =~= leftovers(mv, k as int, cv));
        }
        k += 1;
    }
    out
}

proof fn lemma_first_element_prefix(s: Seq<SCreateOp>, k: int)
    requires
        0 <= k <= s.len(),
        first_element(s.take(k)) is Some,
    ensures
        first_element(s) == first_element(s.take(k)),
    decreases s.len(),
{
    if k < s.len() {
        assert(s.drop_last().take(k) =~= s.take(k));
        lemma_first_element_prefix(s.drop_last(), k);
    } else {
        assert(s.take(k) =~= s);
    }
}

/// Whether a creation operation is a conditional declared with xref `x`.
fn is_cond_with(op: &CreateOp, x: XrefId) -> (r: bool)
    ensures
        r == is_cond_op(create_op_view(*op), x),
{
    match op {
        CreateOp::ConditionalCreate(b) => b.xref == x,
        CreateOp::ConditionalBranchCreate(b) => b.xref == x,
        _ => false,
    }
}

/// When the unit is the view of a conditional, its first element and that conditional.
fn find_cond(create: &Vec<CreateOp>, unit_xref: XrefId) -> (r: Option<(XrefId, XrefId)>)
    ensures
        r == spec_cond(create_ops_view(create@), unit_xref),
{
    let ghost cv = create_ops_view(create@);
    proof {
        lemma_create_ops_view_len(create@);
    }
    let n = create.len();
    let mut seen_cond = false;
    let mut i: usize = 0;
    while i < n
        invariant
            n == create@.len(),
            cv == create_ops_view(create@),
            cv.len() == n,
            i <= n,
            seen_cond == exists|k: int| 0 <= k < i && #[trigger] is_cond_op(cv[k], unit_xref),
        decreases n - i,
    {
        proof {
            lemma_create_ops_view_index(create@, i as int);
        }
        if is_cond_with(&create[i], unit_xref) {
            seen_cond = true;
        }
        i += 1;
    }
    if !seen_cond {
        return None;
    }
    let mut j: usize = 0;
    proof {
        assert(cv.take(0) =~= Seq::<SCreateOp>::empty());
    }
    while j < n
        invariant
            n == create@.len(),
            cv == create_ops_view(create@),
            cv.len() == n,
            j <= n,
            has_cond_op(cv, unit_xref),
            first_element(cv.take(j as int)) is None,
        decreases n - j,
    {
        proof {
            lemma_create_ops_view_index(create@, j as int);
            assert(cv.take(j + 1).drop_last() =~= cv.take(j as int));
            assert(cv.take(j + 1).last() == cv[j as int]);
        }
        let found = match &create[j] {
            CreateOp::ElementStart(b) => Some(b.xref),
            CreateOp::Element(b) => Some(b.xref),
            _ => None,
        };
        match found {
            Some(child) => {
                proof {
                    lemma_first_element_prefix(cv, j + 1);
                }
                return Some((child, unit_xref));
            },
            None => {},
        }
        j += 1;
    }
    proof {
        assert(cv.take(n as int) =~= cv);
    }
    None
}

/// Place the attributes `c` after the first conditional declared with xref `x`.
fn place_cond(s: Vec<CreateOp>, x: XrefId, c: Vec<ExtractedAttributeOp>) -> (r: Vec<CreateOp>)
    ensures
        create_ops_view(r@) == with_cond(create_ops_view(s@), x, extracted_list_view(c@)),
{
    let ghost s0 = s@;
    let ghost sv = create_ops_view(s0);
    let ghost cv = extracted_list_view(c@);
    proof {
        lemma_create_ops_view_len(s0);
    }
    let mut s = s;
    let mut c = c;
    let n = s.len();
    let mut out: Vec<CreateOp> = Vec::new();
    let mut found = false;
    let mut i: usize = 0;
    proof {
        assert(sv.take(0) =~= Seq::<SCreateOp>::empty());
        assert(create_ops_view(out@) =~= Seq::<SCreateOp>::empty());
    }
    while i < n
        invariant
            n == s0.len(),
            i <= n,
            s@ == s0.skip(i as int),
            sv == create_ops_view(s0),
            sv.len() == n,
            found == has_cond_op(sv.take(i as int), x),
            !found ==> extracted_list_view(c@) == cv,
            create_ops_view(out@) == with_cond(sv.take(i as int), x, cv),
        decreases n - i,
    {
        let op = s.remove(0);
        assert(op == s0[i as int]);
        proof {
            lemma_create_ops_view_index(s0, i as int);
            assert(sv.take(i + 1).drop_last() =~= sv.take(i as int));
            assert(sv.take(i + 1).last() == create_op_view(op));
        }
        let is_cond = is_cond_with(&op, x);
        let ghost before = out@;
        out.push(op);
        proof {
            lemma_create_ops_view_push(before, op);
        }
        if is_cond && !found {
            let mut taken: Vec<ExtractedAttributeOp> = Vec::new();
            std::mem::swap(&mut taken, &mut c);
            let ghost mid = create_ops_view(out@);
            let m = taken.len();
            let mut j: usize = 0;
            let ghost tv = taken@;
            proof {
                assert(cv.take(0) =~= Seq::<SExtracted>::empty());
                assert(mid + as_create_ops(cv.take(0)) =~= mid);
            }
            while j < m
                invariant
                    j <= m == tv.len(),
                    taken@ == tv.skip(j as int),
                    extracted_list_view(tv) == cv,
                    cv.len() == m,
                    create_ops_view(out@) == mid + as_create_ops(cv.take(j as int)),
                decreases m - j,
            {
                let e = taken.remove(0);
                assert(e == tv[j as int]);
                let ghost before2 = out@;
                out.push(CreateOp::ExtractedAttribute(e));
                proof {
                    lemma_create_ops_view_push(before2, CreateOp::ExtractedAttribute(e));
                    assert(cv[j as int] == extracted_view(e));
                    assert(as_create_ops(cv.take(j + 1)) =~= as_create_ops(cv.take(j as int)).push(
                        SCreateOp::ExtractedAttribute(extracted_view(e)),
                    ));
                    assert(taken@ =~= tv.skip(j + 1));
                }
                j += 1;
            }
            proof {
                assert(cv.take(m as int) =~= cv);
            }
            found = true;
        }
        proof {
            let t = sv.take(i + 1);
            assert(has_cond_op(t, x) == (has_cond_op(sv.take(i as int), x) || is_cond_op(t.last(), x))) by {
                if has_cond_op(t, x) {
                    let k = choose|k: int| 0 <= k < t.len() && #[trigger] is_cond_op(t[k], x);
                    if k < i {
                        assert(sv.take(i as int)[k] == t[k]);
                    }
                }
                if has_cond_op(sv.take(i as int), x) {
                    let k = choose|k: int| 0 <= k < i && #[trigger] is_cond_op(sv.take(i as int)[k], x);
                    assert(t[k] == sv.take(i as int)[k]);
                }
                if is_cond_op(t.last(), x) {
                    assert(is_cond_op(t[i as int], x));
                }
            }
            assert(create_ops_view(out@) =~= with_cond(t, x, cv));
            assert(s@ =~= s0.skip(i + 1));
        }
        i += 1;
    }
    proof {
        assert(sv.take(n as int) =~= sv);
    }
    out
}

/// The two jobs agree on everything but the root unit's operation lists.
pub open spec fn same_but_lists(a: HostBindingCompilationJob, b: HostBindingCompilationJob) -> bool {
    &&& a.component_name == b.component_name
    &&& a.pool == b.pool
    &&& a.compatibility == b.compatibility
    &&& a.mode == b.mode
    &&& a.root.xref == b.root.xref
    &&& a.root.attributes == b.root.attributes
    &&& a.root.fn_name == b.root.fn_name
    &&& a.root.vars == b.root.vars
}

/// Extract the static attributes of a host binding job into its creation list.
pub fn extract_attributes(job: &mut HostBindingCompilationJob)
    ensures
        same_but_lists(*final(job), *old(job)),
        (create_ops_view(final(job).root.create@), update_ops_view(final(job).root.update@))
            == spec_extract_unit(
            create_ops_view(old(job).root.create@),
            update_ops_view(old(job).root.update@),
            old(job).compatibility,
            old(job).root.xref,
        ),
{
    let mut create: Vec<CreateOp> = Vec::new();
    std::mem::swap(&mut create, &mut job.root.create);
    let mut update: Vec<UpdateOp> = Vec::new();
    std::mem::swap(&mut update, &mut job.root.update);
    proof {
        reveal(spec_extract_unit);
    }
    let cond = find_cond(&create, job.root.xref);
    let (main, conds, kept) = extract_ops(update, job.compatibility, &create, cond, true);
    let placed = place_attributes(create, &main, true);
    let fin = place_cond(placed, job.root.xref, conds);
    job.root.create = fin;
    job.root.update = kept;
}

// ---------------------------------------------------------------------------------------------
// Component jobs
// ---------------------------------------------------------------------------------------------

/// The attribute a template view's creation operation yields: the name of a listener that is
/// not a legacy animation listener, and of a two-way listener, as a property of its element.
pub open spec fn listener_attr(op: SCreateOp) -> Seq<SExtracted> {
    match op {
        SCreateOp::Listener(l) => if !l.is_legacy_animation_listener {
            seq![mk_extracted(l.element, BindingKind::Property, None, l.name, None, None, None, seq![SecurityContext::NONE], l.source_span)]
        } else {
            Seq::empty()
        },
        SCreateOp::TwoWayListener { element, name, .. } => seq![
            mk_extracted(element, BindingKind::Property, None, name, None, None, None, seq![SecurityContext::NONE], None),
        ],
        _ => Seq::empty(),
    }
}

/// The attributes the listeners of a creation list yield, in order.
pub open spec fn listener_attrs(create: Seq<SCreateOp>) -> Seq<SExtracted>
    decreases create.len(),
{
    if create.len() == 0 {
        Seq::empty()
    } else {
        listener_attrs(create.drop_last()) + listener_attr(create.last())
    }
}

/// The creation list, the update list, and the copies for an enclosing conditional of one view
/// of a template after extraction: the listeners' attributes, then those of the update list,
/// follow the operation that declares their target; attributes whose target no operation of
/// the view declares are dropped.
pub open spec fn spec_extract_view(
    create: Seq<SCreateOp>,
    update: Seq<SUpdateOp>,
    compat: CompatibilityMode,
    cond: Option<(XrefId, XrefId)>,
) -> (Seq<SCreateOp>, Seq<SUpdateOp>, Seq<SExtracted>) {
    let r = spec_extract_ops(update, compat, create, cond, false);
    (with_attributes(create, listener_attrs(create) + r.0), r.2, r.1)
}

/// Whether a conditional declared with xref `x` stands in one of the creation lists.
pub open spec fn cond_in_lists(creates: Seq<Seq<SCreateOp>>, x: XrefId) -> bool {
    exists|u: int| 0 <= u < creates.len() && #[trigger] has_cond_op(creates[u], x)
}

/// When the view with xref `unit_xref` is the view of a conditional of the job, its first
/// element and that conditional.
pub open spec fn job_cond(creates: Seq<Seq<SCreateOp>>, create: Seq<SCreateOp>, unit_xref: XrefId) -> Option<
    (XrefId, XrefId),
> {
    if cond_in_lists(creates, unit_xref) {
        match first_element(create) {
            Some(child) => Some((child, unit_xref)),
            None => None,
        }
    } else {
        None
    }
}

/// The copies for conditional `x`: those of every view with that xref, in order.
pub open spec fn copies_for(copies: Seq<(XrefId, Seq<SExtracted>)>, x: XrefId) -> Seq<SExtracted>
    decreases copies.len(),
{
    if copies.len() == 0 {
        Seq::empty()
    } else {
        copies_for(copies.drop_last(), x) + if copies.last().0 == x {
            copies.last().1
        } else {
            Seq::empty()
        }
    }
}

/// The creation list with the first conditional declared with each xref followed by the copies
/// for it.
pub open spec fn with_conds(s: Seq<SCreateOp>, copies: Seq<(XrefId, Seq<SExtracted>)>) -> Seq<SCreateOp>
    decreases s.len(),
{
    if s.len() == 0 {
        Seq::empty()
    } else {
        let op = s.last();
        with_conds(s.drop_last(), copies).push(op) + match spec_create_xref(op) {
            Some(x) => if is_cond_op(op, x) && !has_cond_op(s.drop_last(), x) {
                as_create_ops(copies_for(copies, x))
            } else {
                Seq::empty()
            },
            None => Seq::empty(),
        }
    }
}

/// The creation lists of a list of keyed views.
pub open spec fn unit_creates(all: Seq<(u64, ViewCompilationUnit)>) -> Seq<Seq<SCreateOp>> {
    all.map_values(|p: (u64, ViewCompilationUnit)| create_ops_view(p.1.create@))
}

/// The creation lists of a job: the root's, then each embedded view's.
pub open spec fn job_creates(job: ComponentCompilationJob) -> Seq<Seq<SCreateOp>> {
    seq![create_ops_view(job.root.create@)] + unit_creates(view_entries(job.views))
}

/// One view of a template job after extraction, with the job's creation lists `creates`.
pub open spec fn view_extracted(u: ViewCompilationUnit, creates: Seq<Seq<SCreateOp>>, compat: CompatibilityMode) -> (
    Seq<SCreateOp>,
    Seq<SUpdateOp>,
    Seq<SExtracted>,
) {
    spec_extract_view(
        create_ops_view(u.create@),
        update_ops_view(u.update@),
        compat,
        job_cond(creates, create_ops_view(u.create@), u.xref),
    )
}

/// The copies for conditionals of a list of views, each under the view's xref.
pub open spec fn view_copies(
    all: Seq<(u64, ViewCompilationUnit)>,
    creates: Seq<Seq<SCreateOp>>,
    compat: CompatibilityMode,
) -> Seq<(XrefId, Seq<SExtracted>)> {
    all.map_values(|p: (u64, ViewCompilationUnit)| (p.1.xref, view_extracted(p.1, creates, compat).2))
}

/// The two views agree on everything but their operation lists.
pub open spec fn same_unit_but_lists(a: ViewCompilationUnit, b: ViewCompilationUnit) -> bool {
    &&& a.xref == b.xref
    &&& a.parent == b.parent
    &&& a.context_variables == b.context_variables
    &&& a.decls == b.decls
    &&& a.fn_name == b.fn_name
    &&& a.vars == b.vars
}

/// An embedded view after extraction.
pub open spec fn extract_step(
    u: ViewCompilationUnit,
    v: ViewCompilationUnit,
    creates: Seq<Seq<SCreateOp>>,
    compat: CompatibilityMode,
) -> bool {
    &&& same_unit_but_lists(v, u)
    &&& create_ops_view(v.create@) == view_extracted(u, creates, compat).0
    &&& update_ops_view(v.update@) == view_extracted(u, creates, compat).1
}

/// The relation of each embedded view after extraction to the view before it.
pub open spec fn extract_rel(creates: Seq<Seq<SCreateOp>>, compat: CompatibilityMode) -> spec_fn(
    int,
    ViewCompilationUnit,
    ViewCompilationUnit,
) -> bool {
    |i: int, u: ViewCompilationUnit, v: ViewCompilationUnit| extract_step(u, v, creates, compat)
}

fn listener_attr_of(op: &CreateOp) -> (r: Vec<ExtractedAttributeOp>)
    ensures
        extracted_list_view(r@) == listener_attr(create_op_view(*op)),
{
    match op {
        CreateOp::Listener(l) => if !l.is_legacy_animation_listener {
            let mut sc: Vec<SecurityContext> = Vec::new();
            sc.push(SecurityContext::NONE);
            assert(sc@ =~= seq![SecurityContext::NONE]);
            let r = one_attr(name_attr(l.element, BindingKind::Property, &l.name, None, &sc, &l.source_span));
            r
        } else {
            no_attrs()
        },
        CreateOp::TwoWayListener { element, name, .. } => {
            let mut sc: Vec<SecurityContext> = Vec::new();
            sc.push(SecurityContext::NONE);
            assert(sc@ =~= seq![SecurityContext::NONE]);
            one_attr(name_attr(*element, BindingKind::Property, name, None, &sc, &None))
        },
        _ => no_attrs(),
    }
}

fn listener_attrs_of(create: &Vec<CreateOp>) -> (r: Vec<ExtractedAttributeOp>)
    ensures
        extracted_list_view(r@) == listener_attrs(create_ops_view(create@)),
{
    let ghost cv = create_ops_view(create@);
    proof {
        lemma_create_ops_view_len(create@);
    }
    let mut out: Vec<ExtractedAttributeOp> = Vec::new();
    let mut i: usize = 0;
    proof {
        assert(cv.take(0) =~= Seq::<SCreateOp>::empty());
        assert(extracted_list_view(out@) =~= Seq::<SExtracted>::empty());
    }
    while i < create.len()
        invariant
            i <= create@.len(),
            cv == create_ops_view(create@),
            cv.len() == create@.len(),
            extracted_list_view(out@) == listener_attrs(cv.take(i as int)),
        decreases create.len() - i,
    {
        proof {
            lemma_create_ops_view_index(create@, i as int);
            assert(cv.take(i + 1).drop_last() =~= cv.take(i as int));
            assert(cv.take(i + 1).last() == cv[i as int]);
        }
        let mut one = listener_attr_of(&create[i]);
        let ghost out0 = out@;
        let ghost onev = one@;
        out.append(&mut one);
        proof {
            assert(extracted_list_view(out@) =~= extracted_list_view(out0) + extracted_list_view(onev));
        }
        i += 1;
    }
    proof {
        assert(cv.take(create@.len() as int) =~= cv);
    }
    out
}

/// The xref of the first element of a creation list.
fn first_element_xref(create: &Vec<CreateOp>) -> (r: Option<XrefId>)
    ensures
        r == first_element(create_ops_view(create@)),
{
    let ghost cv = create_ops_view(create@);
    proof {
        lemma_create_ops_view_len(create@);
    }
    let n = create.len();
    let mut j: usize = 0;
    proof {
        assert(cv.take(0) =~= Seq::<SCreateOp>::empty());
    }
    while j < n
        invariant
            n == create@.len(),
            cv == create_ops_view(create@),
            cv.len() == n,
            j <= n,
            first_element(cv.take(j as int)) is None,
        decreases n - j,
    {
        proof {
            lemma_create_ops_view_index(create@, j as int);
            assert(cv.take(j + 1).drop_last() =~= cv.take(j as int));
            assert(cv.take(j + 1).last() == cv[j as int]);
        }
        let found = match &create[j] {
            CreateOp::ElementStart(b) => Some(b.xref),
            CreateOp::Element(b) => Some(b.xref),
            _ => None,
        };
        match found {
            Some(child) => {
                proof {
                    lemma_first_element_prefix(cv, j + 1);
                }
                return Some(child);
            },
            None => {},
        }
        j += 1;
    }
    proof {
        assert(cv.take(n as int) =~= cv);
    }
    None
}

/// Extract the attributes of one view of a template, with the conditional it belongs to.
fn extract_view(
    create: Vec<CreateOp>,
    update: Vec<UpdateOp>,
    compat: CompatibilityMode,
    cond: Option<(XrefId, XrefId)>,
) -> (r: (Vec<CreateOp>, Vec<UpdateOp>, Vec<ExtractedAttributeOp>))
    ensures
        (create_ops_view(r.0@), update_ops_view(r.1@), extracted_list_view(r.2@)) == spec_extract_view(
            create_ops_view(create@),
            update_ops_view(update@),
            compat,
            cond,
        ),
{
    let mut m = listener_attrs_of(&create);
    let (mut main, conds, kept) = extract_ops(update, compat, &create, cond, false);
    let ghost m0 = m@;
    let ghost mainv = main@;
    m.append(&mut main);
    proof {
        assert(extracted_list_view(m@) =~= extracted_list_view(m0) + extracted_list_view(mainv));
    }
    let placed = place_attributes(create, &m, false);
    (placed, kept, conds)
}

/// Whether a conditional declared with `x` stands in the list, after one more operation.
proof fn lemma_has_cond_step(t: Seq<SCreateOp>, x: XrefId)
    requires
        t.len() > 0,
    ensures
        has_cond_op(t, x) == (has_cond_op(t.drop_last(), x) || is_cond_op(t.last(), x)),
{
    if has_cond_op(t, x) {
        let k = choose|k: int| 0 <= k < t.len() && #[trigger] is_cond_op(t[k], x);
        if k < t.len() - 1 {
            assert(t.drop_last()[k] == t[k]);
        }
    }
    if has_cond_op(t.drop_last(), x) {
        let k = choose|k: int| 0 <= k < t.len() - 1 && #[trigger] is_cond_op(t.drop_last()[k], x);
        assert(t[k] == t.drop_last()[k]);
    }
    if is_cond_op(t.last(), x) {
        assert(is_cond_op(t[t.len() - 1], x));
    }
}

/// Add the xrefs of the conditionals of a creation list.
fn collect_cond_xrefs(create: &Vec<CreateOp>, acc: &mut Vec<XrefId>)
    ensures
        forall|x: XrefId| #[trigger] final(acc)@.contains(x) <==> old(acc)@.contains(x) || has_cond_op(
            create_ops_view(create@),
            x,
        ),
{
    let ghost cv = create_ops_view(create@);
    let ghost a0 = acc@;
    proof {
        lemma_create_ops_view_len(create@);
        assert(cv.take(0) =~= Seq::<SCreateOp>::empty());
    }
    let mut i: usize = 0;
    while i < create.len()
        invariant
            i <= create@.len(),
            cv == create_ops_view(create@),
            cv.len() == create@.len(),
            forall|x: XrefId| #[trigger] acc@.contains(x) <==> a0.contains(x) || has_cond_op(cv.take(i as int), x),
        decreases create.len() - i,
    {
        proof {
            lemma_create_ops_view_index(create@, i as int);
            assert(cv.take(i + 1).drop_last() =~= cv.take(i as int));
            assert(cv.take(i + 1).last() == cv[i as int]);
        }
        let x = match &create[i] {
            CreateOp::ConditionalCreate(b) => Some(b.xref),
            CreateOp::ConditionalBranchCreate(b) => Some(b.xref),
            _ => None,
        };
        let ghost acc0 = acc@;
        match x {
            Some(x) => {
                acc.push(x);
            },
            None => {},
        }
        proof {
            assert forall|y: XrefId| #[trigger] acc@.contains(y) <==> a0.contains(y) || has_cond_op(cv.take(i + 1), y) by {
                lemma_has_cond_step(cv.take(i + 1), y);
                if acc@.contains(y) && !acc0.contains(y) {
                    let l = choose|l: int| 0 <= l < acc@.len() && acc@[l] == y;
                    assert(l == acc0.len());
                }
                if acc0.contains(y) {
                    let l = choose|l: int| 0 <= l < acc0.len() && acc0[l] == y;
                    assert(acc@[l] == y);
                }
                if is_cond_op(cv[i as int], y) {
                    assert(acc@[acc@.len() - 1] == y);
                }
            }
        }
        i += 1;
    }
    proof {
        assert(cv.take(create@.len() as int) =~= cv);
    }
}

/// The values of a list of copies.
pub open spec fn copies_view(v: Seq<(XrefId, Vec<ExtractedAttributeOp>)>) -> Seq<(XrefId, Seq<SExtracted>)> {
    v.map_values(|p: (XrefId, Vec<ExtractedAttributeOp>)| (p.0, extracted_list_view(p.1@)))
}

/// Append all of `m`, as creation operations.
fn push_all(out: &mut Vec<CreateOp>, m: &Vec<ExtractedAttributeOp>)
    ensures
        create_ops_view(final(out)@) == create_ops_view(old(out)@) + as_create_ops(extracted_list_view(m@)),
{
    let ghost mv = extracted_list_view(m@);
    let ghost out0 = create_ops_view(out@);
    let mut j: usize = 0;
    proof {
        assert(out0 + as_create_ops(mv.take(0)) =~= out0);
    }
    while j < m.len()
        invariant
            j <= m@.len(),
            mv == extracted_list_view(m@),
            create_ops_view(out@) == out0 + as_create_ops(mv.take(j as int)),
        decreases m@.len() - j,
    {
        let e = clone_extracted(&m[j]);
        let ghost before = out@;
        out.push(CreateOp::ExtractedAttribute(e));
        proof {
            lemma_create_ops_view_push(before, CreateOp::ExtractedAttribute(e));
            assert(mv[j as int] == extracted_view(m@[j as int]));
            assert(as_create_ops(mv.take(j + 1)) =~= as_create_ops(mv.take(j as int)).push(
                SCreateOp::ExtractedAttribute(extracted_view(e)),
            ));
        }
        j += 1;
    }
    proof {
        assert(mv.take(m@.len() as int) =~= mv);
    }
}

/// Append the copies for conditional `x`.
fn push_copies_for(out: &mut Vec<CreateOp>, copies: &Vec<(XrefId, Vec<ExtractedAttributeOp>)>, x: XrefId)
    ensures
        create_ops_view(final(out)@) == create_ops_view(old(out)@) + as_create_ops(copies_for(copies_view(copies@), x)),
{
    let ghost cv = copies_view(copies@);
    let ghost out0 = create_ops_view(out@);
    let mut j: usize = 0;
    proof {
        assert(cv.take(0) =~= Seq::<(XrefId, Seq<SExtracted>)>::empty());
        assert(out0 + as_create_ops(Seq::<SExtracted>::empty()) =~= out0);
    }
    while j < copies.len()
        invariant
            j <= copies@.len(),
            cv == copies_view(copies@),
            create_ops_view(out@) == out0 + as_create_ops(copies_for(cv.take(j as int), x)),
        decreases copies@.len() - j,
    {
        proof {
            assert(cv.take(j + 1).drop_last() =~= cv.take(j as int));
            assert(cv.take(j + 1).last() == cv[j as int]);
        }
        if copies[j].0 == x {
            let ghost before = create_ops_view(out@);
            push_all(out, &copies[j].1);
            proof {
                assert(as_create_ops(copies_for(cv.take(j + 1), x)) =~= as_create_ops(copies_for(cv.take(j as int), x))
                    + as_create_ops(cv[j as int].1));
            }
        } else {
            proof {
                assert(copies_for(cv.take(j + 1), x) =~= copies_for(cv.take(j as int), x));
            }
        }
        j += 1;
    }
    proof {
        assert(cv.take(copies@.len() as int) =~= cv);
    }
}

/// Place the copies after the first conditional declared with each xref.
fn place_conds(s: Vec<CreateOp>, copies: &Vec<(XrefId, Vec<ExtractedAttributeOp>)>) -> (r: Vec<CreateOp>)
    ensures
        create_ops_view(r@) == with_conds(create_ops_view(s@), copies_view(copies@)),
{
    let ghost s0 = s@;
    let ghost sv = create_ops_view(s0);
    let ghost cpv = copies_view(copies@);
    proof {
        lemma_create_ops_view_len(s0);
    }
    let mut s = s;
    let n = s.len();
    let mut out: Vec<CreateOp> = Vec::new();
    let mut seen: Vec<XrefId> = Vec::new();
    let mut i: usize = 0;
    proof {
        assert(sv.take(0) =~= Seq::<SCreateOp>::empty());
        assert(create_ops_view(out@) =~= Seq::<SCreateOp>::empty());
    }
    while i < n
        invariant
            n == s0.len(),
            i <= n,
            s@ == s0.skip(i as int),
            sv == create_ops_view(s0),
            sv.len() == n,
            cpv == copies_view(copies@),
            forall|x: XrefId| #[trigger] seen@.contains(x) <==> has_cond_op(sv.take(i as int), x),
            create_ops_view(out@) == with_conds(sv.take(i as int), cpv),
        decreases n - i,
    {
        let op = s.remove(0);
        proof {
            lemma_create_ops_view_index(s0, i as int);
            assert(sv.take(i + 1).drop_last() =~= sv.take(i as int));
            assert(sv.take(i + 1).last() == create_op_view(op));
        }
        let cx = match &op {
            CreateOp::ConditionalCreate(b) => Some(b.xref),
            CreateOp::ConditionalBranchCreate(b) => Some(b.xref),
            _ => None,
        };
        let ghost before = out@;
        out.push(op);
        proof {
            lemma_create_ops_view_push(before, op);
        }
        let ghost seen0 = seen@;
        match cx {
            Some(x) => {
                proof {
                    assert(is_cond_op(create_op_view(op), x));
                }
                if !contains_xref(&seen, x) {
                    push_copies_for(&mut out, copies, x);
                }
                seen.push(x);
                proof {
                    assert(create_ops_view(out@) =~= with_conds(sv.take(i + 1), cpv));
                }
            },
            None => {
                proof {
                    assert(create_ops_view(out@) =~= with_conds(sv.take(i + 1), cpv));
                }
            },
        }
        proof {
            assert forall|y: XrefId| #[trigger] seen@.contains(y) <==> has_cond_op(sv.take(i + 1), y) by {
                lemma_has_cond_step(sv.take(i + 1), y);
                if seen@.contains(y) && !seen0.contains(y) {
                    let l = choose|l: int| 0 <= l < seen@.len() && seen@[l] == y;
                    assert(l == seen0.len());
                }
                if seen0.contains(y) {
                    let l = choose|l: int| 0 <= l < seen0.len() && seen0[l] == y;
                    assert(seen@[l] == y);
                }
                if is_cond_op(create_op_view(op), y) {
                    assert(seen@[seen@.len() - 1] == y);
                }
            }
            assert(s@ =~= s0.skip(i + 1));
        }
        i += 1;
    }
    proof {
        assert(sv.take(n as int) =~= sv);
    }
    out
}

/// The xrefs of the conditionals of a job's views: the root's creation list and those of the
/// embedded views.
fn collect_job_conds(root: &Vec<CreateOp>, units: &Vec<(u64, ViewCompilationUnit)>) -> (r: Vec<XrefId>)
    ensures
        forall|x: XrefId| #[trigger] r@.contains(x) <==> cond_in_lists(
            seq![create_ops_view(root@)] + unit_creates(units@),
            x,
        ),
{
    let ghost creates = seq![create_ops_view(root@)] + unit_creates(units@);
    let mut conds: Vec<XrefId> = Vec::new();
    collect_cond_xrefs(root, &mut conds);
    proof {
        assert forall|x: XrefId| #[trigger] conds@.contains(x) <==> cond_in_lists(creates.take(1), x) by {
            assert(creates.take(1)[0] == create_ops_view(root@));
            if cond_in_lists(creates.take(1), x) {
                let u = choose|u: int| 0 <= u < 1 && #[trigger] has_cond_op(creates.take(1)[u], x);
                assert(u == 0);
            }
        }
    }
    let mut q: usize = 0;
    while q < units.len()
        invariant
            q <= units@.len(),
            creates == seq![create_ops_view(root@)] + unit_creates(units@),
            forall|x: XrefId| #[trigger] conds@.contains(x) <==> cond_in_lists(creates.take(q + 1), x),
        decreases units@.len() - q,
    {
        collect_cond_xrefs(&units[q].1.create, &mut conds);
        proof {
            assert forall|x: XrefId| #[trigger] conds@.contains(x) <==> cond_in_lists(creates.take(q + 2), x) by {
                assert(creates[q + 1] == create_ops_view(units@[q as int].1.create@));
                if cond_in_lists(creates.take(q + 2), x) {
                    let u = choose|u: int| 0 <= u < q + 2 && #[trigger] has_cond_op(creates.take(q + 2)[u], x);
                    if u < q + 1 {
                        assert(creates.take(q + 1)[u] == creates.take(q + 2)[u]);
                        assert(cond_in_lists(creates.take(q + 1), x));
                    }
                }
                if cond_in_lists(creates.take(q + 1), x) {
                    let u = choose|u: int| 0 <= u < q + 1 && #[trigger] has_cond_op(creates.take(q + 1)[u], x);
                    assert(creates.take(q + 2)[u] == creates.take(q + 1)[u]);
                }
                if has_cond_op(create_ops_view(units@[q as int].1.create@), x) {
                    assert(creates.take(q + 2)[q + 1] == creates[q + 1]);
                }
            }
        }
        q += 1;
    }
    proof {
        assert(creates.take(units@.len() as int + 1) =~= creates);
    }
    conds
}

/// The conditional a view belongs to, with the job's conditionals in `conds`.
fn cond_for(conds: &Vec<XrefId>, create: &Vec<CreateOp>, unit_xref: XrefId) -> (r: Option<(XrefId, XrefId)>)
    ensures
        r == (if conds@.contains(unit_xref) {
            match first_element(create_ops_view(create@)) {
                Some(child) => Some((child, unit_xref)),
                None => None,
            }
        } else {
            None
        }),
{
    if contains_xref(conds, unit_xref) {
        match first_element_xref(create) {
            Some(child) => Some((child, unit_xref)),
            None => None,
        }
    } else {
        None
    }
}

/// Extract the static attributes, and the names of bindings and listeners, of every view of a
/// component's template into the views' creation lists. The attributes of the first element of
/// a conditional's view are also copied after the conditional, where it stands in the root view.
#[verifier::rlimit(50)]
pub fn extract_attributes_in_component(job: &mut ComponentCompilationJob)
    ensures
        same_but_views(*final(job), *old(job)),
        same_unit_but_lists(final(job).root, old(job).root),
        create_ops_view(final(job).root.create@) == with_conds(
            view_extracted(old(job).root, job_creates(*old(job)), old(job).compatibility).0,
            seq![(old(job).root.xref, view_extracted(old(job).root, job_creates(*old(job)), old(job).compatibility).2)]
                + view_copies(view_entries(old(job).views), job_creates(*old(job)), old(job).compatibility),
        ),
        update_ops_view(final(job).root.update@) == view_extracted(
            old(job).root,
            job_creates(*old(job)),
            old(job).compatibility,
        ).1,
        units_related(
            view_entries(old(job).views),
            view_entries(final(job).views),
            extract_rel(job_creates(*old(job)), old(job).compatibility),
        ),
{
    let ghost job0 = *job;
    let compat = job.compatibility;
    let mut units = take_view_units(job);
    let ghost all = units@;
    let ghost creates = job_creates(job0);
    proof {
        lemma_create_ops_view_len(job.root.create@);
    }
    let conds = collect_job_conds(&job.root.create, &units);
    proof {
        assert(seq![create_ops_view(job.root.create@)] + unit_creates(units@) == creates);
    }
    // The root view.
    let mut rc: Vec<CreateOp> = Vec::new();
    std::mem::swap(&mut rc, &mut job.root.create);
    let mut ru: Vec<UpdateOp> = Vec::new();
    std::mem::swap(&mut ru, &mut job.root.update);
    let root_cond = cond_for(&conds, &rc, job.root.xref);
    let (root_create, root_update, root_copies) = extract_view(rc, ru, compat, root_cond);
    let mut copies: Vec<(XrefId, Vec<ExtractedAttributeOp>)> = Vec::new();
    copies.push((job.root.xref, root_copies));
    let ghost root_part = seq![(job0.root.xref, view_extracted(job0.root, creates, compat).2)];
    proof {
        assert(copies_view(copies@) =~= root_part);
    }
    // The embedded views.
    let ghost mid = *job;
    let n = units.len();
    let mut done: Vec<(u64, ViewCompilationUnit)> = Vec::new();
    let mut j: usize = 0;
    proof {
        assert(all.skip(0) =~= all);
        assert(all.take(0) =~= Seq::<(u64, ViewCompilationUnit)>::empty());
        assert(root_part + view_copies(all.take(0), creates, compat) =~= root_part);
    }
    while j < n
        invariant
            n == all.len(),
            j <= n,
            all == view_entries(job0.views),
            creates == job_creates(job0),
            compat == job0.compatibility,
            forall|x: XrefId| #[trigger] conds@.contains(x) <==> cond_in_lists(creates, x),
            unit_keys(all).no_duplicates(),
            units@ == all.skip(j as int),
            units_related(all.take(j as int), done@, extract_rel(creates, compat)),
            copies_view(copies@) == root_part + view_copies(all.take(j as int), creates, compat),
            view_entries(job.views) == Seq::<(u64, ViewCompilationUnit)>::empty(),
            same_but_views(*job, mid),
            job.root == mid.root,
        decreases n - j,
    {
        let ghost before = units@;
        let (k, mut u) = units.remove(0);
        let ghost u0 = u;
        proof {
            assert(before[0] == all[j as int]);
        }
        let mut c: Vec<CreateOp> = Vec::new();
        std::mem::swap(&mut c, &mut u.create);
        let mut up: Vec<UpdateOp> = Vec::new();
        std::mem::swap(&mut up, &mut u.update);
        let cond = cond_for(&conds, &c, u.xref);
        let (vc, vu, vcopies) = extract_view(c, up, compat, cond);
        u.create = vc;
        u.update = vu;
        let ghost copies0 = copies@;
        copies.push((u.xref, vcopies));
        proof {
            assert(extract_rel(creates, compat)(j as int, u0, u));
            lemma_units_related_push(all, done@, extract_rel(creates, compat), j as int, k, u);
            assert(units@ =~= all.skip(j + 1));
            assert(view_copies(all.take(j + 1), creates, compat) =~= view_copies(all.take(j as int), creates, compat).push(
                (u0.xref, view_extracted(u0, creates, compat).2),
            ));
            assert(copies_view(copies@) =~= copies_view(copies0).push((u0.xref, view_extracted(u0, creates, compat).2)));
        }
        done.push((k, u));
        j += 1;
    }
    proof {
        assert(all.take(n as int) =~= all);
        lemma_units_related_keys(all, done@, extract_rel(creates, compat));
    }
    let fin = place_conds(root_create, &copies);
    job.root.create = fin;
    job.root.update = root_update;
    restore_view_units(job, done);
}

} // verus!
