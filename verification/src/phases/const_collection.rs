//! Constant collection: the extracted attributes of an element are gathered, by kind, into one
//! constant array; for a host binding job that array becomes the host attributes.

use vstd::prelude::*;
use crate::text::{
    str_eq, spec_split_char, split_char, spec_trim, trim, chars_of, string_of, slice_chars,
};
use crate::parse_util::{opt_string_view, opt_span_view, clone_opt_span};
use crate::output::{
    Expression, LiteralArrayExpr, LiteralExpr, LiteralValue, SExpr, SLit, STplElement,
    TemplateLiteralElement, XrefId, expr_view, exprs_view, tpl_elements_view, lemma_exprs_view_push,
    lemma_exprs_view_append,
};
use crate::ir::{BindingKind, CompatibilityMode, CreateOp, SCreateOp, SExtracted, create_op_view, create_ops_view,
    extracted_view, opt_expr_view, lemma_create_ops_view_push, lemma_create_ops_view_index, lemma_create_ops_view_len,
};
use crate::compilation::HostBindingCompilationJob;

verus! {

/// Markers that separate the sections of a constant attribute array.
#[derive(Debug, Clone, Copy, PartialEq, Eq, Structural)]
pub enum AttributeMarker {
    /// A namespaced attribute: namespace URI, then name and value.
    NamespaceURI,
    /// The static class names that follow.
    Classes,
    /// The static style declarations that follow.
    Styles,
    /// The names of bindings that follow.
    Bindings,
    /// The names of structural template bindings that follow.
    Template,
    /// The `ngProjectAs` selector that follows.
    ProjectAs,
    /// The names of i18n bindings that follow.
    I18n,
}

/// The number of a marker.
pub open spec fn marker_number(m: AttributeMarker) -> int {
    match m {
        AttributeMarker::NamespaceURI => 0,
        AttributeMarker::Classes => 1,
        AttributeMarker::Styles => 2,
        AttributeMarker::Bindings => 3,
        AttributeMarker::Template => 4,
        AttributeMarker::ProjectAs => 5,
        AttributeMarker::I18n => 6,
    }
}

/// A marker as a number literal.
pub open spec fn marker_lit(m: AttributeMarker) -> SExpr {
    SExpr::Literal { value: SLit::Integer(marker_number(m)), source_span: None }
}

/// A string literal with no source span.
pub open spec fn str_lit(v: Seq<char>) -> SExpr {
    SExpr::Literal { value: SLit::String(v), source_span: None }
}

/// A marker as a number literal.
pub fn marker_expr(m: AttributeMarker) -> (r: Expression)
    ensures
        expr_view(r) == marker_lit(m),
{
    let n: i64 = match m {
        AttributeMarker::NamespaceURI => 0,
        AttributeMarker::Classes => 1,
        AttributeMarker::Styles => 2,
        AttributeMarker::Bindings => 3,
        AttributeMarker::Template => 4,
        AttributeMarker::ProjectAs => 5,
        AttributeMarker::I18n => 6,
    };
    Expression::Literal(LiteralExpr { value: LiteralValue::Integer(n), source_span: None })
}

/// A string literal with no source span.
pub fn str_expr(v: String) -> (r: Expression)
    ensures
        expr_view(r) == str_lit(v@),
{
    Expression::Literal(LiteralExpr { value: LiteralValue::String(v), source_span: None })
}

/// The attributes of one element, by kind, as literal expressions.
pub struct SAttrs {
    pub attributes: Seq<SExpr>,
    pub bindings: Seq<SExpr>,
    pub classes: Seq<SExpr>,
    pub styles: Seq<SExpr>,
    pub template: Seq<SExpr>,
    pub i18n: Seq<SExpr>,
    pub project_as: Option<Seq<char>>,
    pub known: Seq<(BindingKind, Seq<char>)>,
}

/// No attributes.
pub open spec fn empty_attrs() -> SAttrs {
    SAttrs {
        attributes: Seq::empty(),
        bindings: Seq::empty(),
        classes: Seq::empty(),
        styles: Seq::empty(),
        template: Seq::empty(),
        i18n: Seq::empty(),
        project_as: None,
        known: Seq::empty(),
    }
}

/// Whether repeated names of a kind are all kept (static attributes, classes and styles, in the
/// compatibility mode).
pub open spec fn allows_duplicates(compat: CompatibilityMode, kind: BindingKind) -> bool {
    compat == CompatibilityMode::TemplateDefinitionBuilder && (kind == BindingKind::Attribute
        || kind == BindingKind::ClassName || kind == BindingKind::StyleProperty)
}

/// Whether a kind has a section of the array.
pub open spec fn has_section(kind: BindingKind) -> bool {
    kind == BindingKind::Property || kind == BindingKind::TwoWayProperty || kind == BindingKind::Attribute
        || kind == BindingKind::ClassName || kind == BindingKind::StyleProperty || kind == BindingKind::Template
        || kind == BindingKind::I18n
}

/// The value entries of an attribute or style: the value itself or, with a trusted-value
/// function, that function applied as the tag of a template literal of the value's text.
/// `None` where the value is missing, or is not a string literal while a function is given.
pub open spec fn value_items(kind: BindingKind, value: Option<SExpr>, trusted: Option<SExpr>) -> Option<Seq<SExpr>> {
    if kind == BindingKind::Attribute || kind == BindingKind::StyleProperty {
        match value {
            None => None,
            Some(v) => match trusted {
                None => Some(seq![v]),
                Some(f) => match v {
                    SExpr::Literal { value: SLit::String(x), source_span } => Some(
                        seq![
                            SExpr::TaggedTemplate {
                                tag: Box::new(f),
                                elements: seq![STplElement { text: x, raw_text: x, source_span }],
                                expressions: Seq::empty(),
                                source_span,
                            },
                        ],
                    ),
                    _ => None,
                },
            },
        }
    } else {
        Some(Seq::empty())
    }
}

/// The section of a kind extended with `items`.
pub open spec fn append_to(s: SAttrs, kind: BindingKind, items: Seq<SExpr>) -> SAttrs {
    SAttrs {
        attributes: if kind == BindingKind::Attribute { s.attributes + items } else { s.attributes },
        bindings: if kind == BindingKind::Property || kind == BindingKind::TwoWayProperty {
            s.bindings + items
        } else {
            s.bindings
        },
        classes: if kind == BindingKind::ClassName { s.classes + items } else { s.classes },
        styles: if kind == BindingKind::StyleProperty { s.styles + items } else { s.styles },
        template: if kind == BindingKind::Template { s.template + items } else { s.template },
        i18n: if kind == BindingKind::I18n { s.i18n + items } else { s.i18n },
        project_as: s.project_as,
        known: s.known,
    }
}

/// The attributes with one more: a name seen before (of the same kind) is skipped unless
/// duplicates are allowed; `ngProjectAs` sets the projection selector; otherwise the
/// namespace (marker and URI), the name and, for attributes and styles, the value join the
/// section of the kind. `None` where the attribute cannot be added: an `ngProjectAs` whose value
/// is not a string literal, or a missing or malformed attribute or style value.
pub open spec fn spec_add(
    s: SAttrs,
    compat: CompatibilityMode,
    kind: BindingKind,
    name: Seq<char>,
    value: Option<SExpr>,
    namespace: Option<Seq<char>>,
    trusted: Option<SExpr>,
) -> Option<SAttrs> {
    let dup_ok = allows_duplicates(compat, kind);
    if !dup_ok && s.known.contains((kind, name)) {
        Some(s)
    } else {
        let s1 = if dup_ok {
            s
        } else {
            SAttrs { known: s.known.push((kind, name)), ..s }
        };
        if name == "ngProjectAs"@ {
            match value {
                Some(SExpr::Literal { value: SLit::String(v), .. }) => Some(SAttrs { project_as: Some(v), ..s1 }),
                _ => None,
            }
        } else if !has_section(kind) {
            Some(s1)
        } else {
            let prefix = match namespace {
                Some(n) => seq![marker_lit(AttributeMarker::NamespaceURI), str_lit(n)],
                None => Seq::empty(),
            }.push(str_lit(name));
            match value_items(kind, value, trusted) {
                Some(vs) => Some(append_to(s1, kind, prefix + vs)),
                None => None,
            }
        }
    }
}

/// The attributes of one element, collected by kind.
pub struct ElementAttributes {
    pub attributes: Vec<Expression>,
    pub bindings: Vec<Expression>,
    pub classes: Vec<Expression>,
    pub styles: Vec<Expression>,
    pub template: Vec<Expression>,
    pub i18n: Vec<Expression>,
    pub project_as: Option<String>,
    pub known: Vec<(BindingKind, String)>,
    pub compatibility: CompatibilityMode,
}

/// The names seen, by kind.
pub open spec fn known_view(k: Seq<(BindingKind, String)>) -> Seq<(BindingKind, Seq<char>)> {
    k.map_values(|p: (BindingKind, String)| (p.0, p.1@))
}

impl View for ElementAttributes {
    type V = SAttrs;

    open spec fn view(&self) -> SAttrs {
        SAttrs {
            attributes: exprs_view(self.attributes@),
            bindings: exprs_view(self.bindings@),
            classes: exprs_view(self.classes@),
            styles: exprs_view(self.styles@),
            template: exprs_view(self.template@),
            i18n: exprs_view(self.i18n@),
            project_as: opt_string_view(self.project_as),
            known: known_view(self.known@),
        }
    }
}

fn append_exprs(v: &mut Vec<Expression>, items: Vec<Expression>)
    ensures
        exprs_view(final(v)@) == exprs_view(old(v)@) + exprs_view(items@),
{
    let ghost a = v@;
    let ghost b = items@;
    let mut items = items;
    v.append(&mut items);
    proof {
        lemma_exprs_view_append(a, b);
    }
}

impl ElementAttributes {
    /// No attributes yet.
    pub fn new(compatibility: CompatibilityMode) -> (r: Self)
        ensures
            r@ == empty_attrs(),
            r.compatibility == compatibility,
    {
        let r = ElementAttributes {
            attributes: Vec::new(),
            bindings: Vec::new(),
            classes: Vec::new(),
            styles: Vec::new(),
            template: Vec::new(),
            i18n: Vec::new(),
            project_as: None,
            known: Vec::new(),
            compatibility,
        };
        proof {
            assert(exprs_view(r.attributes@) =~= Seq::<SExpr>::empty());
            assert(known_view(r.known@) =~= Seq::<(BindingKind, Seq<char>)>::empty());
        }
        r
    }

    /// Whether a name of a kind was seen before; it is recorded as seen.
    pub fn is_known(&mut self, kind: BindingKind, name: &str) -> (r: bool)
        ensures
            r == old(self)@.known.contains((kind, name@)),
            final(self)@ == (if r {
                old(self)@
            } else {
                SAttrs { known: old(self)@.known.push((kind, name@)), ..old(self)@ }
            }),
            final(self).compatibility == old(self).compatibility,
    {
        let ghost kv = known_view(self.known@);
        let mut i: usize = 0;
        while i < self.known.len()
            invariant
                i <= self.known@.len(),
                kv == known_view(self.known@),
                kv.len() == self.known@.len(),
                forall|j: int| 0 <= j < i ==> kv[j] != (kind, name@),
            decreases self.known@.len() - i,
        {
            assert(kv[i as int] == (self.known@[i as int].0, self.known@[i as int].1@));
            if self.known[i].0 == kind && str_eq(self.known[i].1.as_str(), name) {
                assert(kv[i as int] == (kind, name@));
                return true;
            }
            i += 1;
        }
        let ghost before = self.known@;
        self.known.push((kind, name.to_string()));
        proof {
            assert(known_view(self.known@) =~= known_view(before).push((kind, name@)));
        }
        false
    }

    /// Add one attribute.
    pub fn add(
        &mut self,
        kind: BindingKind,
        name: String,
        value: Option<Expression>,
        namespace: Option<String>,
        trusted_value_fn: Option<Expression>,
    )
        requires
            spec_add(
                old(self)@,
                old(self).compatibility,
                kind,
                name@,
                opt_expr_view(value),
                opt_string_view(namespace),
                opt_expr_view(trusted_value_fn),
            ) is Some,
        ensures
            final(self).compatibility == old(self).compatibility,
            Some(final(self)@) == spec_add(
                old(self)@,
                old(self).compatibility,
                kind,
                name@,
                opt_expr_view(value),
                opt_string_view(namespace),
                opt_expr_view(trusted_value_fn),
            ),
    {
        let dup_ok = self.compatibility == CompatibilityMode::TemplateDefinitionBuilder && (kind
            == BindingKind::Attribute || kind == BindingKind::ClassName || kind == BindingKind::StyleProperty);
        if !dup_ok && self.is_known(kind, name.as_str()) {
            return;
        }
        if str_eq(name.as_str(), "ngProjectAs") {
            match value {
                Some(Expression::Literal(l)) => match l.value {
                    LiteralValue::String(s) => {
                        self.project_as = Some(s);
                    },
                    _ => {},
                },
                _ => {},
            }
            return;
        }
        let handled = kind == BindingKind::Property || kind == BindingKind::TwoWayProperty || kind
            == BindingKind::Attribute || kind == BindingKind::ClassName || kind == BindingKind::StyleProperty
            || kind == BindingKind::Template || kind == BindingKind::I18n;
        if !handled {
            return;
        }
        let ghost vv = opt_expr_view(value);
        let ghost tv = opt_expr_view(trusted_value_fn);
        let ghost spec_prefix = match opt_string_view(namespace) {
            Some(n) => seq![marker_lit(AttributeMarker::NamespaceURI), str_lit(n)],
            None => Seq::empty(),
        }.push(str_lit(name@));
        let mut items: Vec<Expression> = Vec::new();
        proof {
            assert(exprs_view(items@) =~= Seq::<SExpr>::empty());
        }
        match namespace {
            Some(ns) => {
                let m = marker_expr(AttributeMarker::NamespaceURI);
                let ghost b0 = items@;
                items.push(m);
                proof {
                    lemma_exprs_view_push(b0, m);
                }
                let e = str_expr(ns);
                let ghost b1 = items@;
                items.push(e);
                proof {
                    lemma_exprs_view_push(b1, e);
                }
            },
            None => {},
        }
        let ne = str_expr(name);
        let ghost b2 = items@;
        items.push(ne);
        proof {
            lemma_exprs_view_push(b2, ne);
            assert(exprs_view(items@) =~= spec_prefix);
        }
        if kind == BindingKind::Attribute || kind == BindingKind::StyleProperty {
            match value {
                Some(v) => match trusted_value_fn {
                    None => {
                        let ghost b = items@;
                        items.push(v);
                        proof {
                            lemma_exprs_view_push(b, v);
                        }
                    },
                    Some(f) => match v {
                        Expression::Literal(l) => match l.value {
                            LiteralValue::String(x) => {
                                let mut elements: Vec<TemplateLiteralElement> = Vec::new();
                                let text = x.clone();
                                elements.push(
                                    TemplateLiteralElement {
                                        text,
                                        raw_text: x,
                                        source_span: clone_opt_span(&l.source_span),
                                    },
                                );
                                let no_exprs: Vec<Expression> = Vec::new();
                                proof {
                                    assert(exprs_view(no_exprs@) =~= Seq::<SExpr>::empty());
                                }
                                let t = Expression::TaggedTemplate {
                                    tag: Box::new(f),
                                    elements,
                                    expressions: no_exprs,
                                    source_span: l.source_span,
                                };
                                let ghost b = items@;
                                items.push(t);
                                proof {
                                    lemma_exprs_view_push(b, t);
                                    assert(tpl_elements_view(elements@) =~= seq![
                                        STplElement { text: x@, raw_text: x@, source_span: opt_span_view(l.source_span) },
                                    ]);
                                }
                            },
                            _ => {},
                        },
                        _ => {},
                    },
                },
                None => {},
            }
        }
        proof {
            assert(exprs_view(items@) =~= spec_prefix + value_items(kind, vv, tv).unwrap());
        }
        if kind == BindingKind::Property || kind == BindingKind::TwoWayProperty {
            append_exprs(&mut self.bindings, items);
        } else if kind == BindingKind::Attribute {
            append_exprs(&mut self.attributes, items);
        } else if kind == BindingKind::ClassName {
            append_exprs(&mut self.classes, items);
        } else if kind == BindingKind::StyleProperty {
            append_exprs(&mut self.styles, items);
        } else if kind == BindingKind::Template {
            append_exprs(&mut self.template, items);
        } else {
            append_exprs(&mut self.i18n, items);
        }
    }
}

// ---------------------------------------------------------------------------------------------
// Serialization
// ---------------------------------------------------------------------------------------------

/// A section of the array: its marker and entries, or nothing when it has no entries.
pub open spec fn section(m: AttributeMarker, s: Seq<SExpr>) -> Seq<SExpr> {
    if s.len() == 0 {
        Seq::empty()
    } else {
        seq![marker_lit(m)] + s
    }
}

/// One selector of an `ngProjectAs` value: `["", element, ""]`, `["", "", class]` for `.class`,
/// `["", id, ""]` for `#id`.
pub open spec fn selector_item(part: Seq<char>) -> SExpr {
    let entries = if part.len() > 0 && part[0] == '.' {
        seq![str_lit(Seq::empty()), str_lit(Seq::empty()), str_lit(part.skip(1))]
    } else if part.len() > 0 && part[0] == '#' {
        seq![str_lit(Seq::empty()), str_lit(part.skip(1)), str_lit(Seq::empty())]
    } else {
        seq![str_lit(Seq::empty()), str_lit(part), str_lit(Seq::empty())]
    };
    SExpr::LiteralArray { entries, source_span: None }
}

/// The projection section: its marker and the comma-separated selectors, trimmed.
pub open spec fn project_as_entries(p: Option<Seq<char>>) -> Seq<SExpr> {
    match p {
        None => Seq::empty(),
        Some(sel) => seq![
            marker_lit(AttributeMarker::ProjectAs),
            SExpr::LiteralArray {
                entries: spec_split_char(sel, ',').map_values(|x: Seq<char>| selector_item(spec_trim(x))),
                source_span: None,
            },
        ],
    }
}

/// The constant array of an element's attributes: the plain attributes, then the projection,
/// class, style, binding, template and i18n sections.
pub open spec fn spec_serialize(s: SAttrs) -> Seq<SExpr> {
    s.attributes + project_as_entries(s.project_as) + section(AttributeMarker::Classes, s.classes) + section(
        AttributeMarker::Styles,
        s.styles,
    ) + section(AttributeMarker::Bindings, s.bindings) + section(AttributeMarker::Template, s.template)
        + section(AttributeMarker::I18n, s.i18n)
}

fn push_section(out: &mut Vec<Expression>, m: AttributeMarker, items: Vec<Expression>)
    ensures
        exprs_view(final(out)@) == exprs_view(old(out)@) + section(m, exprs_view(items@)),
{
    proof {
        crate::output::lemma_exprs_view_len(items@);
    }
    if items.len() == 0 {
        assert(exprs_view(old(out)@) + section(m, exprs_view(items@)) =~= exprs_view(old(out)@));
        return;
    }
    let me = marker_expr(m);
    let ghost b = out@;
    out.push(me);
    proof {
        lemma_exprs_view_push(b, me);
    }
    append_exprs(out, items);
    assert(exprs_view(out@) =~= exprs_view(b) + section(m, exprs_view(items@)));
}

/// A list of two expressions.
fn vec2(a: Expression, b: Expression) -> (r: Vec<Expression>)
    ensures
        exprs_view(r@) == seq![expr_view(a), expr_view(b)],
{
    let mut r: Vec<Expression> = Vec::new();
    proof {
        assert(exprs_view(r@) =~= Seq::<SExpr>::empty());
    }
    let ghost r0 = r@;
    r.push(a);
    proof {
        lemma_exprs_view_push(r0, a);
    }
    let ghost r1 = r@;
    r.push(b);
    proof {
        lemma_exprs_view_push(r1, b);
        assert(exprs_view(r@) =~= seq![expr_view(a), expr_view(b)]);
    }
    r
}

/// A list of three expressions.
fn vec3(a: Expression, b: Expression, c: Expression) -> (r: Vec<Expression>)
    ensures
        exprs_view(r@) == seq![expr_view(a), expr_view(b), expr_view(c)],
{
    let mut r = vec2(a, b);
    let ghost r2 = r@;
    r.push(c);
    proof {
        lemma_exprs_view_push(r2, c);
        assert(exprs_view(r@) =~= seq![expr_view(a), expr_view(b), expr_view(c)]);
    }
    r
}

/// The selector array of one trimmed part.
fn selector_expr(part: &Vec<char>) -> (r: Expression)
    ensures
        expr_view(r) == selector_item(part@),
{
    let n = part.len();
    let entries = if n > 0 && part[0] == '.' {
        vec3(str_expr(String::new()), str_expr(String::new()), str_expr(string_of(part, 1, n)))
    } else if n > 0 && part[0] == '#' {
        vec3(str_expr(String::new()), str_expr(string_of(part, 1, n)), str_expr(String::new()))
    } else {
        vec3(str_expr(String::new()), str_expr(string_of(part, 0, n)), str_expr(String::new()))
    };
    proof {
        if n > 0 {
            assert(part@.subrange(1, n as int) =~= part@.skip(1));
        }
        assert(part@.subrange(0, n as int) =~= part@);
    }
    Expression::LiteralArray(LiteralArrayExpr { entries, source_span: None })
}

/// The projection section of a selector.
fn project_as_exprs(sel: &String) -> (r: Vec<Expression>)
    ensures
        exprs_view(r@) == project_as_entries(Some(sel@)),
{
    let chars = chars_of(sel.as_str());
    let parts = split_char(chars.as_slice(), ',');
    let ghost ps = spec_split_char(sel@, ',');
    let mut items: Vec<Expression> = Vec::new();
    let mut i: usize = 0;
    proof {
        assert(exprs_view(items@) =~= Seq::<SExpr>::empty());
    }
    while i < parts.len()
        invariant
            i <= parts@.len(),
            parts@.len() == ps.len(),
            ps == spec_split_char(sel@, ','),
            forall|j: int| 0 <= j < parts@.len() ==> #[trigger] parts@[j]@ == ps[j],
            exprs_view(items@) == ps.take(i as int).map_values(|x: Seq<char>| selector_item(spec_trim(x))),
        decreases parts@.len() - i,
    {
        let t = trim(parts[i].as_slice());
        let e = selector_expr(&t);
        let ghost b = items@;
        items.push(e);
        proof {
            lemma_exprs_view_push(b, e);
            assert(ps.take(i + 1).map_values(|x: Seq<char>| selector_item(spec_trim(x))) =~= ps.take(i as int).map_values(
                |x: Seq<char>| selector_item(spec_trim(x)),
            ).push(selector_item(spec_trim(ps[i as int]))));
        }
        i += 1;
    }
    proof {
        assert(ps.take(ps.len() as int) =~= ps);
    }
    vec2(
        marker_expr(AttributeMarker::ProjectAs),
        Expression::LiteralArray(LiteralArrayExpr { entries: items, source_span: None }),
    )
}

/// The constant array of an element's attributes.
pub fn serialize_attributes(attrs: ElementAttributes) -> (r: LiteralArrayExpr)
    ensures
        exprs_view(r.entries@) == spec_serialize(attrs@),
        r.source_span is None,
{
    let ghost a = attrs@;
    let ElementAttributes { attributes, bindings, classes, styles, template, i18n, project_as, .. } = attrs;
    let mut out = attributes;
    match &project_as {
        Some(sel) => {
            let p = project_as_exprs(sel);
            append_exprs(&mut out, p);
        },
        None => {
            assert(exprs_view(out@) + project_as_entries(a.project_as) =~= exprs_view(out@));
        },
    }
    push_section(&mut out, AttributeMarker::Classes, classes);
    push_section(&mut out, AttributeMarker::Styles, styles);
    push_section(&mut out, AttributeMarker::Bindings, bindings);
    push_section(&mut out, AttributeMarker::Template, template);
    push_section(&mut out, AttributeMarker::I18n, i18n);
    LiteralArrayExpr { entries: out, source_span: None }
}

// ---------------------------------------------------------------------------------------------
// Collection
// ---------------------------------------------------------------------------------------------

/// The extracted attributes of a creation list gathered in order (`None` before the first), and
/// the other operations; `None` where gathering one of them panics.
pub open spec fn spec_collect(
    create: Seq<SCreateOp>,
    compat: CompatibilityMode,
) -> Option<(Option<SAttrs>, Seq<SCreateOp>)>
    decreases create.len(),
{
    if create.len() == 0 {
        Some((None, Seq::empty()))
    } else {
        match spec_collect(create.drop_last(), compat) {
            None => None,
            Some(prev) => match create.last() {
                SCreateOp::ExtractedAttribute(e) => {
                    let base = match prev.0 {
                        Some(a) => a,
                        None => empty_attrs(),
                    };
                    match spec_add(base, compat, e.binding_kind, e.name, e.expression, e.namespace, e.trusted_value_fn) {
                        Some(b) => Some((Some(b), prev.1)),
                        None => None,
                    }
                },
                op => Some((prev.0, prev.1.push(op))),
            },
        }
    }
}

/// Whether every extracted attribute of the list targets `x`.
pub open spec fn all_target(create: Seq<SCreateOp>, x: XrefId) -> bool {
    forall|k: int| 0 <= k < create.len() ==> (#[trigger] create[k] matches SCreateOp::ExtractedAttribute(e) ==> e.target == x)
}

/// The host attributes after collection: the serialized array when it is not empty, else the
/// attributes before.
pub open spec fn collected_attributes(attrs: Option<SAttrs>, before: Option<SExpr>) -> Option<SExpr> {
    match attrs {
        Some(a) => if spec_serialize(a).len() > 0 {
            Some(SExpr::LiteralArray { entries: spec_serialize(a), source_span: None })
        } else {
            before
        },
        None => before,
    }
}

proof fn lemma_collect_prefix(s: Seq<SCreateOp>, compat: CompatibilityMode, k: int)
    requires
        0 <= k <= s.len(),
        spec_collect(s, compat) is Some,
    ensures
        spec_collect(s.take(k), compat) is Some,
    decreases s.len(),
{
    if k < s.len() {
        assert(s.drop_last().take(k) =~= s.take(k));
        lemma_collect_prefix(s.drop_last(), compat, k);
    } else {
        assert(s.take(k) =~= s);
    }
}

/// The two jobs agree on everything but the root unit's creation list and attributes.
pub open spec fn same_but_create_and_attributes(a: HostBindingCompilationJob, b: HostBindingCompilationJob) -> bool {
    &&& a.component_name == b.component_name
    &&& a.pool == b.pool
    &&& a.compatibility == b.compatibility
    &&& a.mode == b.mode
    &&& a.root.xref == b.root.xref
    &&& a.root.fn_name == b.root.fn_name
    &&& a.root.vars == b.root.vars
    &&& a.root.update == b.root.update
}

/// Gather the extracted attributes of a host binding job into its host attributes, and take
/// them out of the creation list. Every attribute must target the root, and each must be one
/// that can be added (see `spec_add`): the phase cannot proceed on others.
pub fn collect_element_consts(job: &mut HostBindingCompilationJob)
    requires
        all_target(create_ops_view(old(job).root.create@), old(job).root.xref),
        spec_collect(create_ops_view(old(job).root.create@), old(job).compatibility) is Some,
    ensures
        same_but_create_and_attributes(*final(job), *old(job)),
        ({
            let r = spec_collect(create_ops_view(old(job).root.create@), old(job).compatibility).unwrap();
            &&& create_ops_view(final(job).root.create@) == r.1
            &&& opt_expr_view(final(job).root.attributes) == collected_attributes(
                r.0,
                opt_expr_view(old(job).root.attributes),
            )
        }),
{
    let ghost c0 = job.root.create@;
    let ghost cv = create_ops_view(c0);
    let compat = job.compatibility;
    proof {
        lemma_create_ops_view_len(c0);
    }
    let mut create: Vec<CreateOp> = Vec::new();
    std::mem::swap(&mut create, &mut job.root.create);
    let n = create.len();
    let mut rest: Vec<CreateOp> = Vec::new();
    let mut ea = ElementAttributes::new(compat);
    let mut any = false;
    let mut i: usize = 0;
    proof {
        assert(cv.take(0) =~= Seq::<SCreateOp>::empty());
        assert(create_ops_view(rest@) =~= Seq::<SCreateOp>::empty());
    }
    while i < n
        invariant
            n == c0.len(),
            i <= n,
            create@ == c0.skip(i as int),
            cv == create_ops_view(c0),
            cv.len() == n,
            ea.compatibility == compat,
            !any ==> ea@ == empty_attrs(),
            spec_collect(cv, compat) is Some,
            spec_collect(cv.take(i as int), compat) == Some(
                (if any { Some(ea@) } else { None::<SAttrs> }, create_ops_view(rest@)),
            ),
        decreases n - i,
    {
        let op = create.remove(0);
        assert(op == c0[i as int]);
        proof {
            lemma_create_ops_view_index(c0, i as int);
            assert(cv.take(i + 1).drop_last() =~= cv.take(i as int));
            assert(cv.take(i + 1).last() == create_op_view(op));
            lemma_collect_prefix(cv, compat, i + 1);
        }
        match op {
            CreateOp::ExtractedAttribute(e) => {
                ea.add(e.binding_kind, e.name, e.expression, e.namespace, e.trusted_value_fn);
                any = true;
            },
            other => {
                let ghost b = rest@;
                rest.push(other);
                proof {
                    lemma_create_ops_view_push(b, other);
                }
            },
        }
        proof {
            assert(create@ =~= c0.skip(i + 1));
        }
        i += 1;
    }
    proof {
        assert(cv.take(n as int) =~= cv);
    }
    job.root.create = rest;
    if any {
        let arr = serialize_attributes(ea);
        if arr.entries.len() > 0 {
            job.root.attributes = Some(Expression::LiteralArray(arr));
        } else {
            proof {
                crate::output::lemma_exprs_view_len(arr.entries@);
            }
        }
        proof {
            crate::output::lemma_exprs_view_len(arr.entries@);
        }
    }
}

/// An attribute added twice is kept once, unless repeats of its kind are allowed: the second
/// addition leaves the attributes as the first left them.
pub proof fn lemma_add_twice_keeps_once(
    s: SAttrs,
    compat: CompatibilityMode,
    kind: BindingKind,
    name: Seq<char>,
    value: Option<SExpr>,
    namespace: Option<Seq<char>>,
    trusted: Option<SExpr>,
    value2: Option<SExpr>,
    namespace2: Option<Seq<char>>,
    trusted2: Option<SExpr>,
)
    requires
        !allows_duplicates(compat, kind),
        spec_add(s, compat, kind, name, value, namespace, trusted) is Some,
    ensures
        spec_add(spec_add(s, compat, kind, name, value, namespace, trusted).unwrap(), compat, kind, name, value2, namespace2, trusted2)
            == spec_add(s, compat, kind, name, value, namespace, trusted),
{
    let s1 = spec_add(s, compat, kind, name, value, namespace, trusted).unwrap();
    if !s.known.contains((kind, name)) {
        assert(s.known.push((kind, name))[s.known.len() as int] == (kind, name));
    }
    assert(s1.known.contains((kind, name)));
}

} // verus!
