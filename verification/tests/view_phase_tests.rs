use template_pipeline::compilation::{ConstantPool, TemplateCompilationMode};
use template_pipeline::component::ComponentCompilationJob;
use template_pipeline::ir::{
    AttributeOp, BindingExpression, BindingKind, BindingOp, CompatibilityMode, CreateOp, ElementOpBase,
    Interpolation, Namespace, UpdateOp,
};
use template_pipeline::output::{Expression, XrefId};
use template_pipeline::phases::collapse_singleton_interpolations::collapse_singleton_interpolations;
use template_pipeline::phases::deduplicate_text_bindings::deduplicate_text_bindings;
use template_pipeline::phases::empty_elements::collapse_empty_instructions;
use template_pipeline::phases::namespace::emit_namespace_changes;
use template_pipeline::phases::local_refs::lift_local_refs;
use template_pipeline::ir::LocalRef;
use template_pipeline::phases::attribute_extraction::extract_attributes_in_component;
use template_pipeline::phases::any_cast::delete_any_casts_in_component;
use template_pipeline::output::{LiteralExpr, LiteralValue};
use template_pipeline::phases::generate_advance::generate_advance;
use template_pipeline::emit::emit_view;
use template_pipeline::component::ViewCompilationUnit;
use template_pipeline::output::Statement;

fn job(compat: CompatibilityMode) -> ComponentCompilationJob {
    ComponentCompilationJob::new(
        "Cmp".to_string(),
        ConstantPool::default(),
        compat,
        TemplateCompilationMode::Full,
        "cmp.ts".to_string(),
        false,
        None,
        None,
        false,
    )
}

fn base(id: u64, tag: &str, ns: Namespace) -> ElementOpBase {
    ElementOpBase { xref: XrefId { id }, tag: Some(tag.to_string()), namespace: ns, attributes: None, local_refs: vec![], local_refs_index: None, slot: None, non_bindable: false }
}

fn kinds(ops: &[CreateOp]) -> Vec<String> {
    ops.iter()
        .map(|op| match op {
            CreateOp::ElementStart(b) => format!("start{}", b.xref.id),
            CreateOp::Element(b) => format!("element{}", b.xref.id),
            CreateOp::ElementEnd { xref } => format!("end{}", xref.id),
            CreateOp::ContainerStart(b) => format!("cstart{}", b.xref.id),
            CreateOp::Container(b) => format!("container{}", b.xref.id),
            CreateOp::ContainerEnd { xref } => format!("cend{}", xref.id),
            CreateOp::Namespace { active } => format!("ns{:?}", active),
            CreateOp::Text { xref, .. } => format!("text{}", xref.id),
            _ => "other".to_string(),
        })
        .collect()
}

fn var(name: &str) -> Expression {
    Expression::ReadVar { name: name.to_string(), source_span: None }
}

fn text_attr(target: u64, name: &str, value: &str) -> UpdateOp {
    UpdateOp::Binding(BindingOp {
        target: XrefId { id: target },
        binding_kind: BindingKind::Attribute,
        name: name.to_string(),
        expression: BindingExpression::Expression(var(value)),
        unit: None,
        security_context: vec![],
        is_text_attribute: true,
        is_structural_template_attribute: false,
        template_kind: None,
        i18n_context: None,
        i18n_message: None,
        source_span: None,
    })
}

fn binding_value(op: &UpdateOp) -> (String, String) {
    match op {
        UpdateOp::Binding(b) => match &b.expression {
            BindingExpression::Expression(Expression::ReadVar { name, .. }) => (b.name.clone(), name.clone()),
            _ => panic!("unexpected expression"),
        },
        _ => panic!("not a binding"),
    }
}

#[test]
fn namespace_changes_precede_elements_of_another_namespace() {
    let mut j = job(CompatibilityMode::Normal);
    j.root.create = vec![
        CreateOp::ElementStart(base(1, "div", Namespace::HTML)),
        CreateOp::ElementStart(base(2, ":svg:svg", Namespace::SVG)),
        CreateOp::ElementStart(base(3, ":svg:circle", Namespace::SVG)),
        CreateOp::ElementEnd { xref: XrefId { id: 3 } },
        CreateOp::ElementEnd { xref: XrefId { id: 2 } },
        CreateOp::ElementStart(base(4, "span", Namespace::HTML)),
        CreateOp::ElementEnd { xref: XrefId { id: 4 } },
        CreateOp::ElementEnd { xref: XrefId { id: 1 } },
    ];
    emit_namespace_changes(&mut j);
    assert_eq!(
        kinds(&j.root.create),
        vec!["start1", "nsSVG", "start2", "start3", "end3", "end2", "nsHTML", "start4", "end4", "end1"]
    );
}

#[test]
fn namespace_changes_reach_embedded_views() {
    let mut j = job(CompatibilityMode::Normal);
    let v = j.allocate_view(None);
    j.views.get_mut(&v.id).unwrap().create = vec![CreateOp::ElementStart(base(5, ":math:math", Namespace::Math))];
    emit_namespace_changes(&mut j);
    assert_eq!(kinds(&j.views[&v.id].create), vec!["nsMath", "start5"]);
    assert!(j.root.create.is_empty());
}

#[test]
fn empty_elements_and_containers_merge() {
    let mut j = job(CompatibilityMode::Normal);
    j.root.create = vec![
        CreateOp::ElementStart(base(1, "div", Namespace::HTML)),
        CreateOp::ElementStart(base(2, "br", Namespace::HTML)),
        CreateOp::ElementEnd { xref: XrefId { id: 2 } },
        CreateOp::ContainerStart(base(3, "ng-container", Namespace::HTML)),
        CreateOp::ContainerEnd { xref: XrefId { id: 3 } },
        CreateOp::Text { xref: XrefId { id: 4 }, slot: None, initial_value: "hi".to_string() },
        CreateOp::ElementEnd { xref: XrefId { id: 1 } },
        CreateOp::ElementStart(base(5, "p", Namespace::HTML)),
        CreateOp::ElementEnd { xref: XrefId { id: 6 } },
    ];
    collapse_empty_instructions(&mut j);
    assert_eq!(
        kinds(&j.root.create),
        vec!["start1", "element2", "container3", "text4", "end1", "start5", "end6"]
    );
    match &j.root.create[1] {
        CreateOp::Element(b) => assert_eq!(b.tag.as_deref(), Some("br")),
        _ => panic!("expected an element"),
    }
    collapse_empty_instructions(&mut j);
    assert_eq!(kinds(&j.root.create).len(), 7);
}

fn singleton(expr: &str) -> BindingExpression {
    BindingExpression::Interpolation(Interpolation {
        strings: vec![String::new(), String::new()],
        expressions: vec![var(expr)],
        i18n_placeholders: vec![],
    })
}

#[test]
fn singleton_interpolations_collapse_for_attributes_and_styles() {
    let mut j = job(CompatibilityMode::Normal);
    j.root.update = vec![
        UpdateOp::Attribute(AttributeOp {
            target: XrefId { id: 1 },
            namespace: None,
            name: "title".to_string(),
            expression: singleton("t"),
            security_context: vec![],
            sanitizer: None,
            is_text_attribute: false,
            is_structural_template_attribute: false,
            template_kind: None,
            i18n_context: None,
            i18n_message: None,
            source_span: None,
        }),
        UpdateOp::StyleMap { target: XrefId { id: 1 }, expression: singleton("s") },
        UpdateOp::ClassMap {
            target: XrefId { id: 1 },
            expression: BindingExpression::Interpolation(Interpolation {
                strings: vec!["a".to_string(), String::new()],
                expressions: vec![var("c")],
                i18n_placeholders: vec![],
            }),
        },
        UpdateOp::InterpolateText { target: XrefId { id: 2 }, interpolation: match singleton("x") {
            BindingExpression::Interpolation(i) => i,
            _ => unreachable!(),
        } },
    ];
    collapse_singleton_interpolations(&mut j);
    match &j.root.update[0] {
        UpdateOp::Attribute(a) => assert!(matches!(&a.expression, BindingExpression::Expression(Expression::ReadVar { name, .. }) if name == "t")),
        _ => panic!(),
    }
    match &j.root.update[1] {
        UpdateOp::StyleMap { expression, .. } => assert!(matches!(expression, BindingExpression::Expression(_))),
        _ => panic!(),
    }
    match &j.root.update[2] {
        UpdateOp::ClassMap { expression, .. } => assert!(matches!(expression, BindingExpression::Interpolation(_))),
        _ => panic!(),
    }
    assert!(matches!(&j.root.update[3], UpdateOp::InterpolateText { .. }));
}

#[test]
fn duplicate_class_and_style_keep_the_last_in_compatibility_mode() {
    let mut j = job(CompatibilityMode::TemplateDefinitionBuilder);
    j.root.update = vec![
        text_attr(1, "class", "a"),
        text_attr(1, "title", "t1"),
        text_attr(1, "class", "b"),
        text_attr(1, "title", "t2"),
        text_attr(2, "class", "c"),
        text_attr(1, "style", "s1"),
        text_attr(1, "style", "s2"),
    ];
    deduplicate_text_bindings(&mut j);
    let kept: Vec<(String, String)> = j.root.update.iter().map(binding_value).collect();
    assert_eq!(
        kept,
        vec![
            ("title".to_string(), "t1".to_string()),
            ("class".to_string(), "b".to_string()),
            ("title".to_string(), "t2".to_string()),
            ("class".to_string(), "c".to_string()),
            ("style".to_string(), "s2".to_string()),
        ]
    );
}

#[test]
fn duplicates_stay_outside_compatibility_mode() {
    let mut j = job(CompatibilityMode::Normal);
    j.root.update = vec![text_attr(1, "class", "a"), text_attr(1, "class", "b")];
    deduplicate_text_bindings(&mut j);
    assert_eq!(j.root.update.len(), 2);
}

fn slotted(id: u64, slot: usize) -> CreateOp {
    let mut b = base(id, "div", Namespace::HTML);
    b.slot = Some(slot);
    CreateOp::Element(b)
}

fn class_prop(target: u64) -> UpdateOp {
    UpdateOp::ClassProp { target: XrefId { id: target }, name: "on".to_string(), expression: var("x"), source_span: None }
}

fn update_kinds(ops: &[UpdateOp]) -> Vec<String> {
    ops.iter()
        .map(|op| match op {
            UpdateOp::Advance { delta } => format!("advance{}", delta),
            UpdateOp::ClassProp { target, .. } => format!("class{}", target.id),
            UpdateOp::Statement(_) => "stmt".to_string(),
            _ => "other".to_string(),
        })
        .collect()
}

#[test]
fn advance_moves_the_counter_to_each_target_slot() {
    let mut j = job(CompatibilityMode::Normal);
    j.root.create = vec![slotted(1, 0), slotted(2, 1), slotted(3, 4)];
    j.root.update = vec![class_prop(1), class_prop(2), class_prop(2), class_prop(3)];
    assert_eq!(generate_advance(&mut j), Ok(()));
    assert_eq!(update_kinds(&j.root.update), vec!["class1", "advance1", "class2", "class2", "advance3", "class3"]);
}

#[test]
fn advance_refuses_a_counter_that_would_move_back() {
    let mut j = job(CompatibilityMode::Normal);
    j.root.create = vec![slotted(1, 0), slotted(2, 1)];
    j.root.update = vec![class_prop(2), class_prop(1)];
    assert_eq!(generate_advance(&mut j), Err(XrefId { id: 0 }));
    assert_eq!(update_kinds(&j.root.update), vec!["class2", "class1"]);
}

#[test]
fn advance_refuses_an_unassigned_slot() {
    let mut j = job(CompatibilityMode::Normal);
    j.root.create = vec![CreateOp::Element(base(1, "div", Namespace::HTML))];
    j.root.update = vec![];
    assert_eq!(generate_advance(&mut j), Err(XrefId { id: 0 }));
}

#[test]
fn advance_reaches_embedded_views() {
    let mut j = job(CompatibilityMode::Normal);
    let v = j.allocate_view(None);
    {
        let unit = j.views.get_mut(&v.id).unwrap();
        unit.create = vec![slotted(7, 2)];
        unit.update = vec![class_prop(7)];
    }
    assert_eq!(generate_advance(&mut j), Ok(()));
    assert_eq!(update_kinds(&j.views[&v.id].update), vec!["advance2", "class7"]);
}

#[test]
fn an_empty_view_emits_a_bare_template_function() {
    let unit = ViewCompilationUnit::new(XrefId { id: 0 }, None);
    match emit_view(&unit) {
        Expression::Fn { name, params, statements } => {
            assert_eq!(name.as_deref(), Some("template"));
            let names: Vec<String> = params.iter().map(|p| p.name.clone()).collect();
            assert_eq!(names, vec!["rf".to_string(), "ctx".to_string()]);
            assert!(statements.is_empty());
        }
        _ => panic!("expected a function"),
    }
}

#[test]
fn a_view_emits_creation_and_update_blocks() {
    let mut unit = ViewCompilationUnit::new(XrefId { id: 0 }, None);
    unit.fn_name = Some("Cmp_Template".to_string());
    unit.create = vec![slotted(1, 0)];
    unit.update = vec![class_prop(1)];
    match emit_view(&unit) {
        Expression::Fn { name, statements, .. } => {
            assert_eq!(name.as_deref(), Some("Cmp_Template"));
            assert_eq!(statements.len(), 2);
            for (k, st) in statements.iter().enumerate() {
                match st {
                    Statement::IfStmt { true_case, false_case, .. } => {
                        assert_eq!(true_case.len(), 1, "block {}", k);
                        assert!(false_case.is_empty());
                    }
                    _ => panic!("expected a render flag test"),
                }
            }
        }
        _ => panic!("expected a function"),
    }
    unit.create = vec![];
    match emit_view(&unit) {
        Expression::Fn { statements, .. } => assert_eq!(statements.len(), 1),
        _ => panic!("expected a function"),
    }
}

#[test]
fn local_refs_move_into_the_constants() {
    let mut j = job(CompatibilityMode::Normal);
    let mut with_refs = base(1, "input", Namespace::HTML);
    with_refs.local_refs = vec![
        LocalRef { name: "a".to_string(), target: "".to_string() },
        LocalRef { name: "b".to_string(), target: "ngModel".to_string() },
    ];
    let mut same_refs = base(2, "input", Namespace::HTML);
    same_refs.local_refs = vec![
        LocalRef { name: "a".to_string(), target: "".to_string() },
        LocalRef { name: "b".to_string(), target: "ngModel".to_string() },
    ];
    j.root.create = vec![
        CreateOp::ElementStart(with_refs),
        CreateOp::ElementStart(base(3, "div", Namespace::HTML)),
        CreateOp::ElementStart(same_refs),
    ];
    lift_local_refs(&mut j);
    assert_eq!(j.consts.len(), 1);
    match &j.consts[0] {
        Expression::LiteralArray(a) => {
            let strings: Vec<String> = a
                .entries
                .iter()
                .map(|e| match e {
                    Expression::Literal(template_pipeline::output::LiteralExpr {
                        value: template_pipeline::output::LiteralValue::String(s),
                        ..
                    }) => s.clone(),
                    _ => panic!("expected strings"),
                })
                .collect();
            assert_eq!(strings, vec!["a", "", "b", "ngModel"]);
        }
        _ => panic!("expected an array"),
    }
    let indices: Vec<(usize, Option<usize>)> = j
        .root
        .create
        .iter()
        .map(|op| match op {
            CreateOp::ElementStart(b) => (b.local_refs.len(), b.local_refs_index.map(|c| c.index)),
            _ => panic!(),
        })
        .collect();
    assert_eq!(indices, vec![(0, Some(0)), (0, None), (0, Some(0))]);
}

fn text_attribute(target: u64, name: &str, value: &str) -> UpdateOp {
    UpdateOp::Attribute(AttributeOp {
        target: XrefId { id: target },
        namespace: None,
        name: name.to_string(),
        expression: BindingExpression::Expression(Expression::Literal(LiteralExpr {
            value: LiteralValue::String(value.to_string()),
            source_span: None,
        })),
        security_context: vec![],
        sanitizer: None,
        is_text_attribute: true,
        is_structural_template_attribute: false,
        template_kind: None,
        i18n_context: None,
        i18n_message: None,
        source_span: None,
    })
}

fn extracted(ops: &[CreateOp]) -> Vec<(String, Option<String>)> {
    ops.iter()
        .filter_map(|op| match op {
            CreateOp::ExtractedAttribute(e) => Some((
                e.name.clone(),
                match &e.expression {
                    Some(Expression::Literal(LiteralExpr { value: LiteralValue::String(v), .. })) => Some(v.clone()),
                    _ => None,
                },
            )),
            _ => None,
        })
        .collect()
}

#[test]
fn embedded_views_get_their_class_and_style_attributes_extracted() {
    let mut j = job(CompatibilityMode::TemplateDefinitionBuilder);
    let v = j.allocate_view(None);
    {
        let unit = j.views.get_mut(&v.id).unwrap();
        unit.create = vec![
            CreateOp::ElementStart(base(5, "div", Namespace::HTML)),
            CreateOp::ElementEnd { xref: XrefId { id: 5 } },
        ];
        unit.update = vec![text_attribute(5, "class", "a  b"), text_attribute(5, "style", "color: red; ; width:10px")];
    }
    extract_attributes_in_component(&mut j);
    let unit = &j.views[&v.id];
    assert!(unit.update.is_empty());
    assert!(matches!(&unit.create[0], CreateOp::ElementStart(_)));
    assert_eq!(
        extracted(&unit.create),
        vec![
            ("a".to_string(), None),
            ("b".to_string(), None),
            ("color".to_string(), Some("red".to_string())),
            ("width".to_string(), Some("10px".to_string())),
        ]
    );
    assert!(matches!(&unit.create[5], CreateOp::ElementEnd { .. }));
}

#[test]
fn attributes_of_undeclared_targets_are_dropped_in_templates() {
    let mut j = job(CompatibilityMode::Normal);
    j.root.update = vec![text_attribute(9, "title", "x")];
    extract_attributes_in_component(&mut j);
    assert!(j.root.update.is_empty());
    assert!(j.root.create.is_empty());
}

fn any_call(arg: Expression) -> Expression {
    Expression::InvokeFn {
        fn_: Box::new(Expression::LexicalRead { name: "$any".to_string(), source_span: None }),
        args: vec![arg],
        source_span: None,
        pure: false,
    }
}

#[test]
fn any_casts_are_deleted_in_embedded_views() {
    let mut j = job(CompatibilityMode::Normal);
    let v = j.allocate_view(None);
    j.views.get_mut(&v.id).unwrap().update = vec![UpdateOp::ClassProp {
        target: XrefId { id: 1 },
        name: "on".to_string(),
        expression: any_call(var("x")),
        source_span: None,
    }];
    j.root.update = vec![UpdateOp::ClassProp {
        target: XrefId { id: 2 },
        name: "on".to_string(),
        expression: any_call(var("y")),
        source_span: None,
    }];
    delete_any_casts_in_component(&mut j);
    match &j.views[&v.id].update[0] {
        UpdateOp::ClassProp { expression: Expression::ReadVar { name, .. }, .. } => assert_eq!(name, "x"),
        _ => panic!("the cast was not deleted"),
    }
    match &j.root.update[0] {
        UpdateOp::ClassProp { expression: Expression::ReadVar { name, .. }, .. } => assert_eq!(name, "y"),
        _ => panic!("the cast was not deleted"),
    }
}

#[test]
fn allocated_views_are_fresh_and_keep_their_parent() {
    let mut j = job(CompatibilityMode::Normal);
    let a = j.allocate_view(None);
    let b = j.allocate_view(Some(a));
    assert_eq!(j.views[&b.id].parent, Some(a));
    assert_eq!(j.views[&b.id].xref, b);
    assert!(j.views[&b.id].create.is_empty() && j.views[&b.id].update.is_empty());
    assert_eq!(j.views[&a.id].parent, None);
}

#[test]
fn two_way_listeners_are_emitted_with_their_handler() {
    let ops = vec![CreateOp::TwoWayListener {
        element: XrefId { id: 1 },
        name: "valueChange".to_string(),
        handler_ops: vec![],
        handler_fn_name: Some("Cmp_valueChange_0".to_string()),
    }];
    let stmts = template_pipeline::emit::emit_create_ops(&ops);
    assert_eq!(stmts.len(), 1);
    match &stmts[0] {
        Statement::Expression { expr } => match &**expr {
            Expression::InvokeFn { fn_, args, .. } => {
                match &**fn_ {
                    Expression::External { value, .. } => assert_eq!(value.name.as_deref(), Some("ɵɵtwoWayListener")),
                    _ => panic!("not an instruction"),
                }
                assert_eq!(args.len(), 2);
                match &args[1] {
                    Expression::Fn { name, params, statements } => {
                        assert_eq!(name.as_deref(), Some("Cmp_valueChange_0"));
                        assert_eq!(params[0].name, "$event");
                        assert!(statements.is_empty());
                    }
                    _ => panic!("expected the handler function"),
                }
            }
            _ => panic!("not a call"),
        },
        _ => panic!("not an expression statement"),
    }
}
