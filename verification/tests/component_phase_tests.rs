use template_pipeline::compilation::{CompilationJob, ConstantPool, TemplateCompilationMode};
use template_pipeline::component::ComponentCompilationJob;
use template_pipeline::ir::{
    BindingExpression, BindingKind, BindingOp, CompatibilityMode, CreateOp, ElementOpBase, ExtractedAttributeOp, Namespace,
    UpdateOp,
};
use template_pipeline::phases::component_consts::collect_element_consts_in_component;
use template_pipeline::output::{
    BinaryOperator, Expression, ExternalReference, LiteralArrayExpr, LiteralExpr, LiteralValue, Statement, StmtModifier,
    XrefId,
};
use template_pipeline::phases::binding_specialization::specialize_bindings_in_component;
use template_pipeline::phases::chaining::chain_in_component;
use template_pipeline::view_query::{emit_view_query_function, R3QueryMetadata, R3QueryPredicate};

fn job() -> ComponentCompilationJob {
    ComponentCompilationJob::new(
        "Cmp".to_string(),
        ConstantPool::default(),
        CompatibilityMode::Normal,
        TemplateCompilationMode::Full,
        "cmp.ts".to_string(),
        false,
        None,
        None,
        false,
    )
}

fn query(prop: &str, selector: &str, first: bool, is_signal: bool) -> R3QueryMetadata {
    R3QueryMetadata {
        property_name: prop.to_string(),
        first,
        predicate: R3QueryPredicate::Selectors(vec![selector.to_string()]),
        descendants: true,
        static_: false,
        emit_distinct_changes_only: true,
        read: None,
        is_signal,
    }
}

fn callee_name(e: &Expression) -> Option<String> {
    match e {
        Expression::External { value, .. } => value.name.clone(),
        _ => None,
    }
}

fn int_value(e: &Expression) -> Option<i64> {
    match e {
        Expression::Literal(LiteralExpr { value: LiteralValue::Integer(n), .. }) => Some(*n),
        _ => None,
    }
}

fn selector_of(e: &Expression) -> Option<String> {
    match e {
        Expression::LiteralArray(LiteralArrayExpr { entries, .. }) if entries.len() == 1 => match &entries[0] {
            Expression::Literal(LiteralExpr { value: LiteralValue::String(s), .. }) => Some(s.clone()),
            _ => None,
        },
        _ => None,
    }
}

/// The body of a function expression.
fn body(f: &Expression) -> (&Option<String>, &Vec<Statement>) {
    match f {
        Expression::Fn { name, statements, params } => {
            assert_eq!(params.iter().map(|p| p.name.clone()).collect::<Vec<_>>(), vec!["rf", "ctx"]);
            (name, statements)
        },
        _ => panic!("function expected"),
    }
}

fn block(s: &Statement) -> (i64, &Vec<Statement>) {
    match s {
        Statement::IfStmt { condition, true_case, false_case } => {
            assert!(false_case.is_empty());
            match &**condition {
                Expression::BinaryOp { operator: BinaryOperator::BitwiseAnd, lhs, rhs, .. } => {
                    assert!(matches!(&**lhs, Expression::ReadVar { name, .. } if name == "rf"));
                    (int_value(rhs).unwrap(), true_case)
                },
                _ => panic!("render flag test expected"),
            }
        },
        _ => panic!("if statement expected"),
    }
}

#[test]
fn view_children_are_created_in_one_chain_and_refreshed_one_by_one() {
    let qs = vec![query("checkbox", "cb", true, false), query("input", "in", true, false), query("label", "lb", false, false)];
    let f = emit_view_query_function(&qs, "Cmp");
    let (name, stmts) = body(&f);
    assert_eq!(name.as_deref(), Some("Cmp_Query"));
    assert_eq!(stmts.len(), 2);
    let (flag, create) = block(&stmts[0]);
    assert_eq!(flag, 1);
    assert_eq!(create.len(), 1);
    // viewQuery(["cb"], 5)(["in"], 5)(["lb"], 4)
    let mut seen = Vec::new();
    let mut e: &Expression = match &create[0] {
        Statement::Expression { expr } => expr,
        _ => panic!("expression statement expected"),
    };
    while let Expression::InvokeFn { fn_, args, .. } = e {
        seen.push((selector_of(&args[0]).unwrap(), int_value(&args[1]).unwrap()));
        if let Some(n) = callee_name(fn_) {
            assert_eq!(n, "ɵɵviewQuery");
        }
        e = fn_;
    }
    seen.reverse();
    assert_eq!(seen, vec![("cb".to_string(), 5), ("in".to_string(), 5), ("lb".to_string(), 4)]);
    let (flag, update) = block(&stmts[1]);
    assert_eq!(flag, 2);
    assert_eq!(update.len(), 4);
    match &update[0] {
        Statement::DeclareVar { name, value, modifiers, .. } => {
            assert_eq!(name, "_t");
            assert!(value.is_none());
            assert_eq!(*modifiers, StmtModifier::Plain);
        },
        _ => panic!("declaration expected"),
    }
    // queryRefresh(_t = loadQuery()) && (ctx.checkbox = _t.first)
    match &update[1] {
        Statement::Expression { expr } => match &**expr {
            Expression::BinaryOp { operator: BinaryOperator::And, lhs, rhs, .. } => {
                match &**lhs {
                    Expression::InvokeFn { fn_, args, .. } => {
                        assert_eq!(callee_name(fn_).as_deref(), Some("ɵɵqueryRefresh"));
                        assert!(matches!(&args[0], Expression::BinaryOp { operator: BinaryOperator::Assign, .. }));
                    },
                    _ => panic!("refresh call expected"),
                }
                match &**rhs {
                    Expression::Parens { expr } => match &**expr {
                        Expression::BinaryOp { operator: BinaryOperator::Assign, lhs, rhs, .. } => {
                            assert!(matches!(&**lhs, Expression::ReadProp { name, .. } if name == "checkbox"));
                            assert!(matches!(&**rhs, Expression::ReadProp { name, .. } if name == "first"));
                        },
                        _ => panic!("assignment expected"),
                    },
                    _ => panic!("parenthesized assignment expected"),
                }
            },
            _ => panic!("conjunction expected"),
        },
        _ => panic!("expression statement expected"),
    }
    // a query that keeps all results is assigned the whole list
    match &update[3] {
        Statement::Expression { expr } => match &**expr {
            Expression::BinaryOp { rhs, .. } => match &**rhs {
                Expression::Parens { expr } => match &**expr {
                    Expression::BinaryOp { rhs, .. } => {
                        assert!(matches!(&**rhs, Expression::ReadVar { name, .. } if name == "_t"))
                    },
                    _ => panic!("assignment expected"),
                },
                _ => panic!("parenthesized assignment expected"),
            },
            _ => panic!("conjunction expected"),
        },
        _ => panic!("expression statement expected"),
    }
}

#[test]
fn a_signal_query_breaks_the_chain_and_advances() {
    let mut sig = query("items", "it", false, true);
    sig.read = Some(Expression::ReadVar { name: "TOKEN".to_string(), source_span: None });
    let qs = vec![query("a", "x", true, false), sig, query("b", "y", true, false)];
    let f = emit_view_query_function(&qs, "Cmp");
    let (_, stmts) = body(&f);
    let (_, create) = block(&stmts[0]);
    assert_eq!(create.len(), 3);
    match &create[1] {
        Statement::Expression { expr } => match &**expr {
            Expression::InvokeFn { fn_, args, .. } => {
                assert_eq!(callee_name(fn_).as_deref(), Some("ɵɵviewQuerySignal"));
                assert_eq!(args.len(), 4);
                assert!(matches!(&args[0], Expression::ReadProp { name, .. } if name == "items"));
                assert_eq!(selector_of(&args[1]).as_deref(), Some("it"));
                // descendants (1) and distinct changes only (4)
                assert_eq!(int_value(&args[2]), Some(5));
                assert!(matches!(&args[3], Expression::ReadVar { name, .. } if name == "TOKEN"));
            },
            _ => panic!("call expected"),
        },
        _ => panic!("expression statement expected"),
    }
    let (_, update) = block(&stmts[1]);
    assert_eq!(update.len(), 4);
    match &update[2] {
        Statement::Expression { expr } => match &**expr {
            Expression::InvokeFn { fn_, args, .. } => {
                assert_eq!(callee_name(fn_).as_deref(), Some("ɵɵqueryAdvance"));
                assert!(args.is_empty());
            },
            _ => panic!("call expected"),
        },
        _ => panic!("expression statement expected"),
    }
}

#[test]
fn signal_queries_alone_declare_no_temporary() {
    let mut q = query("items", "it", false, true);
    q.predicate = R3QueryPredicate::Reference(Expression::ReadVar { name: "Item".to_string(), source_span: None });
    let f = emit_view_query_function(&vec![q], "Cmp");
    let (_, stmts) = body(&f);
    let (_, create) = block(&stmts[0]);
    match &create[0] {
        Statement::Expression { expr } => match &**expr {
            Expression::InvokeFn { args, .. } => assert_eq!(selector_of(&args[1]).as_deref(), Some("")),
            _ => panic!("call expected"),
        },
        _ => panic!("expression statement expected"),
    }
    let (_, update) = block(&stmts[1]);
    assert_eq!(update.len(), 1);
}

#[test]
fn no_queries_give_an_empty_function() {
    let f = emit_view_query_function(&vec![], "Cmp");
    let (name, stmts) = body(&f);
    assert_eq!(name.as_deref(), Some("Cmp_Query"));
    assert!(stmts.is_empty());
}

#[test]
fn xrefs_are_handed_out_in_order() {
    let mut j = job();
    assert_eq!(j.allocate_xref_id().id, 1);
    assert_eq!(j.allocate_xref_id().id, 2);
    assert_eq!(j.allocate_view(None).id, 3);
    assert_eq!(j.allocate_xref_id().id, 4);
}

#[test]
fn adding_a_constant_twice_keeps_one() {
    let mut j = job();
    let lit = |s: &str| Expression::Literal(LiteralExpr { value: LiteralValue::String(s.to_string()), source_span: None });
    let a = j.add_const(lit("a"), None);
    let b = j.add_const(lit("b"), Some(vec![lit("init")]));
    let again = j.add_const(lit("a"), Some(vec![lit("ignored")]));
    assert_eq!(a.index, 0);
    assert_eq!(b.index, 1);
    assert_eq!(again.index, 0);
    assert_eq!(j.consts.len(), 2);
    assert_eq!(j.consts_initializers.len(), 1);
}

fn style_call(v: &str) -> UpdateOp {
    UpdateOp::Statement(Statement::Expression {
        expr: Box::new(Expression::InvokeFn {
            fn_: Box::new(Expression::External {
                value: ExternalReference {
                    name: Some("ɵɵstyleProp".to_string()),
                    module_name: Some("@angular/core".to_string()),
                },
                source_span: None,
            }),
            args: vec![Expression::Literal(LiteralExpr { value: LiteralValue::String(v.to_string()), source_span: None })],
            source_span: None,
            pure: false,
        }),
    })
}

#[test]
fn chaining_reaches_embedded_views() {
    let mut j = job();
    let v = j.allocate_view(None);
    j.views.get_mut(&v.id).unwrap().update = vec![style_call("a"), style_call("b")];
    j.root.update = vec![style_call("c")];
    chain_in_component(&mut j);
    assert_eq!(j.views[&v.id].update.len(), 1);
    assert_eq!(j.root.update.len(), 1);
}

#[test]
fn specialization_reaches_embedded_views() {
    let mut j = job();
    let v = j.allocate_view(None);
    j.views.get_mut(&v.id).unwrap().update = vec![UpdateOp::Binding(BindingOp {
        target: XrefId { id: 3 },
        binding_kind: BindingKind::Attribute,
        name: "title".to_string(),
        expression: BindingExpression::Expression(Expression::ReadVar { name: "t".to_string(), source_span: None }),
        unit: None,
        security_context: vec![],
        is_text_attribute: false,
        is_structural_template_attribute: false,
        template_kind: None,
        i18n_context: None,
        i18n_message: None,
        source_span: None,
    })];
    specialize_bindings_in_component(&mut j);
    match &j.views[&v.id].update[0] {
        UpdateOp::Attribute(a) => assert_eq!(a.name, "title"),
        _ => panic!("attribute operation expected"),
    }
}

fn extracted(target: u64, kind: BindingKind, name: &str, value: Option<&str>) -> CreateOp {
    CreateOp::ExtractedAttribute(ExtractedAttributeOp {
        target: XrefId { id: target },
        binding_kind: kind,
        namespace: None,
        name: name.to_string(),
        expression: value.map(|v| Expression::Literal(LiteralExpr { value: LiteralValue::String(v.to_string()), source_span: None })),
        i18n_context: None,
        i18n_message: None,
        security_context: vec![],
        trusted_value_fn: None,
        source_span: None,
    })
}

fn element(id: u64) -> ElementOpBase {
    ElementOpBase {
        xref: XrefId { id },
        tag: Some("div".to_string()),
        namespace: Namespace::HTML,
        attributes: None,
        local_refs: vec![],
        local_refs_index: None,
        slot: None,
        non_bindable: false,
    }
}

#[test]
fn element_constants_are_collected_across_views() {
    let mut j = job();
    let v = j.allocate_view(None);
    j.root.create = vec![
        CreateOp::ElementStart(element(1)),
        extracted(1, BindingKind::Attribute, "title", Some("x")),
        CreateOp::ElementEnd { xref: XrefId { id: 1 } },
        CreateOp::Element(element(2)),
    ];
    j.views.get_mut(&v.id).unwrap().create = vec![
        extracted(6, BindingKind::Property, "value", None),
        CreateOp::Element(element(6)),
        CreateOp::Projection { xref: XrefId { id: 6 }, slot: None, projection_slot_index: 0, attributes: None },
    ];
    collect_element_consts_in_component(&mut j);
    assert_eq!(j.consts.len(), 2);
    match &j.root.create[..] {
        [CreateOp::ElementStart(a), CreateOp::ElementEnd { .. }, CreateOp::Element(b)] => {
            assert_eq!(a.attributes.map(|c| c.index), Some(0));
            assert!(b.attributes.is_none());
        },
        _ => panic!("the extracted attribute should be gone"),
    }
    match &j.views[&v.id].create[..] {
        [CreateOp::Element(e), CreateOp::Projection { attributes, .. }] => {
            assert_eq!(e.attributes.map(|c| c.index), Some(1));
            assert!(matches!(attributes, Some(Expression::LiteralArray(_))));
        },
        _ => panic!("the extracted attribute should be gone"),
    }
    // title="x" is written as its name and value
    match &j.consts[0] {
        Expression::LiteralArray(a) => assert_eq!(a.entries.len(), 2),
        _ => panic!("constant array expected"),
    }
}
