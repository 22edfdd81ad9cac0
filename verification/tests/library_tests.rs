use template_pipeline::compilation::{ConstantPool, HostBindingCompilationJob, TemplateCompilationMode};
use template_pipeline::component::ComponentCompilationJob;
use template_pipeline::equivalence::is_equivalent;
use template_pipeline::conversion::{binary_operator_from_str, key_for_namespace, namespace_for_key, prefix_with_namespace};
use template_pipeline::emit::{emit_create_ops, emit_host_binding_function, emit_ops};
use template_pipeline::ir::{
    AttributeOp, BindingExpression, BindingKind, CompatibilityMode, CreateOp, ElementOpBase, Interpolation,
    Namespace, SecurityContext, UpdateOp,
};
use template_pipeline::ingest::{ingest_host_binding, HostBindingInput};
use template_pipeline::output::{BinaryOperator, Expression, ExternalReference, LiteralArrayExpr, LiteralExpr, LiteralValue, Statement, StmtModifier, XrefId};
use template_pipeline::phases::attribute_extraction::{extract_attributes, is_constant};
use template_pipeline::phases::any_cast::{delete_any_casts, strip_expr};
use template_pipeline::phases::binding_specialization::is_aria_attribute;
use template_pipeline::phases::chaining::chain;
use template_pipeline::phases::const_collection::{collect_element_consts, serialize_attributes, ElementAttributes};
use template_pipeline::phases::host_style_property_parsing::{hyphenate, parse_property};
use template_pipeline::phases::i18n_const_collection::{declare_i18n_variable, get_translation_const_prefix};
use template_pipeline::phases::run_host;
use template_pipeline::schema::security_context;
use template_pipeline::text::{split_char, split_whitespace, trim};

fn string_lit(s: &str) -> Expression {
    Expression::Literal(LiteralExpr { value: LiteralValue::String(s.to_string()), source_span: None })
}

fn lit_string(e: &Expression) -> Option<String> {
    match e {
        Expression::Literal(LiteralExpr { value: LiteralValue::String(s), .. }) => Some(s.clone()),
        _ => None,
    }
}

fn lit_int(e: &Expression) -> Option<i64> {
    match e {
        Expression::Literal(LiteralExpr { value: LiteralValue::Integer(n), .. }) => Some(*n),
        _ => None,
    }
}

fn core_call(name: &str, args: Vec<Expression>) -> Statement {
    Statement::Expression {
        expr: Box::new(Expression::InvokeFn {
            fn_: Box::new(Expression::External {
                value: ExternalReference {
                    name: Some(name.to_string()),
                    module_name: Some("@angular/core".to_string()),
                },
                source_span: None,
            }),
            args,
            source_span: None,
            pure: false,
        }),
    }
}

fn host_job() -> HostBindingCompilationJob {
    HostBindingCompilationJob::new(
        "TestComp".to_string(),
        ConstantPool::default(),
        CompatibilityMode::TemplateDefinitionBuilder,
        TemplateCompilationMode::DomOnly,
    )
}

fn text_attribute(name: &str, value: &str) -> UpdateOp {
    UpdateOp::Attribute(AttributeOp {
        target: XrefId { id: 0 },
        namespace: None,
        name: name.to_string(),
        expression: BindingExpression::Expression(string_lit(value)),
        security_context: vec![SecurityContext::NONE],
        sanitizer: None,
        is_text_attribute: true,
        is_structural_template_attribute: false,
        template_kind: None,
        i18n_context: None,
        i18n_message: None,
        source_span: None,
    })
}

fn chars(s: &str) -> Vec<char> {
    s.chars().collect()
}

fn strings(v: &Vec<Vec<char>>) -> Vec<String> {
    v.iter().map(|w| w.iter().collect()).collect()
}

#[test]
fn binary_operators_are_parsed_from_their_text() {
    assert_eq!(binary_operator_from_str("+"), Some(BinaryOperator::Plus));
    assert_eq!(binary_operator_from_str("&&"), Some(BinaryOperator::And));
    assert_eq!(binary_operator_from_str("??="), Some(BinaryOperator::NullishCoalesceAssignment));
    assert_eq!(binary_operator_from_str("<>"), None);
}

#[test]
fn namespace_keys_round_trip() {
    assert_eq!(namespace_for_key(Some("svg")), Namespace::SVG);
    assert_eq!(namespace_for_key(Some("math")), Namespace::Math);
    assert_eq!(namespace_for_key(None), Namespace::HTML);
    assert_eq!(key_for_namespace(Namespace::SVG), Some("svg"));
    assert_eq!(namespace_for_key(key_for_namespace(Namespace::Math)), Namespace::Math);
    assert_eq!(prefix_with_namespace("circle", Namespace::SVG), ":svg:circle");
    assert_eq!(prefix_with_namespace("div", Namespace::HTML), "div");
}

#[test]
fn style_names_are_hyphenated_and_split_from_units() {
    assert_eq!(hyphenate("fontSize"), "font-size");
    assert_eq!(hyphenate("backgroundColor"), "background-color");
    assert_eq!(parse_property("width.px"), ("width".to_string(), Some("px".to_string())));
    assert_eq!(parse_property("color"), ("color".to_string(), None));
}

#[test]
fn security_contexts_of_urls_and_styles() {
    assert_eq!(security_context("a", "href", false), SecurityContext::URL);
    assert_eq!(security_context("A", "href", false), SecurityContext::URL);
    assert_eq!(security_context("div", "style", false), SecurityContext::STYLE);
    assert_eq!(security_context("div", "title", false), SecurityContext::NONE);
}

#[test]
fn aria_attributes_need_a_name_after_the_prefix() {
    assert!(is_aria_attribute("aria-label"));
    assert!(!is_aria_attribute("aria-"));
    assert!(!is_aria_attribute("role"));
}

#[test]
fn text_is_split_and_trimmed() {
    assert_eq!(strings(&split_whitespace(&chars("  foo \t bar  "))), vec!["foo".to_string(), "bar".to_string()]);
    assert_eq!(strings(&split_char(&chars("a;;b"), ';')), vec!["a".to_string(), "".to_string(), "b".to_string()]);
    assert_eq!(trim(&chars("  x y ")).iter().collect::<String>(), "x y");
    assert!(split_whitespace(&chars("   ")).is_empty());
}

#[test]
fn literals_and_arrays_of_literals_are_constant() {
    assert!(is_constant(&string_lit("a")));
    let arr = Expression::LiteralArray(LiteralArrayExpr { entries: vec![string_lit("a"), string_lit("b")], source_span: None });
    assert!(is_constant(&arr));
    let read = Expression::ReadVar { name: "x".to_string(), source_span: None };
    assert!(!is_constant(&read));
    let mixed = Expression::LiteralArray(LiteralArrayExpr { entries: vec![string_lit("a"), read], source_span: None });
    assert!(!is_constant(&mixed));
}

#[test]
fn class_and_style_attributes_are_split_into_extracted_attributes() {
    let mut job = host_job();
    job.root.update.push(text_attribute("class", "foo  bar"));
    job.root.update.push(text_attribute("style", "color: red; width: 1px;"));
    job.root.update.push(text_attribute("title", "hello"));
    extract_attributes(&mut job);
    assert!(job.root.update.is_empty());
    let names: Vec<(BindingKind, String)> = job
        .root
        .create
        .iter()
        .map(|op| match op {
            CreateOp::ExtractedAttribute(e) => (e.binding_kind, e.name.clone()),
            _ => panic!("only extracted attributes are expected"),
        })
        .collect();
    assert_eq!(
        names,
        vec![
            (BindingKind::ClassName, "foo".to_string()),
            (BindingKind::ClassName, "bar".to_string()),
            (BindingKind::StyleProperty, "color".to_string()),
            (BindingKind::StyleProperty, "width".to_string()),
            (BindingKind::Attribute, "title".to_string()),
        ]
    );
}

#[test]
fn non_text_attributes_stay_in_compatibility_mode() {
    let mut job = host_job();
    let mut op = text_attribute("title", "x");
    if let UpdateOp::Attribute(a) = &mut op {
        a.is_text_attribute = false;
    }
    job.root.update.push(op);
    extract_attributes(&mut job);
    assert_eq!(job.root.update.len(), 1);
    assert!(job.root.create.is_empty());
}

#[test]
fn host_attributes_are_collected_by_section() {
    let mut job = host_job();
    job.root.update.push(text_attribute("class", "foo bar"));
    job.root.update.push(text_attribute("style", "color: red"));
    job.root.update.push(text_attribute("title", "hi"));
    extract_attributes(&mut job);
    collect_element_consts(&mut job);
    assert!(job.root.create.is_empty());
    let entries = match &job.root.attributes {
        Some(Expression::LiteralArray(a)) => &a.entries,
        _ => panic!("host attributes expected"),
    };
    assert_eq!(entries.len(), 8);
    assert_eq!(lit_string(&entries[0]), Some("title".to_string()));
    assert_eq!(lit_string(&entries[1]), Some("hi".to_string()));
    assert_eq!(lit_int(&entries[2]), Some(1));
    assert_eq!(lit_string(&entries[3]), Some("foo".to_string()));
    assert_eq!(lit_string(&entries[4]), Some("bar".to_string()));
    assert_eq!(lit_int(&entries[5]), Some(2));
    assert_eq!(lit_string(&entries[6]), Some("color".to_string()));
    assert_eq!(lit_string(&entries[7]), Some("red".to_string()));
}

#[test]
fn element_attributes_skip_repeats_outside_compatibility_mode() {
    let mut normal = ElementAttributes::new(CompatibilityMode::Normal);
    normal.add(BindingKind::ClassName, "a".to_string(), None, None, None);
    normal.add(BindingKind::ClassName, "a".to_string(), None, None, None);
    assert_eq!(normal.classes.len(), 1);
    let mut compat = ElementAttributes::new(CompatibilityMode::TemplateDefinitionBuilder);
    compat.add(BindingKind::ClassName, "a".to_string(), None, None, None);
    compat.add(BindingKind::ClassName, "a".to_string(), None, None, None);
    assert_eq!(compat.classes.len(), 2);
    compat.add(BindingKind::Property, "value".to_string(), None, None, None);
    compat.add(BindingKind::Attribute, "ngProjectAs".to_string(), Some(string_lit(".card, #main")), None, None);
    let arr = serialize_attributes(compat);
    // projection section: marker 5 and the selectors, then classes (1) and bindings (3)
    assert_eq!(lit_int(&arr.entries[0]), Some(5));
    match &arr.entries[1] {
        Expression::LiteralArray(sel) => {
            assert_eq!(sel.entries.len(), 2);
            match &sel.entries[0] {
                Expression::LiteralArray(item) => {
                    assert_eq!(lit_string(&item.entries[2]), Some("card".to_string()));
                },
                _ => panic!("selector expected"),
            }
            match &sel.entries[1] {
                Expression::LiteralArray(item) => {
                    assert_eq!(lit_string(&item.entries[1]), Some("main".to_string()));
                },
                _ => panic!("selector expected"),
            }
        },
        _ => panic!("selector list expected"),
    }
    assert_eq!(lit_int(&arr.entries[2]), Some(1));
    assert_eq!(lit_int(&arr.entries[5]), Some(3));
    assert_eq!(lit_string(&arr.entries[6]), Some("value".to_string()));
}

#[test]
fn static_host_attributes_leave_no_update_code() {
    let mut attributes = Vec::new();
    attributes.push(("class".to_string(), string_lit("a b")));
    attributes.push(("role".to_string(), string_lit("button")));
    let input = HostBindingInput {
        component_name: "Cmp".to_string(),
        component_selector: "cmp".to_string(),
        properties: None,
        attributes,
        events: None,
    };
    let mut job = ingest_host_binding(input, ConstantPool::default());
    run_host(&mut job);
    assert!(job.root.update.is_empty());
    job.root.fn_name = Some("Cmp_HostBindings".to_string());
    assert!(emit_host_binding_function(&job).is_none());
}

#[test]
fn text_interpolation_picks_its_instruction() {
    let bare = UpdateOp::InterpolateText {
        target: XrefId { id: 1 },
        interpolation: Interpolation {
            strings: vec!["".to_string(), "".to_string()],
            expressions: vec![Expression::ReadVar { name: "a".to_string(), source_span: None }],
            i18n_placeholders: vec![],
        },
    };
    let one = UpdateOp::InterpolateText {
        target: XrefId { id: 1 },
        interpolation: Interpolation {
            strings: vec!["x".to_string(), "y".to_string()],
            expressions: vec![Expression::ReadVar { name: "a".to_string(), source_span: None }],
            i18n_placeholders: vec![],
        },
    };
    let stmts = emit_ops(&vec![bare, one, UpdateOp::Advance { delta: 2 }]);
    assert_eq!(stmts.len(), 3);
    let call = |s: &Statement| -> (String, usize) {
        match s {
            Statement::Expression { expr } => match &**expr {
                Expression::InvokeFn { fn_, args, .. } => match &**fn_ {
                    Expression::External { value, .. } => (value.name.clone().unwrap(), args.len()),
                    _ => panic!("external expected"),
                },
                _ => panic!("call expected"),
            },
            _ => panic!("expression statement expected"),
        }
    };
    assert_eq!(call(&stmts[0]), ("ɵɵtextInterpolate".to_string(), 1));
    assert_eq!(call(&stmts[1]), ("ɵɵtextInterpolate1".to_string(), 3));
    assert_eq!(call(&stmts[2]), ("ɵɵadvance".to_string(), 1));
}

#[test]
fn host_binding_function_runs_update_code_under_the_second_flag() {
    let mut job = host_job();
    job.root.fn_name = Some("TestComp_HostBindings".to_string());
    job.root.update.push(UpdateOp::ClassProp {
        target: XrefId { id: 0 },
        name: "active".to_string(),
        expression: Expression::ReadVar { name: "ctx".to_string(), source_span: None },
        source_span: None,
    });
    let f = emit_host_binding_function(&job).expect("a function is emitted");
    match f {
        Expression::Fn { name, params, statements } => {
            assert_eq!(name, Some("TestComp_HostBindings".to_string()));
            assert_eq!(params.len(), 2);
            assert_eq!(params[0].name, "rf");
            assert_eq!(statements.len(), 2);
            match &statements[1] {
                Statement::IfStmt { condition, true_case, .. } => {
                    assert_eq!(true_case.len(), 1);
                    match &**condition {
                        Expression::BinaryOp { operator, rhs, .. } => {
                            assert_eq!(*operator, BinaryOperator::BitwiseAnd);
                            assert_eq!(lit_int(rhs), Some(2));
                        },
                        _ => panic!("flag test expected"),
                    }
                },
                _ => panic!("if statement expected"),
            }
        },
        _ => panic!("function expected"),
    }
}

#[test]
fn element_creation_strips_the_namespace_prefix() {
    let ops = vec![
        CreateOp::ElementStart(ElementOpBase {
            xref: XrefId { id: 3 },
            tag: Some(":svg:circle".to_string()),
            namespace: Namespace::SVG,
            attributes: None,
            local_refs: vec![],
            local_refs_index: None,
            slot: Some(4),
            non_bindable: false,
        }),
        CreateOp::ElementEnd { xref: XrefId { id: 3 } },
    ];
    let stmts = emit_create_ops(&ops);
    assert_eq!(stmts.len(), 2);
    match &stmts[0] {
        Statement::Expression { expr } => match &**expr {
            Expression::InvokeFn { args, .. } => {
                assert_eq!(lit_int(&args[0]), Some(4));
                assert_eq!(lit_string(&args[1]), Some("circle".to_string()));
            },
            _ => panic!("call expected"),
        },
        _ => panic!("expression statement expected"),
    }
}

#[test]
fn consecutive_calls_of_one_instruction_are_chained() {
    let mut job = host_job();
    for v in ["a", "b", "c"] {
        job.root.update.push(UpdateOp::Statement(core_call("ɵɵproperty", vec![string_lit(v)])));
    }
    job.root.update.push(UpdateOp::Statement(core_call("ɵɵadvance", vec![])));
    job.root.update.push(UpdateOp::Statement(core_call("ɵɵproperty", vec![string_lit("d")])));
    chain(&mut job);
    assert_eq!(job.root.update.len(), 3);
    // the first statement is property("a")("b")("c")
    let mut depth = 0;
    let mut last_args = Vec::new();
    if let UpdateOp::Statement(Statement::Expression { expr }) = &job.root.update[0] {
        let mut e: &Expression = expr;
        while let Expression::InvokeFn { fn_, args, .. } = e {
            depth += 1;
            last_args.push(lit_string(&args[0]).unwrap());
            e = fn_;
        }
    } else {
        panic!("statement expected");
    }
    assert_eq!(depth, 3);
    assert_eq!(last_args, vec!["c".to_string(), "b".to_string(), "a".to_string()]);
}

#[test]
fn chains_stop_at_the_maximum_length() {
    let mut job = host_job();
    for _ in 0..300 {
        job.root.update.push(UpdateOp::Statement(core_call("ɵɵstyleProp", vec![string_lit("x")])));
    }
    chain(&mut job);
    assert_eq!(job.root.update.len(), 2);
}

#[test]
fn translation_prefixes_are_upper_case() {
    assert_eq!(get_translation_const_prefix("foo_"), "MSG_FOO_");
    match declare_i18n_variable(&Expression::ReadVar { name: "i18n_0".to_string(), source_span: None }) {
        Statement::DeclareVar { name, value, modifiers, source_span } => {
            assert_eq!(modifiers, StmtModifier::Plain);
            assert!(source_span.is_none());
            assert_eq!(name, "i18n_0");
            assert!(value.is_none());
        },
        _ => panic!("declaration expected"),
    }
}

fn any_call(arg: Expression) -> Expression {
    Expression::InvokeFn {
        fn_: Box::new(Expression::LexicalRead { name: "$any".to_string(), source_span: None }),
        args: vec![arg],
        source_span: None,
        pure: false,
    }
}

#[test]
fn any_casts_are_replaced_by_their_argument() {
    let x = Expression::ReadVar { name: "x".to_string(), source_span: None };
    let nested = any_call(any_call(x));
    let this_any = Expression::ReadProp {
        receiver: Box::new(Expression::ReadVar { name: "this".to_string(), source_span: None }),
        name: "$any".to_string(),
        source_span: None,
    };
    let mut job = host_job();
    job.root.update.push(UpdateOp::ClassProp {
        target: XrefId { id: 0 },
        name: "a".to_string(),
        expression: nested,
        source_span: None,
    });
    job.root.update.push(UpdateOp::ClassProp {
        target: XrefId { id: 0 },
        name: "b".to_string(),
        expression: this_any,
        source_span: None,
    });
    delete_any_casts(&mut job);
    match &job.root.update[0] {
        UpdateOp::ClassProp { expression: Expression::ReadVar { name, .. }, .. } => assert_eq!(name, "x"),
        other => panic!("the bare read is expected, got {:?}", other),
    }
    match &job.root.update[1] {
        UpdateOp::ClassProp { expression: Expression::ReadProp { name, .. }, .. } => assert_eq!(name, "$any"),
        other => panic!("a property read is kept, got {:?}", other),
    }
}

#[test]
fn any_casts_inside_arguments_are_replaced() {
    let call = Expression::InvokeFn {
        fn_: Box::new(Expression::ReadVar { name: "f".to_string(), source_span: None }),
        args: vec![any_call(string_lit("v")), string_lit("w")],
        source_span: None,
        pure: false,
    };
    match strip_expr(&call) {
        Expression::InvokeFn { args, .. } => {
            assert_eq!(args.len(), 2);
            assert_eq!(lit_string(&args[0]), Some("v".to_string()));
        },
        other => panic!("a call is expected, got {:?}", other),
    }
}

fn component_job() -> ComponentCompilationJob {
    ComponentCompilationJob::new(
        "Cmp".to_string(),
        ConstantPool::default(),
        CompatibilityMode::Normal,
        TemplateCompilationMode::Full,
        "cmp.ts".to_string(),
        false,
        None,
        None,
        false,
    )
}

#[test]
fn embedded_views_get_fresh_xrefs_in_order() {
    let mut job = component_job();
    assert_eq!(job.root.xref, XrefId { id: 0 });
    let a = job.allocate_view(None);
    let b = job.allocate_view(Some(a));
    assert_eq!(a, XrefId { id: 1 });
    assert_eq!(b, XrefId { id: 2 });
    let keys: Vec<u64> = job.views.keys().cloned().collect();
    assert_eq!(keys, vec![1, 2]);
    assert_eq!(job.views[&2].parent, Some(XrefId { id: 1 }));
    assert!(job.views[&1].context_variables.is_empty());
}

#[test]
fn equivalent_constants_are_shared() {
    let mut job = component_job();
    let arr = |s: &str| Expression::LiteralArray(LiteralArrayExpr { entries: vec![string_lit(s)], source_span: None });
    let first = job.add_const(arr("a"), None);
    let again = job.add_const(arr("a"), Some(vec![string_lit("init")]));
    let other = job.add_const(arr("b"), Some(vec![string_lit("init")]));
    assert_eq!(first.index, 0);
    assert_eq!(again.index, 0);
    assert_eq!(other.index, 1);
    assert_eq!(job.consts.len(), 2);
    assert_eq!(job.consts_initializers.len(), 1);
}

#[test]
fn equivalence_ignores_source_spans_but_not_values() {
    let a = Expression::ReadVar { name: "x".to_string(), source_span: None };
    let b = Expression::ReadVar { name: "x".to_string(), source_span: None };
    let c = Expression::ReadVar { name: "y".to_string(), source_span: None };
    assert!(is_equivalent(&a, &b));
    assert!(!is_equivalent(&a, &c));
    assert!(!is_equivalent(&a, &string_lit("x")));
}
