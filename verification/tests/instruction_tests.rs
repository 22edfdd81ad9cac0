use template_pipeline::instruction::{
    advance, call, conditional, conditional_create, class_prop, dom_element_end, element, element_end,
    element_start, listener, pipe, pipe_bind, property, pure_function, reference, style_prop, template,
    text, two_way_binding_set, two_way_listener,
};
use template_pipeline::output::{Expression, ExternalReference, LiteralExpr, LiteralValue, Statement};
use template_pipeline::parse_util::{ParseLocation, ParseSourceFile, ParseSourceSpan};

fn span() -> ParseSourceSpan {
    let file = ParseSourceFile::new("<div></div>".to_string(), "test.html".to_string());
    let start = ParseLocation::new(file.clone_file(), 0, 0, 0);
    let end = ParseLocation::new(file, 5, 0, 5);
    ParseSourceSpan::new(start, end)
}

fn var(name: &str) -> Expression {
    Expression::ReadVar { name: name.to_string(), source_span: None }
}

#[derive(Debug, PartialEq)]
enum Arg {
    Int(i64),
    Str(String),
    Bool(bool),
    Null,
    Var(String),
    Array(usize),
    Ext(String),
    Other,
}

fn arg(e: &Expression) -> Arg {
    match e {
        Expression::Literal(LiteralExpr { value: LiteralValue::Integer(n), .. }) => Arg::Int(*n),
        Expression::Literal(LiteralExpr { value: LiteralValue::String(s), .. }) => Arg::Str(s.clone()),
        Expression::Literal(LiteralExpr { value: LiteralValue::Bool(b), .. }) => Arg::Bool(*b),
        Expression::Literal(LiteralExpr { value: LiteralValue::Null, .. }) => Arg::Null,
        Expression::ReadVar { name, .. } => Arg::Var(name.clone()),
        Expression::LiteralArray(a) => Arg::Array(a.entries.len()),
        Expression::External { value, .. } => Arg::Ext(value.name.clone().unwrap_or_default()),
        _ => Arg::Other,
    }
}

fn invoked(e: &Expression) -> (String, Vec<Arg>, bool) {
    match e {
        Expression::InvokeFn { fn_, args, source_span, pure } => {
            assert!(!pure);
            let name = match &**fn_ {
                Expression::External { value, .. } => {
                    assert_eq!(value.module_name.as_deref(), Some("@angular/core"));
                    value.name.clone().unwrap()
                }
                _ => panic!("not an external reference"),
            };
            (name, args.iter().map(arg).collect(), source_span.is_some())
        }
        _ => panic!("not a call"),
    }
}

fn called(s: &Statement) -> (String, Vec<Arg>, bool) {
    match s {
        Statement::Expression { expr } => invoked(expr),
        _ => panic!("not an expression statement"),
    }
}

fn s(x: &str) -> Arg {
    Arg::Str(x.to_string())
}

#[test]
fn call_keeps_reference_arguments_and_span() {
    let r = ExternalReference { name: Some("ɵɵfoo".to_string()), module_name: Some("@angular/core".to_string()) };
    let st = call(r, vec![var("a")], Some(span()));
    assert_eq!(called(&st), ("ɵɵfoo".to_string(), vec![Arg::Var("a".to_string())], true));
}

#[test]
fn element_start_writes_consts_and_local_refs() {
    assert_eq!(
        called(&element_start(1, "div", Some(3), Some(4), span())),
        ("ɵɵelementStart".to_string(), vec![Arg::Int(1), s("div"), Arg::Int(3), Arg::Int(4)], true)
    );
    assert_eq!(
        called(&element_start(1, "div", None, Some(4), span())).1,
        vec![Arg::Int(1), s("div"), Arg::Null, Arg::Int(4)]
    );
    assert_eq!(called(&element_start(1, "div", Some(3), None, span())).1, vec![Arg::Int(1), s("div"), Arg::Int(3)]);
    assert_eq!(called(&element(0, "span", None, None, span())), ("ɵɵelement".to_string(), vec![Arg::Int(0), s("span")], true));
}

#[test]
fn element_end_has_no_arguments() {
    assert_eq!(called(&element_end(None)), ("ɵɵelementEnd".to_string(), vec![], false));
    assert_eq!(called(&dom_element_end(Some(span()))), ("ɵɵdomElementEnd".to_string(), vec![], true));
}

#[test]
fn text_writes_only_a_non_empty_initial_value() {
    assert_eq!(called(&text(2, "", None)).1, vec![Arg::Int(2)]);
    assert_eq!(called(&text(2, "hello", None)), ("ɵɵtext".to_string(), vec![Arg::Int(2), s("hello")], false));
}

#[test]
fn advance_writes_delta_only_above_one() {
    assert_eq!(called(&advance(1, span())), ("ɵɵadvance".to_string(), vec![], true));
    assert_eq!(called(&advance(3, span())).1, vec![Arg::Int(3)]);
}

#[test]
fn pipe_and_property_arguments() {
    assert_eq!(called(&pipe(4, "async")), ("ɵɵpipe".to_string(), vec![Arg::Int(4), s("async")], false));
    assert_eq!(
        called(&property("title", var("t"), Some(var("san")), span())),
        ("ɵɵproperty".to_string(), vec![s("title"), Arg::Var("t".to_string()), Arg::Var("san".to_string())], true)
    );
}

#[test]
fn listeners_write_target_and_prevent_default() {
    assert_eq!(
        called(&listener("click".to_string(), var("h"), Some("window".to_string()), None)).1,
        vec![s("click"), Arg::Var("h".to_string()), s("window")]
    );
    assert_eq!(
        called(&two_way_listener("valueChange", var("h"), true, None)),
        ("ɵɵtwoWayListener".to_string(), vec![s("valueChange"), Arg::Var("h".to_string()), Arg::Bool(false)], false)
    );
    assert_eq!(called(&two_way_listener("valueChange", var("h"), false, None)).1.len(), 2);
}

#[test]
fn two_way_binding_set_calls_the_instruction() {
    let e = two_way_binding_set(Box::new(var("a")), Box::new(var("b")));
    assert_eq!(
        invoked(&e),
        ("ɵɵtwoWayBindingSet".to_string(), vec![Arg::Var("a".to_string()), Arg::Var("b".to_string())], false)
    );
}

#[test]
fn pure_function_spreads_up_to_eight_arguments() {
    let two = pure_function(5, var("f"), vec![var("a"), var("b")]);
    assert_eq!(
        invoked(&two),
        (
            "ɵɵpureFunction2".to_string(),
            vec![Arg::Int(5), Arg::Var("f".to_string()), Arg::Var("a".to_string()), Arg::Var("b".to_string())],
            false
        )
    );
    let nine: Vec<Expression> = (0..9).map(|i| var(&format!("a{}", i))).collect();
    let v = pure_function(5, var("f"), nine);
    assert_eq!(invoked(&v), ("ɵɵpureFunctionV".to_string(), vec![Arg::Int(5), Arg::Var("f".to_string()), Arg::Array(9)], false));
    assert_eq!(invoked(&pure_function(0, var("f"), vec![])).0, "ɵɵpureFunction0");
}

#[test]
fn pipe_bind_uses_the_array_form_for_none_or_many() {
    assert_eq!(invoked(&pipe_bind(1, 2, vec![var("x")])), ("ɵɵpipeBind1".to_string(), vec![Arg::Int(1), Arg::Int(2), Arg::Var("x".to_string())], false));
    assert_eq!(invoked(&pipe_bind(1, 2, vec![])), ("ɵɵpipeBindV".to_string(), vec![Arg::Int(1), Arg::Int(2)], false));
    let five: Vec<Expression> = (0..5).map(|i| var(&format!("a{}", i))).collect();
    assert_eq!(invoked(&pipe_bind(1, 2, five)).1, vec![Arg::Int(1), Arg::Int(2), Arg::Array(5)]);
}

#[test]
fn reference_calls_with_slot() {
    assert_eq!(invoked(&reference(7)), ("ɵɵreference".to_string(), vec![Arg::Int(7)], false));
}

#[test]
fn template_fills_missing_arguments_with_null() {
    let st = template(1, var("tpl"), 2, 3, None, None, Some(6), span());
    assert_eq!(
        called(&st),
        (
            "ɵɵtemplate".to_string(),
            vec![
                Arg::Int(1),
                Arg::Var("tpl".to_string()),
                Arg::Int(2),
                Arg::Int(3),
                Arg::Null,
                Arg::Null,
                Arg::Int(6),
                Arg::Ext("ɵɵtemplateRefExtractor".to_string()),
            ],
            true
        )
    );
    assert_eq!(called(&template(1, var("tpl"), 2, 3, None, None, None, span())).1.len(), 4);
    assert_eq!(
        called(&template(1, var("tpl"), 2, 3, Some("ng-template".to_string()), Some(0), None, span())).1,
        vec![Arg::Int(1), Arg::Var("tpl".to_string()), Arg::Int(2), Arg::Int(3), s("ng-template"), Arg::Int(0)]
    );
}

#[test]
fn conditional_instructions() {
    assert_eq!(
        called(&conditional(3, var("c"), None, span())),
        ("ɵɵconditional".to_string(), vec![Arg::Int(3), Arg::Var("c".to_string())], true)
    );
    assert_eq!(
        called(&conditional_create(3, var("tpl"), 1, 0, None, Some(2), span())),
        (
            "ɵɵconditionalCreate".to_string(),
            vec![Arg::Int(3), Arg::Var("tpl".to_string()), Arg::Int(1), Arg::Int(0), Arg::Null, Arg::Int(2)],
            true
        )
    );
}

#[test]
fn styling_instructions() {
    assert_eq!(
        called(&class_prop("active", var("on"), None)),
        ("ɵɵclassProp".to_string(), vec![s("active"), Arg::Var("on".to_string())], false)
    );
    assert_eq!(
        called(&style_prop("width", var("w"), Some("px"), None)),
        ("ɵɵstyleProp".to_string(), vec![s("width"), Arg::Var("w".to_string()), s("px")], false)
    );
    assert_eq!(called(&style_prop("width", var("w"), None::<&str>, None)).1.len(), 2);
}
