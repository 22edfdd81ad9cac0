use template_pipeline::compilation::ConstantPool;
use template_pipeline::ingest::{ingest_host_binding, HostBindingInput};
use template_pipeline::output::{Expression, LiteralExpr, LiteralValue};
use template_pipeline::phases::run_host;

#[test]
fn test_extract_static_host_attributes() {
    // host: { class: 'foo', style: 'color: red' }
    let mut attributes = Vec::new();
    attributes.push((
        "class".to_string(),
        Expression::Literal(LiteralExpr {
            value: LiteralValue::String("foo".to_string()),
            source_span: None,
        }),
    ));
    attributes.push((
        "style".to_string(),
        Expression::Literal(LiteralExpr {
            value: LiteralValue::String("color: red".to_string()),
            source_span: None,
        }),
    ));

    let input = HostBindingInput {
        component_name: "TestComp".to_string(),
        component_selector: "test-comp".to_string(),
        properties: None,
        attributes,
        events: None,
    };

    let mut job = ingest_host_binding(input, ConstantPool::default());

    run_host(&mut job);

    assert!(job.root.attributes.is_some(), "hostAttrs should be present");

    if let Some(Expression::LiteralArray(arr)) = &job.root.attributes {
        let debug_str = format!("{:?}", arr);
        assert!(debug_str.contains("foo"), "hostAttrs should contain class 'foo'");
        assert!(debug_str.contains("color"), "hostAttrs should contain style key 'color'");
        assert!(debug_str.contains("red"), "hostAttrs should contain style value 'red'");
    } else {
        panic!("hostAttrs should be a LiteralArray");
    }

    assert!(
        job.root.update.is_empty(),
        "Update block should be empty for static host attributes, but found: {:?}",
        job.root.update
    );
}
