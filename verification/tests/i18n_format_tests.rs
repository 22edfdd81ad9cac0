use template_pipeline::output::{Expression, LiteralExpr, LiteralValue};
use template_pipeline::phases::extract_i18n_messages::{
    decimal_string, format_icu_placeholder, format_param_values, format_params, format_value, I18nParamValue,
    I18nParamValueFlags, I18nParamValueValue,
};

const NONE: I18nParamValueFlags =
    I18nParamValueFlags { element_tag: false, template_tag: false, open_tag: false, close_tag: false, expression_index: false };

fn number(n: usize, flags: I18nParamValueFlags) -> I18nParamValue {
    I18nParamValue { value: I18nParamValueValue::Number(n), sub_template_index: None, flags }
}

#[test]
fn decimal_numbers() {
    assert_eq!(decimal_string(0), "0");
    assert_eq!(decimal_string(7), "7");
    assert_eq!(decimal_string(10), "10");
    assert_eq!(decimal_string(1234), "1234");
    assert_eq!(decimal_string(usize::MAX), usize::MAX.to_string());
}

#[test]
fn plain_values_are_written_as_they_are() {
    assert_eq!(format_value(&number(12, NONE)), "12");
    let s = I18nParamValue { value: I18nParamValueValue::String("x".to_string()), sub_template_index: None, flags: NONE };
    assert_eq!(format_value(&s), "x");
}

#[test]
fn tags_are_escaped_and_marked() {
    let open = I18nParamValueFlags { element_tag: true, open_tag: true, ..NONE };
    assert_eq!(format_value(&number(1, open)), "\u{FFFD}\u{0}#1\u{FFFD}");
    let close = I18nParamValueFlags { element_tag: true, close_tag: true, ..NONE };
    assert_eq!(format_value(&number(1, close)), "\u{FFFD}/#1\u{FFFD}");
    let tmpl = I18nParamValueFlags { template_tag: true, open_tag: true, ..NONE };
    let mut v = number(2, tmpl);
    v.sub_template_index = Some(4);
    assert_eq!(format_value(&v), "\u{FFFD}\u{0}*2:4\u{FFFD}");
}

#[test]
fn self_closing_tags_join_start_and_close() {
    let both = I18nParamValueFlags { element_tag: true, open_tag: true, close_tag: true, ..NONE };
    assert_eq!(format_value(&number(3, both)), "\u{FFFD}\u{0}#3\u{FFFD}\u{FFFD}/#3\u{FFFD}");
}

#[test]
fn structural_element_tags_combine_template_and_element() {
    let open = I18nParamValueFlags { element_tag: true, template_tag: true, open_tag: true, ..NONE };
    let v = I18nParamValue { value: I18nParamValueValue::Compound { element: 1, template: 2 }, sub_template_index: None, flags: open };
    assert_eq!(format_value(&v), "\u{FFFD}\u{0}*2\u{FFFD}\u{FFFD}\u{0}#1\u{FFFD}");
    let close = I18nParamValueFlags { element_tag: true, template_tag: true, close_tag: true, ..NONE };
    let v = I18nParamValue { value: I18nParamValueValue::Compound { element: 1, template: 2 }, sub_template_index: None, flags: close };
    assert_eq!(format_value(&v), "\u{FFFD}/#1\u{FFFD}\u{FFFD}/*2\u{FFFD}");
}

#[test]
fn several_values_form_a_list() {
    assert_eq!(format_param_values(&vec![]), None);
    assert_eq!(format_param_values(&vec![number(1, NONE)]), Some("1".to_string()));
    assert_eq!(
        format_param_values(&vec![number(1, NONE), number(2, NONE), number(3, NONE)]),
        Some("[1|2|3]".to_string())
    );
}

#[test]
fn icu_placeholders_interleave_strings_and_values() {
    let strings = vec!["a".to_string(), "b".to_string(), "c".to_string()];
    assert_eq!(format_icu_placeholder(&strings, &vec![number(1, NONE), number(2, NONE)]), "a1b2c");
}

#[test]
fn params_without_values_are_left_out() {
    let params = vec![("EMPTY".to_string(), vec![]), ("ONE".to_string(), vec![number(5, NONE)])];
    let out = format_params(&params);
    assert_eq!(out.len(), 1);
    assert_eq!(out[0].0, "ONE");
    match &out[0].1 {
        Expression::Literal(LiteralExpr { value: LiteralValue::String(s), .. }) => assert_eq!(s, "5"),
        _ => panic!("expected a string literal"),
    }
}

#[test]
fn style_names_are_hyphenated_unless_custom() {
    assert_eq!(template_pipeline::phases::naming::hyphenate("fontSize"), "font-size");
    assert_eq!(template_pipeline::phases::naming::hyphenate("ABc"), "-a-bc");
    assert_eq!(template_pipeline::phases::naming::normalize_style_prop_name("--myVar"), "--myVar");
    assert_eq!(template_pipeline::phases::naming::normalize_style_prop_name("backgroundColor"), "background-color");
}

#[test]
fn important_suffixes_are_dropped() {
    assert_eq!(template_pipeline::phases::naming::strip_important("color!important"), "color");
    assert_eq!(template_pipeline::phases::naming::strip_important("a!importantb!important"), "a");
    assert_eq!(template_pipeline::phases::naming::strip_important("width"), "width");
}
