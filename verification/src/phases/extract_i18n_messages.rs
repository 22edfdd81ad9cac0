//! Formatting of i18n message parameters: each parameter value becomes a string, escaped with
//! `\u{FFFD}` and marked with its tag kind (`#` element, `*` template), a `/` for a closing tag
//! and a `:` with its sub-template index; several values of one placeholder become a list
//! `[a|b]`.

use vstd::prelude::*;
use vstd::string::*;
use crate::text::push_char;
use crate::output::{Expression, LiteralExpr, LiteralValue, SExpr, SLit, expr_view};

verus! {

/// The escape around a parameter value.
pub open spec fn escape_char() -> char {
    '\u{FFFD}'
}

/// The kinds of tag and position a parameter value stands for.
#[derive(Debug, Clone, Copy, PartialEq, Eq, Structural)]
pub struct I18nParamValueFlags {
    pub element_tag: bool,
    pub template_tag: bool,
    pub open_tag: bool,
    pub close_tag: bool,
    pub expression_index: bool,
}

/// The value of a parameter: a string, a slot number, or an element and a template slot.
#[allow(inconsistent_fields)]
#[derive(Debug)]
pub enum I18nParamValueValue {
    String(String),
    Number(usize),
    Compound { element: usize, template: usize },
}

/// A parameter value of a message.
#[derive(Debug)]
pub struct I18nParamValue {
    pub value: I18nParamValueValue,
    pub sub_template_index: Option<usize>,
    pub flags: I18nParamValueFlags,
}

#[allow(inconsistent_fields)]
pub enum SParamValueValue {
    String(Seq<char>),
    Number(usize),
    Compound { element: usize, template: usize },
}

pub struct SParamValue {
    pub value: SParamValueValue,
    pub sub_template_index: Option<usize>,
    pub flags: I18nParamValueFlags,
}

impl View for I18nParamValue {
    type V = SParamValue;

    open spec fn view(&self) -> SParamValue {
        SParamValue {
            value: match self.value {
                I18nParamValueValue::String(s) => SParamValueValue::String(s@),
                I18nParamValueValue::Number(n) => SParamValueValue::Number(n),
                I18nParamValueValue::Compound { element, template } => SParamValueValue::Compound { element, template },
            },
            sub_template_index: self.sub_template_index,
            flags: self.flags,
        }
    }
}

/// The character of a decimal digit.
pub open spec fn digit_char(d: nat) -> char {
    if d == 0 {
        '0'
    } else if d == 1 {
        '1'
    } else if d == 2 {
        '2'
    } else if d == 3 {
        '3'
    } else if d == 4 {
        '4'
    } else if d == 5 {
        '5'
    } else if d == 6 {
        '6'
    } else if d == 7 {
        '7'
    } else if d == 8 {
        '8'
    } else {
        '9'
    }
}

/// The decimal digits of a number, without leading zeros.
pub open spec fn decimal(n: nat) -> Seq<char>
    decreases n,
{
    if n < 10 {
        seq![digit_char(n)]
    } else {
        decimal(n / 10).push(digit_char(n % 10))
    }
}

fn digit(d: usize) -> (r: char)
    requires
        d < 10,
    ensures
        r == digit_char(d as nat),
{
    if d == 0 {
        '0'
    } else if d == 1 {
        '1'
    } else if d == 2 {
        '2'
    } else if d == 3 {
        '3'
    } else if d == 4 {
        '4'
    } else if d == 5 {
        '5'
    } else if d == 6 {
        '6'
    } else if d == 7 {
        '7'
    } else if d == 8 {
        '8'
    } else {
        '9'
    }
}

/// A number written in decimal.
pub fn decimal_string(n: usize) -> (r: String)
    ensures
        r@ == decimal(n as nat),
{
    let mut m: usize = n;
    let mut acc: Vec<char> = Vec::new();
    while m >= 10
        invariant
            decimal(n as nat) == decimal(m as nat) + acc@,
        decreases m,
    {
        let d = digit(m % 10);
        acc.insert(0, d);
        proof {
            assert(decimal(m as nat) == decimal((m / 10) as nat).push(d));
        }
        let ghost old_acc = acc@.drop_first();
        proof {
            assert(decimal((m / 10) as nat).push(d) + old_acc =~= decimal((m / 10) as nat) + acc@);
        }
        m = m / 10;
    }
    let mut s = String::new();
    push_char(&mut s, digit(m));
    let mut i: usize = 0;
    while i < acc.len()
        invariant
            i <= acc@.len(),
            s@ == seq![digit_char(m as nat)] + acc@.take(i as int),
        decreases acc.len() - i,
    {
        push_char(&mut s, acc[i]);
        proof {
            assert(acc@.take(i + 1) =~= acc@.take(i as int).push(acc@[i as int]));
        }
        i += 1;
    }
    proof {
        assert(acc@.take(acc@.len() as int) =~= acc@);
        assert(decimal(m as nat) == seq![digit_char(m as nat)]);
    }
    s
}

/// Whether a flag set has no flag.
pub open spec fn no_flags(f: I18nParamValueFlags) -> bool {
    !f.element_tag && !f.template_tag && !f.open_tag && !f.close_tag && !f.expression_index
}

/// The number of flags set among the tag and position flags.
pub open spec fn tag_flag_count(f: I18nParamValueFlags) -> nat {
    (if f.element_tag { 1nat } else { 0nat }) + (if f.template_tag { 1nat } else { 0nat }) + (if f.open_tag {
        1nat
    } else {
        0nat
    }) + (if f.close_tag { 1nat } else { 0nat })
}

/// The value itself: the string, or the number in decimal; nothing for a compound value.
pub open spec fn raw_value(v: SParamValueValue) -> Seq<char> {
    match v {
        SParamValueValue::String(s) => s,
        SParamValueValue::Number(n) => decimal(n as nat),
        SParamValueValue::Compound { .. } => Seq::empty(),
    }
}

/// The tag marker of a flag set: `#` for an element, `*` for a template, NUL for neither.
pub open spec fn tag_marker(f: I18nParamValueFlags) -> char {
    if f.element_tag {
        '#'
    } else if f.template_tag {
        '*'
    } else {
        '\0'
    }
}

/// The string a parameter value is formatted as.
pub open spec fn spec_format_value(v: SParamValue) -> Seq<char>
    decreases tag_flag_count(v.flags),
{
    let f = v.flags;
    if f.element_tag && f.template_tag {
        match v.value {
            SParamValueValue::Compound { element, template } => {
                let e = spec_format_value(
                    SParamValue {
                        value: SParamValueValue::Number(element),
                        flags: I18nParamValueFlags { template_tag: false, ..f },
                        ..v
                    },
                );
                let t = spec_format_value(
                    SParamValue {
                        value: SParamValueValue::Number(template),
                        flags: I18nParamValueFlags { element_tag: false, ..f },
                        ..v
                    },
                );
                if f.open_tag && f.close_tag {
                    t + e + t
                } else if f.close_tag {
                    e + t
                } else {
                    t + e
                }
            },
            _ => Seq::empty(),
        }
    } else if f.open_tag && f.close_tag {
        spec_format_value(SParamValue { flags: I18nParamValueFlags { close_tag: false, ..f }, ..v })
            + spec_format_value(SParamValue { flags: I18nParamValueFlags { open_tag: false, ..f }, ..v })
    } else if no_flags(f) {
        raw_value(v.value)
    } else {
        let tm = tag_marker(f);
        let cm = if tm != '\0' && f.close_tag {
            '/'
        } else {
            '\0'
        };
        let context = match v.sub_template_index {
            Some(i) => seq![':'] + decimal(i as nat),
            None => Seq::empty(),
        };
        seq![escape_char(), cm, tm] + raw_value(v.value) + context + seq![escape_char()]
    }
}

/// Whether a parameter value can be formatted: one marked as both an element and a template
/// tag holds both slots.
pub open spec fn param_value_ok(v: SParamValue) -> bool {
    v.flags.element_tag && v.flags.template_tag ==> v.value is Compound
}

fn raw_string(v: &I18nParamValueValue) -> (r: String)
    ensures
        r@ == raw_value(
            match *v {
                I18nParamValueValue::String(s) => SParamValueValue::String(s@),
                I18nParamValueValue::Number(n) => SParamValueValue::Number(n),
                I18nParamValueValue::Compound { element, template } => SParamValueValue::Compound { element, template },
            },
        ),
{
    match v {
        I18nParamValueValue::String(s) => s.clone(),
        I18nParamValueValue::Number(n) => decimal_string(*n),
        I18nParamValueValue::Compound { .. } => String::new(),
    }
}

fn number_value(n: usize, sub_template_index: Option<usize>, flags: I18nParamValueFlags) -> (r: I18nParamValue)
    ensures
        r@ == (SParamValue { value: SParamValueValue::Number(n), sub_template_index, flags }),
{
    I18nParamValue { value: I18nParamValueValue::Number(n), sub_template_index, flags }
}

fn copy_value(v: &I18nParamValue, flags: I18nParamValueFlags) -> (r: I18nParamValue)
    ensures
        r@ == (SParamValue { flags, ..v@ }),
{
    let value = match &v.value {
        I18nParamValueValue::String(s) => I18nParamValueValue::String(s.clone()),
        I18nParamValueValue::Number(n) => I18nParamValueValue::Number(*n),
        I18nParamValueValue::Compound { element, template } => I18nParamValueValue::Compound {
            element: *element,
            template: *template,
        },
    };
    I18nParamValue { value, sub_template_index: v.sub_template_index, flags }
}

/// Format one parameter value.
pub fn format_value(value: &I18nParamValue) -> (r: String)
    requires
        param_value_ok(value@),
    ensures
        r@ == spec_format_value(value@),
    decreases tag_flag_count(value.flags),
{
    let f = value.flags;
    if f.element_tag && f.template_tag {
        match &value.value {
            I18nParamValueValue::Compound { element, template } => {
                let element_value = number_value(*element, value.sub_template_index, I18nParamValueFlags {
                    template_tag: false,
                    ..f
                });
                let e = format_value(&element_value);
                let template_value = number_value(*template, value.sub_template_index, I18nParamValueFlags {
                    element_tag: false,
                    ..f
                });
                let t = format_value(&template_value);
                if f.open_tag && f.close_tag {
                    let mut r = t.clone();
                    r.append(e.as_str());
                    r.append(t.as_str());
                    r
                } else if f.close_tag {
                    let mut r = e;
                    r.append(t.as_str());
                    r
                } else {
                    let mut r = t;
                    r.append(e.as_str());
                    r
                }
            },
            _ => String::new(),
        }
    } else if f.open_tag && f.close_tag {
        let start = format_value(&copy_value(value, I18nParamValueFlags { close_tag: false, ..f }));
        let close = format_value(&copy_value(value, I18nParamValueFlags { open_tag: false, ..f }));
        let mut r = start;
        r.append(close.as_str());
        r
    } else if !f.element_tag && !f.template_tag && !f.open_tag && !f.close_tag && !f.expression_index {
        raw_string(&value.value)
    } else {
        let tm = if f.element_tag {
            '#'
        } else if f.template_tag {
            '*'
        } else {
            '\0'
        };
        let cm = if tm != '\0' && f.close_tag {
            '/'
        } else {
            '\0'
        };
        let mut r = String::new();
        push_char(&mut r, '\u{FFFD}');
        push_char(&mut r, cm);
        push_char(&mut r, tm);
        let raw = raw_string(&value.value);
        r.append(raw.as_str());
        match value.sub_template_index {
            Some(i) => {
                push_char(&mut r, ':');
                let d = decimal_string(i);
                r.append(d.as_str());
            },
            None => {},
        }
        push_char(&mut r, '\u{FFFD}');
        proof {
            let context = match value@.sub_template_index {
                Some(i) => seq![':'] + decimal(i as nat),
                None => Seq::empty(),
            };
            assert(r@ =~= seq![escape_char(), cm, tm] + raw_value(value@.value) + context + seq![escape_char()]);
        }
        r
    }
}

/// The values of one placeholder joined: nothing for none, the value for one, and `[a|b|…]`
/// for several.
pub open spec fn spec_format_param_values(values: Seq<SParamValue>) -> Option<Seq<char>> {
    if values.len() == 0 {
        None
    } else if values.len() == 1 {
        Some(spec_format_value(values[0]))
    } else {
        Some(seq!['['] + joined(values) + seq![']'])
    }
}

/// The formatted values separated by `|`.
pub open spec fn joined(values: Seq<SParamValue>) -> Seq<char>
    decreases values.len(),
{
    if values.len() == 0 {
        Seq::empty()
    } else if values.len() == 1 {
        spec_format_value(values[0])
    } else {
        joined(values.drop_last()) + seq!['|'] + spec_format_value(values.last())
    }
}

/// The views of a list of parameter values.
pub open spec fn values_view(values: Seq<I18nParamValue>) -> Seq<SParamValue> {
    values.map_values(|v: I18nParamValue| v@)
}

/// Format the values of one placeholder.
pub fn format_param_values(values: &Vec<I18nParamValue>) -> (r: Option<String>)
    requires
        forall|i: int| 0 <= i < values@.len() ==> param_value_ok(#[trigger] values@[i]@),
    ensures
        match r {
            Some(s) => spec_format_param_values(values_view(values@)) == Some(s@),
            None => spec_format_param_values(values_view(values@)) is None,
        },
{
    let ghost vv = values_view(values@);
    if values.len() == 0 {
        return None;
    }
    if values.len() == 1 {
        return Some(format_value(&values[0]));
    }
    let mut body = format_value(&values[0]);
    let mut i: usize = 1;
    proof {
        assert(vv.take(1).drop_last() =~= Seq::<SParamValue>::empty());
        assert(joined(vv.take(1)) == spec_format_value(vv[0]));
    }
    while i < values.len()
        invariant
            1 <= i <= values@.len(),
            vv == values_view(values@),
            forall|k: int| 0 <= k < values@.len() ==> param_value_ok(#[trigger] values@[k]@),
            body@ == joined(vv.take(i as int)),
        decreases values.len() - i,
    {
        push_char(&mut body, '|');
        let next = format_value(&values[i]);
        body.append(next.as_str());
        proof {
            assert(vv.take(i + 1).drop_last() =~= vv.take(i as int));
            assert(vv.take(i + 1).last() == vv[i as int]);
        }
        i += 1;
    }
    proof {
        assert(vv.take(values@.len() as int) =~= vv);
    }
    let mut r = String::new();
    push_char(&mut r, '[');
    r.append(body.as_str());
    push_char(&mut r, ']');
    proof {
        assert(r@ =~= seq!['['] + joined(vv) + seq![']']);
    }
    Some(r)
}

/// The strings of an ICU placeholder with the formatted expression values between them.
pub open spec fn spec_icu_placeholder(strings: Seq<Seq<char>>, values: Seq<SParamValue>) -> Seq<char>
    decreases strings.len(),
{
    if strings.len() == 0 {
        Seq::empty()
    } else {
        let k = strings.len() - 1;
        spec_icu_placeholder(strings.drop_last(), values) + strings[k] + if k < values.len() {
            spec_format_value(values[k])
        } else {
            Seq::empty()
        }
    }
}

/// Format an ICU placeholder: its strings, with one more string than expression values.
pub fn format_icu_placeholder(strings: &Vec<String>, expression_placeholders: &Vec<I18nParamValue>) -> (r: String)
    requires
        strings@.len() == expression_placeholders@.len() + 1,
        forall|i: int| 0 <= i < expression_placeholders@.len() ==> param_value_ok(#[trigger] expression_placeholders@[i]@),
    ensures
        r@ == spec_icu_placeholder(strings@.map_values(|s: String| s@), values_view(expression_placeholders@)),
{
    let ghost sv = strings@.map_values(|s: String| s@);
    let ghost vv = values_view(expression_placeholders@);
    let mut result = String::new();
    let mut i: usize = 0;
    proof {
        assert(sv.take(0) =~= Seq::<Seq<char>>::empty());
    }
    while i < strings.len()
        invariant
            i <= strings@.len(),
            strings@.len() == expression_placeholders@.len() + 1,
            sv == strings@.map_values(|s: String| s@),
            vv == values_view(expression_placeholders@),
            forall|k: int| 0 <= k < expression_placeholders@.len() ==> param_value_ok(#[trigger] expression_placeholders@[k]@),
            result@ == spec_icu_placeholder(sv.take(i as int), vv),
        decreases strings.len() - i,
    {
        result.append(strings[i].as_str());
        if i < expression_placeholders.len() {
            let v = format_value(&expression_placeholders[i]);
            result.append(v.as_str());
        }
        proof {
            assert(sv.take(i + 1).drop_last() =~= sv.take(i as int));
            assert(sv.take(i + 1)[i as int] == strings@[i as int]@);
        }
        i += 1;
    }
    proof {
        assert(sv.take(strings@.len() as int) =~= sv);
    }
    result
}

/// The placeholders whose values format to something, each with its value as a string
/// literal, in order.
pub open spec fn spec_format_params(params: Seq<(Seq<char>, Seq<SParamValue>)>) -> Seq<(Seq<char>, SExpr)>
    decreases params.len(),
{
    if params.len() == 0 {
        Seq::empty()
    } else {
        let rest = spec_format_params(params.drop_last());
        match spec_format_param_values(params.last().1) {
            Some(s) => rest.push((params.last().0, SExpr::Literal { value: SLit::String(s), source_span: None })),
            None => rest,
        }
    }
}

/// The views of a list of placeholders with their values.
pub open spec fn params_view(params: Seq<(String, Vec<I18nParamValue>)>) -> Seq<(Seq<char>, Seq<SParamValue>)> {
    params.map_values(|p: (String, Vec<I18nParamValue>)| (p.0@, values_view(p.1@)))
}

/// The views of a list of formatted placeholders.
pub open spec fn formatted_view(params: Seq<(String, Expression)>) -> Seq<(Seq<char>, SExpr)> {
    params.map_values(|p: (String, Expression)| (p.0@, expr_view(p.1)))
}

/// Format the values of each placeholder as a string literal; a placeholder with no value is
/// left out.
pub fn format_params(params: &Vec<(String, Vec<I18nParamValue>)>) -> (r: Vec<(String, Expression)>)
    requires
        forall|i: int, j: int|
            0 <= i < params@.len() && 0 <= j < params@[i].1@.len() ==> param_value_ok(#[trigger] params@[i].1@[j]@),
    ensures
        formatted_view(r@) == spec_format_params(params_view(params@)),
{
    let ghost pv = params_view(params@);
    let mut out: Vec<(String, Expression)> = Vec::new();
    let mut i: usize = 0;
    proof {
        assert(formatted_view(out@) =~= Seq::<(Seq<char>, SExpr)>::empty());
    }
    while i < params.len()
        invariant
            i <= params@.len(),
            pv == params_view(params@),
            forall|a: int, b: int|
                0 <= a < params@.len() && 0 <= b < params@[a].1@.len() ==> param_value_ok(#[trigger] params@[a].1@[b]@),
            formatted_view(out@) == spec_format_params(pv.take(i as int)),
        decreases params.len() - i,
    {
        let values = &params[i].1;
        assert forall|k: int| 0 <= k < values@.len() implies param_value_ok(#[trigger] values@[k]@) by {
            assert(param_value_ok(params@[i as int].1@[k]@));
        }
        let serialized = format_param_values(values);
        proof {
            assert(pv.take(i + 1).drop_last() =~= pv.take(i as int));
            assert(pv.take(i + 1).last() == pv[i as int]);
        }
        match serialized {
            Some(s) => {
                let ghost before = out@;
                let lit = Expression::Literal(LiteralExpr { value: LiteralValue::String(s), source_span: None });
                out.push((params[i].0.clone(), lit));
                proof {
                    assert(formatted_view(out@) =~= formatted_view(before).push(
                        (params@[i as int].0@, expr_view(lit)),
                    ));
                }
            },
            None => {},
        }
        i += 1;
    }
    proof {
        assert(pv.take(params@.len() as int) =~= pv);
    }
    out
}

} // verus!
