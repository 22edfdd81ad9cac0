//! Builders for the statements and expressions that call the runtime's instructions.
//!
//! Numbers (slots, indices, counts) are written as integer literals.

use vstd::prelude::*;
use vstd::string::*;
use crate::parse_util::{ParseSourceSpan, SpecSpan, opt_span_view, opt_string_view};
use crate::output::{
    Expression, ExternalReference, LiteralArrayExpr, LiteralExpr, LiteralValue, SExpr, SLit, SRef,
    SStmt, Statement, expr_view, exprs_view, stmt_view, lemma_exprs_view_push,
    lemma_exprs_view_append,
};
use crate::ir::opt_expr_view;
use crate::emit::{Instruction, instruction_ref, instruction_reference, int_lit, text_lit, int_expr};

verus! {

// ---------------------------------------------------------------------------------------------
// The shape of a call
// ---------------------------------------------------------------------------------------------

/// The expression that calls the function `r` refers to with `args`.
pub open spec fn invoke_of(r: SRef, args: Seq<SExpr>, span: Option<SpecSpan>) -> SExpr {
    SExpr::InvokeFn {
        fn_: Box::new(SExpr::External { value: r, source_span: None }),
        args,
        source_span: span,
        pure: false,
    }
}

/// The statement that calls the function `r` refers to with `args`.
pub open spec fn call_of(r: SRef, args: Seq<SExpr>, span: Option<SpecSpan>) -> SStmt {
    SStmt::Expression { expr: invoke_of(r, args, span) }
}

/// The `null` literal.
pub open spec fn null_lit() -> SExpr {
    SExpr::Literal { value: SLit::Null, source_span: None }
}

/// A boolean literal.
pub open spec fn bool_lit(b: bool) -> SExpr {
    SExpr::Literal { value: SLit::Bool(b), source_span: None }
}

/// One argument where there is a value, none where there is not.
pub open spec fn opt_arg(e: Option<SExpr>) -> Seq<SExpr> {
    match e {
        Some(x) => seq![x],
        None => Seq::empty(),
    }
}

/// An optional integer as a literal.
pub open spec fn opt_int(n: Option<i32>) -> Option<SExpr> {
    match n {
        Some(i) => Some(int_lit(i as int)),
        None => None,
    }
}

/// An optional string as a literal.
pub open spec fn opt_text(s: Option<Seq<char>>) -> Option<SExpr> {
    match s {
        Some(t) => Some(text_lit(t)),
        None => None,
    }
}

// ---------------------------------------------------------------------------------------------
// Building argument lists
// ---------------------------------------------------------------------------------------------

fn push_arg(v: &mut Vec<Expression>, e: Expression)
    ensures
        exprs_view(final(v)@) == exprs_view(old(v)@).push(expr_view(e)),
{
    let ghost before = v@;
    v.push(e);
    proof {
        lemma_exprs_view_push(before, e);
    }
}

fn push_opt_arg(v: &mut Vec<Expression>, e: Option<Expression>)
    ensures
        exprs_view(final(v)@) == exprs_view(old(v)@) + opt_arg(opt_expr_view(e)),
{
    match e {
        Some(x) => {
            push_arg(v, x);
            assert(exprs_view(old(v)@).push(expr_view(x)) =~= exprs_view(old(v)@) + seq![expr_view(x)]);
        },
        None => {
            assert(exprs_view(v@) =~= exprs_view(v@) + Seq::<SExpr>::empty());
        },
    }
}

fn empty_args() -> (r: Vec<Expression>)
    ensures
        exprs_view(r@) == Seq::<SExpr>::empty(),
{
    let r: Vec<Expression> = Vec::new();
    assert(exprs_view(r@) =~= Seq::<SExpr>::empty());
    r
}

fn null_expr() -> (r: Expression)
    ensures
        expr_view(r) == null_lit(),
{
    Expression::Literal(LiteralExpr { value: LiteralValue::Null, source_span: None })
}

fn str_expr(s: &str) -> (r: Expression)
    ensures
        expr_view(r) == text_lit(s@),
{
    Expression::Literal(LiteralExpr { value: LiteralValue::String(s.to_string()), source_span: None })
}

fn string_expr(s: String) -> (r: Expression)
    ensures
        expr_view(r) == text_lit(s@),
{
    Expression::Literal(LiteralExpr { value: LiteralValue::String(s), source_span: None })
}

fn i32_expr(n: i32) -> (r: Expression)
    ensures
        expr_view(r) == int_lit(n as int),
{
    int_expr(n as i64)
}

fn usize_expr(n: usize) -> (r: Expression)
    requires
        n <= i64::MAX,
    ensures
        expr_view(r) == int_lit(n as int),
{
    int_expr(n as i64)
}

/// The expression that calls `fn_` with `args`.
fn invoke(fn_: ExternalReference, args: Vec<Expression>, source_span: Option<ParseSourceSpan>) -> (r:
    Expression)
    ensures
        expr_view(r) == invoke_of(fn_@, exprs_view(args@), opt_span_view(source_span)),
{
    let f = Expression::External { value: fn_, source_span: None };
    assert(expr_view(f) == SExpr::External { value: fn_@, source_span: None });
    Expression::InvokeFn { fn_: Box::new(f), args, source_span, pure: false }
}

// ---------------------------------------------------------------------------------------------
// Statements
// ---------------------------------------------------------------------------------------------

/// The statement that calls `fn_` with `args`, at `source_span`.
pub fn call(fn_: ExternalReference, args: Vec<Expression>, source_span: Option<ParseSourceSpan>) -> (r:
    Statement)
    ensures
        stmt_view(r) == call_of(fn_@, exprs_view(args@), opt_span_view(source_span)),
{
    let e = invoke(fn_, args, source_span);
    Statement::Expression { expr: Box::new(e) }
}

/// The statement of an update instruction: the same as `call`.
pub fn call_update(fn_: ExternalReference, args: Vec<Expression>, source_span: Option<ParseSourceSpan>) -> (r:
    Statement)
    ensures
        stmt_view(r) == call_of(fn_@, exprs_view(args@), opt_span_view(source_span)),
{
    call(fn_, args, source_span)
}

/// The arguments of an element or container instruction: the slot, the tag where there is one,
/// then the constant index and the local reference index; where there is a local reference
/// index, the constant index is written too, as `null` where there is none.
pub open spec fn element_args(
    slot: i32,
    tag: Option<Seq<char>>,
    const_index: Option<i32>,
    local_ref_index: Option<i32>,
) -> Seq<SExpr> {
    seq![int_lit(slot as int)] + opt_arg(opt_text(tag)) + match local_ref_index {
        Some(l) => seq![
            match const_index {
                Some(c) => int_lit(c as int),
                None => null_lit(),
            },
            int_lit(l as int),
        ],
        None => opt_arg(opt_int(const_index)),
    }
}

fn element_or_container_base(
    instruction: ExternalReference,
    slot: i32,
    tag: Option<&str>,
    const_index: Option<i32>,
    local_ref_index: Option<i32>,
    source_span: ParseSourceSpan,
) -> (r: Statement)
    ensures
        stmt_view(r) == call_of(
            instruction@,
            element_args(
                slot,
                match tag {
                    Some(t) => Some(t@),
                    None => None,
                },
                const_index,
                local_ref_index,
            ),
            Some(source_span@),
        ),
{
    let ghost tag_view = match tag {
        Some(t) => Some(t@),
        None => None::<Seq<char>>,
    };
    let mut args = empty_args();
    push_arg(&mut args, i32_expr(slot));
    let t = match tag {
        Some(t) => Some(str_expr(t)),
        None => None,
    };
    assert(opt_expr_view(t) == opt_text(tag_view));
    push_opt_arg(&mut args, t);
    let ghost prefix = exprs_view(args@);
    match local_ref_index {
        Some(local_ref) => {
            let c = match const_index {
                Some(i) => i32_expr(i),
                None => null_expr(),
            };
            push_arg(&mut args, c);
            push_arg(&mut args, i32_expr(local_ref));
        },
        None => {
            let c = match const_index {
                Some(i) => Some(i32_expr(i)),
                None => None,
            };
            assert(opt_expr_view(c) == opt_int(const_index));
            push_opt_arg(&mut args, c);
        },
    }
    assert(exprs_view(args@) =~= element_args(slot, tag_view, const_index, local_ref_index));
    call(instruction, args, Some(source_span))
}

/// `elementStart(slot, tag, consts?, localRefs?)`.
pub fn element_start(
    slot: i32,
    tag: &str,
    const_index: Option<i32>,
    local_ref_index: Option<i32>,
    source_span: ParseSourceSpan,
) -> (r: Statement)
    ensures
        stmt_view(r) == call_of(
            instruction_ref(Instruction::ElementStart),
            element_args(slot, Some(tag@), const_index, local_ref_index),
            Some(source_span@),
        ),
{
    element_or_container_base(
        instruction_reference(Instruction::ElementStart),
        slot,
        Some(tag),
        const_index,
        local_ref_index,
        source_span,
    )
}

/// `domElementStart(slot, tag, consts?, localRefs?)`.
pub fn dom_element_start(
    slot: i32,
    tag: &str,
    const_index: Option<i32>,
    local_ref_index: Option<i32>,
    source_span: ParseSourceSpan,
) -> (r: Statement)
    ensures
        stmt_view(r) == call_of(
            instruction_ref(Instruction::DomElementStart),
            element_args(slot, Some(tag@), const_index, local_ref_index),
            Some(source_span@),
        ),
{
    element_or_container_base(
        instruction_reference(Instruction::DomElementStart),
        slot,
        Some(tag),
        const_index,
        local_ref_index,
        source_span,
    )
}

/// `element(slot, tag, consts?, localRefs?)`.
pub fn element(
    slot: i32,
    tag: &str,
    const_index: Option<i32>,
    local_ref_index: Option<i32>,
    source_span: ParseSourceSpan,
) -> (r: Statement)
    ensures
        stmt_view(r) == call_of(
            instruction_ref(Instruction::Element),
            element_args(slot, Some(tag@), const_index, local_ref_index),
            Some(source_span@),
        ),
{
    element_or_container_base(
        instruction_reference(Instruction::Element),
        slot,
        Some(tag),
        const_index,
        local_ref_index,
        source_span,
    )
}

/// `elementEnd()`.
pub fn element_end(source_span: Option<ParseSourceSpan>) -> (r: Statement)
    ensures
        stmt_view(r) == call_of(
            instruction_ref(Instruction::ElementEnd),
            Seq::empty(),
            opt_span_view(source_span),
        ),
{
    call(instruction_reference(Instruction::ElementEnd), empty_args(), source_span)
}

/// `domElementEnd()`.
pub fn dom_element_end(source_span: Option<ParseSourceSpan>) -> (r: Statement)
    ensures
        stmt_view(r) == call_of(
            instruction_ref(Instruction::DomElementEnd),
            Seq::empty(),
            opt_span_view(source_span),
        ),
{
    call(instruction_reference(Instruction::DomElementEnd), empty_args(), source_span)
}

/// `text(slot, initialValue?)`: the initial value is written only where it is not empty.
pub fn text(slot: i32, initial_value: &str, source_span: Option<ParseSourceSpan>) -> (r: Statement)
    ensures
        stmt_view(r) == call_of(
            instruction_ref(Instruction::Text),
            seq![int_lit(slot as int)] + if initial_value@.len() > 0 {
                seq![text_lit(initial_value@)]
            } else {
                Seq::empty()
            },
            opt_span_view(source_span),
        ),
{
    let mut args = empty_args();
    push_arg(&mut args, i32_expr(slot));
    let ghost first = exprs_view(args@);
    if initial_value.unicode_len() > 0 {
        push_arg(&mut args, str_expr(initial_value));
        assert(exprs_view(args@) =~= first + seq![text_lit(initial_value@)]);
    } else {
        assert(exprs_view(args@) =~= first + Seq::<SExpr>::empty());
    }
    call(instruction_reference(Instruction::Text), args, source_span)
}

/// `pipe(slot, name)`.
pub fn pipe(slot: i32, name: &str) -> (r: Statement)
    ensures
        stmt_view(r) == call_of(
            instruction_ref(Instruction::Pipe),
            seq![int_lit(slot as int), text_lit(name@)],
            None,
        ),
{
    let mut args = empty_args();
    push_arg(&mut args, i32_expr(slot));
    push_arg(&mut args, str_expr(name));
    assert(exprs_view(args@) =~= seq![int_lit(slot as int), text_lit(name@)]);
    call(instruction_reference(Instruction::Pipe), args, None)
}

/// `advance(delta?)`: the delta is written only where it is more than one.
pub fn advance(delta: i32, source_span: ParseSourceSpan) -> (r: Statement)
    ensures
        stmt_view(r) == call_of(
            instruction_ref(Instruction::Advance),
            if delta > 1 {
                seq![int_lit(delta as int)]
            } else {
                Seq::empty()
            },
            Some(source_span@),
        ),
{
    let mut args = empty_args();
    if delta > 1 {
        push_arg(&mut args, i32_expr(delta));
        assert(exprs_view(args@) =~= seq![int_lit(delta as int)]);
    }
    call(instruction_reference(Instruction::Advance), args, Some(source_span))
}

/// The arguments of a binding instruction: the name, the value and the sanitizer where there
/// is one.
pub open spec fn binding_args(name: Seq<char>, expression: SExpr, sanitizer: Option<SExpr>) -> Seq<
    SExpr,
> {
    seq![text_lit(name), expression] + opt_arg(sanitizer)
}

fn binding_call(
    instruction: Instruction,
    name: &str,
    expression: Expression,
    sanitizer: Option<Expression>,
    source_span: ParseSourceSpan,
) -> (r: Statement)
    ensures
        stmt_view(r) == call_of(
            instruction_ref(instruction),
            binding_args(name@, expr_view(expression), opt_expr_view(sanitizer)),
            Some(source_span@),
        ),
{
    let mut args = empty_args();
    push_arg(&mut args, str_expr(name));
    let ghost e = expr_view(expression);
    push_arg(&mut args, expression);
    assert(exprs_view(args@) =~= seq![text_lit(name@), e]);
    push_opt_arg(&mut args, sanitizer);
    call(instruction_reference(instruction), args, Some(source_span))
}

/// `property(name, expression, sanitizer?)`.
pub fn property(
    name: &str,
    expression: Expression,
    sanitizer: Option<Expression>,
    source_span: ParseSourceSpan,
) -> (r: Statement)
    ensures
        stmt_view(r) == call_of(
            instruction_ref(Instruction::Property),
            binding_args(name@, expr_view(expression), opt_expr_view(sanitizer)),
            Some(source_span@),
        ),
{
    binding_call(Instruction::Property, name, expression, sanitizer, source_span)
}

/// `attribute(name, expression, sanitizer?)`.
pub fn attribute(
    name: &str,
    expression: Expression,
    sanitizer: Option<Expression>,
    source_span: ParseSourceSpan,
) -> (r: Statement)
    ensures
        stmt_view(r) == call_of(
            instruction_ref(Instruction::Attribute),
            binding_args(name@, expr_view(expression), opt_expr_view(sanitizer)),
            Some(source_span@),
        ),
{
    binding_call(Instruction::Attribute, name, expression, sanitizer, source_span)
}

/// `twoWayProperty(name, expression, sanitizer?)`.
pub fn two_way_property(
    name: &str,
    expression: Expression,
    sanitizer: Option<Expression>,
    source_span: ParseSourceSpan,
) -> (r: Statement)
    ensures
        stmt_view(r) == call_of(
            instruction_ref(Instruction::TwoWayProperty),
            binding_args(name@, expr_view(expression), opt_expr_view(sanitizer)),
            Some(source_span@),
        ),
{
    binding_call(Instruction::TwoWayProperty, name, expression, sanitizer, source_span)
}

/// `disableBindings()`.
pub fn disable_bindings() -> (r: Statement)
    ensures
        stmt_view(r) == call_of(instruction_ref(Instruction::DisableBindings), Seq::empty(), None),
{
    call(instruction_reference(Instruction::DisableBindings), empty_args(), None)
}

/// `enableBindings()`.
pub fn enable_bindings() -> (r: Statement)
    ensures
        stmt_view(r) == call_of(instruction_ref(Instruction::EnableBindings), Seq::empty(), None),
{
    call(instruction_reference(Instruction::EnableBindings), empty_args(), None)
}

/// `listener(name, handler, eventTarget?)`.
pub fn listener(
    name: String,
    handler_fn: Expression,
    event_target: Option<String>,
    source_span: Option<ParseSourceSpan>,
) -> (r: Statement)
    ensures
        stmt_view(r) == call_of(
            instruction_ref(Instruction::Listener),
            seq![text_lit(name@), expr_view(handler_fn)] + opt_arg(
                match event_target {
                    Some(t) => Some(text_lit(t@)),
                    None => None,
                },
            ),
            opt_span_view(source_span),
        ),
{
    let ghost name_view = name@;
    let ghost handler = expr_view(handler_fn);
    let mut args = empty_args();
    push_arg(&mut args, string_expr(name));
    push_arg(&mut args, handler_fn);
    assert(exprs_view(args@) =~= seq![text_lit(name_view), handler]);
    let target = match event_target {
        Some(t) => Some(string_expr(t)),
        None => None,
    };
    push_opt_arg(&mut args, target);
    call(instruction_reference(Instruction::Listener), args, source_span)
}

/// `twoWayListener(name, handler, false?)`: `false` is written where the default is prevented.
pub fn two_way_listener(
    name: &str,
    handler: Expression,
    prevent_default: bool,
    source_span: Option<ParseSourceSpan>,
) -> (r: Statement)
    ensures
        stmt_view(r) == call_of(
            instruction_ref(Instruction::TwoWayListener),
            seq![text_lit(name@), expr_view(handler)] + if prevent_default {
                seq![bool_lit(false)]
            } else {
                Seq::empty()
            },
            opt_span_view(source_span),
        ),
{
    let ghost h = expr_view(handler);
    let mut args = empty_args();
    push_arg(&mut args, str_expr(name));
    push_arg(&mut args, handler);
    let ghost first = exprs_view(args@);
    assert(first =~= seq![text_lit(name@), h]);
    if prevent_default {
        push_arg(
            &mut args,
            Expression::Literal(LiteralExpr { value: LiteralValue::Bool(false), source_span: None }),
        );
        assert(exprs_view(args@) =~= first + seq![bool_lit(false)]);
    } else {
        assert(exprs_view(args@) =~= first + Seq::<SExpr>::empty());
    }
    call(instruction_reference(Instruction::TwoWayListener), args, source_span)
}

/// The expression `twoWayBindingSet(target, value)`.
pub fn two_way_binding_set(target: Box<Expression>, value: Box<Expression>) -> (r: Box<Expression>)
    ensures
        expr_view(*r) == invoke_of(
            instruction_ref(Instruction::TwoWayBindingSet),
            seq![expr_view(*target), expr_view(*value)],
            None,
        ),
{
    let ghost t = expr_view(*target);
    let ghost v = expr_view(*value);
    let mut args = empty_args();
    push_arg(&mut args, *target);
    push_arg(&mut args, *value);
    assert(exprs_view(args@) =~= seq![t, v]);
    Box::new(invoke(instruction_reference(Instruction::TwoWayBindingSet), args, None))
}

// ---------------------------------------------------------------------------------------------
// Pure functions and pipes
// ---------------------------------------------------------------------------------------------

/// The pure function instruction for a number of arguments.
pub open spec fn pure_function_for(n: nat) -> Instruction {
    if n == 0 {
        Instruction::PureFunction0
    } else if n == 1 {
        Instruction::PureFunction1
    } else if n == 2 {
        Instruction::PureFunction2
    } else if n == 3 {
        Instruction::PureFunction3
    } else if n == 4 {
        Instruction::PureFunction4
    } else if n == 5 {
        Instruction::PureFunction5
    } else if n == 6 {
        Instruction::PureFunction6
    } else if n == 7 {
        Instruction::PureFunction7
    } else if n == 8 {
        Instruction::PureFunction8
    } else {
        Instruction::PureFunctionV
    }
}

/// Arguments given one by one up to `max` of them, and as one array literal beyond.
pub open spec fn spread_or_array(args: Seq<SExpr>, max: nat) -> Seq<SExpr> {
    if args.len() > max {
        seq![SExpr::LiteralArray { entries: args, source_span: None }]
    } else {
        args
    }
}

fn append_spread_or_array(call_args: &mut Vec<Expression>, args: Vec<Expression>, max: usize)
    ensures
        exprs_view(final(call_args)@) == exprs_view(old(call_args)@) + spread_or_array(
            exprs_view(args@),
            max as nat,
        ),
{
    proof {
        crate::output::lemma_exprs_view_len(args@);
    }
    if args.len() > max {
        let ghost entries = exprs_view(args@);
        let array = Expression::LiteralArray(LiteralArrayExpr { entries: args, source_span: None });
        push_arg(call_args, array);
        assert(exprs_view(old(call_args)@).push(expr_view(array)) =~= exprs_view(old(call_args)@)
            + seq![SExpr::LiteralArray { entries, source_span: None }]);
    } else {
        let mut rest = args;
        let ghost before = call_args@;
        let ghost tail = rest@;
        call_args.append(&mut rest);
        proof {
            lemma_exprs_view_append(before, tail);
        }
    }
}

/// The expression `pureFunctionN(slot, fn, ...args)`, with the arguments in one array beyond
/// eight of them.
pub fn pure_function(slot: i32, func: Expression, args: Vec<Expression>) -> (r: Expression)
    ensures
        expr_view(r) == invoke_of(
            instruction_ref(pure_function_for(args@.len())),
            seq![int_lit(slot as int), expr_view(func)] + spread_or_array(exprs_view(args@), 8),
            None,
        ),
{
    let num_args = args.len();
    let id = if num_args == 0 {
        Instruction::PureFunction0
    } else if num_args == 1 {
        Instruction::PureFunction1
    } else if num_args == 2 {
        Instruction::PureFunction2
    } else if num_args == 3 {
        Instruction::PureFunction3
    } else if num_args == 4 {
        Instruction::PureFunction4
    } else if num_args == 5 {
        Instruction::PureFunction5
    } else if num_args == 6 {
        Instruction::PureFunction6
    } else if num_args == 7 {
        Instruction::PureFunction7
    } else if num_args == 8 {
        Instruction::PureFunction8
    } else {
        Instruction::PureFunctionV
    };
    let ghost f = expr_view(func);
    let mut call_args = empty_args();
    push_arg(&mut call_args, i32_expr(slot));
    push_arg(&mut call_args, func);
    assert(exprs_view(call_args@) =~= seq![int_lit(slot as int), f]);
    append_spread_or_array(&mut call_args, args, 8);
    invoke(instruction_reference(id), call_args, None)
}

/// The pipe binding instruction for a number of arguments (the array form for none, too).
pub open spec fn pipe_bind_for(n: nat) -> Instruction {
    if n == 1 {
        Instruction::PipeBind1
    } else if n == 2 {
        Instruction::PipeBind2
    } else if n == 3 {
        Instruction::PipeBind3
    } else if n == 4 {
        Instruction::PipeBind4
    } else {
        Instruction::PipeBindV
    }
}

/// The expression `pipeBindN(pipeSlot, varOffset, ...args)`, with the arguments in one array
/// beyond four of them.
pub fn pipe_bind(pipe_slot: i32, var_offset: i32, args: Vec<Expression>) -> (r: Expression)
    ensures
        expr_view(r) == invoke_of(
            instruction_ref(pipe_bind_for(args@.len())),
            seq![int_lit(pipe_slot as int), int_lit(var_offset as int)] + spread_or_array(
                exprs_view(args@),
                4,
            ),
            None,
        ),
{
    let num_args = args.len();
    let id = if num_args == 1 {
        Instruction::PipeBind1
    } else if num_args == 2 {
        Instruction::PipeBind2
    } else if num_args == 3 {
        Instruction::PipeBind3
    } else if num_args == 4 {
        Instruction::PipeBind4
    } else {
        Instruction::PipeBindV
    };
    let mut call_args = empty_args();
    push_arg(&mut call_args, i32_expr(pipe_slot));
    push_arg(&mut call_args, i32_expr(var_offset));
    assert(exprs_view(call_args@) =~= seq![int_lit(pipe_slot as int), int_lit(var_offset as int)]);
    append_spread_or_array(&mut call_args, args, 4);
    invoke(instruction_reference(id), call_args, None)
}

/// The expression `reference(slot)`.
pub fn reference(slot: i32) -> (r: Expression)
    ensures
        expr_view(r) == invoke_of(
            instruction_ref(Instruction::Reference),
            seq![int_lit(slot as int)],
            None,
        ),
{
    let mut args = empty_args();
    push_arg(&mut args, i32_expr(slot));
    assert(exprs_view(args@) =~= seq![int_lit(slot as int)]);
    invoke(instruction_reference(Instruction::Reference), args, None)
}

// ---------------------------------------------------------------------------------------------
// Templates and conditionals
// ---------------------------------------------------------------------------------------------

/// The arguments of a template instruction after the slot, the function and the counts: the
/// tag, the constant index and the local reference index, each written as `null` where it is
/// missing and a later one is written, and after the local reference index the template
/// reference extractor.
pub open spec fn template_tail(
    tag: Option<Seq<char>>,
    const_index: Option<i32>,
    local_ref_index: Option<i32>,
) -> Seq<SExpr> {
    (match tag {
        Some(t) => seq![text_lit(t)],
        None => if const_index is Some || local_ref_index is Some {
            seq![null_lit()]
        } else {
            Seq::empty()
        },
    }) + (match const_index {
        Some(c) => seq![int_lit(c as int)],
        None => if local_ref_index is Some {
            seq![null_lit()]
        } else {
            Seq::empty()
        },
    }) + (match local_ref_index {
        Some(l) => seq![
            int_lit(l as int),
            SExpr::External { value: instruction_ref(Instruction::TemplateRefExtractor), source_span: None },
        ],
        None => Seq::empty(),
    })
}

/// `template(slot, fn, decls, vars, tag?, consts?, localRefs?, templateRefExtractor?)`.
pub fn template(
    slot: i32,
    template_fn: Expression,
    decls: usize,
    vars: usize,
    tag: Option<String>,
    const_index: Option<i32>,
    local_ref_index: Option<i32>,
    source_span: ParseSourceSpan,
) -> (r: Statement)
    requires
        decls <= i64::MAX,
        vars <= i64::MAX,
    ensures
        stmt_view(r) == call_of(
            instruction_ref(Instruction::TemplateCreate),
            seq![int_lit(slot as int), expr_view(template_fn), int_lit(decls as int), int_lit(vars as int)]
                + template_tail(opt_string_view(tag), const_index, local_ref_index),
            Some(source_span@),
        ),
{
    let ghost tag_view = opt_string_view(tag);
    let ghost f = expr_view(template_fn);
    let mut args = empty_args();
    push_arg(&mut args, i32_expr(slot));
    push_arg(&mut args, template_fn);
    push_arg(&mut args, usize_expr(decls));
    push_arg(&mut args, usize_expr(vars));
    let ghost head = exprs_view(args@);
    assert(head =~= seq![int_lit(slot as int), f, int_lit(decls as int), int_lit(vars as int)]);
    match tag {
        Some(t) => {
            push_arg(&mut args, string_expr(t));
        },
        None => {
            if const_index.is_some() || local_ref_index.is_some() {
                push_arg(&mut args, null_expr());
            }
        },
    }
    let ghost after_tag = exprs_view(args@);
    match const_index {
        Some(c) => {
            push_arg(&mut args, i32_expr(c));
        },
        None => {
            if local_ref_index.is_some() {
                push_arg(&mut args, null_expr());
            }
        },
    }
    let ghost after_const = exprs_view(args@);
    match local_ref_index {
        Some(lri) => {
            push_arg(&mut args, i32_expr(lri));
            let extractor = Expression::External {
                value: instruction_reference(Instruction::TemplateRefExtractor),
                source_span: None,
            };
            push_arg(&mut args, extractor);
        },
        None => {},
    }
    assert(exprs_view(args@) =~= head + template_tail(tag_view, const_index, local_ref_index));
    call(instruction_reference(Instruction::TemplateCreate), args, Some(source_span))
}

/// `conditional(slot, condition, fn?)`.
pub fn conditional(
    slot: i32,
    condition: Expression,
    template_fn: Option<Expression>,
    source_span: ParseSourceSpan,
) -> (r: Statement)
    ensures
        stmt_view(r) == call_of(
            instruction_ref(Instruction::Conditional),
            seq![int_lit(slot as int), expr_view(condition)] + opt_arg(opt_expr_view(template_fn)),
            Some(source_span@),
        ),
{
    let ghost c = expr_view(condition);
    let mut args = empty_args();
    push_arg(&mut args, i32_expr(slot));
    push_arg(&mut args, condition);
    assert(exprs_view(args@) =~= seq![int_lit(slot as int), c]);
    push_opt_arg(&mut args, template_fn);
    call(instruction_reference(Instruction::Conditional), args, Some(source_span))
}

/// `conditionalCreate(slot, fn, decls, vars, tag, consts?)`: the tag is written as `null`
/// where there is none.
pub fn conditional_create(
    slot: i32,
    template_fn: Expression,
    decls: usize,
    vars: usize,
    tag: Option<String>,
    const_index: Option<i32>,
    source_span: ParseSourceSpan,
) -> (r: Statement)
    requires
        decls <= i64::MAX,
        vars <= i64::MAX,
    ensures
        stmt_view(r) == call_of(
            instruction_ref(Instruction::ConditionalCreate),
            seq![
                int_lit(slot as int),
                expr_view(template_fn),
                int_lit(decls as int),
                int_lit(vars as int),
                match opt_string_view(tag) {
                    Some(t) => text_lit(t),
                    None => null_lit(),
                },
            ] + opt_arg(opt_int(const_index)),
            Some(source_span@),
        ),
{
    let ghost f = expr_view(template_fn);
    let ghost tag_arg = match opt_string_view(tag) {
        Some(t) => text_lit(t),
        None => null_lit(),
    };
    let mut args = empty_args();
    push_arg(&mut args, i32_expr(slot));
    push_arg(&mut args, template_fn);
    push_arg(&mut args, usize_expr(decls));
    push_arg(&mut args, usize_expr(vars));
    let t = match tag {
        Some(t) => string_expr(t),
        None => null_expr(),
    };
    push_arg(&mut args, t);
    assert(exprs_view(args@) =~= seq![
        int_lit(slot as int),
        f,
        int_lit(decls as int),
        int_lit(vars as int),
        tag_arg,
    ]);
    let c = match const_index {
        Some(i) => Some(i32_expr(i)),
        None => None,
    };
    let ghost head = exprs_view(args@);
    assert(opt_expr_view(c) == opt_int(const_index));
    push_opt_arg(&mut args, c);
    assert(exprs_view(args@) == seq![
        int_lit(slot as int),
        expr_view(template_fn),
        int_lit(decls as int),
        int_lit(vars as int),
        match opt_string_view(tag) {
            Some(t) => text_lit(t),
            None => null_lit(),
        },
    ] + opt_arg(opt_int(const_index)));
    call(instruction_reference(Instruction::ConditionalCreate), args, Some(source_span))
}

// ---------------------------------------------------------------------------------------------
// Styling
// ---------------------------------------------------------------------------------------------

/// `classProp(name, expression)`.
pub fn class_prop(name: &str, expression: Expression, source_span: Option<ParseSourceSpan>) -> (r:
    Statement)
    ensures
        stmt_view(r) == call_of(
            instruction_ref(Instruction::ClassProp),
            seq![text_lit(name@), expr_view(expression)],
            opt_span_view(source_span),
        ),
{
    let ghost e = expr_view(expression);
    let mut args = empty_args();
    push_arg(&mut args, str_expr(name));
    push_arg(&mut args, expression);
    assert(exprs_view(args@) =~= seq![text_lit(name@), e]);
    call(instruction_reference(Instruction::ClassProp), args, source_span)
}

/// `styleProp(name, expression, unit?)`.
pub fn style_prop(
    name: &str,
    expression: Expression,
    unit: Option<&str>,
    source_span: Option<ParseSourceSpan>,
) -> (r: Statement)
    ensures
        stmt_view(r) == call_of(
            instruction_ref(Instruction::StyleProp),
            seq![text_lit(name@), expr_view(expression)] + opt_arg(
                match unit {
                    Some(u) => Some(text_lit(u@)),
                    None => None,
                },
            ),
            opt_span_view(source_span),
        ),
{
    let ghost e = expr_view(expression);
    let mut args = empty_args();
    push_arg(&mut args, str_expr(name));
    push_arg(&mut args, expression);
    assert(exprs_view(args@) =~= seq![text_lit(name@), e]);
    let u = match unit {
        Some(u) => Some(str_expr(u)),
        None => None,
    };
    push_opt_arg(&mut args, u);
    call(instruction_reference(Instruction::StyleProp), args, source_span)
}

} // verus!
