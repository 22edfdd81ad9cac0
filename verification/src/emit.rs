//! Emission: the operations of a unit become statements that call the runtime's instructions,
//! and a host binding job becomes its host binding function.

use vstd::prelude::*;
use vstd::string::*;
use crate::parse_util::{opt_string_view, clone_opt_span};
use crate::output::{
    BinaryOperator, Expression, ExternalReference, FnParam, LiteralExpr, LiteralValue, SExpr, SLit,
    SRef, SStmt, Statement, expr_view, exprs_view, stmt_view, stmts_view, params_view, clone_expr,
    clone_stmt, clone_opt_string, lemma_exprs_view_push, lemma_exprs_view_index, lemma_exprs_view_len,
    lemma_stmts_view_push, lemma_stmts_view_append, lemma_stmts_view_len, lemma_stmts_view_index,
};
use crate::ir::{
    BindingExpression, CreateOp, Interpolation, ListenerOp, Namespace, SBindingExpr, SCreateOp,
    SInterpolation, SListener, SUpdateOp, UpdateOp, create_op_view, create_ops_view, interpolation_view,
    update_op_view, update_ops_view, strings_view, lemma_update_ops_view_index, lemma_update_ops_view_len,
    lemma_create_ops_view_index, lemma_create_ops_view_len,
};
use crate::compilation::HostBindingCompilationJob;
use crate::component::ViewCompilationUnit;

verus! {

/// The runtime instructions that emission calls.
#[derive(Debug, Clone, Copy, PartialEq, Eq, Structural)]
pub enum Instruction {
    Property,
    Attribute,
    ClassProp,
    StyleProp,
    ClassMap,
    StyleMap,
    Advance,
    TextInterpolate,
    TextInterpolate1,
    TextInterpolate2,
    TextInterpolate3,
    TextInterpolate4,
    TextInterpolate5,
    TextInterpolate6,
    TextInterpolate7,
    TextInterpolate8,
    TextInterpolateV,
    Listener,
    DomElementStart,
    ElementEnd,
    Element,
    Text,
    Projection,
    NamespaceHtml,
    NamespaceSvg,
    NamespaceMathMl,
    ElementStart,
    DomElementEnd,
    Pipe,
    DisableBindings,
    EnableBindings,
    TwoWayListener,
    TwoWayProperty,
    TwoWayBindingSet,
    PureFunction0,
    PureFunction1,
    PureFunction2,
    PureFunction3,
    PureFunction4,
    PureFunction5,
    PureFunction6,
    PureFunction7,
    PureFunction8,
    PureFunctionV,
    TemplateCreate,
    TemplateRefExtractor,
    Conditional,
    ConditionalCreate,
    PipeBind1,
    PipeBind2,
    PipeBind3,
    PipeBind4,
    PipeBindV,
    Reference,
    ViewQuery,
    ViewQuerySignal,
    QueryAdvance,
    QueryRefresh,
    LoadQuery,
}

/// The exported name of an instruction.
pub open spec fn instruction_name(i: Instruction) -> Seq<char> {
    match i {
        Instruction::Property => "ɵɵproperty"@,
        Instruction::Attribute => "ɵɵattribute"@,
        Instruction::ClassProp => "ɵɵclassProp"@,
        Instruction::StyleProp => "ɵɵstyleProp"@,
        Instruction::ClassMap => "ɵɵclassMap"@,
        Instruction::StyleMap => "ɵɵstyleMap"@,
        Instruction::Advance => "ɵɵadvance"@,
        Instruction::TextInterpolate => "ɵɵtextInterpolate"@,
        Instruction::TextInterpolate1 => "ɵɵtextInterpolate1"@,
        Instruction::TextInterpolate2 => "ɵɵtextInterpolate2"@,
        Instruction::TextInterpolate3 => "ɵɵtextInterpolate3"@,
        Instruction::TextInterpolate4 => "ɵɵtextInterpolate4"@,
        Instruction::TextInterpolate5 => "ɵɵtextInterpolate5"@,
        Instruction::TextInterpolate6 => "ɵɵtextInterpolate6"@,
        Instruction::TextInterpolate7 => "ɵɵtextInterpolate7"@,
        Instruction::TextInterpolate8 => "ɵɵtextInterpolate8"@,
        Instruction::TextInterpolateV => "ɵɵtextInterpolateV"@,
        Instruction::Listener => "ɵɵlistener"@,
        Instruction::DomElementStart => "ɵɵdomElementStart"@,
        Instruction::ElementEnd => "ɵɵelementEnd"@,
        Instruction::Element => "ɵɵelement"@,
        Instruction::Text => "ɵɵtext"@,
        Instruction::Projection => "ɵɵprojection"@,
        Instruction::NamespaceHtml => "ɵɵnamespaceHTML"@,
        Instruction::NamespaceSvg => "ɵɵnamespaceSVG"@,
        Instruction::NamespaceMathMl => "ɵɵnamespaceMathML"@,
        Instruction::ElementStart => "ɵɵelementStart"@,
        Instruction::DomElementEnd => "ɵɵdomElementEnd"@,
        Instruction::Pipe => "ɵɵpipe"@,
        Instruction::DisableBindings => "ɵɵdisableBindings"@,
        Instruction::EnableBindings => "ɵɵenableBindings"@,
        Instruction::TwoWayListener => "ɵɵtwoWayListener"@,
        Instruction::TwoWayProperty => "ɵɵtwoWayProperty"@,
        Instruction::TwoWayBindingSet => "ɵɵtwoWayBindingSet"@,
        Instruction::PureFunction0 => "ɵɵpureFunction0"@,
        Instruction::PureFunction1 => "ɵɵpureFunction1"@,
        Instruction::PureFunction2 => "ɵɵpureFunction2"@,
        Instruction::PureFunction3 => "ɵɵpureFunction3"@,
        Instruction::PureFunction4 => "ɵɵpureFunction4"@,
        Instruction::PureFunction5 => "ɵɵpureFunction5"@,
        Instruction::PureFunction6 => "ɵɵpureFunction6"@,
        Instruction::PureFunction7 => "ɵɵpureFunction7"@,
        Instruction::PureFunction8 => "ɵɵpureFunction8"@,
        Instruction::PureFunctionV => "ɵɵpureFunctionV"@,
        Instruction::TemplateCreate => "ɵɵtemplate"@,
        Instruction::TemplateRefExtractor => "ɵɵtemplateRefExtractor"@,
        Instruction::Conditional => "ɵɵconditional"@,
        Instruction::ConditionalCreate => "ɵɵconditionalCreate"@,
        Instruction::PipeBind1 => "ɵɵpipeBind1"@,
        Instruction::PipeBind2 => "ɵɵpipeBind2"@,
        Instruction::PipeBind3 => "ɵɵpipeBind3"@,
        Instruction::PipeBind4 => "ɵɵpipeBind4"@,
        Instruction::PipeBindV => "ɵɵpipeBindV"@,
        Instruction::Reference => "ɵɵreference"@,
        Instruction::ViewQuery => "ɵɵviewQuery"@,
        Instruction::ViewQuerySignal => "ɵɵviewQuerySignal"@,
        Instruction::QueryAdvance => "ɵɵqueryAdvance"@,
        Instruction::QueryRefresh => "ɵɵqueryRefresh"@,
        Instruction::LoadQuery => "ɵɵloadQuery"@,
    }
}

/// A reference to an instruction of the core package.
pub open spec fn instruction_ref(i: Instruction) -> SRef {
    SRef { name: Some(instruction_name(i)), module_name: Some("@angular/core"@) }
}

/// The statement that calls an instruction with `args`.
pub open spec fn call_stmt(i: Instruction, args: Seq<SExpr>) -> SStmt {
    SStmt::Expression {
        expr: SExpr::InvokeFn {
            fn_: Box::new(SExpr::External { value: instruction_ref(i), source_span: None }),
            args,
            source_span: None,
            pure: false,
        },
    }
}

/// An integer literal.
pub open spec fn int_lit(n: int) -> SExpr {
    SExpr::Literal { value: SLit::Integer(n), source_span: None }
}

/// A string literal.
pub open spec fn text_lit(s: Seq<char>) -> SExpr {
    SExpr::Literal { value: SLit::String(s), source_span: None }
}

/// A reference to an instruction of the core package.
pub fn instruction_reference(i: Instruction) -> (r: ExternalReference)
    ensures
        r@ == instruction_ref(i),
{
    let name = match i {
        Instruction::Property => "ɵɵproperty",
        Instruction::Attribute => "ɵɵattribute",
        Instruction::ClassProp => "ɵɵclassProp",
        Instruction::StyleProp => "ɵɵstyleProp",
        Instruction::ClassMap => "ɵɵclassMap",
        Instruction::StyleMap => "ɵɵstyleMap",
        Instruction::Advance => "ɵɵadvance",
        Instruction::TextInterpolate => "ɵɵtextInterpolate",
        Instruction::TextInterpolate1 => "ɵɵtextInterpolate1",
        Instruction::TextInterpolate2 => "ɵɵtextInterpolate2",
        Instruction::TextInterpolate3 => "ɵɵtextInterpolate3",
        Instruction::TextInterpolate4 => "ɵɵtextInterpolate4",
        Instruction::TextInterpolate5 => "ɵɵtextInterpolate5",
        Instruction::TextInterpolate6 => "ɵɵtextInterpolate6",
        Instruction::TextInterpolate7 => "ɵɵtextInterpolate7",
        Instruction::TextInterpolate8 => "ɵɵtextInterpolate8",
        Instruction::TextInterpolateV => "ɵɵtextInterpolateV",
        Instruction::Listener => "ɵɵlistener",
        Instruction::DomElementStart => "ɵɵdomElementStart",
        Instruction::ElementEnd => "ɵɵelementEnd",
        Instruction::Element => "ɵɵelement",
        Instruction::Text => "ɵɵtext",
        Instruction::Projection => "ɵɵprojection",
        Instruction::NamespaceHtml => "ɵɵnamespaceHTML",
        Instruction::NamespaceSvg => "ɵɵnamespaceSVG",
        Instruction::NamespaceMathMl => "ɵɵnamespaceMathML",
        Instruction::ElementStart => "ɵɵelementStart",
        Instruction::DomElementEnd => "ɵɵdomElementEnd",
        Instruction::Pipe => "ɵɵpipe",
        Instruction::DisableBindings => "ɵɵdisableBindings",
        Instruction::EnableBindings => "ɵɵenableBindings",
        Instruction::TwoWayListener => "ɵɵtwoWayListener",
        Instruction::TwoWayProperty => "ɵɵtwoWayProperty",
        Instruction::TwoWayBindingSet => "ɵɵtwoWayBindingSet",
        Instruction::PureFunction0 => "ɵɵpureFunction0",
        Instruction::PureFunction1 => "ɵɵpureFunction1",
        Instruction::PureFunction2 => "ɵɵpureFunction2",
        Instruction::PureFunction3 => "ɵɵpureFunction3",
        Instruction::PureFunction4 => "ɵɵpureFunction4",
        Instruction::PureFunction5 => "ɵɵpureFunction5",
        Instruction::PureFunction6 => "ɵɵpureFunction6",
        Instruction::PureFunction7 => "ɵɵpureFunction7",
        Instruction::PureFunction8 => "ɵɵpureFunction8",
        Instruction::PureFunctionV => "ɵɵpureFunctionV",
        Instruction::TemplateCreate => "ɵɵtemplate",
        Instruction::TemplateRefExtractor => "ɵɵtemplateRefExtractor",
        Instruction::Conditional => "ɵɵconditional",
        Instruction::ConditionalCreate => "ɵɵconditionalCreate",
        Instruction::PipeBind1 => "ɵɵpipeBind1",
        Instruction::PipeBind2 => "ɵɵpipeBind2",
        Instruction::PipeBind3 => "ɵɵpipeBind3",
        Instruction::PipeBind4 => "ɵɵpipeBind4",
        Instruction::PipeBindV => "ɵɵpipeBindV",
        Instruction::Reference => "ɵɵreference",
        Instruction::ViewQuery => "ɵɵviewQuery",
        Instruction::ViewQuerySignal => "ɵɵviewQuerySignal",
        Instruction::QueryAdvance => "ɵɵqueryAdvance",
        Instruction::QueryRefresh => "ɵɵqueryRefresh",
        Instruction::LoadQuery => "ɵɵloadQuery",
    };
    ExternalReference { name: Some(name.to_string()), module_name: Some("@angular/core".to_string()) }
}

/// The statement that calls an instruction with `args`.
pub fn call_instruction(i: Instruction, args: Vec<Expression>) -> (r: Statement)
    ensures
        stmt_view(r) == call_stmt(i, exprs_view(args@)),
{
    let f = Expression::External { value: instruction_reference(i), source_span: None };
    assert(expr_view(f) == SExpr::External { value: instruction_ref(i), source_span: None });
    let call = Expression::InvokeFn { fn_: Box::new(f), args, source_span: None, pure: false };
    assert(expr_view(call) == SExpr::InvokeFn {
        fn_: Box::new(SExpr::External { value: instruction_ref(i), source_span: None }),
        args: exprs_view(args@),
        source_span: None,
        pure: false,
    });
    Statement::Expression { expr: Box::new(call) }
}

/// An integer literal.
pub fn int_expr(n: i64) -> (r: Expression)
    ensures
        expr_view(r) == int_lit(n as int),
{
    Expression::Literal(LiteralExpr { value: LiteralValue::Integer(n), source_span: None })
}

/// A string literal.
pub fn text_expr(s: String) -> (r: Expression)
    ensures
        expr_view(r) == text_lit(s@),
{
    Expression::Literal(LiteralExpr { value: LiteralValue::String(s), source_span: None })
}

/// A list of expressions from a first and an optional second.
fn args_with(a: Expression, b: Expression, c: Option<Expression>) -> (r: Vec<Expression>)
    ensures
        exprs_view(r@) == seq![expr_view(a), expr_view(b)] + match c {
            Some(x) => seq![expr_view(x)],
            None => Seq::<SExpr>::empty(),
        },
{
    let mut r: Vec<Expression> = Vec::new();
    proof {
        assert(exprs_view(r@) =~= Seq::<SExpr>::empty());
    }
    let ghost r0 = r@;
    r.push(a);
    proof {
        lemma_exprs_view_push(r0, a);
    }
    let ghost r1 = r@;
    r.push(b);
    proof {
        lemma_exprs_view_push(r1, b);
    }
    match c {
        Some(x) => {
            let ghost r2 = r@;
            r.push(x);
            proof {
                lemma_exprs_view_push(r2, x);
            }
        },
        None => {},
    }
    assert(exprs_view(r@) =~= seq![expr_view(a), expr_view(b)] + match c {
        Some(x) => seq![expr_view(x)],
        None => Seq::<SExpr>::empty(),
    });
    r
}

/// A list of one expression.
fn one_arg(a: Expression) -> (r: Vec<Expression>)
    ensures
        exprs_view(r@) == seq![expr_view(a)],
{
    let mut r: Vec<Expression> = Vec::new();
    proof {
        assert(exprs_view(r@) =~= Seq::<SExpr>::empty());
    }
    let ghost r0 = r@;
    r.push(a);
    proof {
        lemma_exprs_view_push(r0, a);
        assert(exprs_view(r@) =~= seq![expr_view(a)]);
    }
    r
}

/// An empty list of expressions.
fn no_args() -> (r: Vec<Expression>)
    ensures
        exprs_view(r@) == Seq::<SExpr>::empty(),
{
    let r: Vec<Expression> = Vec::new();
    assert(exprs_view(r@) =~= Seq::<SExpr>::empty());
    r
}

// ---------------------------------------------------------------------------------------------
// Text interpolation
// ---------------------------------------------------------------------------------------------

/// The strings and expressions of an interpolation interleaved, up to the `k`th expression.
pub open spec fn interleave(strings: Seq<Seq<char>>, exprs: Seq<SExpr>, k: int) -> Seq<SExpr>
    decreases k,
{
    if k <= 0 {
        Seq::empty()
    } else {
        interleave(strings, exprs, k - 1) + seq![text_lit(strings[k - 1]), exprs[k - 1]]
    }
}

/// Whether an interpolation is one expression between two empty strings.
pub open spec fn is_bare_expression(i: SInterpolation) -> bool {
    i.expressions.len() == 1 && i.strings.len() == 2 && i.strings[0].len() == 0 && i.strings[1].len() == 0
}

/// Whether an interpolation can be emitted: a bare expression, or at least one string and a
/// string before each expression.
pub open spec fn interpolation_ok(i: SInterpolation) -> bool {
    is_bare_expression(i) || (i.strings.len() >= 1 && i.strings.len() >= i.expressions.len())
}

/// The arguments of a text interpolation: the bare expression, or the strings and expressions
/// interleaved, with the last string when it is not empty.
pub open spec fn interpolation_args(i: SInterpolation) -> Seq<SExpr> {
    if is_bare_expression(i) {
        seq![i.expressions[0]]
    } else {
        let last = i.strings[i.strings.len() - 1];
        interleave(i.strings, i.expressions, i.expressions.len() as int) + if last.len() > 0 {
            seq![text_lit(last)]
        } else {
            Seq::empty()
        }
    }
}

/// The text interpolation instruction for a number of arguments.
pub open spec fn text_interpolate_for(n_args: nat) -> Instruction {
    let n = n_args / 2;
    if n == 0 {
        Instruction::TextInterpolate
    } else if n == 1 {
        Instruction::TextInterpolate1
    } else if n == 2 {
        Instruction::TextInterpolate2
    } else if n == 3 {
        Instruction::TextInterpolate3
    } else if n == 4 {
        Instruction::TextInterpolate4
    } else if n == 5 {
        Instruction::TextInterpolate5
    } else if n == 6 {
        Instruction::TextInterpolate6
    } else if n == 7 {
        Instruction::TextInterpolate7
    } else if n == 8 {
        Instruction::TextInterpolate8
    } else {
        Instruction::TextInterpolateV
    }
}

proof fn lemma_interleave_len(strings: Seq<Seq<char>>, exprs: Seq<SExpr>, k: int)
    requires
        k >= 0,
    ensures
        interleave(strings, exprs, k).len() == 2 * k,
    decreases k,
{
    if k > 0 {
        lemma_interleave_len(strings, exprs, k - 1);
    }
}

/// The text interpolation instruction is chosen by the number of interpolated expressions:
/// `ɵɵtextInterpolate<k>` for `k` expressions from one to eight (`"Hello {{name}}"` is
/// `ɵɵtextInterpolate1("Hello ", name)`), `ɵɵtextInterpolateV` beyond, and `ɵɵtextInterpolate`
/// for a bare expression or text alone; the call's arguments are the interpolation's.
pub proof fn lemma_text_interpolation_by_count(target: crate::output::XrefId, i: SInterpolation)
    requires
        interpolation_ok(i),
    ensures
        spec_emit_update_op(SUpdateOp::InterpolateText { target, interpolation: i }) == seq![
            call_stmt(
                if is_bare_expression(i) {
                    Instruction::TextInterpolate
                } else {
                    let k = i.expressions.len();
                    if k == 0 {
                        Instruction::TextInterpolate
                    } else if k == 1 {
                        Instruction::TextInterpolate1
                    } else if k == 2 {
                        Instruction::TextInterpolate2
                    } else if k == 3 {
                        Instruction::TextInterpolate3
                    } else if k == 4 {
                        Instruction::TextInterpolate4
                    } else if k == 5 {
                        Instruction::TextInterpolate5
                    } else if k == 6 {
                        Instruction::TextInterpolate6
                    } else if k == 7 {
                        Instruction::TextInterpolate7
                    } else if k == 8 {
                        Instruction::TextInterpolate8
                    } else {
                        Instruction::TextInterpolateV
                    }
                },
                interpolation_args(i),
            ),
        ],
{
    if !is_bare_expression(i) {
        let k = i.expressions.len() as int;
        lemma_interleave_len(i.strings, i.expressions, k);
        let n_args = interpolation_args(i).len();
        assert(n_args == 2 * k || n_args == 2 * k + 1);
        assert(n_args / 2 == k);
    }
}

fn text_interpolate_instruction(n_args: usize) -> (r: Instruction)
    ensures
        r == text_interpolate_for(n_args as nat),
{
    let n = n_args / 2;
    if n == 0 {
        Instruction::TextInterpolate
    } else if n == 1 {
        Instruction::TextInterpolate1
    } else if n == 2 {
        Instruction::TextInterpolate2
    } else if n == 3 {
        Instruction::TextInterpolate3
    } else if n == 4 {
        Instruction::TextInterpolate4
    } else if n == 5 {
        Instruction::TextInterpolate5
    } else if n == 6 {
        Instruction::TextInterpolate6
    } else if n == 7 {
        Instruction::TextInterpolate7
    } else if n == 8 {
        Instruction::TextInterpolate8
    } else {
        Instruction::TextInterpolateV
    }
}

/// The arguments of a text interpolation.
fn interpolation_arguments(i: &Interpolation) -> (r: Vec<Expression>)
    requires
        interpolation_ok(interpolation_view(*i)),
    ensures
        exprs_view(r@) == interpolation_args(interpolation_view(*i)),
{
    let ghost iv = interpolation_view(*i);
    proof {
        lemma_exprs_view_len(i.expressions@);
    }
    let ns = i.strings.len();
    let ne = i.expressions.len();
    if ne == 1 && ns == 2 && i.strings[0].unicode_len() == 0 && i.strings[1].unicode_len() == 0 {
        proof {
            lemma_exprs_view_index(i.expressions@, 0);
        }
        return one_arg(clone_expr(&i.expressions[0]));
    }
    let mut args: Vec<Expression> = Vec::new();
    let mut k: usize = 0;
    proof {
        assert(exprs_view(args@) =~= Seq::<SExpr>::empty());
    }
    while k < ne
        invariant
            k <= ne,
            ne == i.expressions@.len(),
            ns == i.strings@.len(),
            ns >= ne,
            iv == interpolation_view(*i),
            iv.expressions.len() == ne,
            exprs_view(args@) == interleave(iv.strings, iv.expressions, k as int),
        decreases ne - k,
    {
        let s = text_expr(i.strings[k].clone());
        let e = clone_expr(&i.expressions[k]);
        proof {
            lemma_exprs_view_index(i.expressions@, k as int);
        }
        let ghost a0 = args@;
        args.push(s);
        proof {
            lemma_exprs_view_push(a0, s);
        }
        let ghost a1 = args@;
        args.push(e);
        proof {
            lemma_exprs_view_push(a1, e);
            assert(exprs_view(args@) =~= interleave(iv.strings, iv.expressions, k + 1));
        }
        k += 1;
    }
    let last = &i.strings[ns - 1];
    if last.unicode_len() > 0 {
        let s = text_expr(last.clone());
        let ghost a0 = args@;
        args.push(s);
        proof {
            lemma_exprs_view_push(a0, s);
        }
    } else {
        assert(exprs_view(args@) + Seq::<SExpr>::empty() =~= exprs_view(args@));
    }
    args
}

// ---------------------------------------------------------------------------------------------
// Update operations
// ---------------------------------------------------------------------------------------------

/// Whether an update operation can be emitted: property, attribute, style and map bindings hold
/// an expression, not an interpolation, text interpolations are well formed, and an advance
/// fits an integer literal.
pub open spec fn emittable(op: SUpdateOp) -> bool {
    match op {
        SUpdateOp::Property(p) => p.expression is Expression,
        SUpdateOp::Attribute(a) => a.expression is Expression,
        SUpdateOp::StyleProp { expression, .. } => expression is Expression,
        SUpdateOp::ClassMap { expression, .. } => expression is Expression,
        SUpdateOp::StyleMap { expression, .. } => expression is Expression,
        SUpdateOp::InterpolateText { interpolation, .. } => interpolation_ok(interpolation),
        SUpdateOp::Advance { delta } => delta <= i64::MAX,
        _ => true,
    }
}

/// The expression of a binding.
pub open spec fn bound_expr(b: SBindingExpr) -> SExpr {
    match b {
        SBindingExpr::Expression(e) => e,
        SBindingExpr::Interpolation(_) => SExpr::Empty { source_span: None },
    }
}

/// An optional expression as a list of at most one.
pub open spec fn opt_list(e: Option<SExpr>) -> Seq<SExpr> {
    match e {
        Some(x) => seq![x],
        None => Seq::empty(),
    }
}

/// The statements of one update operation: the call of its instruction, the statement it
/// holds, or nothing for operations that emit no code here.
pub open spec fn spec_emit_update_op(op: SUpdateOp) -> Seq<SStmt> {
    match op {
        SUpdateOp::Advance { delta } => seq![call_stmt(Instruction::Advance, seq![int_lit(delta as int)])],
        SUpdateOp::InterpolateText { interpolation, .. } => {
            let args = interpolation_args(interpolation);
            seq![call_stmt(text_interpolate_for(args.len()), args)]
        },
        SUpdateOp::Property(p) => seq![
            call_stmt(
                Instruction::Property,
                seq![text_lit(p.name), bound_expr(p.expression)] + opt_list(p.sanitizer),
            ),
        ],
        SUpdateOp::Attribute(a) => seq![
            call_stmt(
                Instruction::Attribute,
                seq![text_lit(a.name), bound_expr(a.expression)] + opt_list(a.sanitizer),
            ),
        ],
        SUpdateOp::ClassProp { name, expression, .. } => seq![
            call_stmt(Instruction::ClassProp, seq![text_lit(name), expression]),
        ],
        SUpdateOp::StyleProp { name, expression, unit, .. } => seq![
            call_stmt(
                Instruction::StyleProp,
                seq![text_lit(name), bound_expr(expression)] + match unit {
                    Some(u) => seq![text_lit(u)],
                    None => Seq::empty(),
                },
            ),
        ],
        SUpdateOp::ClassMap { expression, .. } => seq![call_stmt(Instruction::ClassMap, seq![bound_expr(expression)])],
        SUpdateOp::StyleMap { expression, .. } => seq![call_stmt(Instruction::StyleMap, seq![bound_expr(expression)])],
        SUpdateOp::Statement(s) => seq![s],
        _ => Seq::empty(),
    }
}

/// The statements of a list of update operations, in order.
pub open spec fn spec_emit_ops(ops: Seq<SUpdateOp>) -> Seq<SStmt>
    decreases ops.len(),
{
    if ops.len() == 0 {
        Seq::empty()
    } else {
        spec_emit_ops(ops.drop_last()) + spec_emit_update_op(ops.last())
    }
}

/// The expression of a binding that holds one.
fn binding_expr_of(b: &BindingExpression) -> (r: Expression)
    requires
        b is Expression,
    ensures
        expr_view(r) == bound_expr(crate::ir::binding_expr_view(*b)),
{
    match b {
        BindingExpression::Expression(e) => clone_expr(e),
        BindingExpression::Interpolation(_) => {
            assert(false);
            Expression::Empty { source_span: None }
        },
    }
}

fn clone_opt_expression(e: &Option<Expression>) -> (r: Option<Expression>)
    ensures
        crate::ir::opt_expr_view(r) == crate::ir::opt_expr_view(*e),
{
    crate::ir::clone_opt_expr(e)
}

/// A list of one statement.
fn one_stmt(s: Statement) -> (r: Vec<Statement>)
    ensures
        stmts_view(r@) == seq![stmt_view(s)],
{
    let mut r: Vec<Statement> = Vec::new();
    proof {
        assert(stmts_view(r@) =~= Seq::<SStmt>::empty());
    }
    let ghost r0 = r@;
    r.push(s);
    proof {
        lemma_stmts_view_push(r0, s);
        assert(stmts_view(r@) =~= seq![stmt_view(s)]);
    }
    r
}

/// An empty list of statements.
fn no_stmts() -> (r: Vec<Statement>)
    ensures
        stmts_view(r@) == Seq::<SStmt>::empty(),
{
    let r: Vec<Statement> = Vec::new();
    assert(stmts_view(r@) =~= Seq::<SStmt>::empty());
    r
}

/// The statements of one update operation.
fn emit_update_op(op: &UpdateOp) -> (r: Vec<Statement>)
    requires
        emittable(update_op_view(*op)),
    ensures
        stmts_view(r@) == spec_emit_update_op(update_op_view(*op)),
{
    match op {
        UpdateOp::Advance { delta } => one_stmt(call_instruction(Instruction::Advance, one_arg(int_expr(*delta as i64)))),
        UpdateOp::InterpolateText { interpolation, .. } => {
            let args = interpolation_arguments(interpolation);
            proof {
                lemma_exprs_view_len(args@);
            }
            let i = text_interpolate_instruction(args.len());
            one_stmt(call_instruction(i, args))
        },
        UpdateOp::Property(p) => {
            let args = args_with(text_expr(p.name.clone()), binding_expr_of(&p.expression), clone_opt_expression(&p.sanitizer));
            one_stmt(call_instruction(Instruction::Property, args))
        },
        UpdateOp::Attribute(a) => {
            let args = args_with(text_expr(a.name.clone()), binding_expr_of(&a.expression), clone_opt_expression(&a.sanitizer));
            one_stmt(call_instruction(Instruction::Attribute, args))
        },
        UpdateOp::ClassProp { name, expression, .. } => {
            let args = args_with(text_expr(name.clone()), clone_expr(expression), None);
            one_stmt(call_instruction(Instruction::ClassProp, args))
        },
        UpdateOp::StyleProp { name, expression, unit, .. } => {
            let u = match unit {
                Some(u) => Some(text_expr(u.clone())),
                None => None,
            };
            let args = args_with(text_expr(name.clone()), binding_expr_of(expression), u);
            one_stmt(call_instruction(Instruction::StyleProp, args))
        },
        UpdateOp::ClassMap { expression, .. } => {
            one_stmt(call_instruction(Instruction::ClassMap, one_arg(binding_expr_of(expression))))
        },
        UpdateOp::StyleMap { expression, .. } => {
            one_stmt(call_instruction(Instruction::StyleMap, one_arg(binding_expr_of(expression))))
        },
        UpdateOp::Statement(s) => one_stmt(clone_stmt(s)),
        _ => no_stmts(),
    }
}

/// The statements of a list of update operations, in order.
pub fn emit_ops(ops: &Vec<UpdateOp>) -> (r: Vec<Statement>)
    requires
        forall|i: int| 0 <= i < ops@.len() ==> emittable(#[trigger] update_op_view(ops@[i])),
    ensures
        stmts_view(r@) == spec_emit_ops(update_ops_view(ops@)),
{
    let ghost ov = update_ops_view(ops@);
    proof {
        lemma_update_ops_view_len(ops@);
    }
    let mut out: Vec<Statement> = Vec::new();
    let mut i: usize = 0;
    proof {
        assert(ov.take(0) =~= Seq::<SUpdateOp>::empty());
        assert(stmts_view(out@) =~= Seq::<SStmt>::empty());
    }
    while i < ops.len()
        invariant
            i <= ops@.len(),
            ov == update_ops_view(ops@),
            ov.len() == ops@.len(),
            forall|j: int| 0 <= j < ops@.len() ==> emittable(#[trigger] update_op_view(ops@[j])),
            stmts_view(out@) == spec_emit_ops(ov.take(i as int)),
        decreases ops@.len() - i,
    {
        proof {
            lemma_update_ops_view_index(ops@, i as int);
            assert(ov.take(i + 1).drop_last() =~= ov.take(i as int));
            assert(ov.take(i + 1).last() == update_op_view(ops@[i as int]));
        }
        let s = emit_update_op(&ops[i]);
        let ghost o0 = out@;
        let ghost sv = s@;
        let mut s = s;
        out.append(&mut s);
        proof {
            lemma_stmts_view_append(o0, sv);
        }
        i += 1;
    }
    proof {
        assert(ov.take(ops@.len() as int) =~= ov);
    }
    out
}

// ---------------------------------------------------------------------------------------------
// Listeners and the host binding function
// ---------------------------------------------------------------------------------------------

/// The statements that a list of statement operations holds.
pub open spec fn held_statements(ops: Seq<SUpdateOp>) -> Seq<SStmt> {
    ops.map_values(
        |o: SUpdateOp|
            match o {
                SUpdateOp::Statement(s) => s,
                _ => SStmt::Expression { expr: SExpr::Empty { source_span: None } },
            },
    )
}

/// Whether every operation of a list is a statement.
pub open spec fn all_statements(ops: Seq<SUpdateOp>) -> bool {
    forall|k: int| 0 <= k < ops.len() ==> #[trigger] ops[k] is Statement
}

/// The parameters of a listener's handler: `$event` when the handler reads it.
pub open spec fn handler_params(consumes_dollar_event: bool) -> Seq<Seq<char>> {
    if consumes_dollar_event {
        seq!["$event"@]
    } else {
        Seq::empty()
    }
}

/// The `listener` call of a listener whose handler runs `body`.
pub open spec fn listener_stmt(l: SListener, body: Seq<SStmt>) -> SStmt {
    call_stmt(
        Instruction::Listener,
        seq![
            text_lit(l.name),
            SExpr::Fn { name: l.handler_fn_name, params: handler_params(l.consumes_dollar_event), statements: body },
        ] + match l.event_target {
            Some(t) => seq![text_lit(t)],
            None => Seq::empty(),
        },
    )
}

/// Whether a creation operation of a host unit can be emitted: a statement, or a listener whose
/// handler operations are all statements.
pub open spec fn host_create_ok(op: SCreateOp) -> bool {
    match op {
        SCreateOp::Statement(_) => true,
        SCreateOp::Listener(l) => all_statements(l.handler_ops),
        _ => false,
    }
}

/// The statements of the creation block of a host binding function.
pub open spec fn spec_host_create_stmts(ops: Seq<SCreateOp>) -> Seq<SStmt>
    decreases ops.len(),
{
    if ops.len() == 0 {
        Seq::empty()
    } else {
        spec_host_create_stmts(ops.drop_last()) + match ops.last() {
            SCreateOp::Statement(s) => seq![s],
            SCreateOp::Listener(l) => seq![listener_stmt(l, held_statements(l.handler_ops))],
            _ => Seq::empty(),
        }
    }
}

/// The test `rf & n` of a render flag.
pub open spec fn rf_check(n: int) -> SExpr {
    SExpr::BinaryOp {
        operator: BinaryOperator::BitwiseAnd,
        lhs: Box::new(SExpr::ReadVar { name: "rf"@, source_span: None }),
        rhs: Box::new(int_lit(n)),
        source_span: None,
    }
}

/// The host binding function `<component>_HostBindings(rf, ctx)`, which runs the creation
/// statements when `rf & 1` and the update statements when `rf & 2`; none when both are empty.
pub open spec fn spec_host_binding_function(
    component_name: Seq<char>,
    create: Seq<SStmt>,
    update: Seq<SStmt>,
) -> Option<SExpr> {
    if create.len() == 0 && update.len() == 0 {
        None
    } else {
        Some(host_fn_expr(component_name + "_HostBindings"@, create, update))
    }
}

/// The statements held by a list of statement operations.
fn held_statement_list(ops: &Vec<UpdateOp>) -> (r: Vec<Statement>)
    requires
        all_statements(update_ops_view(ops@)),
    ensures
        stmts_view(r@) == held_statements(update_ops_view(ops@)),
{
    let ghost ov = update_ops_view(ops@);
    proof {
        lemma_update_ops_view_len(ops@);
    }
    let mut out: Vec<Statement> = Vec::new();
    let mut i: usize = 0;
    proof {
        assert(stmts_view(out@) =~= Seq::<SStmt>::empty());
        assert(held_statements(ov).take(0) =~= Seq::<SStmt>::empty());
    }
    while i < ops.len()
        invariant
            i <= ops@.len(),
            ov == update_ops_view(ops@),
            ov.len() == ops@.len(),
            all_statements(ov),
            stmts_view(out@) == held_statements(ov).take(i as int),
        decreases ops@.len() - i,
    {
        proof {
            lemma_update_ops_view_index(ops@, i as int);
            assert(ov[i as int] is Statement);
        }
        match &ops[i] {
            UpdateOp::Statement(st) => {
                let c = clone_stmt(st);
                let ghost o0 = out@;
                out.push(c);
                proof {
                    lemma_stmts_view_push(o0, c);
                    assert(held_statements(ov).take(i + 1) =~= held_statements(ov).take(i as int).push(stmt_view(c)));
                }
            },
            _ => {
                assert(false);
            },
        }
        i += 1;
    }
    proof {
        assert(held_statements(ov).take(ops@.len() as int) =~= held_statements(ov));
    }
    out
}

/// The parameters of a listener's handler.
fn handler_parameters(consumes_dollar_event: bool) -> (r: Vec<FnParam>)
    ensures
        params_view(r@) == handler_params(consumes_dollar_event),
{
    let mut r: Vec<FnParam> = Vec::new();
    if consumes_dollar_event {
        r.push(FnParam { name: "$event".to_string() });
    }
    assert(params_view(r@) =~= handler_params(consumes_dollar_event));
    r
}

/// The `listener` call of a listener whose handler runs `body`.
fn listener_statement(l: &ListenerOp, body: Vec<Statement>) -> (r: Statement)
    ensures
        stmt_view(r) == listener_stmt(
            SListener {
                target: l.target,
                element: l.element,
                name: l.name@,
                tag: opt_string_view(l.tag),
                handler_ops: update_ops_view(l.handler_ops@),
                handler_fn_name: opt_string_view(l.handler_fn_name),
                legacy_animation_phase: opt_string_view(l.legacy_animation_phase),
                event_target: opt_string_view(l.event_target),
                host_listener: l.host_listener,
                is_legacy_animation_listener: l.is_legacy_animation_listener,
                consumes_dollar_event: l.consumes_dollar_event,
                source_span: crate::parse_util::opt_span_view(l.source_span),
            },
            stmts_view(body@),
        ),
{
    let handler = Expression::Fn {
        name: clone_opt_string(&l.handler_fn_name),
        params: handler_parameters(l.consumes_dollar_event),
        statements: body,
    };
    let target = match &l.event_target {
        Some(t) => Some(text_expr(t.clone())),
        None => None,
    };
    let args = args_with(text_expr(l.name.clone()), handler, target);
    call_instruction(Instruction::Listener, args)
}

/// The statements of the creation block of a host binding function.
fn host_create_statements(ops: &Vec<CreateOp>) -> (r: Vec<Statement>)
    requires
        forall|i: int| 0 <= i < ops@.len() ==> host_create_ok(#[trigger] create_op_view(ops@[i])),
    ensures
        stmts_view(r@) == spec_host_create_stmts(create_ops_view(ops@)),
{
    let ghost ov = create_ops_view(ops@);
    proof {
        lemma_create_ops_view_len(ops@);
    }
    let mut out: Vec<Statement> = Vec::new();
    let mut i: usize = 0;
    proof {
        assert(ov.take(0) =~= Seq::<SCreateOp>::empty());
        assert(stmts_view(out@) =~= Seq::<SStmt>::empty());
    }
    while i < ops.len()
        invariant
            i <= ops@.len(),
            ov == create_ops_view(ops@),
            ov.len() == ops@.len(),
            forall|j: int| 0 <= j < ops@.len() ==> host_create_ok(#[trigger] create_op_view(ops@[j])),
            stmts_view(out@) == spec_host_create_stmts(ov.take(i as int)),
        decreases ops@.len() - i,
    {
        proof {
            lemma_create_ops_view_index(ops@, i as int);
            assert(ov.take(i + 1).drop_last() =~= ov.take(i as int));
            assert(ov.take(i + 1).last() == create_op_view(ops@[i as int]));
            assert(host_create_ok(create_op_view(ops@[i as int])));
        }
        match &ops[i] {
            CreateOp::Statement(st) => {
                let c = clone_stmt(st);
                let ghost o0 = out@;
                out.push(c);
                proof {
                    lemma_stmts_view_push(o0, c);
                }
            },
            CreateOp::Listener(l) => {
                let body = held_statement_list(&l.handler_ops);
                let c = listener_statement(l, body);
                let ghost o0 = out@;
                out.push(c);
                proof {
                    lemma_stmts_view_push(o0, c);
                }
            },
            _ => {
                assert(false);
            },
        }
        i += 1;
    }
    proof {
        assert(ov.take(ops@.len() as int) =~= ov);
    }
    out
}

/// The test `rf & n` of a render flag.
pub(crate) fn rf_test(n: i64) -> (r: Expression)
    ensures
        expr_view(r) == rf_check(n as int),
{
    let lhs = Expression::ReadVar { name: "rf".to_string(), source_span: None };
    let rhs = int_expr(n);
    let r = Expression::BinaryOp {
        operator: BinaryOperator::BitwiseAnd,
        lhs: Box::new(lhs),
        rhs: Box::new(rhs),
        source_span: None,
    };
    assert(expr_view(lhs) == SExpr::ReadVar { name: "rf"@, source_span: None });
    r
}

/// Whether a host binding job can be emitted: its root function is named, its creation list
/// holds only statements and listeners whose handlers are statements, and its update
/// operations can be emitted.
pub open spec fn host_emittable(job: HostBindingCompilationJob) -> bool {
    &&& job.root.fn_name is Some
    &&& forall|i: int| 0 <= i < job.root.create@.len() ==> host_create_ok(#[trigger] create_op_view(job.root.create@[i]))
    &&& forall|i: int| 0 <= i < job.root.update@.len() ==> emittable(#[trigger] update_op_view(job.root.update@[i]))
}

/// The host binding function of a job, or `None` when it would do nothing.
pub fn emit_host_binding_function(job: &HostBindingCompilationJob) -> (r: Option<Expression>)
    requires
        host_emittable(*job),
    ensures
        crate::ir::opt_expr_view(r) == spec_host_binding_function(
            job.component_name@,
            spec_host_create_stmts(create_ops_view(job.root.create@)),
            spec_emit_ops(update_ops_view(job.root.update@)),
        ),
{
    let create_stmts = host_create_statements(&job.root.create);
    let update_stmts = emit_ops(&job.root.update);
    proof {
        lemma_stmts_view_len(create_stmts@);
        lemma_stmts_view_len(update_stmts@);
    }
    if create_stmts.len() == 0 && update_stmts.len() == 0 {
        return None;
    }
    let name = job.component_name.clone().concat("_HostBindings");
    Some(host_function(name, create_stmts, update_stmts))
}

/// The function `name(rf, ctx)` that runs `create` when `rf & 1` and `update` when `rf & 2`.
pub open spec fn host_fn_expr(name: Seq<char>, create: Seq<SStmt>, update: Seq<SStmt>) -> SExpr {
    SExpr::Fn {
        name: Some(name),
        params: seq!["rf"@, "ctx"@],
        statements: seq![
            SStmt::IfStmt { condition: rf_check(1), true_case: create, false_case: Seq::empty() },
            SStmt::IfStmt { condition: rf_check(2), true_case: update, false_case: Seq::empty() },
        ],
    }
}

/// The function `name(rf, ctx)` that runs `create` when `rf & 1` and `update` when `rf & 2`.
fn host_function(name: String, create: Vec<Statement>, update: Vec<Statement>) -> (r: Expression)
    ensures
        expr_view(r) == host_fn_expr(name@, stmts_view(create@), stmts_view(update@)),
{
    let mut params: Vec<FnParam> = Vec::new();
    params.push(FnParam { name: "rf".to_string() });
    params.push(FnParam { name: "ctx".to_string() });
    let first = Statement::IfStmt { condition: Box::new(rf_test(1)), true_case: create, false_case: no_stmts() };
    let second = Statement::IfStmt { condition: Box::new(rf_test(2)), true_case: update, false_case: no_stmts() };
    let mut statements: Vec<Statement> = Vec::new();
    proof {
        assert(stmts_view(statements@) =~= Seq::<SStmt>::empty());
    }
    let ghost s0 = statements@;
    statements.push(first);
    proof {
        lemma_stmts_view_push(s0, first);
    }
    let ghost s1 = statements@;
    statements.push(second);
    proof {
        lemma_stmts_view_push(s1, second);
        assert(params_view(params@) =~= seq!["rf"@, "ctx"@]);
        assert(stmts_view(statements@) =~= seq![stmt_view(first), stmt_view(second)]);
    }
    Expression::Fn { name: Some(name), params, statements }
}


// ---------------------------------------------------------------------------------------------
// Creation operations
// ---------------------------------------------------------------------------------------------

/// The tag an element is created with: its tag without a namespace prefix, or `div`.
pub open spec fn element_tag(tag: Option<Seq<char>>) -> Seq<char> {
    match tag {
        Some(t) => crate::text::spec_split_ns_name(t).1,
        None => "div"@,
    }
}

/// Whether an index fits an integer literal.
pub open spec fn fits(n: usize) -> bool {
    n <= i64::MAX
}

/// Whether a creation operation can be emitted here: elements, text and projections have a
/// slot that fits an integer literal, the handlers of listeners and two-way listeners can be
/// emitted, and the operation is none of those (repeaters, conditionals) whose emission reads
/// the function name, declarations and variables of the view they create.
pub open spec fn create_emittable(op: SCreateOp) -> bool {
    match op {
        SCreateOp::ElementStart(b) => b.slot matches Some(s) && fits(s) && (b.attributes matches Some(c) ==> fits(
            c.index,
        )),
        SCreateOp::Element(b) => b.slot matches Some(s) && fits(s) && (b.attributes matches Some(c) ==> fits(c.index)),
        SCreateOp::Text { slot, .. } => slot matches Some(s) && fits(s),
        SCreateOp::Projection { slot, projection_slot_index, .. } => slot matches Some(s) && fits(s) && fits(
            projection_slot_index,
        ),
        SCreateOp::Listener(l) => forall|k: int| 0 <= k < l.handler_ops.len() ==> emittable(#[trigger] l.handler_ops[k]),
        SCreateOp::RepeaterCreate(_) => false,
        SCreateOp::ConditionalCreate(_) => false,
        SCreateOp::ConditionalBranchCreate(_) => false,
        SCreateOp::TwoWayListener { handler_ops, .. } => forall|k: int|
            0 <= k < handler_ops.len() ==> emittable(#[trigger] handler_ops[k]),
        _ => true,
    }
}

/// The arguments that create an element: its slot, its tag and, when it has attributes, their
/// constant index.
pub open spec fn element_args(b: crate::ir::SElementBase) -> Seq<SExpr> {
    seq![int_lit(b.slot.unwrap() as int), text_lit(element_tag(b.tag))] + match b.attributes {
        Some(c) => seq![int_lit(c.index as int)],
        None => Seq::empty(),
    }
}

/// The statements of one creation operation.
pub open spec fn spec_emit_create_op(op: SCreateOp) -> Seq<SStmt> {
    match op {
        SCreateOp::ElementStart(b) => seq![call_stmt(Instruction::DomElementStart, element_args(b))],
        SCreateOp::ElementEnd { .. } => seq![call_stmt(Instruction::ElementEnd, Seq::empty())],
        SCreateOp::Element(b) => seq![call_stmt(Instruction::Element, element_args(b))],
        SCreateOp::Text { slot, initial_value, .. } => seq![
            call_stmt(Instruction::Text, seq![int_lit(slot.unwrap() as int), text_lit(initial_value)]),
        ],
        SCreateOp::Projection { slot, projection_slot_index, .. } => seq![
            call_stmt(
                Instruction::Projection,
                seq![int_lit(slot.unwrap() as int)] + if projection_slot_index > 0 {
                    seq![int_lit(projection_slot_index as int)]
                } else {
                    Seq::empty()
                },
            ),
        ],
        SCreateOp::Namespace { active } => seq![call_stmt(namespace_instruction(active), Seq::empty())],
        SCreateOp::Statement(s) => seq![s],
        SCreateOp::Listener(l) => seq![listener_stmt(l, spec_emit_ops(l.handler_ops))],
        SCreateOp::TwoWayListener { name, handler_ops, handler_fn_name, .. } => seq![
            call_stmt(
                Instruction::TwoWayListener,
                seq![
                    text_lit(name),
                    SExpr::Fn { name: handler_fn_name, params: handler_params(true), statements: spec_emit_ops(handler_ops) },
                ],
            ),
        ],
        _ => Seq::empty(),
    }
}

/// The statements of a list of creation operations, in order.
pub open spec fn spec_emit_create_ops(ops: Seq<SCreateOp>) -> Seq<SStmt>
    decreases ops.len(),
{
    if ops.len() == 0 {
        Seq::empty()
    } else {
        spec_emit_create_ops(ops.drop_last()) + spec_emit_create_op(ops.last())
    }
}

/// The arguments that create an element.
fn element_arguments(b: &crate::ir::ElementOpBase) -> (r: Vec<Expression>)
    requires
        b.slot matches Some(s) && fits(s),
        b.attributes matches Some(c) ==> fits(c.index),
    ensures
        exprs_view(r@) == element_args(crate::ir::element_base_view(*b)),
{
    let tag = match &b.tag {
        Some(t) => crate::text::split_ns_name(t.as_str()).1,
        None => "div".to_string(),
    };
    let slot = match b.slot {
        Some(s) => s,
        None => 0,
    };
    let c = match b.attributes {
        Some(c) => Some(int_expr(c.index as i64)),
        None => None,
    };
    args_with(int_expr(slot as i64), text_expr(tag), c)
}

/// The `listener` call of a listener, whose handler runs its emitted operations.
fn emit_listener(l: &ListenerOp) -> (r: Statement)
    requires
        forall|k: int| 0 <= k < update_ops_view(l.handler_ops@).len() ==> emittable(#[trigger] update_ops_view(l.handler_ops@)[k]),
    ensures
        stmt_view(r) == listener_stmt(
            SListener {
                target: l.target,
                element: l.element,
                name: l.name@,
                tag: opt_string_view(l.tag),
                handler_ops: update_ops_view(l.handler_ops@),
                handler_fn_name: opt_string_view(l.handler_fn_name),
                legacy_animation_phase: opt_string_view(l.legacy_animation_phase),
                event_target: opt_string_view(l.event_target),
                host_listener: l.host_listener,
                is_legacy_animation_listener: l.is_legacy_animation_listener,
                consumes_dollar_event: l.consumes_dollar_event,
                source_span: crate::parse_util::opt_span_view(l.source_span),
            },
            spec_emit_ops(update_ops_view(l.handler_ops@)),
        ),
{
    proof {
        lemma_update_ops_view_len(l.handler_ops@);
        assert forall|i: int| 0 <= i < l.handler_ops@.len() implies emittable(
            #[trigger] update_op_view(l.handler_ops@[i]),
        ) by {
            lemma_update_ops_view_index(l.handler_ops@, i);
            assert(emittable(update_ops_view(l.handler_ops@)[i]));
        }
    }
    let body = emit_ops(&l.handler_ops);
    listener_statement(l, body)
}

/// The call that creates an element.
fn emit_element(b: &crate::ir::ElementOpBase, i: Instruction) -> (r: Statement)
    requires
        b.slot matches Some(s) && fits(s),
        b.attributes matches Some(c) ==> fits(c.index),
    ensures
        stmt_view(r) == call_stmt(i, element_args(crate::ir::element_base_view(*b))),
{
    call_instruction(i, element_arguments(b))
}

/// The call that creates a text node.
fn emit_text(slot: Option<usize>, initial_value: &String) -> (r: Statement)
    requires
        slot matches Some(s) && fits(s),
    ensures
        stmt_view(r) == call_stmt(Instruction::Text, seq![int_lit(slot.unwrap() as int), text_lit(initial_value@)]),
{
    let s = match slot {
        Some(s) => s,
        None => 0,
    };
    let args = args_with(int_expr(s as i64), text_expr(initial_value.clone()), None);
    assert(exprs_view(args@) =~= seq![int_lit(slot.unwrap() as int), text_lit(initial_value@)]);
    call_instruction(Instruction::Text, args)
}

/// The call that projects content.
fn emit_projection(slot: Option<usize>, projection_slot_index: usize) -> (r: Statement)
    requires
        slot matches Some(s) && fits(s),
        fits(projection_slot_index),
    ensures
        stmt_view(r) == call_stmt(
            Instruction::Projection,
            seq![int_lit(slot.unwrap() as int)] + if projection_slot_index > 0 {
                seq![int_lit(projection_slot_index as int)]
            } else {
                Seq::empty()
            },
        ),
{
    let s = match slot {
        Some(s) => s,
        None => 0,
    };
    let mut args = one_arg(int_expr(s as i64));
    if projection_slot_index > 0 {
        let e = int_expr(projection_slot_index as i64);
        let ghost a0 = args@;
        args.push(e);
        proof {
            lemma_exprs_view_push(a0, e);
            assert(exprs_view(args@) =~= seq![int_lit(slot.unwrap() as int)] + seq![int_lit(projection_slot_index as int)]);
        }
    } else {
        assert(exprs_view(args@) =~= seq![int_lit(slot.unwrap() as int)] + Seq::<SExpr>::empty());
    }
    call_instruction(Instruction::Projection, args)
}

/// The instruction that switches to a namespace.
pub open spec fn namespace_instruction(n: Namespace) -> Instruction {
    match n {
        Namespace::HTML => Instruction::NamespaceHtml,
        Namespace::SVG => Instruction::NamespaceSvg,
        Namespace::Math => Instruction::NamespaceMathMl,
    }
}

fn namespace_instr(n: Namespace) -> (r: Instruction)
    ensures
        r == namespace_instruction(n),
{
    match n {
        Namespace::HTML => Instruction::NamespaceHtml,
        Namespace::SVG => Instruction::NamespaceSvg,
        Namespace::Math => Instruction::NamespaceMathMl,
    }
}

/// The statements of one creation operation.
fn emit_create_op(op: &CreateOp) -> (r: Vec<Statement>)
    requires
        create_emittable(create_op_view(*op)),
    ensures
        stmts_view(r@) == spec_emit_create_op(create_op_view(*op)),
{
    let ghost v = create_op_view(*op);
    match op {
        CreateOp::ElementStart(b) => {
            assert(v == SCreateOp::ElementStart(crate::ir::element_base_view(*b)));
            one_stmt(emit_element(b, Instruction::DomElementStart))
        },
        CreateOp::ElementEnd { .. } => one_stmt(call_instruction(Instruction::ElementEnd, no_args())),
        CreateOp::Element(b) => {
            assert(v == SCreateOp::Element(crate::ir::element_base_view(*b)));
            one_stmt(emit_element(b, Instruction::Element))
        },
        CreateOp::Text { slot, initial_value, .. } => one_stmt(emit_text(*slot, initial_value)),
        CreateOp::Projection { slot, projection_slot_index, .. } => one_stmt(emit_projection(*slot, *projection_slot_index)),
        CreateOp::Namespace { active } => one_stmt(call_instruction(namespace_instr(*active), no_args())),
        CreateOp::Statement(s) => one_stmt(clone_stmt(s)),
        CreateOp::Listener(l) => {
            assert(v matches SCreateOp::Listener(sl) && sl.handler_ops == update_ops_view(l.handler_ops@));
            one_stmt(emit_listener(l))
        },
        CreateOp::TwoWayListener { name, handler_ops, handler_fn_name, .. } => {
            proof {
                let h = update_ops_view(handler_ops@);
                assert(v matches SCreateOp::TwoWayListener { handler_ops: hv, .. } && hv == h);
                lemma_update_ops_view_len(handler_ops@);
                assert forall|i: int| 0 <= i < handler_ops@.len() implies emittable(
                    #[trigger] update_op_view(handler_ops@[i]),
                ) by {
                    lemma_update_ops_view_index(handler_ops@, i);
                    assert(emittable(h[i]));
                }
            }
            let body = emit_ops(handler_ops);
            let ghost bv = stmts_view(body@);
            let handler = Expression::Fn {
                name: clone_opt_string(handler_fn_name),
                params: handler_parameters(true),
                statements: body,
            };
            let args = args_with(text_expr(name.clone()), handler, None);
            proof {
                assert(exprs_view(args@) =~= seq![
                    text_lit(name@),
                    SExpr::Fn { name: opt_string_view(*handler_fn_name), params: handler_params(true), statements: bv },
                ]);
            }
            one_stmt(call_instruction(Instruction::TwoWayListener, args))
        },
        _ => no_stmts(),
    }
}

/// The statements of a list of creation operations, in order.
pub fn emit_create_ops(ops: &Vec<CreateOp>) -> (r: Vec<Statement>)
    requires
        forall|i: int| 0 <= i < ops@.len() ==> create_emittable(#[trigger] create_op_view(ops@[i])),
    ensures
        stmts_view(r@) == spec_emit_create_ops(create_ops_view(ops@)),
{
    let ghost ov = create_ops_view(ops@);
    proof {
        lemma_create_ops_view_len(ops@);
    }
    let mut out: Vec<Statement> = Vec::new();
    let mut i: usize = 0;
    proof {
        assert(ov.take(0) =~= Seq::<SCreateOp>::empty());
        assert(stmts_view(out@) =~= Seq::<SStmt>::empty());
    }
    while i < ops.len()
        invariant
            i <= ops@.len(),
            ov == create_ops_view(ops@),
            ov.len() == ops@.len(),
            forall|j: int| 0 <= j < ops@.len() ==> create_emittable(#[trigger] create_op_view(ops@[j])),
            stmts_view(out@) == spec_emit_create_ops(ov.take(i as int)),
        decreases ops@.len() - i,
    {
        proof {
            lemma_create_ops_view_index(ops@, i as int);
            assert(ov.take(i + 1).drop_last() =~= ov.take(i as int));
            assert(ov.take(i + 1).last() == create_op_view(ops@[i as int]));
        }
        let s = emit_create_op(&ops[i]);
        let ghost o0 = out@;
        let ghost sv = s@;
        let mut s = s;
        out.append(&mut s);
        proof {
            lemma_stmts_view_append(o0, sv);
        }
        i += 1;
    }
    proof {
        assert(ov.take(ops@.len() as int) =~= ov);
    }
    out
}

/// The template function of a view: `name(rf, ctx)`, which runs the creation statements when
/// `rf & 1` and the update statements when `rf & 2`, each block only where it has statements.
pub open spec fn view_fn_expr(name: Seq<char>, create: Seq<SStmt>, update: Seq<SStmt>) -> SExpr {
    SExpr::Fn {
        name: Some(name),
        params: seq!["rf"@, "ctx"@],
        statements: (if create.len() > 0 {
            seq![SStmt::IfStmt { condition: rf_check(1), true_case: create, false_case: Seq::empty() }]
        } else {
            Seq::empty()
        }) + (if update.len() > 0 {
            seq![SStmt::IfStmt { condition: rf_check(2), true_case: update, false_case: Seq::empty() }]
        } else {
            Seq::empty()
        }),
    }
}

/// Whether a view can be emitted here: its creation and update operations can.
pub open spec fn view_emittable(unit: ViewCompilationUnit) -> bool {
    &&& forall|i: int| 0 <= i < unit.create@.len() ==> create_emittable(#[trigger] create_op_view(unit.create@[i]))
    &&& forall|i: int| 0 <= i < unit.update@.len() ==> emittable(#[trigger] update_op_view(unit.update@[i]))
}

/// The template function of a view, named after the view's function name, or `template` where
/// it has none.
#[verifier::rlimit(50)]
pub fn emit_view(unit: &ViewCompilationUnit) -> (r: Expression)
    requires
        view_emittable(*unit),
    ensures
        expr_view(r) == view_fn_expr(
            match unit.fn_name {
                Some(n) => n@,
                None => "template"@,
            },
            spec_emit_create_ops(create_ops_view(unit.create@)),
            spec_emit_ops(update_ops_view(unit.update@)),
        ),
{
    let name = match &unit.fn_name {
        Some(n) => n.clone(),
        None => "template".to_string(),
    };
    let create = emit_create_ops(&unit.create);
    let update = emit_ops(&unit.update);
    let ghost cv = stmts_view(create@);
    let ghost uv = stmts_view(update@);
    proof {
        lemma_stmts_view_len(create@);
        lemma_stmts_view_len(update@);
    }
    let mut params: Vec<FnParam> = Vec::new();
    params.push(FnParam { name: "rf".to_string() });
    params.push(FnParam { name: "ctx".to_string() });
    let mut statements: Vec<Statement> = Vec::new();
    proof {
        assert(stmts_view(statements@) =~= Seq::<SStmt>::empty());
    }
    let ghost first_part = if cv.len() > 0 {
        seq![SStmt::IfStmt { condition: rf_check(1), true_case: cv, false_case: Seq::empty() }]
    } else {
        Seq::<SStmt>::empty()
    };
    if create.len() > 0 {
        let first = Statement::IfStmt { condition: Box::new(rf_test(1)), true_case: create, false_case: no_stmts() };
        let ghost s0 = statements@;
        statements.push(first);
        proof {
            lemma_stmts_view_push(s0, first);
            assert(stmts_view(statements@) =~= first_part);
        }
    }
    let ghost second_part = if uv.len() > 0 {
        seq![SStmt::IfStmt { condition: rf_check(2), true_case: uv, false_case: Seq::empty() }]
    } else {
        Seq::<SStmt>::empty()
    };
    if update.len() > 0 {
        let second = Statement::IfStmt { condition: Box::new(rf_test(2)), true_case: update, false_case: no_stmts() };
        let ghost s1 = statements@;
        statements.push(second);
        proof {
            lemma_stmts_view_push(s1, second);
            assert(stmts_view(statements@) =~= first_part + second_part);
        }
    } else {
        proof {
            assert(stmts_view(statements@) =~= first_part + second_part);
        }
    }
    proof {
        assert(params_view(params@) =~= seq!["rf"@, "ctx"@]);
    }
    Expression::Fn { name: Some(name), params, statements }
}

} // verus!
