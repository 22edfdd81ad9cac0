//! Chaining: consecutive statements that call the same chainable instruction become one
//! chained call, `ɵɵproperty(a)(b)(c)`, of at most `MAX_CHAIN_LENGTH` calls.

use vstd::prelude::*;
use crate::text::str_eq;
use crate::parse_util::{ParseSourceSpan, SpecSpan, opt_span_view, opt_string_view, clone_opt_span};
use crate::output::{
    Expression, ExternalReference, SExpr, SRef, SStmt, Statement, expr_view, exprs_view, stmt_view, clone_expr,
    clone_exprs,
};
use crate::ir::{
    CreateOp, SCreateOp, SUpdateOp, UpdateOp, create_op_view, create_ops_view, update_op_view, update_ops_view,
    lemma_create_ops_view_index, lemma_create_ops_view_len, lemma_create_ops_view_push,
    lemma_update_ops_view_index, lemma_update_ops_view_len, lemma_update_ops_view_push,
    lemma_create_ops_view_ext, lemma_update_ops_view_ext,
};
use crate::compilation::HostBindingCompilationJob;
use crate::component::{
    ComponentCompilationJob, ViewCompilationUnit, lemma_units_related_keys, lemma_units_related_push,
    restore_view_units, same_but_views, same_unit_but_lists, take_view_units, unit_keys, units_related, view_entries,
};

verus! {

/// The greatest number of calls in one chain.
pub const MAX_CHAIN_LENGTH: usize = 256;

/// Whether an instruction name is one of the chainable instructions.
pub open spec fn chainable_name(n: Seq<char>) -> bool {
    ||| n == "ɵɵariaProperty"@
    ||| n == "ɵɵattribute"@
    ||| n == "ɵɵclassProp"@
    ||| n == "ɵɵelement"@
    ||| n == "ɵɵelementContainer"@
    ||| n == "ɵɵelementContainerEnd"@
    ||| n == "ɵɵelementContainerStart"@
    ||| n == "ɵɵelementEnd"@
    ||| n == "ɵɵelementStart"@
    ||| n == "ɵɵdomProperty"@
    ||| n == "ɵɵi18nExp"@
    ||| n == "ɵɵlistener"@
    ||| n == "ɵɵproperty"@
    ||| n == "ɵɵstyleProp"@
    ||| n == "ɵɵsyntheticHostListener"@
    ||| n == "ɵɵsyntheticHostProperty"@
    ||| n == "ɵɵtemplate"@
    ||| n == "ɵɵtwoWayProperty"@
    ||| n == "ɵɵtwoWayListener"@
    ||| n == "ɵɵdeclareLet"@
    ||| n == "ɵɵconditionalCreate"@
    ||| n == "ɵɵconditionalBranchCreate"@
    ||| n == "ɵɵdomElement"@
    ||| n == "ɵɵdomElementStart"@
    ||| n == "ɵɵdomElementEnd"@
    ||| n == "ɵɵdomElementContainer"@
    ||| n == "ɵɵdomElementContainerStart"@
    ||| n == "ɵɵdomElementContainerEnd"@
    ||| n == "ɵɵdomListener"@
    ||| n == "ɵɵdomTemplate"@
    ||| n == "ɵɵanimateEnter"@
    ||| n == "ɵɵanimateLeave"@
    ||| n == "ɵɵanimateEnterListener"@
    ||| n == "ɵɵanimateLeaveListener"@
}

/// Whether a reference names a chainable instruction of the core package.
pub open spec fn chainable(r: SRef) -> bool {
    r.module_name == Some("@angular/core"@) && (r.name matches Some(n) && chainable_name(n))
}

/// How an operation takes part in chaining: it is passed over, it ends the chain, or it is a
/// call of a chainable instruction (the whole call, and its arguments, span and purity).
pub enum Link {
    Skip,
    Break,
    Call { key: SRef, call: SExpr, args: Seq<SExpr>, span: Option<SpecSpan>, pure: bool },
}

/// How a statement takes part in chaining.
pub open spec fn stmt_link(s: SStmt) -> Link {
    match s {
        SStmt::Expression { expr } => match expr {
            SExpr::InvokeFn { fn_, args, source_span, pure } => match *fn_ {
                SExpr::External { value, .. } => if chainable(value) {
                    Link::Call { key: value, call: expr, args, span: source_span, pure }
                } else {
                    Link::Break
                },
                _ => Link::Break,
            },
            _ => Link::Break,
        },
        _ => Link::Break,
    }
}

/// How an update operation takes part in chaining: statements can be chained, the rest ends it.
pub open spec fn update_link(op: SUpdateOp) -> Link {
    match op {
        SUpdateOp::Statement(s) => stmt_link(s),
        _ => Link::Break,
    }
}

/// How a creation operation takes part in chaining: a text node without a slot is passed over.
pub open spec fn create_link(op: SCreateOp) -> Link {
    match op {
        SCreateOp::Text { slot: None, .. } => Link::Skip,
        SCreateOp::Statement(s) => stmt_link(s),
        _ => Link::Break,
    }
}

/// The chain being built: the position of its statement in the output, its whole expression,
/// its instruction and its number of calls.
pub struct ChainState {
    pub head: int,
    pub expr: SExpr,
    pub key: SRef,
    pub length: nat,
}

/// The expression statement of an expression.
pub open spec fn expr_stmt(e: SExpr) -> SStmt {
    SStmt::Expression { expr: e }
}

/// The operations after chaining, left to right, and the chain open at the end: a call of the
/// open chain's instruction, while the chain is shorter than the maximum, is appended to the
/// chain's statement (`mk` makes a statement operation) and leaves the list; any other call
/// starts a chain; a passed-over operation keeps the chain; anything else ends it.
pub open spec fn chain_fold<A>(
    ops: Seq<A>,
    link: spec_fn(A) -> Link,
    mk: spec_fn(SStmt) -> A,
) -> (Seq<A>, Option<ChainState>)
    decreases ops.len(),
{
    if ops.len() == 0 {
        (Seq::empty(), None)
    } else {
        let prev = chain_fold(ops.drop_last(), link, mk);
        let out = prev.0;
        let st = prev.1;
        let op = ops.last();
        match link(op) {
            Link::Skip => (out.push(op), st),
            Link::Break => (out.push(op), None),
            Link::Call { key, call, args, span, pure } => {
                let start = (out.push(op), Some(ChainState { head: out.len() as int, expr: call, key, length: 1 }));
                match st {
                    Some(c) => if c.key == key && c.length < MAX_CHAIN_LENGTH {
                        let e = SExpr::InvokeFn { fn_: Box::new(c.expr), args, source_span: span, pure };
                        (
                            out.update(c.head, mk(expr_stmt(e))),
                            Some(ChainState { head: c.head, expr: e, key, length: c.length + 1 }),
                        )
                    } else {
                        start
                    },
                    None => start,
                }
            },
        }
    }
}

/// How update operations take part in chaining.
pub open spec fn update_link_fn() -> spec_fn(SUpdateOp) -> Link {
    |o: SUpdateOp| update_link(o)
}

/// A statement as an update operation.
pub open spec fn update_stmt_fn() -> spec_fn(SStmt) -> SUpdateOp {
    |s: SStmt| SUpdateOp::Statement(s)
}

/// How creation operations take part in chaining.
pub open spec fn create_link_fn() -> spec_fn(SCreateOp) -> Link {
    |o: SCreateOp| create_link(o)
}

/// A statement as a creation operation.
pub open spec fn create_stmt_fn() -> spec_fn(SStmt) -> SCreateOp {
    |s: SStmt| SCreateOp::Statement(s)
}

/// An update list after chaining.
pub open spec fn spec_chain_update(ops: Seq<SUpdateOp>) -> Seq<SUpdateOp> {
    chain_fold(ops, update_link_fn(), update_stmt_fn()).0
}

/// A creation list after chaining.
pub open spec fn spec_chain_create(ops: Seq<SCreateOp>) -> Seq<SCreateOp> {
    chain_fold(ops, create_link_fn(), create_stmt_fn()).0
}

/// The chainable instructions: the property, attribute, class, style, element, container,
/// listener, template, two-way, `let`, conditional, DOM-only and animation instructions of the
/// runtime, among them `ɵɵattribute`.
pub proof fn lemma_chainable_instructions()
    ensures
        chainable_name("ɵɵariaProperty"@),
        chainable_name("ɵɵattribute"@),
        chainable_name("ɵɵclassProp"@),
        chainable_name("ɵɵelement"@),
        chainable_name("ɵɵelementContainer"@),
        chainable_name("ɵɵelementContainerEnd"@),
        chainable_name("ɵɵelementContainerStart"@),
        chainable_name("ɵɵelementEnd"@),
        chainable_name("ɵɵelementStart"@),
        chainable_name("ɵɵdomProperty"@),
        chainable_name("ɵɵi18nExp"@),
        chainable_name("ɵɵlistener"@),
        chainable_name("ɵɵproperty"@),
        chainable_name("ɵɵstyleProp"@),
        chainable_name("ɵɵsyntheticHostListener"@),
        chainable_name("ɵɵsyntheticHostProperty"@),
        chainable_name("ɵɵtemplate"@),
        chainable_name("ɵɵtwoWayProperty"@),
        chainable_name("ɵɵtwoWayListener"@),
        chainable_name("ɵɵdeclareLet"@),
        chainable_name("ɵɵconditionalCreate"@),
        chainable_name("ɵɵconditionalBranchCreate"@),
        chainable_name("ɵɵdomElement"@),
        chainable_name("ɵɵdomElementStart"@),
        chainable_name("ɵɵdomElementEnd"@),
        chainable_name("ɵɵdomElementContainer"@),
        chainable_name("ɵɵdomElementContainerStart"@),
        chainable_name("ɵɵdomElementContainerEnd"@),
        chainable_name("ɵɵdomListener"@),
        chainable_name("ɵɵdomTemplate"@),
        chainable_name("ɵɵanimateEnter"@),
        chainable_name("ɵɵanimateLeave"@),
        chainable_name("ɵɵanimateEnterListener"@),
        chainable_name("ɵɵanimateLeaveListener"@),
{
}

/// A call of a chainable instruction of the core package.
pub open spec fn core_call(n: Seq<char>, span: Option<SpecSpan>, args: Seq<SExpr>, s: Option<SpecSpan>, pure: bool) -> SExpr {
    SExpr::InvokeFn {
        fn_: Box::new(SExpr::External { value: SRef { name: Some(n), module_name: Some("@angular/core"@) }, source_span: span }),
        args,
        source_span: s,
        pure,
    }
}

/// Two consecutive calls of one chainable instruction become one chained call, the second
/// applied to the first (`ɵɵattribute('a', x)('b', y)`), whatever their arguments.
pub proof fn lemma_two_calls_chain(
    n: Seq<char>,
    span1: Option<SpecSpan>,
    a: Seq<SExpr>,
    s1: Option<SpecSpan>,
    p1: bool,
    span2: Option<SpecSpan>,
    b: Seq<SExpr>,
    s2: Option<SpecSpan>,
    p2: bool,
)
    requires
        chainable_name(n),
    ensures
        spec_chain_update(
            seq![
                SUpdateOp::Statement(SStmt::Expression { expr: core_call(n, span1, a, s1, p1) }),
                SUpdateOp::Statement(SStmt::Expression { expr: core_call(n, span2, b, s2, p2) }),
            ],
        ) == seq![
            SUpdateOp::Statement(
                SStmt::Expression {
                    expr: SExpr::InvokeFn { fn_: Box::new(core_call(n, span1, a, s1, p1)), args: b, source_span: s2, pure: p2 },
                },
            ),
        ],
{
    let o1 = SUpdateOp::Statement(SStmt::Expression { expr: core_call(n, span1, a, s1, p1) });
    let o2 = SUpdateOp::Statement(SStmt::Expression { expr: core_call(n, span2, b, s2, p2) });
    let s = seq![o1, o2];
    assert(s.drop_last() =~= seq![o1]);
    assert(seq![o1].drop_last() =~= Seq::<SUpdateOp>::empty());
    let f0 = chain_fold(Seq::<SUpdateOp>::empty(), update_link_fn(), update_stmt_fn());
    assert(f0 == (Seq::<SUpdateOp>::empty(), None::<ChainState>));
    let f1 = chain_fold(seq![o1], update_link_fn(), update_stmt_fn());
    assert(f1.0 =~= seq![o1]);
    assert(f1.1 == Some(ChainState { head: 0, expr: core_call(n, span1, a, s1, p1), key: SRef { name: Some(n), module_name: Some("@angular/core"@) }, length: 1 }));
    let e = SExpr::InvokeFn { fn_: Box::new(core_call(n, span1, a, s1, p1)), args: b, source_span: s2, pure: p2 };
    assert(chain_fold(s, update_link_fn(), update_stmt_fn()).0 =~= seq![o1].update(0, SUpdateOp::Statement(expr_stmt(e))));
    assert(seq![o1].update(0, SUpdateOp::Statement(expr_stmt(e))) =~= seq![SUpdateOp::Statement(SStmt::Expression { expr: e })]);
}

/// Calls are merged only when they call the same chainable instruction of the core package:
/// two consecutive calls of instructions that differ, or of one that is not chainable, stay two
/// statements, as they were.
pub proof fn lemma_other_calls_stay_apart(
    n: Seq<char>,
    span1: Option<SpecSpan>,
    a: Seq<SExpr>,
    s1: Option<SpecSpan>,
    p1: bool,
    m: Seq<char>,
    span2: Option<SpecSpan>,
    b: Seq<SExpr>,
    s2: Option<SpecSpan>,
    p2: bool,
)
    requires
        n != m || !chainable_name(n),
    ensures
        spec_chain_update(
            seq![
                SUpdateOp::Statement(SStmt::Expression { expr: core_call(n, span1, a, s1, p1) }),
                SUpdateOp::Statement(SStmt::Expression { expr: core_call(m, span2, b, s2, p2) }),
            ],
        ) == seq![
            SUpdateOp::Statement(SStmt::Expression { expr: core_call(n, span1, a, s1, p1) }),
            SUpdateOp::Statement(SStmt::Expression { expr: core_call(m, span2, b, s2, p2) }),
        ],
{
    let o1 = SUpdateOp::Statement(SStmt::Expression { expr: core_call(n, span1, a, s1, p1) });
    let o2 = SUpdateOp::Statement(SStmt::Expression { expr: core_call(m, span2, b, s2, p2) });
    let s = seq![o1, o2];
    assert(s.drop_last() =~= seq![o1]);
    assert(seq![o1].drop_last() =~= Seq::<SUpdateOp>::empty());
    let f0 = chain_fold(Seq::<SUpdateOp>::empty(), update_link_fn(), update_stmt_fn());
    assert(f0 == (Seq::<SUpdateOp>::empty(), None::<ChainState>));
    let f1 = chain_fold(seq![o1], update_link_fn(), update_stmt_fn());
    assert(f1.0 =~= seq![o1]);
    let r1 = SRef { name: Some(n), module_name: Some("@angular/core"@) };
    let r2 = SRef { name: Some(m), module_name: Some("@angular/core"@) };
    if chainable_name(n) {
        assert(r1 != r2);
    } else {
        assert(f1.1 is None);
    }
    assert(chain_fold(s, update_link_fn(), update_stmt_fn()).0 =~= s);
}

// ---------------------------------------------------------------------------------------------
// Classification
// ---------------------------------------------------------------------------------------------

/// Whether an instruction name is one of the chainable instructions.
fn is_chainable_name(n: &str) -> (r: bool)
    ensures
        r == chainable_name(n@),
{
    str_eq(n, "ɵɵariaProperty") || str_eq(n, "ɵɵattribute") || str_eq(n, "ɵɵclassProp") || str_eq(n, "ɵɵelement")
        || str_eq(n, "ɵɵelementContainer") || str_eq(n, "ɵɵelementContainerEnd") || str_eq(
        n,
        "ɵɵelementContainerStart",
    ) || str_eq(n, "ɵɵelementEnd") || str_eq(n, "ɵɵelementStart") || str_eq(n, "ɵɵdomProperty") || str_eq(
        n,
        "ɵɵi18nExp",
    ) || str_eq(n, "ɵɵlistener") || str_eq(n, "ɵɵproperty") || str_eq(n, "ɵɵstyleProp") || str_eq(
        n,
        "ɵɵsyntheticHostListener",
    ) || str_eq(n, "ɵɵsyntheticHostProperty") || str_eq(n, "ɵɵtemplate") || str_eq(n, "ɵɵtwoWayProperty")
        || str_eq(n, "ɵɵtwoWayListener") || str_eq(n, "ɵɵdeclareLet") || str_eq(n, "ɵɵconditionalCreate")
        || str_eq(n, "ɵɵconditionalBranchCreate") || str_eq(n, "ɵɵdomElement") || str_eq(n, "ɵɵdomElementStart")
        || str_eq(n, "ɵɵdomElementEnd") || str_eq(n, "ɵɵdomElementContainer") || str_eq(
        n,
        "ɵɵdomElementContainerStart",
    ) || str_eq(n, "ɵɵdomElementContainerEnd") || str_eq(n, "ɵɵdomListener") || str_eq(n, "ɵɵdomTemplate")
        || str_eq(n, "ɵɵanimateEnter") || str_eq(n, "ɵɵanimateLeave") || str_eq(n, "ɵɵanimateEnterListener")
        || str_eq(n, "ɵɵanimateLeaveListener")
}

/// Whether a reference names a chainable instruction of the core package.
fn is_chainable(r: &ExternalReference) -> (b: bool)
    ensures
        b == chainable(r@),
{
    match (&r.module_name, &r.name) {
        (Some(m), Some(n)) => str_eq(m.as_str(), "@angular/core") && is_chainable_name(n.as_str()),
        _ => false,
    }
}

/// The parts of a chainable call.
pub struct CallParts {
    pub key: ExternalReference,
    pub call: Expression,
    pub args: Vec<Expression>,
    pub span: Option<ParseSourceSpan>,
    pub pure: bool,
}

/// Whether two references are equal.
fn same_ref(a: &ExternalReference, b: &ExternalReference) -> (r: bool)
    ensures
        r == (a@ == b@),
{
    let m = match (&a.module_name, &b.module_name) {
        (Some(x), Some(y)) => str_eq(x.as_str(), y.as_str()),
        (None, None) => true,
        _ => false,
    };
    let n = match (&a.name, &b.name) {
        (Some(x), Some(y)) => str_eq(x.as_str(), y.as_str()),
        (None, None) => true,
        _ => false,
    };
    m && n
}

/// The parts of a statement that calls a chainable instruction.
fn stmt_call(s: &Statement) -> (r: Option<CallParts>)
    ensures
        match r {
            Some(p) => stmt_link(stmt_view(*s)) matches Link::Call { key, call, args, span, pure } && key == p.key@
                && call == expr_view(p.call) && args == exprs_view(p.args@) && span == opt_span_view(p.span) && pure == p.pure,
            None => stmt_link(stmt_view(*s)) is Break,
        },
{
    match s {
        Statement::Expression { expr } => match &**expr {
            Expression::InvokeFn { fn_, args, source_span, pure } => match &**fn_ {
                Expression::External { value, source_span: vspan } => {
                    assert(expr_view(**fn_) == SExpr::External { value: value@, source_span: opt_span_view(*vspan) });
                    assert(expr_view(**expr) == SExpr::InvokeFn {
                        fn_: Box::new(expr_view(**fn_)),
                        args: exprs_view(args@),
                        source_span: opt_span_view(*source_span),
                        pure: *pure,
                    });
                    if is_chainable(value) {
                        Some(
                            CallParts {
                                key: value.clone_ref(),
                                call: clone_expr(expr),
                                args: clone_exprs(args),
                                span: clone_opt_span(source_span),
                                pure: *pure,
                            },
                        )
                    } else {
                        None
                    }
                },
                _ => None,
            },
            _ => None,
        },
        _ => None,
    }
}

proof fn lemma_update_ops_view_update(s: Seq<UpdateOp>, i: int, e: UpdateOp)
    requires
        0 <= i < s.len(),
    ensures
        update_ops_view(s.update(i, e)) == update_ops_view(s).update(i, update_op_view(e)),
{
    lemma_update_ops_view_len(s);
    lemma_update_ops_view_len(s.update(i, e));
    assert forall|k: int| 0 <= k < s.len() implies #[trigger] update_ops_view(s.update(i, e))[k] == update_ops_view(s).update(
        i,
        update_op_view(e),
    )[k] by {
        lemma_update_ops_view_index(s.update(i, e), k);
        lemma_update_ops_view_index(s, k);
    }
    assert(update_ops_view(s.update(i, e)) =~= update_ops_view(s).update(i, update_op_view(e)));
}

proof fn lemma_create_ops_view_update(s: Seq<CreateOp>, i: int, e: CreateOp)
    requires
        0 <= i < s.len(),
    ensures
        create_ops_view(s.update(i, e)) == create_ops_view(s).update(i, create_op_view(e)),
{
    lemma_create_ops_view_len(s);
    lemma_create_ops_view_len(s.update(i, e));
    assert forall|k: int| 0 <= k < s.len() implies #[trigger] create_ops_view(s.update(i, e))[k] == create_ops_view(s).update(
        i,
        create_op_view(e),
    )[k] by {
        lemma_create_ops_view_index(s.update(i, e), k);
        lemma_create_ops_view_index(s, k);
    }
    assert(create_ops_view(s.update(i, e)) =~= create_ops_view(s).update(i, create_op_view(e)));
}

/// The spec state of an exec chain.
pub open spec fn chain_state_of(active: bool, head: usize, e: Expression, key: ExternalReference, length: usize) -> Option<
    ChainState,
> {
    if active {
        Some(ChainState { head: head as int, expr: expr_view(e), key: key@, length: length as nat })
    } else {
        None
    }
}

/// Chain the statements of an update list.
fn chain_update_ops(ops: Vec<UpdateOp>) -> (r: Vec<UpdateOp>)
    ensures
        update_ops_view(r@) == spec_chain_update(update_ops_view(ops@)),
{
    let ghost o0 = ops@;
    let ghost ov = update_ops_view(o0);
    proof {
        lemma_update_ops_view_len(o0);
    }
    let mut ops = ops;
    let n = ops.len();
    let mut out: Vec<UpdateOp> = Vec::new();
    let mut active = false;
    let mut head: usize = 0;
    let mut cexpr = Expression::Empty { source_span: None };
    let mut key = ExternalReference { name: None, module_name: None };
    let mut length: usize = 0;
    let mut i: usize = 0;
    proof {
        assert(ov.take(0) =~= Seq::<SUpdateOp>::empty());
        assert(update_ops_view(out@) =~= Seq::<SUpdateOp>::empty());
    }
    while i < n
        invariant
            n == o0.len(),
            i <= n,
            ops@ == o0.skip(i as int),
            ov == update_ops_view(o0),
            ov.len() == n,
            active ==> head < out@.len() && length <= MAX_CHAIN_LENGTH,
            (update_ops_view(out@), chain_state_of(active, head, cexpr, key, length)) == chain_fold(
                ov.take(i as int),
                update_link_fn(),
                update_stmt_fn(),
            ),
        decreases n - i,
    {
        let op = ops.remove(0);
        assert(op == o0[i as int]);
        proof {
            lemma_update_ops_view_index(o0, i as int);
            assert(ov.take(i + 1).drop_last() =~= ov.take(i as int));
            assert(ov.take(i + 1).last() == update_op_view(op));
            lemma_update_ops_view_len(out@);
        }
        let parts = match &op {
            UpdateOp::Statement(s) => stmt_call(s),
            _ => None,
        };
        let ghost before = out@;
        match parts {
            None => {
                out.push(op);
                active = false;
                proof {
                    lemma_update_ops_view_push(before, op);
                }
            },
            Some(p) => {
                if active && same_ref(&key, &p.key) && length < MAX_CHAIN_LENGTH {
                    let e = Expression::InvokeFn { fn_: Box::new(cexpr), args: p.args, source_span: p.span, pure: p.pure };
                    let st = UpdateOp::Statement(Statement::Expression { expr: Box::new(clone_expr(&e)) });
                    out.set(head, st);
                    proof {
                        lemma_update_ops_view_update(before, head as int, st);
                    }
                    cexpr = e;
                    length = length + 1;
                } else {
                    head = out.len();
                    out.push(op);
                    proof {
                        lemma_update_ops_view_push(before, op);
                    }
                    cexpr = p.call;
                    key = p.key;
                    length = 1;
                    active = true;
                }
            },
        }
        proof {
            assert(ops@ =~= o0.skip(i + 1));
        }
        i += 1;
    }
    proof {
        assert(ov.take(n as int) =~= ov);
    }
    out
}

/// Chain the statements of a creation list; a text node without a slot keeps the open chain.
fn chain_create_ops(ops: Vec<CreateOp>) -> (r: Vec<CreateOp>)
    ensures
        create_ops_view(r@) == spec_chain_create(create_ops_view(ops@)),
{
    let ghost o0 = ops@;
    let ghost ov = create_ops_view(o0);
    proof {
        lemma_create_ops_view_len(o0);
    }
    let mut ops = ops;
    let n = ops.len();
    let mut out: Vec<CreateOp> = Vec::new();
    let mut active = false;
    let mut head: usize = 0;
    let mut cexpr = Expression::Empty { source_span: None };
    let mut key = ExternalReference { name: None, module_name: None };
    let mut length: usize = 0;
    let mut i: usize = 0;
    proof {
        assert(ov.take(0) =~= Seq::<SCreateOp>::empty());
        assert(create_ops_view(out@) =~= Seq::<SCreateOp>::empty());
    }
    while i < n
        invariant
            n == o0.len(),
            i <= n,
            ops@ == o0.skip(i as int),
            ov == create_ops_view(o0),
            ov.len() == n,
            active ==> head < out@.len() && length <= MAX_CHAIN_LENGTH,
            (create_ops_view(out@), chain_state_of(active, head, cexpr, key, length)) == chain_fold(
                ov.take(i as int),
                create_link_fn(),
                create_stmt_fn(),
            ),
        decreases n - i,
    {
        let op = ops.remove(0);
        assert(op == o0[i as int]);
        proof {
            lemma_create_ops_view_index(o0, i as int);
            assert(ov.take(i + 1).drop_last() =~= ov.take(i as int));
            assert(ov.take(i + 1).last() == create_op_view(op));
            lemma_create_ops_view_len(out@);
        }
        let skip = match &op {
            CreateOp::Text { slot: None, .. } => true,
            _ => false,
        };
        let parts = match &op {
            CreateOp::Statement(s) => stmt_call(s),
            _ => None,
        };
        let ghost before = out@;
        if skip {
            out.push(op);
            proof {
                lemma_create_ops_view_push(before, op);
            }
        } else {
            match parts {
                None => {
                    out.push(op);
                    active = false;
                    proof {
                        lemma_create_ops_view_push(before, op);
                    }
                },
                Some(p) => {
                    if active && same_ref(&key, &p.key) && length < MAX_CHAIN_LENGTH {
                        let e = Expression::InvokeFn {
                            fn_: Box::new(cexpr),
                            args: p.args,
                            source_span: p.span,
                            pure: p.pure,
                        };
                        let st = CreateOp::Statement(Statement::Expression { expr: Box::new(clone_expr(&e)) });
                        out.set(head, st);
                        proof {
                            lemma_create_ops_view_update(before, head as int, st);
                        }
                        cexpr = e;
                        length = length + 1;
                    } else {
                        head = out.len();
                        out.push(op);
                        proof {
                            lemma_create_ops_view_push(before, op);
                        }
                        cexpr = p.call;
                        key = p.key;
                        length = 1;
                        active = true;
                    }
                },
            }
        }
        proof {
            assert(ops@ =~= o0.skip(i + 1));
        }
        i += 1;
    }
    proof {
        assert(ov.take(n as int) =~= ov);
    }
    out
}

/// Chain the instruction calls of a host binding job's creation and update lists.
pub fn chain(job: &mut HostBindingCompilationJob)
    ensures
        crate::phases::attribute_extraction::same_but_lists(*final(job), *old(job)),
        final(job).root.attributes == old(job).root.attributes,
        create_ops_view(final(job).root.create@) == spec_chain_create(create_ops_view(old(job).root.create@)),
        update_ops_view(final(job).root.update@) == spec_chain_update(update_ops_view(old(job).root.update@)),
{
    let mut create: Vec<CreateOp> = Vec::new();
    std::mem::swap(&mut create, &mut job.root.create);
    let mut update: Vec<UpdateOp> = Vec::new();
    std::mem::swap(&mut update, &mut job.root.update);
    job.root.create = chain_create_ops(create);
    job.root.update = chain_update_ops(update);
}

/// A view after chaining: both its lists are chained, the rest is as it was.
pub open spec fn chain_step(u: ViewCompilationUnit, v: ViewCompilationUnit) -> bool {
    &&& same_unit_but_lists(v, u)
    &&& create_ops_view(v.create@) == spec_chain_create(create_ops_view(u.create@))
    &&& update_ops_view(v.update@) == spec_chain_update(update_ops_view(u.update@))
}

/// The relation of each embedded view after chaining to the view before it.
pub open spec fn chain_step_rel() -> spec_fn(int, ViewCompilationUnit, ViewCompilationUnit) -> bool {
    |i: int, u: ViewCompilationUnit, v: ViewCompilationUnit| chain_step(u, v)
}

/// Chain the instruction calls of a view's creation and update lists.
fn chain_unit(u: &mut ViewCompilationUnit)
    ensures
        chain_step(*old(u), *final(u)),
{
    let mut create: Vec<CreateOp> = Vec::new();
    std::mem::swap(&mut create, &mut u.create);
    let mut update: Vec<UpdateOp> = Vec::new();
    std::mem::swap(&mut update, &mut u.update);
    u.create = chain_create_ops(create);
    u.update = chain_update_ops(update);
}

/// Chain the instruction calls of every view of a component's template: the root view and each
/// embedded view.
pub fn chain_in_component(job: &mut ComponentCompilationJob)
    ensures
        same_but_views(*final(job), *old(job)),
        chain_step(old(job).root, final(job).root),
        units_related(view_entries(old(job).views), view_entries(final(job).views), chain_step_rel()),
{
    chain_unit(&mut job.root);
    let ghost mid = *job;
    let mut units = take_view_units(job);
    let ghost all = units@;
    let n = units.len();
    let mut done: Vec<(u64, ViewCompilationUnit)> = Vec::new();
    let mut j: usize = 0;
    proof {
        assert(all.skip(0) =~= all);
        assert(all.take(0) =~= Seq::<(u64, ViewCompilationUnit)>::empty());
    }
    while j < n
        invariant
            n == all.len(),
            j <= n,
            all == view_entries(old(job).views),
            unit_keys(all).no_duplicates(),
            units@ == all.skip(j as int),
            units_related(all.take(j as int), done@, chain_step_rel()),
            view_entries(job.views) == Seq::<(u64, ViewCompilationUnit)>::empty(),
            same_but_views(*job, mid),
            job.root == mid.root,
        decreases n - j,
    {
        let ghost before = units@;
        let (k, mut u) = units.remove(0);
        let ghost u0 = u;
        proof {
            assert(before[0] == all[j as int]);
        }
        chain_unit(&mut u);
        proof {
            assert(chain_step_rel()(j as int, u0, u));
            lemma_units_related_push(all, done@, chain_step_rel(), j as int, k, u);
            assert(units@ =~= all.skip(j + 1));
        }
        done.push((k, u));
        j += 1;
    }
    proof {
        assert(all.take(n as int) =~= all);
        lemma_units_related_keys(all, done@, chain_step_rel());
    }
    restore_view_units(job, done);
}

// ---------------------------------------------------------------------------------------------
// What chaining keeps
// ---------------------------------------------------------------------------------------------

/// One call of an instruction: the instruction, its arguments, span and purity.
pub struct CallRec {
    pub key: SRef,
    pub args: Seq<SExpr>,
    pub span: Option<SpecSpan>,
    pub pure: bool,
}

/// The instruction calls that an expression makes: a call of an instruction, or a chained
/// call `f(a)(b)`, whose later calls call the same instruction again.
pub open spec fn expr_calls(e: SExpr) -> Seq<CallRec>
    decreases e,
{
    match e {
        SExpr::InvokeFn { fn_, args, source_span, pure } => match *fn_ {
            SExpr::External { value, .. } => seq![CallRec { key: value, args, span: source_span, pure }],
            SExpr::InvokeFn { .. } => {
                let c = expr_calls(*fn_);
                if c.len() > 0 {
                    c.push(CallRec { key: c[0].key, args, span: source_span, pure })
                } else {
                    Seq::empty()
                }
            },
            _ => Seq::empty(),
        },
        _ => Seq::empty(),
    }
}

/// The instruction calls of a statement.
pub open spec fn stmt_calls(s: SStmt) -> Seq<CallRec> {
    match s {
        SStmt::Expression { expr } => expr_calls(expr),
        _ => Seq::empty(),
    }
}

/// The instruction calls of an update operation.
pub open spec fn update_calls(op: SUpdateOp) -> Seq<CallRec> {
    match op {
        SUpdateOp::Statement(s) => stmt_calls(s),
        _ => Seq::empty(),
    }
}

/// The instruction calls of a creation operation.
pub open spec fn create_calls(op: SCreateOp) -> Seq<CallRec> {
    match op {
        SCreateOp::Statement(s) => stmt_calls(s),
        _ => Seq::empty(),
    }
}

/// The instruction calls of a list of operations, in order.
pub open spec fn calls_of<A>(s: Seq<A>, f: spec_fn(A) -> Seq<CallRec>) -> Seq<CallRec>
    decreases s.len(),
{
    if s.len() == 0 {
        Seq::empty()
    } else {
        calls_of(s.drop_last(), f) + f(s.last())
    }
}

proof fn lemma_calls_of_append<A>(a: Seq<A>, b: Seq<A>, f: spec_fn(A) -> Seq<CallRec>)
    ensures
        calls_of(a + b, f) == calls_of(a, f) + calls_of(b, f),
    decreases b.len(),
{
    if b.len() == 0 {
        assert(a + b =~= a);
        assert(calls_of(a, f) + calls_of(b, f) =~= calls_of(a, f));
    } else {
        assert((a + b).drop_last() =~= a + b.drop_last());
        lemma_calls_of_append(a, b.drop_last(), f);
        assert(calls_of(a, f) + calls_of(b, f) =~= calls_of(a, f) + calls_of(b.drop_last(), f) + f(b.last()));
    }
}

proof fn lemma_calls_of_none<A>(s: Seq<A>, f: spec_fn(A) -> Seq<CallRec>)
    requires
        forall|k: int| 0 <= k < s.len() ==> (#[trigger] f(s[k])).len() == 0,
    ensures
        calls_of(s, f) == Seq::<CallRec>::empty(),
    decreases s.len(),
{
    if s.len() > 0 {
        assert forall|k: int| 0 <= k < s.drop_last().len() implies (#[trigger] f(s.drop_last()[k])).len() == 0 by {
            assert(s.drop_last()[k] == s[k]);
        }
        lemma_calls_of_none(s.drop_last(), f);
        assert(f(s.last()).len() == 0);
        assert(calls_of(s, f) =~= Seq::<CallRec>::empty());
    }
}

/// The calls of a list split at an operation after which no operation makes calls.
proof fn lemma_calls_of_split<A>(s: Seq<A>, h: int, f: spec_fn(A) -> Seq<CallRec>)
    requires
        0 <= h < s.len(),
        forall|k: int| h < k < s.len() ==> (#[trigger] f(s[k])).len() == 0,
    ensures
        calls_of(s, f) == calls_of(s.take(h), f) + f(s[h]),
{
    let tail = s.skip(h + 1);
    assert forall|k: int| 0 <= k < tail.len() implies (#[trigger] f(tail[k])).len() == 0 by {
        assert(tail[k] == s[k + h + 1]);
    }
    lemma_calls_of_none(tail, f);
    assert(s =~= s.take(h + 1) + tail);
    lemma_calls_of_append(s.take(h + 1), tail, f);
    assert(s.take(h + 1).drop_last() =~= s.take(h));
    assert(calls_of(s, f) =~= calls_of(s.take(h), f) + f(s[h]));
}

/// What chaining needs of how operations take part in it: a chainable call is the statement of
/// its call and makes exactly that call, a passed-over operation makes none, and a statement
/// made by `mk` makes the calls of its expression.
pub open spec fn chain_hypotheses<A>(
    link: spec_fn(A) -> Link,
    mk: spec_fn(SStmt) -> A,
    f: spec_fn(A) -> Seq<CallRec>,
) -> bool {
    &&& forall|op: A|
        #![trigger link(op)]
        (link(op) matches Link::Call { key, call, args, span, pure } ==> f(op) == expr_calls(call) && expr_calls(call)
            == seq![CallRec { key, args, span, pure }] && op == mk(expr_stmt(call)))
    &&& forall|op: A| #![trigger link(op)] link(op) is Skip ==> f(op).len() == 0
    &&& forall|e: SExpr| #[trigger] f(mk(expr_stmt(e))) == expr_calls(e)
}

/// The invariant of the chaining fold: the calls are those of the input, and the open chain's
/// statement holds its expression, which calls its instruction, with nothing that makes calls
/// after it.
pub open spec fn chain_fold_inv<A>(
    out: Seq<A>,
    st: Option<ChainState>,
    mk: spec_fn(SStmt) -> A,
    f: spec_fn(A) -> Seq<CallRec>,
) -> bool {
    st matches Some(c) ==> {
        &&& 0 <= c.head < out.len()
        &&& out[c.head] == mk(expr_stmt(c.expr))
        &&& c.expr is InvokeFn
        &&& expr_calls(c.expr).len() > 0
        &&& expr_calls(c.expr)[0].key == c.key
        &&& forall|k: int| c.head < k < out.len() ==> (#[trigger] f(out[k])).len() == 0
    }
}

proof fn lemma_chain_fold_calls<A>(
    ops: Seq<A>,
    link: spec_fn(A) -> Link,
    mk: spec_fn(SStmt) -> A,
    f: spec_fn(A) -> Seq<CallRec>,
)
    requires
        chain_hypotheses(link, mk, f),
    ensures
        calls_of(chain_fold(ops, link, mk).0, f) == calls_of(ops, f),
        chain_fold_inv(chain_fold(ops, link, mk).0, chain_fold(ops, link, mk).1, mk, f),
    decreases ops.len(),
{
    if ops.len() > 0 {
        let d = ops.drop_last();
        lemma_chain_fold_calls(d, link, mk, f);
        let prev = chain_fold(d, link, mk);
        let out = prev.0;
        let st = prev.1;
        let op = ops.last();
        assert(out.push(op).drop_last() =~= out);
        match link(op) {
            Link::Skip => {
                assert(f(op).len() == 0);
                assert(calls_of(out.push(op), f) =~= calls_of(out, f));
                assert(calls_of(ops, f) =~= calls_of(d, f));
            },
            Link::Break => {},
            Link::Call { key, call, args, span, pure } => {
                let merge = match st {
                    Some(c) => c.key == key && c.length < MAX_CHAIN_LENGTH,
                    None => false,
                };
                if merge {
                    let c = st.unwrap();
                    let e = SExpr::InvokeFn { fn_: Box::new(c.expr), args, source_span: span, pure };
                    let out2 = out.update(c.head, mk(expr_stmt(e)));
                    assert(expr_calls(e) == expr_calls(c.expr).push(CallRec { key, args, span, pure }));
                    lemma_calls_of_split(out, c.head, f);
                    assert forall|k: int| c.head < k < out2.len() implies (#[trigger] f(out2[k])).len() == 0 by {
                        assert(out2[k] == out[k]);
                    }
                    lemma_calls_of_split(out2, c.head, f);
                    assert(out2.take(c.head) =~= out.take(c.head));
                    assert(calls_of(out2, f) =~= calls_of(out, f) + f(op));
                } else {
                    assert(expr_calls(call).len() == 1);
                    assert forall|k: int| out.len() < k < out.push(op).len() implies (#[trigger] f(out.push(op)[k])).len()
                        == 0 by {}
                    assert(out.push(op)[out.len() as int] == op);
                    let cc = call;
                    assert(expr_calls(cc) == seq![CallRec { key, args, span, pure }]);
                    assert(cc is InvokeFn) by {
                        if !(cc is InvokeFn) {
                            assert(expr_calls(cc) =~= Seq::<CallRec>::empty());
                        }
                    }
                    assert(out.push(op)[out.len() as int] == mk(expr_stmt(cc)));
                }
            },
        }
    }
}

/// The instruction calls of update operations.
pub open spec fn update_calls_fn() -> spec_fn(SUpdateOp) -> Seq<CallRec> {
    |o: SUpdateOp| update_calls(o)
}

/// The instruction calls of creation operations.
pub open spec fn create_calls_fn() -> spec_fn(SCreateOp) -> Seq<CallRec> {
    |o: SCreateOp| create_calls(o)
}

/// Chaining an update list keeps its instruction calls, with their arguments, in order.
pub proof fn lemma_chain_update_keeps_calls(ops: Seq<SUpdateOp>)
    ensures
        calls_of(spec_chain_update(ops), update_calls_fn()) == calls_of(ops, update_calls_fn()),
{
    assert(chain_hypotheses(update_link_fn(), update_stmt_fn(), update_calls_fn()));
    lemma_chain_fold_calls(ops, update_link_fn(), update_stmt_fn(), update_calls_fn());
}

/// Chaining a creation list keeps its instruction calls, with their arguments, in order.
pub proof fn lemma_chain_create_keeps_calls(ops: Seq<SCreateOp>)
    ensures
        calls_of(spec_chain_create(ops), create_calls_fn()) == calls_of(ops, create_calls_fn()),
{
    assert(chain_hypotheses(create_link_fn(), create_stmt_fn(), create_calls_fn()));
    lemma_chain_fold_calls(ops, create_link_fn(), create_stmt_fn(), create_calls_fn());
}

} // verus!
