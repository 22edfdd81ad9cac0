//! The view query function of a component: `<Component>_Query(rf, ctx)`, which creates the
//! view queries when `rf & 1` and refreshes them into the component's properties when `rf & 2`.

use vstd::prelude::*;
use vstd::string::*;
use crate::output::{
    BinaryOperator, Expression, FnParam, LiteralArrayExpr, SExpr, SStmt, Statement, StmtModifier,
    expr_view, exprs_view, stmt_view, stmts_view, params_view, clone_expr, lemma_exprs_view_push,
    lemma_stmts_view_push, lemma_stmts_view_len,
};
use crate::ir::{opt_expr_view, strings_view};
use crate::emit::{Instruction, instruction_ref, instruction_reference, int_lit, int_expr, text_lit, text_expr, rf_check, rf_test};

verus! {

/// What a query looks for: the selectors it matches, or a type or token that it is given.
#[derive(Debug)]
pub enum R3QueryPredicate {
    Selectors(Vec<String>),
    Reference(Expression),
}

/// The metadata of one view query of a component.
#[derive(Debug)]
pub struct R3QueryMetadata {
    /// The component property that the query result is written to.
    pub property_name: String,
    /// Whether only the first result is kept (`@ViewChild`) or all of them (`@ViewChildren`).
    pub first: bool,
    pub predicate: R3QueryPredicate,
    /// Whether the query looks into descendants too.
    pub descendants: bool,
    /// Whether the query is resolved before change detection runs.
    pub static_: bool,
    /// Whether the query list announces a change only when its results differ.
    pub emit_distinct_changes_only: bool,
    /// What to read from each matched node, where it is not the node itself.
    pub read: Option<Expression>,
    /// Whether the query is declared with the signal-based API.
    pub is_signal: bool,
}

/// The mathematical value of a query predicate.
pub enum SPredicate {
    Selectors(Seq<Seq<char>>),
    Reference(SExpr),
}

/// The mathematical value of a query's metadata.
pub struct SQuery {
    pub property_name: Seq<char>,
    pub first: bool,
    pub predicate: SPredicate,
    pub descendants: bool,
    pub static_: bool,
    pub emit_distinct_changes_only: bool,
    pub read: Option<SExpr>,
    pub is_signal: bool,
}

pub open spec fn predicate_view(p: R3QueryPredicate) -> SPredicate {
    match p {
        R3QueryPredicate::Selectors(s) => SPredicate::Selectors(strings_view(s@)),
        R3QueryPredicate::Reference(e) => SPredicate::Reference(expr_view(e)),
    }
}

pub open spec fn query_view(q: R3QueryMetadata) -> SQuery {
    SQuery {
        property_name: q.property_name@,
        first: q.first,
        predicate: predicate_view(q.predicate),
        descendants: q.descendants,
        static_: q.static_,
        emit_distinct_changes_only: q.emit_distinct_changes_only,
        read: opt_expr_view(q.read),
        is_signal: q.is_signal,
    }
}

pub open spec fn queries_view(s: Seq<R3QueryMetadata>) -> Seq<SQuery> {
    s.map_values(|q: R3QueryMetadata| query_view(q))
}

/// The selector that a query is created with: its first selector, or the empty string where
/// it has none or is given a reference.
pub open spec fn query_selector(p: SPredicate) -> Seq<char> {
    match p {
        SPredicate::Selectors(s) => if s.len() > 0 {
            s[0]
        } else {
            ""@
        },
        SPredicate::Reference(_) => ""@,
    }
}

/// The one-element array `[selector]`.
pub open spec fn selector_array(q: SQuery) -> SExpr {
    SExpr::LiteralArray { entries: seq![text_lit(query_selector(q.predicate))], source_span: None }
}

/// The `read` argument, where a query has one.
pub open spec fn read_arg(q: SQuery) -> Seq<SExpr> {
    match q.read {
        Some(r) => seq![r],
        None => Seq::empty(),
    }
}

/// The flags of a signal query: 1 for descendants, 2 for static, 4 for distinct changes only.
pub open spec fn signal_flags(q: SQuery) -> int {
    (if q.descendants { 1int } else { 0int }) + (if q.static_ { 2int } else { 0int }) + (if q.emit_distinct_changes_only {
        4int
    } else {
        0int
    })
}

/// `ctx.<name>`.
pub open spec fn ctx_prop(name: Seq<char>) -> SExpr {
    SExpr::ReadProp {
        receiver: Box::new(SExpr::ReadVar { name: "ctx"@, source_span: None }),
        name,
        source_span: None,
    }
}

/// A call of an instruction, as an expression.
pub open spec fn instruction_call(i: Instruction, args: Seq<SExpr>) -> SExpr {
    SExpr::InvokeFn {
        fn_: Box::new(SExpr::External { value: instruction_ref(i), source_span: None }),
        args,
        source_span: None,
        pure: false,
    }
}

/// `ɵɵviewQuerySignal(ctx.<prop>, [selector], flags, read?)`.
pub open spec fn signal_query_stmt(q: SQuery) -> SStmt {
    SStmt::Expression {
        expr: instruction_call(
            Instruction::ViewQuerySignal,
            seq![ctx_prop(q.property_name), selector_array(q), int_lit(signal_flags(q))] + read_arg(q),
        ),
    }
}

/// The arguments of a chained query: `[selector]`, 5 for a first-only query or 4 otherwise,
/// and `read` where there is one.
pub open spec fn chained_args(q: SQuery) -> Seq<SExpr> {
    seq![selector_array(q), int_lit(if q.first { 5int } else { 4int })] + read_arg(q)
}

/// The statement that holds a pending chain, where there is one.
pub open spec fn flush(chain: Option<SExpr>) -> Seq<SStmt> {
    match chain {
        Some(e) => seq![SStmt::Expression { expr: e }],
        None => Seq::empty(),
    }
}

/// One query's effect on the creation statements and the pending chain of calls: a signal
/// query ends the chain and is created on its own; another starts the chain with
/// `ɵɵviewQuery(args)`, or calls the chain built so far with its arguments.
pub open spec fn create_step(acc: (Seq<SStmt>, Option<SExpr>), q: SQuery) -> (Seq<SStmt>, Option<SExpr>) {
    if q.is_signal {
        (acc.0 + flush(acc.1) + seq![signal_query_stmt(q)], None)
    } else {
        (
            acc.0,
            Some(
                match acc.1 {
                    None => instruction_call(Instruction::ViewQuery, chained_args(q)),
                    Some(c) => SExpr::InvokeFn { fn_: Box::new(c), args: chained_args(q), source_span: None, pure: false },
                },
            ),
        )
    }
}

/// The creation statements and the pending chain after a list of queries.
pub open spec fn create_state(qs: Seq<SQuery>) -> (Seq<SStmt>, Option<SExpr>)
    decreases qs.len(),
{
    if qs.len() == 0 {
        (Seq::empty(), None)
    } else {
        create_step(create_state(qs.drop_last()), qs.last())
    }
}

/// The creation block of the query function.
pub open spec fn query_create_stmts(qs: Seq<SQuery>) -> Seq<SStmt> {
    create_state(qs).0 + flush(create_state(qs).1)
}

/// `_t`.
pub open spec fn temp_read() -> SExpr {
    SExpr::ReadVar { name: "_t"@, source_span: None }
}

/// `ɵɵqueryRefresh(_t = ɵɵloadQuery()) && (ctx.<prop> = _t.first)`, with `_t` in place of
/// `_t.first` for a query that keeps all results.
pub open spec fn refresh_expr(q: SQuery) -> SExpr {
    let load = SExpr::BinaryOp {
        operator: BinaryOperator::Assign,
        lhs: Box::new(temp_read()),
        rhs: Box::new(instruction_call(Instruction::LoadQuery, Seq::empty())),
        source_span: None,
    };
    let result = if q.first {
        SExpr::ReadProp { receiver: Box::new(temp_read()), name: "first"@, source_span: None }
    } else {
        temp_read()
    };
    let assign = SExpr::BinaryOp {
        operator: BinaryOperator::Assign,
        lhs: Box::new(ctx_prop(q.property_name)),
        rhs: Box::new(result),
        source_span: None,
    };
    SExpr::BinaryOp {
        operator: BinaryOperator::And,
        lhs: Box::new(instruction_call(Instruction::QueryRefresh, seq![load])),
        rhs: Box::new(SExpr::Parens { expr: Box::new(assign) }),
        source_span: None,
    }
}

/// The update statement of one query: `ɵɵqueryAdvance()` for a signal query, the refresh of
/// its property for another.
pub open spec fn query_update_stmt(q: SQuery) -> SStmt {
    if q.is_signal {
        SStmt::Expression { expr: instruction_call(Instruction::QueryAdvance, Seq::empty()) }
    } else {
        SStmt::Expression { expr: refresh_expr(q) }
    }
}

/// Whether some query is not signal-based.
pub open spec fn has_non_signal(qs: Seq<SQuery>) -> bool {
    exists|i: int| 0 <= i < qs.len() && !(#[trigger] qs[i]).is_signal
}

/// The declaration `var _t;`.
pub open spec fn temp_decl() -> SStmt {
    SStmt::DeclareVar { name: "_t"@, value: None, modifiers: StmtModifier::Plain, source_span: None }
}

/// The update block of the query function: `var _t;` where some query is not signal-based,
/// then one statement per query, in order.
pub open spec fn query_update_stmts(qs: Seq<SQuery>) -> Seq<SStmt> {
    (if has_non_signal(qs) {
        seq![temp_decl()]
    } else {
        Seq::empty()
    }) + qs.map_values(|q: SQuery| query_update_stmt(q))
}

/// `if (rf & n) { stmts }`, where there are statements.
pub open spec fn rf_block(n: int, stmts: Seq<SStmt>) -> Seq<SStmt> {
    if stmts.len() == 0 {
        Seq::empty()
    } else {
        seq![SStmt::IfStmt { condition: rf_check(n), true_case: stmts, false_case: Seq::empty() }]
    }
}

/// The view query function `<component>_Query(rf, ctx)`.
pub open spec fn spec_view_query_fn(qs: Seq<SQuery>, component_name: Seq<char>) -> SExpr {
    SExpr::Fn {
        name: Some(component_name + "_Query"@),
        params: seq!["rf"@, "ctx"@],
        statements: rf_block(1, query_create_stmts(qs)) + rf_block(2, query_update_stmts(qs)),
    }
}

/// The selector that a query is created with.
fn selector_text(p: &R3QueryPredicate) -> (r: String)
    ensures
        r@ == query_selector(predicate_view(*p)),
{
    match p {
        R3QueryPredicate::Selectors(s) => {
            if s.len() > 0 {
                assert(strings_view(s@)[0] == s@[0]@);
                s[0].clone()
            } else {
                proof {
                    reveal_strlit("");
                }
                String::new()
            }
        },
        R3QueryPredicate::Reference(_) => {
            proof {
                reveal_strlit("");
            }
            String::new()
        },
    }
}

/// `[selector]`.
fn selector_array_expr(q: &R3QueryMetadata) -> (r: Expression)
    ensures
        expr_view(r) == selector_array(query_view(*q)),
{
    let mut entries: Vec<Expression> = Vec::new();
    let t = text_expr(selector_text(&q.predicate));
    proof {
        lemma_exprs_view_push(entries@, t);
        assert(exprs_view(entries@) =~= Seq::<SExpr>::empty());
    }
    entries.push(t);
    proof {
        assert(exprs_view(entries@) =~= seq![text_lit(query_selector(query_view(*q).predicate))]);
    }
    Expression::LiteralArray(LiteralArrayExpr { entries, source_span: None })
}

/// Appends the `read` argument of a query, where it has one.
fn push_read(args: &mut Vec<Expression>, q: &R3QueryMetadata)
    ensures
        exprs_view(final(args)@) == exprs_view(old(args)@) + read_arg(query_view(*q)),
{
    match &q.read {
        Some(r) => {
            let c = clone_expr(r);
            proof {
                lemma_exprs_view_push(args@, c);
            }
            args.push(c);
            assert(exprs_view(args@) =~= exprs_view(old(args)@) + read_arg(query_view(*q)));
        },
        None => {
            assert(exprs_view(args@) =~= exprs_view(old(args)@) + read_arg(query_view(*q)));
        },
    }
}

/// `ctx.<name>`.
fn ctx_prop_expr(name: String) -> (r: Expression)
    ensures
        expr_view(r) == ctx_prop(name@),
{
    let ctx = Expression::ReadVar { name: "ctx".to_string(), source_span: None };
    assert(expr_view(ctx) == SExpr::ReadVar { name: "ctx"@, source_span: None });
    Expression::ReadProp { receiver: Box::new(ctx), name, source_span: None }
}

/// A call of an instruction, as an expression.
fn instruction_call_expr(i: Instruction, args: Vec<Expression>) -> (r: Expression)
    ensures
        expr_view(r) == instruction_call(i, exprs_view(args@)),
{
    let f = Expression::External { value: instruction_reference(i), source_span: None };
    assert(expr_view(f) == SExpr::External { value: instruction_ref(i), source_span: None });
    Expression::InvokeFn { fn_: Box::new(f), args, source_span: None, pure: false }
}

/// The flags of a signal query.
fn signal_flags_value(q: &R3QueryMetadata) -> (r: i64)
    ensures
        r == signal_flags(query_view(*q)),
{
    let mut flags: i64 = 0;
    if q.descendants {
        flags = flags + 1;
    }
    if q.static_ {
        flags = flags + 2;
    }
    if q.emit_distinct_changes_only {
        flags = flags + 4;
    }
    flags
}

/// `ɵɵviewQuerySignal(ctx.<prop>, [selector], flags, read?)`.
fn signal_query_statement(q: &R3QueryMetadata) -> (r: Statement)
    ensures
        stmt_view(r) == signal_query_stmt(query_view(*q)),
{
    let mut args: Vec<Expression> = Vec::new();
    let a = ctx_prop_expr(q.property_name.clone());
    let b = selector_array_expr(q);
    let c = int_expr(signal_flags_value(q));
    proof {
        assert(exprs_view(args@) =~= Seq::<SExpr>::empty());
        lemma_exprs_view_push(args@, a);
    }
    args.push(a);
    proof {
        lemma_exprs_view_push(args@, b);
    }
    args.push(b);
    proof {
        lemma_exprs_view_push(args@, c);
    }
    args.push(c);
    let ghost before = exprs_view(args@);
    push_read(&mut args, q);
    proof {
        let qv = query_view(*q);
        assert(before =~= seq![ctx_prop(qv.property_name), selector_array(qv), int_lit(signal_flags(qv))]);
    }
    Statement::Expression { expr: Box::new(instruction_call_expr(Instruction::ViewQuerySignal, args)) }
}

/// The arguments of a chained query.
fn chained_arguments(q: &R3QueryMetadata) -> (r: Vec<Expression>)
    ensures
        exprs_view(r@) == chained_args(query_view(*q)),
{
    let mut args: Vec<Expression> = Vec::new();
    let a = selector_array_expr(q);
    let b = int_expr(if q.first { 5 } else { 4 });
    proof {
        assert(exprs_view(args@) =~= Seq::<SExpr>::empty());
        lemma_exprs_view_push(args@, a);
    }
    args.push(a);
    proof {
        lemma_exprs_view_push(args@, b);
    }
    args.push(b);
    let ghost before = exprs_view(args@);
    push_read(&mut args, q);
    proof {
        let qv = query_view(*q);
        assert(before =~= seq![selector_array(qv), int_lit(if qv.first { 5int } else { 4int })]);
    }
    args
}

/// The creation block of the query function.
fn query_create_statements(qs: &Vec<R3QueryMetadata>) -> (r: Vec<Statement>)
    ensures
        stmts_view(r@) == query_create_stmts(queries_view(qs@)),
{
    let ghost qv = queries_view(qs@);
    let mut out: Vec<Statement> = Vec::new();
    let mut chain: Option<Expression> = None;
    let mut i: usize = 0;
    proof {
        assert(qv.take(0) =~= Seq::<SQuery>::empty());
        assert(stmts_view(out@) =~= Seq::<SStmt>::empty());
    }
    while i < qs.len()
        invariant
            i <= qs.len(),
            qv == queries_view(qs@),
            create_state(qv.take(i as int)) == (stmts_view(out@), opt_expr_view(chain)),
        decreases qs.len() - i,
    {
        let q = &qs[i];
        proof {
            assert(qv.take(i as int + 1).drop_last() =~= qv.take(i as int));
            assert(qv[i as int] == query_view(*q));
        }
        if q.is_signal {
            let pending = chain;
            chain = None;
            match pending {
                Some(e) => {
                    let st = Statement::Expression { expr: Box::new(e) };
                    proof {
                        lemma_stmts_view_push(out@, st);
                    }
                    out.push(st);
                },
                None => {},
            }
            let st = signal_query_statement(q);
            let ghost o1 = stmts_view(out@);
            proof {
                lemma_stmts_view_push(out@, st);
            }
            out.push(st);
            proof {
                let prev = create_state(qv.take(i as int));
                assert(o1 =~= prev.0 + flush(prev.1));
                assert(stmts_view(out@) =~= prev.0 + flush(prev.1) + seq![signal_query_stmt(query_view(*q))]);
            }
        } else {
            let args = chained_arguments(q);
            let pending = chain;
            let next = match pending {
                None => instruction_call_expr(Instruction::ViewQuery, args),
                Some(c) => Expression::InvokeFn { fn_: Box::new(c), args, source_span: None, pure: false },
            };
            chain = Some(next);
        }
        i += 1;
    }
    match chain {
        Some(e) => {
            let st = Statement::Expression { expr: Box::new(e) };
            proof {
                lemma_stmts_view_push(out@, st);
            }
            out.push(st);
        },
        None => {},
    }
    proof {
        assert(qv.take(qs.len() as int) =~= qv);
        assert(stmts_view(out@) =~= query_create_stmts(qv));
    }
    out
}

/// `_t`.
fn temp_expr() -> (r: Expression)
    ensures
        expr_view(r) == temp_read(),
{
    Expression::ReadVar { name: "_t".to_string(), source_span: None }
}

/// The refresh of a query's property.
fn refresh_expression(q: &R3QueryMetadata) -> (r: Expression)
    ensures
        expr_view(r) == refresh_expr(query_view(*q)),
{
    let no_args: Vec<Expression> = Vec::new();
    assert(exprs_view(no_args@) =~= Seq::<SExpr>::empty());
    let load = Expression::BinaryOp {
        operator: BinaryOperator::Assign,
        lhs: Box::new(temp_expr()),
        rhs: Box::new(instruction_call_expr(Instruction::LoadQuery, no_args)),
        source_span: None,
    };
    let ghost qv = query_view(*q);
    assert(expr_view(load) == SExpr::BinaryOp {
        operator: BinaryOperator::Assign,
        lhs: Box::new(temp_read()),
        rhs: Box::new(instruction_call(Instruction::LoadQuery, Seq::empty())),
        source_span: None,
    });
    let result = if q.first {
        Expression::ReadProp { receiver: Box::new(temp_expr()), name: "first".to_string(), source_span: None }
    } else {
        temp_expr()
    };
    assert(expr_view(result) == if qv.first {
        SExpr::ReadProp { receiver: Box::new(temp_read()), name: "first"@, source_span: None }
    } else {
        temp_read()
    });
    let assign = Expression::BinaryOp {
        operator: BinaryOperator::Assign,
        lhs: Box::new(ctx_prop_expr(q.property_name.clone())),
        rhs: Box::new(result),
        source_span: None,
    };
    assert(expr_view(assign) == SExpr::BinaryOp {
        operator: BinaryOperator::Assign,
        lhs: Box::new(ctx_prop(qv.property_name)),
        rhs: Box::new(if qv.first {
            SExpr::ReadProp { receiver: Box::new(temp_read()), name: "first"@, source_span: None }
        } else {
            temp_read()
        }),
        source_span: None,
    });
    let mut refresh_args: Vec<Expression> = Vec::new();
    proof {
        assert(exprs_view(refresh_args@) =~= Seq::<SExpr>::empty());
        lemma_exprs_view_push(refresh_args@, load);
    }
    refresh_args.push(load);
    assert(exprs_view(refresh_args@) =~= seq![expr_view(load)]);
    let refresh = instruction_call_expr(Instruction::QueryRefresh, refresh_args);
    let ghost av = expr_view(assign);
    let wrapped = Expression::Parens { expr: Box::new(assign) };
    assert(expr_view(wrapped) == SExpr::Parens { expr: Box::new(av) });
    Expression::BinaryOp { operator: BinaryOperator::And, lhs: Box::new(refresh), rhs: Box::new(wrapped), source_span: None }
}

/// The update statement of one query.
fn query_update_statement(q: &R3QueryMetadata) -> (r: Statement)
    ensures
        stmt_view(r) == query_update_stmt(query_view(*q)),
{
    if q.is_signal {
        let no_args: Vec<Expression> = Vec::new();
        assert(exprs_view(no_args@) =~= Seq::<SExpr>::empty());
        Statement::Expression { expr: Box::new(instruction_call_expr(Instruction::QueryAdvance, no_args)) }
    } else {
        Statement::Expression { expr: Box::new(refresh_expression(q)) }
    }
}

/// The update block of the query function.
fn query_update_statements(qs: &Vec<R3QueryMetadata>) -> (r: Vec<Statement>)
    ensures
        stmts_view(r@) == query_update_stmts(queries_view(qs@)),
{
    let ghost qv = queries_view(qs@);
    let mut any_plain = false;
    let mut j: usize = 0;
    while j < qs.len()
        invariant
            j <= qs.len(),
            qv == queries_view(qs@),
            any_plain == (exists|k: int| 0 <= k < j && !(#[trigger] qv[k]).is_signal),
        decreases qs.len() - j,
    {
        assert(qv[j as int] == query_view(qs@[j as int]));
        if !qs[j].is_signal {
            any_plain = true;
        }
        j += 1;
    }
    let mut out: Vec<Statement> = Vec::new();
    let ghost head: Seq<SStmt> = if has_non_signal(qv) {
        seq![temp_decl()]
    } else {
        Seq::empty()
    };
    if any_plain {
        let d = Statement::DeclareVar { name: "_t".to_string(), value: None, modifiers: StmtModifier::Plain, source_span: None };
        proof {
            lemma_stmts_view_push(out@, d);
        }
        out.push(d);
    }
    proof {
        assert(stmts_view(out@) =~= head);
    }
    let mut i: usize = 0;
    while i < qs.len()
        invariant
            i <= qs.len(),
            qv == queries_view(qs@),
            stmts_view(out@) == head + qv.take(i as int).map_values(|q: SQuery| query_update_stmt(q)),
        decreases qs.len() - i,
    {
        let st = query_update_statement(&qs[i]);
        proof {
            assert(qv[i as int] == query_view(qs@[i as int]));
            lemma_stmts_view_push(out@, st);
        }
        out.push(st);
        proof {
            assert(qv.take(i as int + 1).map_values(|q: SQuery| query_update_stmt(q)) =~= qv.take(i as int).map_values(
                |q: SQuery| query_update_stmt(q),
            ).push(query_update_stmt(qv[i as int])));
        }
        i += 1;
    }
    proof {
        assert(qv.take(qs.len() as int) =~= qv);
    }
    out
}

/// `if (rf & n) { stmts }`, where there are statements.
fn push_rf_block(body: &mut Vec<Statement>, n: i64, stmts: Vec<Statement>)
    ensures
        stmts_view(final(body)@) == stmts_view(old(body)@) + rf_block(n as int, stmts_view(stmts@)),
{
    proof {
        lemma_stmts_view_len(stmts@);
    }
    if stmts.len() > 0 {
        let no_else: Vec<Statement> = Vec::new();
        assert(stmts_view(no_else@) =~= Seq::<SStmt>::empty());
        let st = Statement::IfStmt { condition: Box::new(rf_test(n)), true_case: stmts, false_case: no_else };
        proof {
            lemma_stmts_view_push(body@, st);
        }
        body.push(st);
        assert(stmts_view(body@) =~= stmts_view(old(body)@) + rf_block(n as int, stmts_view(stmts@)));
    } else {
        assert(stmts_view(body@) =~= stmts_view(old(body)@) + rf_block(n as int, stmts_view(stmts@)));
    }
}

/// The view query function `<component>_Query(rf, ctx)` of a component's view queries: its
/// creation block (`rf & 1`) creates the queries in order, chaining the calls of queries that
/// are not signal-based; its update block (`rf & 2`) declares `_t` where some query is not
/// signal-based and then refreshes each query in order. A block without statements is left out.
pub fn emit_view_query_function(view_queries: &Vec<R3QueryMetadata>, component_name: &str) -> (r: Expression)
    ensures
        expr_view(r) == spec_view_query_fn(queries_view(view_queries@), component_name@),
{
    let name = component_name.to_string().concat("_Query");
    let create = query_create_statements(view_queries);
    let update = query_update_statements(view_queries);
    let mut body: Vec<Statement> = Vec::new();
    assert(stmts_view(body@) =~= Seq::<SStmt>::empty());
    push_rf_block(&mut body, 1, create);
    push_rf_block(&mut body, 2, update);
    let mut params: Vec<FnParam> = Vec::new();
    params.push(FnParam { name: "rf".to_string() });
    params.push(FnParam { name: "ctx".to_string() });
    assert(params_view(params@) =~= seq!["rf"@, "ctx"@]);
    Expression::Fn { name: Some(name), params, statements: body }
}

} // verus!
