//! Any-cast deletion: calls of the template builtin `$any(x)` have no runtime effect, so each
//! one is replaced by its argument.

use vstd::prelude::*;
use crate::text::str_eq;
use crate::parse_util::clone_opt_span;
use crate::ir::{
    BindingExpression, CreateOp, Interpolation, SBindingExpr, SCreateOp, SInterpolation, SUpdateOp, UpdateOp,
    binding_expr_view, create_op_view, create_ops_view, interpolation_view, opt_expr_view, update_op_view,
    update_ops_view, lemma_create_ops_view_index, lemma_create_ops_view_len, lemma_create_ops_view_push,
    lemma_update_ops_view_index, lemma_update_ops_view_len, lemma_update_ops_view_push,
};
use crate::compilation::HostBindingCompilationJob;
use crate::component::{
    ComponentCompilationJob, ViewCompilationUnit, lemma_units_related_keys, lemma_units_related_push,
    restore_view_units, same_but_views, take_view_units, unit_keys, units_related, view_entries,
};
use crate::output::{
    Expression, LiteralArrayExpr, LiteralExpr, LiteralMapEntry, SExpr, SMapEntry, SStmt, Statement, expr_view,
    exprs_view, map_entries_view, stmt_view, stmts_view, clone_expr, clone_opt_string, clone_params,
    clone_tpl_elements, lemma_exprs_view_push, lemma_exprs_view_take, lemma_stmts_view_push, lemma_stmts_view_take,
};

verus! {

// ---------------------------------------------------------------------------------------------
// Expressions
// ---------------------------------------------------------------------------------------------

/// Whether an expression is a read of the builtin `$any`.
pub open spec fn is_any_read(e: SExpr) -> bool {
    e matches SExpr::LexicalRead { name, .. } && name == "$any"@
}

/// The expression with every call `$any(x)` replaced by `x`, innermost first: the parts of an
/// expression are stripped, and then, if it has become a call of `$any` with one argument, it is
/// replaced by that argument.
pub open spec fn strip_anys(e: SExpr) -> SExpr
    decreases e, 1nat,
{
    match e {
        SExpr::InvokeFn { fn_, args, source_span, pure } => {
            let f = strip_anys(*fn_);
            let a = strip_list(args);
            if is_any_read(f) && a.len() == 1 {
                a[0]
            } else {
                SExpr::InvokeFn { fn_: Box::new(f), args: a, source_span, pure }
            }
        },
        SExpr::LiteralArray { entries, source_span } => SExpr::LiteralArray { entries: strip_list(entries), source_span },
        SExpr::LiteralMap { entries, source_span } => SExpr::LiteralMap { entries: strip_entries(entries), source_span },
        SExpr::ReadProp { receiver, name, source_span } => SExpr::ReadProp {
            receiver: Box::new(strip_anys(*receiver)),
            name,
            source_span,
        },
        SExpr::ReadKey { receiver, index, source_span } => SExpr::ReadKey {
            receiver: Box::new(strip_anys(*receiver)),
            index: Box::new(strip_anys(*index)),
            source_span,
        },
        SExpr::BinaryOp { operator, lhs, rhs, source_span } => SExpr::BinaryOp {
            operator,
            lhs: Box::new(strip_anys(*lhs)),
            rhs: Box::new(strip_anys(*rhs)),
            source_span,
        },
        SExpr::Unary { operator, expr, source_span } => SExpr::Unary {
            operator,
            expr: Box::new(strip_anys(*expr)),
            source_span,
        },
        SExpr::Conditional { condition, true_case, false_case, source_span } => SExpr::Conditional {
            condition: Box::new(strip_anys(*condition)),
            true_case: Box::new(strip_anys(*true_case)),
            false_case: match false_case {
                Some(f) => Some(Box::new(strip_anys(*f))),
                None => None,
            },
            source_span,
        },
        SExpr::NotExpr { condition, source_span } => SExpr::NotExpr {
            condition: Box::new(strip_anys(*condition)),
            source_span,
        },
        SExpr::TypeOf { expr } => SExpr::TypeOf { expr: Box::new(strip_anys(*expr)) },
        SExpr::Void { expr, source_span } => SExpr::Void { expr: Box::new(strip_anys(*expr)), source_span },
        SExpr::Fn { name, params, statements } => SExpr::Fn { name, params, statements: strip_stmts(statements) },
        SExpr::TemplateLiteral { elements, expressions } => SExpr::TemplateLiteral {
            elements,
            expressions: strip_list(expressions),
        },
        SExpr::TaggedTemplate { tag, elements, expressions, source_span } => SExpr::TaggedTemplate {
            tag: Box::new(strip_anys(*tag)),
            elements,
            expressions: strip_list(expressions),
            source_span,
        },
        SExpr::SafePropertyRead { receiver, name } => SExpr::SafePropertyRead {
            receiver: Box::new(strip_anys(*receiver)),
            name,
        },
        SExpr::SafeKeyedRead { receiver, index, source_span } => SExpr::SafeKeyedRead {
            receiver: Box::new(strip_anys(*receiver)),
            index: Box::new(strip_anys(*index)),
            source_span,
        },
        SExpr::SafeInvokeFunction { receiver, args } => SExpr::SafeInvokeFunction {
            receiver: Box::new(strip_anys(*receiver)),
            args: strip_list(args),
        },
        SExpr::PipeBinding { target, name, args } => SExpr::PipeBinding { target, name, args: strip_list(args) },
        SExpr::SafeTernary { guard, expr } => SExpr::SafeTernary {
            guard: Box::new(strip_anys(*guard)),
            expr: Box::new(strip_anys(*expr)),
        },
        SExpr::AssignTemporary { expr, xref } => SExpr::AssignTemporary { expr: Box::new(strip_anys(*expr)), xref },
        _ => e,
    }
}

/// A list of expressions, each stripped.
pub open spec fn strip_list(s: Seq<SExpr>) -> Seq<SExpr>
    decreases s, 0nat,
{
    if s.len() == 0 {
        Seq::empty()
    } else {
        strip_list(s.drop_last()).push(strip_anys(s.last()))
    }
}

/// The entries of a literal map, each value stripped.
pub open spec fn strip_entries(s: Seq<SMapEntry>) -> Seq<SMapEntry>
    decreases s, 0nat,
{
    if s.len() == 0 {
        Seq::empty()
    } else {
        let e = s.last();
        strip_entries(s.drop_last()).push(SMapEntry { key: e.key, value: strip_anys(e.value), quoted: e.quoted })
    }
}

/// A list of statements, each stripped.
pub open spec fn strip_stmts(s: Seq<SStmt>) -> Seq<SStmt>
    decreases s, 0nat,
{
    if s.len() == 0 {
        Seq::empty()
    } else {
        strip_stmts(s.drop_last()).push(strip_stmt(s.last()))
    }
}

/// A statement with the expressions it holds stripped.
pub open spec fn strip_stmt(s: SStmt) -> SStmt
    decreases s, 1nat,
{
    match s {
        SStmt::Expression { expr } => SStmt::Expression { expr: strip_anys(expr) },
        SStmt::Return { value } => SStmt::Return { value: strip_anys(value) },
        SStmt::IfStmt { condition, true_case, false_case } => SStmt::IfStmt {
            condition: strip_anys(condition),
            true_case: strip_stmts(true_case),
            false_case: strip_stmts(false_case),
        },
        SStmt::DeclareVar { name, value, modifiers, source_span } => SStmt::DeclareVar {
            name,
            value: match value {
                Some(v) => Some(strip_anys(v)),
                None => None,
            },
            modifiers,
            source_span,
        },
    }
}

/// Whether every call of `$any` in an expression has exactly one argument.
pub open spec fn anys_ok(e: SExpr) -> bool
    decreases e, 1nat,
{
    match e {
        SExpr::InvokeFn { fn_, args, .. } => (is_any_read(strip_anys(*fn_)) ==> args.len() == 1) && anys_ok(*fn_)
            && anys_ok_list(args),
        SExpr::LiteralArray { entries, .. } => anys_ok_list(entries),
        SExpr::LiteralMap { entries, .. } => anys_ok_entries(entries),
        SExpr::ReadProp { receiver, .. } => anys_ok(*receiver),
        SExpr::ReadKey { receiver, index, .. } => anys_ok(*receiver) && anys_ok(*index),
        SExpr::BinaryOp { lhs, rhs, .. } => anys_ok(*lhs) && anys_ok(*rhs),
        SExpr::Unary { expr, .. } => anys_ok(*expr),
        SExpr::Conditional { condition, true_case, false_case, .. } => anys_ok(*condition) && anys_ok(*true_case)
            && match false_case {
            Some(f) => anys_ok(*f),
            None => true,
        },
        SExpr::NotExpr { condition, .. } => anys_ok(*condition),
        SExpr::TypeOf { expr } => anys_ok(*expr),
        SExpr::Void { expr, .. } => anys_ok(*expr),
        SExpr::Fn { statements, .. } => anys_ok_stmts(statements),
        SExpr::TemplateLiteral { expressions, .. } => anys_ok_list(expressions),
        SExpr::TaggedTemplate { tag, expressions, .. } => anys_ok(*tag) && anys_ok_list(expressions),
        SExpr::SafePropertyRead { receiver, .. } => anys_ok(*receiver),
        SExpr::SafeKeyedRead { receiver, index, .. } => anys_ok(*receiver) && anys_ok(*index),
        SExpr::SafeInvokeFunction { receiver, args } => anys_ok(*receiver) && anys_ok_list(args),
        SExpr::PipeBinding { args, .. } => anys_ok_list(args),
        SExpr::SafeTernary { guard, expr } => anys_ok(*guard) && anys_ok(*expr),
        SExpr::AssignTemporary { expr, .. } => anys_ok(*expr),
        _ => true,
    }
}

pub open spec fn anys_ok_list(s: Seq<SExpr>) -> bool
    decreases s, 0nat,
{
    if s.len() == 0 {
        true
    } else {
        anys_ok_list(s.drop_last()) && anys_ok(s.last())
    }
}

pub open spec fn anys_ok_entries(s: Seq<SMapEntry>) -> bool
    decreases s, 0nat,
{
    if s.len() == 0 {
        true
    } else {
        anys_ok_entries(s.drop_last()) && anys_ok(s.last().value)
    }
}

pub open spec fn anys_ok_stmts(s: Seq<SStmt>) -> bool
    decreases s, 0nat,
{
    if s.len() == 0 {
        true
    } else {
        anys_ok_stmts(s.drop_last()) && anys_ok_stmt(s.last())
    }
}

pub open spec fn anys_ok_stmt(s: SStmt) -> bool
    decreases s, 1nat,
{
    match s {
        SStmt::Expression { expr } => anys_ok(expr),
        SStmt::Return { value } => anys_ok(value),
        SStmt::IfStmt { condition, true_case, false_case } => anys_ok(condition) && anys_ok_stmts(true_case)
            && anys_ok_stmts(false_case),
        SStmt::DeclareVar { value, .. } => match value {
            Some(v) => anys_ok(v),
            None => true,
        },
    }
}

proof fn lemma_anys_ok_list_prefix(s: Seq<SExpr>, k: int)
    requires
        0 <= k <= s.len(),
        anys_ok_list(s),
    ensures
        anys_ok_list(s.take(k)),
        k < s.len() ==> anys_ok(s[k]),
    decreases s.len(),
{
    if k < s.len() {
        if k < s.len() - 1 {
            assert(s.drop_last().take(k) =~= s.take(k));
            assert(s.drop_last()[k] == s[k]);
            lemma_anys_ok_list_prefix(s.drop_last(), k);
        } else {
            assert(s.drop_last() =~= s.take(k));
        }
    } else {
        assert(s.take(k) =~= s);
    }
}

proof fn lemma_anys_ok_stmts_prefix(s: Seq<SStmt>, k: int)
    requires
        0 <= k <= s.len(),
        anys_ok_stmts(s),
    ensures
        anys_ok_stmts(s.take(k)),
        k < s.len() ==> anys_ok_stmt(s[k]),
    decreases s.len(),
{
    if k < s.len() {
        if k < s.len() - 1 {
            assert(s.drop_last().take(k) =~= s.take(k));
            assert(s.drop_last()[k] == s[k]);
            lemma_anys_ok_stmts_prefix(s.drop_last(), k);
        } else {
            assert(s.drop_last() =~= s.take(k));
        }
    } else {
        assert(s.take(k) =~= s);
    }
}

proof fn lemma_anys_ok_entries_prefix(s: Seq<SMapEntry>, k: int)
    requires
        0 <= k <= s.len(),
        anys_ok_entries(s),
    ensures
        anys_ok_entries(s.take(k)),
        k < s.len() ==> anys_ok(s[k].value),
    decreases s.len(),
{
    if k < s.len() {
        if k < s.len() - 1 {
            assert(s.drop_last().take(k) =~= s.take(k));
            assert(s.drop_last()[k] == s[k]);
            lemma_anys_ok_entries_prefix(s.drop_last(), k);
        } else {
            assert(s.drop_last() =~= s.take(k));
        }
    } else {
        assert(s.take(k) =~= s);
    }
}

/// Each expression of a list, stripped.
fn strip_vec(v: &Vec<Expression>) -> (r: Vec<Expression>)
    requires
        anys_ok_list(exprs_view(v@)),
    ensures
        exprs_view(r@) == strip_list(exprs_view(v@)),
    decreases v, 0nat,
{
    let mut r: Vec<Expression> = Vec::new();
    let mut i: usize = 0;
    proof {
        crate::output::lemma_exprs_view_len(v@);
        assert(v@.take(0) =~= Seq::<Expression>::empty());
        assert(exprs_view(r@) =~= Seq::<SExpr>::empty());
    }
    while i < v.len()
        invariant
            i <= v.len(),
            anys_ok_list(exprs_view(v@)),
            exprs_view(v@).len() == v@.len(),
            exprs_view(r@) == strip_list(exprs_view(v@.take(i as int))),
        decreases v.len() - i,
    {
        proof {
            crate::output::lemma_exprs_view_index(v@, i as int);
            lemma_anys_ok_list_prefix(exprs_view(v@), i as int);
        }
        let e = strip_expr(&v[i]);
        let ghost before = r@;
        r.push(e);
        proof {
            lemma_exprs_view_push(before, e);
            lemma_exprs_view_take(v@, i as int);
            let x = exprs_view(v@.take(i as int));
            assert(x.push(expr_view(v@[i as int])).drop_last() =~= x);
        }
        i += 1;
    }
    assert(v@.take(v.len() as int) =~= v@);
    r
}

/// Each value of a literal map's entries, stripped.
fn strip_map_entries(v: &Vec<LiteralMapEntry>) -> (r: Vec<LiteralMapEntry>)
    requires
        anys_ok_entries(map_entries_view(v@)),
    ensures
        map_entries_view(r@) == strip_entries(map_entries_view(v@)),
    decreases v, 0nat,
{
    let mut r: Vec<LiteralMapEntry> = Vec::new();
    let mut i: usize = 0;
    proof {
        assert(v@.take(0) =~= Seq::<LiteralMapEntry>::empty());
        assert(map_entries_view(r@) =~= Seq::<SMapEntry>::empty());
        lemma_map_entries_view_shape(v@);
    }
    while i < v.len()
        invariant
            i <= v.len(),
            anys_ok_entries(map_entries_view(v@)),
            map_entries_view(v@).len() == v@.len(),
            forall|j: int| 0 <= j < v@.len() ==> (#[trigger] map_entries_view(v@)[j]) == (SMapEntry {
                key: v@[j].key@,
                value: expr_view(*v@[j].value),
                quoted: v@[j].quoted,
            }),
            map_entries_view(r@) == strip_entries(map_entries_view(v@.take(i as int))),
        decreases v.len() - i,
    {
        proof {
            lemma_anys_ok_entries_prefix(map_entries_view(v@), i as int);
            assert(map_entries_view(v@)[i as int].value == expr_view(*v@[i as int].value));
        }
        let e = &v[i];
        let value = strip_expr(&e.value);
        let ghost before = r@;
        r.push(LiteralMapEntry { key: e.key.clone(), value: Box::new(value), quoted: e.quoted });
        proof {
            assert(r@.drop_last() =~= before);
            assert(v@.take(i + 1).drop_last() =~= v@.take(i as int));
            lemma_map_entries_view_shape(v@.take(i + 1));
            assert(v@.take(i + 1)[i as int] == v@[i as int]);
            let x = map_entries_view(v@.take(i + 1));
            assert(x.drop_last() == map_entries_view(v@.take(i as int)));
            assert(strip_entries(x) == strip_entries(x.drop_last()).push(
                SMapEntry { key: x.last().key, value: strip_anys(x.last().value), quoted: x.last().quoted },
            ));
        }
        i += 1;
    }
    assert(v@.take(v.len() as int) =~= v@);
    r
}

proof fn lemma_map_entries_view_shape(s: Seq<LiteralMapEntry>)
    ensures
        map_entries_view(s).len() == s.len(),
        forall|j: int| 0 <= j < s.len() ==> (#[trigger] map_entries_view(s)[j]) == (SMapEntry {
            key: s[j].key@,
            value: expr_view(*s[j].value),
            quoted: s[j].quoted,
        }),
    decreases s.len(),
{
    if s.len() > 0 {
        lemma_map_entries_view_shape(s.drop_last());
        assert forall|j: int| 0 <= j < s.len() implies (#[trigger] map_entries_view(s)[j]) == (SMapEntry {
            key: s[j].key@,
            value: expr_view(*s[j].value),
            quoted: s[j].quoted,
        }) by {
            if j < s.len() - 1 {
                assert(s.drop_last()[j] == s[j]);
            }
        }
    }
}

/// Each statement of a list, stripped.
fn strip_stmt_vec(v: &Vec<Statement>) -> (r: Vec<Statement>)
    requires
        anys_ok_stmts(stmts_view(v@)),
    ensures
        stmts_view(r@) == strip_stmts(stmts_view(v@)),
    decreases v, 0nat,
{
    let mut r: Vec<Statement> = Vec::new();
    let mut i: usize = 0;
    proof {
        crate::output::lemma_stmts_view_len(v@);
        assert(v@.take(0) =~= Seq::<Statement>::empty());
        assert(stmts_view(r@) =~= Seq::<SStmt>::empty());
    }
    while i < v.len()
        invariant
            i <= v.len(),
            anys_ok_stmts(stmts_view(v@)),
            stmts_view(v@).len() == v@.len(),
            stmts_view(r@) == strip_stmts(stmts_view(v@.take(i as int))),
        decreases v.len() - i,
    {
        proof {
            crate::output::lemma_stmts_view_index(v@, i as int);
            lemma_anys_ok_stmts_prefix(stmts_view(v@), i as int);
        }
        let e = strip_statement(&v[i]);
        let ghost before = r@;
        r.push(e);
        proof {
            lemma_stmts_view_push(before, e);
            lemma_stmts_view_take(v@, i as int);
            let x = stmts_view(v@.take(i as int));
            assert(x.push(stmt_view(v@[i as int])).drop_last() =~= x);
        }
        i += 1;
    }
    assert(v@.take(v.len() as int) =~= v@);
    r
}

/// A statement with the expressions it holds stripped.
pub fn strip_statement(s: &Statement) -> (r: Statement)
    requires
        anys_ok_stmt(stmt_view(*s)),
    ensures
        stmt_view(r) == strip_stmt(stmt_view(*s)),
    decreases s, 1nat,
{
    match s {
        Statement::Expression { expr } => Statement::Expression { expr: Box::new(strip_expr(expr)) },
        Statement::Return { value } => Statement::Return { value: Box::new(strip_expr(value)) },
        Statement::IfStmt { condition, true_case, false_case } => Statement::IfStmt {
            condition: Box::new(strip_expr(condition)),
            true_case: strip_stmt_vec(true_case),
            false_case: strip_stmt_vec(false_case),
        },
        Statement::DeclareVar { name, value, modifiers, source_span } => Statement::DeclareVar {
            name: name.clone(),
            value: match value {
                Some(v) => Some(Box::new(strip_expr(v))),
                None => None,
            },
            modifiers: *modifiers,
            source_span: clone_opt_span(source_span),
        },
    }
}

/// Whether an expression is a read of the builtin `$any`.
fn is_any_lexical_read(e: &Expression) -> (r: bool)
    ensures
        r == is_any_read(expr_view(*e)),
{
    match e {
        Expression::LexicalRead { name, .. } => str_eq(name.as_str(), "$any"),
        _ => false,
    }
}

proof fn lemma_strip_list_len(s: Seq<SExpr>)
    ensures
        strip_list(s).len() == s.len(),
    decreases s.len(),
{
    if s.len() > 0 {
        lemma_strip_list_len(s.drop_last());
    }
}

/// The expression with every call `$any(x)` replaced by `x`.
pub fn strip_expr(e: &Expression) -> (r: Expression)
    requires
        anys_ok(expr_view(*e)),
    ensures
        expr_view(r) == strip_anys(expr_view(*e)),
    decreases e, 1nat,
{
    match e {
        Expression::InvokeFn { fn_, args, source_span, pure } => {
            let f = strip_expr(fn_);
            let mut a = strip_vec(args);
            proof {
                crate::output::lemma_exprs_view_len(a@);
                lemma_strip_list_len(exprs_view(args@));
                crate::output::lemma_exprs_view_len(args@);
            }
            if is_any_lexical_read(&f) && a.len() == 1 {
                proof {
                    crate::output::lemma_exprs_view_index(a@, 0);
                }
                a.remove(0)
            } else {
                Expression::InvokeFn {
                    fn_: Box::new(f),
                    args: a,
                    source_span: clone_opt_span(source_span),
                    pure: *pure,
                }
            }
        },
        Expression::LiteralArray(a) => Expression::LiteralArray(
            LiteralArrayExpr { entries: strip_vec(&a.entries), source_span: clone_opt_span(&a.source_span) },
        ),
        Expression::LiteralMap { entries, source_span } => Expression::LiteralMap {
            entries: strip_map_entries(entries),
            source_span: clone_opt_span(source_span),
        },
        Expression::ReadProp { receiver, name, source_span } => Expression::ReadProp {
            receiver: Box::new(strip_expr(receiver)),
            name: name.clone(),
            source_span: clone_opt_span(source_span),
        },
        Expression::ReadKey { receiver, index, source_span } => Expression::ReadKey {
            receiver: Box::new(strip_expr(receiver)),
            index: Box::new(strip_expr(index)),
            source_span: clone_opt_span(source_span),
        },
        Expression::BinaryOp { operator, lhs, rhs, source_span } => Expression::BinaryOp {
            operator: *operator,
            lhs: Box::new(strip_expr(lhs)),
            rhs: Box::new(strip_expr(rhs)),
            source_span: clone_opt_span(source_span),
        },
        Expression::Unary { operator, expr, source_span } => Expression::Unary {
            operator: *operator,
            expr: Box::new(strip_expr(expr)),
            source_span: clone_opt_span(source_span),
        },
        Expression::Conditional { condition, true_case, false_case, source_span } => Expression::Conditional {
            condition: Box::new(strip_expr(condition)),
            true_case: Box::new(strip_expr(true_case)),
            false_case: match false_case {
                Some(f) => Some(Box::new(strip_expr(f))),
                None => None,
            },
            source_span: clone_opt_span(source_span),
        },
        Expression::NotExpr { condition, source_span } => Expression::NotExpr {
            condition: Box::new(strip_expr(condition)),
            source_span: clone_opt_span(source_span),
        },
        Expression::TypeOf { expr } => Expression::TypeOf { expr: Box::new(strip_expr(expr)) },
        Expression::Void { expr, source_span } => Expression::Void {
            expr: Box::new(strip_expr(expr)),
            source_span: clone_opt_span(source_span),
        },
        Expression::Fn { name, params, statements } => Expression::Fn {
            name: clone_opt_string(name),
            params: clone_params(params),
            statements: strip_stmt_vec(statements),
        },
        Expression::TemplateLiteral { elements, expressions } => Expression::TemplateLiteral {
            elements: clone_tpl_elements(elements),
            expressions: strip_vec(expressions),
        },
        Expression::TaggedTemplate { tag, elements, expressions, source_span } => Expression::TaggedTemplate {
            tag: Box::new(strip_expr(tag)),
            elements: clone_tpl_elements(elements),
            expressions: strip_vec(expressions),
            source_span: clone_opt_span(source_span),
        },
        Expression::SafePropertyRead { receiver, name } => Expression::SafePropertyRead {
            receiver: Box::new(strip_expr(receiver)),
            name: name.clone(),
        },
        Expression::SafeKeyedRead { receiver, index, source_span } => Expression::SafeKeyedRead {
            receiver: Box::new(strip_expr(receiver)),
            index: Box::new(strip_expr(index)),
            source_span: clone_opt_span(source_span),
        },
        Expression::SafeInvokeFunction { receiver, args } => Expression::SafeInvokeFunction {
            receiver: Box::new(strip_expr(receiver)),
            args: strip_vec(args),
        },
        Expression::PipeBinding { target, name, args } => Expression::PipeBinding {
            target: *target,
            name: name.clone(),
            args: strip_vec(args),
        },
        Expression::SafeTernary { guard, expr } => Expression::SafeTernary {
            guard: Box::new(strip_expr(guard)),
            expr: Box::new(strip_expr(expr)),
        },
        Expression::AssignTemporary { expr, xref } => Expression::AssignTemporary {
            expr: Box::new(strip_expr(expr)),
            xref: *xref,
        },
        _ => clone_expr(e),
    }
}

// ---------------------------------------------------------------------------------------------
// Operations
// ---------------------------------------------------------------------------------------------

/// A binding with its expressions stripped.
pub open spec fn strip_binding(b: SBindingExpr) -> SBindingExpr {
    match b {
        SBindingExpr::Expression(e) => SBindingExpr::Expression(strip_anys(e)),
        SBindingExpr::Interpolation(i) => SBindingExpr::Interpolation(strip_interpolation(i)),
    }
}

/// An interpolation with its expressions stripped.
pub open spec fn strip_interpolation(i: SInterpolation) -> SInterpolation {
    SInterpolation { strings: i.strings, expressions: strip_list(i.expressions), i18n_placeholders: i.i18n_placeholders }
}

/// An optional expression, stripped.
pub open spec fn strip_opt(e: Option<SExpr>) -> Option<SExpr> {
    match e {
        Some(x) => Some(strip_anys(x)),
        None => None,
    }
}

/// Whether the `$any` calls of a binding have one argument each.
pub open spec fn binding_ok(b: SBindingExpr) -> bool {
    match b {
        SBindingExpr::Expression(e) => anys_ok(e),
        SBindingExpr::Interpolation(i) => anys_ok_list(i.expressions),
    }
}

/// Whether the `$any` calls of an optional expression have one argument each.
pub open spec fn opt_ok(e: Option<SExpr>) -> bool {
    match e {
        Some(x) => anys_ok(x),
        None => true,
    }
}

/// Whether the `$any` calls that an update operation's expressions hold have one argument each.
pub open spec fn update_op_ok(op: SUpdateOp) -> bool {
    match op {
        SUpdateOp::Binding(b) => binding_ok(b.expression),
        SUpdateOp::Property(p) => binding_ok(p.expression) && opt_ok(p.sanitizer),
        SUpdateOp::Attribute(a) => binding_ok(a.expression) && opt_ok(a.sanitizer),
        SUpdateOp::StyleProp { expression, .. } => binding_ok(expression),
        SUpdateOp::ClassProp { expression, .. } => anys_ok(expression),
        SUpdateOp::StyleMap { expression, .. } => binding_ok(expression),
        SUpdateOp::ClassMap { expression, .. } => binding_ok(expression),
        SUpdateOp::TwoWayProperty { expression, .. } => anys_ok(expression),
        SUpdateOp::Control { expression, .. } => binding_ok(expression),
        SUpdateOp::InterpolateText { interpolation, .. } => anys_ok_list(interpolation.expressions),
        SUpdateOp::Statement(s) => anys_ok_stmt(s),
        _ => true,
    }
}

/// An update operation with the expressions it holds stripped; animation bindings and advances
/// are kept as they are.
pub open spec fn spec_strip_update_op(op: SUpdateOp) -> SUpdateOp {
    match op {
        SUpdateOp::Binding(b) => SUpdateOp::Binding(crate::ir::SBinding { expression: strip_binding(b.expression), ..b }),
        SUpdateOp::Property(p) => SUpdateOp::Property(
            crate::ir::SProperty { expression: strip_binding(p.expression), sanitizer: strip_opt(p.sanitizer), ..p },
        ),
        SUpdateOp::Attribute(a) => SUpdateOp::Attribute(
            crate::ir::SAttribute { expression: strip_binding(a.expression), sanitizer: strip_opt(a.sanitizer), ..a },
        ),
        SUpdateOp::StyleProp { target, name, expression, unit, source_span } => SUpdateOp::StyleProp {
            target,
            name,
            expression: strip_binding(expression),
            unit,
            source_span,
        },
        SUpdateOp::ClassProp { target, name, expression, source_span } => SUpdateOp::ClassProp {
            target,
            name,
            expression: strip_anys(expression),
            source_span,
        },
        SUpdateOp::StyleMap { target, expression } => SUpdateOp::StyleMap { target, expression: strip_binding(expression) },
        SUpdateOp::ClassMap { target, expression } => SUpdateOp::ClassMap { target, expression: strip_binding(expression) },
        SUpdateOp::TwoWayProperty { target, name, expression, security_context } => SUpdateOp::TwoWayProperty {
            target,
            name,
            expression: strip_anys(expression),
            security_context,
        },
        SUpdateOp::Control { target, expression, security_context } => SUpdateOp::Control {
            target,
            expression: strip_binding(expression),
            security_context,
        },
        SUpdateOp::InterpolateText { target, interpolation } => SUpdateOp::InterpolateText {
            target,
            interpolation: strip_interpolation(interpolation),
        },
        SUpdateOp::Statement(s) => SUpdateOp::Statement(strip_stmt(s)),
        _ => op,
    }
}

/// Whether the `$any` calls of a creation operation's expressions have one argument each.
pub open spec fn create_op_ok(op: SCreateOp) -> bool {
    match op {
        SCreateOp::ExtractedAttribute(e) => opt_ok(e.expression) && opt_ok(e.trusted_value_fn),
        _ => true,
    }
}

/// A creation operation with the expressions of an extracted attribute stripped; the other
/// creation operations, listeners included, are kept as they are.
pub open spec fn spec_strip_create_op(op: SCreateOp) -> SCreateOp {
    match op {
        SCreateOp::ExtractedAttribute(e) => SCreateOp::ExtractedAttribute(
            crate::ir::SExtracted {
                expression: strip_opt(e.expression),
                trusted_value_fn: strip_opt(e.trusted_value_fn),
                ..e
            },
        ),
        _ => op,
    }
}

fn strip_opt_expr(e: &Option<Expression>) -> (r: Option<Expression>)
    requires
        opt_ok(opt_expr_view(*e)),
    ensures
        opt_expr_view(r) == strip_opt(opt_expr_view(*e)),
{
    match e {
        Some(x) => Some(strip_expr(x)),
        None => None,
    }
}

fn strip_interp(i: Interpolation) -> (r: Interpolation)
    requires
        anys_ok_list(exprs_view(i.expressions@)),
    ensures
        interpolation_view(r) == strip_interpolation(interpolation_view(i)),
{
    let expressions = strip_vec(&i.expressions);
    Interpolation { strings: i.strings, expressions, i18n_placeholders: i.i18n_placeholders }
}

fn strip_binding_expr(b: BindingExpression) -> (r: BindingExpression)
    requires
        binding_ok(binding_expr_view(b)),
    ensures
        binding_expr_view(r) == strip_binding(binding_expr_view(b)),
{
    match b {
        BindingExpression::Expression(e) => BindingExpression::Expression(strip_expr(&e)),
        BindingExpression::Interpolation(i) => BindingExpression::Interpolation(strip_interp(i)),
    }
}

/// An update operation with the expressions it holds stripped.
fn strip_update_op(op: UpdateOp) -> (r: UpdateOp)
    requires
        update_op_ok(update_op_view(op)),
    ensures
        update_op_view(r) == spec_strip_update_op(update_op_view(op)),
{
    match op {
        UpdateOp::Binding(b) => {
            let mut b = b;
            let mut e = BindingExpression::Expression(Expression::Empty { source_span: None });
            std::mem::swap(&mut e, &mut b.expression);
            b.expression = strip_binding_expr(e);
            UpdateOp::Binding(b)
        },
        UpdateOp::Property(p) => {
            let mut p = p;
            let mut e = BindingExpression::Expression(Expression::Empty { source_span: None });
            std::mem::swap(&mut e, &mut p.expression);
            p.expression = strip_binding_expr(e);
            p.sanitizer = strip_opt_expr(&p.sanitizer);
            UpdateOp::Property(p)
        },
        UpdateOp::Attribute(a) => {
            let mut a = a;
            let mut e = BindingExpression::Expression(Expression::Empty { source_span: None });
            std::mem::swap(&mut e, &mut a.expression);
            a.expression = strip_binding_expr(e);
            a.sanitizer = strip_opt_expr(&a.sanitizer);
            UpdateOp::Attribute(a)
        },
        UpdateOp::StyleProp { target, name, expression, unit, source_span } => UpdateOp::StyleProp {
            target,
            name,
            expression: strip_binding_expr(expression),
            unit,
            source_span,
        },
        UpdateOp::ClassProp { target, name, expression, source_span } => UpdateOp::ClassProp {
            target,
            name,
            expression: strip_expr(&expression),
            source_span,
        },
        UpdateOp::StyleMap { target, expression } => UpdateOp::StyleMap { target, expression: strip_binding_expr(expression) },
        UpdateOp::ClassMap { target, expression } => UpdateOp::ClassMap { target, expression: strip_binding_expr(expression) },
        UpdateOp::TwoWayProperty { target, name, expression, security_context } => UpdateOp::TwoWayProperty {
            target,
            name,
            expression: strip_expr(&expression),
            security_context,
        },
        UpdateOp::Control { target, expression, security_context } => UpdateOp::Control {
            target,
            expression: strip_binding_expr(expression),
            security_context,
        },
        UpdateOp::InterpolateText { target, interpolation } => UpdateOp::InterpolateText {
            target,
            interpolation: strip_interp(interpolation),
        },
        UpdateOp::Statement(s) => UpdateOp::Statement(strip_statement(&s)),
        other => other,
    }
}

/// A creation operation with the expressions of an extracted attribute stripped.
fn strip_create_op(op: CreateOp) -> (r: CreateOp)
    requires
        create_op_ok(create_op_view(op)),
    ensures
        create_op_view(r) == spec_strip_create_op(create_op_view(op)),
{
    match op {
        CreateOp::ExtractedAttribute(e) => {
            let mut e = e;
            e.expression = strip_opt_expr(&e.expression);
            e.trusted_value_fn = strip_opt_expr(&e.trusted_value_fn);
            CreateOp::ExtractedAttribute(e)
        },
        other => other,
    }
}

/// Whether a host binding job's `$any` calls have one argument each, as deletion requires.
pub open spec fn job_anys_ok(job: HostBindingCompilationJob) -> bool {
    &&& forall|i: int| 0 <= i < job.root.update@.len() ==> update_op_ok(#[trigger] update_op_view(job.root.update@[i]))
    &&& forall|i: int| 0 <= i < job.root.create@.len() ==> create_op_ok(#[trigger] create_op_view(job.root.create@[i]))
}

/// Whether a view's `$any` calls have one argument each, as deletion requires.
pub open spec fn unit_anys_ok(create: Seq<CreateOp>, update: Seq<UpdateOp>) -> bool {
    &&& forall|i: int| 0 <= i < update.len() ==> update_op_ok(#[trigger] update_op_view(update[i]))
    &&& forall|i: int| 0 <= i < create.len() ==> create_op_ok(#[trigger] create_op_view(create[i]))
}

/// Delete the `$any` calls of one view's operations.
pub fn delete_any_casts_in_unit(create_list: &mut Vec<CreateOp>, update_list: &mut Vec<UpdateOp>)
    requires
        unit_anys_ok(old(create_list)@, old(update_list)@),
    ensures
        update_ops_view(final(update_list)@) == update_ops_view(old(update_list)@).map_values(
            |o: SUpdateOp| spec_strip_update_op(o),
        ),
        create_ops_view(final(create_list)@) == create_ops_view(old(create_list)@).map_values(
            |o: SCreateOp| spec_strip_create_op(o),
        ),
{
    let mut update: Vec<UpdateOp> = Vec::new();
    std::mem::swap(&mut update, update_list);
    let ghost u0 = update@;
    let ghost uv = update_ops_view(u0);
    proof {
        lemma_update_ops_view_len(u0);
    }
    let n = update.len();
    let mut out: Vec<UpdateOp> = Vec::new();
    let mut i: usize = 0;
    proof {
        assert(update_ops_view(out@) =~= uv.take(0).map_values(|o: SUpdateOp| spec_strip_update_op(o)));
    }
    while i < n
        invariant
            n == u0.len(),
            i <= n,
            update@ == u0.skip(i as int),
            uv == update_ops_view(u0),
            uv.len() == n,
            forall|k: int| 0 <= k < u0.len() ==> update_op_ok(#[trigger] update_op_view(u0[k])),
            update_ops_view(out@) == uv.take(i as int).map_values(|o: SUpdateOp| spec_strip_update_op(o)),
        decreases n - i,
    {
        let op = update.remove(0);
        assert(op == u0[i as int]);
        proof {
            lemma_update_ops_view_index(u0, i as int);
        }
        let r = strip_update_op(op);
        let ghost before = out@;
        out.push(r);
        proof {
            lemma_update_ops_view_push(before, r);
            assert(uv.take(i + 1).map_values(|o: SUpdateOp| spec_strip_update_op(o)) =~= uv.take(i as int).map_values(
                |o: SUpdateOp| spec_strip_update_op(o),
            ).push(spec_strip_update_op(uv[i as int])));
            assert(update@ =~= u0.skip(i + 1));
        }
        i += 1;
    }
    proof {
        assert(uv.take(n as int) =~= uv);
    }
    *update_list = out;

    let mut create: Vec<CreateOp> = Vec::new();
    std::mem::swap(&mut create, create_list);
    let ghost c0 = create@;
    let ghost cv = create_ops_view(c0);
    proof {
        lemma_create_ops_view_len(c0);
    }
    let m = create.len();
    let mut cout: Vec<CreateOp> = Vec::new();
    let mut j: usize = 0;
    proof {
        assert(create_ops_view(cout@) =~= cv.take(0).map_values(|o: SCreateOp| spec_strip_create_op(o)));
    }
    while j < m
        invariant
            m == c0.len(),
            j <= m,
            create@ == c0.skip(j as int),
            cv == create_ops_view(c0),
            cv.len() == m,
            forall|k: int| 0 <= k < c0.len() ==> create_op_ok(#[trigger] create_op_view(c0[k])),
            create_ops_view(cout@) == cv.take(j as int).map_values(|o: SCreateOp| spec_strip_create_op(o)),
        decreases m - j,
    {
        let op = create.remove(0);
        assert(op == c0[j as int]);
        proof {
            lemma_create_ops_view_index(c0, j as int);
        }
        let r = strip_create_op(op);
        let ghost before = cout@;
        cout.push(r);
        proof {
            lemma_create_ops_view_push(before, r);
            assert(cv.take(j + 1).map_values(|o: SCreateOp| spec_strip_create_op(o)) =~= cv.take(j as int).map_values(
                |o: SCreateOp| spec_strip_create_op(o),
            ).push(spec_strip_create_op(cv[j as int])));
            assert(create@ =~= c0.skip(j + 1));
        }
        j += 1;
    }
    proof {
        assert(cv.take(m as int) =~= cv);
    }
    *create_list = cout;
}

/// Delete the `$any` calls of a host binding job's operations. A call of `$any` must have
/// exactly one argument (the phase cannot proceed on another).
pub fn delete_any_casts(job: &mut HostBindingCompilationJob)
    requires
        job_anys_ok(*old(job)),
    ensures
        crate::phases::attribute_extraction::same_but_lists(*final(job), *old(job)),
        final(job).root.attributes == old(job).root.attributes,
        update_ops_view(final(job).root.update@) == update_ops_view(old(job).root.update@).map_values(
            |o: SUpdateOp| spec_strip_update_op(o),
        ),
        create_ops_view(final(job).root.create@) == create_ops_view(old(job).root.create@).map_values(
            |o: SCreateOp| spec_strip_create_op(o),
        ),
{
    delete_any_casts_in_unit(&mut job.root.create, &mut job.root.update);
}

/// A view after deleting its `$any` calls.
pub open spec fn any_cast_step(u: ViewCompilationUnit, v: ViewCompilationUnit) -> bool {
    &&& v.xref == u.xref
    &&& v.parent == u.parent
    &&& v.context_variables == u.context_variables
    &&& v.decls == u.decls
    &&& v.fn_name == u.fn_name
    &&& v.vars == u.vars
    &&& update_ops_view(v.update@) == update_ops_view(u.update@).map_values(|o: SUpdateOp| spec_strip_update_op(o))
    &&& create_ops_view(v.create@) == create_ops_view(u.create@).map_values(|o: SCreateOp| spec_strip_create_op(o))
}

/// The relation of each embedded view after the phase to the view before it.
pub open spec fn any_cast_rel() -> spec_fn(int, ViewCompilationUnit, ViewCompilationUnit) -> bool {
    |i: int, u: ViewCompilationUnit, v: ViewCompilationUnit| any_cast_step(u, v)
}

/// Whether every view of a component job has `$any` calls of one argument each.
pub open spec fn component_anys_ok(job: ComponentCompilationJob) -> bool {
    &&& unit_anys_ok(job.root.create@, job.root.update@)
    &&& forall|i: int| 0 <= i < view_entries(job.views).len() ==> unit_anys_ok(
        #[trigger] view_entries(job.views)[i].1.create@,
        view_entries(job.views)[i].1.update@,
    )
}

/// Delete the `$any` calls of every view of a component's template: the root view and each
/// embedded view.
pub fn delete_any_casts_in_component(job: &mut ComponentCompilationJob)
    requires
        component_anys_ok(*old(job)),
    ensures
        same_but_views(*final(job), *old(job)),
        any_cast_step(old(job).root, final(job).root),
        units_related(view_entries(old(job).views), view_entries(final(job).views), any_cast_rel()),
{
    delete_any_casts_in_unit(&mut job.root.create, &mut job.root.update);
    let ghost mid = *job;
    let mut units = take_view_units(job);
    let ghost all = units@;
    let n = units.len();
    let mut done: Vec<(u64, ViewCompilationUnit)> = Vec::new();
    let mut j: usize = 0;
    proof {
        assert(all.skip(0) =~= all);
        assert(all.take(0) =~= Seq::<(u64, ViewCompilationUnit)>::empty());
    }
    while j < n
        invariant
            n == all.len(),
            j <= n,
            all == view_entries(old(job).views),
            forall|i: int| 0 <= i < all.len() ==> unit_anys_ok(#[trigger] all[i].1.create@, all[i].1.update@),
            unit_keys(all).no_duplicates(),
            units@ == all.skip(j as int),
            units_related(all.take(j as int), done@, any_cast_rel()),
            view_entries(job.views) == Seq::<(u64, ViewCompilationUnit)>::empty(),
            same_but_views(*job, mid),
            job.root == mid.root,
        decreases n - j,
    {
        let ghost before = units@;
        let (k, mut u) = units.remove(0);
        let ghost u0 = u;
        proof {
            assert(before[0] == all[j as int]);
        }
        delete_any_casts_in_unit(&mut u.create, &mut u.update);
        proof {
            assert(any_cast_rel()(j as int, u0, u));
            lemma_units_related_push(all, done@, any_cast_rel(), j as int, k, u);
            assert(units@ =~= all.skip(j + 1));
        }
        done.push((k, u));
        j += 1;
    }
    proof {
        assert(all.take(n as int) =~= all);
        lemma_units_related_keys(all, done@, any_cast_rel());
    }
    restore_view_units(job, done);
}

// ---------------------------------------------------------------------------------------------
// What deletion guarantees
// ---------------------------------------------------------------------------------------------

/// Whether no part of an expression is a call of `$any`.
pub open spec fn no_anys(e: SExpr) -> bool
    decreases e, 1nat,
{
    match e {
        SExpr::InvokeFn { fn_, args, .. } => !is_any_read(*fn_) && no_anys(*fn_) && no_anys_list(args),
        SExpr::LiteralArray { entries, .. } => no_anys_list(entries),
        SExpr::LiteralMap { entries, .. } => no_anys_entries(entries),
        SExpr::ReadProp { receiver, .. } => no_anys(*receiver),
        SExpr::ReadKey { receiver, index, .. } => no_anys(*receiver) && no_anys(*index),
        SExpr::BinaryOp { lhs, rhs, .. } => no_anys(*lhs) && no_anys(*rhs),
        SExpr::Unary { expr, .. } => no_anys(*expr),
        SExpr::Conditional { condition, true_case, false_case, .. } => no_anys(*condition) && no_anys(*true_case)
            && match false_case {
            Some(f) => no_anys(*f),
            None => true,
        },
        SExpr::NotExpr { condition, .. } => no_anys(*condition),
        SExpr::TypeOf { expr } => no_anys(*expr),
        SExpr::Void { expr, .. } => no_anys(*expr),
        SExpr::Fn { statements, .. } => no_anys_stmts(statements),
        SExpr::TemplateLiteral { expressions, .. } => no_anys_list(expressions),
        SExpr::TaggedTemplate { tag, expressions, .. } => no_anys(*tag) && no_anys_list(expressions),
        SExpr::SafePropertyRead { receiver, .. } => no_anys(*receiver),
        SExpr::SafeKeyedRead { receiver, index, .. } => no_anys(*receiver) && no_anys(*index),
        SExpr::SafeInvokeFunction { receiver, args } => no_anys(*receiver) && no_anys_list(args),
        SExpr::PipeBinding { args, .. } => no_anys_list(args),
        SExpr::SafeTernary { guard, expr } => no_anys(*guard) && no_anys(*expr),
        SExpr::AssignTemporary { expr, .. } => no_anys(*expr),
        _ => true,
    }
}

pub open spec fn no_anys_list(s: Seq<SExpr>) -> bool
    decreases s, 0nat,
{
    if s.len() == 0 {
        true
    } else {
        no_anys_list(s.drop_last()) && no_anys(s.last())
    }
}

pub open spec fn no_anys_entries(s: Seq<SMapEntry>) -> bool
    decreases s, 0nat,
{
    if s.len() == 0 {
        true
    } else {
        no_anys_entries(s.drop_last()) && no_anys(s.last().value)
    }
}

pub open spec fn no_anys_stmts(s: Seq<SStmt>) -> bool
    decreases s, 0nat,
{
    if s.len() == 0 {
        true
    } else {
        no_anys_stmts(s.drop_last()) && no_anys_stmt(s.last())
    }
}

pub open spec fn no_anys_stmt(s: SStmt) -> bool
    decreases s, 1nat,
{
    match s {
        SStmt::Expression { expr } => no_anys(expr),
        SStmt::Return { value } => no_anys(value),
        SStmt::IfStmt { condition, true_case, false_case } => no_anys(condition) && no_anys_stmts(true_case)
            && no_anys_stmts(false_case),
        SStmt::DeclareVar { value, .. } => match value {
            Some(v) => no_anys(v),
            None => true,
        },
    }
}

/// Deleting the `$any` calls leaves none: no part of the result is a call of `$any`.
pub proof fn lemma_strip_leaves_no_anys(e: SExpr)
    requires
        anys_ok(e),
    ensures
        no_anys(strip_anys(e)),
    decreases e, 1nat,
{
    match e {
        SExpr::InvokeFn { fn_, args, .. } => {
            lemma_strip_leaves_no_anys(*fn_);
            lemma_strip_list_leaves_no_anys(args);
            lemma_strip_list_len(args);
            let a = strip_list(args);
            if is_any_read(strip_anys(*fn_)) && a.len() == 1 {
                assert(a.drop_last().len() == 0);
                assert(a.last() == a[0]);
            }
        },
        SExpr::LiteralArray { entries, .. } => lemma_strip_list_leaves_no_anys(entries),
        SExpr::LiteralMap { entries, .. } => lemma_strip_entries_leaves_no_anys(entries),
        SExpr::ReadProp { receiver, .. } => lemma_strip_leaves_no_anys(*receiver),
        SExpr::ReadKey { receiver, index, .. } => {
            lemma_strip_leaves_no_anys(*receiver);
            lemma_strip_leaves_no_anys(*index);
        },
        SExpr::BinaryOp { lhs, rhs, .. } => {
            lemma_strip_leaves_no_anys(*lhs);
            lemma_strip_leaves_no_anys(*rhs);
        },
        SExpr::Unary { expr, .. } => lemma_strip_leaves_no_anys(*expr),
        SExpr::Conditional { condition, true_case, false_case, .. } => {
            lemma_strip_leaves_no_anys(*condition);
            lemma_strip_leaves_no_anys(*true_case);
            match false_case {
                Some(f) => lemma_strip_leaves_no_anys(*f),
                None => {},
            }
        },
        SExpr::NotExpr { condition, .. } => lemma_strip_leaves_no_anys(*condition),
        SExpr::TypeOf { expr } => lemma_strip_leaves_no_anys(*expr),
        SExpr::Void { expr, .. } => lemma_strip_leaves_no_anys(*expr),
        SExpr::Fn { statements, .. } => lemma_strip_stmts_leaves_no_anys(statements),
        SExpr::TemplateLiteral { expressions, .. } => lemma_strip_list_leaves_no_anys(expressions),
        SExpr::TaggedTemplate { tag, expressions, .. } => {
            lemma_strip_leaves_no_anys(*tag);
            lemma_strip_list_leaves_no_anys(expressions);
        },
        SExpr::SafePropertyRead { receiver, .. } => lemma_strip_leaves_no_anys(*receiver),
        SExpr::SafeKeyedRead { receiver, index, .. } => {
            lemma_strip_leaves_no_anys(*receiver);
            lemma_strip_leaves_no_anys(*index);
        },
        SExpr::SafeInvokeFunction { receiver, args } => {
            lemma_strip_leaves_no_anys(*receiver);
            lemma_strip_list_leaves_no_anys(args);
        },
        SExpr::PipeBinding { args, .. } => lemma_strip_list_leaves_no_anys(args),
        SExpr::SafeTernary { guard, expr } => {
            lemma_strip_leaves_no_anys(*guard);
            lemma_strip_leaves_no_anys(*expr);
        },
        SExpr::AssignTemporary { expr, .. } => lemma_strip_leaves_no_anys(*expr),
        _ => {},
    }
}

proof fn lemma_strip_list_leaves_no_anys(s: Seq<SExpr>)
    requires
        anys_ok_list(s),
    ensures
        no_anys_list(strip_list(s)),
    decreases s, 0nat,
{
    if s.len() > 0 {
        lemma_strip_list_leaves_no_anys(s.drop_last());
        lemma_strip_leaves_no_anys(s.last());
        let x = strip_list(s.drop_last());
        assert(x.push(strip_anys(s.last())).drop_last() =~= x);
    }
}

proof fn lemma_strip_entries_leaves_no_anys(s: Seq<SMapEntry>)
    requires
        anys_ok_entries(s),
    ensures
        no_anys_entries(strip_entries(s)),
    decreases s, 0nat,
{
    if s.len() > 0 {
        lemma_strip_entries_leaves_no_anys(s.drop_last());
        lemma_strip_leaves_no_anys(s.last().value);
        let x = strip_entries(s.drop_last());
        let e = s.last();
        assert(x.push(SMapEntry { key: e.key, value: strip_anys(e.value), quoted: e.quoted }).drop_last() =~= x);
    }
}

proof fn lemma_strip_stmts_leaves_no_anys(s: Seq<SStmt>)
    requires
        anys_ok_stmts(s),
    ensures
        no_anys_stmts(strip_stmts(s)),
    decreases s, 0nat,
{
    if s.len() > 0 {
        lemma_strip_stmts_leaves_no_anys(s.drop_last());
        lemma_strip_stmt_leaves_no_anys(s.last());
        let x = strip_stmts(s.drop_last());
        assert(x.push(strip_stmt(s.last())).drop_last() =~= x);
    }
}

proof fn lemma_strip_stmt_leaves_no_anys(s: SStmt)
    requires
        anys_ok_stmt(s),
    ensures
        no_anys_stmt(strip_stmt(s)),
    decreases s, 1nat,
{
    match s {
        SStmt::Expression { expr } => lemma_strip_leaves_no_anys(expr),
        SStmt::Return { value } => lemma_strip_leaves_no_anys(value),
        SStmt::IfStmt { condition, true_case, false_case } => {
            lemma_strip_leaves_no_anys(condition);
            lemma_strip_stmts_leaves_no_anys(true_case);
            lemma_strip_stmts_leaves_no_anys(false_case);
        },
        SStmt::DeclareVar { value, .. } => match value {
            Some(v) => lemma_strip_leaves_no_anys(v),
            None => {},
        },
    }
}

/// An expression without calls of `$any` is left as it is.
pub proof fn lemma_strip_keeps_any_free(e: SExpr)
    requires
        no_anys(e),
    ensures
        strip_anys(e) == e,
    decreases e, 1nat,
{
    match e {
        SExpr::InvokeFn { fn_, args, .. } => {
            lemma_strip_keeps_any_free(*fn_);
            lemma_strip_list_keeps_any_free(args);
        },
        SExpr::LiteralArray { entries, .. } => lemma_strip_list_keeps_any_free(entries),
        SExpr::LiteralMap { entries, .. } => lemma_strip_entries_keeps_any_free(entries),
        SExpr::ReadProp { receiver, .. } => lemma_strip_keeps_any_free(*receiver),
        SExpr::ReadKey { receiver, index, .. } => {
            lemma_strip_keeps_any_free(*receiver);
            lemma_strip_keeps_any_free(*index);
        },
        SExpr::BinaryOp { lhs, rhs, .. } => {
            lemma_strip_keeps_any_free(*lhs);
            lemma_strip_keeps_any_free(*rhs);
        },
        SExpr::Unary { expr, .. } => lemma_strip_keeps_any_free(*expr),
        SExpr::Conditional { condition, true_case, false_case, .. } => {
            lemma_strip_keeps_any_free(*condition);
            lemma_strip_keeps_any_free(*true_case);
            match false_case {
                Some(f) => lemma_strip_keeps_any_free(*f),
                None => {},
            }
        },
        SExpr::NotExpr { condition, .. } => lemma_strip_keeps_any_free(*condition),
        SExpr::TypeOf { expr } => lemma_strip_keeps_any_free(*expr),
        SExpr::Void { expr, .. } => lemma_strip_keeps_any_free(*expr),
        SExpr::Fn { statements, .. } => lemma_strip_stmts_keeps_any_free(statements),
        SExpr::TemplateLiteral { expressions, .. } => lemma_strip_list_keeps_any_free(expressions),
        SExpr::TaggedTemplate { tag, expressions, .. } => {
            lemma_strip_keeps_any_free(*tag);
            lemma_strip_list_keeps_any_free(expressions);
        },
        SExpr::SafePropertyRead { receiver, .. } => lemma_strip_keeps_any_free(*receiver),
        SExpr::SafeKeyedRead { receiver, index, .. } => {
            lemma_strip_keeps_any_free(*receiver);
            lemma_strip_keeps_any_free(*index);
        },
        SExpr::SafeInvokeFunction { receiver, args } => {
            lemma_strip_keeps_any_free(*receiver);
            lemma_strip_list_keeps_any_free(args);
        },
        SExpr::PipeBinding { args, .. } => lemma_strip_list_keeps_any_free(args),
        SExpr::SafeTernary { guard, expr } => {
            lemma_strip_keeps_any_free(*guard);
            lemma_strip_keeps_any_free(*expr);
        },
        SExpr::AssignTemporary { expr, .. } => lemma_strip_keeps_any_free(*expr),
        _ => {},
    }
}

proof fn lemma_strip_list_keeps_any_free(s: Seq<SExpr>)
    requires
        no_anys_list(s),
    ensures
        strip_list(s) == s,
    decreases s, 0nat,
{
    if s.len() > 0 {
        lemma_strip_list_keeps_any_free(s.drop_last());
        lemma_strip_keeps_any_free(s.last());
        assert(s.drop_last().push(s.last()) =~= s);
    }
}

proof fn lemma_strip_entries_keeps_any_free(s: Seq<SMapEntry>)
    requires
        no_anys_entries(s),
    ensures
        strip_entries(s) == s,
    decreases s, 0nat,
{
    if s.len() > 0 {
        lemma_strip_entries_keeps_any_free(s.drop_last());
        lemma_strip_keeps_any_free(s.last().value);
        assert(s.drop_last().push(s.last()) =~= s);
    }
}

proof fn lemma_strip_stmts_keeps_any_free(s: Seq<SStmt>)
    requires
        no_anys_stmts(s),
    ensures
        strip_stmts(s) == s,
    decreases s, 0nat,
{
    if s.len() > 0 {
        lemma_strip_stmts_keeps_any_free(s.drop_last());
        lemma_strip_stmt_keeps_any_free(s.last());
        assert(s.drop_last().push(s.last()) =~= s);
    }
}

proof fn lemma_strip_stmt_keeps_any_free(s: SStmt)
    requires
        no_anys_stmt(s),
    ensures
        strip_stmt(s) == s,
    decreases s, 1nat,
{
    match s {
        SStmt::Expression { expr } => lemma_strip_keeps_any_free(expr),
        SStmt::Return { value } => lemma_strip_keeps_any_free(value),
        SStmt::IfStmt { condition, true_case, false_case } => {
            lemma_strip_keeps_any_free(condition);
            lemma_strip_stmts_keeps_any_free(true_case);
            lemma_strip_stmts_keeps_any_free(false_case);
        },
        SStmt::DeclareVar { value, .. } => match value {
            Some(v) => lemma_strip_keeps_any_free(v),
            None => {},
        },
    }
}

/// Deleting the `$any` calls a second time changes nothing.
pub proof fn lemma_strip_idempotent(e: SExpr)
    requires
        anys_ok(e),
    ensures
        strip_anys(strip_anys(e)) == strip_anys(e),
{
    lemma_strip_leaves_no_anys(e);
    lemma_strip_keeps_any_free(strip_anys(e));
}

} // verus!
