//! Equivalence of output expressions: the same structure and values, whatever their source
//! spans.

use vstd::prelude::*;
use crate::text::str_eq;
use crate::output::{
    Expression, ExternalReference, FnParam, LiteralMapEntry, LiteralValue, SExpr, SLit, SMapEntry, SStmt,
    STplElement, Statement, TemplateLiteralElement, expr_view, exprs_view, map_entries_view, params_view,
    stmt_view, stmts_view, tpl_elements_view, lemma_exprs_view_index, lemma_exprs_view_len,
    lemma_stmts_view_index, lemma_stmts_view_len,
};

verus! {

/// Whether two expressions are equivalent: of the same kind, with equivalent parts and equal
/// names, operators, values and flags; source spans, the names of functions and the quoting of
/// map keys are not compared.
pub open spec fn equiv(a: SExpr, b: SExpr) -> bool
    decreases a, 1nat,
{
    match a {
        SExpr::Literal { value: v, .. } => b matches SExpr::Literal { value: w, .. } && v == w,
        SExpr::LiteralArray { entries: x, .. } => b matches SExpr::LiteralArray { entries: y, .. } && equiv_list(x, y),
        SExpr::LiteralMap { entries: x, .. } => b matches SExpr::LiteralMap { entries: y, .. } && equiv_entries(x, y),
        SExpr::ReadVar { name: n, .. } => b matches SExpr::ReadVar { name: m, .. } && n == m,
        SExpr::ReadProp { receiver: r, name: n, .. } => b matches SExpr::ReadProp { receiver: s, name: m, .. } && n == m
            && equiv(*r, *s),
        SExpr::ReadKey { receiver: r, index: i, .. } => b matches SExpr::ReadKey { receiver: s, index: j, .. } && equiv(
            *r,
            *s,
        ) && equiv(*i, *j),
        SExpr::BinaryOp { operator: o, lhs: l, rhs: r, .. } => b matches SExpr::BinaryOp {
            operator: p,
            lhs: m,
            rhs: s,
            ..
        } && o == p && equiv(*l, *m) && equiv(*r, *s),
        SExpr::Unary { operator: o, expr: x, .. } => b matches SExpr::Unary { operator: p, expr: y, .. } && o == p
            && equiv(*x, *y),
        SExpr::Conditional { condition: c, true_case: t, false_case: f, .. } => b matches SExpr::Conditional {
            condition: d,
            true_case: u,
            false_case: g,
            ..
        } && equiv(*c, *d) && equiv(*t, *u) && match f {
            Some(f1) => g matches Some(g1) && equiv(*f1, *g1),
            None => g is None,
        },
        SExpr::InvokeFn { fn_: f, args: x, pure: p, .. } => b matches SExpr::InvokeFn { fn_: g, args: y, pure: q, .. }
            && p == q && equiv(*f, *g) && equiv_list(x, y),
        SExpr::NotExpr { condition: c, .. } => b matches SExpr::NotExpr { condition: d, .. } && equiv(*c, *d),
        SExpr::TypeOf { expr: x } => b matches SExpr::TypeOf { expr: y } && equiv(*x, *y),
        SExpr::Void { expr: x, .. } => b matches SExpr::Void { expr: y, .. } && equiv(*x, *y),
        SExpr::External { value: v, .. } => b matches SExpr::External { value: w, .. } && v == w,
        SExpr::Fn { params: p, statements: s, .. } => b matches SExpr::Fn { params: q, statements: t, .. } && p == q
            && equiv_stmts(s, t),
        SExpr::TemplateLiteral { elements: e, expressions: x } => b matches SExpr::TemplateLiteral {
            elements: f,
            expressions: y,
        } && texts(e) == texts(f) && equiv_list(x, y),
        SExpr::TaggedTemplate { tag: t, elements: e, expressions: x, .. } => b matches SExpr::TaggedTemplate {
            tag: u,
            elements: f,
            expressions: y,
            ..
        } && equiv(*t, *u) && texts(e) == texts(f) && equiv_list(x, y),
        SExpr::LexicalRead { name: n, .. } => b matches SExpr::LexicalRead { name: m, .. } && n == m,
        SExpr::Context { view: v } => b matches SExpr::Context { view: w } && v == w,
        SExpr::Empty { .. } => b is Empty,
        SExpr::SafePropertyRead { receiver: r, name: n } => b matches SExpr::SafePropertyRead { receiver: s, name: m }
            && n == m && equiv(*r, *s),
        SExpr::SafeKeyedRead { receiver: r, index: i, .. } => b matches SExpr::SafeKeyedRead {
            receiver: s,
            index: j,
            ..
        } && equiv(*r, *s) && equiv(*i, *j),
        SExpr::SafeInvokeFunction { receiver: r, args: x } => b matches SExpr::SafeInvokeFunction {
            receiver: s,
            args: y,
        } && equiv(*r, *s) && equiv_list(x, y),
        SExpr::PipeBinding { target: t, name: n, args: x } => b matches SExpr::PipeBinding { target: u, name: m, args: y }
            && t == u && n == m && equiv_list(x, y),
        SExpr::SafeTernary { guard: g, expr: x } => b matches SExpr::SafeTernary { guard: h, expr: y } && equiv(*g, *h)
            && equiv(*x, *y),
        SExpr::AssignTemporary { expr: x, xref: r } => b matches SExpr::AssignTemporary { expr: y, xref: s } && r == s
            && equiv(*x, *y),
        SExpr::ReadTemporary { xref: r } => b matches SExpr::ReadTemporary { xref: s } && r == s,
        SExpr::Parens { expr: x } => b matches SExpr::Parens { expr: y } && equiv(*x, *y),
    }
}

/// The texts of the elements of a template literal.
pub open spec fn texts(e: Seq<STplElement>) -> Seq<Seq<char>> {
    e.map_values(|x: STplElement| x.text)
}

/// Whether two lists of expressions are pairwise equivalent.
pub open spec fn equiv_list(x: Seq<SExpr>, y: Seq<SExpr>) -> bool
    decreases x, 0nat,
{
    x.len() == y.len() && (x.len() == 0 || (equiv_list(x.drop_last(), y.drop_last()) && equiv(x.last(), y.last())))
}

/// Whether two lists of map entries have equal keys and equivalent values, pairwise.
pub open spec fn equiv_entries(x: Seq<SMapEntry>, y: Seq<SMapEntry>) -> bool
    decreases x, 0nat,
{
    x.len() == y.len() && (x.len() == 0 || (equiv_entries(x.drop_last(), y.drop_last()) && entry_equiv(x.last(), y.last())))
}

/// Whether two map entries have equal keys and equivalent values.
pub open spec fn entry_equiv(a: SMapEntry, b: SMapEntry) -> bool
    decreases a, 1nat,
{
    a.key == b.key && equiv(a.value, b.value)
}

/// Whether two lists of statements are pairwise equivalent.
pub open spec fn equiv_stmts(x: Seq<SStmt>, y: Seq<SStmt>) -> bool
    decreases x, 0nat,
{
    x.len() == y.len() && (x.len() == 0 || (equiv_stmts(x.drop_last(), y.drop_last()) && equiv_stmt(x.last(), y.last())))
}

/// Whether two statements are equivalent.
pub open spec fn equiv_stmt(a: SStmt, b: SStmt) -> bool
    decreases a, 1nat,
{
    match a {
        SStmt::Expression { expr: x } => b matches SStmt::Expression { expr: y } && equiv(x, y),
        SStmt::Return { value: x } => b matches SStmt::Return { value: y } && equiv(x, y),
        SStmt::IfStmt { condition: c, true_case: t, false_case: f } => b matches SStmt::IfStmt {
            condition: d,
            true_case: u,
            false_case: g,
        } && equiv(c, d) && equiv_stmts(t, u) && equiv_stmts(f, g),
        SStmt::DeclareVar { name: n, value: v, .. } => b matches SStmt::DeclareVar { name: m, value: w, .. } && n == m && match v {
            Some(x) => w matches Some(y) && equiv(x, y),
            None => w is None,
        },
    }
}

proof fn lemma_equiv_list_iff(x: Seq<SExpr>, y: Seq<SExpr>)
    ensures
        equiv_list(x, y) <==> (x.len() == y.len() && forall|i: int| 0 <= i < x.len() ==> #[trigger] equiv(x[i], y[i])),
    decreases x.len(),
{
    if x.len() > 0 && x.len() == y.len() {
        lemma_equiv_list_iff(x.drop_last(), y.drop_last());
        if forall|i: int| 0 <= i < x.len() ==> #[trigger] equiv(x[i], y[i]) {
            assert forall|i: int| 0 <= i < x.drop_last().len() implies #[trigger] equiv(x.drop_last()[i], y.drop_last()[i]) by {
                assert(equiv(x[i], y[i]));
            }
            assert(equiv(x[x.len() - 1], y[y.len() - 1]));
        }
        if equiv_list(x, y) {
            assert forall|i: int| 0 <= i < x.len() implies #[trigger] equiv(x[i], y[i]) by {
                if i < x.len() - 1 {
                    assert(equiv(x.drop_last()[i], y.drop_last()[i]));
                }
            }
        }
    }
}

proof fn lemma_equiv_stmts_iff(x: Seq<SStmt>, y: Seq<SStmt>)
    ensures
        equiv_stmts(x, y) <==> (x.len() == y.len() && forall|i: int| 0 <= i < x.len() ==> #[trigger] equiv_stmt(x[i], y[i])),
    decreases x.len(),
{
    if x.len() > 0 && x.len() == y.len() {
        lemma_equiv_stmts_iff(x.drop_last(), y.drop_last());
        if forall|i: int| 0 <= i < x.len() ==> #[trigger] equiv_stmt(x[i], y[i]) {
            assert forall|i: int| 0 <= i < x.drop_last().len() implies #[trigger] equiv_stmt(x.drop_last()[i], y.drop_last()[i]) by {
                assert(equiv_stmt(x[i], y[i]));
            }
            assert(equiv_stmt(x[x.len() - 1], y[y.len() - 1]));
        }
        if equiv_stmts(x, y) {
            assert forall|i: int| 0 <= i < x.len() implies #[trigger] equiv_stmt(x[i], y[i]) by {
                if i < x.len() - 1 {
                    assert(equiv_stmt(x.drop_last()[i], y.drop_last()[i]));
                }
            }
        }
    }
}

proof fn lemma_equiv_entries_iff(x: Seq<SMapEntry>, y: Seq<SMapEntry>)
    ensures
        equiv_entries(x, y) <==> (x.len() == y.len() && forall|i: int| 0 <= i < x.len() ==> #[trigger] entry_equiv(x[i], y[i])),
    decreases x.len(),
{
    if x.len() > 0 && x.len() == y.len() {
        lemma_equiv_entries_iff(x.drop_last(), y.drop_last());
        if forall|i: int| 0 <= i < x.len() ==> #[trigger] entry_equiv(x[i], y[i]) {
            assert forall|i: int| 0 <= i < x.drop_last().len() implies #[trigger] entry_equiv(x.drop_last()[i], y.drop_last()[i]) by {
                assert(entry_equiv(x[i], y[i]));
            }
            assert(entry_equiv(x[x.len() - 1], y[y.len() - 1]));
        }
        if equiv_entries(x, y) {
            assert forall|i: int| 0 <= i < x.len() implies #[trigger] entry_equiv(x[i], y[i]) by {
                if i < x.len() - 1 {
                    assert(entry_equiv(x.drop_last()[i], y.drop_last()[i]));
                }
            }
        }
    }
}

proof fn lemma_map_entries_view_at(s: Seq<LiteralMapEntry>)
    ensures
        map_entries_view(s).len() == s.len(),
        forall|j: int| 0 <= j < s.len() ==> (#[trigger] map_entries_view(s)[j]) == (SMapEntry {
            key: s[j].key@,
            value: expr_view(*s[j].value),
            quoted: s[j].quoted,
        }),
    decreases s.len(),
{
    if s.len() > 0 {
        lemma_map_entries_view_at(s.drop_last());
        assert forall|j: int| 0 <= j < s.len() implies (#[trigger] map_entries_view(s)[j]) == (SMapEntry {
            key: s[j].key@,
            value: expr_view(*s[j].value),
            quoted: s[j].quoted,
        }) by {
            if j < s.len() - 1 {
                assert(s.drop_last()[j] == s[j]);
            }
        }
    }
}

/// Whether two literal values are equal.
fn same_literal(a: &LiteralValue, b: &LiteralValue) -> (r: bool)
    ensures
        r == (a@ == b@),
{
    match (a, b) {
        (LiteralValue::Null, LiteralValue::Null) => true,
        (LiteralValue::Bool(x), LiteralValue::Bool(y)) => *x == *y,
        (LiteralValue::Integer(x), LiteralValue::Integer(y)) => *x == *y,
        (LiteralValue::Number(x), LiteralValue::Number(y)) => *x == *y,
        (LiteralValue::String(x), LiteralValue::String(y)) => str_eq(x.as_str(), y.as_str()),
        _ => false,
    }
}

fn same_opt_string(a: &Option<String>, b: &Option<String>) -> (r: bool)
    ensures
        r == (crate::parse_util::opt_string_view(*a) == crate::parse_util::opt_string_view(*b)),
{
    match (a, b) {
        (Some(x), Some(y)) => str_eq(x.as_str(), y.as_str()),
        (None, None) => true,
        _ => false,
    }
}

/// Whether two references are equal.
fn same_reference(a: &ExternalReference, b: &ExternalReference) -> (r: bool)
    ensures
        r == (a@ == b@),
{
    same_opt_string(&a.name, &b.name) && same_opt_string(&a.module_name, &b.module_name)
}

/// Whether the elements of two template literals have the same texts.
fn same_texts(e: &Vec<TemplateLiteralElement>, f: &Vec<TemplateLiteralElement>) -> (r: bool)
    ensures
        r == (texts(tpl_elements_view(e@)) == texts(tpl_elements_view(f@))),
{
    let ghost te = texts(tpl_elements_view(e@));
    let ghost tf = texts(tpl_elements_view(f@));
    if e.len() != f.len() {
        assert(te.len() != tf.len());
        return false;
    }
    let mut i: usize = 0;
    while i < e.len()
        invariant
            e@.len() == f@.len(),
            i <= e@.len(),
            te == texts(tpl_elements_view(e@)),
            tf == texts(tpl_elements_view(f@)),
            forall|j: int| 0 <= j < i ==> te[j] == tf[j],
        decreases e@.len() - i,
    {
        if !str_eq(e[i].text.as_str(), f[i].text.as_str()) {
            assert(te[i as int] != tf[i as int]);
            return false;
        }
        i += 1;
    }
    assert(te =~= tf);
    true
}

/// Whether two lists of parameters have the same names.
fn same_params(p: &Vec<FnParam>, q: &Vec<FnParam>) -> (r: bool)
    ensures
        r == (params_view(p@) == params_view(q@)),
{
    let ghost vp = params_view(p@);
    let ghost vq = params_view(q@);
    if p.len() != q.len() {
        assert(vp.len() != vq.len());
        return false;
    }
    let mut i: usize = 0;
    while i < p.len()
        invariant
            p@.len() == q@.len(),
            i <= p@.len(),
            vp == params_view(p@),
            vq == params_view(q@),
            forall|j: int| 0 <= j < i ==> vp[j] == vq[j],
        decreases p@.len() - i,
    {
        if !str_eq(p[i].name.as_str(), q[i].name.as_str()) {
            assert(vp[i as int] != vq[i as int]);
            return false;
        }
        i += 1;
    }
    assert(vp =~= vq);
    true
}

/// Whether two lists of expressions are pairwise equivalent.
fn exprs_equivalent(x: &Vec<Expression>, y: &Vec<Expression>) -> (r: bool)
    ensures
        r == equiv_list(exprs_view(x@), exprs_view(y@)),
    decreases x, 0nat,
{
    proof {
        lemma_exprs_view_len(x@);
        lemma_exprs_view_len(y@);
        lemma_equiv_list_iff(exprs_view(x@), exprs_view(y@));
    }
    if x.len() != y.len() {
        return false;
    }
    let mut i: usize = 0;
    while i < x.len()
        invariant
            x@.len() == y@.len(),
            exprs_view(x@).len() == x@.len(),
            exprs_view(y@).len() == y@.len(),
            i <= x@.len(),
            equiv_list(exprs_view(x@), exprs_view(y@)) <==> (forall|j: int| 0 <= j < x@.len() ==> #[trigger] equiv(exprs_view(x@)[j], exprs_view(y@)[j])),
            forall|j: int| 0 <= j < i ==> #[trigger] equiv(exprs_view(x@)[j], exprs_view(y@)[j]),
        decreases x@.len() - i,
    {
        proof {
            lemma_exprs_view_index(x@, i as int);
            lemma_exprs_view_index(y@, i as int);
        }
        if !is_equivalent(&x[i], &y[i]) {
            return false;
        }
        i += 1;
    }
    true
}

/// Whether two lists of map entries have equal keys and equivalent values.
fn entries_equivalent(x: &Vec<LiteralMapEntry>, y: &Vec<LiteralMapEntry>) -> (r: bool)
    ensures
        r == equiv_entries(map_entries_view(x@), map_entries_view(y@)),
    decreases x, 0nat,
{
    proof {
        lemma_map_entries_view_at(x@);
        lemma_map_entries_view_at(y@);
        lemma_equiv_entries_iff(map_entries_view(x@), map_entries_view(y@));
    }
    if x.len() != y.len() {
        return false;
    }
    let ghost vx = map_entries_view(x@);
    let ghost vy = map_entries_view(y@);
    let mut i: usize = 0;
    while i < x.len()
        invariant
            x@.len() == y@.len(),
            vx == map_entries_view(x@),
            vy == map_entries_view(y@),
            vx.len() == x@.len(),
            vy.len() == y@.len(),
            forall|j: int| 0 <= j < x@.len() ==> (#[trigger] vx[j]) == (SMapEntry { key: x@[j].key@, value: expr_view(*x@[j].value), quoted: x@[j].quoted }),
            forall|j: int| 0 <= j < y@.len() ==> (#[trigger] vy[j]) == (SMapEntry { key: y@[j].key@, value: expr_view(*y@[j].value), quoted: y@[j].quoted }),
            i <= x@.len(),
            equiv_entries(vx, vy) <==> (forall|j: int| 0 <= j < x@.len() ==> #[trigger] entry_equiv(vx[j], vy[j])),
            forall|j: int| 0 <= j < i ==> #[trigger] entry_equiv(vx[j], vy[j]),
        decreases x@.len() - i,
    {
        assert(vx[i as int].key == x@[i as int].key@ && vy[i as int].key == y@[i as int].key@);
        assert(vx[i as int].value == expr_view(*x@[i as int].value) && vy[i as int].value == expr_view(*y@[i as int].value));
        if !str_eq(x[i].key.as_str(), y[i].key.as_str()) {
            assert(!entry_equiv(vx[i as int], vy[i as int]));
            return false;
        }
        if !is_equivalent(&x[i].value, &y[i].value) {
            assert(!entry_equiv(vx[i as int], vy[i as int]));
            return false;
        }
        i += 1;
    }
    true
}

/// Whether two lists of statements are pairwise equivalent.
fn stmts_equivalent(x: &Vec<Statement>, y: &Vec<Statement>) -> (r: bool)
    ensures
        r == equiv_stmts(stmts_view(x@), stmts_view(y@)),
    decreases x, 0nat,
{
    proof {
        lemma_stmts_view_len(x@);
        lemma_stmts_view_len(y@);
        lemma_equiv_stmts_iff(stmts_view(x@), stmts_view(y@));
    }
    if x.len() != y.len() {
        return false;
    }
    let mut i: usize = 0;
    while i < x.len()
        invariant
            x@.len() == y@.len(),
            stmts_view(x@).len() == x@.len(),
            stmts_view(y@).len() == y@.len(),
            i <= x@.len(),
            equiv_stmts(stmts_view(x@), stmts_view(y@)) <==> (forall|j: int| 0 <= j < x@.len() ==> #[trigger] equiv_stmt(stmts_view(x@)[j], stmts_view(y@)[j])),
            forall|j: int| 0 <= j < i ==> #[trigger] equiv_stmt(stmts_view(x@)[j], stmts_view(y@)[j]),
        decreases x@.len() - i,
    {
        proof {
            lemma_stmts_view_index(x@, i as int);
            lemma_stmts_view_index(y@, i as int);
        }
        if !stmt_equivalent(&x[i], &y[i]) {
            return false;
        }
        i += 1;
    }
    true
}

/// Whether two statements are equivalent.
pub fn stmt_equivalent(a: &Statement, b: &Statement) -> (r: bool)
    ensures
        r == equiv_stmt(stmt_view(*a), stmt_view(*b)),
    decreases a, 1nat,
{
    match (a, b) {
        (Statement::Expression { expr: x }, Statement::Expression { expr: y }) => is_equivalent(x, y),
        (Statement::Return { value: x }, Statement::Return { value: y }) => is_equivalent(x, y),
        (
            Statement::IfStmt { condition: c, true_case: t, false_case: f },
            Statement::IfStmt { condition: d, true_case: u, false_case: g },
        ) => is_equivalent(c, d) && stmts_equivalent(t, u) && stmts_equivalent(f, g),
        (Statement::DeclareVar { name: n, value: v, .. }, Statement::DeclareVar { name: m, value: w, .. }) => {
            str_eq(n.as_str(), m.as_str()) && match (v, w) {
                (Some(x), Some(y)) => is_equivalent(x, y),
                (None, None) => true,
                _ => false,
            }
        },
        _ => false,
    }
}

/// Whether two expressions are equivalent.
pub fn is_equivalent(a: &Expression, b: &Expression) -> (r: bool)
    ensures
        r == equiv(expr_view(*a), expr_view(*b)),
    decreases a, 1nat,
{
    match (a, b) {
        (Expression::Literal(x), Expression::Literal(y)) => same_literal(&x.value, &y.value),
        (Expression::LiteralArray(x), Expression::LiteralArray(y)) => exprs_equivalent(&x.entries, &y.entries),
        (Expression::LiteralMap { entries: x, .. }, Expression::LiteralMap { entries: y, .. }) => entries_equivalent(x, y),
        (Expression::ReadVar { name: n, .. }, Expression::ReadVar { name: m, .. }) => str_eq(n.as_str(), m.as_str()),
        (Expression::ReadProp { receiver: r, name: n, .. }, Expression::ReadProp { receiver: s, name: m, .. }) => str_eq(
            n.as_str(),
            m.as_str(),
        ) && is_equivalent(r, s),
        (Expression::ReadKey { receiver: r, index: i, .. }, Expression::ReadKey { receiver: s, index: j, .. }) =>
            is_equivalent(r, s) && is_equivalent(i, j),
        (
            Expression::BinaryOp { operator: o, lhs: l, rhs: r, .. },
            Expression::BinaryOp { operator: p, lhs: m, rhs: s, .. },
        ) => *o == *p && is_equivalent(l, m) && is_equivalent(r, s),
        (Expression::Unary { operator: o, expr: x, .. }, Expression::Unary { operator: p, expr: y, .. }) => *o == *p
            && is_equivalent(x, y),
        (
            Expression::Conditional { condition: c, true_case: t, false_case: f, .. },
            Expression::Conditional { condition: d, true_case: u, false_case: g, .. },
        ) => is_equivalent(c, d) && is_equivalent(t, u) && match (f, g) {
            (Some(f1), Some(g1)) => is_equivalent(f1, g1),
            (None, None) => true,
            _ => false,
        },
        (Expression::InvokeFn { fn_: f, args: x, pure: p, .. }, Expression::InvokeFn { fn_: g, args: y, pure: q, .. }) =>
            *p == *q && is_equivalent(f, g) && exprs_equivalent(x, y),
        (Expression::NotExpr { condition: c, .. }, Expression::NotExpr { condition: d, .. }) => is_equivalent(c, d),
        (Expression::TypeOf { expr: x }, Expression::TypeOf { expr: y }) => is_equivalent(x, y),
        (Expression::Void { expr: x, .. }, Expression::Void { expr: y, .. }) => is_equivalent(x, y),
        (Expression::External { value: v, .. }, Expression::External { value: w, .. }) => same_reference(v, w),
        (Expression::Fn { params: p, statements: s, .. }, Expression::Fn { params: q, statements: t, .. }) => same_params(
            p,
            q,
        ) && stmts_equivalent(s, t),
        (
            Expression::TemplateLiteral { elements: e, expressions: x },
            Expression::TemplateLiteral { elements: f, expressions: y },
        ) => same_texts(e, f) && exprs_equivalent(x, y),
        (
            Expression::TaggedTemplate { tag: t, elements: e, expressions: x, .. },
            Expression::TaggedTemplate { tag: u, elements: f, expressions: y, .. },
        ) => is_equivalent(t, u) && same_texts(e, f) && exprs_equivalent(x, y),
        (Expression::LexicalRead { name: n, .. }, Expression::LexicalRead { name: m, .. }) => str_eq(n.as_str(), m.as_str()),
        (Expression::Context { view: v }, Expression::Context { view: w }) => *v == *w,
        (Expression::Empty { .. }, Expression::Empty { .. }) => true,
        (Expression::SafePropertyRead { receiver: r, name: n }, Expression::SafePropertyRead { receiver: s, name: m }) =>
            str_eq(n.as_str(), m.as_str()) && is_equivalent(r, s),
        (
            Expression::SafeKeyedRead { receiver: r, index: i, .. },
            Expression::SafeKeyedRead { receiver: s, index: j, .. },
        ) => is_equivalent(r, s) && is_equivalent(i, j),
        (
            Expression::SafeInvokeFunction { receiver: r, args: x },
            Expression::SafeInvokeFunction { receiver: s, args: y },
        ) => is_equivalent(r, s) && exprs_equivalent(x, y),
        (
            Expression::PipeBinding { target: t, name: n, args: x },
            Expression::PipeBinding { target: u, name: m, args: y },
        ) => *t == *u && str_eq(n.as_str(), m.as_str()) && exprs_equivalent(x, y),
        (Expression::SafeTernary { guard: g, expr: x }, Expression::SafeTernary { guard: h, expr: y }) => is_equivalent(
            g,
            h,
        ) && is_equivalent(x, y),
        (Expression::AssignTemporary { expr: x, xref: r }, Expression::AssignTemporary { expr: y, xref: s }) => *r == *s
            && is_equivalent(x, y),
        (Expression::ReadTemporary { xref: r }, Expression::ReadTemporary { xref: s }) => *r == *s,
        (Expression::Parens { expr: x }, Expression::Parens { expr: y }) => is_equivalent(x, y),
        _ => false,
    }
}

/// Every expression is equivalent to itself.
pub proof fn lemma_equiv_reflexive(e: SExpr)
    ensures
        equiv(e, e),
    decreases e, 1nat,
{
    match e {
        SExpr::LiteralArray { entries, .. } => lemma_equiv_list_reflexive(entries),
        SExpr::LiteralMap { entries, .. } => lemma_equiv_entries_reflexive(entries),
        SExpr::ReadProp { receiver, .. } => lemma_equiv_reflexive(*receiver),
        SExpr::ReadKey { receiver, index, .. } => {
            lemma_equiv_reflexive(*receiver);
            lemma_equiv_reflexive(*index);
        },
        SExpr::BinaryOp { lhs, rhs, .. } => {
            lemma_equiv_reflexive(*lhs);
            lemma_equiv_reflexive(*rhs);
        },
        SExpr::Unary { expr, .. } => lemma_equiv_reflexive(*expr),
        SExpr::Conditional { condition, true_case, false_case, .. } => {
            lemma_equiv_reflexive(*condition);
            lemma_equiv_reflexive(*true_case);
            match false_case {
                Some(f) => lemma_equiv_reflexive(*f),
                None => {},
            }
        },
        SExpr::InvokeFn { fn_, args, .. } => {
            lemma_equiv_reflexive(*fn_);
            lemma_equiv_list_reflexive(args);
        },
        SExpr::NotExpr { condition, .. } => lemma_equiv_reflexive(*condition),
        SExpr::TypeOf { expr } => lemma_equiv_reflexive(*expr),
        SExpr::Void { expr, .. } => lemma_equiv_reflexive(*expr),
        SExpr::Fn { statements, .. } => lemma_equiv_stmts_reflexive(statements),
        SExpr::TemplateLiteral { expressions, .. } => lemma_equiv_list_reflexive(expressions),
        SExpr::TaggedTemplate { tag, expressions, .. } => {
            lemma_equiv_reflexive(*tag);
            lemma_equiv_list_reflexive(expressions);
        },
        SExpr::SafePropertyRead { receiver, .. } => lemma_equiv_reflexive(*receiver),
        SExpr::Parens { expr } => lemma_equiv_reflexive(*expr),
        SExpr::SafeKeyedRead { receiver, index, .. } => {
            lemma_equiv_reflexive(*receiver);
            lemma_equiv_reflexive(*index);
        },
        SExpr::SafeInvokeFunction { receiver, args } => {
            lemma_equiv_reflexive(*receiver);
            lemma_equiv_list_reflexive(args);
        },
        SExpr::PipeBinding { args, .. } => lemma_equiv_list_reflexive(args),
        SExpr::SafeTernary { guard, expr } => {
            lemma_equiv_reflexive(*guard);
            lemma_equiv_reflexive(*expr);
        },
        SExpr::AssignTemporary { expr, .. } => lemma_equiv_reflexive(*expr),
        _ => {},
    }
}

proof fn lemma_equiv_list_reflexive(s: Seq<SExpr>)
    ensures
        equiv_list(s, s),
    decreases s, 0nat,
{
    if s.len() > 0 {
        lemma_equiv_list_reflexive(s.drop_last());
        lemma_equiv_reflexive(s.last());
    }
}

proof fn lemma_equiv_entries_reflexive(s: Seq<SMapEntry>)
    ensures
        equiv_entries(s, s),
    decreases s, 0nat,
{
    if s.len() > 0 {
        lemma_equiv_entries_reflexive(s.drop_last());
        lemma_equiv_reflexive(s.last().value);
        assert(entry_equiv(s.last(), s.last()));
    }
}

proof fn lemma_equiv_stmts_reflexive(s: Seq<SStmt>)
    ensures
        equiv_stmts(s, s),
    decreases s, 0nat,
{
    if s.len() > 0 {
        lemma_equiv_stmts_reflexive(s.drop_last());
        lemma_equiv_stmt_reflexive(s.last());
    }
}

proof fn lemma_equiv_stmt_reflexive(s: SStmt)
    ensures
        equiv_stmt(s, s),
    decreases s, 1nat,
{
    match s {
        SStmt::Expression { expr } => lemma_equiv_reflexive(expr),
        SStmt::Return { value } => lemma_equiv_reflexive(value),
        SStmt::IfStmt { condition, true_case, false_case } => {
            lemma_equiv_reflexive(condition);
            lemma_equiv_stmts_reflexive(true_case);
            lemma_equiv_stmts_reflexive(false_case);
        },
        SStmt::DeclareVar { value, .. } => match value {
            Some(v) => lemma_equiv_reflexive(v),
            None => {},
        },
    }
}

} // verus!
