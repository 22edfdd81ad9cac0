//! The output expression and statement model that the pipeline produces.

use vstd::prelude::*;
use crate::parse_util::{ParseSourceSpan, SpecSpan, opt_span_view, opt_string_view, clone_opt_span};

verus! {

/// Identifies an IR entity (a view, an element, a temporary, a pipe).
#[derive(Debug, Clone, Copy, PartialEq, Eq, Hash, Structural)]
pub struct XrefId {
    pub id: u64,
}

/// A literal value. Integral numbers are held exactly; any other number is held by the
/// IEEE-754 bit pattern of its double value.
#[allow(inconsistent_fields)]
#[derive(Debug)]
pub enum LiteralValue {
    Null,
    Bool(bool),
    Integer(i64),
    Number(u64),
    String(String),
}

#[derive(Debug, Clone, Copy, PartialEq, Eq, Structural)]
#[allow(inconsistent_fields)]
pub enum BinaryOperator {
    And,
    Bigger,
    BiggerEquals,
    BitwiseOr,
    BitwiseAnd,
    Divide,
    Assign,
    Equals,
    Identical,
    Lower,
    LowerEquals,
    Minus,
    Modulo,
    Exponentiation,
    Multiply,
    NotEquals,
    NotIdentical,
    NullishCoalesce,
    Or,
    Plus,
    In,
    AdditionAssignment,
    SubtractionAssignment,
    MultiplicationAssignment,
    DivisionAssignment,
    RemainderAssignment,
    ExponentiationAssignment,
    AndAssignment,
    OrAssignment,
    NullishCoalesceAssignment,
}

#[derive(Debug, Clone, Copy, PartialEq, Eq, Structural)]
#[allow(inconsistent_fields)]
pub enum UnaryOperator {
    Minus,
    Plus,
}

/// A reference to an exported symbol of a module.
#[derive(Debug)]
pub struct ExternalReference {
    pub name: Option<String>,
    pub module_name: Option<String>,
}

#[derive(Debug)]
pub struct LiteralExpr {
    pub value: LiteralValue,
    pub source_span: Option<ParseSourceSpan>,
}

#[derive(Debug)]
pub struct LiteralArrayExpr {
    pub entries: Vec<Expression>,
    pub source_span: Option<ParseSourceSpan>,
}

#[derive(Debug)]
pub struct LiteralMapEntry {
    pub key: String,
    pub value: Box<Expression>,
    pub quoted: bool,
}

#[derive(Debug)]
pub struct TemplateLiteralElement {
    pub text: String,
    pub raw_text: String,
    pub source_span: Option<ParseSourceSpan>,
}

#[derive(Debug)]
pub struct FnParam {
    pub name: String,
}

/// Output expressions, together with the IR-only expressions that phases resolve before emission.
#[allow(inconsistent_fields)]
#[derive(Debug)]
pub enum Expression {
    Literal(LiteralExpr),
    LiteralArray(LiteralArrayExpr),
    LiteralMap { entries: Vec<LiteralMapEntry>, source_span: Option<ParseSourceSpan> },
    ReadVar { name: String, source_span: Option<ParseSourceSpan> },
    ReadProp { receiver: Box<Expression>, name: String, source_span: Option<ParseSourceSpan> },
    ReadKey { receiver: Box<Expression>, index: Box<Expression>, source_span: Option<ParseSourceSpan> },
    BinaryOp {
        operator: BinaryOperator,
        lhs: Box<Expression>,
        rhs: Box<Expression>,
        source_span: Option<ParseSourceSpan>,
    },
    Unary { operator: UnaryOperator, expr: Box<Expression>, source_span: Option<ParseSourceSpan> },
    Conditional {
        condition: Box<Expression>,
        true_case: Box<Expression>,
        false_case: Option<Box<Expression>>,
        source_span: Option<ParseSourceSpan>,
    },
    InvokeFn {
        fn_: Box<Expression>,
        args: Vec<Expression>,
        source_span: Option<ParseSourceSpan>,
        pure: bool,
    },
    NotExpr { condition: Box<Expression>, source_span: Option<ParseSourceSpan> },
    TypeOf { expr: Box<Expression> },
    Void { expr: Box<Expression>, source_span: Option<ParseSourceSpan> },
    External { value: ExternalReference, source_span: Option<ParseSourceSpan> },
    Fn { name: Option<String>, params: Vec<FnParam>, statements: Vec<Statement> },
    TemplateLiteral { elements: Vec<TemplateLiteralElement>, expressions: Vec<Expression> },
    TaggedTemplate {
        tag: Box<Expression>,
        elements: Vec<TemplateLiteralElement>,
        expressions: Vec<Expression>,
        source_span: Option<ParseSourceSpan>,
    },
    LexicalRead { name: String, source_span: Option<ParseSourceSpan> },
    Context { view: XrefId },
    Empty { source_span: Option<ParseSourceSpan> },
    SafePropertyRead { receiver: Box<Expression>, name: String },
    SafeKeyedRead { receiver: Box<Expression>, index: Box<Expression>, source_span: Option<ParseSourceSpan> },
    SafeInvokeFunction { receiver: Box<Expression>, args: Vec<Expression> },
    PipeBinding { target: XrefId, name: String, args: Vec<Expression> },
    SafeTernary { guard: Box<Expression>, expr: Box<Expression> },
    AssignTemporary { expr: Box<Expression>, xref: XrefId },
    ReadTemporary { xref: XrefId },
    Parens { expr: Box<Expression> },
}

/// How a declared variable may be reassigned: a plain variable, or a final one.
#[derive(Debug, Clone, Copy, PartialEq, Eq, Structural)]
pub enum StmtModifier {
    Plain,
    Final,
}

/// Output statements.
#[allow(inconsistent_fields)]
#[derive(Debug)]
pub enum Statement {
    Expression { expr: Box<Expression> },
    Return { value: Box<Expression> },
    IfStmt { condition: Box<Expression>, true_case: Vec<Statement>, false_case: Vec<Statement> },
    DeclareVar {
        name: String,
        value: Option<Box<Expression>>,
        modifiers: StmtModifier,
        source_span: Option<ParseSourceSpan>,
    },
}

// ---------------------------------------------------------------------------------------------
// Mathematical values
// ---------------------------------------------------------------------------------------------

#[allow(inconsistent_fields)]
pub enum SLit {
    Null,
    Bool(bool),
    Integer(int),
    Number(u64),
    String(Seq<char>),
}

pub struct SRef {
    pub name: Option<Seq<char>>,
    pub module_name: Option<Seq<char>>,
}

pub struct SMapEntry {
    pub key: Seq<char>,
    pub value: SExpr,
    pub quoted: bool,
}

pub struct STplElement {
    pub text: Seq<char>,
    pub raw_text: Seq<char>,
    pub source_span: Option<SpecSpan>,
}

/// The mathematical value of an expression.
#[allow(inconsistent_fields)]
pub enum SExpr {
    Literal { value: SLit, source_span: Option<SpecSpan> },
    LiteralArray { entries: Seq<SExpr>, source_span: Option<SpecSpan> },
    LiteralMap { entries: Seq<SMapEntry>, source_span: Option<SpecSpan> },
    ReadVar { name: Seq<char>, source_span: Option<SpecSpan> },
    ReadProp { receiver: Box<SExpr>, name: Seq<char>, source_span: Option<SpecSpan> },
    ReadKey { receiver: Box<SExpr>, index: Box<SExpr>, source_span: Option<SpecSpan> },
    BinaryOp { operator: BinaryOperator, lhs: Box<SExpr>, rhs: Box<SExpr>, source_span: Option<SpecSpan> },
    Unary { operator: UnaryOperator, expr: Box<SExpr>, source_span: Option<SpecSpan> },
    Conditional {
        condition: Box<SExpr>,
        true_case: Box<SExpr>,
        false_case: Option<Box<SExpr>>,
        source_span: Option<SpecSpan>,
    },
    InvokeFn { fn_: Box<SExpr>, args: Seq<SExpr>, source_span: Option<SpecSpan>, pure: bool },
    NotExpr { condition: Box<SExpr>, source_span: Option<SpecSpan> },
    TypeOf { expr: Box<SExpr> },
    Void { expr: Box<SExpr>, source_span: Option<SpecSpan> },
    External { value: SRef, source_span: Option<SpecSpan> },
    Fn { name: Option<Seq<char>>, params: Seq<Seq<char>>, statements: Seq<SStmt> },
    TemplateLiteral { elements: Seq<STplElement>, expressions: Seq<SExpr> },
    TaggedTemplate {
        tag: Box<SExpr>,
        elements: Seq<STplElement>,
        expressions: Seq<SExpr>,
        source_span: Option<SpecSpan>,
    },
    LexicalRead { name: Seq<char>, source_span: Option<SpecSpan> },
    Context { view: XrefId },
    Empty { source_span: Option<SpecSpan> },
    SafePropertyRead { receiver: Box<SExpr>, name: Seq<char> },
    SafeKeyedRead { receiver: Box<SExpr>, index: Box<SExpr>, source_span: Option<SpecSpan> },
    SafeInvokeFunction { receiver: Box<SExpr>, args: Seq<SExpr> },
    PipeBinding { target: XrefId, name: Seq<char>, args: Seq<SExpr> },
    SafeTernary { guard: Box<SExpr>, expr: Box<SExpr> },
    AssignTemporary { expr: Box<SExpr>, xref: XrefId },
    ReadTemporary { xref: XrefId },
    Parens { expr: Box<SExpr> },
}

/// The mathematical value of a statement.
#[allow(inconsistent_fields)]
pub enum SStmt {
    Expression { expr: SExpr },
    Return { value: SExpr },
    IfStmt { condition: SExpr, true_case: Seq<SStmt>, false_case: Seq<SStmt> },
    DeclareVar { name: Seq<char>, value: Option<SExpr>, modifiers: StmtModifier, source_span: Option<SpecSpan> },
}

impl View for LiteralValue {
    type V = SLit;

    open spec fn view(&self) -> SLit {
        match self {
            LiteralValue::Null => SLit::Null,
            LiteralValue::Bool(b) => SLit::Bool(*b),
            LiteralValue::Integer(i) => SLit::Integer(*i as int),
            LiteralValue::Number(n) => SLit::Number(*n),
            LiteralValue::String(s) => SLit::String(s@),
        }
    }
}

impl View for ExternalReference {
    type V = SRef;

    open spec fn view(&self) -> SRef {
        SRef { name: opt_string_view(self.name), module_name: opt_string_view(self.module_name) }
    }
}

impl View for TemplateLiteralElement {
    type V = STplElement;

    open spec fn view(&self) -> STplElement {
        STplElement {
            text: self.text@,
            raw_text: self.raw_text@,
            source_span: opt_span_view(self.source_span),
        }
    }
}

pub open spec fn tpl_elements_view(s: Seq<TemplateLiteralElement>) -> Seq<STplElement> {
    s.map_values(|e: TemplateLiteralElement| e@)
}

pub open spec fn params_view(s: Seq<FnParam>) -> Seq<Seq<char>> {
    s.map_values(|p: FnParam| p.name@)
}

/// The value of an expression.
pub open spec fn expr_view(e: Expression) -> SExpr
    decreases e,
{
    match e {
        Expression::Literal(l) => SExpr::Literal {
            value: l.value@,
            source_span: opt_span_view(l.source_span),
        },
        Expression::LiteralArray(a) => SExpr::LiteralArray {
            entries: exprs_view(a.entries@),
            source_span: opt_span_view(a.source_span),
        },
        Expression::LiteralMap { entries, source_span } => SExpr::LiteralMap {
            entries: map_entries_view(entries@),
            source_span: opt_span_view(source_span),
        },
        Expression::ReadVar { name, source_span } => SExpr::ReadVar {
            name: name@,
            source_span: opt_span_view(source_span),
        },
        Expression::ReadProp { receiver, name, source_span } => SExpr::ReadProp {
            receiver: Box::new(expr_view(*receiver)),
            name: name@,
            source_span: opt_span_view(source_span),
        },
        Expression::ReadKey { receiver, index, source_span } => SExpr::ReadKey {
            receiver: Box::new(expr_view(*receiver)),
            index: Box::new(expr_view(*index)),
            source_span: opt_span_view(source_span),
        },
        Expression::BinaryOp { operator, lhs, rhs, source_span } => SExpr::BinaryOp {
            operator,
            lhs: Box::new(expr_view(*lhs)),
            rhs: Box::new(expr_view(*rhs)),
            source_span: opt_span_view(source_span),
        },
        Expression::Unary { operator, expr, source_span } => SExpr::Unary {
            operator,
            expr: Box::new(expr_view(*expr)),
            source_span: opt_span_view(source_span),
        },
        Expression::Conditional { condition, true_case, false_case, source_span } =>
            SExpr::Conditional {
            condition: Box::new(expr_view(*condition)),
            true_case: Box::new(expr_view(*true_case)),
            false_case: match false_case {
                Some(f) => Some(Box::new(expr_view(*f))),
                None => None,
            },
            source_span: opt_span_view(source_span),
        },
        Expression::InvokeFn { fn_, args, source_span, pure } => SExpr::InvokeFn {
            fn_: Box::new(expr_view(*fn_)),
            args: exprs_view(args@),
            source_span: opt_span_view(source_span),
            pure,
        },
        Expression::NotExpr { condition, source_span } => SExpr::NotExpr {
            condition: Box::new(expr_view(*condition)),
            source_span: opt_span_view(source_span),
        },
        Expression::TypeOf { expr } => SExpr::TypeOf { expr: Box::new(expr_view(*expr)) },
        Expression::Void { expr, source_span } => SExpr::Void {
            expr: Box::new(expr_view(*expr)),
            source_span: opt_span_view(source_span),
        },
        Expression::External { value, source_span } => SExpr::External {
            value: value@,
            source_span: opt_span_view(source_span),
        },
        Expression::Fn { name, params, statements } => SExpr::Fn {
            name: opt_string_view(name),
            params: params_view(params@),
            statements: stmts_view(statements@),
        },
        Expression::TemplateLiteral { elements, expressions } => SExpr::TemplateLiteral {
            elements: tpl_elements_view(elements@),
            expressions: exprs_view(expressions@),
        },
        Expression::TaggedTemplate { tag, elements, expressions, source_span } =>
            SExpr::TaggedTemplate {
            tag: Box::new(expr_view(*tag)),
            elements: tpl_elements_view(elements@),
            expressions: exprs_view(expressions@),
            source_span: opt_span_view(source_span),
        },
        Expression::LexicalRead { name, source_span } => SExpr::LexicalRead {
            name: name@,
            source_span: opt_span_view(source_span),
        },
        Expression::Context { view } => SExpr::Context { view },
        Expression::Empty { source_span } => SExpr::Empty { source_span: opt_span_view(source_span) },
        Expression::SafePropertyRead { receiver, name } => SExpr::SafePropertyRead {
            receiver: Box::new(expr_view(*receiver)),
            name: name@,
        },
        Expression::SafeKeyedRead { receiver, index, source_span } => SExpr::SafeKeyedRead {
            receiver: Box::new(expr_view(*receiver)),
            index: Box::new(expr_view(*index)),
            source_span: opt_span_view(source_span),
        },
        Expression::SafeInvokeFunction { receiver, args } => SExpr::SafeInvokeFunction {
            receiver: Box::new(expr_view(*receiver)),
            args: exprs_view(args@),
        },
        Expression::PipeBinding { target, name, args } => SExpr::PipeBinding {
            target,
            name: name@,
            args: exprs_view(args@),
        },
        Expression::SafeTernary { guard, expr } => SExpr::SafeTernary {
            guard: Box::new(expr_view(*guard)),
            expr: Box::new(expr_view(*expr)),
        },
        Expression::AssignTemporary { expr, xref } => SExpr::AssignTemporary {
            expr: Box::new(expr_view(*expr)),
            xref,
        },
        Expression::ReadTemporary { xref } => SExpr::ReadTemporary { xref },
        Expression::Parens { expr } => SExpr::Parens { expr: Box::new(expr_view(*expr)) },
    }
}

/// The values of a sequence of expressions.
pub open spec fn exprs_view(s: Seq<Expression>) -> Seq<SExpr>
    decreases s,
{
    if s.len() == 0 {
        Seq::empty()
    } else {
        exprs_view(s.drop_last()).push(expr_view(s.last()))
    }
}

pub open spec fn map_entries_view(s: Seq<LiteralMapEntry>) -> Seq<SMapEntry>
    decreases s,
{
    if s.len() == 0 {
        Seq::empty()
    } else {
        let e = s.last();
        map_entries_view(s.drop_last()).push(
            SMapEntry { key: e.key@, value: expr_view(*e.value), quoted: e.quoted },
        )
    }
}

/// The value of a statement.
pub open spec fn stmt_view(s: Statement) -> SStmt
    decreases s,
{
    match s {
        Statement::Expression { expr } => SStmt::Expression { expr: expr_view(*expr) },
        Statement::Return { value } => SStmt::Return { value: expr_view(*value) },
        Statement::IfStmt { condition, true_case, false_case } => SStmt::IfStmt {
            condition: expr_view(*condition),
            true_case: stmts_view(true_case@),
            false_case: stmts_view(false_case@),
        },
        Statement::DeclareVar { name, value, modifiers, source_span } => SStmt::DeclareVar {
            name: name@,
            value: match value {
                Some(v) => Some(expr_view(*v)),
                None => None,
            },
            modifiers,
            source_span: opt_span_view(source_span),
        },
    }
}

pub open spec fn stmts_view(s: Seq<Statement>) -> Seq<SStmt>
    decreases s,
{
    if s.len() == 0 {
        Seq::empty()
    } else {
        stmts_view(s.drop_last()).push(stmt_view(s.last()))
    }
}

impl View for Expression {
    type V = SExpr;

    open spec fn view(&self) -> SExpr {
        expr_view(*self)
    }
}

impl View for Statement {
    type V = SStmt;

    open spec fn view(&self) -> SStmt {
        stmt_view(*self)
    }
}

} // verus!

verus! {

pub proof fn lemma_exprs_view_push(s: Seq<Expression>, e: Expression)
    ensures
        exprs_view(s.push(e)) == exprs_view(s).push(expr_view(e)),
{
    assert(s.push(e).drop_last() =~= s);
}

pub proof fn lemma_exprs_view_len(s: Seq<Expression>)
    ensures
        exprs_view(s).len() == s.len(),
    decreases s.len(),
{
    if s.len() > 0 {
        lemma_exprs_view_len(s.drop_last());
    }
}

pub proof fn lemma_exprs_view_index(s: Seq<Expression>, i: int)
    requires
        0 <= i < s.len(),
    ensures
        exprs_view(s)[i] == expr_view(s[i]),
        exprs_view(s).len() == s.len(),
    decreases s.len(),
{
    lemma_exprs_view_len(s);
    if i < s.len() - 1 {
        lemma_exprs_view_index(s.drop_last(), i);
    }
}

pub proof fn lemma_exprs_view_take(s: Seq<Expression>, i: int)
    requires
        0 <= i < s.len(),
    ensures
        exprs_view(s.take(i + 1)) == exprs_view(s.take(i)).push(expr_view(s[i])),
{
    assert(s.take(i + 1).drop_last() =~= s.take(i));
}

pub proof fn lemma_exprs_view_append(a: Seq<Expression>, b: Seq<Expression>)
    ensures
        exprs_view(a + b) == exprs_view(a) + exprs_view(b),
    decreases b.len(),
{
    if b.len() == 0 {
        assert(a + b =~= a);
        assert(exprs_view(b) =~= Seq::<SExpr>::empty());
        assert(exprs_view(a) + exprs_view(b) =~= exprs_view(a));
    } else {
        lemma_exprs_view_append(a, b.drop_last());
        assert((a + b).drop_last() =~= a + b.drop_last());
        assert((a + b).last() == b.last());
        assert(exprs_view(a) + exprs_view(b) =~= (exprs_view(a) + exprs_view(b.drop_last())).push(
            expr_view(b.last()),
        ));
    }
}

pub proof fn lemma_stmts_view_push(s: Seq<Statement>, e: Statement)
    ensures
        stmts_view(s.push(e)) == stmts_view(s).push(stmt_view(e)),
{
    assert(s.push(e).drop_last() =~= s);
}

pub proof fn lemma_stmts_view_len(s: Seq<Statement>)
    ensures
        stmts_view(s).len() == s.len(),
    decreases s.len(),
{
    if s.len() > 0 {
        lemma_stmts_view_len(s.drop_last());
    }
}

pub proof fn lemma_stmts_view_index(s: Seq<Statement>, i: int)
    requires
        0 <= i < s.len(),
    ensures
        stmts_view(s)[i] == stmt_view(s[i]),
        stmts_view(s).len() == s.len(),
    decreases s.len(),
{
    lemma_stmts_view_len(s);
    if i < s.len() - 1 {
        lemma_stmts_view_index(s.drop_last(), i);
    }
}

pub proof fn lemma_stmts_view_take(s: Seq<Statement>, i: int)
    requires
        0 <= i < s.len(),
    ensures
        stmts_view(s.take(i + 1)) == stmts_view(s.take(i)).push(stmt_view(s[i])),
{
    assert(s.take(i + 1).drop_last() =~= s.take(i));
}

pub proof fn lemma_stmts_view_append(a: Seq<Statement>, b: Seq<Statement>)
    ensures
        stmts_view(a + b) == stmts_view(a) + stmts_view(b),
    decreases b.len(),
{
    if b.len() == 0 {
        assert(a + b =~= a);
        assert(stmts_view(b) =~= Seq::<SStmt>::empty());
        assert(stmts_view(a) + stmts_view(b) =~= stmts_view(a));
    } else {
        lemma_stmts_view_append(a, b.drop_last());
        assert((a + b).drop_last() =~= a + b.drop_last());
        assert(stmts_view(a) + stmts_view(b) =~= (stmts_view(a) + stmts_view(b.drop_last())).push(
            stmt_view(b.last()),
        ));
    }
}

pub fn clone_opt_string(s: &Option<String>) -> (r: Option<String>)
    ensures
        opt_string_view(r) == opt_string_view(*s),
{
    match s {
        Some(s) => Some(s.clone()),
        None => None,
    }
}

impl LiteralValue {
    pub fn clone_value(&self) -> (r: Self)
        ensures
            r@ == self@,
    {
        match self {
            LiteralValue::Null => LiteralValue::Null,
            LiteralValue::Bool(b) => LiteralValue::Bool(*b),
            LiteralValue::Integer(i) => LiteralValue::Integer(*i),
            LiteralValue::Number(n) => LiteralValue::Number(*n),
            LiteralValue::String(s) => LiteralValue::String(s.clone()),
        }
    }
}

impl ExternalReference {
    pub fn clone_ref(&self) -> (r: Self)
        ensures
            r@ == self@,
    {
        ExternalReference {
            name: clone_opt_string(&self.name),
            module_name: clone_opt_string(&self.module_name),
        }
    }
}

pub fn clone_tpl_elements(v: &Vec<TemplateLiteralElement>) -> (r: Vec<TemplateLiteralElement>)
    ensures
        tpl_elements_view(r@) == tpl_elements_view(v@),
{
    let mut r: Vec<TemplateLiteralElement> = Vec::new();
    let mut i: usize = 0;
    while i < v.len()
        invariant
            i <= v.len(),
            r@.len() == i,
            forall|j: int| 0 <= j < i ==> r@[j]@ == v@[j]@,
        decreases v.len() - i,
    {
        let e = &v[i];
        r.push(
            TemplateLiteralElement {
                text: e.text.clone(),
                raw_text: e.raw_text.clone(),
                source_span: clone_opt_span(&e.source_span),
            },
        );
        i += 1;
    }
    assert(tpl_elements_view(r@) =~= tpl_elements_view(v@));
    r
}

pub fn clone_params(v: &Vec<FnParam>) -> (r: Vec<FnParam>)
    ensures
        params_view(r@) == params_view(v@),
{
    let mut r: Vec<FnParam> = Vec::new();
    let mut i: usize = 0;
    while i < v.len()
        invariant
            i <= v.len(),
            r@.len() == i,
            forall|j: int| 0 <= j < i ==> r@[j].name@ == v@[j].name@,
        decreases v.len() - i,
    {
        r.push(FnParam { name: v[i].name.clone() });
        i += 1;
    }
    assert(params_view(r@) =~= params_view(v@));
    r
}

pub fn clone_map_entries(v: &Vec<LiteralMapEntry>) -> (r: Vec<LiteralMapEntry>)
    ensures
        map_entries_view(r@) == map_entries_view(v@),
    decreases v,
{
    let mut r: Vec<LiteralMapEntry> = Vec::new();
    let mut i: usize = 0;
    while i < v.len()
        invariant
            i <= v.len(),
            map_entries_view(r@) == map_entries_view(v@.take(i as int)),
        decreases v.len() - i,
    {
        let e = &v[i];
        let value = clone_expr(&e.value);
        let ghost before = r@;
        r.push(LiteralMapEntry { key: e.key.clone(), value: Box::new(value), quoted: e.quoted });
        proof {
            assert(r@.drop_last() =~= before);
            assert(v@.take(i + 1).drop_last() =~= v@.take(i as int));
        }
        i += 1;
    }
    assert(v@.take(v.len() as int) =~= v@);
    r
}

pub fn clone_exprs(v: &Vec<Expression>) -> (r: Vec<Expression>)
    ensures
        exprs_view(r@) == exprs_view(v@),
    decreases v,
{
    let mut r: Vec<Expression> = Vec::new();
    let mut i: usize = 0;
    while i < v.len()
        invariant
            i <= v.len(),
            exprs_view(r@) == exprs_view(v@.take(i as int)),
        decreases v.len() - i,
    {
        let e = clone_expr(&v[i]);
        let ghost before = r@;
        r.push(e);
        proof {
            lemma_exprs_view_push(before, e);
            lemma_exprs_view_take(v@, i as int);
        }
        i += 1;
    }
    assert(v@.take(v.len() as int) =~= v@);
    r
}

pub fn clone_stmts(v: &Vec<Statement>) -> (r: Vec<Statement>)
    ensures
        stmts_view(r@) == stmts_view(v@),
    decreases v,
{
    let mut r: Vec<Statement> = Vec::new();
    let mut i: usize = 0;
    while i < v.len()
        invariant
            i <= v.len(),
            stmts_view(r@) == stmts_view(v@.take(i as int)),
        decreases v.len() - i,
    {
        let e = clone_stmt(&v[i]);
        let ghost before = r@;
        r.push(e);
        proof {
            lemma_stmts_view_push(before, e);
            lemma_stmts_view_take(v@, i as int);
        }
        i += 1;
    }
    assert(v@.take(v.len() as int) =~= v@);
    r
}

/// A structurally equal copy of a statement.
pub fn clone_stmt(s: &Statement) -> (r: Statement)
    ensures
        stmt_view(r) == stmt_view(*s),
    decreases s,
{
    match s {
        Statement::Expression { expr } => Statement::Expression { expr: Box::new(clone_expr(expr)) },
        Statement::Return { value } => Statement::Return { value: Box::new(clone_expr(value)) },
        Statement::IfStmt { condition, true_case, false_case } => Statement::IfStmt {
            condition: Box::new(clone_expr(condition)),
            true_case: clone_stmts(true_case),
            false_case: clone_stmts(false_case),
        },
        Statement::DeclareVar { name, value, modifiers, source_span } => Statement::DeclareVar {
            name: name.clone(),
            value: match value {
                Some(v) => Some(Box::new(clone_expr(v))),
                None => None,
            },
            modifiers: *modifiers,
            source_span: crate::parse_util::clone_opt_span(source_span),
        },
    }
}

/// A structurally equal copy of an expression.
pub fn clone_expr(e: &Expression) -> (r: Expression)
    ensures
        expr_view(r) == expr_view(*e),
    decreases e,
{
    match e {
        Expression::Literal(l) => Expression::Literal(
            LiteralExpr { value: l.value.clone_value(), source_span: clone_opt_span(&l.source_span) },
        ),
        Expression::LiteralArray(a) => Expression::LiteralArray(
            LiteralArrayExpr {
                entries: clone_exprs(&a.entries),
                source_span: clone_opt_span(&a.source_span),
            },
        ),
        Expression::LiteralMap { entries, source_span } => Expression::LiteralMap {
            entries: clone_map_entries(entries),
            source_span: clone_opt_span(source_span),
        },
        Expression::ReadVar { name, source_span } => Expression::ReadVar {
            name: name.clone(),
            source_span: clone_opt_span(source_span),
        },
        Expression::ReadProp { receiver, name, source_span } => Expression::ReadProp {
            receiver: Box::new(clone_expr(receiver)),
            name: name.clone(),
            source_span: clone_opt_span(source_span),
        },
        Expression::ReadKey { receiver, index, source_span } => Expression::ReadKey {
            receiver: Box::new(clone_expr(receiver)),
            index: Box::new(clone_expr(index)),
            source_span: clone_opt_span(source_span),
        },
        Expression::BinaryOp { operator, lhs, rhs, source_span } => Expression::BinaryOp {
            operator: *operator,
            lhs: Box::new(clone_expr(lhs)),
            rhs: Box::new(clone_expr(rhs)),
            source_span: clone_opt_span(source_span),
        },
        Expression::Unary { operator, expr, source_span } => Expression::Unary {
            operator: *operator,
            expr: Box::new(clone_expr(expr)),
            source_span: clone_opt_span(source_span),
        },
        Expression::Conditional { condition, true_case, false_case, source_span } =>
            Expression::Conditional {
            condition: Box::new(clone_expr(condition)),
            true_case: Box::new(clone_expr(true_case)),
            false_case: match false_case {
                Some(f) => Some(Box::new(clone_expr(f))),
                None => None,
            },
            source_span: clone_opt_span(source_span),
        },
        Expression::InvokeFn { fn_, args, source_span, pure } => Expression::InvokeFn {
            fn_: Box::new(clone_expr(fn_)),
            args: clone_exprs(args),
            source_span: clone_opt_span(source_span),
            pure: *pure,
        },
        Expression::NotExpr { condition, source_span } => Expression::NotExpr {
            condition: Box::new(clone_expr(condition)),
            source_span: clone_opt_span(source_span),
        },
        Expression::TypeOf { expr } => Expression::TypeOf { expr: Box::new(clone_expr(expr)) },
        Expression::Void { expr, source_span } => Expression::Void {
            expr: Box::new(clone_expr(expr)),
            source_span: clone_opt_span(source_span),
        },
        Expression::External { value, source_span } => Expression::External {
            value: value.clone_ref(),
            source_span: clone_opt_span(source_span),
        },
        Expression::Fn { name, params, statements } => Expression::Fn {
            name: clone_opt_string(name),
            params: clone_params(params),
            statements: clone_stmts(statements),
        },
        Expression::TemplateLiteral { elements, expressions } => Expression::TemplateLiteral {
            elements: clone_tpl_elements(elements),
            expressions: clone_exprs(expressions),
        },
        Expression::TaggedTemplate { tag, elements, expressions, source_span } =>
            Expression::TaggedTemplate {
            tag: Box::new(clone_expr(tag)),
            elements: clone_tpl_elements(elements),
            expressions: clone_exprs(expressions),
            source_span: clone_opt_span(source_span),
        },
        Expression::LexicalRead { name, source_span } => Expression::LexicalRead {
            name: name.clone(),
            source_span: clone_opt_span(source_span),
        },
        Expression::Context { view } => Expression::Context { view: *view },
        Expression::Empty { source_span } => Expression::Empty {
            source_span: clone_opt_span(source_span),
        },
        Expression::SafePropertyRead { receiver, name } => Expression::SafePropertyRead {
            receiver: Box::new(clone_expr(receiver)),
            name: name.clone(),
        },
        Expression::SafeKeyedRead { receiver, index, source_span } => Expression::SafeKeyedRead {
            receiver: Box::new(clone_expr(receiver)),
            index: Box::new(clone_expr(index)),
            source_span: clone_opt_span(source_span),
        },
        Expression::SafeInvokeFunction { receiver, args } => Expression::SafeInvokeFunction {
            receiver: Box::new(clone_expr(receiver)),
            args: clone_exprs(args),
        },
        Expression::PipeBinding { target, name, args } => Expression::PipeBinding {
            target: *target,
            name: name.clone(),
            args: clone_exprs(args),
        },
        Expression::SafeTernary { guard, expr } => Expression::SafeTernary {
            guard: Box::new(clone_expr(guard)),
            expr: Box::new(clone_expr(expr)),
        },
        Expression::AssignTemporary { expr, xref } => Expression::AssignTemporary {
            expr: Box::new(clone_expr(expr)),
            xref: *xref,
        },
        Expression::ReadTemporary { xref } => Expression::ReadTemporary { xref: *xref },
        Expression::Parens { expr } => Expression::Parens { expr: Box::new(clone_expr(expr)) },
    }
}

} // verus!
