//! The parsed template-expression syntax that the pipeline ingests, and the parsed host
//! properties and events that carry it.

use vstd::prelude::*;
use crate::parse_util::{ParseSourceSpan, ParseSpan};

verus! {

/// A literal primitive of the template expression language.
#[allow(inconsistent_fields)]
#[derive(Debug)]
pub enum LiteralPrimitive {
    String { value: String, span: ParseSpan },
    /// An integral number, held exactly.
    Integer { value: i64, span: ParseSpan },
    /// Any other number, held by the IEEE-754 bit pattern of its double value.
    Number { bits: u64, span: ParseSpan },
    Boolean { value: bool, span: ParseSpan },
    Null { span: ParseSpan },
    Undefined { span: ParseSpan },
}

#[derive(Debug)]
pub struct LiteralMapKey {
    pub key: String,
    pub quoted: bool,
}

#[derive(Debug)]
pub struct TemplateLiteralElementAst {
    pub text: String,
    pub span: ParseSpan,
}

/// A template expression.
#[allow(inconsistent_fields)]
#[derive(Debug)]
pub enum Ast {
    LiteralPrimitive(LiteralPrimitive),
    Binary { operation: String, left: Box<Ast>, right: Box<Ast>, span: ParseSpan },
    Unary { operator: String, expr: Box<Ast>, span: ParseSpan },
    Conditional { condition: Box<Ast>, true_exp: Box<Ast>, false_exp: Box<Ast>, span: ParseSpan },
    Call { receiver: Box<Ast>, args: Vec<Ast>, span: ParseSpan },
    PropertyRead { receiver: Box<Ast>, name: String, span: ParseSpan },
    KeyedRead { receiver: Box<Ast>, key: Box<Ast>, span: ParseSpan },
    LiteralArray { expressions: Vec<Ast>, span: ParseSpan },
    LiteralMap { keys: Vec<LiteralMapKey>, values: Vec<Ast>, span: ParseSpan },
    PrefixNot { expression: Box<Ast>, span: ParseSpan },
    TypeofExpression { expression: Box<Ast>, span: ParseSpan },
    VoidExpression { expression: Box<Ast>, span: ParseSpan },
    NonNullAssert { expression: Box<Ast>, span: ParseSpan },
    ImplicitReceiver { span: ParseSpan },
    ThisReceiver { span: ParseSpan },
    EmptyExpr { span: ParseSpan },
    SafePropertyRead { receiver: Box<Ast>, name: String, span: ParseSpan },
    SafeKeyedRead { receiver: Box<Ast>, key: Box<Ast>, span: ParseSpan },
    SafeCall { receiver: Box<Ast>, args: Vec<Ast>, span: ParseSpan },
    Chain { expressions: Vec<Ast>, span: ParseSpan },
    BindingPipe { exp: Box<Ast>, name: String, args: Vec<Ast>, span: ParseSpan },
    TemplateLiteral { elements: Vec<TemplateLiteralElementAst>, expressions: Vec<Ast>, span: ParseSpan },
    TaggedTemplateLiteral {
        tag: Box<Ast>,
        elements: Vec<TemplateLiteralElementAst>,
        expressions: Vec<Ast>,
        span: ParseSpan,
    },
    ParenthesizedExpression { expression: Box<Ast>, span: ParseSpan },
    RegularExpressionLiteral { body: String, flags: Option<String>, span: ParseSpan },
    Interpolation { strings: Vec<String>, expressions: Vec<Ast>, span: ParseSpan },
}

/// A parsed expression together with its source text location.
#[derive(Debug)]
pub struct AstWithSource {
    pub ast: Ast,
    pub source: Option<String>,
}

/// How a property binding was written.
#[derive(Debug, Clone, Copy, PartialEq, Eq, Structural)]
#[allow(inconsistent_fields)]
pub enum ParsedPropertyType {
    Default,
    LiteralAttr,
    LegacyAnimation,
    TwoWay,
    Animation,
}

/// A parsed host property binding.
#[derive(Debug)]
pub struct ParsedProperty {
    pub name: String,
    pub expression: AstWithSource,
    pub property_type: ParsedPropertyType,
    pub source_span: ParseSourceSpan,
}

/// How an event binding was written.
#[derive(Debug, Clone, Copy, PartialEq, Eq, Structural)]
#[allow(inconsistent_fields)]
pub enum ParsedEventType {
    Regular,
    LegacyAnimation,
    TwoWay,
    Animation,
}

/// A parsed host event binding.
#[derive(Debug)]
pub struct ParsedEvent {
    pub name: String,
    pub target_or_phase: Option<String>,
    pub type_: ParsedEventType,
    pub handler: AstWithSource,
    pub source_span: ParseSourceSpan,
    pub handler_span: ParseSourceSpan,
}

} // verus!
