//! Conversion of template expressions into output expressions, and the small lookups it uses.

use vstd::prelude::*;
use vstd::string::*;
use crate::text::str_eq;
use crate::parse_util::{ParseSourceSpan, ParseSpan, SpecSpan, SpecLocation, spec_move_by};
use crate::output::{BinaryOperator, Expression, LiteralExpr, LiteralArrayExpr, LiteralValue, SExpr, SLit};
use crate::ir::Namespace;

verus! {

/// The source text of each binary operator.
pub open spec fn operator_text(op: BinaryOperator) -> Seq<char> {
    match op {
        BinaryOperator::And => "&&"@,
        BinaryOperator::Bigger => ">"@,
        BinaryOperator::BiggerEquals => ">="@,
        BinaryOperator::BitwiseOr => "|"@,
        BinaryOperator::BitwiseAnd => "&"@,
        BinaryOperator::Divide => "/"@,
        BinaryOperator::Assign => "="@,
        BinaryOperator::Equals => "=="@,
        BinaryOperator::Identical => "==="@,
        BinaryOperator::Lower => "<"@,
        BinaryOperator::LowerEquals => "<="@,
        BinaryOperator::Minus => "-"@,
        BinaryOperator::Modulo => "%"@,
        BinaryOperator::Exponentiation => "**"@,
        BinaryOperator::Multiply => "*"@,
        BinaryOperator::NotEquals => "!="@,
        BinaryOperator::NotIdentical => "!=="@,
        BinaryOperator::NullishCoalesce => "??"@,
        BinaryOperator::Or => "||"@,
        BinaryOperator::Plus => "+"@,
        BinaryOperator::In => "in"@,
        BinaryOperator::AdditionAssignment => "+="@,
        BinaryOperator::SubtractionAssignment => "-="@,
        BinaryOperator::MultiplicationAssignment => "*="@,
        BinaryOperator::DivisionAssignment => "/="@,
        BinaryOperator::RemainderAssignment => "%="@,
        BinaryOperator::ExponentiationAssignment => "**="@,
        BinaryOperator::AndAssignment => "&&="@,
        BinaryOperator::OrAssignment => "||="@,
        BinaryOperator::NullishCoalesceAssignment => "??="@,
    }
}

/// The operator whose source text is `op`, if any.
pub open spec fn spec_binary_operator_from_str(op: Seq<char>) -> Option<BinaryOperator> {
    if op == "&&"@ { Some(BinaryOperator::And) }
    else if op == ">"@ { Some(BinaryOperator::Bigger) }
    else if op == ">="@ { Some(BinaryOperator::BiggerEquals) }
    else if op == "|"@ { Some(BinaryOperator::BitwiseOr) }
    else if op == "&"@ { Some(BinaryOperator::BitwiseAnd) }
    else if op == "/"@ { Some(BinaryOperator::Divide) }
    else if op == "="@ { Some(BinaryOperator::Assign) }
    else if op == "=="@ { Some(BinaryOperator::Equals) }
    else if op == "==="@ { Some(BinaryOperator::Identical) }
    else if op == "<"@ { Some(BinaryOperator::Lower) }
    else if op == "<="@ { Some(BinaryOperator::LowerEquals) }
    else if op == "-"@ { Some(BinaryOperator::Minus) }
    else if op == "%"@ { Some(BinaryOperator::Modulo) }
    else if op == "**"@ { Some(BinaryOperator::Exponentiation) }
    else if op == "*"@ { Some(BinaryOperator::Multiply) }
    else if op == "!="@ { Some(BinaryOperator::NotEquals) }
    else if op == "!=="@ { Some(BinaryOperator::NotIdentical) }
    else if op == "??"@ { Some(BinaryOperator::NullishCoalesce) }
    else if op == "||"@ { Some(BinaryOperator::Or) }
    else if op == "+"@ { Some(BinaryOperator::Plus) }
    else if op == "in"@ { Some(BinaryOperator::In) }
    else if op == "+="@ { Some(BinaryOperator::AdditionAssignment) }
    else if op == "-="@ { Some(BinaryOperator::SubtractionAssignment) }
    else if op == "*="@ { Some(BinaryOperator::MultiplicationAssignment) }
    else if op == "/="@ { Some(BinaryOperator::DivisionAssignment) }
    else if op == "%="@ { Some(BinaryOperator::RemainderAssignment) }
    else if op == "**="@ { Some(BinaryOperator::ExponentiationAssignment) }
    else if op == "&&="@ { Some(BinaryOperator::AndAssignment) }
    else if op == "||="@ { Some(BinaryOperator::OrAssignment) }
    else if op == "??="@ { Some(BinaryOperator::NullishCoalesceAssignment) }
    else { None }
}

/// Get the binary operator written as `op`.
pub fn binary_operator_from_str(op: &str) -> (r: Option<BinaryOperator>)
    ensures
        r == spec_binary_operator_from_str(op@),
{
    if str_eq(op, "&&") { Some(BinaryOperator::And) }
    else if str_eq(op, ">") { Some(BinaryOperator::Bigger) }
    else if str_eq(op, ">=") { Some(BinaryOperator::BiggerEquals) }
    else if str_eq(op, "|") { Some(BinaryOperator::BitwiseOr) }
    else if str_eq(op, "&") { Some(BinaryOperator::BitwiseAnd) }
    else if str_eq(op, "/") { Some(BinaryOperator::Divide) }
    else if str_eq(op, "=") { Some(BinaryOperator::Assign) }
    else if str_eq(op, "==") { Some(BinaryOperator::Equals) }
    else if str_eq(op, "===") { Some(BinaryOperator::Identical) }
    else if str_eq(op, "<") { Some(BinaryOperator::Lower) }
    else if str_eq(op, "<=") { Some(BinaryOperator::LowerEquals) }
    else if str_eq(op, "-") { Some(BinaryOperator::Minus) }
    else if str_eq(op, "%") { Some(BinaryOperator::Modulo) }
    else if str_eq(op, "**") { Some(BinaryOperator::Exponentiation) }
    else if str_eq(op, "*") { Some(BinaryOperator::Multiply) }
    else if str_eq(op, "!=") { Some(BinaryOperator::NotEquals) }
    else if str_eq(op, "!==") { Some(BinaryOperator::NotIdentical) }
    else if str_eq(op, "??") { Some(BinaryOperator::NullishCoalesce) }
    else if str_eq(op, "||") { Some(BinaryOperator::Or) }
    else if str_eq(op, "+") { Some(BinaryOperator::Plus) }
    else if str_eq(op, "in") { Some(BinaryOperator::In) }
    else if str_eq(op, "+=") { Some(BinaryOperator::AdditionAssignment) }
    else if str_eq(op, "-=") { Some(BinaryOperator::SubtractionAssignment) }
    else if str_eq(op, "*=") { Some(BinaryOperator::MultiplicationAssignment) }
    else if str_eq(op, "/=") { Some(BinaryOperator::DivisionAssignment) }
    else if str_eq(op, "%=") { Some(BinaryOperator::RemainderAssignment) }
    else if str_eq(op, "**=") { Some(BinaryOperator::ExponentiationAssignment) }
    else if str_eq(op, "&&=") { Some(BinaryOperator::AndAssignment) }
    else if str_eq(op, "||=") { Some(BinaryOperator::OrAssignment) }
    else if str_eq(op, "??=") { Some(BinaryOperator::NullishCoalesceAssignment) }
    else { None }
}

/// Every binary operator is found again from its source text.
pub proof fn lemma_binary_operator_round_trip(op: BinaryOperator)
    ensures
        spec_binary_operator_from_str(operator_text(op)) == Some(op),
{
    match op {
        BinaryOperator::And => {
            reveal_strlit("&&");
        },
        BinaryOperator::Bigger => {
            reveal_strlit(">");
            reveal_strlit("&&");
            assert(">"@.len() != "&&"@.len());
        },
        BinaryOperator::BiggerEquals => {
            reveal_strlit(">=");
            reveal_strlit("&&");
            assert(">="@[0] != "&&"@[0]);
            reveal_strlit(">");
            assert(">="@.len() != ">"@.len());
        },
        BinaryOperator::BitwiseOr => {
            reveal_strlit("|");
            reveal_strlit("&&");
            assert("|"@.len() != "&&"@.len());
            reveal_strlit(">");
            assert("|"@[0] != ">"@[0]);
            reveal_strlit(">=");
            assert("|"@.len() != ">="@.len());
        },
        BinaryOperator::BitwiseAnd => {
            reveal_strlit("&");
            reveal_strlit("&&");
            assert("&"@.len() != "&&"@.len());
            reveal_strlit(">");
            assert("&"@[0] != ">"@[0]);
            reveal_strlit(">=");
            assert("&"@.len() != ">="@.len());
            reveal_strlit("|");
            assert("&"@[0] != "|"@[0]);
        },
        BinaryOperator::Divide => {
            reveal_strlit("/");
            reveal_strlit("&&");
            assert("/"@.len() != "&&"@.len());
            reveal_strlit(">");
            assert("/"@[0] != ">"@[0]);
            reveal_strlit(">=");
            assert("/"@.len() != ">="@.len());
            reveal_strlit("|");
            assert("/"@[0] != "|"@[0]);
            reveal_strlit("&");
            assert("/"@[0] != "&"@[0]);
        },
        BinaryOperator::Assign => {
            reveal_strlit("=");
            reveal_strlit("&&");
            assert("="@.len() != "&&"@.len());
            reveal_strlit(">");
            assert("="@[0] != ">"@[0]);
            reveal_strlit(">=");
            assert("="@.len() != ">="@.len());
            reveal_strlit("|");
            assert("="@[0] != "|"@[0]);
            reveal_strlit("&");
            assert("="@[0] != "&"@[0]);
            reveal_strlit("/");
            assert("="@[0] != "/"@[0]);
        },
        BinaryOperator::Equals => {
            reveal_strlit("==");
            reveal_strlit("&&");
            assert("=="@[0] != "&&"@[0]);
            reveal_strlit(">");
            assert("=="@.len() != ">"@.len());
            reveal_strlit(">=");
            assert("=="@[0] != ">="@[0]);
            reveal_strlit("|");
            assert("=="@.len() != "|"@.len());
            reveal_strlit("&");
            assert("=="@.len() != "&"@.len());
            reveal_strlit("/");
            assert("=="@.len() != "/"@.len());
            reveal_strlit("=");
            assert("=="@.len() != "="@.len());
        },
        BinaryOperator::Identical => {
            reveal_strlit("===");
            reveal_strlit("&&");
            assert("==="@.len() != "&&"@.len());
            reveal_strlit(">");
            assert("==="@.len() != ">"@.len());
            reveal_strlit(">=");
            assert("==="@.len() != ">="@.len());
            reveal_strlit("|");
            assert("==="@.len() != "|"@.len());
            reveal_strlit("&");
            assert("==="@.len() != "&"@.len());
            reveal_strlit("/");
            assert("==="@.len() != "/"@.len());
            reveal_strlit("=");
            assert("==="@.len() != "="@.len());
            reveal_strlit("==");
            assert("==="@.len() != "=="@.len());
        },
        BinaryOperator::Lower => {
            reveal_strlit("<");
            reveal_strlit("&&");
            assert("<"@.len() != "&&"@.len());
            reveal_strlit(">");
            assert("<"@[0] != ">"@[0]);
            reveal_strlit(">=");
            assert("<"@.len() != ">="@.len());
            reveal_strlit("|");
            assert("<"@[0] != "|"@[0]);
            reveal_strlit("&");
            assert("<"@[0] != "&"@[0]);
            reveal_strlit("/");
            assert("<"@[0] != "/"@[0]);
            reveal_strlit("=");
            assert("<"@[0] != "="@[0]);
            reveal_strlit("==");
            assert("<"@.len() != "=="@.len());
            reveal_strlit("===");
            assert("<"@.len() != "==="@.len());
        },
        BinaryOperator::LowerEquals => {
            reveal_strlit("<=");
            reveal_strlit("&&");
            assert("<="@[0] != "&&"@[0]);
            reveal_strlit(">");
            assert("<="@.len() != ">"@.len());
            reveal_strlit(">=");
            assert("<="@[0] != ">="@[0]);
            reveal_strlit("|");
            assert("<="@.len() != "|"@.len());
            reveal_strlit("&");
            assert("<="@.len() != "&"@.len());
            reveal_strlit("/");
            assert("<="@.len() != "/"@.len());
            reveal_strlit("=");
            assert("<="@.len() != "="@.len());
            reveal_strlit("==");
            assert("<="@[0] != "=="@[0]);
            reveal_strlit("===");
            assert("<="@.len() != "==="@.len());
            reveal_strlit("<");
            assert("<="@.len() != "<"@.len());
        },
        BinaryOperator::Minus => {
            reveal_strlit("-");
            reveal_strlit("&&");
            assert("-"@.len() != "&&"@.len());
            reveal_strlit(">");
            assert("-"@[0] != ">"@[0]);
            reveal_strlit(">=");
            assert("-"@.len() != ">="@.len());
            reveal_strlit("|");
            assert("-"@[0] != "|"@[0]);
            reveal_strlit("&");
            assert("-"@[0] != "&"@[0]);
            reveal_strlit("/");
            assert("-"@[0] != "/"@[0]);
            reveal_strlit("=");
            assert("-"@[0] != "="@[0]);
            reveal_strlit("==");
            assert("-"@.len() != "=="@.len());
            reveal_strlit("===");
            assert("-"@.len() != "==="@.len());
            reveal_strlit("<");
            assert("-"@[0] != "<"@[0]);
            reveal_strlit("<=");
            assert("-"@.len() != "<="@.len());
        },
        BinaryOperator::Modulo => {
            reveal_strlit("%");
            reveal_strlit("&&");
            assert("%"@.len() != "&&"@.len());
            reveal_strlit(">");
            assert("%"@[0] != ">"@[0]);
            reveal_strlit(">=");
            assert("%"@.len() != ">="@.len());
            reveal_strlit("|");
            assert("%"@[0] != "|"@[0]);
            reveal_strlit("&");
            assert("%"@[0] != "&"@[0]);
            reveal_strlit("/");
            assert("%"@[0] != "/"@[0]);
            reveal_strlit("=");
            assert("%"@[0] != "="@[0]);
            reveal_strlit("==");
            assert("%"@.len() != "=="@.len());
            reveal_strlit("===");
            assert("%"@.len() != "==="@.len());
            reveal_strlit("<");
            assert("%"@[0] != "<"@[0]);
            reveal_strlit("<=");
            assert("%"@.len() != "<="@.len());
            reveal_strlit("-");
            assert("%"@[0] != "-"@[0]);
        },
        BinaryOperator::Exponentiation => {
            reveal_strlit("**");
            reveal_strlit("&&");
            assert("**"@[0] != "&&"@[0]);
            reveal_strlit(">");
            assert("**"@.len() != ">"@.len());
            reveal_strlit(">=");
            assert("**"@[0] != ">="@[0]);
            reveal_strlit("|");
            assert("**"@.len() != "|"@.len());
            reveal_strlit("&");
            assert("**"@.len() != "&"@.len());
            reveal_strlit("/");
            assert("**"@.len() != "/"@.len());
            reveal_strlit("=");
            assert("**"@.len() != "="@.len());
            reveal_strlit("==");
            assert("**"@[0] != "=="@[0]);
            reveal_strlit("===");
            assert("**"@.len() != "==="@.len());
            reveal_strlit("<");
            assert("**"@.len() != "<"@.len());
            reveal_strlit("<=");
            assert("**"@[0] != "<="@[0]);
            reveal_strlit("-");
            assert("**"@.len() != "-"@.len());
            reveal_strlit("%");
            assert("**"@.len() != "%"@.len());
        },
        BinaryOperator::Multiply => {
            reveal_strlit("*");
            reveal_strlit("&&");
            assert("*"@.len() != "&&"@.len());
            reveal_strlit(">");
            assert("*"@[0] != ">"@[0]);
            reveal_strlit(">=");
            assert("*"@.len() != ">="@.len());
            reveal_strlit("|");
            assert("*"@[0] != "|"@[0]);
            reveal_strlit("&");
            assert("*"@[0] != "&"@[0]);
            reveal_strlit("/");
            assert("*"@[0] != "/"@[0]);
            reveal_strlit("=");
            assert("*"@[0] != "="@[0]);
            reveal_strlit("==");
            assert("*"@.len() != "=="@.len());
            reveal_strlit("===");
            assert("*"@.len() != "==="@.len());
            reveal_strlit("<");
            assert("*"@[0] != "<"@[0]);
            reveal_strlit("<=");
            assert("*"@.len() != "<="@.len());
            reveal_strlit("-");
            assert("*"@[0] != "-"@[0]);
            reveal_strlit("%");
            assert("*"@[0] != "%"@[0]);
            reveal_strlit("**");
            assert("*"@.len() != "**"@.len());
        },
        BinaryOperator::NotEquals => {
            reveal_strlit("!=");
            reveal_strlit("&&");
            assert("!="@[0] != "&&"@[0]);
            reveal_strlit(">");
            assert("!="@.len() != ">"@.len());
            reveal_strlit(">=");
            assert("!="@[0] != ">="@[0]);
            reveal_strlit("|");
            assert("!="@.len() != "|"@.len());
            reveal_strlit("&");
            assert("!="@.len() != "&"@.len());
            reveal_strlit("/");
            assert("!="@.len() != "/"@.len());
            reveal_strlit("=");
            assert("!="@.len() != "="@.len());
            reveal_strlit("==");
            assert("!="@[0] != "=="@[0]);
            reveal_strlit("===");
            assert("!="@.len() != "==="@.len());
            reveal_strlit("<");
            assert("!="@.len() != "<"@.len());
            reveal_strlit("<=");
            assert("!="@[0] != "<="@[0]);
            reveal_strlit("-");
            assert("!="@.len() != "-"@.len());
            reveal_strlit("%");
            assert("!="@.len() != "%"@.len());
            reveal_strlit("**");
            assert("!="@[0] != "**"@[0]);
            reveal_strlit("*");
            assert("!="@.len() != "*"@.len());
        },
        BinaryOperator::NotIdentical => {
            reveal_strlit("!==");
            reveal_strlit("&&");
            assert("!=="@.len() != "&&"@.len());
            reveal_strlit(">");
            assert("!=="@.len() != ">"@.len());
            reveal_strlit(">=");
            assert("!=="@.len() != ">="@.len());
            reveal_strlit("|");
            assert("!=="@.len() != "|"@.len());
            reveal_strlit("&");
            assert("!=="@.len() != "&"@.len());
            reveal_strlit("/");
            assert("!=="@.len() != "/"@.len());
            reveal_strlit("=");
            assert("!=="@.len() != "="@.len());
            reveal_strlit("==");
            assert("!=="@.len() != "=="@.len());
            reveal_strlit("===");
            assert("!=="@[0] != "==="@[0]);
            reveal_strlit("<");
            assert("!=="@.len() != "<"@.len());
            reveal_strlit("<=");
            assert("!=="@.len() != "<="@.len());
            reveal_strlit("-");
            assert("!=="@.len() != "-"@.len());
            reveal_strlit("%");
            assert("!=="@.len() != "%"@.len());
            reveal_strlit("**");
            assert("!=="@.len() != "**"@.len());
            reveal_strlit("*");
            assert("!=="@.len() != "*"@.len());
            reveal_strlit("!=");
            assert("!=="@.len() != "!="@.len());
        },
        BinaryOperator::NullishCoalesce => {
            reveal_strlit("??");
            reveal_strlit("&&");
            assert("??"@[0] != "&&"@[0]);
            reveal_strlit(">");
            assert("??"@.len() != ">"@.len());
            reveal_strlit(">=");
            assert("??"@[0] != ">="@[0]);
            reveal_strlit("|");
            assert("??"@.len() != "|"@.len());
            reveal_strlit("&");
            assert("??"@.len() != "&"@.len());
            reveal_strlit("/");
            assert("??"@.len() != "/"@.len());
            reveal_strlit("=");
            assert("??"@.len() != "="@.len());
            reveal_strlit("==");
            assert("??"@[0] != "=="@[0]);
            reveal_strlit("===");
            assert("??"@.len() != "==="@.len());
            reveal_strlit("<");
            assert("??"@.len() != "<"@.len());
            reveal_strlit("<=");
            assert("??"@[0] != "<="@[0]);
            reveal_strlit("-");
            assert("??"@.len() != "-"@.len());
            reveal_strlit("%");
            assert("??"@.len() != "%"@.len());
            reveal_strlit("**");
            assert("??"@[0] != "**"@[0]);
            reveal_strlit("*");
            assert("??"@.len() != "*"@.len());
            reveal_strlit("!=");
            assert("??"@[0] != "!="@[0]);
            reveal_strlit("!==");
            assert("??"@.len() != "!=="@.len());
        },
        BinaryOperator::Or => {
            reveal_strlit("||");
            reveal_strlit("&&");
            assert("||"@[0] != "&&"@[0]);
            reveal_strlit(">");
            assert("||"@.len() != ">"@.len());
            reveal_strlit(">=");
            assert("||"@[0] != ">="@[0]);
            reveal_strlit("|");
            assert("||"@.len() != "|"@.len());
            reveal_strlit("&");
            assert("||"@.len() != "&"@.len());
            reveal_strlit("/");
            assert("||"@.len() != "/"@.len());
            reveal_strlit("=");
            assert("||"@.len() != "="@.len());
            reveal_strlit("==");
            assert("||"@[0] != "=="@[0]);
            reveal_strlit("===");
            assert("||"@.len() != "==="@.len());
            reveal_strlit("<");
            assert("||"@.len() != "<"@.len());
            reveal_strlit("<=");
            assert("||"@[0] != "<="@[0]);
            reveal_strlit("-");
            assert("||"@.len() != "-"@.len());
            reveal_strlit("%");
            assert("||"@.len() != "%"@.len());
            reveal_strlit("**");
            assert("||"@[0] != "**"@[0]);
            reveal_strlit("*");
            assert("||"@.len() != "*"@.len());
            reveal_strlit("!=");
            assert("||"@[0] != "!="@[0]);
            reveal_strlit("!==");
            assert("||"@.len() != "!=="@.len());
            reveal_strlit("??");
            assert("||"@[0] != "??"@[0]);
        },
        BinaryOperator::Plus => {
            reveal_strlit("+");
            reveal_strlit("&&");
            assert("+"@.len() != "&&"@.len());
            reveal_strlit(">");
            assert("+"@[0] != ">"@[0]);
            reveal_strlit(">=");
            assert("+"@.len() != ">="@.len());
            reveal_strlit("|");
            assert("+"@[0] != "|"@[0]);
            reveal_strlit("&");
            assert("+"@[0] != "&"@[0]);
            reveal_strlit("/");
            assert("+"@[0] != "/"@[0]);
            reveal_strlit("=");
            assert("+"@[0] != "="@[0]);
            reveal_strlit("==");
            assert("+"@.len() != "=="@.len());
            reveal_strlit("===");
            assert("+"@.len() != "==="@.len());
            reveal_strlit("<");
            assert("+"@[0] != "<"@[0]);
            reveal_strlit("<=");
            assert("+"@.len() != "<="@.len());
            reveal_strlit("-");
            assert("+"@[0] != "-"@[0]);
            reveal_strlit("%");
            assert("+"@[0] != "%"@[0]);
            reveal_strlit("**");
            assert("+"@.len() != "**"@.len());
            reveal_strlit("*");
            assert("+"@[0] != "*"@[0]);
            reveal_strlit("!=");
            assert("+"@.len() != "!="@.len());
            reveal_strlit("!==");
            assert("+"@.len() != "!=="@.len());
            reveal_strlit("??");
            assert("+"@.len() != "??"@.len());
            reveal_strlit("||");
            assert("+"@.len() != "||"@.len());
        },
        BinaryOperator::In => {
            reveal_strlit("in");
            reveal_strlit("&&");
            assert("in"@[0] != "&&"@[0]);
            reveal_strlit(">");
            assert("in"@.len() != ">"@.len());
            reveal_strlit(">=");
            assert("in"@[0] != ">="@[0]);
            reveal_strlit("|");
            assert("in"@.len() != "|"@.len());
            reveal_strlit("&");
            assert("in"@.len() != "&"@.len());
            reveal_strlit("/");
            assert("in"@.len() != "/"@.len());
            reveal_strlit("=");
            assert("in"@.len() != "="@.len());
            reveal_strlit("==");
            assert("in"@[0] != "=="@[0]);
            reveal_strlit("===");
            assert("in"@.len() != "==="@.len());
            reveal_strlit("<");
            assert("in"@.len() != "<"@.len());
            reveal_strlit("<=");
            assert("in"@[0] != "<="@[0]);
            reveal_strlit("-");
            assert("in"@.len() != "-"@.len());
            reveal_strlit("%");
            assert("in"@.len() != "%"@.len());
            reveal_strlit("**");
            assert("in"@[0] != "**"@[0]);
            reveal_strlit("*");
            assert("in"@.len() != "*"@.len());
            reveal_strlit("!=");
            assert("in"@[0] != "!="@[0]);
            reveal_strlit("!==");
            assert("in"@.len() != "!=="@.len());
            reveal_strlit("??");
            assert("in"@[0] != "??"@[0]);
            reveal_strlit("||");
            assert("in"@[0] != "||"@[0]);
            reveal_strlit("+");
            assert("in"@.len() != "+"@.len());
        },
        BinaryOperator::AdditionAssignment => {
            reveal_strlit("+=");
            reveal_strlit("&&");
            assert("+="@[0] != "&&"@[0]);
            reveal_strlit(">");
            assert("+="@.len() != ">"@.len());
            reveal_strlit(">=");
            assert("+="@[0] != ">="@[0]);
            reveal_strlit("|");
            assert("+="@.len() != "|"@.len());
            reveal_strlit("&");
            assert("+="@.len() != "&"@.len());
            reveal_strlit("/");
            assert("+="@.len() != "/"@.len());
            reveal_strlit("=");
            assert("+="@.len() != "="@.len());
            reveal_strlit("==");
            assert("+="@[0] != "=="@[0]);
            reveal_strlit("===");
            assert("+="@.len() != "==="@.len());
            reveal_strlit("<");
            assert("+="@.len() != "<"@.len());
            reveal_strlit("<=");
            assert("+="@[0] != "<="@[0]);
            reveal_strlit("-");
            assert("+="@.len() != "-"@.len());
            reveal_strlit("%");
            assert("+="@.len() != "%"@.len());
            reveal_strlit("**");
            assert("+="@[0] != "**"@[0]);
            reveal_strlit("*");
            assert("+="@.len() != "*"@.len());
            reveal_strlit("!=");
            assert("+="@[0] != "!="@[0]);
            reveal_strlit("!==");
            assert("+="@.len() != "!=="@.len());
            reveal_strlit("??");
            assert("+="@[0] != "??"@[0]);
            reveal_strlit("||");
            assert("+="@[0] != "||"@[0]);
            reveal_strlit("+");
            assert("+="@.len() != "+"@.len());
            reveal_strlit("in");
            assert("+="@[0] != "in"@[0]);
        },
        BinaryOperator::SubtractionAssignment => {
            reveal_strlit("-=");
            reveal_strlit("&&");
            assert("-="@[0] != "&&"@[0]);
            reveal_strlit(">");
            assert("-="@.len() != ">"@.len());
            reveal_strlit(">=");
            assert("-="@[0] != ">="@[0]);
            reveal_strlit("|");
            assert("-="@.len() != "|"@.len());
            reveal_strlit("&");
            assert("-="@.len() != "&"@.len());
            reveal_strlit("/");
            assert("-="@.len() != "/"@.len());
            reveal_strlit("=");
            assert("-="@.len() != "="@.len());
            reveal_strlit("==");
            assert("-="@[0] != "=="@[0]);
            reveal_strlit("===");
            assert("-="@.len() != "==="@.len());
            reveal_strlit("<");
            assert("-="@.len() != "<"@.len());
            reveal_strlit("<=");
            assert("-="@[0] != "<="@[0]);
            reveal_strlit("-");
            assert("-="@.len() != "-"@.len());
            reveal_strlit("%");
            assert("-="@.len() != "%"@.len());
            reveal_strlit("**");
            assert("-="@[0] != "**"@[0]);
            reveal_strlit("*");
            assert("-="@.len() != "*"@.len());
            reveal_strlit("!=");
            assert("-="@[0] != "!="@[0]);
            reveal_strlit("!==");
            assert("-="@.len() != "!=="@.len());
            reveal_strlit("??");
            assert("-="@[0] != "??"@[0]);
            reveal_strlit("||");
            assert("-="@[0] != "||"@[0]);
            reveal_strlit("+");
            assert("-="@.len() != "+"@.len());
            reveal_strlit("in");
            assert("-="@[0] != "in"@[0]);
            reveal_strlit("+=");
            assert("-="@[0] != "+="@[0]);
        },
        BinaryOperator::MultiplicationAssignment => {
            reveal_strlit("*=");
            reveal_strlit("&&");
            assert("*="@[0] != "&&"@[0]);
            reveal_strlit(">");
            assert("*="@.len() != ">"@.len());
            reveal_strlit(">=");
            assert("*="@[0] != ">="@[0]);
            reveal_strlit("|");
            assert("*="@.len() != "|"@.len());
            reveal_strlit("&");
            assert("*="@.len() != "&"@.len());
            reveal_strlit("/");
            assert("*="@.len() != "/"@.len());
            reveal_strlit("=");
            assert("*="@.len() != "="@.len());
            reveal_strlit("==");
            assert("*="@[0] != "=="@[0]);
            reveal_strlit("===");
            assert("*="@.len() != "==="@.len());
            reveal_strlit("<");
            assert("*="@.len() != "<"@.len());
            reveal_strlit("<=");
            assert("*="@[0] != "<="@[0]);
            reveal_strlit("-");
            assert("*="@.len() != "-"@.len());
            reveal_strlit("%");
            assert("*="@.len() != "%"@.len());
            reveal_strlit("**");
            assert("*="@[1] != "**"@[1]);
            reveal_strlit("*");
            assert("*="@.len() != "*"@.len());
            reveal_strlit("!=");
            assert("*="@[0] != "!="@[0]);
            reveal_strlit("!==");
            assert("*="@.len() != "!=="@.len());
            reveal_strlit("??");
            assert("*="@[0] != "??"@[0]);
            reveal_strlit("||");
            assert("*="@[0] != "||"@[0]);
            reveal_strlit("+");
            assert("*="@.len() != "+"@.len());
            reveal_strlit("in");
            assert("*="@[0] != "in"@[0]);
            reveal_strlit("+=");
            assert("*="@[0] != "+="@[0]);
            reveal_strlit("-=");
            assert("*="@[0] != "-="@[0]);
        },
        BinaryOperator::DivisionAssignment => {
            reveal_strlit("/=");
            reveal_strlit("&&");
            assert("/="@[0] != "&&"@[0]);
            reveal_strlit(">");
            assert("/="@.len() != ">"@.len());
            reveal_strlit(">=");
            assert("/="@[0] != ">="@[0]);
            reveal_strlit("|");
            assert("/="@.len() != "|"@.len());
            reveal_strlit("&");
            assert("/="@.len() != "&"@.len());
            reveal_strlit("/");
            assert("/="@.len() != "/"@.len());
            reveal_strlit("=");
            assert("/="@.len() != "="@.len());
            reveal_strlit("==");
            assert("/="@[0] != "=="@[0]);
            reveal_strlit("===");
            assert("/="@.len() != "==="@.len());
            reveal_strlit("<");
            assert("/="@.len() != "<"@.len());
            reveal_strlit("<=");
            assert("/="@[0] != "<="@[0]);
            reveal_strlit("-");
            assert("/="@.len() != "-"@.len());
            reveal_strlit("%");
            assert("/="@.len() != "%"@.len());
            reveal_strlit("**");
            assert("/="@[0] != "**"@[0]);
            reveal_strlit("*");
            assert("/="@.len() != "*"@.len());
            reveal_strlit("!=");
            assert("/="@[0] != "!="@[0]);
            reveal_strlit("!==");
            assert("/="@.len() != "!=="@.len());
            reveal_strlit("??");
            assert("/="@[0] != "??"@[0]);
            reveal_strlit("||");
            assert("/="@[0] != "||"@[0]);
            reveal_strlit("+");
            assert("/="@.len() != "+"@.len());
            reveal_strlit("in");
            assert("/="@[0] != "in"@[0]);
            reveal_strlit("+=");
            assert("/="@[0] != "+="@[0]);
            reveal_strlit("-=");
            assert("/="@[0] != "-="@[0]);
            reveal_strlit("*=");
            assert("/="@[0] != "*="@[0]);
        },
        BinaryOperator::RemainderAssignment => {
            reveal_strlit("%=");
            reveal_strlit("&&");
            assert("%="@[0] != "&&"@[0]);
            reveal_strlit(">");
            assert("%="@.len() != ">"@.len());
            reveal_strlit(">=");
            assert("%="@[0] != ">="@[0]);
            reveal_strlit("|");
            assert("%="@.len() != "|"@.len());
            reveal_strlit("&");
            assert("%="@.len() != "&"@.len());
            reveal_strlit("/");
            assert("%="@.len() != "/"@.len());
            reveal_strlit("=");
            assert("%="@.len() != "="@.len());
            reveal_strlit("==");
            assert("%="@[0] != "=="@[0]);
            reveal_strlit("===");
            assert("%="@.len() != "==="@.len());
            reveal_strlit("<");
            assert("%="@.len() != "<"@.len());
            reveal_strlit("<=");
            assert("%="@[0] != "<="@[0]);
            reveal_strlit("-");
            assert("%="@.len() != "-"@.len());
            reveal_strlit("%");
            assert("%="@.len() != "%"@.len());
            reveal_strlit("**");
            assert("%="@[0] != "**"@[0]);
            reveal_strlit("*");
            assert("%="@.len() != "*"@.len());
            reveal_strlit("!=");
            assert("%="@[0] != "!="@[0]);
            reveal_strlit("!==");
            assert("%="@.len() != "!=="@.len());
            reveal_strlit("??");
            assert("%="@[0] != "??"@[0]);
            reveal_strlit("||");
            assert("%="@[0] != "||"@[0]);
            reveal_strlit("+");
            assert("%="@.len() != "+"@.len());
            reveal_strlit("in");
            assert("%="@[0] != "in"@[0]);
            reveal_strlit("+=");
            assert("%="@[0] != "+="@[0]);
            reveal_strlit("-=");
            assert("%="@[0] != "-="@[0]);
            reveal_strlit("*=");
            assert("%="@[0] != "*="@[0]);
            reveal_strlit("/=");
            assert("%="@[0] != "/="@[0]);
        },
        BinaryOperator::ExponentiationAssignment => {
            reveal_strlit("**=");
            reveal_strlit("&&");
            assert("**="@.len() != "&&"@.len());
            reveal_strlit(">");
            assert("**="@.len() != ">"@.len());
            reveal_strlit(">=");
            assert("**="@.len() != ">="@.len());
            reveal_strlit("|");
            assert("**="@.len() != "|"@.len());
            reveal_strlit("&");
            assert("**="@.len() != "&"@.len());
            reveal_strlit("/");
            assert("**="@.len() != "/"@.len());
            reveal_strlit("=");
            assert("**="@.len() != "="@.len());
            reveal_strlit("==");
            assert("**="@.len() != "=="@.len());
            reveal_strlit("===");
            assert("**="@[0] != "==="@[0]);
            reveal_strlit("<");
            assert("**="@.len() != "<"@.len());
            reveal_strlit("<=");
            assert("**="@.len() != "<="@.len());
            reveal_strlit("-");
            assert("**="@.len() != "-"@.len());
            reveal_strlit("%");
            assert("**="@.len() != "%"@.len());
            reveal_strlit("**");
            assert("**="@.len() != "**"@.len());
            reveal_strlit("*");
            assert("**="@.len() != "*"@.len());
            reveal_strlit("!=");
            assert("**="@.len() != "!="@.len());
            reveal_strlit("!==");
            assert("**="@[0] != "!=="@[0]);
            reveal_strlit("??");
            assert("**="@.len() != "??"@.len());
            reveal_strlit("||");
            assert("**="@.len() != "||"@.len());
            reveal_strlit("+");
            assert("**="@.len() != "+"@.len());
            reveal_strlit("in");
            assert("**="@.len() != "in"@.len());
            reveal_strlit("+=");
            assert("**="@.len() != "+="@.len());
            reveal_strlit("-=");
            assert("**="@.len() != "-="@.len());
            reveal_strlit("*=");
            assert("**="@.len() != "*="@.len());
            reveal_strlit("/=");
            assert("**="@.len() != "/="@.len());
            reveal_strlit("%=");
            assert("**="@.len() != "%="@.len());
        },
        BinaryOperator::AndAssignment => {
            reveal_strlit("&&=");
            reveal_strlit("&&");
            assert("&&="@.len() != "&&"@.len());
            reveal_strlit(">");
            assert("&&="@.len() != ">"@.len());
            reveal_strlit(">=");
            assert("&&="@.len() != ">="@.len());
            reveal_strlit("|");
            assert("&&="@.len() != "|"@.len());
            reveal_strlit("&");
            assert("&&="@.len() != "&"@.len());
            reveal_strlit("/");
            assert("&&="@.len() != "/"@.len());
            reveal_strlit("=");
            assert("&&="@.len() != "="@.len());
            reveal_strlit("==");
            assert("&&="@.len() != "=="@.len());
            reveal_strlit("===");
            assert("&&="@[0] != "==="@[0]);
            reveal_strlit("<");
            assert("&&="@.len() != "<"@.len());
            reveal_strlit("<=");
            assert("&&="@.len() != "<="@.len());
            reveal_strlit("-");
            assert("&&="@.len() != "-"@.len());
            reveal_strlit("%");
            assert("&&="@.len() != "%"@.len());
            reveal_strlit("**");
            assert("&&="@.len() != "**"@.len());
            reveal_strlit("*");
            assert("&&="@.len() != "*"@.len());
            reveal_strlit("!=");
            assert("&&="@.len() != "!="@.len());
            reveal_strlit("!==");
            assert("&&="@[0] != "!=="@[0]);
            reveal_strlit("??");
            assert("&&="@.len() != "??"@.len());
            reveal_strlit("||");
            assert("&&="@.len() != "||"@.len());
            reveal_strlit("+");
            assert("&&="@.len() != "+"@.len());
            reveal_strlit("in");
            assert("&&="@.len() != "in"@.len());
            reveal_strlit("+=");
            assert("&&="@.len() != "+="@.len());
            reveal_strlit("-=");
            assert("&&="@.len() != "-="@.len());
            reveal_strlit("*=");
            assert("&&="@.len() != "*="@.len());
            reveal_strlit("/=");
            assert("&&="@.len() != "/="@.len());
            reveal_strlit("%=");
            assert("&&="@.len() != "%="@.len());
            reveal_strlit("**=");
            assert("&&="@[0] != "**="@[0]);
        },
        BinaryOperator::OrAssignment => {
            reveal_strlit("||=");
            reveal_strlit("&&");
            assert("||="@.len() != "&&"@.len());
            reveal_strlit(">");
            assert("||="@.len() != ">"@.len());
            reveal_strlit(">=");
            assert("||="@.len() != ">="@.len());
            reveal_strlit("|");
            assert("||="@.len() != "|"@.len());
            reveal_strlit("&");
            assert("||="@.len() != "&"@.len());
            reveal_strlit("/");
            assert("||="@.len() != "/"@.len());
            reveal_strlit("=");
            assert("||="@.len() != "="@.len());
            reveal_strlit("==");
            assert("||="@.len() != "=="@.len());
            reveal_strlit("===");
            assert("||="@[0] != "==="@[0]);
            reveal_strlit("<");
            assert("||="@.len() != "<"@.len());
            reveal_strlit("<=");
            assert("||="@.len() != "<="@.len());
            reveal_strlit("-");
            assert("||="@.len() != "-"@.len());
            reveal_strlit("%");
            assert("||="@.len() != "%"@.len());
            reveal_strlit("**");
            assert("||="@.len() != "**"@.len());
            reveal_strlit("*");
            assert("||="@.len() != "*"@.len());
            reveal_strlit("!=");
            assert("||="@.len() != "!="@.len());
            reveal_strlit("!==");
            assert("||="@[0] != "!=="@[0]);
            reveal_strlit("??");
            assert("||="@.len() != "??"@.len());
            reveal_strlit("||");
            assert("||="@.len() != "||"@.len());
            reveal_strlit("+");
            assert("||="@.len() != "+"@.len());
            reveal_strlit("in");
            assert("||="@.len() != "in"@.len());
            reveal_strlit("+=");
            assert("||="@.len() != "+="@.len());
            reveal_strlit("-=");
            assert("||="@.len() != "-="@.len());
            reveal_strlit("*=");
            assert("||="@.len() != "*="@.len());
            reveal_strlit("/=");
            assert("||="@.len() != "/="@.len());
            reveal_strlit("%=");
            assert("||="@.len() != "%="@.len());
            reveal_strlit("**=");
            assert("||="@[0] != "**="@[0]);
            reveal_strlit("&&=");
            assert("||="@[0] != "&&="@[0]);
        },
        BinaryOperator::NullishCoalesceAssignment => {
            reveal_strlit("??=");
            reveal_strlit("&&");
            assert("??="@.len() != "&&"@.len());
            reveal_strlit(">");
            assert("??="@.len() != ">"@.len());
            reveal_strlit(">=");
            assert("??="@.len() != ">="@.len());
            reveal_strlit("|");
            assert("??="@.len() != "|"@.len());
            reveal_strlit("&");
            assert("??="@.len() != "&"@.len());
            reveal_strlit("/");
            assert("??="@.len() != "/"@.len());
            reveal_strlit("=");
            assert("??="@.len() != "="@.len());
            reveal_strlit("==");
            assert("??="@.len() != "=="@.len());
            reveal_strlit("===");
            assert("??="@[0] != "==="@[0]);
            reveal_strlit("<");
            assert("??="@.len() != "<"@.len());
            reveal_strlit("<=");
            assert("??="@.len() != "<="@.len());
            reveal_strlit("-");
            assert("??="@.len() != "-"@.len());
            reveal_strlit("%");
            assert("??="@.len() != "%"@.len());
            reveal_strlit("**");
            assert("??="@.len() != "**"@.len());
            reveal_strlit("*");
            assert("??="@.len() != "*"@.len());
            reveal_strlit("!=");
            assert("??="@.len() != "!="@.len());
            reveal_strlit("!==");
            assert("??="@[0] != "!=="@[0]);
            reveal_strlit("??");
            assert("??="@.len() != "??"@.len());
            reveal_strlit("||");
            assert("??="@.len() != "||"@.len());
            reveal_strlit("+");
            assert("??="@.len() != "+"@.len());
            reveal_strlit("in");
            assert("??="@.len() != "in"@.len());
            reveal_strlit("+=");
            assert("??="@.len() != "+="@.len());
            reveal_strlit("-=");
            assert("??="@.len() != "-="@.len());
            reveal_strlit("*=");
            assert("??="@.len() != "*="@.len());
            reveal_strlit("/=");
            assert("??="@.len() != "/="@.len());
            reveal_strlit("%=");
            assert("??="@.len() != "%="@.len());
            reveal_strlit("**=");
            assert("??="@[0] != "**="@[0]);
            reveal_strlit("&&=");
            assert("??="@[0] != "&&="@[0]);
            reveal_strlit("||=");
            assert("??="@[0] != "||="@[0]);
        },
    }
}

/// The namespace that a namespace prefix key names: `svg`, `math`, or else HTML.
pub open spec fn spec_namespace_for_key(key: Option<Seq<char>>) -> Namespace {
    match key {
        Some(k) => if k == "svg"@ {
            Namespace::SVG
        } else if k == "math"@ {
            Namespace::Math
        } else {
            Namespace::HTML
        },
        None => Namespace::HTML,
    }
}

/// The namespace prefix key of a namespace; HTML has none.
pub open spec fn spec_key_for_namespace(namespace: Namespace) -> Option<Seq<char>> {
    match namespace {
        Namespace::SVG => Some("svg"@),
        Namespace::Math => Some("math"@),
        Namespace::HTML => None,
    }
}

/// Convert a namespace prefix key to a namespace.
pub fn namespace_for_key(namespace_prefix_key: Option<&str>) -> (r: Namespace)
    ensures
        r == spec_namespace_for_key(
            match namespace_prefix_key {
                Some(k) => Some(k@),
                None => None,
            },
        ),
{
    match namespace_prefix_key {
        Some(k) => {
            if str_eq(k, "svg") {
                Namespace::SVG
            } else if str_eq(k, "math") {
                Namespace::Math
            } else {
                Namespace::HTML
            }
        },
        None => Namespace::HTML,
    }
}

/// Convert a namespace to its prefix key.
pub fn key_for_namespace(namespace: Namespace) -> (r: Option<&'static str>)
    ensures
        match r {
            Some(k) => spec_key_for_namespace(namespace) == Some(k@),
            None => spec_key_for_namespace(namespace) is None,
        },
{
    match namespace {
        Namespace::SVG => Some("svg"),
        Namespace::Math => Some("math"),
        Namespace::HTML => None,
    }
}

/// A namespace is found again from its prefix key.
pub proof fn lemma_namespace_key_round_trip(namespace: Namespace)
    ensures
        spec_namespace_for_key(spec_key_for_namespace(namespace)) == namespace,
{
    reveal_strlit("svg");
    reveal_strlit("math");
    assert("math"@.len() != "svg"@.len());
}

/// The tag name prefixed with its namespace: `:svg:rect`; HTML tags stay as they are.
pub open spec fn spec_prefix_with_namespace(stripped_tag: Seq<char>, namespace: Namespace) -> Seq<char> {
    match spec_key_for_namespace(namespace) {
        Some(key) => ":"@ + key + ":"@ + stripped_tag,
        None => stripped_tag,
    }
}

/// Prefix a tag name with its namespace.
pub fn prefix_with_namespace(stripped_tag: &str, namespace: Namespace) -> (r: String)
    ensures
        r@ == spec_prefix_with_namespace(stripped_tag@, namespace),
{
    if namespace == Namespace::HTML {
        return stripped_tag.to_owned();
    }
    match key_for_namespace(namespace) {
        Some(key) => {
            let mut s = String::from_str(":");
            s.append(key);
            s.append(":");
            s.append(stripped_tag);
            s
        },
        None => stripped_tag.to_owned(),
    }
}

/// A location from which moving by any offset stays within the machine's integers.
pub open spec fn location_ok(loc: SpecLocation) -> bool {
    loc.line + loc.file.content.len() <= usize::MAX && loc.col + loc.file.content.len() <= usize::MAX
}

pub open spec fn base_span_ok(base: Option<SpecSpan>) -> bool {
    match base {
        Some(b) => location_ok(b.start),
        None => true,
    }
}

/// A span relative to `base`: both ends measured from the start of `base`.
pub open spec fn spec_convert_source_span(span: ParseSpan, base: Option<SpecSpan>) -> Option<SpecSpan> {
    match base {
        Some(b) => Some(
            SpecSpan {
                start: spec_move_by(b.start, span.start as i32 as int),
                end: spec_move_by(b.start, span.end as i32 as int),
                details: None,
            },
        ),
        None => None,
    }
}

/// Convert a span relative to an expression into a span of the source file.
pub fn convert_source_span(span: &ParseSpan, base_source_span: Option<&ParseSourceSpan>) -> (r:
    Option<ParseSourceSpan>)
    requires
        base_span_ok(
            match base_source_span {
                Some(b) => Some(b@),
                None => None,
            },
        ),
    ensures
        match r {
            Some(s) => Some(s@),
            None => None::<SpecSpan>,
        } == spec_convert_source_span(
            *span,
            match base_source_span {
                Some(b) => Some(b@),
                None => None,
            },
        ),
{
    match base_source_span {
        Some(base) => {
            let start = base.start.move_by(span.start as i32);
            let end = base.start.move_by(span.end as i32);
            Some(ParseSourceSpan::new(start, end))
        },
        None => None,
    }
}

/// A literal value of the template language.
#[derive(Debug)]
pub enum LiteralType {
    String(String),
    /// An integral number, held exactly.
    Integer(i64),
    /// Any other number, held by the IEEE-754 bit pattern of its double value.
    Number(u64),
    Boolean(bool),
    Null,
    Array(Vec<LiteralType>),
}

/// The literal expression of a literal value; arrays become literal arrays of their elements.
pub open spec fn spec_literal_type_expr(v: LiteralType) -> SExpr
    decreases v,
{
    match v {
        LiteralType::String(s) => SExpr::Literal { value: SLit::String(s@), source_span: None },
        LiteralType::Integer(i) => SExpr::Literal { value: SLit::Integer(i as int), source_span: None },
        LiteralType::Number(n) => SExpr::Literal { value: SLit::Number(n), source_span: None },
        LiteralType::Boolean(b) => SExpr::Literal { value: SLit::Bool(b), source_span: None },
        LiteralType::Null => SExpr::Literal { value: SLit::Null, source_span: None },
        LiteralType::Array(a) => SExpr::LiteralArray {
            entries: spec_literal_types_exprs(a@),
            source_span: None,
        },
    }
}

pub open spec fn spec_literal_types_exprs(s: Seq<LiteralType>) -> Seq<SExpr>
    decreases s,
{
    if s.len() == 0 {
        Seq::empty()
    } else {
        spec_literal_types_exprs(s.drop_last()).push(spec_literal_type_expr(s.last()))
    }
}

fn literal_types_to_expressions(arr: &Vec<LiteralType>) -> (r: Vec<Expression>)
    ensures
        crate::output::exprs_view(r@) == spec_literal_types_exprs(arr@),
    decreases arr,
{
    let mut entries: Vec<Expression> = Vec::new();
    let mut i: usize = 0;
    while i < arr.len()
        invariant
            i <= arr.len(),
            crate::output::exprs_view(entries@) == spec_literal_types_exprs(arr@.take(i as int)),
        decreases arr.len() - i,
    {
        let e = arr[i].to_expression();
        let ghost before = entries@;
        entries.push(e);
        proof {
            crate::output::lemma_exprs_view_push(before, e);
            assert(arr@.take(i + 1).drop_last() =~= arr@.take(i as int));
        }
        i += 1;
    }
    assert(arr@.take(arr.len() as int) =~= arr@);
    entries
}

impl LiteralType {
    /// The literal expression of this value.
    pub fn to_expression(&self) -> (r: Expression)
        ensures
            r@ == spec_literal_type_expr(*self),
        decreases self,
    {
        match self {
            LiteralType::String(s) => Expression::Literal(
                LiteralExpr { value: LiteralValue::String(s.clone()), source_span: None },
            ),
            LiteralType::Integer(i) => Expression::Literal(
                LiteralExpr { value: LiteralValue::Integer(*i), source_span: None },
            ),
            LiteralType::Number(n) => Expression::Literal(
                LiteralExpr { value: LiteralValue::Number(*n), source_span: None },
            ),
            LiteralType::Boolean(b) => Expression::Literal(
                LiteralExpr { value: LiteralValue::Bool(*b), source_span: None },
            ),
            LiteralType::Null => Expression::Literal(
                LiteralExpr { value: LiteralValue::Null, source_span: None },
            ),
            LiteralType::Array(arr) => Expression::LiteralArray(
                LiteralArrayExpr { entries: literal_types_to_expressions(arr), source_span: None },
            ),
        }
    }
}

/// The literal expression of a literal value.
pub fn literal_or_array_literal(value: LiteralType) -> (r: Expression)
    ensures
        r@ == spec_literal_type_expr(value),
{
    value.to_expression()
}

} // verus!

verus! {

use crate::expression_ast::{Ast, LiteralPrimitive, LiteralMapKey, TemplateLiteralElementAst};
use crate::compilation::CompilationJob;
use crate::output::{
    LiteralMapEntry, TemplateLiteralElement, ExternalReference, SMapEntry, STplElement, SRef,
    UnaryOperator, exprs_view, expr_view, lemma_exprs_view_push,
};
use crate::parse_util::opt_span_view;

/// Whether a template expression can be converted: every binary operator is known, every unary
/// operator is `+` or `-`, no call has the implicit receiver as its callee, and there is no
/// chain or interpolation.
pub open spec fn convertible(ast: Ast) -> bool
    decreases ast,
{
    match ast {
        Ast::LiteralPrimitive(_) => true,
        Ast::Binary { operation, left, right, .. } => spec_binary_operator_from_str(operation@) is Some
            && convertible(*left) && convertible(*right),
        Ast::Unary { operator, expr, .. } => (operator@ == "+"@ || operator@ == "-"@) && convertible(
            *expr,
        ),
        Ast::Conditional { condition, true_exp, false_exp, .. } => convertible(*condition)
            && convertible(*true_exp) && convertible(*false_exp),
        Ast::Call { receiver, args, .. } => !(*receiver is ImplicitReceiver) && convertible(*receiver)
            && convertible_list(args@),
        Ast::PropertyRead { receiver, .. } => *receiver is ImplicitReceiver || convertible(*receiver),
        Ast::KeyedRead { receiver, key, .. } => convertible(*receiver) && convertible(*key),
        Ast::LiteralArray { expressions, .. } => convertible_list(expressions@),
        Ast::LiteralMap { keys, values, .. } => if values@.len() <= keys@.len() {
            convertible_list(values@)
        } else {
            convertible_list(values@.take(keys@.len() as int))
        },
        Ast::PrefixNot { expression, .. } => convertible(*expression),
        Ast::TypeofExpression { expression, .. } => convertible(*expression),
        Ast::VoidExpression { expression, .. } => convertible(*expression),
        Ast::NonNullAssert { expression, .. } => convertible(*expression),
        Ast::ImplicitReceiver { .. } => true,
        Ast::ThisReceiver { .. } => true,
        Ast::EmptyExpr { .. } => true,
        Ast::SafePropertyRead { receiver, .. } => convertible(*receiver),
        Ast::SafeKeyedRead { receiver, key, .. } => convertible(*receiver) && convertible(*key),
        Ast::SafeCall { receiver, args, .. } => convertible(*receiver) && convertible_list(args@),
        Ast::Chain { .. } => false,
        Ast::BindingPipe { exp, args, .. } => convertible(*exp) && convertible_list(args@),
        Ast::TemplateLiteral { expressions, .. } => convertible_list(expressions@),
        Ast::TaggedTemplateLiteral { tag, expressions, .. } => convertible(*tag) && convertible_list(
            expressions@,
        ),
        Ast::ParenthesizedExpression { expression, .. } => convertible(*expression),
        Ast::RegularExpressionLiteral { .. } => true,
        Ast::Interpolation { .. } => false,
    }
}

pub open spec fn convertible_list(s: Seq<Ast>) -> bool
    decreases s,
{
    if s.len() == 0 {
        true
    } else {
        convertible_list(s.drop_last()) && convertible(s.last())
    }
}

pub open spec fn min_len(a: nat, b: nat) -> nat {
    if a <= b { a } else { b }
}

/// The number of pipes in a template expression: each one allocates an xref when converted.
pub open spec fn pipe_count(ast: Ast) -> nat
    decreases ast,
{
    match ast {
        Ast::LiteralPrimitive(_) => 0,
        Ast::Binary { left, right, .. } => pipe_count(*left) + pipe_count(*right),
        Ast::Unary { expr, .. } => pipe_count(*expr),
        Ast::Conditional { condition, true_exp, false_exp, .. } => pipe_count(*condition) + pipe_count(
            *true_exp,
        ) + pipe_count(*false_exp),
        Ast::Call { receiver, args, .. } => pipe_count(*receiver) + pipe_count_list(args@),
        Ast::PropertyRead { receiver, .. } => if *receiver is ImplicitReceiver {
            0
        } else {
            pipe_count(*receiver)
        },
        Ast::KeyedRead { receiver, key, .. } => pipe_count(*receiver) + pipe_count(*key),
        Ast::LiteralArray { expressions, .. } => pipe_count_list(expressions@),
        Ast::LiteralMap { keys, values, .. } => if values@.len() <= keys@.len() {
            pipe_count_list(values@)
        } else {
            pipe_count_list(values@.take(keys@.len() as int))
        },
        Ast::PrefixNot { expression, .. } => pipe_count(*expression),
        Ast::TypeofExpression { expression, .. } => pipe_count(*expression),
        Ast::VoidExpression { expression, .. } => pipe_count(*expression),
        Ast::NonNullAssert { expression, .. } => pipe_count(*expression),
        Ast::SafePropertyRead { receiver, .. } => pipe_count(*receiver),
        Ast::SafeKeyedRead { receiver, key, .. } => pipe_count(*receiver) + pipe_count(*key),
        Ast::SafeCall { receiver, args, .. } => pipe_count(*receiver) + pipe_count_list(args@),
        Ast::BindingPipe { exp, args, .. } => 1 + pipe_count(*exp) + pipe_count_list(args@),
        Ast::TemplateLiteral { expressions, .. } => pipe_count_list(expressions@),
        Ast::TaggedTemplateLiteral { tag, expressions, .. } => pipe_count(*tag) + pipe_count_list(
            expressions@,
        ),
        Ast::ParenthesizedExpression { expression, .. } => pipe_count(*expression),
        _ => 0,
    }
}

pub open spec fn pipe_count_list(s: Seq<Ast>) -> nat
    decreases s,
{
    if s.len() == 0 {
        0
    } else {
        pipe_count_list(s.drop_last()) + pipe_count(s.last())
    }
}

pub open spec fn spec_literal_primitive(lit: LiteralPrimitive, base: Option<SpecSpan>) -> SExpr {
    match lit {
        LiteralPrimitive::String { value, span } => SExpr::Literal {
            value: SLit::String(value@),
            source_span: spec_convert_source_span(span, base),
        },
        LiteralPrimitive::Integer { value, span } => SExpr::Literal {
            value: SLit::Integer(value as int),
            source_span: spec_convert_source_span(span, base),
        },
        LiteralPrimitive::Number { bits, span } => SExpr::Literal {
            value: SLit::Number(bits),
            source_span: spec_convert_source_span(span, base),
        },
        LiteralPrimitive::Boolean { value, span } => SExpr::Literal {
            value: SLit::Bool(value),
            source_span: spec_convert_source_span(span, base),
        },
        LiteralPrimitive::Null { span } => SExpr::Literal {
            value: SLit::Null,
            source_span: spec_convert_source_span(span, base),
        },
        LiteralPrimitive::Undefined { span } => SExpr::Literal {
            value: SLit::Null,
            source_span: spec_convert_source_span(span, base),
        },
    }
}

pub open spec fn spec_tpl_elements(s: Seq<TemplateLiteralElementAst>, base: Option<SpecSpan>) -> Seq<
    STplElement,
> {
    s.map_values(
        |e: TemplateLiteralElementAst|
            STplElement {
                text: e.text@,
                raw_text: e.text@,
                source_span: spec_convert_source_span(e.span, base),
            },
    )
}

pub open spec fn spec_map_entries(keys: Seq<LiteralMapKey>, values: Seq<SExpr>) -> Seq<SMapEntry> {
    Seq::new(
        values.len(),
        |i: int| SMapEntry { key: keys[i].key@, value: values[i], quoted: keys[i].quoted },
    )
}

/// The `/body/flags` text of a regular expression literal.
pub open spec fn spec_regex_text(body: Seq<char>, flags: Option<String>) -> Seq<char> {
    "/"@ + body + "/"@ + match flags {
        Some(f) => f@,
        None => Seq::empty(),
    }
}

/// The output expression of a template expression, with the job after the xref allocations
/// that its pipes make, left to right.
pub open spec fn spec_convert<J: CompilationJob>(ast: Ast, job: J, base: Option<SpecSpan>) -> (
    SExpr,
    J,
)
    decreases ast,
{
    match ast {
        Ast::LiteralPrimitive(lit) => (spec_literal_primitive(lit, base), job),
        Ast::Binary { operation, left, right, span } => {
            let (l, j1) = spec_convert(*left, job, base);
            let (r, j2) = spec_convert(*right, j1, base);
            (
                SExpr::BinaryOp {
                    operator: spec_binary_operator_from_str(operation@).unwrap(),
                    lhs: Box::new(l),
                    rhs: Box::new(r),
                    source_span: spec_convert_source_span(span, base),
                },
                j2,
            )
        },
        Ast::Unary { operator, expr, span } => {
            let (e, j1) = spec_convert(*expr, job, base);
            (
                SExpr::Unary {
                    operator: if operator@ == "+"@ {
                        UnaryOperator::Plus
                    } else {
                        UnaryOperator::Minus
                    },
                    expr: Box::new(e),
                    source_span: spec_convert_source_span(span, base),
                },
                j1,
            )
        },
        Ast::Conditional { condition, true_exp, false_exp, span } => {
            let (c, j1) = spec_convert(*condition, job, base);
            let (t, j2) = spec_convert(*true_exp, j1, base);
            let (f, j3) = spec_convert(*false_exp, j2, base);
            (
                SExpr::Conditional {
                    condition: Box::new(c),
                    true_case: Box::new(t),
                    false_case: Some(Box::new(f)),
                    source_span: spec_convert_source_span(span, base),
                },
                j3,
            )
        },
        Ast::Call { receiver, args, span } => {
            let (f, j1) = spec_convert(*receiver, job, base);
            let (a, j2) = spec_convert_list(args@, j1, base);
            (
                SExpr::InvokeFn {
                    fn_: Box::new(f),
                    args: a,
                    source_span: spec_convert_source_span(span, base),
                    pure: false,
                },
                j2,
            )
        },
        Ast::PropertyRead { receiver, name, span } => if *receiver is ImplicitReceiver {
            (
                SExpr::LexicalRead { name: name@, source_span: spec_convert_source_span(span, base) },
                job,
            )
        } else {
            let (r, j1) = spec_convert(*receiver, job, base);
            (
                SExpr::ReadProp {
                    receiver: Box::new(r),
                    name: name@,
                    source_span: spec_convert_source_span(span, base),
                },
                j1,
            )
        },
        Ast::KeyedRead { receiver, key, span } => {
            let (r, j1) = spec_convert(*receiver, job, base);
            let (k, j2) = spec_convert(*key, j1, base);
            (
                SExpr::ReadKey {
                    receiver: Box::new(r),
                    index: Box::new(k),
                    source_span: spec_convert_source_span(span, base),
                },
                j2,
            )
        },
        Ast::LiteralArray { expressions, .. } => {
            let (es, j1) = spec_convert_list(expressions@, job, base);
            (SExpr::LiteralArray { entries: es, source_span: None }, j1)
        },
        Ast::LiteralMap { keys, values, span } => {
            let (vs, j1) = if values@.len() <= keys@.len() {
                spec_convert_list(values@, job, base)
            } else {
                spec_convert_list(values@.take(keys@.len() as int), job, base)
            };
            (
                SExpr::LiteralMap {
                    entries: spec_map_entries(keys@, vs),
                    source_span: spec_convert_source_span(span, base),
                },
                j1,
            )
        },
        Ast::PrefixNot { expression, span } => {
            let (e, j1) = spec_convert(*expression, job, base);
            (
                SExpr::NotExpr {
                    condition: Box::new(e),
                    source_span: spec_convert_source_span(span, base),
                },
                j1,
            )
        },
        Ast::TypeofExpression { expression, .. } => {
            let (e, j1) = spec_convert(*expression, job, base);
            (SExpr::TypeOf { expr: Box::new(e) }, j1)
        },
        Ast::VoidExpression { expression, span } => {
            let (e, j1) = spec_convert(*expression, job, base);
            (SExpr::Void { expr: Box::new(e), source_span: spec_convert_source_span(span, base) }, j1)
        },
        Ast::NonNullAssert { expression, .. } => spec_convert(*expression, job, base),
        Ast::ImplicitReceiver { .. } => (SExpr::ReadVar { name: "$implicit"@, source_span: None }, job),
        Ast::ThisReceiver { .. } => (SExpr::Context { view: job.spec_root_xref() }, job),
        Ast::EmptyExpr { span } => (SExpr::Empty { source_span: spec_convert_source_span(span, base) }, job),
        Ast::SafePropertyRead { receiver, name, .. } => {
            let (r, j1) = spec_convert(*receiver, job, base);
            (SExpr::SafePropertyRead { receiver: Box::new(r), name: name@ }, j1)
        },
        Ast::SafeKeyedRead { receiver, key, span } => {
            let (r, j1) = spec_convert(*receiver, job, base);
            let (k, j2) = spec_convert(*key, j1, base);
            (
                SExpr::SafeKeyedRead {
                    receiver: Box::new(r),
                    index: Box::new(k),
                    source_span: spec_convert_source_span(span, base),
                },
                j2,
            )
        },
        Ast::SafeCall { receiver, args, .. } => {
            let (r, j1) = spec_convert(*receiver, job, base);
            let (a, j2) = spec_convert_list(args@, j1, base);
            (SExpr::SafeInvokeFunction { receiver: Box::new(r), args: a }, j2)
        },
        Ast::BindingPipe { exp, name, args, .. } => {
            let (j1, x) = job.spec_allocate();
            let (e, j2) = spec_convert(*exp, j1, base);
            let (a, j3) = spec_convert_list(args@, j2, base);
            (SExpr::PipeBinding { target: x, name: name@, args: seq![e] + a }, j3)
        },
        Ast::TemplateLiteral { elements, expressions, .. } => {
            let (es, j1) = spec_convert_list(expressions@, job, base);
            (
                SExpr::TemplateLiteral {
                    elements: spec_tpl_elements(elements@, base),
                    expressions: es,
                },
                j1,
            )
        },
        Ast::TaggedTemplateLiteral { tag, elements, expressions, span } => {
            let (t, j1) = spec_convert(*tag, job, base);
            let (es, j2) = spec_convert_list(expressions@, j1, base);
            (
                SExpr::TaggedTemplate {
                    tag: Box::new(t),
                    elements: spec_tpl_elements(elements@, base),
                    expressions: es,
                    source_span: spec_convert_source_span(span, base),
                },
                j2,
            )
        },
        Ast::ParenthesizedExpression { expression, .. } => spec_convert(*expression, job, base),
        Ast::RegularExpressionLiteral { body, flags, .. } => (
            SExpr::External {
                value: SRef { name: Some(spec_regex_text(body@, flags)), module_name: None },
                source_span: base,
            },
            job,
        ),
        _ => (SExpr::Empty { source_span: None }, job),
    }
}

/// Non-null assertions and parentheses disappear in conversion: converting `e!` or `(e)` gives
/// what converting `e` gives, from the same job state, the job after it included.
pub proof fn lemma_convert_drops_wrappers<J: CompilationJob>(e: Ast, span: ParseSpan, job: J, base: Option<SpecSpan>)
    ensures
        spec_convert(Ast::NonNullAssert { expression: Box::new(e), span }, job, base) == spec_convert(e, job, base),
        spec_convert(Ast::ParenthesizedExpression { expression: Box::new(e), span }, job, base) == spec_convert(
            e,
            job,
            base,
        ),
{
}

/// The output expressions of a sequence of template expressions, converted left to right.
pub open spec fn spec_convert_list<J: CompilationJob>(s: Seq<Ast>, job: J, base: Option<SpecSpan>) -> (
    Seq<SExpr>,
    J,
)
    decreases s,
{
    if s.len() == 0 {
        (Seq::empty(), job)
    } else {
        let (prev, j1) = spec_convert_list(s.drop_last(), job, base);
        let (e, j2) = spec_convert(s.last(), j1, base);
        (prev.push(e), j2)
    }
}

} // verus!

verus! {

pub proof fn lemma_pipe_count_list_take_mono(s: Seq<Ast>, i: int, n: int)
    requires
        0 <= i <= n <= s.len(),
    ensures
        pipe_count_list(s.take(i)) <= pipe_count_list(s.take(n)),
    decreases n - i,
{
    if i < n {
        lemma_pipe_count_list_take_mono(s, i, n - 1);
        assert(s.take(n).drop_last() =~= s.take(n - 1));
    }
}

pub open spec fn opt_span_ref_view(base: Option<&ParseSourceSpan>) -> Option<SpecSpan> {
    match base {
        Some(b) => Some(b@),
        None => None,
    }
}

/// Convert the first `n` template expressions of `v`, left to right.
fn convert_list<J: CompilationJob>(
    v: &Vec<Ast>,
    n: usize,
    job: &mut J,
    base: Option<&ParseSourceSpan>,
) -> (r: Vec<Expression>)
    requires
        n <= v@.len(),
        convertible_list(v@.take(n as int)),
        old(job).spec_can_allocate_n(pipe_count_list(v@.take(n as int))),
        base_span_ok(opt_span_ref_view(base)),
    ensures
        (exprs_view(r@), *final(job)) == spec_convert_list(
            v@.take(n as int),
            *old(job),
            opt_span_ref_view(base),
        ),
        forall|k: nat|
            old(job).spec_can_allocate_n(k + pipe_count_list(v@.take(n as int)))
                ==> #[trigger] final(job).spec_can_allocate_n(k),
    decreases v, 0nat,
{
    let ghost base_v = opt_span_ref_view(base);
    let ghost job0 = *job;
    let ghost total = pipe_count_list(v@.take(n as int));
    let mut out: Vec<Expression> = Vec::new();
    let mut i: usize = 0;
    assert(v@.take(0) =~= Seq::<Ast>::empty());
    while i < n
        invariant
            i <= n <= v@.len(),
            base_v == opt_span_ref_view(base),
            base_span_ok(base_v),
            total == pipe_count_list(v@.take(n as int)),
            convertible_list(v@.take(n as int)),
            (exprs_view(out@), *job) == spec_convert_list(v@.take(i as int), job0, base_v),
            job0.spec_can_allocate_n(total),
            forall|k: nat|
                job0.spec_can_allocate_n(k + total) ==> #[trigger] job.spec_can_allocate_n(
                    (k + total - pipe_count_list(v@.take(i as int))) as nat,
                ),
            pipe_count_list(v@.take(i as int)) <= total,
        decreases n - i,
    {
        proof {
            assert(v@.take(i + 1).drop_last() =~= v@.take(i as int));
            lemma_pipe_count_list_take_mono(v@, i + 1, n as int);
            lemma_convertible_list_take(v@, i as int, n as int);
            assert(job.spec_can_allocate_n((0 + total - pipe_count_list(v@.take(i as int))) as nat));
            job.lemma_can_allocate_mono(
                (total - pipe_count_list(v@.take(i as int))) as nat,
                pipe_count(v@[i as int]),
            );
        }
        let ghost job_before = *job;
        let e = convert_ast(&v[i], job, base);
        let ghost before = out@;
        out.push(e);
        proof {
            lemma_exprs_view_push(before, e);
            assert forall|k: nat| job0.spec_can_allocate_n(k + total) implies #[trigger] job.spec_can_allocate_n(
                (k + total - pipe_count_list(v@.take(i + 1))) as nat,
            ) by {
                assert(job_before.spec_can_allocate_n((k + total - pipe_count_list(v@.take(i as int))) as nat));
                assert(((k + total - pipe_count_list(v@.take(i + 1))) as nat) + pipe_count(v@[i as int])
                    == (k + total - pipe_count_list(v@.take(i as int))) as nat);
            }
        }
        i += 1;
    }
    proof {
        assert forall|k: nat| job0.spec_can_allocate_n(k + total) implies #[trigger] job.spec_can_allocate_n(k) by {
            assert((k + total - pipe_count_list(v@.take(i as int))) as nat == k);
        }
    }
    out
}

pub proof fn lemma_convertible_list_take(s: Seq<Ast>, i: int, n: int)
    requires
        0 <= i < n <= s.len(),
        convertible_list(s.take(n)),
    ensures
        convertible(s[i]),
    decreases n - i,
{
    assert(s.take(n).drop_last() =~= s.take(n - 1));
    if i < n - 1 {
        lemma_convertible_list_take(s, i, n - 1);
    }
}

/// Allocation bookkeeping: what remains after converting a part that needs `a`.
pub proof fn lemma_after<J: CompilationJob>(j0: J, j1: J, a: nat, rest: nat)
    requires
        forall|k: nat| j0.spec_can_allocate_n(k + a) ==> #[trigger] j1.spec_can_allocate_n(k),
        j0.spec_can_allocate_n(a + rest),
    ensures
        j1.spec_can_allocate_n(rest),
{
    assert(j0.spec_can_allocate_n(rest + a));
}

/// Allocation bookkeeping: two parts converted one after the other.
pub proof fn lemma_seq_alloc<J: CompilationJob>(j0: J, j1: J, j2: J, a: nat, b: nat)
    requires
        forall|k: nat| j0.spec_can_allocate_n(k + a) ==> #[trigger] j1.spec_can_allocate_n(k),
        forall|k: nat| j1.spec_can_allocate_n(k + b) ==> #[trigger] j2.spec_can_allocate_n(k),
    ensures
        forall|k: nat| j0.spec_can_allocate_n(k + (a + b)) ==> #[trigger] j2.spec_can_allocate_n(k),
{
    assert forall|k: nat| j0.spec_can_allocate_n(k + (a + b)) implies #[trigger] j2.spec_can_allocate_n(k) by {
        assert(j0.spec_can_allocate_n((k + b) + a));
        assert(j1.spec_can_allocate_n(k + b));
    }
}

/// Allocation bookkeeping: converting nothing.
pub proof fn lemma_no_alloc<J: CompilationJob>(j0: J)
    ensures
        forall|k: nat| j0.spec_can_allocate_n(k + 0) ==> #[trigger] j0.spec_can_allocate_n(k),
{
    assert forall|k: nat| j0.spec_can_allocate_n(k + 0) implies #[trigger] j0.spec_can_allocate_n(k) by {
        assert(k + 0 == k);
    }
}

pub fn convert_all<J: CompilationJob>(v: &Vec<Ast>, job: &mut J, base: Option<&ParseSourceSpan>) -> (r: Vec<Expression>)
    requires
        convertible_list(v@),
        old(job).spec_can_allocate_n(pipe_count_list(v@)),
        base_span_ok(opt_span_ref_view(base)),
    ensures
        (exprs_view(r@), *final(job)) == spec_convert_list(v@, *old(job), opt_span_ref_view(base)),
        forall|k: nat|
            old(job).spec_can_allocate_n(k + pipe_count_list(v@))
                ==> #[trigger] final(job).spec_can_allocate_n(k),
    decreases v, 1nat,
{
    assert(v@.take(v@.len() as int) =~= v@);
    convert_list(v, v.len(), job, base)
}

fn convert_tpl_elements(elements: &Vec<TemplateLiteralElementAst>, base: Option<&ParseSourceSpan>) -> (r: Vec<TemplateLiteralElement>)
    requires
        base_span_ok(opt_span_ref_view(base)),
    ensures
        crate::output::tpl_elements_view(r@) == spec_tpl_elements(elements@, opt_span_ref_view(base)),
{
    let mut out: Vec<TemplateLiteralElement> = Vec::new();
    let mut i: usize = 0;
    while i < elements.len()
        invariant
            i <= elements@.len(),
            base_span_ok(opt_span_ref_view(base)),
            out@.len() == i,
            forall|j: int| 0 <= j < i ==> #[trigger] out@[j]@ == (STplElement {
                text: elements@[j].text@,
                raw_text: elements@[j].text@,
                source_span: spec_convert_source_span(elements@[j].span, opt_span_ref_view(base)),
            }),
        decreases elements.len() - i,
    {
        let el = &elements[i];
        out.push(
            TemplateLiteralElement {
                text: el.text.clone(),
                raw_text: el.text.clone(),
                source_span: convert_source_span(&el.span, base),
            },
        );
        i += 1;
    }
    assert(crate::output::tpl_elements_view(out@) =~= spec_tpl_elements(elements@, opt_span_ref_view(base)));
    out
}

fn make_map_entries(keys: &Vec<LiteralMapKey>, values: Vec<Expression>) -> (r: Vec<LiteralMapEntry>)
    requires
        values@.len() <= keys@.len(),
    ensures
        crate::output::map_entries_view(r@) == spec_map_entries(keys@, exprs_view(values@)),
{
    let mut out: Vec<LiteralMapEntry> = Vec::new();
    let mut values = values;
    let ghost vals = values@;
    let n = values.len();
    let mut rev: Vec<Expression> = Vec::new();
    while values.len() > 0
        invariant
            values@.len() + rev@.len() == n,
            n == vals.len(),
            forall|j: int| 0 <= j < values@.len() ==> values@[j] == vals[j],
            forall|j: int| 0 <= j < rev@.len() ==> rev@[j] == vals[n - 1 - j],
        decreases values.len(),
    {
        let e = values.pop().unwrap();
        rev.push(e);
    }
    let mut i: usize = 0;
    proof {
        crate::output::lemma_exprs_view_len(vals);
    }
    while i < n
        invariant
            i <= n,
            n == vals.len(),
            n <= keys@.len(),
            rev@.len() == n - i,
            forall|j: int| 0 <= j < rev@.len() ==> rev@[j] == vals[n - 1 - j],
            crate::output::map_entries_view(out@) == spec_map_entries(keys@, exprs_view(vals)).take(i as int),
        decreases n - i,
    {
        let e = rev.pop().unwrap();
        let ghost before = out@;
        out.push(LiteralMapEntry { key: keys[i].key.clone(), value: Box::new(e), quoted: keys[i].quoted });
        proof {
            assert(out@.drop_last() =~= before);
            crate::output::lemma_exprs_view_index(vals, i as int);
            assert(spec_map_entries(keys@, exprs_view(vals)).take(i + 1) =~= spec_map_entries(keys@, exprs_view(vals)).take(i as int).push(
                SMapEntry { key: keys@[i as int].key@, value: expr_view(e), quoted: keys@[i as int].quoted },
            ));
        }
        i += 1;
    }
    assert(spec_map_entries(keys@, exprs_view(vals)).take(n as int) =~= spec_map_entries(keys@, exprs_view(vals)));
    out
}

/// Convert a template expression into an output expression. Reads of the implicit receiver
/// become lexical reads, `this` becomes the root view's context, and each pipe allocates an
/// xref from the job.
#[verifier::rlimit(60)]
pub fn convert_ast<J: CompilationJob>(ast: &Ast, job: &mut J, base_source_span: Option<&ParseSourceSpan>) -> (r: Expression)
    requires
        convertible(*ast),
        old(job).spec_can_allocate_n(pipe_count(*ast)),
        base_span_ok(opt_span_ref_view(base_source_span)),
    ensures
        (r@, *final(job)) == spec_convert(*ast, *old(job), opt_span_ref_view(base_source_span)),
        forall|k: nat|
            old(job).spec_can_allocate_n(k + pipe_count(*ast))
                ==> #[trigger] final(job).spec_can_allocate_n(k),
    decreases ast, 0nat,
{
    let ghost base = opt_span_ref_view(base_source_span);
    let ghost job0 = *job;
    match ast {
        Ast::LiteralPrimitive(lit) => {
            let (value, span) = match lit {
                LiteralPrimitive::String { value, span } => (LiteralValue::String(value.clone()), span),
                LiteralPrimitive::Integer { value, span } => (LiteralValue::Integer(*value), span),
                LiteralPrimitive::Number { bits, span } => (LiteralValue::Number(*bits), span),
                LiteralPrimitive::Boolean { value, span } => (LiteralValue::Bool(*value), span),
                LiteralPrimitive::Null { span } => (LiteralValue::Null, span),
                LiteralPrimitive::Undefined { span } => (LiteralValue::Null, span),
            };
            proof { lemma_no_alloc(job0); }
            Expression::Literal(
                LiteralExpr { value, source_span: convert_source_span(span, base_source_span) },
            )
        },
        Ast::Binary { operation, left, right, span } => {
            let op = match binary_operator_from_str(operation.as_str()) {
                Some(op) => op,
                None => BinaryOperator::And,
            };
            proof { job.lemma_can_allocate_mono(pipe_count(*ast), pipe_count(**left)); }
            let l = convert_ast(left, job, base_source_span);
            let ghost j1 = *job;
            proof { lemma_after(job0, j1, pipe_count(**left), pipe_count(**right)); }
            let rr = convert_ast(right, job, base_source_span);
            proof { lemma_seq_alloc(job0, j1, *job, pipe_count(**left), pipe_count(**right)); }
            Expression::BinaryOp {
                operator: op,
                lhs: Box::new(l),
                rhs: Box::new(rr),
                source_span: convert_source_span(span, base_source_span),
            }
        },
        Ast::Unary { operator, expr, span } => {
            let op = if str_eq(operator.as_str(), "+") { UnaryOperator::Plus } else { UnaryOperator::Minus };
            let e = convert_ast(expr, job, base_source_span);
            Expression::Unary {
                operator: op,
                expr: Box::new(e),
                source_span: convert_source_span(span, base_source_span),
            }
        },
        Ast::Conditional { condition, true_exp, false_exp, span } => {
            proof { job.lemma_can_allocate_mono(pipe_count(*ast), pipe_count(**condition)); }
            let c = convert_ast(condition, job, base_source_span);
            let ghost j1 = *job;
            proof {
                lemma_after(job0, j1, pipe_count(**condition), pipe_count(**true_exp) + pipe_count(**false_exp));
                j1.lemma_can_allocate_mono(pipe_count(**true_exp) + pipe_count(**false_exp), pipe_count(**true_exp));
            }
            let t = convert_ast(true_exp, job, base_source_span);
            let ghost j2 = *job;
            proof {
                lemma_seq_alloc(job0, j1, j2, pipe_count(**condition), pipe_count(**true_exp));
                lemma_after(job0, j2, pipe_count(**condition) + pipe_count(**true_exp), pipe_count(**false_exp));
            }
            let f = convert_ast(false_exp, job, base_source_span);
            proof {
                lemma_seq_alloc(job0, j2, *job, pipe_count(**condition) + pipe_count(**true_exp), pipe_count(**false_exp));
            }
            Expression::Conditional {
                condition: Box::new(c),
                true_case: Box::new(t),
                false_case: Some(Box::new(f)),
                source_span: convert_source_span(span, base_source_span),
            }
        },
        Ast::Call { receiver, args, span } => {
            proof { job.lemma_can_allocate_mono(pipe_count(*ast), pipe_count(**receiver)); }
            let f = convert_ast(receiver, job, base_source_span);
            let ghost j1 = *job;
            proof { lemma_after(job0, j1, pipe_count(**receiver), pipe_count_list(args@)); }
            let a = convert_all(args, job, base_source_span);
            proof { lemma_seq_alloc(job0, j1, *job, pipe_count(**receiver), pipe_count_list(args@)); }
            Expression::InvokeFn {
                fn_: Box::new(f),
                args: a,
                source_span: convert_source_span(span, base_source_span),
                pure: false,
            }
        },
        Ast::PropertyRead { receiver, name, span } => {
            match &**receiver {
                Ast::ImplicitReceiver { .. } => {
                    proof { lemma_no_alloc(job0); }
                    Expression::LexicalRead {
                        name: name.clone(),
                        source_span: convert_source_span(span, base_source_span),
                    }
                },
                _ => {
                    let rr = convert_ast(receiver, job, base_source_span);
                    Expression::ReadProp {
                        receiver: Box::new(rr),
                        name: name.clone(),
                        source_span: convert_source_span(span, base_source_span),
                    }
                },
            }
        },
        Ast::KeyedRead { receiver, key, span } => {
            proof { job.lemma_can_allocate_mono(pipe_count(*ast), pipe_count(**receiver)); }
            let rr = convert_ast(receiver, job, base_source_span);
            let ghost j1 = *job;
            proof { lemma_after(job0, j1, pipe_count(**receiver), pipe_count(**key)); }
            let k = convert_ast(key, job, base_source_span);
            proof { lemma_seq_alloc(job0, j1, *job, pipe_count(**receiver), pipe_count(**key)); }
            Expression::ReadKey {
                receiver: Box::new(rr),
                index: Box::new(k),
                source_span: convert_source_span(span, base_source_span),
            }
        },
        Ast::LiteralArray { expressions, .. } => {
            let es = convert_all(expressions, job, base_source_span);
            Expression::LiteralArray(LiteralArrayExpr { entries: es, source_span: None })
        },
        Ast::LiteralMap { keys, values, span } => {
            let n = if values.len() <= keys.len() { values.len() } else { keys.len() };
            proof {
                if values@.len() <= keys@.len() {
                    assert(values@.take(n as int) =~= values@);
                }
            }
            let vs = convert_list(values, n, job, base_source_span);
            proof {
                crate::output::lemma_exprs_view_len(vs@);
                if values@.len() <= keys@.len() {
                    assert(values@.take(n as int) =~= values@);
                }
                lemma_convert_list_len(values@.take(n as int), job0, base);
            }
            let entries = make_map_entries(keys, vs);
            let r = Expression::LiteralMap {
                entries,
                source_span: convert_source_span(span, base_source_span),
            };
            assert((r@, *job) == spec_convert(*ast, job0, base));
            r
        },
        Ast::PrefixNot { expression, span } => {
            let e = convert_ast(expression, job, base_source_span);
            Expression::NotExpr {
                condition: Box::new(e),
                source_span: convert_source_span(span, base_source_span),
            }
        },
        Ast::TypeofExpression { expression, .. } => {
            let e = convert_ast(expression, job, base_source_span);
            Expression::TypeOf { expr: Box::new(e) }
        },
        Ast::VoidExpression { expression, span } => {
            let e = convert_ast(expression, job, base_source_span);
            Expression::Void {
                expr: Box::new(e),
                source_span: convert_source_span(span, base_source_span),
            }
        },
        Ast::NonNullAssert { expression, .. } => convert_ast(expression, job, base_source_span),
        Ast::ImplicitReceiver { .. } => {
            proof { lemma_no_alloc(job0); }
            Expression::ReadVar { name: String::from_str("$implicit"), source_span: None }
        },
        Ast::ThisReceiver { .. } => {
            proof { lemma_no_alloc(job0); }
            Expression::Context { view: job.root_xref() }
        },
        Ast::EmptyExpr { span } => {
            proof { lemma_no_alloc(job0); }
            Expression::Empty { source_span: convert_source_span(span, base_source_span) }
        },
        Ast::SafePropertyRead { receiver, name, .. } => {
            let rr = convert_ast(receiver, job, base_source_span);
            Expression::SafePropertyRead { receiver: Box::new(rr), name: name.clone() }
        },
        Ast::SafeKeyedRead { receiver, key, span } => {
            proof { job.lemma_can_allocate_mono(pipe_count(*ast), pipe_count(**receiver)); }
            let rr = convert_ast(receiver, job, base_source_span);
            let ghost j1 = *job;
            proof { lemma_after(job0, j1, pipe_count(**receiver), pipe_count(**key)); }
            let k = convert_ast(key, job, base_source_span);
            proof { lemma_seq_alloc(job0, j1, *job, pipe_count(**receiver), pipe_count(**key)); }
            Expression::SafeKeyedRead {
                receiver: Box::new(rr),
                index: Box::new(k),
                source_span: convert_source_span(span, base_source_span),
            }
        },
        Ast::SafeCall { receiver, args, .. } => {
            proof { job.lemma_can_allocate_mono(pipe_count(*ast), pipe_count(**receiver)); }
            let rr = convert_ast(receiver, job, base_source_span);
            let ghost j1 = *job;
            proof { lemma_after(job0, j1, pipe_count(**receiver), pipe_count_list(args@)); }
            let a = convert_all(args, job, base_source_span);
            proof { lemma_seq_alloc(job0, j1, *job, pipe_count(**receiver), pipe_count_list(args@)); }
            Expression::SafeInvokeFunction { receiver: Box::new(rr), args: a }
        },
        Ast::BindingPipe { exp, name, args, .. } => {
            proof {
                job.lemma_can_allocate_mono(pipe_count(*ast), 1);
                assert(job.spec_can_allocate_n(0 + 1));
                job.lemma_allocate_n((pipe_count(**exp) + pipe_count_list(args@)) as nat);
            }
            let xref = job.allocate_xref_id();
            let ghost j1 = *job;
            proof {
                assert forall|k: nat| job0.spec_can_allocate_n(k + 1) implies #[trigger] j1.spec_can_allocate_n(k) by {
                    job0.lemma_allocate_n(k);
                }
                j1.lemma_can_allocate_mono((pipe_count(**exp) + pipe_count_list(args@)) as nat, pipe_count(**exp));
            }
            let e = convert_ast(exp, job, base_source_span);
            let ghost j2 = *job;
            proof {
                lemma_seq_alloc(job0, j1, j2, 1, pipe_count(**exp));
                lemma_after(job0, j2, 1 + pipe_count(**exp), pipe_count_list(args@));
            }
            let rest = convert_all(args, job, base_source_span);
            proof { lemma_seq_alloc(job0, j2, *job, 1 + pipe_count(**exp), pipe_count_list(args@)); }
            let mut all: Vec<Expression> = Vec::new();
            all.push(e);
            let ghost first = all@;
            let mut rest = rest;
            let ghost rest_v = rest@;
            all.append(&mut rest);
            proof {
                assert(all@.skip(1) =~= rest_v);
                crate::output::lemma_exprs_view_append(first, all@.skip(1));
                assert(first + all@.skip(1) =~= all@);
                assert(first =~= Seq::<Expression>::empty().push(e));
                lemma_exprs_view_push(Seq::<Expression>::empty(), e);
                assert(exprs_view(first) =~= seq![expr_view(e)]);
            }
            let r = Expression::PipeBinding { target: xref, name: name.clone(), args: all };
            assert((r@, *job) == spec_convert(*ast, job0, base));
            r
        },
        Ast::TemplateLiteral { elements, expressions, .. } => {
            let els = convert_tpl_elements(elements, base_source_span);
            let es = convert_all(expressions, job, base_source_span);
            Expression::TemplateLiteral { elements: els, expressions: es }
        },
        Ast::TaggedTemplateLiteral { tag, elements, expressions, span } => {
            proof { job.lemma_can_allocate_mono(pipe_count(*ast), pipe_count(**tag)); }
            let t = convert_ast(tag, job, base_source_span);
            let ghost j1 = *job;
            proof { lemma_after(job0, j1, pipe_count(**tag), pipe_count_list(expressions@)); }
            let els = convert_tpl_elements(elements, base_source_span);
            let es = convert_all(expressions, job, base_source_span);
            proof { lemma_seq_alloc(job0, j1, *job, pipe_count(**tag), pipe_count_list(expressions@)); }
            Expression::TaggedTemplate {
                tag: Box::new(t),
                elements: els,
                expressions: es,
                source_span: convert_source_span(span, base_source_span),
            }
        },
        Ast::ParenthesizedExpression { expression, .. } => convert_ast(expression, job, base_source_span),
        Ast::RegularExpressionLiteral { body, flags, .. } => {
            let mut text = String::from_str("/");
            text.append(body.as_str());
            text.append("/");
            match flags {
                Some(f) => text.append(f.as_str()),
                None => {},
            }
            proof {
                lemma_no_alloc(job0);
                assert(text@ =~= spec_regex_text(body@, *flags));
            }
            let source_span = match base_source_span {
                Some(b) => Some(b.clone_span()),
                None => None,
            };
            let r = Expression::External {
                value: ExternalReference { name: Some(text), module_name: None },
                source_span,
            };
            assert((r@, *job) == spec_convert(*ast, job0, base));
            r
        },
        Ast::Chain { .. } => {
            proof { assert(false); }
            Expression::Empty { source_span: None }
        },
        Ast::Interpolation { .. } => {
            proof { assert(false); }
            Expression::Empty { source_span: None }
        },
    }
}

pub proof fn lemma_convert_list_len<J: CompilationJob>(s: Seq<Ast>, job: J, base: Option<SpecSpan>)
    ensures
        spec_convert_list(s, job, base).0.len() == s.len(),
    decreases s.len(),
{
    if s.len() > 0 {
        lemma_convert_list_len(s.drop_last(), job, base);
    }
}

} // verus!

verus! {

use crate::compilation::HostBindingCompilationJob;

/// Converting leaves a host binding job unchanged: its allocations return xref 0 and change
/// nothing.
pub proof fn lemma_convert_keeps_host_job(ast: Ast, job: HostBindingCompilationJob, base: Option<SpecSpan>)
    ensures
        spec_convert(ast, job, base).1 == job,
    decreases ast, 0nat,
{
    match ast {
        Ast::Binary { left, right, .. } => {
            lemma_convert_keeps_host_job(*left, job, base);
            lemma_convert_keeps_host_job(*right, job, base);
        },
        Ast::Unary { expr, .. } => lemma_convert_keeps_host_job(*expr, job, base),
        Ast::Conditional { condition, true_exp, false_exp, .. } => {
            lemma_convert_keeps_host_job(*condition, job, base);
            lemma_convert_keeps_host_job(*true_exp, job, base);
            lemma_convert_keeps_host_job(*false_exp, job, base);
        },
        Ast::Call { receiver, args, .. } => {
            lemma_convert_keeps_host_job(*receiver, job, base);
            lemma_convert_list_keeps_host_job(args@, job, base);
        },
        Ast::PropertyRead { receiver, .. } => lemma_convert_keeps_host_job(*receiver, job, base),
        Ast::KeyedRead { receiver, key, .. } => {
            lemma_convert_keeps_host_job(*receiver, job, base);
            lemma_convert_keeps_host_job(*key, job, base);
        },
        Ast::LiteralArray { expressions, .. } => lemma_convert_list_keeps_host_job(expressions@, job, base),
        Ast::LiteralMap { keys, values, .. } => {
            if values@.len() <= keys@.len() {
                lemma_convert_list_keeps_host_job(values@, job, base);
            } else {
                lemma_convert_list_keeps_host_job(values@.take(keys@.len() as int), job, base);
            }
        },
        Ast::PrefixNot { expression, .. } => lemma_convert_keeps_host_job(*expression, job, base),
        Ast::TypeofExpression { expression, .. } => lemma_convert_keeps_host_job(*expression, job, base),
        Ast::VoidExpression { expression, .. } => lemma_convert_keeps_host_job(*expression, job, base),
        Ast::NonNullAssert { expression, .. } => lemma_convert_keeps_host_job(*expression, job, base),
        Ast::SafePropertyRead { receiver, .. } => lemma_convert_keeps_host_job(*receiver, job, base),
        Ast::SafeKeyedRead { receiver, key, .. } => {
            lemma_convert_keeps_host_job(*receiver, job, base);
            lemma_convert_keeps_host_job(*key, job, base);
        },
        Ast::SafeCall { receiver, args, .. } => {
            lemma_convert_keeps_host_job(*receiver, job, base);
            lemma_convert_list_keeps_host_job(args@, job, base);
        },
        Ast::BindingPipe { exp, args, .. } => {
            lemma_convert_keeps_host_job(*exp, job, base);
            lemma_convert_list_keeps_host_job(args@, job, base);
        },
        Ast::TemplateLiteral { expressions, .. } => lemma_convert_list_keeps_host_job(expressions@, job, base),
        Ast::TaggedTemplateLiteral { tag, expressions, .. } => {
            lemma_convert_keeps_host_job(*tag, job, base);
            lemma_convert_list_keeps_host_job(expressions@, job, base);
        },
        Ast::ParenthesizedExpression { expression, .. } => lemma_convert_keeps_host_job(*expression, job, base),
        _ => {},
    }
}

pub proof fn lemma_convert_list_keeps_host_job(s: Seq<Ast>, job: HostBindingCompilationJob, base: Option<SpecSpan>)
    ensures
        spec_convert_list(s, job, base).1 == job,
    decreases s, 0nat,
{
    if s.len() > 0 {
        lemma_convert_list_keeps_host_job(s.drop_last(), job, base);
        lemma_convert_keeps_host_job(s.last(), job, base);
    }
}

} // verus!

verus! {

/// For host binding jobs, the converted expression depends on the job only through its root xref.
pub proof fn lemma_convert_host_root_only(
    ast: Ast,
    j1: HostBindingCompilationJob,
    j2: HostBindingCompilationJob,
    base: Option<SpecSpan>,
)
    requires
        j1.root.xref == j2.root.xref,
    ensures
        spec_convert(ast, j1, base).0 == spec_convert(ast, j2, base).0,
    decreases ast, 0nat,
{
    lemma_convert_keeps_host_job(ast, j1, base);
    lemma_convert_keeps_host_job(ast, j2, base);
    match ast {
        Ast::Binary { left, right, .. } => {
            lemma_convert_host_root_only(*left, j1, j2, base);
            lemma_convert_keeps_host_job(*left, j1, base);
            lemma_convert_keeps_host_job(*left, j2, base);
            lemma_convert_host_root_only(*right, j1, j2, base);
        },
        Ast::Unary { expr, .. } => lemma_convert_host_root_only(*expr, j1, j2, base),
        Ast::Conditional { condition, true_exp, false_exp, .. } => {
            lemma_convert_keeps_host_job(*condition, j1, base);
            lemma_convert_keeps_host_job(*condition, j2, base);
            lemma_convert_keeps_host_job(*true_exp, j1, base);
            lemma_convert_keeps_host_job(*true_exp, j2, base);
            lemma_convert_host_root_only(*condition, j1, j2, base);
            lemma_convert_host_root_only(*true_exp, j1, j2, base);
            lemma_convert_host_root_only(*false_exp, j1, j2, base);
        },
        Ast::Call { receiver, args, .. } => {
            lemma_convert_keeps_host_job(*receiver, j1, base);
            lemma_convert_keeps_host_job(*receiver, j2, base);
            lemma_convert_host_root_only(*receiver, j1, j2, base);
            lemma_convert_list_host_root_only(args@, j1, j2, base);
        },
        Ast::PropertyRead { receiver, .. } => lemma_convert_host_root_only(*receiver, j1, j2, base),
        Ast::KeyedRead { receiver, key, .. } => {
            lemma_convert_keeps_host_job(*receiver, j1, base);
            lemma_convert_keeps_host_job(*receiver, j2, base);
            lemma_convert_host_root_only(*receiver, j1, j2, base);
            lemma_convert_host_root_only(*key, j1, j2, base);
        },
        Ast::LiteralArray { expressions, .. } => lemma_convert_list_host_root_only(expressions@, j1, j2, base),
        Ast::LiteralMap { keys, values, .. } => {
            if values@.len() <= keys@.len() {
                lemma_convert_list_host_root_only(values@, j1, j2, base);
            } else {
                lemma_convert_list_host_root_only(values@.take(keys@.len() as int), j1, j2, base);
            }
        },
        Ast::PrefixNot { expression, .. } => lemma_convert_host_root_only(*expression, j1, j2, base),
        Ast::TypeofExpression { expression, .. } => lemma_convert_host_root_only(*expression, j1, j2, base),
        Ast::VoidExpression { expression, .. } => lemma_convert_host_root_only(*expression, j1, j2, base),
        Ast::NonNullAssert { expression, .. } => lemma_convert_host_root_only(*expression, j1, j2, base),
        Ast::SafePropertyRead { receiver, .. } => lemma_convert_host_root_only(*receiver, j1, j2, base),
        Ast::SafeKeyedRead { receiver, key, .. } => {
            lemma_convert_keeps_host_job(*receiver, j1, base);
            lemma_convert_keeps_host_job(*receiver, j2, base);
            lemma_convert_host_root_only(*receiver, j1, j2, base);
            lemma_convert_host_root_only(*key, j1, j2, base);
        },
        Ast::SafeCall { receiver, args, .. } => {
            lemma_convert_keeps_host_job(*receiver, j1, base);
            lemma_convert_keeps_host_job(*receiver, j2, base);
            lemma_convert_host_root_only(*receiver, j1, j2, base);
            lemma_convert_list_host_root_only(args@, j1, j2, base);
        },
        Ast::BindingPipe { exp, args, .. } => {
            lemma_convert_keeps_host_job(*exp, j1, base);
            lemma_convert_keeps_host_job(*exp, j2, base);
            lemma_convert_host_root_only(*exp, j1, j2, base);
            lemma_convert_list_host_root_only(args@, j1, j2, base);
        },
        Ast::TemplateLiteral { expressions, .. } => lemma_convert_list_host_root_only(expressions@, j1, j2, base),
        Ast::TaggedTemplateLiteral { tag, expressions, .. } => {
            lemma_convert_keeps_host_job(*tag, j1, base);
            lemma_convert_keeps_host_job(*tag, j2, base);
            lemma_convert_host_root_only(*tag, j1, j2, base);
            lemma_convert_list_host_root_only(expressions@, j1, j2, base);
        },
        Ast::ParenthesizedExpression { expression, .. } => lemma_convert_host_root_only(*expression, j1, j2, base),
        _ => {},
    }
}

pub proof fn lemma_convert_list_host_root_only(
    s: Seq<Ast>,
    j1: HostBindingCompilationJob,
    j2: HostBindingCompilationJob,
    base: Option<SpecSpan>,
)
    requires
        j1.root.xref == j2.root.xref,
    ensures
        spec_convert_list(s, j1, base).0 == spec_convert_list(s, j2, base).0,
    decreases s, 0nat,
{
    if s.len() > 0 {
        lemma_convert_list_host_root_only(s.drop_last(), j1, j2, base);
        lemma_convert_list_keeps_host_job(s.drop_last(), j1, base);
        lemma_convert_list_keeps_host_job(s.drop_last(), j2, base);
        lemma_convert_host_root_only(s.last(), j1, j2, base);
    }
}

} // verus!
