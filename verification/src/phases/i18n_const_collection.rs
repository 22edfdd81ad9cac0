//! Names and declarations of the constants that hold translations.

use vstd::prelude::*;
use vstd::string::*;
use crate::output::{Expression, SExpr, SStmt, Statement, StmtModifier, stmt_view, expr_view};
use crate::parse_util::clone_opt_span;

verus! {

/// The Unicode uppercase mapping of a string.
pub uninterp spec fn uppercase(s: Seq<char>) -> Seq<char>;

/// `str::to_uppercase`: the Unicode uppercase mapping of `s`, a function of `s` alone.
#[verifier::external_body]
fn to_uppercase(s: &str) -> (r: String)
    ensures
        r@ == uppercase(s@),
{
    s.to_uppercase()
}

/// The prefix of a translation constant's name: `MSG_` and `extra`, in upper case.
pub fn get_translation_const_prefix(extra: &str) -> (r: String)
    ensures
        r@ == uppercase("MSG_"@ + extra@),
{
    let s = String::from_str("MSG_").concat(extra);
    to_uppercase(s.as_str())
}

/// The declaration `var <name>;` of a variable that a read names: a plain (not final)
/// variable without a value, which keeps the read's source span.
pub fn declare_i18n_variable(variable: &Expression) -> (r: Statement)
    requires
        variable is ReadVar,
    ensures
        stmt_view(r) == (SStmt::DeclareVar {
            name: expr_view(*variable)->ReadVar_name,
            value: None,
            modifiers: StmtModifier::Plain,
            source_span: expr_view(*variable)->ReadVar_source_span,
        }),
{
    match variable {
        Expression::ReadVar { name, source_span } => Statement::DeclareVar {
            name: name.clone(),
            value: None,
            modifiers: StmtModifier::Plain,
            source_span: clone_opt_span(source_span),
        },
        _ => {
            assert(false);
            Statement::DeclareVar { name: String::new(), value: None, modifiers: StmtModifier::Plain, source_span: None }
        },
    }
}

} // verus!
