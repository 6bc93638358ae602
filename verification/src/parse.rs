//! Boundary to the external ECMAScript parser and its syntax-tree types.
//!
//! The expression trees that the builder stores are values of the parser
//! crate's own types, which are opaque here; what parsing returns and what a
//! tree looks like is only spoken of through the uninterpreted names below,
//! which the trusted wrappers in this module tie to the real calls.

use vstd::prelude::*;

verus! {

#[verifier::external_type_specification]
#[verifier::external_body]
pub struct ExModuleItem(swc_ecma_ast::ModuleItem);

#[verifier::external_type_specification]
#[verifier::external_body]
pub struct ExExpr(swc_ecma_ast::Expr);

/// What parsing the text `src` under the diagnostic label `label` returns:
/// the sequence of top-level items of the parsed module, or the parser's
/// diagnostic text. Parsing is a pure function of the two arguments.
pub uninterp spec fn parse_result_of(label: Seq<char>, src: Seq<char>) -> Result<
    Seq<swc_ecma_ast::ModuleItem>,
    Seq<char>,
>;

/// The expression of a top-level item that is exactly a bare expression
/// statement, and nothing for every other kind of item.
pub uninterp spec fn expr_stmt_of(item: swc_ecma_ast::ModuleItem) -> Option<swc_ecma_ast::Expr>;

/// The literal shape of an expression tree: the cooked value of a string
/// literal, the value of a boolean literal, or neither.
pub enum LitShape {
    Str(Seq<char>),
    Bool(bool),
    Other,
}

/// What an expression tree is when looked at as a literal; a pure function
/// of the tree.
pub uninterp spec fn literal_shape_of(e: swc_ecma_ast::Expr) -> LitShape;

/// The literal read off an expression tree, as executable data.
pub enum LiteralValue {
    Str(String),
    Bool(bool),
    Other,
}

impl View for LiteralValue {
    type V = LitShape;

    open spec fn view(&self) -> LitShape {
        match self {
            LiteralValue::Str(s) => LitShape::Str(s@),
            LiteralValue::Bool(b) => LitShape::Bool(*b),
            LiteralValue::Other => LitShape::Other,
        }
    }
}

/// Relies on swc_ecma_parser::parse_file_as_module: it parses the text as an
/// ECMAScript module (default dialect and version) and returns its top-level
/// items; any syntax error, fatal or recovered, is returned as a diagnostic.
#[verifier::external_body]
pub(crate) fn parse_items(label: &str, src: &str) -> (r: Result<
    Vec<swc_ecma_ast::ModuleItem>,
    String,
>)
    ensures
        match r {
            Ok(items) => parse_result_of(label@, src@) == Ok::<
                Seq<swc_ecma_ast::ModuleItem>,
                Seq<char>,
            >(items@),
            Err(d) => parse_result_of(label@, src@) == Err::<
                Seq<swc_ecma_ast::ModuleItem>,
                Seq<char>,
            >(d@),
        },
{
    let cm = swc_common::SourceMap::default();
    let name = swc_common::FileName::Custom(label.to_string());
    let fm = cm.new_source_file(name.into(), src.to_string());
    let mut recovered: Vec<swc_ecma_parser::error::Error> = Vec::new();
    let syntax = Default::default();
    let target = Default::default();
    let parsed = swc_ecma_parser::parse_file_as_module(&fm, syntax, target, None, &mut recovered);
    match parsed {
        Ok(module) if recovered.is_empty() => Ok(module.body),
        Ok(_) => Err(format!("{:?}", recovered)),
        Err(e) => Err(format!("{:?}", e)),
    }
}

/// Relies on swc_ecma_ast::ModuleItem and swc_ecma_ast::Stmt: tells a bare
/// expression statement apart from every other top-level item and hands out
/// its expression.
#[verifier::external_body]
pub(crate) fn item_into_expr(item: swc_ecma_ast::ModuleItem) -> (r: Option<swc_ecma_ast::Expr>)
    ensures
        r == expr_stmt_of(item),
{
    match item {
        swc_ecma_ast::ModuleItem::Stmt(swc_ecma_ast::Stmt::Expr(stmt)) => Some(*stmt.expr),
        _ => None,
    }
}

/// Relies on swc_ecma_ast::Expr and swc_ecma_ast::Lit: a string literal's
/// cooked value (re-encoded lossily where it is not valid UTF-8) and a
/// boolean literal's value, one arm per literal kind.
#[verifier::external_body]
fn expr_literal(e: &swc_ecma_ast::Expr) -> (r: LiteralValue)
    ensures
        r@ == literal_shape_of(*e),
{
    match e {
        swc_ecma_ast::Expr::Lit(swc_ecma_ast::Lit::Str(s)) => LiteralValue::Str(
            s.value.to_string_lossy().into_owned(),
        ),
        swc_ecma_ast::Expr::Lit(swc_ecma_ast::Lit::Bool(b)) => LiteralValue::Bool(b.value),
        _ => LiteralValue::Other,
    }
}

/// Reads the literal shape of a resolved expression tree: the value of a
/// string literal or of a boolean literal, or neither.
pub fn literal_of(e: &swc_ecma_ast::Expr) -> (r: LiteralValue)
    ensures
        r@ == literal_shape_of(*e),
{
    expr_literal(e)
}

} // verus!
