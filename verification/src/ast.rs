//! The part of a JavaScript syntax tree that the extractor reads.
//!
//! Every node that the extractor never looks into is kept as an `Other`
//! variant, so a tree of these types is a faithful, if coarse, picture of the
//! parsed module.
use vstd::prelude::*;

verus! {

/// One literal piece of a template literal: its raw text and, where the
/// escapes in it are valid, its cooked text.
pub struct TemplateQuasi {
    pub raw: String,
    pub cooked: Option<String>,
}

/// A numeric literal. `bits` is the IEEE-754 bit pattern of its value, and
/// `as_u32` is that value converted to `u32` the way Rust's `as` converts a
/// float (towards zero, saturating, NaN to 0).
pub struct NumberLit {
    pub bits: u64,
    pub as_u32: u32,
}

pub enum JsExpr {
    /// A string literal, with its value.
    Str(String),
    /// A template literal: its literal pieces and its embedded expressions.
    Template(Vec<TemplateQuasi>, Vec<JsExpr>),
    /// An identifier reference.
    Ident(String),
    Num(NumberLit),
    This,
    Class(JsClass),
    /// A comma expression.
    Sequence(Vec<JsExpr>),
    /// `left = right` (plain or compound assignment).
    Assign(Box<JsTarget>, Box<JsExpr>),
    /// A call: callee and arguments.
    Call(Box<JsExpr>, Vec<JsArg>),
    /// A static member access `object.property`.
    Member(Box<JsExpr>, String),
    Arrow(Box<JsArrowBody>),
    Array(Vec<JsElem>),
    Object(Vec<JsProp>),
    Other,
}

/// The body of an arrow function: a block, or a single expression.
pub enum JsArrowBody {
    Block(Vec<JsStmt>),
    Expr(JsExpr),
}

/// The left side of an assignment.
pub enum JsTarget {
    Ident(String),
    Member(JsExpr, String),
    Other,
}

/// An argument of a call.
pub enum JsArg {
    Spread,
    Expr(JsExpr),
}

/// An element of an array literal.
pub enum JsElem {
    Spread,
    Hole,
    Expr(JsExpr),
}

/// A member of an object literal.
pub enum JsProp {
    Prop(JsKey, JsExpr),
    Spread,
}

/// The key of an object property.
pub enum JsKey {
    /// A plain name, `a` in `{ a: 1 }`.
    Static(String),
    /// An identifier reference used as a key.
    Ident(String),
    /// A string literal key, `"a"` in `{ "a": 1 }`.
    Str(String),
    Other,
}

/// One declarator of a `var`/`let`/`const` statement: the bound name when the
/// binding is a plain identifier, and the initializer.
pub struct JsDeclarator {
    pub id: Option<String>,
    pub init: Option<JsExpr>,
}

pub enum JsStmt {
    VarDecl(Vec<JsDeclarator>),
    Expr(JsExpr),
    Other,
}

pub struct JsClass {
    pub members: Vec<JsMember>,
}

pub enum JsMember {
    StaticBlock(Vec<JsStmt>),
    Other,
}

/// The statements of an arrow function body. A concise body `() => e`
/// counts as the single expression statement `e;`.
pub open spec fn arrow_statements(b: JsArrowBody) -> Seq<JsStmt> {
    match b {
        JsArrowBody::Block(ss) => ss@,
        JsArrowBody::Expr(e) => seq![JsStmt::Expr(e)],
    }
}

/// The expression of the first statement of an arrow body, when that
/// statement is an expression statement.
pub open spec fn first_stmt_expr(b: JsArrowBody) -> Option<JsExpr> {
    let ss = arrow_statements(b);
    if ss.len() > 0 {
        match ss[0] {
            JsStmt::Expr(e) => Some(e),
            _ => None,
        }
    } else {
        None
    }
}

pub fn arrow_first_expr(b: &JsArrowBody) -> (r: Option<&JsExpr>)
    ensures
        crate::seqs::deref_opt(r) == first_stmt_expr(*b),
{
    match b {
        JsArrowBody::Block(ss) => {
            if ss.len() > 0 {
                if let JsStmt::Expr(e) = &ss[0] {
                    return Some(e);
                }
            }
            None
        },
        JsArrowBody::Expr(e) => Some(e),
    }
}

} // verus!
