//! Parsing JavaScript source with `oxc_parser`, and lowering oxc's tree into
//! the library's own syntax tree of [`crate::ast`].
//!
//! Everything in this file is trusted: the lowering functions only copy the
//! fields that the extractor reads from oxc's nodes into the library's nodes,
//! one oxc variant to one library variant, and map every other variant to
//! `Other`.
use vstd::prelude::*;
use crate::tables::names_view;
use crate::ast::{
    JsArg, JsArrowBody, JsClass, JsDeclarator, JsElem, JsExpr, JsKey, JsMember, JsProp, JsStmt,
    JsTarget, NumberLit, TemplateQuasi,
};
use oxc_ast::ast::{
    Argument, ArrayExpressionElement, ArrowFunctionBody, AssignmentTarget, BindingPattern, Class,
    ClassElement, Expression, ObjectPropertyKind, PropertyKey, Statement, TemplateLiteral,
    VariableDeclarator,
};

verus! {

#[verifier::external_type_specification]
#[verifier::external_body]
pub struct ExStatement<'a>(Statement<'a>);

#[verifier::external_type_specification]
#[verifier::external_body]
pub struct ExVariableDeclarator<'a>(VariableDeclarator<'a>);

#[verifier::external_type_specification]
#[verifier::external_body]
pub struct ExExpression<'a>(Expression<'a>);

#[verifier::external_type_specification]
#[verifier::external_body]
pub struct ExTemplateLiteral<'a>(TemplateLiteral<'a>);

#[verifier::external_type_specification]
#[verifier::external_body]
pub struct ExArgument<'a>(Argument<'a>);

#[verifier::external_type_specification]
#[verifier::external_body]
pub struct ExArrayExpressionElement<'a>(ArrayExpressionElement<'a>);

#[verifier::external_type_specification]
#[verifier::external_body]
pub struct ExObjectPropertyKind<'a>(ObjectPropertyKind<'a>);

#[verifier::external_type_specification]
#[verifier::external_body]
pub struct ExPropertyKey<'a>(PropertyKey<'a>);

#[verifier::external_type_specification]
#[verifier::external_body]
pub struct ExAssignmentTarget<'a>(AssignmentTarget<'a>);

#[verifier::external_type_specification]
#[verifier::external_body]
pub struct ExClass<'a>(Class<'a>);

#[verifier::external_type_specification]
#[verifier::external_body]
pub struct ExClassElement<'a>(ClassElement<'a>);

#[verifier::external_type_specification]
#[verifier::external_body]
pub struct ExArrowFunctionBody<'a>(ArrowFunctionBody<'a>);

/// What `oxc_parser` makes of a source text (parsed as an ES module): the
/// top-level statements of the program, lowered into the library's syntax
/// tree, and the parser's diagnostics, each in its `Debug` form.
pub uninterp spec fn parsed_module(source: Seq<char>) -> (Seq<JsStmt>, Seq<Seq<char>>);

/// Parses `source` with `oxc_parser::Parser` (source type `mjs`), lowers the
/// statements of the resulting program, and writes each diagnostic of the
/// parse in its `Debug` form. The parser recovers from syntax errors where it
/// can and yields an empty program where it cannot. The contract claims only
/// that the result is a function of the source text.
#[verifier::external_body]
pub(crate) fn parse_module(source: &str) -> (r: (Vec<JsStmt>, Vec<String>))
    ensures
        (r.0@, names_view(r.1@)) == parsed_module(source@),
{
    let allocator = oxc_allocator::Allocator::default();
    let parsed = oxc_parser::Parser::new(&allocator, source, oxc_span::SourceType::mjs()).parse();
    let warnings = parsed.diagnostics.iter().map(|d| format!("{:?}", d)).collect();
    (parsed.program.body.iter().map(lower_statement).collect(), warnings)
}

/// Lowers one statement: variable declarations and expression statements are
/// kept, every other statement becomes `Other`.
#[verifier::external_body]
fn lower_statement(stmt: &Statement) -> JsStmt {
    match stmt {
        Statement::VariableDeclaration(v) => {
            JsStmt::VarDecl(v.declarations.iter().map(lower_declarator).collect())
        },
        Statement::ExpressionStatement(e) => JsStmt::Expr(lower_expression(&e.expression)),
        _ => JsStmt::Other,
    }
}

/// Lowers a declarator: the bound name where the binding is a plain
/// identifier, and the initializer.
#[verifier::external_body]
fn lower_declarator(decl: &VariableDeclarator) -> JsDeclarator {
    let id = match &decl.id {
        BindingPattern::BindingIdentifier(id) => Some(id.name.to_string()),
        _ => None,
    };
    JsDeclarator { id, init: decl.init.as_ref().map(lower_expression) }
}

/// Lowers the leaf expressions; the compound ones are left to
/// `lower_compound_expression`.
#[verifier::external_body]
fn lower_expression(expr: &Expression) -> JsExpr {
    match expr {
        Expression::StringLiteral(s) => JsExpr::Str(s.value.to_string()),
        Expression::TemplateLiteral(t) => lower_template(t),
        Expression::Identifier(id) => JsExpr::Ident(id.name.to_string()),
        Expression::NumericLiteral(n) => {
            JsExpr::Num(NumberLit { bits: n.value.to_bits(), as_u32: n.value as u32 })
        },
        Expression::ThisExpression(_) => JsExpr::This,
        Expression::ClassExpression(c) => JsExpr::Class(lower_class(c)),
        _ => lower_compound_expression(expr),
    }
}

/// Lowers comma, assignment, call and static member expressions; the rest is
/// left to `lower_literal_structure`.
#[verifier::external_body]
fn lower_compound_expression(expr: &Expression) -> JsExpr {
    match expr {
        Expression::SequenceExpression(s) => JsExpr::Sequence(s.expressions.iter().map(lower_expression).collect()),
        Expression::AssignmentExpression(a) => JsExpr::Assign(Box::new(lower_target(&a.left)), Box::new(lower_expression(&a.right))),
        Expression::CallExpression(c) => JsExpr::Call(Box::new(lower_expression(&c.callee)), c.arguments.iter().map(lower_argument).collect()),
        Expression::StaticMemberExpression(m) => JsExpr::Member(Box::new(lower_expression(&m.object)), m.property.name.to_string()),
        _ => lower_literal_structure(expr),
    }
}

/// Lowers arrow functions, array literals and object literals; every other
/// expression becomes `Other`.
#[verifier::external_body]
fn lower_literal_structure(expr: &Expression) -> JsExpr {
    match expr {
        Expression::ArrowFunctionExpression(a) => JsExpr::Arrow(Box::new(lower_arrow_body(&a.body))),
        Expression::ArrayExpression(a) => JsExpr::Array(a.elements.iter().map(lower_element).collect()),
        Expression::ObjectExpression(o) => {
            JsExpr::Object(o.properties.iter().map(lower_property).collect())
        },
        _ => JsExpr::Other,
    }
}

/// Lowers a template literal: the raw and cooked text of each piece, and the
/// embedded expressions.
#[verifier::external_body]
fn lower_template(t: &TemplateLiteral) -> JsExpr {
    let quasis = t.quasis.iter().map(|q| TemplateQuasi {
        raw: q.value.raw.to_string(),
        cooked: q.value.cooked.as_ref().map(|c| c.to_string()),
    });
    JsExpr::Template(quasis.collect(), t.expressions.iter().map(lower_expression).collect())
}

/// Lowers the left side of an assignment: an identifier, a static member
/// access, or `Other`.
#[verifier::external_body]
fn lower_target(target: &AssignmentTarget) -> JsTarget {
    match target {
        AssignmentTarget::AssignmentTargetIdentifier(id) => JsTarget::Ident(id.name.to_string()),
        AssignmentTarget::StaticMemberExpression(m) => {
            JsTarget::Member(lower_expression(&m.object), m.property.name.to_string())
        },
        _ => JsTarget::Other,
    }
}

/// Lowers a call argument: a spread, or the expression it is.
#[verifier::external_body]
fn lower_argument(arg: &Argument) -> JsArg {
    match arg.as_expression() {
        Some(e) => JsArg::Expr(lower_expression(e)),
        None => JsArg::Spread,
    }
}

/// Lowers an array element: a spread, a hole, or the expression it is.
#[verifier::external_body]
fn lower_element(elem: &ArrayExpressionElement) -> JsElem {
    match elem {
        ArrayExpressionElement::SpreadElement(_) => JsElem::Spread,
        ArrayExpressionElement::Elision(_) => JsElem::Hole,
        _ => match elem.as_expression() {
            Some(e) => JsElem::Expr(lower_expression(e)),
            None => JsElem::Hole,
        },
    }
}

/// Lowers an object member: a `key: value` property, or a spread.
#[verifier::external_body]
fn lower_property(prop: &ObjectPropertyKind) -> JsProp {
    match prop {
        ObjectPropertyKind::ObjectProperty(p) => JsProp::Prop(lower_key(&p.key), lower_expression(&p.value)),
        ObjectPropertyKind::SpreadProperty(_) => JsProp::Spread,
    }
}

/// Lowers a property key: a plain name, an identifier, a string literal, or
/// `Other`.
#[verifier::external_body]
fn lower_key(key: &PropertyKey) -> JsKey {
    match key {
        PropertyKey::StaticIdentifier(id) => JsKey::Static(id.name.to_string()),
        PropertyKey::Identifier(id) => JsKey::Ident(id.name.to_string()),
        PropertyKey::StringLiteral(s) => JsKey::Str(s.value.to_string()),
        _ => JsKey::Other,
    }
}

/// Lowers a class to its list of members.
#[verifier::external_body]
fn lower_class(class: &Class) -> JsClass {
    JsClass { members: class.body.body.iter().map(lower_class_element).collect() }
}

/// Lowers a class member: a static block with its statements, or `Other`.
#[verifier::external_body]
fn lower_class_element(member: &ClassElement) -> JsMember {
    match member {
        ClassElement::StaticBlock(sb) => JsMember::StaticBlock(sb.body.iter().map(lower_statement).collect()),
        _ => JsMember::Other,
    }
}

/// Lowers the body of an arrow function: a block with its statements, or the
/// single expression of a concise body.
#[verifier::external_body]
fn lower_arrow_body(body: &ArrowFunctionBody) -> JsArrowBody {
    match body {
        ArrowFunctionBody::FunctionBody(b) => JsArrowBody::Block(b.statements.iter().map(lower_statement).collect()),
        _ => match body.as_expression() {
            Some(e) => JsArrowBody::Expr(lower_expression(e)),
            None => JsArrowBody::Block(Vec::new()),
        },
    }
}

} // verus!
