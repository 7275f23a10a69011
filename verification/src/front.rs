//! Source text to syntax tree: `ecma-lex-cat` reads the tokens,
//! `ecma-parse-cat` the script, and the parser's tree is carried over
//! node for node into [`crate::ast`], numbers as their binary64
//! encodings and the node kinds the engine does not evaluate by their
//! kind alone.  The functions below that take the parser's nodes are
//! trusted: each moves one node's fields over, and claims nothing.

use vstd::prelude::*;

use std::sync::Arc;

use crate::ast::{
    ArrowCode, ArrowCodeBody, AssignOp, BinaryOp, CatchBlock, Declaration, DeclarationKind, Declarator,
    EntryKind, Expression, ForStart, FunctionCode, LiteralValue, LogicalOp, MemberName, ObjectEntry, Pattern,
    Program, PropertyName, Statement, UnaryOp, UpdateOp,
};
use ecma_syntax_cat::declaration::{VariableDeclaration, VariableDeclarator, VariableKind};
use ecma_syntax_cat::expression::ExpressionKind as E;
use ecma_syntax_cat::expression::{MemberProperty, ObjectMember, ObjectPropertyKind, PropertyKey};
use ecma_syntax_cat::function::{ArrowBody, ArrowFunction, Function};
use ecma_syntax_cat::literal::Literal;
use ecma_syntax_cat::operator::{
    AssignmentOperator, BinaryOperator, LogicalOperator, UnaryOperator, UpdateOperator,
};
use ecma_syntax_cat::pattern::PatternKind;
use ecma_syntax_cat::program::ProgramKind;
use ecma_syntax_cat::span::Spanned;
use ecma_syntax_cat::statement::StatementKind as S;
use ecma_syntax_cat::statement::{CatchClause, ForInit};

verus! {

/// The parser's `Spanned`, carried through unopened.
#[verifier::external_type_specification]
#[verifier::external_body]
#[verifier::reject_recursive_types(T)]
pub struct ExSpanned<T>(ecma_syntax_cat::span::Spanned<T>);

/// The parser's `ProgramKind`, carried through unopened.
#[verifier::external_type_specification]
#[verifier::external_body]
pub struct ExProgramKind(ecma_syntax_cat::program::ProgramKind);

/// The parser's `StatementKind`, carried through unopened.
#[verifier::external_type_specification]
#[verifier::external_body]
pub struct ExStatementKind(ecma_syntax_cat::statement::StatementKind);

/// The parser's `ExpressionKind`, carried through unopened.
#[verifier::external_type_specification]
#[verifier::external_body]
pub struct ExExpressionKind(ecma_syntax_cat::expression::ExpressionKind);

/// The parser's `PatternKind`, carried through unopened.
#[verifier::external_type_specification]
#[verifier::external_body]
pub struct ExPatternKind(ecma_syntax_cat::pattern::PatternKind);

/// The parser's `ForInit`, carried through unopened.
#[verifier::external_type_specification]
#[verifier::external_body]
pub struct ExForInit(ecma_syntax_cat::statement::ForInit);

/// The parser's `CatchClause`, carried through unopened.
#[verifier::external_type_specification]
#[verifier::external_body]
pub struct ExCatchClause(ecma_syntax_cat::statement::CatchClause);

/// The parser's `VariableDeclaration`, carried through unopened.
#[verifier::external_type_specification]
#[verifier::external_body]
pub struct ExVariableDeclaration(ecma_syntax_cat::declaration::VariableDeclaration);

/// The parser's `VariableDeclarator`, carried through unopened.
#[verifier::external_type_specification]
#[verifier::external_body]
pub struct ExVariableDeclarator(ecma_syntax_cat::declaration::VariableDeclarator);

/// The parser's `Function`, carried through unopened.
#[verifier::external_type_specification]
#[verifier::external_body]
pub struct ExFunction(ecma_syntax_cat::function::Function);

/// The parser's `ArrowFunction`, carried through unopened.
#[verifier::external_type_specification]
#[verifier::external_body]
pub struct ExArrowFunction(ecma_syntax_cat::function::ArrowFunction);

/// The parser's `ArrowBody`, carried through unopened.
#[verifier::external_type_specification]
#[verifier::external_body]
pub struct ExArrowBody(ecma_syntax_cat::function::ArrowBody);

/// The parser's `Literal`, carried through unopened.
#[verifier::external_type_specification]
#[verifier::external_body]
pub struct ExLiteral(ecma_syntax_cat::literal::Literal);

/// The parser's `ObjectMember`, carried through unopened.
#[verifier::external_type_specification]
#[verifier::external_body]
pub struct ExObjectMember(ecma_syntax_cat::expression::ObjectMember);

/// The parser's `PropertyKey`, carried through unopened.
#[verifier::external_type_specification]
#[verifier::external_body]
pub struct ExPropertyKey(ecma_syntax_cat::expression::PropertyKey);

/// The parser's `MemberProperty`, carried through unopened.
#[verifier::external_type_specification]
#[verifier::external_body]
pub struct ExMemberProperty(ecma_syntax_cat::expression::MemberProperty);

/// The parser's `BinaryOperator`, carried through unopened.
#[verifier::external_type_specification]
#[verifier::external_body]
pub struct ExBinaryOperator(ecma_syntax_cat::operator::BinaryOperator);

/// The parser's `AssignmentOperator`, carried through unopened.
#[verifier::external_type_specification]
#[verifier::external_body]
pub struct ExAssignmentOperator(ecma_syntax_cat::operator::AssignmentOperator);

/// The parser's `UnaryOperator`, carried through unopened.
#[verifier::external_type_specification]
#[verifier::external_body]
pub struct ExUnaryOperator(ecma_syntax_cat::operator::UnaryOperator);

/// The parser's `LogicalOperator`, carried through unopened.
#[verifier::external_type_specification]
#[verifier::external_body]
pub struct ExLogicalOperator(ecma_syntax_cat::operator::LogicalOperator);

/// The parser's `UpdateOperator`, carried through unopened.
#[verifier::external_type_specification]
#[verifier::external_body]
pub struct ExUpdateOperator(ecma_syntax_cat::operator::UpdateOperator);

/// The parser's `ObjectPropertyKind`, carried through unopened.
#[verifier::external_type_specification]
#[verifier::external_body]
pub struct ExObjectPropertyKind(ecma_syntax_cat::expression::ObjectPropertyKind);

/// Why source text gave no program: the message of the lexer's error or
/// of the parser's.
#[derive(Debug, Clone, PartialEq, Eq)]
pub enum FrontEndError {
    /// Lexing failed.
    Lex {
        /// The lexer's message.
        message: String,
    },
    /// Parsing failed.
    Parse {
        /// The parser's message.
        message: String,
    },
}

/// What `ecma_lex_cat::lex` and then `ecma_parse_cat::parse_script` give
/// for `source`: the script carried over into the engine's tree, or the
/// message of the first of the two that failed.
pub uninterp spec fn spec_parse_source(source: Seq<char>) -> Result<Program, FrontEndError>;

/// Lex and parse `source` as a script with `ecma_lex_cat::lex` and
/// `ecma_parse_cat::parse_script`, and carry the tree over.  Trusted: the
/// result is a function of the text alone, as the two crates' functions
/// are; nothing more is claimed of it.
#[verifier::external_body]
pub fn parse_source(source: &str) -> (r: Result<Program, FrontEndError>)
    ensures
        r == spec_parse_source(source@),
{
    match ecma_lex_cat::lex(source) {
        Err(e) => Err(FrontEndError::Lex { message: format!("{e}") }),
        Ok(tokens) => match ecma_parse_cat::parse_script(&tokens) {
            Err(e) => Err(FrontEndError::Parse { message: format!("{e}") }),
            Ok(program) => Ok(program_of(&program)),
        },
    }
}

/// The parser's program in the engine's tree.
#[verifier::external_body]
fn program_of(p: &Spanned<ProgramKind>) -> Program {
    match p.value() {
        ProgramKind::Script { body } => Program::Script { body: statements(body) },
        ProgramKind::Module { .. } => Program::Module,
    }
}

/// The parser's statements, each in the engine's tree.
#[verifier::external_body]
fn statements(s: &[Spanned<S>]) -> Vec<Statement> {
    s.iter().map(statement).collect()
}

/// The parser's expressions, each in the engine's tree.
#[verifier::external_body]
fn expressions(e: &[Spanned<E>]) -> Vec<Expression> {
    e.iter().map(expression).collect()
}

/// The parser's binding patterns, each in the engine's tree.
#[verifier::external_body]
fn patterns(p: &[Spanned<PatternKind>]) -> Vec<Pattern> {
    p.iter().map(pattern).collect()
}

/// A statement node carried over, boxed.
#[verifier::external_body]
fn boxed_statement(s: &Spanned<S>) -> Box<Statement> {
    Box::new(statement(s))
}

/// An expression node carried over, boxed.
#[verifier::external_body]
fn boxed(e: &Spanned<E>) -> Box<Expression> {
    Box::new(expression(e))
}

/// A statement node carried over: the kinds without parts here, the
/// rest by the functions below.
#[verifier::external_body]
fn statement(s: &Spanned<S>) -> Statement {
    match s.value() {
        S::Block { body } => Statement::Block { body: statements(body) },
        S::Empty => Statement::Empty,
        S::Debugger => Statement::Debugger,
        S::Expression { expression: e } => Statement::Expression { expression: expression(e) },
        S::Switch { .. } => Statement::Switch,
        S::ForIn { .. } => Statement::ForIn,
        S::ForOf { .. } => Statement::ForOf,
        S::ClassDeclaration(_) => Statement::ClassDeclaration,
        kind => compound_statement(kind),
    }
}

/// `if`, loops without a head, `return` and `throw`; other kinds go on.
#[verifier::external_body]
fn compound_statement(kind: &S) -> Statement {
    match kind {
        S::If { test, consequent, alternate } => if_statement(test, consequent, alternate.as_deref()),
        S::While { test, body } => Statement::While { test: expression(test), body: boxed_statement(body) },
        S::DoWhile { body, test } => Statement::DoWhile { body: boxed_statement(body), test: expression(test) },
        S::Return { argument } => Statement::Return { argument: argument.as_ref().map(expression) },
        S::Throw { argument } => Statement::Throw { argument: expression(argument) },
        kind => declaring_statement(kind),
    }
}

/// An `if` statement from its parts.
#[verifier::external_body]
fn if_statement(test: &Spanned<E>, consequent: &Spanned<S>, alternate: Option<&Spanned<S>>) -> Statement {
    Statement::If {
        test: expression(test),
        consequent: boxed_statement(consequent),
        alternate: alternate.map(boxed_statement),
    }
}

/// `for`, `try`, declarations and the jumps.  Kinds the functions above
/// carry never arrive here; the last arm only completes the match.
#[verifier::external_body]
fn declaring_statement(kind: &S) -> Statement {
    match kind {
        S::For { init, test, update, body } => for_statement(init.as_ref(), test.as_ref(), update.as_ref(), body),
        S::Try { block, handler, finalizer } => try_statement(block, handler.as_ref(), finalizer.as_deref()),
        S::VariableDeclaration(d) => Statement::VariableDeclaration(declaration(d)),
        S::FunctionDeclaration(f) => Statement::FunctionDeclaration(function_code(f)),
        S::Break { .. } => Statement::Break,
        S::Continue { .. } => Statement::Continue,
        S::Labeled { .. } => Statement::Labeled,
        _ => Statement::Empty,
    }
}

/// A `for` statement from its parts.
#[verifier::external_body]
fn for_statement(
    init: Option<&ForInit>,
    test: Option<&Spanned<E>>,
    update: Option<&Spanned<E>>,
    body: &Spanned<S>,
) -> Statement {
    let init = init.map(for_start);
    Statement::For { init, test: test.map(expression), update: update.map(expression), body: boxed_statement(body) }
}

/// A `try` statement from its parts.
#[verifier::external_body]
fn try_statement(block: &[Spanned<S>], handler: Option<&CatchClause>, finalizer: Option<&[Spanned<S>]>) -> Statement {
    Statement::Try {
        block: statements(block),
        handler: handler.map(catch_block),
        finalizer: finalizer.map(statements),
    }
}

/// The head of a `for` loop.
#[verifier::external_body]
fn for_start(init: &ForInit) -> ForStart {
    match init {
        ForInit::Declaration(d) => ForStart::Declaration(declaration(d)),
        ForInit::Expression(e) => ForStart::Expression(expression(e)),
    }
}

/// A `catch` clause.
#[verifier::external_body]
fn catch_block(c: &CatchClause) -> CatchBlock {
    CatchBlock { param: c.param().map(pattern), body: statements(c.body()) }
}

/// A variable declaration and its kind.
#[verifier::external_body]
fn declaration(d: &VariableDeclaration) -> Declaration {
    let kind = match d.kind() {
        VariableKind::Var => DeclarationKind::Var,
        VariableKind::Let => DeclarationKind::Let,
        VariableKind::Const => DeclarationKind::Const,
    };
    Declaration { kind, declarators: d.declarators().iter().map(declarator).collect() }
}

/// One declarator of a variable declaration.
#[verifier::external_body]
fn declarator(v: &VariableDeclarator) -> Declarator {
    Declarator { id: pattern(v.id()), init: v.init().map(expression) }
}

/// A function's name, parameters, body and `async` flag.
#[verifier::external_body]
fn function_code(f: &Function) -> FunctionCode {
    FunctionCode {
        id: f.id().map(|i| i.as_str().to_owned()),
        params: Arc::new(patterns(f.params())),
        body: Arc::new(statements(f.body())),
        is_async: f.is_async(),
    }
}

/// An arrow function's parameters and body.
#[verifier::external_body]
fn arrow_code(a: &ArrowFunction) -> ArrowCode {
    let body = match a.body() {
        ArrowBody::Expression(e) => ArrowCodeBody::Expression(boxed(e)),
        ArrowBody::Block(b) => ArrowCodeBody::Block(statements(b)),
    };
    ArrowCode { params: Arc::new(patterns(a.params())), body: Arc::new(body) }
}

/// A binding pattern: names and defaults kept, destructuring by kind.
#[verifier::external_body]
fn pattern(p: &Spanned<PatternKind>) -> Pattern {
    match p.value() {
        PatternKind::Identifier(id) => Pattern::Identifier(id.as_str().to_owned()),
        PatternKind::Array { .. } => Pattern::Array,
        PatternKind::Object { .. } => Pattern::Object,
        PatternKind::Rest { .. } => Pattern::Rest,
        PatternKind::Assignment { left, right } => {
            Pattern::Assignment { left: Box::new(pattern(left)), right: boxed(right) }
        },
    }
}

/// A literal; a number by its binary64 encoding (`f64::to_bits`).
#[verifier::external_body]
fn literal(l: &Literal) -> LiteralValue {
    match l {
        Literal::Number(n) => LiteralValue::Number(n.to_bits()),
        Literal::BigInt(d) => LiteralValue::BigInt(d.clone()),
        Literal::String(s) => LiteralValue::String(s.clone()),
        Literal::Boolean(b) => LiteralValue::Boolean(*b),
        Literal::Null => LiteralValue::Null,
        Literal::RegExp { pattern, flags } => LiteralValue::RegExp { pattern: pattern.clone(), flags: flags.clone() },
    }
}

/// A property name in an object literal; a number by its encoding.
#[verifier::external_body]
fn property_name(k: &PropertyKey) -> PropertyName {
    match k {
        PropertyKey::Identifier(id) => PropertyName::Identifier(id.as_str().to_owned()),
        PropertyKey::String(s) => PropertyName::String(s.clone()),
        PropertyKey::Number(n) => PropertyName::Number(n.to_bits()),
        PropertyKey::Computed(e) => PropertyName::Computed(boxed(e)),
        PropertyKey::Private(p) => PropertyName::Private(p.as_str().to_owned()),
    }
}

/// The property part of a member access.
#[verifier::external_body]
fn member_name(m: &MemberProperty) -> MemberName {
    match m {
        MemberProperty::Identifier(id) => MemberName::Identifier(id.as_str().to_owned()),
        MemberProperty::Computed(e) => MemberName::Computed(boxed(e)),
        MemberProperty::Private(p) => MemberName::Private(p.as_str().to_owned()),
    }
}

/// One entry of an object literal.
#[verifier::external_body]
fn object_entry(m: &ObjectMember) -> ObjectEntry {
    match m {
        ObjectMember::Property { key, value, kind, .. } => {
            ObjectEntry::Property { key: property_name(key), value: expression(value), kind: entry_kind(*kind) }
        },
        ObjectMember::Spread { argument } => ObjectEntry::Spread { argument: expression(argument) },
    }
}

/// Whether an object literal entry is a value, getter, setter or method.
#[verifier::external_body]
fn entry_kind(kind: ObjectPropertyKind) -> EntryKind {
    match kind {
        ObjectPropertyKind::Init => EntryKind::Init,
        ObjectPropertyKind::Get => EntryKind::Getter,
        ObjectPropertyKind::Set => EntryKind::Setter,
        ObjectPropertyKind::Method => EntryKind::Method,
    }
}

/// An expression node carried over: the kinds without parts here, the
/// rest by the functions below.
#[verifier::external_body]
fn expression(e: &Spanned<E>) -> Expression {
    match e.value() {
        E::This => Expression::This,
        E::Super => Expression::Super,
        E::Identifier(id) => Expression::Identifier(id.as_str().to_owned()),
        E::PrivateIdentifier(id) => Expression::PrivateIdentifier(id.as_str().to_owned()),
        E::Literal(l) => Expression::Literal(literal(l)),
        E::TaggedTemplate { .. } => Expression::TaggedTemplate,
        E::ClassExpression(_) => Expression::ClassExpression,
        E::Yield { .. } => Expression::Yield,
        E::Await { .. } => Expression::Await,
        kind => compound_expression(kind),
    }
}

/// Templates, array and object literals and member access; other kinds
/// go on.
#[verifier::external_body]
fn compound_expression(kind: &E) -> Expression {
    match kind {
        E::Template { quasis, expressions: parts } => {
            Expression::Template { quasis: quasis.clone(), expressions: expressions(parts) }
        },
        E::Array { elements } => Expression::Array { elements: elements.iter().map(|x| x.as_ref().map(expression)).collect() },
        E::Object { properties } => Expression::Object { properties: properties.iter().map(object_entry).collect() },
        E::Member { object, property, optional } => {
            Expression::Member { object: boxed(object), property: member_name(property), optional: *optional }
        },
        kind => call_expression(kind),
    }
}

/// Calls, `new`, sequences and spreads; other kinds go on.
#[verifier::external_body]
fn call_expression(kind: &E) -> Expression {
    match kind {
        E::Call { callee, arguments, optional } => {
            Expression::Call { callee: boxed(callee), arguments: expressions(arguments), optional: *optional }
        },
        E::New { callee, arguments } => Expression::New { callee: boxed(callee), arguments: expressions(arguments) },
        E::Sequence { expressions: parts } => Expression::Sequence { expressions: expressions(parts) },
        E::Spread { argument } => Expression::Spread { argument: boxed(argument) },
        kind => operator_expression(kind),
    }
}

/// Update, unary and binary operations; other kinds go on.
#[verifier::external_body]
fn operator_expression(kind: &E) -> Expression {
    match kind {
        E::Update { operator, argument, prefix } => {
            Expression::Update { operator: update_op(*operator), argument: boxed(argument), prefix: *prefix }
        },
        E::Unary { operator, argument } => Expression::Unary { operator: unary_op(*operator), argument: boxed(argument) },
        E::Binary { operator, left, right } => {
            Expression::Binary { operator: binary_op(*operator), left: boxed(left), right: boxed(right) }
        },
        kind => branching_expression(kind),
    }
}

/// Logical, conditional and assignment expressions; other kinds go on.
#[verifier::external_body]
fn branching_expression(kind: &E) -> Expression {
    match kind {
        E::Logical { operator, left, right } => {
            Expression::Logical { operator: logical_op(*operator), left: boxed(left), right: boxed(right) }
        },
        E::Conditional { test, consequent, alternate } => {
            Expression::Conditional { test: boxed(test), consequent: boxed(consequent), alternate: boxed(alternate) }
        },
        E::Assignment { operator, left, right } => {
            Expression::Assignment { operator: assign_op(*operator), left: boxed(left), right: boxed(right) }
        },
        kind => function_expression(kind),
    }
}

/// Function values and the remaining kinds.  Kinds the functions above
/// carry never arrive here; the last arm only completes the match.
#[verifier::external_body]
fn function_expression(kind: &E) -> Expression {
    match kind {
        E::ArrowFunction(a) => Expression::ArrowFunction(Box::new(arrow_code(a))),
        E::FunctionExpression(f) => Expression::FunctionExpression(Box::new(function_code(f))),
        E::ImportExpression { .. } => Expression::ImportExpression,
        E::MetaProperty { .. } => Expression::MetaProperty,
        E::Chain { expression: inner } => Expression::Chain { expression: boxed(inner) },
        E::Parenthesized { expression: inner } => Expression::Parenthesized { expression: boxed(inner) },
        _ => Expression::This,
    }
}

/// A binary operator (first part of the list).
#[verifier::external_body]
fn binary_op(op: BinaryOperator) -> BinaryOp {
    match op {
        BinaryOperator::Equal => BinaryOp::Equal,
        BinaryOperator::NotEqual => BinaryOp::NotEqual,
        BinaryOperator::StrictEqual => BinaryOp::StrictEqual,
        BinaryOperator::StrictNotEqual => BinaryOp::StrictNotEqual,
        BinaryOperator::LessThan => BinaryOp::LessThan,
        BinaryOperator::LessThanOrEqual => BinaryOp::LessThanOrEqual,
        BinaryOperator::GreaterThan => BinaryOp::GreaterThan,
        BinaryOperator::GreaterThanOrEqual => BinaryOp::GreaterThanOrEqual,
        other => binary_op_2(other),
    }
}

/// A binary operator (second part of the list).
#[verifier::external_body]
fn binary_op_2(op: BinaryOperator) -> BinaryOp {
    match op {
        BinaryOperator::LeftShift => BinaryOp::LeftShift,
        BinaryOperator::RightShift => BinaryOp::RightShift,
        BinaryOperator::UnsignedRightShift => BinaryOp::UnsignedRightShift,
        BinaryOperator::Add => BinaryOp::Add,
        BinaryOperator::Subtract => BinaryOp::Subtract,
        BinaryOperator::Multiply => BinaryOp::Multiply,
        BinaryOperator::Divide => BinaryOp::Divide,
        BinaryOperator::Remainder => BinaryOp::Remainder,
        other => binary_op_3(other),
    }
}

/// A binary operator (rest of the list).  Operators the functions above
/// carry never arrive here; the last arm only completes the match.
#[verifier::external_body]
fn binary_op_3(op: BinaryOperator) -> BinaryOp {
    match op {
        BinaryOperator::Exponentiation => BinaryOp::Exponentiation,
        BinaryOperator::BitwiseOr => BinaryOp::BitwiseOr,
        BinaryOperator::BitwiseXor => BinaryOp::BitwiseXor,
        BinaryOperator::BitwiseAnd => BinaryOp::BitwiseAnd,
        BinaryOperator::In => BinaryOp::In,
        BinaryOperator::InstanceOf => BinaryOp::InstanceOf,
        _ => BinaryOp::Equal,
    }
}

/// An assignment operator (first part of the list).
#[verifier::external_body]
fn assign_op(op: AssignmentOperator) -> AssignOp {
    match op {
        AssignmentOperator::Assign => AssignOp::Assign,
        AssignmentOperator::AddAssign => AssignOp::AddAssign,
        AssignmentOperator::SubtractAssign => AssignOp::SubtractAssign,
        AssignmentOperator::MultiplyAssign => AssignOp::MultiplyAssign,
        AssignmentOperator::DivideAssign => AssignOp::DivideAssign,
        AssignmentOperator::RemainderAssign => AssignOp::RemainderAssign,
        AssignmentOperator::ExponentiationAssign => AssignOp::ExponentiationAssign,
        AssignmentOperator::LeftShiftAssign => AssignOp::LeftShiftAssign,
        other => assign_op_2(other),
    }
}

/// An assignment operator (rest of the list).  Operators the function
/// above carries never arrive here; the last arm only completes the match.
#[verifier::external_body]
fn assign_op_2(op: AssignmentOperator) -> AssignOp {
    match op {
        AssignmentOperator::RightShiftAssign => AssignOp::RightShiftAssign,
        AssignmentOperator::UnsignedRightShiftAssign => AssignOp::UnsignedRightShiftAssign,
        AssignmentOperator::BitwiseOrAssign => AssignOp::BitwiseOrAssign,
        AssignmentOperator::BitwiseXorAssign => AssignOp::BitwiseXorAssign,
        AssignmentOperator::BitwiseAndAssign => AssignOp::BitwiseAndAssign,
        AssignmentOperator::LogicalOrAssign => AssignOp::LogicalOrAssign,
        AssignmentOperator::LogicalAndAssign => AssignOp::LogicalAndAssign,
        AssignmentOperator::NullishCoalescingAssign => AssignOp::NullishCoalescingAssign,
        _ => AssignOp::Assign,
    }
}

/// A unary operator.
#[verifier::external_body]
fn unary_op(op: UnaryOperator) -> UnaryOp {
    match op {
        UnaryOperator::Minus => UnaryOp::Minus,
        UnaryOperator::Plus => UnaryOp::Plus,
        UnaryOperator::LogicalNot => UnaryOp::LogicalNot,
        UnaryOperator::BitwiseNot => UnaryOp::BitwiseNot,
        UnaryOperator::TypeOf => UnaryOp::TypeOf,
        UnaryOperator::Void => UnaryOp::Void,
        UnaryOperator::Delete => UnaryOp::Delete,
    }
}

/// A logical operator.
#[verifier::external_body]
fn logical_op(op: LogicalOperator) -> LogicalOp {
    match op {
        LogicalOperator::And => LogicalOp::And,
        LogicalOperator::Or => LogicalOp::Or,
        LogicalOperator::NullishCoalescing => LogicalOp::NullishCoalescing,
    }
}

/// An update operator.
#[verifier::external_body]
fn update_op(op: UpdateOperator) -> UpdateOp {
    match op {
        UpdateOperator::Increment => UpdateOp::Increment,
        UpdateOperator::Decrement => UpdateOp::Decrement,
    }
}

} // verus!
