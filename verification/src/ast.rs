//! The syntax tree the engine evaluates.
//!
//! The shape follows ESTree.  Numeric literals carry the IEEE-754
//! binary64 encoding of their value (see [`crate::number`]); names are
//! plain strings.  Node kinds the engine rejects are kept as payload-free
//! variants so that evaluation can report them as unsupported.

use vstd::prelude::*;

use std::sync::Arc;

verus! {

/// Binary operators (excluding `&&`, `||`, `??`, see [`LogicalOp`]).
#[derive(Debug, Clone, Copy, PartialEq, Eq)]
pub enum BinaryOp {
    Equal,
    NotEqual,
    StrictEqual,
    StrictNotEqual,
    LessThan,
    LessThanOrEqual,
    GreaterThan,
    GreaterThanOrEqual,
    LeftShift,
    RightShift,
    UnsignedRightShift,
    Add,
    Subtract,
    Multiply,
    Divide,
    Remainder,
    Exponentiation,
    BitwiseOr,
    BitwiseXor,
    BitwiseAnd,
    In,
    InstanceOf,
}

/// Short-circuit logical operators.
#[derive(Debug, Clone, Copy, PartialEq, Eq)]
pub enum LogicalOp {
    And,
    Or,
    NullishCoalescing,
}

/// Unary prefix operators.
#[derive(Debug, Clone, Copy, PartialEq, Eq)]
pub enum UnaryOp {
    Minus,
    Plus,
    LogicalNot,
    BitwiseNot,
    TypeOf,
    Void,
    Delete,
}

/// `++` and `--`.
#[derive(Debug, Clone, Copy, PartialEq, Eq)]
pub enum UpdateOp {
    Increment,
    Decrement,
}

/// Assignment operators: plain `=` and the compound forms.
#[derive(Debug, Clone, Copy, PartialEq, Eq)]
pub enum AssignOp {
    Assign,
    AddAssign,
    SubtractAssign,
    MultiplyAssign,
    DivideAssign,
    RemainderAssign,
    ExponentiationAssign,
    LeftShiftAssign,
    RightShiftAssign,
    UnsignedRightShiftAssign,
    BitwiseOrAssign,
    BitwiseXorAssign,
    BitwiseAndAssign,
    LogicalOrAssign,
    LogicalAndAssign,
    NullishCoalescingAssign,
}

/// A static literal.
#[derive(Debug)]
pub enum LiteralValue {
    /// A numeric literal, as its binary64 encoding.
    Number(u64),
    /// A `BigInt` literal as its decimal digits.
    BigInt(String),
    /// A string literal with escapes resolved.
    String(String),
    /// `true` or `false`.
    Boolean(bool),
    /// `null`.
    Null,
    /// A regular-expression literal.
    RegExp { pattern: String, flags: String },
}

/// How a member access selects its property.
#[derive(Debug)]
pub enum MemberName {
    /// `object.name`.
    Identifier(String),
    /// `object[expr]`.
    Computed(Box<Expression>),
    /// `object.#name`.
    Private(String),
}

/// A property key in an object literal.
#[derive(Debug)]
pub enum PropertyName {
    Identifier(String),
    String(String),
    /// A numeric key, as its binary64 encoding.
    Number(u64),
    Computed(Box<Expression>),
    Private(String),
}

/// The kinds of object-literal members.
#[derive(Debug, Clone, Copy, PartialEq, Eq)]
pub enum EntryKind {
    /// `{ x: 1 }`.
    Init,
    /// `{ get x() { ... } }`.
    Getter,
    /// `{ set x(v) { ... } }`.
    Setter,
    /// `{ x() { ... } }`.
    Method,
}

/// One member of an object literal.
#[derive(Debug)]
pub enum ObjectEntry {
    /// A named property, accessor half, or method.
    Property { key: PropertyName, value: Expression, kind: EntryKind },
    /// `{ ...other }`.
    Spread { argument: Expression },
}

/// A binding pattern.
#[derive(Debug)]
pub enum Pattern {
    /// A plain identifier.
    Identifier(String),
    /// An array destructuring pattern (not evaluated).
    Array,
    /// An object destructuring pattern (not evaluated).
    Object,
    /// A rest element (not evaluated).
    Rest,
    /// `left = right`: a pattern with a default value.
    Assignment { left: Box<Pattern>, right: Box<Expression> },
}

/// A `function` declaration or expression.  Parameters and body are
/// shared, so that closures created from it need not copy them.
#[derive(Debug)]
pub struct FunctionCode {
    pub id: Option<String>,
    pub params: Arc<Vec<Pattern>>,
    pub body: Arc<Vec<Statement>>,
    pub is_async: bool,
}

/// The body of an arrow function.
#[derive(Debug)]
pub enum ArrowCodeBody {
    /// A concise expression body.
    Expression(Box<Expression>),
    /// A block body.
    Block(Vec<Statement>),
}

/// An arrow function; parameters and body are shared with its closures.
#[derive(Debug)]
pub struct ArrowCode {
    pub params: Arc<Vec<Pattern>>,
    pub body: Arc<ArrowCodeBody>,
}

/// An expression.
#[derive(Debug)]
pub enum Expression {
    This,
    Super,
    Identifier(String),
    PrivateIdentifier(String),
    Literal(LiteralValue),
    /// A template literal; `quasis` surround the interpolated expressions.
    Template { quasis: Vec<String>, expressions: Vec<Expression> },
    TaggedTemplate,
    /// An array literal; `None` entries are holes.
    Array { elements: Vec<Option<Expression>> },
    Object { properties: Vec<ObjectEntry> },
    Member { object: Box<Expression>, property: MemberName, optional: bool },
    Call { callee: Box<Expression>, arguments: Vec<Expression>, optional: bool },
    New { callee: Box<Expression>, arguments: Vec<Expression> },
    Update { operator: UpdateOp, argument: Box<Expression>, prefix: bool },
    Unary { operator: UnaryOp, argument: Box<Expression> },
    Binary { operator: BinaryOp, left: Box<Expression>, right: Box<Expression> },
    Logical { operator: LogicalOp, left: Box<Expression>, right: Box<Expression> },
    Conditional {
        test: Box<Expression>,
        consequent: Box<Expression>,
        alternate: Box<Expression>,
    },
    Assignment { operator: AssignOp, left: Box<Expression>, right: Box<Expression> },
    Sequence { expressions: Vec<Expression> },
    Spread { argument: Box<Expression> },
    ArrowFunction(Box<ArrowCode>),
    FunctionExpression(Box<FunctionCode>),
    ClassExpression,
    Yield,
    Await,
    Chain { expression: Box<Expression> },
    ImportExpression,
    MetaProperty,
    Parenthesized { expression: Box<Expression> },
}

/// `var`, `let` or `const`.
#[derive(Debug, Clone, Copy, PartialEq, Eq)]
pub enum DeclarationKind {
    Var,
    Let,
    Const,
}

/// One `name = init` part of a declaration.
#[derive(Debug)]
pub struct Declarator {
    pub id: Pattern,
    pub init: Option<Expression>,
}

/// A variable declaration.
#[derive(Debug)]
pub struct Declaration {
    pub kind: DeclarationKind,
    pub declarators: Vec<Declarator>,
}

/// The initialiser slot of a `for(;;)` loop.
#[derive(Debug)]
pub enum ForStart {
    Declaration(Declaration),
    Expression(Expression),
}

/// The `catch` part of a `try` statement.
#[derive(Debug)]
pub struct CatchBlock {
    pub param: Option<Pattern>,
    pub body: Vec<Statement>,
}

/// A statement.
#[derive(Debug)]
pub enum Statement {
    Block { body: Vec<Statement> },
    Empty,
    Debugger,
    Expression { expression: Expression },
    If { test: Expression, consequent: Box<Statement>, alternate: Option<Box<Statement>> },
    Switch,
    For {
        init: Option<ForStart>,
        test: Option<Expression>,
        update: Option<Expression>,
        body: Box<Statement>,
    },
    ForIn,
    ForOf,
    While { test: Expression, body: Box<Statement> },
    DoWhile { body: Box<Statement>, test: Expression },
    Return { argument: Option<Expression> },
    Throw { argument: Expression },
    Try { block: Vec<Statement>, handler: Option<CatchBlock>, finalizer: Option<Vec<Statement>> },
    Break,
    Continue,
    Labeled,
    VariableDeclaration(Declaration),
    FunctionDeclaration(FunctionCode),
    ClassDeclaration,
}

/// A parsed program.
#[derive(Debug)]
pub enum Program {
    /// A classic script.
    Script { body: Vec<Statement> },
    /// An ES module (not evaluated).
    Module,
}

} // verus!
