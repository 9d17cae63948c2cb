use vstd::prelude::*;
use crate::span::{Span, Spanned};

verus! {

/// A literal or a bare name. A number is the bit pattern of an IEEE-754 double.
#[derive(Debug)]
pub enum Literal {
    Nil,
    Boolean(bool),
    Number(u64),
    String(String),
    Identifier(String),
    This,
    Super,
}

#[derive(Clone, Copy, Debug, PartialEq, Eq, Structural)]
pub enum UnaryOperator {
    Not,
    Negate,
}

#[derive(Clone, Copy, Debug, PartialEq, Eq, Structural)]
pub enum BinaryOperator {
    Assign,
    Or,
    And,
    Equal,
    NotEqual,
    Greater,
    GreaterEqual,
    Less,
    LessEqual,
    Add,
    Subtract,
    Multiply,
    Divide,
    PropertyAccess,
}

#[derive(Debug)]
pub enum Expression {
    Assignment { left: Box<Expression>, span: Span, right: Box<Expression> },
    Binary { left: Box<Expression>, operator: Spanned<BinaryOperator>, right: Box<Expression> },
    Unary { operator: Spanned<UnaryOperator>, expression: Box<Expression> },
    Invocation { expression: Box<Expression>, arguments: Vec<Expression> },
    Literal(Spanned<Literal>),
}

#[derive(Debug)]
pub enum ForLoopInitializer {
    VarDeclaration(Box<Declaration>),
    VarInitialization(Box<Expression>),
}

#[derive(Debug)]
pub enum Statement {
    Expression(Expression),
    For {
        initializer: Option<ForLoopInitializer>,
        condition: Option<Expression>,
        incrementer: Option<Expression>,
        body: Box<Statement>,
    },
    If { condition: Expression, then: Box<Statement>, otherwise: Option<Box<Statement>> },
    Print(Expression),
    Return(Option<Expression>),
    While { condition: Expression, body: Box<Statement> },
    Block(Vec<Declaration>),
}

#[derive(Debug)]
pub enum Declaration {
    Class { name: Spanned<String>, baseclass: Option<Spanned<String>>, functions: Vec<Declaration> },
    Function { name: Spanned<String>, parameters: Vec<Spanned<String>>, body: Box<Statement> },
    Var { name: Spanned<String>, initializer: Option<Expression> },
    Statement(Statement),
}

/// An expression that can stand left of `=`: a bare name.
pub open spec fn assignable(e: Expression) -> bool {
    e matches Expression::Literal(l) && l.value is Identifier
}

/// The expression has bytecode: every assignment targets a name, every callee
/// is a name, and no property access, `this` or `super` occurs in it.
pub open spec fn expression_compiles(e: Expression) -> bool
    decreases e,
{
    match e {
        Expression::Assignment { left, span, right } => expression_compiles(*right) && assignable(
            *left,
        ),
        Expression::Binary { left, operator, right } => match operator.value {
            BinaryOperator::Assign => expression_compiles(*right) && assignable(*left),
            BinaryOperator::PropertyAccess => false,
            _ => expression_compiles(*left) && expression_compiles(*right),
        },
        Expression::Unary { operator, expression } => expression_compiles(*expression),
        Expression::Invocation { expression, arguments } => assignable(*expression) && forall|i: int|
            0 <= i < arguments.len() ==> expression_compiles(#[trigger] arguments[i]),
        Expression::Literal(l) => !(l.value is This) && !(l.value is Super),
    }
}

/// The optional expression is absent or has bytecode.
pub open spec fn optional_compiles(e: Option<Expression>) -> bool {
    match e {
        Some(e) => expression_compiles(e),
        None => true,
    }
}

/// The statement has bytecode: no class and no expression without bytecode
/// occurs in it.
pub open spec fn statement_compiles(s: Statement) -> bool
    decreases s,
{
    match s {
        Statement::Expression(e) => expression_compiles(e),
        Statement::Print(e) => expression_compiles(e),
        Statement::Return(e) => optional_compiles(e),
        Statement::If { condition, then, otherwise } => expression_compiles(condition)
            && statement_compiles(*then) && (match otherwise {
            Some(o) => statement_compiles(*o),
            None => true,
        }),
        Statement::While { condition, body } => expression_compiles(condition) && statement_compiles(
            *body,
        ),
        Statement::For { initializer, condition, incrementer, body } => (match initializer {
            Some(ForLoopInitializer::VarDeclaration(d)) => declaration_compiles(*d),
            Some(ForLoopInitializer::VarInitialization(e)) => expression_compiles(*e),
            None => true,
        }) && optional_compiles(condition) && optional_compiles(incrementer) && statement_compiles(
            *body,
        ),
        Statement::Block(ds) => forall|i: int|
            0 <= i < ds.len() ==> declaration_compiles(#[trigger] ds[i]),
    }
}

/// The declaration has bytecode: it is no class, and what it holds has bytecode.
pub open spec fn declaration_compiles(d: Declaration) -> bool
    decreases d,
{
    match d {
        Declaration::Class { .. } => false,
        Declaration::Function { name, parameters, body } => statement_compiles(*body),
        Declaration::Var { name, initializer } => optional_compiles(initializer),
        Declaration::Statement(s) => statement_compiles(s),
    }
}

/// The expression uses only what has bytecode semantics: no property access,
/// `this` or `super` occurs in it.
pub open spec fn expression_supported(e: Expression) -> bool
    decreases e,
{
    match e {
        Expression::Assignment { left, span, right } => expression_supported(*left) && expression_supported(*right),
        Expression::Binary { left, operator, right } => !(operator.value is PropertyAccess)
            && expression_supported(*left) && expression_supported(*right),
        Expression::Unary { operator, expression } => expression_supported(*expression),
        Expression::Invocation { expression, arguments } => expression_supported(*expression) && forall|i: int|
            0 <= i < arguments.len() ==> expression_supported(#[trigger] arguments[i]),
        Expression::Literal(l) => !(l.value is This) && !(l.value is Super),
    }
}

/// The optional expression is absent or supported.
pub open spec fn optional_supported(e: Option<Expression>) -> bool {
    match e {
        Some(e) => expression_supported(e),
        None => true,
    }
}

/// The statement uses only what has bytecode semantics: no class, property
/// access, `this` or `super` occurs in it.
pub open spec fn statement_supported(s: Statement) -> bool
    decreases s,
{
    match s {
        Statement::Expression(e) => expression_supported(e),
        Statement::Print(e) => expression_supported(e),
        Statement::Return(e) => optional_supported(e),
        Statement::If { condition, then, otherwise } => expression_supported(condition)
            && statement_supported(*then) && (match otherwise {
            Some(o) => statement_supported(*o),
            None => true,
        }),
        Statement::While { condition, body } => expression_supported(condition) && statement_supported(*body),
        Statement::For { initializer, condition, incrementer, body } => (match initializer {
            Some(ForLoopInitializer::VarDeclaration(d)) => declaration_supported(*d),
            Some(ForLoopInitializer::VarInitialization(e)) => expression_supported(*e),
            None => true,
        }) && optional_supported(condition) && optional_supported(incrementer) && statement_supported(*body),
        Statement::Block(ds) => forall|i: int| 0 <= i < ds.len() ==> declaration_supported(#[trigger] ds[i]),
    }
}

/// The declaration is no class and uses only what has bytecode semantics.
pub open spec fn declaration_supported(d: Declaration) -> bool
    decreases d,
{
    match d {
        Declaration::Class { .. } => false,
        Declaration::Function { name, parameters, body } => statement_supported(*body),
        Declaration::Var { name, initializer } => optional_supported(initializer),
        Declaration::Statement(s) => statement_supported(s),
    }
}

/// The value side and the target side of an assignment.
pub open spec fn assignment_parts(e: Expression) -> (Expression, Expression) {
    match e {
        Expression::Assignment { left, span, right } => (*right, *left),
        Expression::Binary { left, operator, right } => (*right, *left),
        _ => (e, e),
    }
}

/// The callee of a call.
pub open spec fn callee_of(e: Expression) -> Expression {
    match e {
        Expression::Invocation { expression, arguments } => *expression,
        _ => e,
    }
}

} // verus!
