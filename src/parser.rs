use vstd::prelude::*;
use crate::ast::{BinaryOperator, Declaration, Expression, ForLoopInitializer, Literal, Statement, UnaryOperator};
use crate::diagnostic::{Diagnostic, ErrorCode, raise};
use crate::span::{Span, Spanned};
use crate::token::{InfixPrecedence, Lexeme, LexemeKind, Token, kind_of, rank, starts_expression};

verus! {

/// A recursive-descent parser over a token sequence.
pub struct Parser {
    pub tokens: Vec<Token>,
    pub current: usize,
}

impl Parser {
    pub open spec fn wf(&self) -> bool {
        self.current <= self.tokens@.len() <= usize::MAX
    }

    /// Same tokens as `old`, and the position has not moved back.
    pub open spec fn moved(&self, old: &Parser) -> bool {
        &&& self.tokens@ == old.tokens@
        &&& old.current <= self.current <= self.tokens@.len() <= usize::MAX
    }

    /// The kind of the token at the position, if any is left.
    pub open spec fn next_kind(&self) -> Option<LexemeKind> {
        if self.current < self.tokens@.len() {
            Some(kind_of(self.tokens@[self.current as int].value))
        } else {
            None
        }
    }

    pub fn new(tokens: Vec<Token>) -> (r: Parser)
        ensures
            r.wf(),
            r.current == 0,
            r.tokens@ == tokens@,
    {
        let count = tokens.len();
        proof {
            assert(count == tokens@.len());
        }
        Parser { tokens, current: 0 }
    }

    pub fn has_reached_end(&self) -> (r: bool)
        requires
            self.wf(),
        ensures
            r == (self.current == self.tokens@.len()),
    {
        self.current >= self.tokens.len()
    }

    /// The kind of the next token, without consuming it.
    pub fn peek_kind(&self) -> (r: Option<LexemeKind>)
        ensures
            r == self.next_kind(),
    {
        if self.current < self.tokens.len() {
            Some(self.tokens[self.current].value.kind())
        } else {
            None
        }
    }

    /// Consumes the next token when it is of `kind`.
    pub fn try_consume(&mut self, kind: LexemeKind) -> (r: bool)
        requires
            old(self).wf(),
        ensures
            final(self).tokens@ == old(self).tokens@,
            r == (old(self).next_kind() == Some(kind)),
            final(self).current == old(self).current + if r { 1int } else { 0int },
    {
        if self.current < self.tokens.len() && self.tokens[self.current].value.kind() == kind {
            self.current = self.current + 1;
            true
        } else {
            false
        }
    }

    /// The span of the last token, where an unexpected end of input is reported.
    fn end_span(&self) -> (r: Span)
        requires
            self.wf(),
    {
        if self.current > 0 && self.current - 1 < self.tokens.len() {
            self.tokens[self.current - 1].span
        } else if self.tokens.len() > 0 {
            self.tokens[self.tokens.len() - 1].span
        } else {
            Span { start: 0, end: 0 }
        }
    }

    /// The kind and span of the next token, or `E0003` at the end of input.
    pub fn must_peek(&self) -> (r: Result<(LexemeKind, Span), Diagnostic>)
        requires
            self.wf(),
        ensures
            self.current < self.tokens@.len() ==> r == Ok::<(LexemeKind, Span), Diagnostic>(
                (kind_of(self.tokens@[self.current as int].value), self.tokens@[self.current as int].span),
            ),
            self.current == self.tokens@.len() ==> (r matches Err(d) && d.code == ErrorCode::EarlyEof),
    {
        if self.current < self.tokens.len() {
            let token = &self.tokens[self.current];
            Ok((token.value.kind(), token.span))
        } else {
            Err(raise(ErrorCode::EarlyEof, self.end_span()))
        }
    }

    /// Consumes the next token, which must be of `kind` (`E0005` otherwise,
    /// `E0003` at the end of input), and returns its span.
    pub fn must_consume(&mut self, kind: LexemeKind) -> (r: Result<Span, Diagnostic>)
        requires
            old(self).wf(),
        ensures
            final(self).moved(old(self)),
            r is Ok <==> old(self).next_kind() == Some(kind),
            r matches Ok(s) ==> final(self).current == old(self).current + 1 && s == old(self).tokens@[old(self).current as int].span,
            old(self).next_kind() is None ==> (r matches Err(d) && d.code == ErrorCode::EarlyEof),
            old(self).next_kind() matches Some(k) && k != kind ==> (r matches Err(d) && d.code == ErrorCode::UnexpectedToken),
    {
        let (found, span) = match self.must_peek() {
            Ok(p) => p,
            Err(d) => return Err(d),
        };
        self.current = self.current + 1;
        if found == kind {
            Ok(span)
        } else {
            Err(raise(ErrorCode::UnexpectedToken, span))
        }
    }

    /// Consumes an identifier and returns its name and span.
    pub fn must_consume_identifier(&mut self) -> (r: Result<Spanned<String>, Diagnostic>)
        requires
            old(self).wf(),
        ensures
            final(self).moved(old(self)),
            r is Ok <==> old(self).next_kind() == Some(LexemeKind::Identifier),
            r matches Ok(n) ==> final(self).current == old(self).current + 1
                && old(self).tokens@[old(self).current as int].value == Lexeme::Identifier(n.value)
                && n.span == old(self).tokens@[old(self).current as int].span,
    {
        let (found, span) = match self.must_peek() {
            Ok(p) => p,
            Err(d) => return Err(d),
        };
        let name = match &self.tokens[self.current].value {
            Lexeme::Identifier(name) => name.clone(),
            _ => {
                self.current = self.current + 1;
                return Err(raise(ErrorCode::UnexpectedToken, span));
            },
        };
        self.current = self.current + 1;
        Ok(Spanned { value: name, span })
    }

    /// Parses an expression: an assignment or anything that binds tighter.
    pub fn parse_expression(&mut self) -> (r: Result<Expression, Diagnostic>)
        requires
            old(self).wf(),
        ensures
            final(self).moved(old(self)),
            r is Ok ==> final(self).current > old(self).current,
        decreases old(self).tokens@.len() - old(self).current, 2nat,
    {
        self.parse_precedence(InfixPrecedence::Assignment)
    }

    /// Parses a prefix expression, its calls, and then every infix operator
    /// that binds at least as tightly as `precedence`.
    pub fn parse_precedence(&mut self, precedence: InfixPrecedence) -> (r: Result<Expression, Diagnostic>)
        requires
            old(self).wf(),
        ensures
            final(self).moved(old(self)),
            r is Ok ==> final(self).current > old(self).current,
            old(self).next_kind() is None ==> (r matches Err(d) && d.code == ErrorCode::EarlyEof),
            old(self).next_kind() matches Some(k) && !starts_expression(k) ==> (r matches Err(d) && d.code
                == ErrorCode::InvalidPrefix),
        decreases old(self).tokens@.len() - old(self).current, 1nat,
    {
        let (kind, span) = match self.must_peek() {
            Ok(p) => p,
            Err(d) => return Err(d),
        };
        let mut expression = match kind {
            LexemeKind::Nil | LexemeKind::True | LexemeKind::False | LexemeKind::Number
            | LexemeKind::String | LexemeKind::Identifier => {
                let literal = match &self.tokens[self.current].value {
                    Lexeme::True => Literal::Boolean(true),
                    Lexeme::False => Literal::Boolean(false),
                    Lexeme::Number(bits) => Literal::Number(*bits),
                    Lexeme::String(text) => Literal::String(text.clone()),
                    Lexeme::Identifier(name) => Literal::Identifier(name.clone()),
                    _ => Literal::Nil,
                };
                self.current = self.current + 1;
                Expression::Literal(Spanned { value: literal, span })
            },
            LexemeKind::LeftParenthesis => match self.parse_parenthesized() {
                Ok(e) => e,
                Err(d) => return Err(d),
            },
            LexemeKind::Bang | LexemeKind::Minus => match self.parse_unary() {
                Ok(e) => e,
                Err(d) => return Err(d),
            },
            _ => return Err(raise(ErrorCode::InvalidPrefix, span)),
        };
        while self.peek_kind() == Some(LexemeKind::LeftParenthesis)
            invariant
                self.moved(old(self)),
                old(self).next_kind() matches Some(k) && starts_expression(k),
                self.current > old(self).current,
            decreases self.tokens@.len() - self.current,
        {
            expression = match self.finish_call(expression) {
                Ok(e) => e,
                Err(d) => return Err(d),
            };
        }
        let level = precedence.level();
        loop
            invariant
                self.moved(old(self)),
                old(self).next_kind() matches Some(k) && starts_expression(k),
                self.current > old(self).current,
                level == rank(precedence),
            decreases self.tokens@.len() - self.current,
        {
            let infix = match self.peek_kind() {
                Some(k) => k.precedence(),
                None => return Ok(expression),
            };
            if infix.level() < level || infix.level() == 0 {
                return Ok(expression);
            }
            expression = match self.parse_binary(expression) {
                Ok(e) => e,
                Err(d) => return Err(d),
            };
        }
    }

    /// Parses `( expression )`.
    fn parse_parenthesized(&mut self) -> (r: Result<Expression, Diagnostic>)
        requires
            old(self).wf(),
        ensures
            final(self).moved(old(self)),
            r is Ok ==> final(self).current > old(self).current,
        decreases old(self).tokens@.len() - old(self).current, 0nat,
    {
        match self.must_consume(LexemeKind::LeftParenthesis) {
            Ok(_) => {},
            Err(d) => return Err(d),
        }
        let expression = match self.parse_expression() {
            Ok(e) => e,
            Err(d) => return Err(d),
        };
        match self.must_consume(LexemeKind::RightParenthesis) {
            Ok(_) => Ok(expression),
            Err(d) => Err(d),
        }
    }

    /// Parses `!` or `-` and the operand it applies to.
    fn parse_unary(&mut self) -> (r: Result<Expression, Diagnostic>)
        requires
            old(self).wf(),
        ensures
            final(self).moved(old(self)),
            r is Ok ==> final(self).current > old(self).current,
        decreases old(self).tokens@.len() - old(self).current, 0nat,
    {
        let (kind, span) = match self.must_peek() {
            Ok(p) => p,
            Err(d) => return Err(d),
        };
        let operator = match kind {
            LexemeKind::Bang => UnaryOperator::Not,
            LexemeKind::Minus => UnaryOperator::Negate,
            _ => return Err(raise(ErrorCode::InvalidPrefix, span)),
        };
        self.current = self.current + 1;
        let operand = match self.parse_precedence(InfixPrecedence::Property) {
            Ok(e) => e,
            Err(d) => return Err(d),
        };
        Ok(Expression::Unary { operator: Spanned { value: operator, span }, expression: Box::new(operand) })
    }

    /// Parses an infix operator and its right operand; `=` is right
    /// associative, every other operator left associative.
    fn parse_binary(&mut self, left: Expression) -> (r: Result<Expression, Diagnostic>)
        requires
            old(self).wf(),
        ensures
            final(self).moved(old(self)),
            r is Ok ==> final(self).current > old(self).current,
        decreases old(self).tokens@.len() - old(self).current, 0nat,
    {
        let (kind, span) = match self.must_peek() {
            Ok(p) => p,
            Err(d) => return Err(d),
        };
        let operator = match kind {
            LexemeKind::Equal => BinaryOperator::Assign,
            LexemeKind::Or => BinaryOperator::Or,
            LexemeKind::And => BinaryOperator::And,
            LexemeKind::EqualEqual => BinaryOperator::Equal,
            LexemeKind::BangEqual => BinaryOperator::NotEqual,
            LexemeKind::Greater => BinaryOperator::Greater,
            LexemeKind::GreaterEqual => BinaryOperator::GreaterEqual,
            LexemeKind::Less => BinaryOperator::Less,
            LexemeKind::LessEqual => BinaryOperator::LessEqual,
            LexemeKind::Plus => BinaryOperator::Add,
            LexemeKind::Minus => BinaryOperator::Subtract,
            LexemeKind::Star => BinaryOperator::Multiply,
            LexemeKind::Slash => BinaryOperator::Divide,
            LexemeKind::Dot => BinaryOperator::PropertyAccess,
            _ => return Err(raise(ErrorCode::UnexpectedToken, span)),
        };
        self.current = self.current + 1;
        let precedence = kind.precedence();
        let next = if kind == LexemeKind::Equal {
            precedence
        } else {
            precedence.increase()
        };
        let right = match self.parse_precedence(next) {
            Ok(e) => e,
            Err(d) => return Err(d),
        };
        Ok(Expression::Binary {
            left: Box::new(left),
            operator: Spanned { value: operator, span },
            right: Box::new(right),
        })
    }

    /// Parses the argument list of a call on `callee`: `( arguments )`.
    fn finish_call(&mut self, callee: Expression) -> (r: Result<Expression, Diagnostic>)
        requires
            old(self).wf(),
        ensures
            final(self).moved(old(self)),
            r is Ok ==> final(self).current > old(self).current,
        decreases old(self).tokens@.len() - old(self).current, 0nat,
    {
        match self.must_consume(LexemeKind::LeftParenthesis) {
            Ok(_) => {},
            Err(d) => return Err(d),
        }
        let arguments = match self.parse_arguments() {
            Ok(a) => a,
            Err(d) => return Err(d),
        };
        match self.must_consume(LexemeKind::RightParenthesis) {
            Ok(_) => Ok(Expression::Invocation { expression: Box::new(callee), arguments }),
            Err(d) => Err(d),
        }
    }

    /// Zero or more expressions separated by commas, up to a `)`.
    pub fn parse_arguments(&mut self) -> (r: Result<Vec<Expression>, Diagnostic>)
        requires
            old(self).wf(),
        ensures
            final(self).moved(old(self)),
        decreases old(self).tokens@.len() - old(self).current, 3nat,
    {
        let mut arguments: Vec<Expression> = Vec::new();
        if self.peek_kind() == Some(LexemeKind::RightParenthesis) || self.peek_kind() == None::<LexemeKind> {
            return Ok(arguments);
        }
        match self.parse_expression() {
            Ok(e) => arguments.push(e),
            Err(d) => return Err(d),
        }
        while self.try_consume(LexemeKind::Comma)
            invariant
                self.moved(old(self)),
            decreases self.tokens@.len() - self.current,
        {
            match self.parse_expression() {
                Ok(e) => arguments.push(e),
                Err(d) => return Err(d),
            }
        }
        Ok(arguments)
    }
}


impl Parser {
    /// Parses a declaration: a class, a function, a variable, or a statement.
    pub fn parse_declaration(&mut self) -> (r: Result<Declaration, Diagnostic>)
        requires
            old(self).wf(),
        ensures
            final(self).moved(old(self)),
            r is Ok ==> final(self).current > old(self).current,
            r matches Ok(d) ==> match old(self).next_kind() {
                Some(LexemeKind::Class) => d is Class,
                Some(LexemeKind::Fun) => d is Function,
                Some(LexemeKind::Var) => d is Var,
                _ => d is Statement,
            },
            old(self).next_kind() is None ==> (r matches Err(d) && d.code == ErrorCode::EarlyEof),
        decreases old(self).tokens@.len() - old(self).current, 5nat,
    {
        let (kind, span) = match self.must_peek() {
            Ok(p) => p,
            Err(d) => return Err(d),
        };
        match kind {
            LexemeKind::Class => self.parse_class_declaration(),
            LexemeKind::Fun => {
                self.current = self.current + 1;
                self.parse_fun_item()
            },
            LexemeKind::Var => self.parse_var_declaration(),
            _ => match self.parse_statement() {
                Ok(s) => Ok(Declaration::Statement(s)),
                Err(d) => Err(d),
            },
        }
    }

    /// `class Name [< Base] { methods }`.
    fn parse_class_declaration(&mut self) -> (r: Result<Declaration, Diagnostic>)
        requires
            old(self).wf(),
        ensures
            final(self).moved(old(self)),
            r is Ok ==> final(self).current > old(self).current,
            r matches Ok(d) ==> d is Class,
        decreases old(self).tokens@.len() - old(self).current, 3nat,
    {
        match self.must_consume(LexemeKind::Class) {
            Ok(_) => {},
            Err(d) => return Err(d),
        }
        let name = match self.must_consume_identifier() {
            Ok(n) => n,
            Err(d) => return Err(d),
        };
        let baseclass = if self.try_consume(LexemeKind::Less) {
            match self.must_consume_identifier() {
                Ok(n) => Some(n),
                Err(d) => return Err(d),
            }
        } else {
            None
        };
        match self.must_consume(LexemeKind::LeftBrace) {
            Ok(_) => {},
            Err(d) => return Err(d),
        }
        let mut functions: Vec<Declaration> = Vec::new();
        while !self.try_consume(LexemeKind::RightBrace)
            invariant
                self.moved(old(self)),
                self.current > old(self).current,
            decreases self.tokens@.len() - self.current,
        {
            match self.parse_fun_item() {
                Ok(f) => functions.push(f),
                Err(d) => return Err(d),
            }
        }
        Ok(Declaration::Class { name, baseclass, functions })
    }

    /// `var name [= expression];`
    pub fn parse_var_declaration(&mut self) -> (r: Result<Declaration, Diagnostic>)
        requires
            old(self).wf(),
        ensures
            final(self).moved(old(self)),
            r is Ok ==> final(self).current > old(self).current,
            r matches Ok(d) ==> d matches Declaration::Var { name, .. } && old(self).tokens@[old(self).current + 1].value
                == Lexeme::Identifier(name.value),
            r is Ok ==> old(self).next_kind() == Some(LexemeKind::Var),
        decreases old(self).tokens@.len() - old(self).current, 3nat,
    {
        match self.must_consume(LexemeKind::Var) {
            Ok(_) => {},
            Err(d) => return Err(d),
        }
        let name = match self.must_consume_identifier() {
            Ok(n) => n,
            Err(d) => return Err(d),
        };
        let initializer = if self.try_consume(LexemeKind::Equal) {
            match self.parse_expression() {
                Ok(e) => Some(e),
                Err(d) => return Err(d),
            }
        } else {
            None
        };
        match self.must_consume(LexemeKind::Semicolon) {
            Ok(_) => Ok(Declaration::Var { name, initializer }),
            Err(d) => Err(d),
        }
    }

    /// `name ( parameters ) { body }`, after `fun` or inside a class.
    fn parse_fun_item(&mut self) -> (r: Result<Declaration, Diagnostic>)
        requires
            old(self).wf(),
        ensures
            final(self).moved(old(self)),
            r is Ok ==> final(self).current > old(self).current,
            r matches Ok(d) ==> d is Function,
        decreases old(self).tokens@.len() - old(self).current, 3nat,
    {
        let name = match self.must_consume_identifier() {
            Ok(n) => n,
            Err(d) => return Err(d),
        };
        match self.must_consume(LexemeKind::LeftParenthesis) {
            Ok(_) => {},
            Err(d) => return Err(d),
        }
        let mut parameters: Vec<Spanned<String>> = Vec::new();
        if self.peek_kind() == Some(LexemeKind::Identifier) {
            match self.must_consume_identifier() {
                Ok(p) => parameters.push(p),
                Err(d) => return Err(d),
            }
            while self.try_consume(LexemeKind::Comma)
                invariant
                    self.moved(old(self)),
                    self.current > old(self).current,
                decreases self.tokens@.len() - self.current,
            {
                match self.must_consume_identifier() {
                    Ok(p) => parameters.push(p),
                    Err(d) => return Err(d),
                }
            }
        }
        match self.must_consume(LexemeKind::RightParenthesis) {
            Ok(_) => {},
            Err(d) => return Err(d),
        }
        let body = match self.parse_block_statement() {
            Ok(b) => b,
            Err(d) => return Err(d),
        };
        Ok(Declaration::Function { name, parameters, body: Box::new(body) })
    }

    /// Parses a statement.
    pub fn parse_statement(&mut self) -> (r: Result<Statement, Diagnostic>)
        requires
            old(self).wf(),
        ensures
            final(self).moved(old(self)),
            r is Ok ==> final(self).current > old(self).current,
            r matches Ok(s) ==> match old(self).next_kind() {
                Some(LexemeKind::For) => s is For,
                Some(LexemeKind::If) => s is If,
                Some(LexemeKind::Print) => s is Print,
                Some(LexemeKind::Return) => s is Return,
                Some(LexemeKind::While) => s is While,
                Some(LexemeKind::LeftBrace) => s is Block,
                _ => s is Expression,
            },
            old(self).next_kind() is None ==> (r matches Err(d) && d.code == ErrorCode::EarlyEof),
        decreases old(self).tokens@.len() - old(self).current, 4nat,
    {
        let (kind, span) = match self.must_peek() {
            Ok(p) => p,
            Err(d) => return Err(d),
        };
        match kind {
            LexemeKind::For => self.parse_for_statement(),
            LexemeKind::If => self.parse_if_statement(),
            LexemeKind::Print => {
                self.current = self.current + 1;
                let e = match self.parse_expression() {
                    Ok(e) => e,
                    Err(d) => return Err(d),
                };
                match self.must_consume(LexemeKind::Semicolon) {
                    Ok(_) => Ok(Statement::Print(e)),
                    Err(d) => Err(d),
                }
            },
            LexemeKind::Return => {
                self.current = self.current + 1;
                let e = if self.peek_kind() == Some(LexemeKind::Semicolon) {
                    None
                } else {
                    match self.parse_expression() {
                        Ok(e) => Some(e),
                        Err(d) => return Err(d),
                    }
                };
                match self.must_consume(LexemeKind::Semicolon) {
                    Ok(_) => Ok(Statement::Return(e)),
                    Err(d) => Err(d),
                }
            },
            LexemeKind::While => self.parse_while_statement(),
            LexemeKind::LeftBrace => self.parse_block_statement(),
            _ => {
                let e = match self.parse_expression() {
                    Ok(e) => e,
                    Err(d) => return Err(d),
                };
                match self.must_consume(LexemeKind::Semicolon) {
                    Ok(_) => Ok(Statement::Expression(e)),
                    Err(d) => Err(d),
                }
            },
        }
    }

    /// `for ( [initializer] ; [condition] ; [increment] ) body`
    fn parse_for_statement(&mut self) -> (r: Result<Statement, Diagnostic>)
        requires
            old(self).wf(),
        ensures
            final(self).moved(old(self)),
            r is Ok ==> final(self).current > old(self).current,
            r matches Ok(s) ==> s is For,
        decreases old(self).tokens@.len() - old(self).current, 3nat,
    {
        match self.must_consume(LexemeKind::For) {
            Ok(_) => {},
            Err(d) => return Err(d),
        }
        match self.must_consume(LexemeKind::LeftParenthesis) {
            Ok(_) => {},
            Err(d) => return Err(d),
        }
        let initializer = if self.try_consume(LexemeKind::Semicolon) {
            None
        } else if self.peek_kind() == Some(LexemeKind::Var) {
            match self.parse_var_declaration() {
                Ok(d) => Some(ForLoopInitializer::VarDeclaration(Box::new(d))),
                Err(d) => return Err(d),
            }
        } else {
            let e = match self.parse_expression() {
                Ok(e) => e,
                Err(d) => return Err(d),
            };
            match self.must_consume(LexemeKind::Semicolon) {
                Ok(_) => {},
                Err(d) => return Err(d),
            }
            Some(ForLoopInitializer::VarInitialization(Box::new(e)))
        };
        let condition = if self.try_consume(LexemeKind::Semicolon) {
            None
        } else {
            let e = match self.parse_expression() {
                Ok(e) => e,
                Err(d) => return Err(d),
            };
            match self.must_consume(LexemeKind::Semicolon) {
                Ok(_) => {},
                Err(d) => return Err(d),
            }
            Some(e)
        };
        let incrementer = if self.try_consume(LexemeKind::RightParenthesis) {
            None
        } else {
            let e = match self.parse_expression() {
                Ok(e) => e,
                Err(d) => return Err(d),
            };
            match self.must_consume(LexemeKind::RightParenthesis) {
                Ok(_) => {},
                Err(d) => return Err(d),
            }
            Some(e)
        };
        let body = match self.parse_statement() {
            Ok(b) => b,
            Err(d) => return Err(d),
        };
        Ok(Statement::For { initializer, condition, incrementer, body: Box::new(body) })
    }

    /// `if ( condition ) then [else otherwise]`
    fn parse_if_statement(&mut self) -> (r: Result<Statement, Diagnostic>)
        requires
            old(self).wf(),
        ensures
            final(self).moved(old(self)),
            r is Ok ==> final(self).current > old(self).current,
            r matches Ok(s) ==> s is If,
        decreases old(self).tokens@.len() - old(self).current, 3nat,
    {
        match self.must_consume(LexemeKind::If) {
            Ok(_) => {},
            Err(d) => return Err(d),
        }
        match self.must_consume(LexemeKind::LeftParenthesis) {
            Ok(_) => {},
            Err(d) => return Err(d),
        }
        let condition = match self.parse_expression() {
            Ok(e) => e,
            Err(d) => return Err(d),
        };
        match self.must_consume(LexemeKind::RightParenthesis) {
            Ok(_) => {},
            Err(d) => return Err(d),
        }
        let then = match self.parse_statement() {
            Ok(s) => s,
            Err(d) => return Err(d),
        };
        let otherwise = if self.try_consume(LexemeKind::Else) {
            match self.parse_statement() {
                Ok(s) => Some(Box::new(s)),
                Err(d) => return Err(d),
            }
        } else {
            None
        };
        Ok(Statement::If { condition, then: Box::new(then), otherwise })
    }

    /// `while ( condition ) body`
    fn parse_while_statement(&mut self) -> (r: Result<Statement, Diagnostic>)
        requires
            old(self).wf(),
        ensures
            final(self).moved(old(self)),
            r is Ok ==> final(self).current > old(self).current,
            r matches Ok(s) ==> s is While,
        decreases old(self).tokens@.len() - old(self).current, 3nat,
    {
        match self.must_consume(LexemeKind::While) {
            Ok(_) => {},
            Err(d) => return Err(d),
        }
        match self.must_consume(LexemeKind::LeftParenthesis) {
            Ok(_) => {},
            Err(d) => return Err(d),
        }
        let condition = match self.parse_expression() {
            Ok(e) => e,
            Err(d) => return Err(d),
        };
        match self.must_consume(LexemeKind::RightParenthesis) {
            Ok(_) => {},
            Err(d) => return Err(d),
        }
        let body = match self.parse_statement() {
            Ok(s) => s,
            Err(d) => return Err(d),
        };
        Ok(Statement::While { condition, body: Box::new(body) })
    }

    /// `{ declarations }`
    pub fn parse_block_statement(&mut self) -> (r: Result<Statement, Diagnostic>)
        requires
            old(self).wf(),
        ensures
            final(self).moved(old(self)),
            r is Ok ==> final(self).current > old(self).current,
            r matches Ok(s) ==> s is Block,
        decreases old(self).tokens@.len() - old(self).current, 3nat,
    {
        match self.must_consume(LexemeKind::LeftBrace) {
            Ok(_) => {},
            Err(d) => return Err(d),
        }
        let mut declarations: Vec<Declaration> = Vec::new();
        while !self.try_consume(LexemeKind::RightBrace)
            invariant
                self.moved(old(self)),
                self.current > old(self).current,
            decreases self.tokens@.len() - self.current,
        {
            match self.parse_declaration() {
                Ok(d) => declarations.push(d),
                Err(d) => return Err(d),
            }
        }
        Ok(Statement::Block(declarations))
    }
}

/// Parses a whole token sequence into its declarations, stopping at the
/// first error; each declaration takes at least one token.
pub fn parse(tokens: Vec<Token>) -> (r: Result<Vec<Declaration>, Diagnostic>)
    ensures
        r matches Ok(ds) ==> ds@.len() <= tokens@.len(),
{
    let ghost count = tokens@.len();
    let mut parser = Parser::new(tokens);
    let mut declarations: Vec<Declaration> = Vec::new();
    while !parser.has_reached_end()
        invariant
            parser.wf(),
            parser.tokens@.len() == count,
            declarations@.len() <= parser.current,
        decreases parser.tokens@.len() - parser.current,
    {
        match parser.parse_declaration() {
            Ok(d) => declarations.push(d),
            Err(d) => return Err(d),
        }
    }
    Ok(declarations)
}

} // verus!
