//! The statement model: expression statements, print statements, and `let`
//! declarations, with their specification-level views.

use vstd::prelude::*;
use crate::ast::{Expr, ExprV};
use crate::token::{Token, TokenV};

verus! {

/// Specification-level statement.
pub enum StmtV {
    Expression(ExprV),
    Print(ExprV),
    Let(TokenV, ExprV),
}

/// A bare expression evaluated for its value.
#[derive(Debug)]
pub struct ExpressionStatement {
    pub expression: Expr,
}

/// A `print` statement: the expression whose value is printed.
#[derive(Debug)]
pub struct PrintStatement {
    pub expression: Expr,
}

/// A `let` declaration: the name token and the initializer expression,
/// a `nil` literal when the initializer was omitted.
#[derive(Debug)]
pub struct LetStatement {
    pub name: Token,
    pub initializer: Expr,
}

/// A statement of the language.
#[derive(Debug)]
pub enum Statement {
    ExpressionStatement(ExpressionStatement),
    PrintStatement(PrintStatement),
    LetStatement(LetStatement),
}

impl View for Statement {
    type V = StmtV;

    open spec fn view(&self) -> StmtV {
        match self {
            Statement::ExpressionStatement(s) => StmtV::Expression(s.expression@),
            Statement::PrintStatement(s) => StmtV::Print(s.expression@),
            Statement::LetStatement(s) => StmtV::Let(s.name@, s.initializer@),
        }
    }
}

impl DeepView for Statement {
    type V = StmtV;

    open spec fn deep_view(&self) -> StmtV {
        self@
    }
}

impl Clone for Statement {
    fn clone(&self) -> (r: Statement)
        ensures
            r == *self,
    {
        match self {
            Statement::ExpressionStatement(s) => Statement::ExpressionStatement(
                ExpressionStatement { expression: s.expression.clone() },
            ),
            Statement::PrintStatement(s) => Statement::PrintStatement(
                PrintStatement { expression: s.expression.clone() },
            ),
            Statement::LetStatement(s) => Statement::LetStatement(
                LetStatement { name: s.name.clone(), initializer: s.initializer.clone() },
            ),
        }
    }
}

impl ExpressionStatement {
    /// Wraps an expression as a statement.
    pub fn new(expression: Expr) -> (r: ExpressionStatement)
        ensures
            r.expression == expression,
    {
        ExpressionStatement { expression }
    }
}

impl PrintStatement {
    /// Wraps an expression as a print statement.
    pub fn new(expression: Expr) -> (r: PrintStatement)
        ensures
            r.expression == expression,
    {
        PrintStatement { expression }
    }
}

impl LetStatement {
    /// Pairs a name token with an initializer expression.
    pub fn new(name: Token, initializer: Expr) -> (r: LetStatement)
        ensures
            r.name == name,
            r.initializer == initializer,
    {
        LetStatement { name, initializer }
    }
}

} // verus!
