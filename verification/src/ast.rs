//! The parsed form of a script, and the mathematical values it stands for.

use vstd::prelude::*;
use crate::strmap::StrMap;
use crate::text::words_view;

verus! {

/// `variable=value`: binds a variable to a string, taken as it is written.
#[derive(Clone, Debug)]
pub struct Assignment {
    pub variable: String,
    pub value: String,
}

/// An assignment as a pair of character sequences.
pub struct AssignmentView {
    pub variable: Seq<char>,
    pub value: Seq<char>,
}

impl View for Assignment {
    type V = AssignmentView;

    open spec fn view(&self) -> AssignmentView {
        AssignmentView { variable: self.variable@, value: self.value@ }
    }
}

/// One line of a function's body.
#[derive(Clone, Debug)]
pub enum Statement {
    /// Binds a variable.
    Assignment(Assignment),
    /// Launches a command: its name, then its arguments, before substitution.
    Execution(Vec<String>),
}

/// A statement over character sequences.
pub enum StatementView {
    Assignment(AssignmentView),
    Execution(Seq<Seq<char>>),
}

impl View for Statement {
    type V = StatementView;

    open spec fn view(&self) -> StatementView {
        match self {
            Statement::Assignment(a) => StatementView::Assignment(a@),
            Statement::Execution(words) => StatementView::Execution(words_view(words@)),
        }
    }
}

/// The body of a function: its statements in source order.
#[derive(Clone, Debug)]
pub struct Function(pub Vec<Statement>);

/// The views of a list of statements.
pub open spec fn statements_view(statements: Seq<Statement>) -> Seq<StatementView> {
    Seq::new(statements.len(), |i: int| statements[i]@)
}

impl View for Function {
    type V = Seq<StatementView>;

    open spec fn view(&self) -> Seq<StatementView> {
        statements_view(self.0@)
    }
}

/// A script: its functions by name.
pub type Program = StrMap<Function>;

/// A script over character sequences.
pub type ProgramView = Map<Seq<char>, Seq<StatementView>>;

} // verus!
