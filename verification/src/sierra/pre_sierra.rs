//! Statements before their labels are resolved.
use vstd::prelude::*;

use crate::duplicate::viewed;
use crate::sierra::ids::{ConcreteTypeId, IdView, VarId};
use crate::sierra::program::{Statement, StatementView};

verus! {

/// A label.
#[derive(Clone, Copy, Debug, PartialEq, Eq, Structural)]
pub struct LabelId(pub u64);

/// Where a statement comes from.
#[derive(Clone, Copy, Debug, PartialEq, Eq, Structural)]
pub struct StableLocation(pub u64);

/// A value that is to be pushed onto the stack.
#[derive(Debug)]
pub struct PushValue {
    /// The variable.
    pub var: VarId,
    /// The variable on the stack.
    pub var_on_stack: VarId,
    /// The type of the variable.
    pub ty: ConcreteTypeId,
    /// Whether the variable should be duplicated.
    pub dup: bool,
}

#[verifier::ext_equal]
pub struct PushValueView {
    pub var: IdView,
    pub var_on_stack: IdView,
    pub ty: IdView,
    pub dup: bool,
}

impl View for PushValue {
    type V = PushValueView;

    open spec fn view(&self) -> PushValueView {
        PushValueView {
            var: self.var@,
            var_on_stack: self.var_on_stack@,
            ty: self.ty@,
            dup: self.dup,
        }
    }
}

/// A statement, whose branches continue to labels.
#[derive(Debug)]
pub enum PreStatement {
    /// A statement of Sierra.
    Sierra(Statement<LabelId>),
    /// The place of a label.
    Label(LabelId),
    /// Values that are to be pushed onto the stack.
    PushValues(Vec<PushValue>),
}

#[verifier::ext_equal]
pub enum PreStatementView {
    Sierra(StatementView<LabelId>),
    Label(LabelId),
    PushValues(Seq<PushValueView>),
}

impl View for PreStatement {
    type V = PreStatementView;

    open spec fn view(&self) -> PreStatementView {
        match *self {
            PreStatement::Sierra(statement) => PreStatementView::Sierra(statement@),
            PreStatement::Label(label) => PreStatementView::Label(label),
            PreStatement::PushValues(values) => PreStatementView::PushValues(viewed(values@)),
        }
    }
}

/// A statement, and where it comes from.
#[derive(Debug)]
pub struct StatementWithLocation {
    pub statement: PreStatement,
    pub location: Vec<StableLocation>,
}

#[verifier::ext_equal]
pub struct StatementWithLocationView {
    pub statement: PreStatementView,
    pub location: Seq<StableLocation>,
}

impl View for StatementWithLocation {
    type V = StatementWithLocationView;

    open spec fn view(&self) -> StatementWithLocationView {
        StatementWithLocationView { statement: self.statement@, location: self.location@ }
    }
}

} // verus!
