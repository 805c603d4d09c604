//! Statements.

use vstd::prelude::*;
use crate::expression::{expression_view, BinaryOperation, Expression, ExpressionView};
use crate::node::Node;
use crate::types::{optional_type_view, Type, TypeView};

verus! {

/// One name that a definition introduces, with the type written for it, if any.
#[derive(Debug, PartialEq, Eq)]
pub struct Binding {
    pub node: Node,
    pub name: String,
    pub declared: Option<Type>,
}

pub struct BindingView {
    pub node: Node,
    pub name: Seq<char>,
    pub declared: Option<TypeView>,
}

impl View for Binding {
    type V = BindingView;

    open spec fn view(&self) -> BindingView {
        BindingView { node: self.node, name: self.name@, declared: optional_type_view(self.declared) }
    }
}

impl Clone for Binding {
    fn clone(&self) -> (r: Self)
        ensures
            r@ == self@,
    {
        Binding {
            node: self.node,
            name: self.name.clone(),
            declared: crate::types::clone_optional_type(&self.declared),
        }
    }
}

pub open spec fn bindings_view(bs: Seq<Binding>) -> Seq<BindingView> {
    Seq::new(bs.len(), |i: int| bs[i]@)
}

/// A definition of one or more names from one initializer.
#[derive(Debug, PartialEq, Eq)]
pub struct Definition {
    pub node: Node,
    pub mutable: bool,
    pub bindings: Vec<Binding>,
    pub value: Expression,
}

pub struct DefinitionView {
    pub node: Node,
    pub mutable: bool,
    pub bindings: Seq<BindingView>,
    pub value: ExpressionView,
}

impl View for Definition {
    type V = DefinitionView;

    open spec fn view(&self) -> DefinitionView {
        DefinitionView {
            node: self.node,
            mutable: self.mutable,
            bindings: bindings_view(self.bindings@),
            value: expression_view(self.value),
        }
    }
}

pub open spec fn definitions_view(ds: Seq<Definition>) -> Seq<DefinitionView> {
    Seq::new(ds.len(), |i: int| ds[i]@)
}

/// A sequence of statements with a scope of its own.
#[derive(Debug, PartialEq, Eq)]
pub struct Block {
    pub node: Node,
    pub statements: Vec<Statement>,
}

#[derive(Debug, PartialEq, Eq)]
pub enum Statement {
    Return { node: Node, value: Expression },
    Definition(Definition),
    /// An assignment; `operation` is the operator of a compound assignment.
    Assign { node: Node, target: Expression, operation: Option<BinaryOperation>, value: Expression },
    /// A conditional; `otherwise` is the statement after `else`, a block or another
    /// conditional.
    Conditional {
        node: Node,
        condition: Expression,
        then_block: Block,
        otherwise: Option<Box<Statement>>,
    },
    /// A loop over the range from `start` up to `stop`.
    Iteration { node: Node, variable: String, start: Expression, stop: Expression, body: Block },
    /// An expression evaluated for its effect.
    Expression { node: Node, expression: Expression },
    Block(Block),
}

pub struct BlockView {
    pub node: Node,
    pub statements: Seq<StatementView>,
}

pub enum StatementView {
    Return { node: Node, value: ExpressionView },
    Definition(DefinitionView),
    Assign {
        node: Node,
        target: ExpressionView,
        operation: Option<BinaryOperation>,
        value: ExpressionView,
    },
    Conditional {
        node: Node,
        condition: ExpressionView,
        then_block: BlockView,
        otherwise: Option<Box<StatementView>>,
    },
    Iteration {
        node: Node,
        variable: Seq<char>,
        start: ExpressionView,
        stop: ExpressionView,
        body: BlockView,
    },
    Expression { node: Node, expression: ExpressionView },
    Block(BlockView),
}

pub open spec fn statement_view(s: Statement) -> StatementView
    decreases s, 0nat,
{
    match s {
        Statement::Return { node, value } => StatementView::Return {
            node,
            value: expression_view(value),
        },
        Statement::Definition(d) => StatementView::Definition(d@),
        Statement::Assign { node, target, operation, value } => StatementView::Assign {
            node,
            target: expression_view(target),
            operation,
            value: expression_view(value),
        },
        Statement::Conditional { node, condition, then_block, otherwise } => StatementView::Conditional {
            node,
            condition: expression_view(condition),
            then_block: BlockView {
                node: then_block.node,
                statements: statements_view(then_block.statements@),
            },
            otherwise: match otherwise {
                Some(s) => Some(Box::new(statement_view(*s))),
                None => None,
            },
        },
        Statement::Iteration { node, variable, start, stop, body } => StatementView::Iteration {
            node,
            variable: variable@,
            start: expression_view(start),
            stop: expression_view(stop),
            body: BlockView { node: body.node, statements: statements_view(body.statements@) },
        },
        Statement::Expression { node, expression } => StatementView::Expression {
            node,
            expression: expression_view(expression),
        },
        Statement::Block(b) => StatementView::Block(
            BlockView { node: b.node, statements: statements_view(b.statements@) },
        ),
    }
}

pub open spec fn block_view(b: Block) -> BlockView {
    BlockView { node: b.node, statements: statements_view(b.statements@) }
}

pub open spec fn statements_view(ss: Seq<Statement>) -> Seq<StatementView>
    decreases ss, 1nat,
{
    Seq::new(
        ss.len(),
        |i: int| if 0 <= i < ss.len() { statement_view(ss[i]) } else { arbitrary() },
    )
}

/// The view of the statement after `else`, if there is one.
pub open spec fn optional_boxed_statement_view(s: Option<Box<Statement>>) -> Option<Box<StatementView>> {
    match s {
        Some(s) => Some(Box::new(statement_view(*s))),
        None => None,
    }
}

impl View for Statement {
    type V = StatementView;

    open spec fn view(&self) -> StatementView {
        statement_view(*self)
    }
}

impl View for Block {
    type V = BlockView;

    open spec fn view(&self) -> BlockView {
        block_view(*self)
    }
}

impl StatementView {
    /// The identity of a statement, whatever its kind.
    pub open spec fn node(self) -> Node {
        match self {
            StatementView::Return { node, .. } => node,
            StatementView::Definition(d) => d.node,
            StatementView::Assign { node, .. } => node,
            StatementView::Conditional { node, .. } => node,
            StatementView::Iteration { node, .. } => node,
            StatementView::Expression { node, .. } => node,
            StatementView::Block(b) => b.node,
        }
    }
}

impl Statement {
    /// The identity of this statement, whatever its kind.
    pub fn node(&self) -> (r: Node)
        ensures
            r == self@.node(),
    {
        match self {
            Statement::Return { node, .. } => *node,
            Statement::Definition(d) => d.node,
            Statement::Assign { node, .. } => *node,
            Statement::Conditional { node, .. } => *node,
            Statement::Iteration { node, .. } => *node,
            Statement::Expression { node, .. } => *node,
            Statement::Block(b) => b.node,
        }
    }
}

} // verus!
