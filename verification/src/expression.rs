//! Expressions.

use vstd::prelude::*;
use crate::node::Node;
use crate::types::{type_view, IntegerType, Type, TypeView};

verus! {

#[derive(Clone, Copy, Debug, PartialEq, Eq, Structural)]
pub enum UnaryOperation {
    Not,
    Negate,
}

#[derive(Clone, Copy, Debug, PartialEq, Eq, Structural)]
pub enum BinaryOperation {
    Add,
    Sub,
    Mul,
    Div,
    Pow,
    Or,
    And,
    Eq,
    Ne,
    Ge,
    Gt,
    Le,
    Lt,
}

/// One coordinate of a group literal that is written as a pair.
#[derive(Debug, PartialEq, Eq)]
pub enum GroupCoordinate {
    /// A coordinate given by its digits.
    Number(String),
    /// The coordinate that the other determines, the greater of the two candidates.
    SignHigh,
    /// The coordinate that the other determines, the lesser of the two candidates.
    SignLow,
    /// The coordinate that the other determines.
    Inferred,
}

pub enum GroupCoordinateView {
    Number(Seq<char>),
    SignHigh,
    SignLow,
    Inferred,
}

impl View for GroupCoordinate {
    type V = GroupCoordinateView;

    open spec fn view(&self) -> GroupCoordinateView {
        match self {
            GroupCoordinate::Number(digits) => GroupCoordinateView::Number(digits@),
            GroupCoordinate::SignHigh => GroupCoordinateView::SignHigh,
            GroupCoordinate::SignLow => GroupCoordinateView::SignLow,
            GroupCoordinate::Inferred => GroupCoordinateView::Inferred,
        }
    }
}

impl Clone for GroupCoordinate {
    fn clone(&self) -> (r: Self)
        ensures
            r@ == self@,
    {
        match self {
            GroupCoordinate::Number(digits) => GroupCoordinate::Number(digits.clone()),
            GroupCoordinate::SignHigh => GroupCoordinate::SignHigh,
            GroupCoordinate::SignLow => GroupCoordinate::SignLow,
            GroupCoordinate::Inferred => GroupCoordinate::Inferred,
        }
    }
}

/// A literal value, with numbers kept as the text that was written.
#[derive(Debug, PartialEq, Eq)]
pub enum Literal {
    Boolean(bool),
    Integer(IntegerType, String),
    Field(String),
    /// The short form of a group literal: one number, which is the first coordinate.
    GroupSingle(String),
    /// A group literal with both coordinates written out.
    GroupPair(GroupCoordinate, GroupCoordinate),
    Address(String),
    Text(String),
}

pub enum LiteralView {
    Boolean(bool),
    Integer(IntegerType, Seq<char>),
    Field(Seq<char>),
    GroupSingle(Seq<char>),
    GroupPair(GroupCoordinateView, GroupCoordinateView),
    Address(Seq<char>),
    Text(Seq<char>),
}

impl View for Literal {
    type V = LiteralView;

    open spec fn view(&self) -> LiteralView {
        match self {
            Literal::Boolean(b) => LiteralView::Boolean(*b),
            Literal::Integer(kind, digits) => LiteralView::Integer(*kind, digits@),
            Literal::Field(digits) => LiteralView::Field(digits@),
            Literal::GroupSingle(digits) => LiteralView::GroupSingle(digits@),
            Literal::GroupPair(x, y) => LiteralView::GroupPair(x@, y@),
            Literal::Address(text) => LiteralView::Address(text@),
            Literal::Text(text) => LiteralView::Text(text@),
        }
    }
}

impl Clone for Literal {
    fn clone(&self) -> (r: Self)
        ensures
            r@ == self@,
    {
        match self {
            Literal::Boolean(b) => Literal::Boolean(*b),
            Literal::Integer(kind, digits) => Literal::Integer(*kind, digits.clone()),
            Literal::Field(digits) => Literal::Field(digits.clone()),
            Literal::GroupSingle(digits) => Literal::GroupSingle(digits.clone()),
            Literal::GroupPair(x, y) => Literal::GroupPair(x.clone(), y.clone()),
            Literal::Address(text) => Literal::Address(text.clone()),
            Literal::Text(text) => Literal::Text(text.clone()),
        }
    }
}

/// An expression: its identity and what kind of expression it is.
#[derive(Debug, PartialEq, Eq)]
pub struct Expression {
    pub node: Node,
    pub kind: ExpressionKind,
}

#[derive(Debug, PartialEq, Eq)]
pub enum ExpressionKind {
    Literal(Literal),
    /// A reference to a name.
    Identifier(String),
    Unary { operator: UnaryOperation, operand: Box<Expression> },
    Binary { operation: BinaryOperation, left: Box<Expression>, right: Box<Expression> },
    Ternary { condition: Box<Expression>, if_true: Box<Expression>, if_false: Box<Expression> },
    /// A call of the function that the path `callee` names.
    Call { callee: Vec<String>, arguments: Vec<Expression> },
    Array(Vec<Expression>),
    Tuple(Vec<Expression>),
    /// A circuit value, built from one expression for each named member.
    Circuit { name: String, members: Vec<MemberInit> },
    Index { array: Box<Expression>, index: Box<Expression> },
    Member { object: Box<Expression>, name: String },
    /// The component of a tuple at a fixed position, counted from zero.
    TupleAccess { tuple: Box<Expression>, position: u64 },
    /// The short form of a member access inside a circuit: the member's name alone,
    /// with the receiver left out.
    ImplicitMember { name: String },
    Cast { operand: Box<Expression>, target: Type },
}

/// One member of a circuit value: its name and the expression that gives its value.
#[derive(Debug, PartialEq, Eq)]
pub struct MemberInit {
    pub name: String,
    pub value: Expression,
}

pub struct ExpressionView {
    pub node: Node,
    pub kind: ExpressionKindView,
}

pub enum ExpressionKindView {
    Literal(LiteralView),
    Identifier(Seq<char>),
    Unary { operator: UnaryOperation, operand: Box<ExpressionView> },
    Binary { operation: BinaryOperation, left: Box<ExpressionView>, right: Box<ExpressionView> },
    Ternary {
        condition: Box<ExpressionView>,
        if_true: Box<ExpressionView>,
        if_false: Box<ExpressionView>,
    },
    Call { callee: Seq<Seq<char>>, arguments: Seq<ExpressionView> },
    Array(Seq<ExpressionView>),
    Tuple(Seq<ExpressionView>),
    Circuit { name: Seq<char>, members: Seq<MemberInitView> },
    Index { array: Box<ExpressionView>, index: Box<ExpressionView> },
    Member { object: Box<ExpressionView>, name: Seq<char> },
    TupleAccess { tuple: Box<ExpressionView>, position: u64 },
    ImplicitMember { name: Seq<char> },
    Cast { operand: Box<ExpressionView>, target: TypeView },
}

pub struct MemberInitView {
    pub name: Seq<char>,
    pub value: ExpressionView,
}

pub open spec fn expression_view(e: Expression) -> ExpressionView
    decreases e, 0nat,
{
    ExpressionView {
        node: e.node,
        kind: match e.kind {
            ExpressionKind::Literal(l) => ExpressionKindView::Literal(l@),
            ExpressionKind::Identifier(name) => ExpressionKindView::Identifier(name@),
            ExpressionKind::Unary { operator, operand } => ExpressionKindView::Unary {
                operator,
                operand: Box::new(expression_view(*operand)),
            },
            ExpressionKind::Binary { operation, left, right } => ExpressionKindView::Binary {
                operation,
                left: Box::new(expression_view(*left)),
                right: Box::new(expression_view(*right)),
            },
            ExpressionKind::Ternary { condition, if_true, if_false } => ExpressionKindView::Ternary {
                condition: Box::new(expression_view(*condition)),
                if_true: Box::new(expression_view(*if_true)),
                if_false: Box::new(expression_view(*if_false)),
            },
            ExpressionKind::Call { callee, arguments } => ExpressionKindView::Call {
                callee: crate::node::texts_view(callee@),
                arguments: expressions_view(arguments@),
            },
            ExpressionKind::Array(elements) => ExpressionKindView::Array(expressions_view(elements@)),
            ExpressionKind::Tuple(elements) => ExpressionKindView::Tuple(expressions_view(elements@)),
            ExpressionKind::Circuit { name, members } => ExpressionKindView::Circuit {
                name: name@,
                members: member_inits_view(members@),
            },
            ExpressionKind::Index { array, index } => ExpressionKindView::Index {
                array: Box::new(expression_view(*array)),
                index: Box::new(expression_view(*index)),
            },
            ExpressionKind::Member { object, name } => ExpressionKindView::Member {
                object: Box::new(expression_view(*object)),
                name: name@,
            },
            ExpressionKind::TupleAccess { tuple, position } => ExpressionKindView::TupleAccess {
                tuple: Box::new(expression_view(*tuple)),
                position,
            },
            ExpressionKind::ImplicitMember { name } => ExpressionKindView::ImplicitMember { name: name@ },
            ExpressionKind::Cast { operand, target } => ExpressionKindView::Cast {
                operand: Box::new(expression_view(*operand)),
                target: type_view(target),
            },
        },
    }
}

pub open spec fn expressions_view(es: Seq<Expression>) -> Seq<ExpressionView>
    decreases es, 1nat,
{
    Seq::new(
        es.len(),
        |i: int| if 0 <= i < es.len() { expression_view(es[i]) } else { arbitrary() },
    )
}

pub open spec fn member_init_view(m: MemberInit) -> MemberInitView
    decreases m, 0nat,
{
    MemberInitView { name: m.name@, value: expression_view(m.value) }
}

pub open spec fn member_inits_view(ms: Seq<MemberInit>) -> Seq<MemberInitView>
    decreases ms, 1nat,
{
    Seq::new(
        ms.len(),
        |i: int| if 0 <= i < ms.len() { member_init_view(ms[i]) } else { arbitrary() },
    )
}

/// The view of the kind of an expression.
pub open spec fn expression_kind_view(k: ExpressionKind) -> ExpressionKindView {
    match k {
        ExpressionKind::Literal(l) => ExpressionKindView::Literal(l@),
        ExpressionKind::Identifier(name) => ExpressionKindView::Identifier(name@),
        ExpressionKind::Unary { operator, operand } => ExpressionKindView::Unary {
            operator,
            operand: Box::new(expression_view(*operand)),
        },
        ExpressionKind::Binary { operation, left, right } => ExpressionKindView::Binary {
            operation,
            left: Box::new(expression_view(*left)),
            right: Box::new(expression_view(*right)),
        },
        ExpressionKind::Ternary { condition, if_true, if_false } => ExpressionKindView::Ternary {
            condition: Box::new(expression_view(*condition)),
            if_true: Box::new(expression_view(*if_true)),
            if_false: Box::new(expression_view(*if_false)),
        },
        ExpressionKind::Call { callee, arguments } => ExpressionKindView::Call {
            callee: crate::node::texts_view(callee@),
            arguments: expressions_view(arguments@),
        },
        ExpressionKind::Array(elements) => ExpressionKindView::Array(expressions_view(elements@)),
        ExpressionKind::Tuple(elements) => ExpressionKindView::Tuple(expressions_view(elements@)),
        ExpressionKind::Circuit { name, members } => ExpressionKindView::Circuit {
            name: name@,
            members: member_inits_view(members@),
        },
        ExpressionKind::Index { array, index } => ExpressionKindView::Index {
            array: Box::new(expression_view(*array)),
            index: Box::new(expression_view(*index)),
        },
        ExpressionKind::Member { object, name } => ExpressionKindView::Member {
            object: Box::new(expression_view(*object)),
            name: name@,
        },
        ExpressionKind::TupleAccess { tuple, position } => ExpressionKindView::TupleAccess {
            tuple: Box::new(expression_view(*tuple)),
            position,
        },
        ExpressionKind::ImplicitMember { name } => ExpressionKindView::ImplicitMember { name: name@ },
        ExpressionKind::Cast { operand, target } => ExpressionKindView::Cast {
            operand: Box::new(expression_view(*operand)),
            target: type_view(target),
        },
    }
}

impl View for ExpressionKind {
    type V = ExpressionKindView;

    open spec fn view(&self) -> ExpressionKindView {
        expression_kind_view(*self)
    }
}

impl View for Expression {
    type V = ExpressionView;

    open spec fn view(&self) -> ExpressionView {
        expression_view(*self)
    }
}

impl View for MemberInit {
    type V = MemberInitView;

    open spec fn view(&self) -> MemberInitView {
        member_init_view(*self)
    }
}

} // verus!
