//! What a rewriting pass has to say: one operation for each kind of node.

use vstd::prelude::*;
use vstd::pervasive::unreached;
use crate::errors::{outcome_view, ReducerError};
use crate::expression::{
    expressions_view, member_inits_view, Expression, ExpressionKind, ExpressionKindView, ExpressionView,
    MemberInit, MemberInitView,
};
use crate::node::clone_texts;
use crate::program::{
    annotations_view, circuit_members_view, circuits_view, functions_view, imports_view, inputs_view,
    Annotation, AnnotationView, Circuit, CircuitMember, CircuitMemberView, CircuitView, Function,
    FunctionInput, FunctionInputView, FunctionView, Import, ImportView, Program, ProgramView,
};
use crate::statements::{
    bindings_view, definitions_view, statements_view, Binding, BindingView, Block, BlockView, Definition,
    DefinitionView, Statement, StatementView,
};
use crate::types::{optional_type_view, Type, TypeView};

verus! {

/// A rewriting pass over syntax trees.
///
/// A pass has one operation for each kind of node. The operation is given the node as
/// it was and the node's children as the pass has already rewritten them, and returns
/// the node that takes its place, or an error. What an operation returns, and how it
/// changes the state of the pass, is fixed by the rule of the same name: a function
/// of the state of the pass before the call and of the operation's arguments.
///
/// A pass that leaves some kind of node alone has the function `keep_` of that kind
/// as its operation.
pub trait Reducer: View + Sized {
    /// What [`Reducer::reduce_literal`] does.
    spec fn literal_rule(
        state: Self::V,
        original: ExpressionView,
    ) -> (Self::V, Result<ExpressionView, ReducerError>);

    /// What [`Reducer::reduce_identifier`] does.
    spec fn identifier_rule(
        state: Self::V,
        original: ExpressionView,
    ) -> (Self::V, Result<ExpressionView, ReducerError>);

    /// What [`Reducer::reduce_unary`] does.
    spec fn unary_rule(
        state: Self::V,
        original: ExpressionView,
        operand: ExpressionView,
    ) -> (Self::V, Result<ExpressionView, ReducerError>);

    /// What [`Reducer::reduce_binary`] does.
    spec fn binary_rule(
        state: Self::V,
        original: ExpressionView,
        left: ExpressionView,
        right: ExpressionView,
    ) -> (Self::V, Result<ExpressionView, ReducerError>);

    /// What [`Reducer::reduce_ternary`] does.
    spec fn ternary_rule(
        state: Self::V,
        original: ExpressionView,
        condition: ExpressionView,
        if_true: ExpressionView,
        if_false: ExpressionView,
    ) -> (Self::V, Result<ExpressionView, ReducerError>);

    /// What [`Reducer::reduce_call`] does.
    spec fn call_rule(
        state: Self::V,
        original: ExpressionView,
        arguments: Seq<ExpressionView>,
    ) -> (Self::V, Result<ExpressionView, ReducerError>);

    /// What [`Reducer::reduce_array`] does.
    spec fn array_rule(
        state: Self::V,
        original: ExpressionView,
        elements: Seq<ExpressionView>,
    ) -> (Self::V, Result<ExpressionView, ReducerError>);

    /// What [`Reducer::reduce_tuple`] does.
    spec fn tuple_rule(
        state: Self::V,
        original: ExpressionView,
        elements: Seq<ExpressionView>,
    ) -> (Self::V, Result<ExpressionView, ReducerError>);

    /// What [`Reducer::reduce_circuit_init`] does.
    spec fn circuit_init_rule(
        state: Self::V,
        original: ExpressionView,
        members: Seq<MemberInitView>,
    ) -> (Self::V, Result<ExpressionView, ReducerError>);

    /// What [`Reducer::reduce_index`] does.
    spec fn index_rule(
        state: Self::V,
        original: ExpressionView,
        array: ExpressionView,
        index: ExpressionView,
    ) -> (Self::V, Result<ExpressionView, ReducerError>);

    /// What [`Reducer::reduce_member`] does.
    spec fn member_rule(
        state: Self::V,
        original: ExpressionView,
        object: ExpressionView,
    ) -> (Self::V, Result<ExpressionView, ReducerError>);

    /// What [`Reducer::reduce_tuple_access`] does.
    spec fn tuple_access_rule(
        state: Self::V,
        original: ExpressionView,
        tuple: ExpressionView,
    ) -> (Self::V, Result<ExpressionView, ReducerError>);

    /// What [`Reducer::reduce_implicit_member`] does.
    spec fn implicit_member_rule(
        state: Self::V,
        original: ExpressionView,
    ) -> (Self::V, Result<ExpressionView, ReducerError>);

    /// What [`Reducer::reduce_cast`] does.
    spec fn cast_rule(
        state: Self::V,
        original: ExpressionView,
        operand: ExpressionView,
        target: TypeView,
    ) -> (Self::V, Result<ExpressionView, ReducerError>);

    /// What [`Reducer::reduce_type`] does.
    spec fn type_rule(
        state: Self::V,
        original: TypeView,
    ) -> (Self::V, Result<TypeView, ReducerError>);

    /// What [`Reducer::reduce_return`] does.
    spec fn return_rule(
        state: Self::V,
        original: StatementView,
        value: ExpressionView,
    ) -> (Self::V, Result<StatementView, ReducerError>);

    /// What [`Reducer::reduce_binding`] does.
    spec fn binding_rule(
        state: Self::V,
        original: BindingView,
        declared: Option<TypeView>,
    ) -> (Self::V, Result<BindingView, ReducerError>);

    /// What [`Reducer::reduce_definition`] does.
    spec fn definition_rule(
        state: Self::V,
        original: DefinitionView,
        bindings: Seq<BindingView>,
        value: ExpressionView,
    ) -> (Self::V, Result<DefinitionView, ReducerError>);

    /// What [`Reducer::reduce_assign`] does.
    spec fn assign_rule(
        state: Self::V,
        original: StatementView,
        target: ExpressionView,
        value: ExpressionView,
    ) -> (Self::V, Result<StatementView, ReducerError>);

    /// What [`Reducer::reduce_conditional`] does.
    spec fn conditional_rule(
        state: Self::V,
        original: StatementView,
        condition: ExpressionView,
        then_block: BlockView,
        otherwise: Option<StatementView>,
    ) -> (Self::V, Result<StatementView, ReducerError>);

    /// What [`Reducer::reduce_iteration`] does.
    spec fn iteration_rule(
        state: Self::V,
        original: StatementView,
        start: ExpressionView,
        stop: ExpressionView,
        body: BlockView,
    ) -> (Self::V, Result<StatementView, ReducerError>);

    /// What [`Reducer::reduce_expression_statement`] does.
    spec fn expression_statement_rule(
        state: Self::V,
        original: StatementView,
        expression: ExpressionView,
    ) -> (Self::V, Result<StatementView, ReducerError>);

    /// What [`Reducer::reduce_block`] does.
    spec fn block_rule(
        state: Self::V,
        original: BlockView,
        statements: Seq<StatementView>,
    ) -> (Self::V, Result<BlockView, ReducerError>);

    /// What [`Reducer::reduce_import`] does.
    spec fn import_rule(
        state: Self::V,
        original: ImportView,
    ) -> (Self::V, Result<ImportView, ReducerError>);

    /// What [`Reducer::reduce_circuit_member`] does.
    spec fn circuit_member_rule(
        state: Self::V,
        original: CircuitMemberView,
        member_type: TypeView,
    ) -> (Self::V, Result<CircuitMemberView, ReducerError>);

    /// What [`Reducer::reduce_circuit`] does.
    spec fn circuit_rule(
        state: Self::V,
        original: CircuitView,
        members: Seq<CircuitMemberView>,
        functions: Seq<FunctionView>,
    ) -> (Self::V, Result<CircuitView, ReducerError>);

    /// What [`Reducer::reduce_annotation`] does.
    spec fn annotation_rule(
        state: Self::V,
        original: AnnotationView,
    ) -> (Self::V, Result<AnnotationView, ReducerError>);

    /// What [`Reducer::reduce_function_input`] does.
    spec fn function_input_rule(
        state: Self::V,
        original: FunctionInputView,
        input_type: TypeView,
    ) -> (Self::V, Result<FunctionInputView, ReducerError>);

    /// What [`Reducer::reduce_function`] does.
    spec fn function_rule(
        state: Self::V,
        original: FunctionView,
        annotations: Seq<AnnotationView>,
        inputs: Seq<FunctionInputView>,
        output: Option<TypeView>,
        body: BlockView,
    ) -> (Self::V, Result<FunctionView, ReducerError>);

    /// What [`Reducer::reduce_program`] does.
    spec fn program_rule(
        state: Self::V,
        original: ProgramView,
        imports: Seq<ImportView>,
        circuits: Seq<CircuitView>,
        functions: Seq<FunctionView>,
        globals: Seq<DefinitionView>,
    ) -> (Self::V, Result<ProgramView, ReducerError>);

    /// Rewrites a literal.
    fn reduce_literal(&mut self, original: &Expression) -> (r: Result<Expression, ReducerError>)
        requires
            original@.kind is Literal,
        ensures
            Self::literal_rule(old(self)@, original@) == (final(self)@, outcome_view(r)),
    ;

    /// Rewrites a reference to a name.
    fn reduce_identifier(&mut self, original: &Expression) -> (r: Result<Expression, ReducerError>)
        requires
            original@.kind is Identifier,
        ensures
            Self::identifier_rule(old(self)@, original@) == (final(self)@, outcome_view(r)),
    ;

    /// Rewrites a unary operation.
    fn reduce_unary(
        &mut self,
        original: &Expression,
        operand: Expression,
    ) -> (r: Result<Expression, ReducerError>)
        requires
            original@.kind is Unary,
        ensures
            Self::unary_rule(old(self)@, original@, operand@) == (final(self)@, outcome_view(r)),
    ;

    /// Rewrites a binary operation.
    fn reduce_binary(
        &mut self,
        original: &Expression,
        left: Expression,
        right: Expression,
    ) -> (r: Result<Expression, ReducerError>)
        requires
            original@.kind is Binary,
        ensures
            Self::binary_rule(
                old(self)@,
                original@,
                left@,
                right@,
            ) == (final(self)@, outcome_view(r)),
    ;

    /// Rewrites a ternary expression.
    fn reduce_ternary(
        &mut self,
        original: &Expression,
        condition: Expression,
        if_true: Expression,
        if_false: Expression,
    ) -> (r: Result<Expression, ReducerError>)
        requires
            original@.kind is Ternary,
        ensures
            Self::ternary_rule(
                old(self)@,
                original@,
                condition@,
                if_true@,
                if_false@,
            ) == (final(self)@, outcome_view(r)),
    ;

    /// Rewrites a call.
    fn reduce_call(
        &mut self,
        original: &Expression,
        arguments: Vec<Expression>,
    ) -> (r: Result<Expression, ReducerError>)
        requires
            original@.kind is Call,
        ensures
            Self::call_rule(
                old(self)@,
                original@,
                expressions_view(arguments@),
            ) == (final(self)@, outcome_view(r)),
    ;

    /// Rewrites an array expression.
    fn reduce_array(
        &mut self,
        original: &Expression,
        elements: Vec<Expression>,
    ) -> (r: Result<Expression, ReducerError>)
        requires
            original@.kind is Array,
        ensures
            Self::array_rule(
                old(self)@,
                original@,
                expressions_view(elements@),
            ) == (final(self)@, outcome_view(r)),
    ;

    /// Rewrites a tuple expression.
    fn reduce_tuple(
        &mut self,
        original: &Expression,
        elements: Vec<Expression>,
    ) -> (r: Result<Expression, ReducerError>)
        requires
            original@.kind is Tuple,
        ensures
            Self::tuple_rule(
                old(self)@,
                original@,
                expressions_view(elements@),
            ) == (final(self)@, outcome_view(r)),
    ;

    /// Rewrites a circuit expression.
    fn reduce_circuit_init(
        &mut self,
        original: &Expression,
        members: Vec<MemberInit>,
    ) -> (r: Result<Expression, ReducerError>)
        requires
            original@.kind is Circuit,
        ensures
            Self::circuit_init_rule(
                old(self)@,
                original@,
                member_inits_view(members@),
            ) == (final(self)@, outcome_view(r)),
    ;

    /// Rewrites an index access.
    fn reduce_index(
        &mut self,
        original: &Expression,
        array: Expression,
        index: Expression,
    ) -> (r: Result<Expression, ReducerError>)
        requires
            original@.kind is Index,
        ensures
            Self::index_rule(
                old(self)@,
                original@,
                array@,
                index@,
            ) == (final(self)@, outcome_view(r)),
    ;

    /// Rewrites a member access.
    fn reduce_member(
        &mut self,
        original: &Expression,
        object: Expression,
    ) -> (r: Result<Expression, ReducerError>)
        requires
            original@.kind is Member,
        ensures
            Self::member_rule(old(self)@, original@, object@) == (final(self)@, outcome_view(r)),
    ;

    /// Rewrites a tuple access.
    fn reduce_tuple_access(
        &mut self,
        original: &Expression,
        tuple: Expression,
    ) -> (r: Result<Expression, ReducerError>)
        requires
            original@.kind is TupleAccess,
        ensures
            Self::tuple_access_rule(
                old(self)@,
                original@,
                tuple@,
            ) == (final(self)@, outcome_view(r)),
    ;

    /// Rewrites a member access in its short form.
    fn reduce_implicit_member(
        &mut self,
        original: &Expression,
    ) -> (r: Result<Expression, ReducerError>)
        requires
            original@.kind is ImplicitMember,
        ensures
            Self::implicit_member_rule(old(self)@, original@) == (final(self)@, outcome_view(r)),
    ;

    /// Rewrites a cast.
    fn reduce_cast(
        &mut self,
        original: &Expression,
        operand: Expression,
        target: Type,
    ) -> (r: Result<Expression, ReducerError>)
        requires
            original@.kind is Cast,
        ensures
            Self::cast_rule(
                old(self)@,
                original@,
                operand@,
                target@,
            ) == (final(self)@, outcome_view(r)),
    ;

    /// Rewrites a type.
    fn reduce_type(&mut self, original: &Type) -> (r: Result<Type, ReducerError>)
        ensures
            Self::type_rule(old(self)@, original@) == (final(self)@, outcome_view(r)),
    ;

    /// Rewrites a return statement.
    fn reduce_return(
        &mut self,
        original: &Statement,
        value: Expression,
    ) -> (r: Result<Statement, ReducerError>)
        requires
            original@ is Return,
        ensures
            Self::return_rule(old(self)@, original@, value@) == (final(self)@, outcome_view(r)),
    ;

    /// Rewrites a name of a definition.
    fn reduce_binding(
        &mut self,
        original: &Binding,
        declared: Option<Type>,
    ) -> (r: Result<Binding, ReducerError>)
        ensures
            Self::binding_rule(
                old(self)@,
                original@,
                optional_type_view(declared),
            ) == (final(self)@, outcome_view(r)),
    ;

    /// Rewrites a definition.
    fn reduce_definition(
        &mut self,
        original: &Definition,
        bindings: Vec<Binding>,
        value: Expression,
    ) -> (r: Result<Definition, ReducerError>)
        ensures
            Self::definition_rule(
                old(self)@,
                original@,
                bindings_view(bindings@),
                value@,
            ) == (final(self)@, outcome_view(r)),
    ;

    /// Rewrites an assignment.
    fn reduce_assign(
        &mut self,
        original: &Statement,
        target: Expression,
        value: Expression,
    ) -> (r: Result<Statement, ReducerError>)
        requires
            original@ is Assign,
        ensures
            Self::assign_rule(
                old(self)@,
                original@,
                target@,
                value@,
            ) == (final(self)@, outcome_view(r)),
    ;

    /// Rewrites a conditional.
    fn reduce_conditional(
        &mut self,
        original: &Statement,
        condition: Expression,
        then_block: Block,
        otherwise: Option<Statement>,
    ) -> (r: Result<Statement, ReducerError>)
        requires
            original@ is Conditional,
        ensures
            Self::conditional_rule(
                old(self)@,
                original@,
                condition@,
                then_block@,
                optional_statement_view(otherwise),
            ) == (final(self)@, outcome_view(r)),
    ;

    /// Rewrites a loop.
    fn reduce_iteration(
        &mut self,
        original: &Statement,
        start: Expression,
        stop: Expression,
        body: Block,
    ) -> (r: Result<Statement, ReducerError>)
        requires
            original@ is Iteration,
        ensures
            Self::iteration_rule(
                old(self)@,
                original@,
                start@,
                stop@,
                body@,
            ) == (final(self)@, outcome_view(r)),
    ;

    /// Rewrites an expression statement.
    fn reduce_expression_statement(
        &mut self,
        original: &Statement,
        expression: Expression,
    ) -> (r: Result<Statement, ReducerError>)
        requires
            original@ is Expression,
        ensures
            Self::expression_statement_rule(
                old(self)@,
                original@,
                expression@,
            ) == (final(self)@, outcome_view(r)),
    ;

    /// Rewrites a block.
    fn reduce_block(
        &mut self,
        original: &Block,
        statements: Vec<Statement>,
    ) -> (r: Result<Block, ReducerError>)
        ensures
            Self::block_rule(
                old(self)@,
                original@,
                statements_view(statements@),
            ) == (final(self)@, outcome_view(r)),
    ;

    /// Rewrites an import.
    fn reduce_import(&mut self, original: &Import) -> (r: Result<Import, ReducerError>)
        ensures
            Self::import_rule(old(self)@, original@) == (final(self)@, outcome_view(r)),
    ;

    /// Rewrites a member variable of a circuit.
    fn reduce_circuit_member(
        &mut self,
        original: &CircuitMember,
        member_type: Type,
    ) -> (r: Result<CircuitMember, ReducerError>)
        ensures
            Self::circuit_member_rule(
                old(self)@,
                original@,
                member_type@,
            ) == (final(self)@, outcome_view(r)),
    ;

    /// Rewrites a circuit.
    fn reduce_circuit(
        &mut self,
        original: &Circuit,
        members: Vec<CircuitMember>,
        functions: Vec<Function>,
    ) -> (r: Result<Circuit, ReducerError>)
        ensures
            Self::circuit_rule(
                old(self)@,
                original@,
                circuit_members_view(members@),
                functions_view(functions@),
            ) == (final(self)@, outcome_view(r)),
    ;

    /// Rewrites an annotation.
    fn reduce_annotation(&mut self, original: &Annotation) -> (r: Result<Annotation, ReducerError>)
        ensures
            Self::annotation_rule(old(self)@, original@) == (final(self)@, outcome_view(r)),
    ;

    /// Rewrites a parameter.
    fn reduce_function_input(
        &mut self,
        original: &FunctionInput,
        input_type: Type,
    ) -> (r: Result<FunctionInput, ReducerError>)
        ensures
            Self::function_input_rule(
                old(self)@,
                original@,
                input_type@,
            ) == (final(self)@, outcome_view(r)),
    ;

    /// Rewrites a function.
    fn reduce_function(
        &mut self,
        original: &Function,
        annotations: Vec<Annotation>,
        inputs: Vec<FunctionInput>,
        output: Option<Type>,
        body: Block,
    ) -> (r: Result<Function, ReducerError>)
        ensures
            Self::function_rule(
                old(self)@,
                original@,
                annotations_view(annotations@),
                inputs_view(inputs@),
                optional_type_view(output),
                body@,
            ) == (final(self)@, outcome_view(r)),
    ;

    /// Rewrites a program.
    fn reduce_program(
        &mut self,
        original: &Program,
        imports: Vec<Import>,
        circuits: Vec<Circuit>,
        functions: Vec<Function>,
        globals: Vec<Definition>,
    ) -> (r: Result<Program, ReducerError>)
        ensures
            Self::program_rule(
                old(self)@,
                original@,
                imports_view(imports@),
                circuits_view(circuits@),
                functions_view(functions@),
                definitions_view(globals@),
            ) == (final(self)@, outcome_view(r)),
    ;
}

/// The view of an optional statement.
pub open spec fn optional_statement_view(s: Option<Statement>) -> Option<StatementView> {
    match s {
        Some(s) => Some(s@),
        None => None,
    }
}

/// `original` with `operand` in place of its operand.
pub open spec fn kept_unary(original: ExpressionView, operand: ExpressionView) -> ExpressionView {
    ExpressionView {
        node: original.node,
        kind: ExpressionKindView::Unary { operator: original.kind->operator, operand: Box::new(operand) },
    }
}

/// `original` with `left` and `right` in place of its operands.
pub open spec fn kept_binary(
    original: ExpressionView,
    left: ExpressionView,
    right: ExpressionView,
) -> ExpressionView {
    ExpressionView {
        node: original.node,
        kind: ExpressionKindView::Binary {
            operation: original.kind->operation,
            left: Box::new(left),
            right: Box::new(right),
        },
    }
}

/// `original` with the three given expressions in place of its own.
pub open spec fn kept_ternary(
    original: ExpressionView,
    condition: ExpressionView,
    if_true: ExpressionView,
    if_false: ExpressionView,
) -> ExpressionView {
    ExpressionView {
        node: original.node,
        kind: ExpressionKindView::Ternary {
            condition: Box::new(condition),
            if_true: Box::new(if_true),
            if_false: Box::new(if_false),
        },
    }
}

/// `original` with `arguments` in place of its arguments.
pub open spec fn kept_call(original: ExpressionView, arguments: Seq<ExpressionView>) -> ExpressionView {
    ExpressionView {
        node: original.node,
        kind: ExpressionKindView::Call { callee: original.kind->callee, arguments },
    }
}

/// The array expression of `original`'s identity with the given elements.
pub open spec fn kept_array(original: ExpressionView, elements: Seq<ExpressionView>) -> ExpressionView {
    ExpressionView { node: original.node, kind: ExpressionKindView::Array(elements) }
}

/// The tuple expression of `original`'s identity with the given elements.
pub open spec fn kept_tuple(original: ExpressionView, elements: Seq<ExpressionView>) -> ExpressionView {
    ExpressionView { node: original.node, kind: ExpressionKindView::Tuple(elements) }
}

/// `original` with `members` in place of its members.
pub open spec fn kept_circuit_init(
    original: ExpressionView,
    members: Seq<MemberInitView>,
) -> ExpressionView {
    ExpressionView {
        node: original.node,
        kind: ExpressionKindView::Circuit { name: original.kind->Circuit_name, members },
    }
}

/// The index access of `original`'s identity on the given expressions.
pub open spec fn kept_index(
    original: ExpressionView,
    array: ExpressionView,
    index: ExpressionView,
) -> ExpressionView {
    ExpressionView {
        node: original.node,
        kind: ExpressionKindView::Index { array: Box::new(array), index: Box::new(index) },
    }
}

/// `original` with `object` in place of the expression whose member it takes.
pub open spec fn kept_member(original: ExpressionView, object: ExpressionView) -> ExpressionView {
    ExpressionView {
        node: original.node,
        kind: ExpressionKindView::Member { object: Box::new(object), name: original.kind->Member_name },
    }
}

/// `original` with `tuple` in place of the expression whose component it takes.
pub open spec fn kept_tuple_access(original: ExpressionView, tuple: ExpressionView) -> ExpressionView {
    ExpressionView {
        node: original.node,
        kind: ExpressionKindView::TupleAccess {
            tuple: Box::new(tuple),
            position: original.kind->position,
        },
    }
}

/// The cast of `original`'s identity of `operand` to `target`.
pub open spec fn kept_cast(
    original: ExpressionView,
    operand: ExpressionView,
    target: TypeView,
) -> ExpressionView {
    ExpressionView {
        node: original.node,
        kind: ExpressionKindView::Cast { operand: Box::new(operand), target },
    }
}

/// The return statement of `original`'s identity that returns `value`.
pub open spec fn kept_return(original: StatementView, value: ExpressionView) -> StatementView {
    StatementView::Return { node: original.node(), value }
}

/// `original` with `declared` in place of its type.
pub open spec fn kept_binding(original: BindingView, declared: Option<TypeView>) -> BindingView {
    BindingView { node: original.node, name: original.name, declared }
}

/// `original` with the given names and initializer in place of its own.
pub open spec fn kept_definition(
    original: DefinitionView,
    bindings: Seq<BindingView>,
    value: ExpressionView,
) -> DefinitionView {
    DefinitionView { node: original.node, mutable: original.mutable, bindings, value }
}

/// `original` with the given target and value in place of its own.
pub open spec fn kept_assign(
    original: StatementView,
    target: ExpressionView,
    value: ExpressionView,
) -> StatementView {
    StatementView::Assign { node: original.node(), target, operation: original->operation, value }
}

/// The conditional of `original`'s identity with the given parts.
pub open spec fn kept_conditional(
    original: StatementView,
    condition: ExpressionView,
    then_block: BlockView,
    otherwise: Option<StatementView>,
) -> StatementView {
    StatementView::Conditional {
        node: original.node(),
        condition,
        then_block,
        otherwise: match otherwise {
            Some(s) => Some(Box::new(s)),
            None => None,
        },
    }
}

/// `original` with the given bounds and body in place of its own.
pub open spec fn kept_iteration(
    original: StatementView,
    start: ExpressionView,
    stop: ExpressionView,
    body: BlockView,
) -> StatementView {
    StatementView::Iteration { node: original.node(), variable: original->variable, start, stop, body }
}

/// The expression statement of `original`'s identity for `expression`.
pub open spec fn kept_expression_statement(
    original: StatementView,
    expression: ExpressionView,
) -> StatementView {
    StatementView::Expression { node: original.node(), expression }
}

/// The block of `original`'s identity with the given statements.
pub open spec fn kept_block(original: BlockView, statements: Seq<StatementView>) -> BlockView {
    BlockView { node: original.node, statements }
}

/// `original` with `member_type` in place of its type.
pub open spec fn kept_circuit_member(original: CircuitMemberView, member_type: TypeView) -> CircuitMemberView {
    CircuitMemberView { node: original.node, name: original.name, member_type }
}

/// `original` with the given members and functions in place of its own.
pub open spec fn kept_circuit(
    original: CircuitView,
    members: Seq<CircuitMemberView>,
    functions: Seq<FunctionView>,
) -> CircuitView {
    CircuitView { node: original.node, name: original.name, members, functions }
}

/// `original` with `input_type` in place of its type.
pub open spec fn kept_function_input(original: FunctionInputView, input_type: TypeView) -> FunctionInputView {
    FunctionInputView { node: original.node, name: original.name, mode: original.mode, input_type }
}

/// `original` with the given parts in place of its own.
pub open spec fn kept_function(
    original: FunctionView,
    annotations: Seq<AnnotationView>,
    inputs: Seq<FunctionInputView>,
    output: Option<TypeView>,
    body: BlockView,
) -> FunctionView {
    FunctionView { node: original.node, name: original.name, inputs, output, annotations, body }
}

/// The program with the given parts.
pub open spec fn kept_program(
    imports: Seq<ImportView>,
    circuits: Seq<CircuitView>,
    functions: Seq<FunctionView>,
    globals: Seq<DefinitionView>,
) -> ProgramView {
    ProgramView { imports, circuits, functions, globals }
}

/// A copy of the literal expression `original`.
pub fn keep_literal(original: &Expression) -> (r: Expression)
    requires
        original@.kind is Literal,
    ensures
        r@ == original@,
{
    match &original.kind {
        ExpressionKind::Literal(l) => Expression {
            node: original.node,
            kind: ExpressionKind::Literal(l.clone()),
        },
        _ => unreached(),
    }
}

/// A copy of the name reference `original`.
pub fn keep_identifier(original: &Expression) -> (r: Expression)
    requires
        original@.kind is Identifier,
    ensures
        r@ == original@,
{
    match &original.kind {
        ExpressionKind::Identifier(name) => Expression {
            node: original.node,
            kind: ExpressionKind::Identifier(name.clone()),
        },
        _ => unreached(),
    }
}

/// The unary operation `original`, rebuilt around `operand`.
pub fn keep_unary(original: &Expression, operand: Expression) -> (r: Expression)
    requires
        original@.kind is Unary,
    ensures
        r@ == kept_unary(original@, operand@),
{
    match &original.kind {
        ExpressionKind::Unary { operator, .. } => Expression {
            node: original.node,
            kind: ExpressionKind::Unary { operator: *operator, operand: Box::new(operand) },
        },
        _ => unreached(),
    }
}

/// The binary operation `original`, rebuilt around `left` and `right`.
pub fn keep_binary(original: &Expression, left: Expression, right: Expression) -> (r: Expression)
    requires
        original@.kind is Binary,
    ensures
        r@ == kept_binary(original@, left@, right@),
{
    match &original.kind {
        ExpressionKind::Binary { operation, .. } => Expression {
            node: original.node,
            kind: ExpressionKind::Binary {
                operation: *operation,
                left: Box::new(left),
                right: Box::new(right),
            },
        },
        _ => unreached(),
    }
}

/// The ternary expression `original`, rebuilt around the three given expressions.
pub fn keep_ternary(
    original: &Expression,
    condition: Expression,
    if_true: Expression,
    if_false: Expression,
) -> (r: Expression)
    requires
        original@.kind is Ternary,
    ensures
        r@ == kept_ternary(original@, condition@, if_true@, if_false@),
{
    Expression {
        node: original.node,
        kind: ExpressionKind::Ternary {
            condition: Box::new(condition),
            if_true: Box::new(if_true),
            if_false: Box::new(if_false),
        },
    }
}

/// The call `original`, rebuilt around `arguments`.
pub fn keep_call(original: &Expression, arguments: Vec<Expression>) -> (r: Expression)
    requires
        original@.kind is Call,
    ensures
        r@ == kept_call(original@, expressions_view(arguments@)),
{
    match &original.kind {
        ExpressionKind::Call { callee, .. } => Expression {
            node: original.node,
            kind: ExpressionKind::Call { callee: clone_texts(callee), arguments },
        },
        _ => unreached(),
    }
}

/// The array expression `original`, rebuilt around `elements`.
pub fn keep_array(original: &Expression, elements: Vec<Expression>) -> (r: Expression)
    requires
        original@.kind is Array,
    ensures
        r@ == kept_array(original@, expressions_view(elements@)),
{
    Expression { node: original.node, kind: ExpressionKind::Array(elements) }
}

/// The tuple expression `original`, rebuilt around `elements`.
pub fn keep_tuple(original: &Expression, elements: Vec<Expression>) -> (r: Expression)
    requires
        original@.kind is Tuple,
    ensures
        r@ == kept_tuple(original@, expressions_view(elements@)),
{
    Expression { node: original.node, kind: ExpressionKind::Tuple(elements) }
}

/// The circuit expression `original`, rebuilt around `members`.
pub fn keep_circuit_init(original: &Expression, members: Vec<MemberInit>) -> (r: Expression)
    requires
        original@.kind is Circuit,
    ensures
        r@ == kept_circuit_init(original@, member_inits_view(members@)),
{
    match &original.kind {
        ExpressionKind::Circuit { name, .. } => Expression {
            node: original.node,
            kind: ExpressionKind::Circuit { name: name.clone(), members },
        },
        _ => unreached(),
    }
}

/// The index access `original`, rebuilt around `array` and `index`.
pub fn keep_index(original: &Expression, array: Expression, index: Expression) -> (r: Expression)
    requires
        original@.kind is Index,
    ensures
        r@ == kept_index(original@, array@, index@),
{
    Expression {
        node: original.node,
        kind: ExpressionKind::Index { array: Box::new(array), index: Box::new(index) },
    }
}

/// The member access `original`, rebuilt around `object`.
pub fn keep_member(original: &Expression, object: Expression) -> (r: Expression)
    requires
        original@.kind is Member,
    ensures
        r@ == kept_member(original@, object@),
{
    match &original.kind {
        ExpressionKind::Member { name, .. } => Expression {
            node: original.node,
            kind: ExpressionKind::Member { object: Box::new(object), name: name.clone() },
        },
        _ => unreached(),
    }
}

/// The tuple access `original`, rebuilt around `tuple`.
pub fn keep_tuple_access(original: &Expression, tuple: Expression) -> (r: Expression)
    requires
        original@.kind is TupleAccess,
    ensures
        r@ == kept_tuple_access(original@, tuple@),
{
    match &original.kind {
        ExpressionKind::TupleAccess { position, .. } => Expression {
            node: original.node,
            kind: ExpressionKind::TupleAccess { tuple: Box::new(tuple), position: *position },
        },
        _ => unreached(),
    }
}

/// A copy of the short member access `original`.
pub fn keep_implicit_member(original: &Expression) -> (r: Expression)
    requires
        original@.kind is ImplicitMember,
    ensures
        r@ == original@,
{
    match &original.kind {
        ExpressionKind::ImplicitMember { name } => Expression {
            node: original.node,
            kind: ExpressionKind::ImplicitMember { name: name.clone() },
        },
        _ => unreached(),
    }
}

/// The cast `original`, rebuilt around `operand` and `target`.
pub fn keep_cast(original: &Expression, operand: Expression, target: Type) -> (r: Expression)
    requires
        original@.kind is Cast,
    ensures
        r@ == kept_cast(original@, operand@, target@),
{
    Expression { node: original.node, kind: ExpressionKind::Cast { operand: Box::new(operand), target } }
}

/// The return statement `original`, rebuilt around `value`.
pub fn keep_return(original: &Statement, value: Expression) -> (r: Statement)
    requires
        original@ is Return,
    ensures
        r@ == kept_return(original@, value@),
{
    Statement::Return { node: original.node(), value }
}

/// The name `original` of a definition, with the type `declared`.
pub fn keep_binding(original: &Binding, declared: Option<Type>) -> (r: Binding)
    ensures
        r@ == kept_binding(original@, optional_type_view(declared)),
{
    Binding { node: original.node, name: original.name.clone(), declared }
}

/// The definition `original`, rebuilt around `bindings` and `value`.
pub fn keep_definition(original: &Definition, bindings: Vec<Binding>, value: Expression) -> (r: Definition)
    ensures
        r@ == kept_definition(original@, bindings_view(bindings@), value@),
{
    Definition { node: original.node, mutable: original.mutable, bindings, value }
}

/// The assignment `original`, rebuilt around `target` and `value`.
pub fn keep_assign(original: &Statement, target: Expression, value: Expression) -> (r: Statement)
    requires
        original@ is Assign,
    ensures
        r@ == kept_assign(original@, target@, value@),
{
    match original {
        Statement::Assign { node, operation, .. } => Statement::Assign {
            node: *node,
            target,
            operation: *operation,
            value,
        },
        _ => unreached(),
    }
}

/// The conditional `original`, rebuilt around the given parts.
pub fn keep_conditional(
    original: &Statement,
    condition: Expression,
    then_block: Block,
    otherwise: Option<Statement>,
) -> (r: Statement)
    requires
        original@ is Conditional,
    ensures
        r@ == kept_conditional(original@, condition@, then_block@, optional_statement_view(otherwise)),
{
    let otherwise = match otherwise {
        Some(s) => Some(Box::new(s)),
        None => None,
    };
    Statement::Conditional { node: original.node(), condition, then_block, otherwise }
}

/// The loop `original`, rebuilt around the given bounds and body.
pub fn keep_iteration(original: &Statement, start: Expression, stop: Expression, body: Block) -> (r:
    Statement)
    requires
        original@ is Iteration,
    ensures
        r@ == kept_iteration(original@, start@, stop@, body@),
{
    match original {
        Statement::Iteration { node, variable, .. } => Statement::Iteration {
            node: *node,
            variable: variable.clone(),
            start,
            stop,
            body,
        },
        _ => unreached(),
    }
}

/// The expression statement `original`, rebuilt around `expression`.
pub fn keep_expression_statement(original: &Statement, expression: Expression) -> (r: Statement)
    requires
        original@ is Expression,
    ensures
        r@ == kept_expression_statement(original@, expression@),
{
    Statement::Expression { node: original.node(), expression }
}

/// The block `original`, rebuilt around `statements`.
pub fn keep_block(original: &Block, statements: Vec<Statement>) -> (r: Block)
    ensures
        r@ == kept_block(original@, statements_view(statements@)),
{
    Block { node: original.node, statements }
}

/// The member variable `original`, with the type `member_type`.
pub fn keep_circuit_member(original: &CircuitMember, member_type: Type) -> (r: CircuitMember)
    ensures
        r@ == kept_circuit_member(original@, member_type@),
{
    CircuitMember { node: original.node, name: original.name.clone(), member_type }
}

/// The circuit `original`, rebuilt around `members` and `functions`.
pub fn keep_circuit(original: &Circuit, members: Vec<CircuitMember>, functions: Vec<Function>) -> (r:
    Circuit)
    ensures
        r@ == kept_circuit(original@, circuit_members_view(members@), functions_view(functions@)),
{
    Circuit { node: original.node, name: original.name.clone(), members, functions }
}

/// The parameter `original`, with the type `input_type`.
pub fn keep_function_input(original: &FunctionInput, input_type: Type) -> (r: FunctionInput)
    ensures
        r@ == kept_function_input(original@, input_type@),
{
    FunctionInput { node: original.node, name: original.name.clone(), mode: original.mode, input_type }
}

/// The function `original`, rebuilt around the given parts.
pub fn keep_function(
    original: &Function,
    annotations: Vec<Annotation>,
    inputs: Vec<FunctionInput>,
    output: Option<Type>,
    body: Block,
) -> (r: Function)
    ensures
        r@ == kept_function(
            original@,
            annotations_view(annotations@),
            inputs_view(inputs@),
            optional_type_view(output),
            body@,
        ),
{
    Function { node: original.node, name: original.name.clone(), inputs, output, annotations, body }
}

/// The program made of the given parts.
pub fn keep_program(
    imports: Vec<Import>,
    circuits: Vec<Circuit>,
    functions: Vec<Function>,
    globals: Vec<Definition>,
) -> (r: Program)
    ensures
        r@ == kept_program(
            imports_view(imports@),
            circuits_view(circuits@),
            functions_view(functions@),
            definitions_view(globals@),
        ),
{
    Program { imports, circuits, functions, globals }
}

/// The pass that leaves every node as it is.
#[derive(Clone, Copy, Debug, PartialEq, Eq)]
pub struct PassThrough {}

impl View for PassThrough {
    type V = ();

    open spec fn view(&self) -> () {
        ()
    }
}

impl Reducer for PassThrough {
    open spec fn literal_rule(
        state: (),
        original: ExpressionView,
    ) -> ((), Result<ExpressionView, ReducerError>) {
        (state, Ok(original))
    }

    open spec fn identifier_rule(
        state: (),
        original: ExpressionView,
    ) -> ((), Result<ExpressionView, ReducerError>) {
        (state, Ok(original))
    }

    open spec fn unary_rule(
        state: (),
        original: ExpressionView,
        operand: ExpressionView,
    ) -> ((), Result<ExpressionView, ReducerError>) {
        (state, Ok(kept_unary(original, operand)))
    }

    open spec fn binary_rule(
        state: (),
        original: ExpressionView,
        left: ExpressionView,
        right: ExpressionView,
    ) -> ((), Result<ExpressionView, ReducerError>) {
        (state, Ok(kept_binary(original, left, right)))
    }

    open spec fn ternary_rule(
        state: (),
        original: ExpressionView,
        condition: ExpressionView,
        if_true: ExpressionView,
        if_false: ExpressionView,
    ) -> ((), Result<ExpressionView, ReducerError>) {
        (state, Ok(kept_ternary(original, condition, if_true, if_false)))
    }

    open spec fn call_rule(
        state: (),
        original: ExpressionView,
        arguments: Seq<ExpressionView>,
    ) -> ((), Result<ExpressionView, ReducerError>) {
        (state, Ok(kept_call(original, arguments)))
    }

    open spec fn array_rule(
        state: (),
        original: ExpressionView,
        elements: Seq<ExpressionView>,
    ) -> ((), Result<ExpressionView, ReducerError>) {
        (state, Ok(kept_array(original, elements)))
    }

    open spec fn tuple_rule(
        state: (),
        original: ExpressionView,
        elements: Seq<ExpressionView>,
    ) -> ((), Result<ExpressionView, ReducerError>) {
        (state, Ok(kept_tuple(original, elements)))
    }

    open spec fn circuit_init_rule(
        state: (),
        original: ExpressionView,
        members: Seq<MemberInitView>,
    ) -> ((), Result<ExpressionView, ReducerError>) {
        (state, Ok(kept_circuit_init(original, members)))
    }

    open spec fn index_rule(
        state: (),
        original: ExpressionView,
        array: ExpressionView,
        index: ExpressionView,
    ) -> ((), Result<ExpressionView, ReducerError>) {
        (state, Ok(kept_index(original, array, index)))
    }

    open spec fn member_rule(
        state: (),
        original: ExpressionView,
        object: ExpressionView,
    ) -> ((), Result<ExpressionView, ReducerError>) {
        (state, Ok(kept_member(original, object)))
    }

    open spec fn tuple_access_rule(
        state: (),
        original: ExpressionView,
        tuple: ExpressionView,
    ) -> ((), Result<ExpressionView, ReducerError>) {
        (state, Ok(kept_tuple_access(original, tuple)))
    }

    open spec fn implicit_member_rule(
        state: (),
        original: ExpressionView,
    ) -> ((), Result<ExpressionView, ReducerError>) {
        (state, Ok(original))
    }

    open spec fn cast_rule(
        state: (),
        original: ExpressionView,
        operand: ExpressionView,
        target: TypeView,
    ) -> ((), Result<ExpressionView, ReducerError>) {
        (state, Ok(kept_cast(original, operand, target)))
    }

    open spec fn type_rule(state: (), original: TypeView) -> ((), Result<TypeView, ReducerError>) {
        (state, Ok(original))
    }

    open spec fn return_rule(
        state: (),
        original: StatementView,
        value: ExpressionView,
    ) -> ((), Result<StatementView, ReducerError>) {
        (state, Ok(kept_return(original, value)))
    }

    open spec fn binding_rule(
        state: (),
        original: BindingView,
        declared: Option<TypeView>,
    ) -> ((), Result<BindingView, ReducerError>) {
        (state, Ok(kept_binding(original, declared)))
    }

    open spec fn definition_rule(
        state: (),
        original: DefinitionView,
        bindings: Seq<BindingView>,
        value: ExpressionView,
    ) -> ((), Result<DefinitionView, ReducerError>) {
        (state, Ok(kept_definition(original, bindings, value)))
    }

    open spec fn assign_rule(
        state: (),
        original: StatementView,
        target: ExpressionView,
        value: ExpressionView,
    ) -> ((), Result<StatementView, ReducerError>) {
        (state, Ok(kept_assign(original, target, value)))
    }

    open spec fn conditional_rule(
        state: (),
        original: StatementView,
        condition: ExpressionView,
        then_block: BlockView,
        otherwise: Option<StatementView>,
    ) -> ((), Result<StatementView, ReducerError>) {
        (state, Ok(kept_conditional(original, condition, then_block, otherwise)))
    }

    open spec fn iteration_rule(
        state: (),
        original: StatementView,
        start: ExpressionView,
        stop: ExpressionView,
        body: BlockView,
    ) -> ((), Result<StatementView, ReducerError>) {
        (state, Ok(kept_iteration(original, start, stop, body)))
    }

    open spec fn expression_statement_rule(
        state: (),
        original: StatementView,
        expression: ExpressionView,
    ) -> ((), Result<StatementView, ReducerError>) {
        (state, Ok(kept_expression_statement(original, expression)))
    }

    open spec fn block_rule(
        state: (),
        original: BlockView,
        statements: Seq<StatementView>,
    ) -> ((), Result<BlockView, ReducerError>) {
        (state, Ok(kept_block(original, statements)))
    }

    open spec fn import_rule(state: (), original: ImportView) -> ((), Result<ImportView, ReducerError>) {
        (state, Ok(original))
    }

    open spec fn circuit_member_rule(
        state: (),
        original: CircuitMemberView,
        member_type: TypeView,
    ) -> ((), Result<CircuitMemberView, ReducerError>) {
        (state, Ok(kept_circuit_member(original, member_type)))
    }

    open spec fn circuit_rule(
        state: (),
        original: CircuitView,
        members: Seq<CircuitMemberView>,
        functions: Seq<FunctionView>,
    ) -> ((), Result<CircuitView, ReducerError>) {
        (state, Ok(kept_circuit(original, members, functions)))
    }

    open spec fn annotation_rule(
        state: (),
        original: AnnotationView,
    ) -> ((), Result<AnnotationView, ReducerError>) {
        (state, Ok(original))
    }

    open spec fn function_input_rule(
        state: (),
        original: FunctionInputView,
        input_type: TypeView,
    ) -> ((), Result<FunctionInputView, ReducerError>) {
        (state, Ok(kept_function_input(original, input_type)))
    }

    open spec fn function_rule(
        state: (),
        original: FunctionView,
        annotations: Seq<AnnotationView>,
        inputs: Seq<FunctionInputView>,
        output: Option<TypeView>,
        body: BlockView,
    ) -> ((), Result<FunctionView, ReducerError>) {
        (state, Ok(kept_function(original, annotations, inputs, output, body)))
    }

    open spec fn program_rule(
        state: (),
        original: ProgramView,
        imports: Seq<ImportView>,
        circuits: Seq<CircuitView>,
        functions: Seq<FunctionView>,
        globals: Seq<DefinitionView>,
    ) -> ((), Result<ProgramView, ReducerError>) {
        (state, Ok(kept_program(imports, circuits, functions, globals)))
    }

    fn reduce_literal(&mut self, original: &Expression) -> (r: Result<Expression, ReducerError>) {
        Ok(keep_literal(original))
    }

    fn reduce_identifier(&mut self, original: &Expression) -> (r: Result<Expression, ReducerError>) {
        Ok(keep_identifier(original))
    }

    fn reduce_unary(
        &mut self,
        original: &Expression,
        operand: Expression,
    ) -> (r: Result<Expression, ReducerError>) {
        Ok(keep_unary(original, operand))
    }

    fn reduce_binary(
        &mut self,
        original: &Expression,
        left: Expression,
        right: Expression,
    ) -> (r: Result<Expression, ReducerError>) {
        Ok(keep_binary(original, left, right))
    }

    fn reduce_ternary(
        &mut self,
        original: &Expression,
        condition: Expression,
        if_true: Expression,
        if_false: Expression,
    ) -> (r: Result<Expression, ReducerError>) {
        Ok(keep_ternary(original, condition, if_true, if_false))
    }

    fn reduce_call(
        &mut self,
        original: &Expression,
        arguments: Vec<Expression>,
    ) -> (r: Result<Expression, ReducerError>) {
        Ok(keep_call(original, arguments))
    }

    fn reduce_array(
        &mut self,
        original: &Expression,
        elements: Vec<Expression>,
    ) -> (r: Result<Expression, ReducerError>) {
        Ok(keep_array(original, elements))
    }

    fn reduce_tuple(
        &mut self,
        original: &Expression,
        elements: Vec<Expression>,
    ) -> (r: Result<Expression, ReducerError>) {
        Ok(keep_tuple(original, elements))
    }

    fn reduce_circuit_init(
        &mut self,
        original: &Expression,
        members: Vec<MemberInit>,
    ) -> (r: Result<Expression, ReducerError>) {
        Ok(keep_circuit_init(original, members))
    }

    fn reduce_index(
        &mut self,
        original: &Expression,
        array: Expression,
        index: Expression,
    ) -> (r: Result<Expression, ReducerError>) {
        Ok(keep_index(original, array, index))
    }

    fn reduce_member(
        &mut self,
        original: &Expression,
        object: Expression,
    ) -> (r: Result<Expression, ReducerError>) {
        Ok(keep_member(original, object))
    }

    fn reduce_tuple_access(
        &mut self,
        original: &Expression,
        tuple: Expression,
    ) -> (r: Result<Expression, ReducerError>) {
        Ok(keep_tuple_access(original, tuple))
    }

    fn reduce_implicit_member(
        &mut self,
        original: &Expression,
    ) -> (r: Result<Expression, ReducerError>) {
        Ok(keep_implicit_member(original))
    }

    fn reduce_cast(
        &mut self,
        original: &Expression,
        operand: Expression,
        target: Type,
    ) -> (r: Result<Expression, ReducerError>) {
        Ok(keep_cast(original, operand, target))
    }

    fn reduce_type(&mut self, original: &Type) -> (r: Result<Type, ReducerError>) {
        Ok(original.clone())
    }

    fn reduce_return(
        &mut self,
        original: &Statement,
        value: Expression,
    ) -> (r: Result<Statement, ReducerError>) {
        Ok(keep_return(original, value))
    }

    fn reduce_binding(
        &mut self,
        original: &Binding,
        declared: Option<Type>,
    ) -> (r: Result<Binding, ReducerError>) {
        Ok(keep_binding(original, declared))
    }

    fn reduce_definition(
        &mut self,
        original: &Definition,
        bindings: Vec<Binding>,
        value: Expression,
    ) -> (r: Result<Definition, ReducerError>) {
        Ok(keep_definition(original, bindings, value))
    }

    fn reduce_assign(
        &mut self,
        original: &Statement,
        target: Expression,
        value: Expression,
    ) -> (r: Result<Statement, ReducerError>) {
        Ok(keep_assign(original, target, value))
    }

    fn reduce_conditional(
        &mut self,
        original: &Statement,
        condition: Expression,
        then_block: Block,
        otherwise: Option<Statement>,
    ) -> (r: Result<Statement, ReducerError>) {
        Ok(keep_conditional(original, condition, then_block, otherwise))
    }

    fn reduce_iteration(
        &mut self,
        original: &Statement,
        start: Expression,
        stop: Expression,
        body: Block,
    ) -> (r: Result<Statement, ReducerError>) {
        Ok(keep_iteration(original, start, stop, body))
    }

    fn reduce_expression_statement(
        &mut self,
        original: &Statement,
        expression: Expression,
    ) -> (r: Result<Statement, ReducerError>) {
        Ok(keep_expression_statement(original, expression))
    }

    fn reduce_block(
        &mut self,
        original: &Block,
        statements: Vec<Statement>,
    ) -> (r: Result<Block, ReducerError>) {
        Ok(keep_block(original, statements))
    }

    fn reduce_import(&mut self, original: &Import) -> (r: Result<Import, ReducerError>) {
        Ok(original.clone())
    }

    fn reduce_circuit_member(
        &mut self,
        original: &CircuitMember,
        member_type: Type,
    ) -> (r: Result<CircuitMember, ReducerError>) {
        Ok(keep_circuit_member(original, member_type))
    }

    fn reduce_circuit(
        &mut self,
        original: &Circuit,
        members: Vec<CircuitMember>,
        functions: Vec<Function>,
    ) -> (r: Result<Circuit, ReducerError>) {
        Ok(keep_circuit(original, members, functions))
    }

    fn reduce_annotation(&mut self, original: &Annotation) -> (r: Result<Annotation, ReducerError>) {
        Ok(original.clone())
    }

    fn reduce_function_input(
        &mut self,
        original: &FunctionInput,
        input_type: Type,
    ) -> (r: Result<FunctionInput, ReducerError>) {
        Ok(keep_function_input(original, input_type))
    }

    fn reduce_function(
        &mut self,
        original: &Function,
        annotations: Vec<Annotation>,
        inputs: Vec<FunctionInput>,
        output: Option<Type>,
        body: Block,
    ) -> (r: Result<Function, ReducerError>) {
        Ok(keep_function(original, annotations, inputs, output, body))
    }

    fn reduce_program(
        &mut self,
        original: &Program,
        imports: Vec<Import>,
        circuits: Vec<Circuit>,
        functions: Vec<Function>,
        globals: Vec<Definition>,
    ) -> (r: Result<Program, ReducerError>) {
        Ok(keep_program(imports, circuits, functions, globals))
    }
}

} // verus!
