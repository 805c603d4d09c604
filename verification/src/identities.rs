//! Identities for new nodes.
//!
//! A pass that builds a node of its own gives it an identifier that no node of the
//! tree has: the identifiers above the greatest one in the tree are handed out one
//! after the other. A node that is only rebuilt keeps the identity it had.

use vstd::prelude::*;
use crate::director::{reduced_expression, reduced_program, ReconstructingDirector};
use crate::errors::{outcome_view, ReducerError, ReducerErrorKind};
use crate::expression::{Expression, ExpressionView, MemberInit, MemberInitView};
use crate::node::{Node, Span};
use crate::program::{
    Annotation, AnnotationView, Circuit, CircuitMember, CircuitMemberView, CircuitView, Function,
    FunctionInput, FunctionInputView, FunctionView, Import, ImportView, Program, ProgramView,
};
use crate::reducer::{
    keep_array, keep_assign, keep_binary, keep_binding, keep_block, keep_call, keep_cast, keep_circuit,
    keep_circuit_init, keep_circuit_member, keep_conditional, keep_definition,
    keep_expression_statement, keep_function, keep_function_input, keep_identifier,
    keep_implicit_member, keep_index, keep_iteration, keep_literal, keep_member, keep_program,
    keep_return, keep_ternary, keep_tuple, keep_tuple_access, keep_unary, kept_array, kept_assign,
    kept_binary, kept_binding, kept_block, kept_call, kept_cast, kept_circuit, kept_circuit_init,
    kept_circuit_member, kept_conditional, kept_definition, kept_expression_statement, kept_function,
    kept_function_input, kept_index, kept_iteration, kept_member, kept_program, kept_return,
    kept_ternary, kept_tuple, kept_tuple_access, kept_unary, Reducer,
};
use crate::statements::{
    Binding, BindingView, Block, BlockView, Definition, DefinitionView, Statement, StatementView,
};
use crate::types::{Type, TypeView};

verus! {

/// Taking the next identifier from a supply, for a node at `span`. `next` is the
/// smallest identifier that has not been given out, or `None` when all have been.
pub open spec fn minted(next: Option<u64>, span: Span) -> (Option<u64>, Result<Node, ReducerError>) {
    match next {
        None => (None, Err(ReducerError { kind: ReducerErrorKind::IdentitiesExhausted, span })),
        Some(id) => (
            if id == u64::MAX {
                None
            } else {
                Some((id + 1) as u64)
            },
            Ok(Node { id, span }),
        ),
    }
}

/// Takes the next identifier from the supply `next`, for a node at `span`.
pub fn mint(next: &mut Option<u64>, span: Span) -> (r: Result<Node, ReducerError>)
    ensures
        minted(*old(next), span) == (*final(next), r),
{
    match *next {
        None => Err(ReducerError { kind: ReducerErrorKind::IdentitiesExhausted, span }),
        Some(id) => {
            *next = if id == u64::MAX {
                None
            } else {
                Some(id + 1)
            };
            Ok(Node { id, span })
        },
    }
}

/// The expression `e` under a new identifier from the supply `next`, at the place
/// where `e` is.
pub open spec fn renumbered(next: Option<u64>, e: ExpressionView) -> (
    Option<u64>,
    Result<ExpressionView, ReducerError>,
) {
    let m = minted(next, e.node.span);
    if m.1 is Err {
        (m.0, Err(m.1->Err_0))
    } else {
        (m.0, Ok(ExpressionView { node: m.1->Ok_0, kind: e.kind }))
    }
}

/// Gives `e` a new identifier from the supply `next`.
pub fn renumber(next: &mut Option<u64>, e: Expression) -> (r: Result<Expression, ReducerError>)
    ensures
        renumbered(*old(next), e@) == (*final(next), outcome_view(r)),
{
    match mint(next, e.node.span) {
        Ok(node) => Ok(Expression { node, kind: e.kind }),
        Err(error) => Err(error),
    }
}

/// The pass that copies an expression under new identifiers: every expression node
/// of the copy takes the next identifier of the supply, children before their parent,
/// and keeps its span.
pub struct Renumber {
    pub next: Option<u64>,
}

impl View for Renumber {
    type V = Option<u64>;

    open spec fn view(&self) -> Option<u64> {
        self.next
    }
}

impl Reducer for Renumber {
    open spec fn literal_rule(
        state: Option<u64>,
        original: ExpressionView,
    ) -> (Option<u64>, Result<ExpressionView, ReducerError>) {
        renumbered(state, original)
    }

    open spec fn identifier_rule(
        state: Option<u64>,
        original: ExpressionView,
    ) -> (Option<u64>, Result<ExpressionView, ReducerError>) {
        renumbered(state, original)
    }

    open spec fn unary_rule(
        state: Option<u64>,
        original: ExpressionView,
        operand: ExpressionView,
    ) -> (Option<u64>, Result<ExpressionView, ReducerError>) {
        renumbered(state, kept_unary(original, operand))
    }

    open spec fn binary_rule(
        state: Option<u64>,
        original: ExpressionView,
        left: ExpressionView,
        right: ExpressionView,
    ) -> (Option<u64>, Result<ExpressionView, ReducerError>) {
        renumbered(state, kept_binary(original, left, right))
    }

    open spec fn ternary_rule(
        state: Option<u64>,
        original: ExpressionView,
        condition: ExpressionView,
        if_true: ExpressionView,
        if_false: ExpressionView,
    ) -> (Option<u64>, Result<ExpressionView, ReducerError>) {
        renumbered(state, kept_ternary(original, condition, if_true, if_false))
    }

    open spec fn call_rule(
        state: Option<u64>,
        original: ExpressionView,
        arguments: Seq<ExpressionView>,
    ) -> (Option<u64>, Result<ExpressionView, ReducerError>) {
        renumbered(state, kept_call(original, arguments))
    }

    open spec fn array_rule(
        state: Option<u64>,
        original: ExpressionView,
        elements: Seq<ExpressionView>,
    ) -> (Option<u64>, Result<ExpressionView, ReducerError>) {
        renumbered(state, kept_array(original, elements))
    }

    open spec fn tuple_rule(
        state: Option<u64>,
        original: ExpressionView,
        elements: Seq<ExpressionView>,
    ) -> (Option<u64>, Result<ExpressionView, ReducerError>) {
        renumbered(state, kept_tuple(original, elements))
    }

    open spec fn circuit_init_rule(
        state: Option<u64>,
        original: ExpressionView,
        members: Seq<MemberInitView>,
    ) -> (Option<u64>, Result<ExpressionView, ReducerError>) {
        renumbered(state, kept_circuit_init(original, members))
    }

    open spec fn index_rule(
        state: Option<u64>,
        original: ExpressionView,
        array: ExpressionView,
        index: ExpressionView,
    ) -> (Option<u64>, Result<ExpressionView, ReducerError>) {
        renumbered(state, kept_index(original, array, index))
    }

    open spec fn member_rule(
        state: Option<u64>,
        original: ExpressionView,
        object: ExpressionView,
    ) -> (Option<u64>, Result<ExpressionView, ReducerError>) {
        renumbered(state, kept_member(original, object))
    }

    open spec fn tuple_access_rule(
        state: Option<u64>,
        original: ExpressionView,
        tuple: ExpressionView,
    ) -> (Option<u64>, Result<ExpressionView, ReducerError>) {
        renumbered(state, kept_tuple_access(original, tuple))
    }

    open spec fn implicit_member_rule(
        state: Option<u64>,
        original: ExpressionView,
    ) -> (Option<u64>, Result<ExpressionView, ReducerError>) {
        renumbered(state, original)
    }

    open spec fn cast_rule(
        state: Option<u64>,
        original: ExpressionView,
        operand: ExpressionView,
        target: TypeView,
    ) -> (Option<u64>, Result<ExpressionView, ReducerError>) {
        renumbered(state, kept_cast(original, operand, target))
    }

    open spec fn type_rule(
        state: Option<u64>,
        original: TypeView,
    ) -> (Option<u64>, Result<TypeView, ReducerError>) {
        (state, Ok(original))
    }

    open spec fn return_rule(
        state: Option<u64>,
        original: StatementView,
        value: ExpressionView,
    ) -> (Option<u64>, Result<StatementView, ReducerError>) {
        (state, Ok(kept_return(original, value)))
    }

    open spec fn binding_rule(
        state: Option<u64>,
        original: BindingView,
        declared: Option<TypeView>,
    ) -> (Option<u64>, Result<BindingView, ReducerError>) {
        (state, Ok(kept_binding(original, declared)))
    }

    open spec fn definition_rule(
        state: Option<u64>,
        original: DefinitionView,
        bindings: Seq<BindingView>,
        value: ExpressionView,
    ) -> (Option<u64>, Result<DefinitionView, ReducerError>) {
        (state, Ok(kept_definition(original, bindings, value)))
    }

    open spec fn assign_rule(
        state: Option<u64>,
        original: StatementView,
        target: ExpressionView,
        value: ExpressionView,
    ) -> (Option<u64>, Result<StatementView, ReducerError>) {
        (state, Ok(kept_assign(original, target, value)))
    }

    open spec fn conditional_rule(
        state: Option<u64>,
        original: StatementView,
        condition: ExpressionView,
        then_block: BlockView,
        otherwise: Option<StatementView>,
    ) -> (Option<u64>, Result<StatementView, ReducerError>) {
        (state, Ok(kept_conditional(original, condition, then_block, otherwise)))
    }

    open spec fn iteration_rule(
        state: Option<u64>,
        original: StatementView,
        start: ExpressionView,
        stop: ExpressionView,
        body: BlockView,
    ) -> (Option<u64>, Result<StatementView, ReducerError>) {
        (state, Ok(kept_iteration(original, start, stop, body)))
    }

    open spec fn expression_statement_rule(
        state: Option<u64>,
        original: StatementView,
        expression: ExpressionView,
    ) -> (Option<u64>, Result<StatementView, ReducerError>) {
        (state, Ok(kept_expression_statement(original, expression)))
    }

    open spec fn block_rule(
        state: Option<u64>,
        original: BlockView,
        statements: Seq<StatementView>,
    ) -> (Option<u64>, Result<BlockView, ReducerError>) {
        (state, Ok(kept_block(original, statements)))
    }

    open spec fn import_rule(
        state: Option<u64>,
        original: ImportView,
    ) -> (Option<u64>, Result<ImportView, ReducerError>) {
        (state, Ok(original))
    }

    open spec fn circuit_member_rule(
        state: Option<u64>,
        original: CircuitMemberView,
        member_type: TypeView,
    ) -> (Option<u64>, Result<CircuitMemberView, ReducerError>) {
        (state, Ok(kept_circuit_member(original, member_type)))
    }

    open spec fn circuit_rule(
        state: Option<u64>,
        original: CircuitView,
        members: Seq<CircuitMemberView>,
        functions: Seq<FunctionView>,
    ) -> (Option<u64>, Result<CircuitView, ReducerError>) {
        (state, Ok(kept_circuit(original, members, functions)))
    }

    open spec fn annotation_rule(
        state: Option<u64>,
        original: AnnotationView,
    ) -> (Option<u64>, Result<AnnotationView, ReducerError>) {
        (state, Ok(original))
    }

    open spec fn function_input_rule(
        state: Option<u64>,
        original: FunctionInputView,
        input_type: TypeView,
    ) -> (Option<u64>, Result<FunctionInputView, ReducerError>) {
        (state, Ok(kept_function_input(original, input_type)))
    }

    open spec fn function_rule(
        state: Option<u64>,
        original: FunctionView,
        annotations: Seq<AnnotationView>,
        inputs: Seq<FunctionInputView>,
        output: Option<TypeView>,
        body: BlockView,
    ) -> (Option<u64>, Result<FunctionView, ReducerError>) {
        (state, Ok(kept_function(original, annotations, inputs, output, body)))
    }

    open spec fn program_rule(
        state: Option<u64>,
        original: ProgramView,
        imports: Seq<ImportView>,
        circuits: Seq<CircuitView>,
        functions: Seq<FunctionView>,
        globals: Seq<DefinitionView>,
    ) -> (Option<u64>, Result<ProgramView, ReducerError>) {
        (state, Ok(kept_program(imports, circuits, functions, globals)))
    }

    fn reduce_literal(&mut self, original: &Expression) -> (r: Result<Expression, ReducerError>) {
        let kept = keep_literal(original);
        renumber(&mut self.next, kept)
    }

    fn reduce_identifier(&mut self, original: &Expression) -> (r: Result<Expression, ReducerError>) {
        let kept = keep_identifier(original);
        renumber(&mut self.next, kept)
    }

    fn reduce_unary(
        &mut self,
        original: &Expression,
        operand: Expression,
    ) -> (r: Result<Expression, ReducerError>) {
        let kept = keep_unary(original, operand);
        renumber(&mut self.next, kept)
    }

    fn reduce_binary(
        &mut self,
        original: &Expression,
        left: Expression,
        right: Expression,
    ) -> (r: Result<Expression, ReducerError>) {
        let kept = keep_binary(original, left, right);
        renumber(&mut self.next, kept)
    }

    fn reduce_ternary(
        &mut self,
        original: &Expression,
        condition: Expression,
        if_true: Expression,
        if_false: Expression,
    ) -> (r: Result<Expression, ReducerError>) {
        let kept = keep_ternary(original, condition, if_true, if_false);
        renumber(&mut self.next, kept)
    }

    fn reduce_call(
        &mut self,
        original: &Expression,
        arguments: Vec<Expression>,
    ) -> (r: Result<Expression, ReducerError>) {
        let kept = keep_call(original, arguments);
        renumber(&mut self.next, kept)
    }

    fn reduce_array(
        &mut self,
        original: &Expression,
        elements: Vec<Expression>,
    ) -> (r: Result<Expression, ReducerError>) {
        let kept = keep_array(original, elements);
        renumber(&mut self.next, kept)
    }

    fn reduce_tuple(
        &mut self,
        original: &Expression,
        elements: Vec<Expression>,
    ) -> (r: Result<Expression, ReducerError>) {
        let kept = keep_tuple(original, elements);
        renumber(&mut self.next, kept)
    }

    fn reduce_circuit_init(
        &mut self,
        original: &Expression,
        members: Vec<MemberInit>,
    ) -> (r: Result<Expression, ReducerError>) {
        let kept = keep_circuit_init(original, members);
        renumber(&mut self.next, kept)
    }

    fn reduce_index(
        &mut self,
        original: &Expression,
        array: Expression,
        index: Expression,
    ) -> (r: Result<Expression, ReducerError>) {
        let kept = keep_index(original, array, index);
        renumber(&mut self.next, kept)
    }

    fn reduce_member(
        &mut self,
        original: &Expression,
        object: Expression,
    ) -> (r: Result<Expression, ReducerError>) {
        let kept = keep_member(original, object);
        renumber(&mut self.next, kept)
    }

    fn reduce_tuple_access(
        &mut self,
        original: &Expression,
        tuple: Expression,
    ) -> (r: Result<Expression, ReducerError>) {
        let kept = keep_tuple_access(original, tuple);
        renumber(&mut self.next, kept)
    }

    fn reduce_implicit_member(
        &mut self,
        original: &Expression,
    ) -> (r: Result<Expression, ReducerError>) {
        let kept = keep_implicit_member(original);
        renumber(&mut self.next, kept)
    }

    fn reduce_cast(
        &mut self,
        original: &Expression,
        operand: Expression,
        target: Type,
    ) -> (r: Result<Expression, ReducerError>) {
        let kept = keep_cast(original, operand, target);
        renumber(&mut self.next, kept)
    }

    fn reduce_type(&mut self, original: &Type) -> (r: Result<Type, ReducerError>) {
        Ok(original.clone())
    }

    fn reduce_return(
        &mut self,
        original: &Statement,
        value: Expression,
    ) -> (r: Result<Statement, ReducerError>) {
        Ok(keep_return(original, value))
    }

    fn reduce_binding(
        &mut self,
        original: &Binding,
        declared: Option<Type>,
    ) -> (r: Result<Binding, ReducerError>) {
        Ok(keep_binding(original, declared))
    }

    fn reduce_definition(
        &mut self,
        original: &Definition,
        bindings: Vec<Binding>,
        value: Expression,
    ) -> (r: Result<Definition, ReducerError>) {
        Ok(keep_definition(original, bindings, value))
    }

    fn reduce_assign(
        &mut self,
        original: &Statement,
        target: Expression,
        value: Expression,
    ) -> (r: Result<Statement, ReducerError>) {
        Ok(keep_assign(original, target, value))
    }

    fn reduce_conditional(
        &mut self,
        original: &Statement,
        condition: Expression,
        then_block: Block,
        otherwise: Option<Statement>,
    ) -> (r: Result<Statement, ReducerError>) {
        Ok(keep_conditional(original, condition, then_block, otherwise))
    }

    fn reduce_iteration(
        &mut self,
        original: &Statement,
        start: Expression,
        stop: Expression,
        body: Block,
    ) -> (r: Result<Statement, ReducerError>) {
        Ok(keep_iteration(original, start, stop, body))
    }

    fn reduce_expression_statement(
        &mut self,
        original: &Statement,
        expression: Expression,
    ) -> (r: Result<Statement, ReducerError>) {
        Ok(keep_expression_statement(original, expression))
    }

    fn reduce_block(
        &mut self,
        original: &Block,
        statements: Vec<Statement>,
    ) -> (r: Result<Block, ReducerError>) {
        Ok(keep_block(original, statements))
    }

    fn reduce_import(&mut self, original: &Import) -> (r: Result<Import, ReducerError>) {
        Ok(original.clone())
    }

    fn reduce_circuit_member(
        &mut self,
        original: &CircuitMember,
        member_type: Type,
    ) -> (r: Result<CircuitMember, ReducerError>) {
        Ok(keep_circuit_member(original, member_type))
    }

    fn reduce_circuit(
        &mut self,
        original: &Circuit,
        members: Vec<CircuitMember>,
        functions: Vec<Function>,
    ) -> (r: Result<Circuit, ReducerError>) {
        Ok(keep_circuit(original, members, functions))
    }

    fn reduce_annotation(&mut self, original: &Annotation) -> (r: Result<Annotation, ReducerError>) {
        Ok(original.clone())
    }

    fn reduce_function_input(
        &mut self,
        original: &FunctionInput,
        input_type: Type,
    ) -> (r: Result<FunctionInput, ReducerError>) {
        Ok(keep_function_input(original, input_type))
    }

    fn reduce_function(
        &mut self,
        original: &Function,
        annotations: Vec<Annotation>,
        inputs: Vec<FunctionInput>,
        output: Option<Type>,
        body: Block,
    ) -> (r: Result<Function, ReducerError>) {
        Ok(keep_function(original, annotations, inputs, output, body))
    }

    fn reduce_program(
        &mut self,
        original: &Program,
        imports: Vec<Import>,
        circuits: Vec<Circuit>,
        functions: Vec<Function>,
        globals: Vec<Definition>,
    ) -> (r: Result<Program, ReducerError>) {
        Ok(keep_program(imports, circuits, functions, globals))
    }
}

/// A copy of `e` in which every node has a new identifier from the supply `next`:
/// the supply afterwards and the copy, or the error of a supply that ran out.
pub open spec fn fresh_copy(next: Option<u64>, e: ExpressionView) -> (
    Option<u64>,
    Result<ExpressionView, ReducerError>,
) {
    reduced_expression::<Renumber>(next, e)
}

/// Copies `e`, giving every node of the copy a new identifier from the supply `next`.
pub fn copy_with_new_identities(next: &mut Option<u64>, e: &Expression) -> (r: Result<
    Expression,
    ReducerError,
>)
    ensures
        fresh_copy(*old(next), e@) == (*final(next), outcome_view(r)),
{
    let mut director = ReconstructingDirector::new(Renumber { next: *next });
    let r = director.reduce_expression(e);
    *next = director.into_reducer().next;
    r
}

/// The greater of `highest` and `id`.
pub open spec fn observed(highest: Option<u64>, id: u64) -> Option<u64> {
    match highest {
        Some(h) if h >= id => Some(h),
        _ => Some(id),
    }
}

/// The greater of `highest` and `id`.
pub fn observe(highest: Option<u64>, id: u64) -> (r: Option<u64>)
    ensures
        r == observed(highest, id),
{
    match highest {
        Some(h) if h >= id => Some(h),
        _ => Some(id),
    }
}

/// The pass that changes nothing and remembers the greatest identifier among the
/// nodes it is shown.
pub struct IdentityScan {
    pub highest: Option<u64>,
}

impl View for IdentityScan {
    type V = Option<u64>;

    open spec fn view(&self) -> Option<u64> {
        self.highest
    }
}

impl Reducer for IdentityScan {
    open spec fn literal_rule(
        state: Option<u64>,
        original: ExpressionView,
    ) -> (Option<u64>, Result<ExpressionView, ReducerError>) {
        (observed(state, original.node.id), Ok(original))
    }

    open spec fn identifier_rule(
        state: Option<u64>,
        original: ExpressionView,
    ) -> (Option<u64>, Result<ExpressionView, ReducerError>) {
        (observed(state, original.node.id), Ok(original))
    }

    open spec fn unary_rule(
        state: Option<u64>,
        original: ExpressionView,
        operand: ExpressionView,
    ) -> (Option<u64>, Result<ExpressionView, ReducerError>) {
        (observed(state, original.node.id), Ok(kept_unary(original, operand)))
    }

    open spec fn binary_rule(
        state: Option<u64>,
        original: ExpressionView,
        left: ExpressionView,
        right: ExpressionView,
    ) -> (Option<u64>, Result<ExpressionView, ReducerError>) {
        (observed(state, original.node.id), Ok(kept_binary(original, left, right)))
    }

    open spec fn ternary_rule(
        state: Option<u64>,
        original: ExpressionView,
        condition: ExpressionView,
        if_true: ExpressionView,
        if_false: ExpressionView,
    ) -> (Option<u64>, Result<ExpressionView, ReducerError>) {
        (observed(state, original.node.id), Ok(kept_ternary(original, condition, if_true, if_false)))
    }

    open spec fn call_rule(
        state: Option<u64>,
        original: ExpressionView,
        arguments: Seq<ExpressionView>,
    ) -> (Option<u64>, Result<ExpressionView, ReducerError>) {
        (observed(state, original.node.id), Ok(kept_call(original, arguments)))
    }

    open spec fn array_rule(
        state: Option<u64>,
        original: ExpressionView,
        elements: Seq<ExpressionView>,
    ) -> (Option<u64>, Result<ExpressionView, ReducerError>) {
        (observed(state, original.node.id), Ok(kept_array(original, elements)))
    }

    open spec fn tuple_rule(
        state: Option<u64>,
        original: ExpressionView,
        elements: Seq<ExpressionView>,
    ) -> (Option<u64>, Result<ExpressionView, ReducerError>) {
        (observed(state, original.node.id), Ok(kept_tuple(original, elements)))
    }

    open spec fn circuit_init_rule(
        state: Option<u64>,
        original: ExpressionView,
        members: Seq<MemberInitView>,
    ) -> (Option<u64>, Result<ExpressionView, ReducerError>) {
        (observed(state, original.node.id), Ok(kept_circuit_init(original, members)))
    }

    open spec fn index_rule(
        state: Option<u64>,
        original: ExpressionView,
        array: ExpressionView,
        index: ExpressionView,
    ) -> (Option<u64>, Result<ExpressionView, ReducerError>) {
        (observed(state, original.node.id), Ok(kept_index(original, array, index)))
    }

    open spec fn member_rule(
        state: Option<u64>,
        original: ExpressionView,
        object: ExpressionView,
    ) -> (Option<u64>, Result<ExpressionView, ReducerError>) {
        (observed(state, original.node.id), Ok(kept_member(original, object)))
    }

    open spec fn tuple_access_rule(
        state: Option<u64>,
        original: ExpressionView,
        tuple: ExpressionView,
    ) -> (Option<u64>, Result<ExpressionView, ReducerError>) {
        (observed(state, original.node.id), Ok(kept_tuple_access(original, tuple)))
    }

    open spec fn implicit_member_rule(
        state: Option<u64>,
        original: ExpressionView,
    ) -> (Option<u64>, Result<ExpressionView, ReducerError>) {
        (observed(state, original.node.id), Ok(original))
    }

    open spec fn cast_rule(
        state: Option<u64>,
        original: ExpressionView,
        operand: ExpressionView,
        target: TypeView,
    ) -> (Option<u64>, Result<ExpressionView, ReducerError>) {
        (observed(state, original.node.id), Ok(kept_cast(original, operand, target)))
    }

    open spec fn type_rule(
        state: Option<u64>,
        original: TypeView,
    ) -> (Option<u64>, Result<TypeView, ReducerError>) {
        (state, Ok(original))
    }

    open spec fn return_rule(
        state: Option<u64>,
        original: StatementView,
        value: ExpressionView,
    ) -> (Option<u64>, Result<StatementView, ReducerError>) {
        (observed(state, original.node().id), Ok(kept_return(original, value)))
    }

    open spec fn binding_rule(
        state: Option<u64>,
        original: BindingView,
        declared: Option<TypeView>,
    ) -> (Option<u64>, Result<BindingView, ReducerError>) {
        (observed(state, original.node.id), Ok(kept_binding(original, declared)))
    }

    open spec fn definition_rule(
        state: Option<u64>,
        original: DefinitionView,
        bindings: Seq<BindingView>,
        value: ExpressionView,
    ) -> (Option<u64>, Result<DefinitionView, ReducerError>) {
        (observed(state, original.node.id), Ok(kept_definition(original, bindings, value)))
    }

    open spec fn assign_rule(
        state: Option<u64>,
        original: StatementView,
        target: ExpressionView,
        value: ExpressionView,
    ) -> (Option<u64>, Result<StatementView, ReducerError>) {
        (observed(state, original.node().id), Ok(kept_assign(original, target, value)))
    }

    open spec fn conditional_rule(
        state: Option<u64>,
        original: StatementView,
        condition: ExpressionView,
        then_block: BlockView,
        otherwise: Option<StatementView>,
    ) -> (Option<u64>, Result<StatementView, ReducerError>) {
        (observed(state, original.node().id), Ok(kept_conditional(original, condition, then_block, otherwise)))
    }

    open spec fn iteration_rule(
        state: Option<u64>,
        original: StatementView,
        start: ExpressionView,
        stop: ExpressionView,
        body: BlockView,
    ) -> (Option<u64>, Result<StatementView, ReducerError>) {
        (observed(state, original.node().id), Ok(kept_iteration(original, start, stop, body)))
    }

    open spec fn expression_statement_rule(
        state: Option<u64>,
        original: StatementView,
        expression: ExpressionView,
    ) -> (Option<u64>, Result<StatementView, ReducerError>) {
        (observed(state, original.node().id), Ok(kept_expression_statement(original, expression)))
    }

    open spec fn block_rule(
        state: Option<u64>,
        original: BlockView,
        statements: Seq<StatementView>,
    ) -> (Option<u64>, Result<BlockView, ReducerError>) {
        (observed(state, original.node.id), Ok(kept_block(original, statements)))
    }

    open spec fn import_rule(
        state: Option<u64>,
        original: ImportView,
    ) -> (Option<u64>, Result<ImportView, ReducerError>) {
        (observed(state, original.node.id), Ok(original))
    }

    open spec fn circuit_member_rule(
        state: Option<u64>,
        original: CircuitMemberView,
        member_type: TypeView,
    ) -> (Option<u64>, Result<CircuitMemberView, ReducerError>) {
        (observed(state, original.node.id), Ok(kept_circuit_member(original, member_type)))
    }

    open spec fn circuit_rule(
        state: Option<u64>,
        original: CircuitView,
        members: Seq<CircuitMemberView>,
        functions: Seq<FunctionView>,
    ) -> (Option<u64>, Result<CircuitView, ReducerError>) {
        (observed(state, original.node.id), Ok(kept_circuit(original, members, functions)))
    }

    open spec fn annotation_rule(
        state: Option<u64>,
        original: AnnotationView,
    ) -> (Option<u64>, Result<AnnotationView, ReducerError>) {
        (observed(state, original.node.id), Ok(original))
    }

    open spec fn function_input_rule(
        state: Option<u64>,
        original: FunctionInputView,
        input_type: TypeView,
    ) -> (Option<u64>, Result<FunctionInputView, ReducerError>) {
        (observed(state, original.node.id), Ok(kept_function_input(original, input_type)))
    }

    open spec fn function_rule(
        state: Option<u64>,
        original: FunctionView,
        annotations: Seq<AnnotationView>,
        inputs: Seq<FunctionInputView>,
        output: Option<TypeView>,
        body: BlockView,
    ) -> (Option<u64>, Result<FunctionView, ReducerError>) {
        (observed(state, original.node.id), Ok(kept_function(original, annotations, inputs, output, body)))
    }

    open spec fn program_rule(
        state: Option<u64>,
        original: ProgramView,
        imports: Seq<ImportView>,
        circuits: Seq<CircuitView>,
        functions: Seq<FunctionView>,
        globals: Seq<DefinitionView>,
    ) -> (Option<u64>, Result<ProgramView, ReducerError>) {
        (state, Ok(kept_program(imports, circuits, functions, globals)))
    }

    fn reduce_literal(&mut self, original: &Expression) -> (r: Result<Expression, ReducerError>) {
        self.highest = observe(self.highest, original.node.id);
        Ok(keep_literal(original))
    }

    fn reduce_identifier(&mut self, original: &Expression) -> (r: Result<Expression, ReducerError>) {
        self.highest = observe(self.highest, original.node.id);
        Ok(keep_identifier(original))
    }

    fn reduce_unary(
        &mut self,
        original: &Expression,
        operand: Expression,
    ) -> (r: Result<Expression, ReducerError>) {
        self.highest = observe(self.highest, original.node.id);
        Ok(keep_unary(original, operand))
    }

    fn reduce_binary(
        &mut self,
        original: &Expression,
        left: Expression,
        right: Expression,
    ) -> (r: Result<Expression, ReducerError>) {
        self.highest = observe(self.highest, original.node.id);
        Ok(keep_binary(original, left, right))
    }

    fn reduce_ternary(
        &mut self,
        original: &Expression,
        condition: Expression,
        if_true: Expression,
        if_false: Expression,
    ) -> (r: Result<Expression, ReducerError>) {
        self.highest = observe(self.highest, original.node.id);
        Ok(keep_ternary(original, condition, if_true, if_false))
    }

    fn reduce_call(
        &mut self,
        original: &Expression,
        arguments: Vec<Expression>,
    ) -> (r: Result<Expression, ReducerError>) {
        self.highest = observe(self.highest, original.node.id);
        Ok(keep_call(original, arguments))
    }

    fn reduce_array(
        &mut self,
        original: &Expression,
        elements: Vec<Expression>,
    ) -> (r: Result<Expression, ReducerError>) {
        self.highest = observe(self.highest, original.node.id);
        Ok(keep_array(original, elements))
    }

    fn reduce_tuple(
        &mut self,
        original: &Expression,
        elements: Vec<Expression>,
    ) -> (r: Result<Expression, ReducerError>) {
        self.highest = observe(self.highest, original.node.id);
        Ok(keep_tuple(original, elements))
    }

    fn reduce_circuit_init(
        &mut self,
        original: &Expression,
        members: Vec<MemberInit>,
    ) -> (r: Result<Expression, ReducerError>) {
        self.highest = observe(self.highest, original.node.id);
        Ok(keep_circuit_init(original, members))
    }

    fn reduce_index(
        &mut self,
        original: &Expression,
        array: Expression,
        index: Expression,
    ) -> (r: Result<Expression, ReducerError>) {
        self.highest = observe(self.highest, original.node.id);
        Ok(keep_index(original, array, index))
    }

    fn reduce_member(
        &mut self,
        original: &Expression,
        object: Expression,
    ) -> (r: Result<Expression, ReducerError>) {
        self.highest = observe(self.highest, original.node.id);
        Ok(keep_member(original, object))
    }

    fn reduce_tuple_access(
        &mut self,
        original: &Expression,
        tuple: Expression,
    ) -> (r: Result<Expression, ReducerError>) {
        self.highest = observe(self.highest, original.node.id);
        Ok(keep_tuple_access(original, tuple))
    }

    fn reduce_implicit_member(
        &mut self,
        original: &Expression,
    ) -> (r: Result<Expression, ReducerError>) {
        self.highest = observe(self.highest, original.node.id);
        Ok(keep_implicit_member(original))
    }

    fn reduce_cast(
        &mut self,
        original: &Expression,
        operand: Expression,
        target: Type,
    ) -> (r: Result<Expression, ReducerError>) {
        self.highest = observe(self.highest, original.node.id);
        Ok(keep_cast(original, operand, target))
    }

    fn reduce_type(&mut self, original: &Type) -> (r: Result<Type, ReducerError>) {
        Ok(original.clone())
    }

    fn reduce_return(
        &mut self,
        original: &Statement,
        value: Expression,
    ) -> (r: Result<Statement, ReducerError>) {
        self.highest = observe(self.highest, original.node().id);
        Ok(keep_return(original, value))
    }

    fn reduce_binding(
        &mut self,
        original: &Binding,
        declared: Option<Type>,
    ) -> (r: Result<Binding, ReducerError>) {
        self.highest = observe(self.highest, original.node.id);
        Ok(keep_binding(original, declared))
    }

    fn reduce_definition(
        &mut self,
        original: &Definition,
        bindings: Vec<Binding>,
        value: Expression,
    ) -> (r: Result<Definition, ReducerError>) {
        self.highest = observe(self.highest, original.node.id);
        Ok(keep_definition(original, bindings, value))
    }

    fn reduce_assign(
        &mut self,
        original: &Statement,
        target: Expression,
        value: Expression,
    ) -> (r: Result<Statement, ReducerError>) {
        self.highest = observe(self.highest, original.node().id);
        Ok(keep_assign(original, target, value))
    }

    fn reduce_conditional(
        &mut self,
        original: &Statement,
        condition: Expression,
        then_block: Block,
        otherwise: Option<Statement>,
    ) -> (r: Result<Statement, ReducerError>) {
        self.highest = observe(self.highest, original.node().id);
        Ok(keep_conditional(original, condition, then_block, otherwise))
    }

    fn reduce_iteration(
        &mut self,
        original: &Statement,
        start: Expression,
        stop: Expression,
        body: Block,
    ) -> (r: Result<Statement, ReducerError>) {
        self.highest = observe(self.highest, original.node().id);
        Ok(keep_iteration(original, start, stop, body))
    }

    fn reduce_expression_statement(
        &mut self,
        original: &Statement,
        expression: Expression,
    ) -> (r: Result<Statement, ReducerError>) {
        self.highest = observe(self.highest, original.node().id);
        Ok(keep_expression_statement(original, expression))
    }

    fn reduce_block(
        &mut self,
        original: &Block,
        statements: Vec<Statement>,
    ) -> (r: Result<Block, ReducerError>) {
        self.highest = observe(self.highest, original.node.id);
        Ok(keep_block(original, statements))
    }

    fn reduce_import(&mut self, original: &Import) -> (r: Result<Import, ReducerError>) {
        self.highest = observe(self.highest, original.node.id);
        Ok(original.clone())
    }

    fn reduce_circuit_member(
        &mut self,
        original: &CircuitMember,
        member_type: Type,
    ) -> (r: Result<CircuitMember, ReducerError>) {
        self.highest = observe(self.highest, original.node.id);
        Ok(keep_circuit_member(original, member_type))
    }

    fn reduce_circuit(
        &mut self,
        original: &Circuit,
        members: Vec<CircuitMember>,
        functions: Vec<Function>,
    ) -> (r: Result<Circuit, ReducerError>) {
        self.highest = observe(self.highest, original.node.id);
        Ok(keep_circuit(original, members, functions))
    }

    fn reduce_annotation(&mut self, original: &Annotation) -> (r: Result<Annotation, ReducerError>) {
        self.highest = observe(self.highest, original.node.id);
        Ok(original.clone())
    }

    fn reduce_function_input(
        &mut self,
        original: &FunctionInput,
        input_type: Type,
    ) -> (r: Result<FunctionInput, ReducerError>) {
        self.highest = observe(self.highest, original.node.id);
        Ok(keep_function_input(original, input_type))
    }

    fn reduce_function(
        &mut self,
        original: &Function,
        annotations: Vec<Annotation>,
        inputs: Vec<FunctionInput>,
        output: Option<Type>,
        body: Block,
    ) -> (r: Result<Function, ReducerError>) {
        self.highest = observe(self.highest, original.node.id);
        Ok(keep_function(original, annotations, inputs, output, body))
    }

    fn reduce_program(
        &mut self,
        original: &Program,
        imports: Vec<Import>,
        circuits: Vec<Circuit>,
        functions: Vec<Function>,
        globals: Vec<Definition>,
    ) -> (r: Result<Program, ReducerError>) {
        Ok(keep_program(imports, circuits, functions, globals))
    }
}

/// The greatest identifier among the nodes of `p`, or `None` if `p` has no node.
pub open spec fn highest_identity(p: ProgramView) -> Option<u64> {
    reduced_program::<IdentityScan>(None, p).0
}

/// The supply of identifiers that no node of `p` has: it starts above the greatest
/// identifier of `p`, and is empty where that is the greatest identifier there is.
pub open spec fn unused_identities(p: ProgramView) -> Option<u64> {
    match highest_identity(p) {
        None => Some(0),
        Some(h) => if h == u64::MAX {
            None
        } else {
            Some((h + 1) as u64)
        },
    }
}

/// The supply of identifiers that no node of `p` has.
pub fn first_unused_identity(p: &Program) -> (r: Option<u64>)
    ensures
        r == unused_identities(p@),
{
    let mut director = ReconstructingDirector::new(IdentityScan { highest: None });
    let _ = director.reduce_program(p);
    match director.into_reducer().highest {
        None => Some(0),
        Some(h) => if h == u64::MAX {
            None
        } else {
            Some(h + 1)
        },
    }
}

/// The pass that changes nothing and writes down the identifier of every node it
/// is shown, in the order of the traversal.
pub struct Collect {
    pub seen: Vec<u64>,
}

impl View for Collect {
    type V = Seq<u64>;

    open spec fn view(&self) -> Seq<u64> {
        self.seen@
    }
}

impl Reducer for Collect {
    open spec fn literal_rule(
        state: Seq<u64>,
        original: ExpressionView,
    ) -> (Seq<u64>, Result<ExpressionView, ReducerError>) {
        (state.push(original.node.id), Ok(original))
    }

    open spec fn identifier_rule(
        state: Seq<u64>,
        original: ExpressionView,
    ) -> (Seq<u64>, Result<ExpressionView, ReducerError>) {
        (state.push(original.node.id), Ok(original))
    }

    open spec fn unary_rule(
        state: Seq<u64>,
        original: ExpressionView,
        operand: ExpressionView,
    ) -> (Seq<u64>, Result<ExpressionView, ReducerError>) {
        (state.push(original.node.id), Ok(kept_unary(original, operand)))
    }

    open spec fn binary_rule(
        state: Seq<u64>,
        original: ExpressionView,
        left: ExpressionView,
        right: ExpressionView,
    ) -> (Seq<u64>, Result<ExpressionView, ReducerError>) {
        (state.push(original.node.id), Ok(kept_binary(original, left, right)))
    }

    open spec fn ternary_rule(
        state: Seq<u64>,
        original: ExpressionView,
        condition: ExpressionView,
        if_true: ExpressionView,
        if_false: ExpressionView,
    ) -> (Seq<u64>, Result<ExpressionView, ReducerError>) {
        (state.push(original.node.id), Ok(kept_ternary(original, condition, if_true, if_false)))
    }

    open spec fn call_rule(
        state: Seq<u64>,
        original: ExpressionView,
        arguments: Seq<ExpressionView>,
    ) -> (Seq<u64>, Result<ExpressionView, ReducerError>) {
        (state.push(original.node.id), Ok(kept_call(original, arguments)))
    }

    open spec fn array_rule(
        state: Seq<u64>,
        original: ExpressionView,
        elements: Seq<ExpressionView>,
    ) -> (Seq<u64>, Result<ExpressionView, ReducerError>) {
        (state.push(original.node.id), Ok(kept_array(original, elements)))
    }

    open spec fn tuple_rule(
        state: Seq<u64>,
        original: ExpressionView,
        elements: Seq<ExpressionView>,
    ) -> (Seq<u64>, Result<ExpressionView, ReducerError>) {
        (state.push(original.node.id), Ok(kept_tuple(original, elements)))
    }

    open spec fn circuit_init_rule(
        state: Seq<u64>,
        original: ExpressionView,
        members: Seq<MemberInitView>,
    ) -> (Seq<u64>, Result<ExpressionView, ReducerError>) {
        (state.push(original.node.id), Ok(kept_circuit_init(original, members)))
    }

    open spec fn index_rule(
        state: Seq<u64>,
        original: ExpressionView,
        array: ExpressionView,
        index: ExpressionView,
    ) -> (Seq<u64>, Result<ExpressionView, ReducerError>) {
        (state.push(original.node.id), Ok(kept_index(original, array, index)))
    }

    open spec fn member_rule(
        state: Seq<u64>,
        original: ExpressionView,
        object: ExpressionView,
    ) -> (Seq<u64>, Result<ExpressionView, ReducerError>) {
        (state.push(original.node.id), Ok(kept_member(original, object)))
    }

    open spec fn tuple_access_rule(
        state: Seq<u64>,
        original: ExpressionView,
        tuple: ExpressionView,
    ) -> (Seq<u64>, Result<ExpressionView, ReducerError>) {
        (state.push(original.node.id), Ok(kept_tuple_access(original, tuple)))
    }

    open spec fn implicit_member_rule(
        state: Seq<u64>,
        original: ExpressionView,
    ) -> (Seq<u64>, Result<ExpressionView, ReducerError>) {
        (state.push(original.node.id), Ok(original))
    }

    open spec fn cast_rule(
        state: Seq<u64>,
        original: ExpressionView,
        operand: ExpressionView,
        target: TypeView,
    ) -> (Seq<u64>, Result<ExpressionView, ReducerError>) {
        (state.push(original.node.id), Ok(kept_cast(original, operand, target)))
    }

    open spec fn type_rule(
        state: Seq<u64>,
        original: TypeView,
    ) -> (Seq<u64>, Result<TypeView, ReducerError>) {
        (state, Ok(original))
    }

    open spec fn return_rule(
        state: Seq<u64>,
        original: StatementView,
        value: ExpressionView,
    ) -> (Seq<u64>, Result<StatementView, ReducerError>) {
        (state.push(original.node().id), Ok(kept_return(original, value)))
    }

    open spec fn binding_rule(
        state: Seq<u64>,
        original: BindingView,
        declared: Option<TypeView>,
    ) -> (Seq<u64>, Result<BindingView, ReducerError>) {
        (state.push(original.node.id), Ok(kept_binding(original, declared)))
    }

    open spec fn definition_rule(
        state: Seq<u64>,
        original: DefinitionView,
        bindings: Seq<BindingView>,
        value: ExpressionView,
    ) -> (Seq<u64>, Result<DefinitionView, ReducerError>) {
        (state.push(original.node.id), Ok(kept_definition(original, bindings, value)))
    }

    open spec fn assign_rule(
        state: Seq<u64>,
        original: StatementView,
        target: ExpressionView,
        value: ExpressionView,
    ) -> (Seq<u64>, Result<StatementView, ReducerError>) {
        (state.push(original.node().id), Ok(kept_assign(original, target, value)))
    }

    open spec fn conditional_rule(
        state: Seq<u64>,
        original: StatementView,
        condition: ExpressionView,
        then_block: BlockView,
        otherwise: Option<StatementView>,
    ) -> (Seq<u64>, Result<StatementView, ReducerError>) {
        (state.push(original.node().id), Ok(kept_conditional(original, condition, then_block, otherwise)))
    }

    open spec fn iteration_rule(
        state: Seq<u64>,
        original: StatementView,
        start: ExpressionView,
        stop: ExpressionView,
        body: BlockView,
    ) -> (Seq<u64>, Result<StatementView, ReducerError>) {
        (state.push(original.node().id), Ok(kept_iteration(original, start, stop, body)))
    }

    open spec fn expression_statement_rule(
        state: Seq<u64>,
        original: StatementView,
        expression: ExpressionView,
    ) -> (Seq<u64>, Result<StatementView, ReducerError>) {
        (state.push(original.node().id), Ok(kept_expression_statement(original, expression)))
    }

    open spec fn block_rule(
        state: Seq<u64>,
        original: BlockView,
        statements: Seq<StatementView>,
    ) -> (Seq<u64>, Result<BlockView, ReducerError>) {
        (state.push(original.node.id), Ok(kept_block(original, statements)))
    }

    open spec fn import_rule(
        state: Seq<u64>,
        original: ImportView,
    ) -> (Seq<u64>, Result<ImportView, ReducerError>) {
        (state.push(original.node.id), Ok(original))
    }

    open spec fn circuit_member_rule(
        state: Seq<u64>,
        original: CircuitMemberView,
        member_type: TypeView,
    ) -> (Seq<u64>, Result<CircuitMemberView, ReducerError>) {
        (state.push(original.node.id), Ok(kept_circuit_member(original, member_type)))
    }

    open spec fn circuit_rule(
        state: Seq<u64>,
        original: CircuitView,
        members: Seq<CircuitMemberView>,
        functions: Seq<FunctionView>,
    ) -> (Seq<u64>, Result<CircuitView, ReducerError>) {
        (state.push(original.node.id), Ok(kept_circuit(original, members, functions)))
    }

    open spec fn annotation_rule(
        state: Seq<u64>,
        original: AnnotationView,
    ) -> (Seq<u64>, Result<AnnotationView, ReducerError>) {
        (state.push(original.node.id), Ok(original))
    }

    open spec fn function_input_rule(
        state: Seq<u64>,
        original: FunctionInputView,
        input_type: TypeView,
    ) -> (Seq<u64>, Result<FunctionInputView, ReducerError>) {
        (state.push(original.node.id), Ok(kept_function_input(original, input_type)))
    }

    open spec fn function_rule(
        state: Seq<u64>,
        original: FunctionView,
        annotations: Seq<AnnotationView>,
        inputs: Seq<FunctionInputView>,
        output: Option<TypeView>,
        body: BlockView,
    ) -> (Seq<u64>, Result<FunctionView, ReducerError>) {
        (state.push(original.node.id), Ok(kept_function(original, annotations, inputs, output, body)))
    }

    open spec fn program_rule(
        state: Seq<u64>,
        original: ProgramView,
        imports: Seq<ImportView>,
        circuits: Seq<CircuitView>,
        functions: Seq<FunctionView>,
        globals: Seq<DefinitionView>,
    ) -> (Seq<u64>, Result<ProgramView, ReducerError>) {
        (state, Ok(kept_program(imports, circuits, functions, globals)))
    }

    fn reduce_literal(&mut self, original: &Expression) -> (r: Result<Expression, ReducerError>) {
        self.seen.push(original.node.id);
        Ok(keep_literal(original))
    }

    fn reduce_identifier(&mut self, original: &Expression) -> (r: Result<Expression, ReducerError>) {
        self.seen.push(original.node.id);
        Ok(keep_identifier(original))
    }

    fn reduce_unary(
        &mut self,
        original: &Expression,
        operand: Expression,
    ) -> (r: Result<Expression, ReducerError>) {
        self.seen.push(original.node.id);
        Ok(keep_unary(original, operand))
    }

    fn reduce_binary(
        &mut self,
        original: &Expression,
        left: Expression,
        right: Expression,
    ) -> (r: Result<Expression, ReducerError>) {
        self.seen.push(original.node.id);
        Ok(keep_binary(original, left, right))
    }

    fn reduce_ternary(
        &mut self,
        original: &Expression,
        condition: Expression,
        if_true: Expression,
        if_false: Expression,
    ) -> (r: Result<Expression, ReducerError>) {
        self.seen.push(original.node.id);
        Ok(keep_ternary(original, condition, if_true, if_false))
    }

    fn reduce_call(
        &mut self,
        original: &Expression,
        arguments: Vec<Expression>,
    ) -> (r: Result<Expression, ReducerError>) {
        self.seen.push(original.node.id);
        Ok(keep_call(original, arguments))
    }

    fn reduce_array(
        &mut self,
        original: &Expression,
        elements: Vec<Expression>,
    ) -> (r: Result<Expression, ReducerError>) {
        self.seen.push(original.node.id);
        Ok(keep_array(original, elements))
    }

    fn reduce_tuple(
        &mut self,
        original: &Expression,
        elements: Vec<Expression>,
    ) -> (r: Result<Expression, ReducerError>) {
        self.seen.push(original.node.id);
        Ok(keep_tuple(original, elements))
    }

    fn reduce_circuit_init(
        &mut self,
        original: &Expression,
        members: Vec<MemberInit>,
    ) -> (r: Result<Expression, ReducerError>) {
        self.seen.push(original.node.id);
        Ok(keep_circuit_init(original, members))
    }

    fn reduce_index(
        &mut self,
        original: &Expression,
        array: Expression,
        index: Expression,
    ) -> (r: Result<Expression, ReducerError>) {
        self.seen.push(original.node.id);
        Ok(keep_index(original, array, index))
    }

    fn reduce_member(
        &mut self,
        original: &Expression,
        object: Expression,
    ) -> (r: Result<Expression, ReducerError>) {
        self.seen.push(original.node.id);
        Ok(keep_member(original, object))
    }

    fn reduce_tuple_access(
        &mut self,
        original: &Expression,
        tuple: Expression,
    ) -> (r: Result<Expression, ReducerError>) {
        self.seen.push(original.node.id);
        Ok(keep_tuple_access(original, tuple))
    }

    fn reduce_implicit_member(
        &mut self,
        original: &Expression,
    ) -> (r: Result<Expression, ReducerError>) {
        self.seen.push(original.node.id);
        Ok(keep_implicit_member(original))
    }

    fn reduce_cast(
        &mut self,
        original: &Expression,
        operand: Expression,
        target: Type,
    ) -> (r: Result<Expression, ReducerError>) {
        self.seen.push(original.node.id);
        Ok(keep_cast(original, operand, target))
    }

    fn reduce_type(&mut self, original: &Type) -> (r: Result<Type, ReducerError>) {
        Ok(original.clone())
    }

    fn reduce_return(
        &mut self,
        original: &Statement,
        value: Expression,
    ) -> (r: Result<Statement, ReducerError>) {
        self.seen.push(original.node().id);
        Ok(keep_return(original, value))
    }

    fn reduce_binding(
        &mut self,
        original: &Binding,
        declared: Option<Type>,
    ) -> (r: Result<Binding, ReducerError>) {
        self.seen.push(original.node.id);
        Ok(keep_binding(original, declared))
    }

    fn reduce_definition(
        &mut self,
        original: &Definition,
        bindings: Vec<Binding>,
        value: Expression,
    ) -> (r: Result<Definition, ReducerError>) {
        self.seen.push(original.node.id);
        Ok(keep_definition(original, bindings, value))
    }

    fn reduce_assign(
        &mut self,
        original: &Statement,
        target: Expression,
        value: Expression,
    ) -> (r: Result<Statement, ReducerError>) {
        self.seen.push(original.node().id);
        Ok(keep_assign(original, target, value))
    }

    fn reduce_conditional(
        &mut self,
        original: &Statement,
        condition: Expression,
        then_block: Block,
        otherwise: Option<Statement>,
    ) -> (r: Result<Statement, ReducerError>) {
        self.seen.push(original.node().id);
        Ok(keep_conditional(original, condition, then_block, otherwise))
    }

    fn reduce_iteration(
        &mut self,
        original: &Statement,
        start: Expression,
        stop: Expression,
        body: Block,
    ) -> (r: Result<Statement, ReducerError>) {
        self.seen.push(original.node().id);
        Ok(keep_iteration(original, start, stop, body))
    }

    fn reduce_expression_statement(
        &mut self,
        original: &Statement,
        expression: Expression,
    ) -> (r: Result<Statement, ReducerError>) {
        self.seen.push(original.node().id);
        Ok(keep_expression_statement(original, expression))
    }

    fn reduce_block(
        &mut self,
        original: &Block,
        statements: Vec<Statement>,
    ) -> (r: Result<Block, ReducerError>) {
        self.seen.push(original.node.id);
        Ok(keep_block(original, statements))
    }

    fn reduce_import(&mut self, original: &Import) -> (r: Result<Import, ReducerError>) {
        self.seen.push(original.node.id);
        Ok(original.clone())
    }

    fn reduce_circuit_member(
        &mut self,
        original: &CircuitMember,
        member_type: Type,
    ) -> (r: Result<CircuitMember, ReducerError>) {
        self.seen.push(original.node.id);
        Ok(keep_circuit_member(original, member_type))
    }

    fn reduce_circuit(
        &mut self,
        original: &Circuit,
        members: Vec<CircuitMember>,
        functions: Vec<Function>,
    ) -> (r: Result<Circuit, ReducerError>) {
        self.seen.push(original.node.id);
        Ok(keep_circuit(original, members, functions))
    }

    fn reduce_annotation(&mut self, original: &Annotation) -> (r: Result<Annotation, ReducerError>) {
        self.seen.push(original.node.id);
        Ok(original.clone())
    }

    fn reduce_function_input(
        &mut self,
        original: &FunctionInput,
        input_type: Type,
    ) -> (r: Result<FunctionInput, ReducerError>) {
        self.seen.push(original.node.id);
        Ok(keep_function_input(original, input_type))
    }

    fn reduce_function(
        &mut self,
        original: &Function,
        annotations: Vec<Annotation>,
        inputs: Vec<FunctionInput>,
        output: Option<Type>,
        body: Block,
    ) -> (r: Result<Function, ReducerError>) {
        self.seen.push(original.node.id);
        Ok(keep_function(original, annotations, inputs, output, body))
    }

    fn reduce_program(
        &mut self,
        original: &Program,
        imports: Vec<Import>,
        circuits: Vec<Circuit>,
        functions: Vec<Function>,
        globals: Vec<Definition>,
    ) -> (r: Result<Program, ReducerError>) {
        Ok(keep_program(imports, circuits, functions, globals))
    }
}

/// The identifiers of the nodes of `p`, in the order of the traversal.
pub open spec fn identifiers(p: ProgramView) -> Seq<u64> {
    reduced_program::<Collect>(Seq::empty(), p).0
}

/// The identifiers of the nodes of `p`, in the order of the traversal.
pub fn identifiers_of(p: &Program) -> (r: Vec<u64>)
    ensures
        r@ == identifiers(p@),
{
    let mut director = ReconstructingDirector::new(Collect { seen: Vec::new() });
    let _ = director.reduce_program(p);
    director.into_reducer().seen
}

} // verus!
