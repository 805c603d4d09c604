//! Canonical form, and what the canonicalizer does to a tree that is in it.

use vstd::prelude::*;
use crate::canonicalizer::{
    global_single_definitions, single_definitions, splits, with_single_definitions, Canonicalizer,
    CanonicalizerView, SignatureView,
};
use crate::director::{
    reduced_block, reduced_circuit, reduced_circuits, reduced_definition, reduced_definitions,
    reduced_expression, reduced_expressions, reduced_function, reduced_functions, reduced_member_init,
    reduced_member_inits, reduced_program, reduced_statement, reduced_statements,
};
use crate::errors::ReducerError;
use crate::expression::{ExpressionKindView, ExpressionView, MemberInitView};
use crate::leaves::{
    keeps_annotations, keeps_bindings, keeps_circuit_members, keeps_function_inputs, keeps_imports,
    keeps_types, lemma_kept_annotations, lemma_kept_bindings, lemma_kept_circuit_members,
    lemma_kept_function_inputs, lemma_kept_imports, lemma_kept_optional_type,
};
use crate::literals::canonical_literal;
use crate::program::{CircuitView, FunctionView, ProgramView};
use crate::statements::{BlockView, DefinitionView, StatementView};

verus! {

/// An expression is canonical when every literal in it is its own canonical form and
/// no member access in it is in the short form.
pub open spec fn canonical_expression(e: ExpressionView) -> bool
    decreases e,
{
    match e.kind {
        ExpressionKindView::Literal(l) => canonical_literal(l) == Some(l),
        ExpressionKindView::Identifier(_) => true,
        ExpressionKindView::Unary { operand, .. } => canonical_expression(*operand),
        ExpressionKindView::Binary { left, right, .. } => canonical_expression(*left)
            && canonical_expression(*right),
        ExpressionKindView::Ternary { condition, if_true, if_false } => canonical_expression(*condition)
            && canonical_expression(*if_true) && canonical_expression(*if_false),
        ExpressionKindView::Call { arguments, .. } => forall|i: int|
            0 <= i < arguments.len() ==> canonical_expression(#[trigger] arguments[i]),
        ExpressionKindView::Array(elements) => forall|i: int|
            0 <= i < elements.len() ==> canonical_expression(#[trigger] elements[i]),
        ExpressionKindView::Tuple(elements) => forall|i: int|
            0 <= i < elements.len() ==> canonical_expression(#[trigger] elements[i]),
        ExpressionKindView::Circuit { members, .. } => forall|i: int|
            0 <= i < members.len() ==> canonical_expression((#[trigger] members[i]).value),
        ExpressionKindView::Index { array, index } => canonical_expression(*array)
            && canonical_expression(*index),
        ExpressionKindView::Member { object, .. } => canonical_expression(*object),
        ExpressionKindView::TupleAccess { tuple, .. } => canonical_expression(*tuple),
        ExpressionKindView::ImplicitMember { .. } => false,
        ExpressionKindView::Cast { operand, .. } => canonical_expression(*operand),
    }
}

/// A definition is canonical when its initializer is and the pass does not split it.
pub open spec fn canonical_definition(signatures: Seq<SignatureView>, d: DefinitionView) -> bool {
    canonical_expression(d.value) && !splits(signatures, d)
}

/// A statement is canonical when its expressions, its definitions and the statements
/// in it are, no assignment in it is compound, and what follows an `else` in it is a
/// block.
pub open spec fn canonical_statement(signatures: Seq<SignatureView>, s: StatementView) -> bool
    decreases s,
{
    match s {
        StatementView::Return { value, .. } => canonical_expression(value),
        StatementView::Definition(d) => canonical_definition(signatures, d),
        StatementView::Assign { target, operation, value, .. } => operation is None
            && canonical_expression(target) && canonical_expression(value),
        StatementView::Conditional { condition, then_block, otherwise, .. } => {
            &&& canonical_expression(condition)
            &&& forall|i: int|
                0 <= i < then_block.statements.len() ==> canonical_statement(
                    signatures,
                    #[trigger] then_block.statements[i],
                )
            &&& match otherwise {
                None => true,
                Some(next) => *next is Block && canonical_statement(signatures, *next),
            }
        },
        StatementView::Iteration { start, stop, body, .. } => {
            &&& canonical_expression(start)
            &&& canonical_expression(stop)
            &&& forall|i: int|
                0 <= i < body.statements.len() ==> canonical_statement(
                    signatures,
                    #[trigger] body.statements[i],
                )
        },
        StatementView::Expression { expression, .. } => canonical_expression(expression),
        StatementView::Block(b) => forall|i: int|
            0 <= i < b.statements.len() ==> canonical_statement(signatures, #[trigger] b.statements[i]),
    }
}

/// A block is canonical when each of its statements is.
pub open spec fn canonical_block(signatures: Seq<SignatureView>, b: BlockView) -> bool {
    forall|i: int|
        0 <= i < b.statements.len() ==> canonical_statement(signatures, #[trigger] b.statements[i])
}

/// A circuit is canonical when the body of each of its functions is.
pub open spec fn canonical_circuit(signatures: Seq<SignatureView>, c: CircuitView) -> bool {
    forall|i: int|
        0 <= i < c.functions.len() ==> canonical_block(signatures, (#[trigger] c.functions[i]).body)
}

/// A program is canonical, with respect to the signatures of some functions, when its
/// circuits, the bodies of its functions and its global definitions are.
pub open spec fn canonical_parts(signatures: Seq<SignatureView>, p: ProgramView) -> bool {
    &&& forall|i: int|
        0 <= i < p.circuits.len() ==> canonical_circuit(signatures, #[trigger] p.circuits[i])
    &&& forall|i: int|
        0 <= i < p.functions.len() ==> canonical_block(signatures, (#[trigger] p.functions[i]).body)
    &&& forall|i: int|
        0 <= i < p.globals.len() ==> canonical_definition(signatures, #[trigger] p.globals[i])
}

/// The pass keeps the leaves of a tree.
pub proof fn lemma_canonicalizer_keeps_leaves()
    ensures
        keeps_types::<Canonicalizer>(),
        keeps_bindings::<Canonicalizer>(),
        keeps_imports::<Canonicalizer>(),
        keeps_circuit_members::<Canonicalizer>(),
        keeps_annotations::<Canonicalizer>(),
        keeps_function_inputs::<Canonicalizer>(),
{
}

proof fn lemma_fixed_expression(state: CanonicalizerView, e: ExpressionView)
    requires
        canonical_expression(e),
    ensures
        reduced_expression::<Canonicalizer>(state, e) == (state, Ok::<_, ReducerError>(e)),
    decreases e, 0nat,
{
    match e.kind {
        ExpressionKindView::Literal(_) => {},
        ExpressionKindView::Identifier(_) => {},
        ExpressionKindView::Unary { operand, .. } => {
            lemma_fixed_expression(state, *operand);
        },
        ExpressionKindView::Binary { left, right, .. } => {
            lemma_fixed_expression(state, *left);
            lemma_fixed_expression(state, *right);
        },
        ExpressionKindView::Ternary { condition, if_true, if_false } => {
            lemma_fixed_expression(state, *condition);
            lemma_fixed_expression(state, *if_true);
            lemma_fixed_expression(state, *if_false);
        },
        ExpressionKindView::Call { arguments, .. } => {
            lemma_fixed_expressions(state, arguments, arguments.len());
            assert(arguments.take(arguments.len() as int) =~= arguments);
        },
        ExpressionKindView::Array(elements) => {
            lemma_fixed_expressions(state, elements, elements.len());
            assert(elements.take(elements.len() as int) =~= elements);
        },
        ExpressionKindView::Tuple(elements) => {
            lemma_fixed_expressions(state, elements, elements.len());
            assert(elements.take(elements.len() as int) =~= elements);
        },
        ExpressionKindView::Circuit { members, .. } => {
            lemma_fixed_member_inits(state, members, members.len());
            assert(members.take(members.len() as int) =~= members);
        },
        ExpressionKindView::Index { array, index } => {
            lemma_fixed_expression(state, *array);
            lemma_fixed_expression(state, *index);
        },
        ExpressionKindView::Member { object, .. } => {
            lemma_fixed_expression(state, *object);
        },
        ExpressionKindView::TupleAccess { tuple, .. } => {
            lemma_fixed_expression(state, *tuple);
        },
        ExpressionKindView::ImplicitMember { .. } => {},
        ExpressionKindView::Cast { operand, .. } => {
            lemma_fixed_expression(state, *operand);
        },
    }
}

proof fn lemma_fixed_expressions(state: CanonicalizerView, items: Seq<ExpressionView>, n: nat)
    requires
        n <= items.len(),
        forall|i: int| 0 <= i < items.len() ==> canonical_expression(#[trigger] items[i]),
    ensures
        reduced_expressions::<Canonicalizer>(state, items, n) == (
            state,
            Ok::<_, ReducerError>(items.take(n as int)),
        ),
    decreases items, n,
{
    if n > 0 {
        lemma_fixed_expressions(state, items, (n - 1) as nat);
        lemma_fixed_expression(state, items[n - 1]);
        assert(items.take(n - 1).push(items[n - 1]) =~= items.take(n as int));
    } else {
        assert(items.take(0) =~= Seq::empty());
    }
}

proof fn lemma_fixed_member_inits(state: CanonicalizerView, items: Seq<MemberInitView>, n: nat)
    requires
        n <= items.len(),
        forall|i: int| 0 <= i < items.len() ==> canonical_expression((#[trigger] items[i]).value),
    ensures
        reduced_member_inits::<Canonicalizer>(state, items, n) == (
            state,
            Ok::<_, ReducerError>(items.take(n as int)),
        ),
    decreases items, n,
{
    if n > 0 {
        lemma_fixed_member_inits(state, items, (n - 1) as nat);
        lemma_fixed_expression(state, items[n - 1].value);
        assert(reduced_member_init::<Canonicalizer>(state, items[n - 1]) == (
            state,
            Ok::<_, ReducerError>(items[n - 1]),
        ));
        assert(items.take(n - 1).push(items[n - 1]) =~= items.take(n as int));
    } else {
        assert(items.take(0) =~= Seq::empty());
    }
}

proof fn lemma_fixed_definition(state: CanonicalizerView, d: DefinitionView)
    requires
        canonical_definition(state.signatures, d),
    ensures
        reduced_definition::<Canonicalizer>(state, d) == (state, Ok::<_, ReducerError>(d)),
{
    lemma_canonicalizer_keeps_leaves();
    lemma_kept_bindings::<Canonicalizer>(state, d.bindings, d.bindings.len());
    assert(d.bindings.take(d.bindings.len() as int) =~= d.bindings);
    lemma_fixed_expression(state, d.value);
}

/// Where the pass splits none of the definitions among `items`, replacing the
/// definitions leaves the list as it is.
proof fn lemma_nothing_to_split(state: CanonicalizerView, items: Seq<StatementView>, n: nat)
    requires
        n <= items.len(),
        forall|i: int|
            0 <= i < items.len() ==> canonical_statement(state.signatures, #[trigger] items[i]),
    ensures
        with_single_definitions(state, items, n) == (
            state,
            Ok::<_, ReducerError>(items.take(n as int)),
        ),
    decreases n,
{
    if n > 0 {
        lemma_nothing_to_split(state, items, (n - 1) as nat);
        let last = items[n - 1];
        assert(canonical_statement(state.signatures, last));
        match last {
            StatementView::Definition(d) => {
                assert(single_definitions(state, d) == (state, Ok::<_, ReducerError>(seq![d])));
                assert(items.take(n - 1) + crate::canonicalizer::as_statements(seq![d]) =~= items.take(
                    n as int,
                ));
            },
            _ => {
                assert(items.take(n - 1).push(last) =~= items.take(n as int));
            },
        }
    } else {
        assert(items.take(0) =~= Seq::empty());
    }
}

proof fn lemma_no_global_to_split(state: CanonicalizerView, items: Seq<DefinitionView>, n: nat)
    requires
        n <= items.len(),
        forall|i: int|
            0 <= i < items.len() ==> canonical_definition(state.signatures, #[trigger] items[i]),
    ensures
        global_single_definitions(state, items, n) == (
            state,
            Ok::<_, ReducerError>(items.take(n as int)),
        ),
    decreases n,
{
    if n > 0 {
        lemma_no_global_to_split(state, items, (n - 1) as nat);
        let d = items[n - 1];
        assert(canonical_definition(state.signatures, d));
        assert(single_definitions(state, d) == (state, Ok::<_, ReducerError>(seq![d])));
        assert(items.take(n - 1) + seq![d] =~= items.take(n as int));
    } else {
        assert(items.take(0) =~= Seq::empty());
    }
}

proof fn lemma_fixed_statement(state: CanonicalizerView, s: StatementView)
    requires
        canonical_statement(state.signatures, s),
    ensures
        reduced_statement::<Canonicalizer>(state, s) == (state, Ok::<_, ReducerError>(s)),
    decreases s, 0nat,
{
    match s {
        StatementView::Return { value, .. } => {
            lemma_fixed_expression(state, value);
        },
        StatementView::Definition(d) => {
            lemma_fixed_definition(state, d);
        },
        StatementView::Assign { target, value, .. } => {
            lemma_fixed_expression(state, target);
            lemma_fixed_expression(state, value);
        },
        StatementView::Conditional { condition, then_block, otherwise, .. } => {
            lemma_fixed_expression(state, condition);
            lemma_fixed_block(state, then_block);
            match otherwise {
                None => {},
                Some(next) => {
                    lemma_fixed_statement(state, *next);
                },
            }
        },
        StatementView::Iteration { start, stop, body, .. } => {
            lemma_fixed_expression(state, start);
            lemma_fixed_expression(state, stop);
            lemma_fixed_block(state, body);
        },
        StatementView::Expression { expression, .. } => {
            lemma_fixed_expression(state, expression);
        },
        StatementView::Block(b) => {
            lemma_fixed_block(state, b);
        },
    }
}

proof fn lemma_fixed_block(state: CanonicalizerView, b: BlockView)
    requires
        canonical_block(state.signatures, b),
    ensures
        reduced_block::<Canonicalizer>(state, b) == (state, Ok::<_, ReducerError>(b)),
    decreases b, 0nat,
{
    lemma_fixed_statements(state, b.statements, b.statements.len());
    assert(b.statements.take(b.statements.len() as int) =~= b.statements);
    lemma_nothing_to_split(state, b.statements, b.statements.len());
}

proof fn lemma_fixed_statements(state: CanonicalizerView, items: Seq<StatementView>, n: nat)
    requires
        n <= items.len(),
        forall|i: int|
            0 <= i < items.len() ==> canonical_statement(state.signatures, #[trigger] items[i]),
    ensures
        reduced_statements::<Canonicalizer>(state, items, n) == (
            state,
            Ok::<_, ReducerError>(items.take(n as int)),
        ),
    decreases items, n,
{
    if n > 0 {
        lemma_fixed_statements(state, items, (n - 1) as nat);
        lemma_fixed_statement(state, items[n - 1]);
        assert(items.take(n - 1).push(items[n - 1]) =~= items.take(n as int));
    } else {
        assert(items.take(0) =~= Seq::empty());
    }
}

proof fn lemma_fixed_function(state: CanonicalizerView, f: FunctionView)
    requires
        canonical_block(state.signatures, f.body),
    ensures
        reduced_function::<Canonicalizer>(state, f) == (state, Ok::<_, ReducerError>(f)),
{
    lemma_canonicalizer_keeps_leaves();
    lemma_kept_annotations::<Canonicalizer>(state, f.annotations, f.annotations.len());
    assert(f.annotations.take(f.annotations.len() as int) =~= f.annotations);
    lemma_kept_function_inputs::<Canonicalizer>(state, f.inputs, f.inputs.len());
    assert(f.inputs.take(f.inputs.len() as int) =~= f.inputs);
    lemma_kept_optional_type::<Canonicalizer>(state, f.output);
    lemma_fixed_block(state, f.body);
}

proof fn lemma_fixed_functions(state: CanonicalizerView, items: Seq<FunctionView>, n: nat)
    requires
        n <= items.len(),
        forall|i: int|
            0 <= i < items.len() ==> canonical_block(state.signatures, (#[trigger] items[i]).body),
    ensures
        reduced_functions::<Canonicalizer>(state, items, n) == (
            state,
            Ok::<_, ReducerError>(items.take(n as int)),
        ),
    decreases n,
{
    if n > 0 {
        lemma_fixed_functions(state, items, (n - 1) as nat);
        lemma_fixed_function(state, items[n - 1]);
        assert(items.take(n - 1).push(items[n - 1]) =~= items.take(n as int));
    } else {
        assert(items.take(0) =~= Seq::empty());
    }
}

proof fn lemma_fixed_circuit(state: CanonicalizerView, c: CircuitView)
    requires
        canonical_circuit(state.signatures, c),
    ensures
        reduced_circuit::<Canonicalizer>(state, c) == (state, Ok::<_, ReducerError>(c)),
{
    lemma_canonicalizer_keeps_leaves();
    lemma_kept_circuit_members::<Canonicalizer>(state, c.members, c.members.len());
    assert(c.members.take(c.members.len() as int) =~= c.members);
    lemma_fixed_functions(state, c.functions, c.functions.len());
    assert(c.functions.take(c.functions.len() as int) =~= c.functions);
}

proof fn lemma_fixed_circuits(state: CanonicalizerView, items: Seq<CircuitView>, n: nat)
    requires
        n <= items.len(),
        forall|i: int| 0 <= i < items.len() ==> canonical_circuit(state.signatures, #[trigger] items[i]),
    ensures
        reduced_circuits::<Canonicalizer>(state, items, n) == (
            state,
            Ok::<_, ReducerError>(items.take(n as int)),
        ),
    decreases n,
{
    if n > 0 {
        lemma_fixed_circuits(state, items, (n - 1) as nat);
        lemma_fixed_circuit(state, items[n - 1]);
        assert(items.take(n - 1).push(items[n - 1]) =~= items.take(n as int));
    } else {
        assert(items.take(0) =~= Seq::empty());
    }
}

proof fn lemma_fixed_definitions(state: CanonicalizerView, items: Seq<DefinitionView>, n: nat)
    requires
        n <= items.len(),
        forall|i: int|
            0 <= i < items.len() ==> canonical_definition(state.signatures, #[trigger] items[i]),
    ensures
        reduced_definitions::<Canonicalizer>(state, items, n) == (
            state,
            Ok::<_, ReducerError>(items.take(n as int)),
        ),
    decreases n,
{
    if n > 0 {
        lemma_fixed_definitions(state, items, (n - 1) as nat);
        lemma_fixed_definition(state, items[n - 1]);
        assert(items.take(n - 1).push(items[n - 1]) =~= items.take(n as int));
    } else {
        assert(items.take(0) =~= Seq::empty());
    }
}

/// The pass changes nothing about a program that is canonical with respect to the
/// signatures the pass holds: it returns the program as it is, nodes and spans
/// included, and takes no identifier from its supply.
pub proof fn lemma_canonical_program_is_fixed(state: CanonicalizerView, p: ProgramView)
    requires
        canonical_parts(state.signatures, p),
    ensures
        reduced_program::<Canonicalizer>(state, p) == (state, Ok::<_, ReducerError>(p)),
{
    lemma_canonicalizer_keeps_leaves();
    lemma_kept_imports::<Canonicalizer>(state, p.imports, p.imports.len());
    assert(p.imports.take(p.imports.len() as int) =~= p.imports);
    lemma_fixed_circuits(state, p.circuits, p.circuits.len());
    assert(p.circuits.take(p.circuits.len() as int) =~= p.circuits);
    lemma_fixed_functions(state, p.functions, p.functions.len());
    assert(p.functions.take(p.functions.len() as int) =~= p.functions);
    lemma_fixed_definitions(state, p.globals, p.globals.len());
    assert(p.globals.take(p.globals.len() as int) =~= p.globals);
    lemma_no_global_to_split(state, p.globals, p.globals.len());
}

/// The pass changes nothing about an expression or a statement that is canonical.
pub proof fn lemma_canonical_nodes_are_fixed(state: CanonicalizerView, e: ExpressionView, s: StatementView)
    ensures
        canonical_expression(e) ==> reduced_expression::<Canonicalizer>(state, e) == (
            state,
            Ok::<_, ReducerError>(e),
        ),
        canonical_statement(state.signatures, s) ==> reduced_statement::<Canonicalizer>(state, s) == (
            state,
            Ok::<_, ReducerError>(s),
        ),
{
    if canonical_expression(e) {
        lemma_fixed_expression(state, e);
    }
    if canonical_statement(state.signatures, s) {
        lemma_fixed_statement(state, s);
    }
}

} // verus!
