//! What the canonicalizer returns is canonical, and every construct stays where it was.

use vstd::prelude::*;
use crate::canonical::{
    canonical_block, canonical_circuit, canonical_definition, canonical_expression, canonical_parts,
    canonical_statement, lemma_canonicalizer_keeps_leaves,
};
use crate::canonicalizer::{
    as_statements, component, components, global_single_definitions, signatures_of,
    single_definitions, splits, tuple_width, with_single_definitions, Canonicalizer,
    CanonicalizerView, SignatureView,
};
use crate::director::{
    reduced_block, reduced_circuit, reduced_circuits, reduced_definition, reduced_definitions,
    reduced_expression, reduced_expressions, reduced_function, reduced_functions, reduced_member_init,
    reduced_member_inits, reduced_program, reduced_statement, reduced_statements,
};
use crate::errors::ReducerError;
use crate::expression::{ExpressionKindView, ExpressionView, MemberInitView};
use crate::identities::{fresh_copy, Renumber};
use crate::leaves::{
    lemma_kept_annotations, lemma_kept_bindings, lemma_kept_circuit_members,
    lemma_kept_function_inputs, lemma_kept_imports, lemma_kept_optional_type,
};
use crate::literals::lemma_canonical_literal_is_stable;
use crate::program::{circuit_names, function_names, CircuitView, FunctionView, ProgramView};
use crate::statements::{BlockView, DefinitionView, StatementView};

verus! {

proof fn lemma_copy_is_canonical(next: Option<u64>, e: ExpressionView)
    requires
        canonical_expression(e),
    ensures
        fresh_copy(next, e).1 is Ok ==> canonical_expression(fresh_copy(next, e).1->Ok_0),
    decreases e, 0nat,
{
    match e.kind {
        ExpressionKindView::Literal(_) => {},
        ExpressionKindView::Identifier(_) => {},
        ExpressionKindView::Unary { operand, .. } => {
            lemma_copy_is_canonical(next, *operand);
        },
        ExpressionKindView::Binary { left, right, .. } => {
            lemma_copy_is_canonical(next, *left);
            let a = reduced_expression::<Renumber>(next, *left);
            lemma_copy_is_canonical(a.0, *right);
        },
        ExpressionKindView::Ternary { condition, if_true, if_false } => {
            lemma_copy_is_canonical(next, *condition);
            let a = reduced_expression::<Renumber>(next, *condition);
            lemma_copy_is_canonical(a.0, *if_true);
            let b = reduced_expression::<Renumber>(a.0, *if_true);
            lemma_copy_is_canonical(b.0, *if_false);
        },
        ExpressionKindView::Call { arguments, .. } => {
            lemma_copies_are_canonical(next, arguments, arguments.len());
        },
        ExpressionKindView::Array(elements) => {
            lemma_copies_are_canonical(next, elements, elements.len());
        },
        ExpressionKindView::Tuple(elements) => {
            lemma_copies_are_canonical(next, elements, elements.len());
        },
        ExpressionKindView::Circuit { members, .. } => {
            lemma_member_copies_are_canonical(next, members, members.len());
        },
        ExpressionKindView::Index { array, index } => {
            lemma_copy_is_canonical(next, *array);
            let a = reduced_expression::<Renumber>(next, *array);
            lemma_copy_is_canonical(a.0, *index);
        },
        ExpressionKindView::Member { object, .. } => {
            lemma_copy_is_canonical(next, *object);
        },
        ExpressionKindView::TupleAccess { tuple, .. } => {
            lemma_copy_is_canonical(next, *tuple);
        },
        ExpressionKindView::ImplicitMember { .. } => {},
        ExpressionKindView::Cast { operand, .. } => {
            lemma_copy_is_canonical(next, *operand);
        },
    }
}

proof fn lemma_copies_are_canonical(next: Option<u64>, items: Seq<ExpressionView>, n: nat)
    requires
        n <= items.len(),
        forall|i: int| 0 <= i < items.len() ==> canonical_expression(#[trigger] items[i]),
    ensures
        ({
            let r = reduced_expressions::<Renumber>(next, items, n);
            r.1 is Ok ==> r.1->Ok_0.len() == n && forall|i: int|
                0 <= i < n ==> canonical_expression(#[trigger] r.1->Ok_0[i])
        }),
    decreases items, n,
{
    if n > 0 {
        lemma_copies_are_canonical(next, items, (n - 1) as nat);
        let before = reduced_expressions::<Renumber>(next, items, (n - 1) as nat);
        lemma_copy_is_canonical(before.0, items[n - 1]);
    }
}

proof fn lemma_member_copies_are_canonical(next: Option<u64>, items: Seq<MemberInitView>, n: nat)
    requires
        n <= items.len(),
        forall|i: int| 0 <= i < items.len() ==> canonical_expression((#[trigger] items[i]).value),
    ensures
        ({
            let r = reduced_member_inits::<Renumber>(next, items, n);
            r.1 is Ok ==> r.1->Ok_0.len() == n && forall|i: int|
                0 <= i < n ==> canonical_expression((#[trigger] r.1->Ok_0[i]).value)
        }),
    decreases items, n,
{
    if n > 0 {
        lemma_member_copies_are_canonical(next, items, (n - 1) as nat);
        let before = reduced_member_inits::<Renumber>(next, items, (n - 1) as nat);
        lemma_copy_is_canonical(before.0, items[n - 1].value);
        let last = reduced_member_init::<Renumber>(before.0, items[n - 1]);
        assert(last.1 is Ok ==> canonical_expression(last.1->Ok_0.value));
    }
}

/// What holds of the result `r` of canonicalizing the expression `e` in `state`: the
/// signatures are the same, and the expression returned is canonical and has the
/// identity of `e`.
pub open spec fn normal_expression(
    state: CanonicalizerView,
    e: ExpressionView,
    r: (CanonicalizerView, Result<ExpressionView, ReducerError>),
) -> bool {
    &&& r.0.signatures == state.signatures
    &&& r.1 is Ok ==> canonical_expression(r.1->Ok_0) && r.1->Ok_0.node == e.node
}

proof fn lemma_normal_expression(state: CanonicalizerView, e: ExpressionView)
    ensures
        normal_expression(state, e, reduced_expression::<Canonicalizer>(state, e)),
    decreases e, 0nat,
{
    match e.kind {
        ExpressionKindView::Literal(l) => {
            if crate::literals::canonical_literal(l) is Some {
                lemma_canonical_literal_is_stable(l);
            }
        },
        ExpressionKindView::Identifier(_) => {},
        ExpressionKindView::Unary { operand, .. } => {
            lemma_normal_expression(state, *operand);
        },
        ExpressionKindView::Binary { left, right, .. } => {
            lemma_normal_expression(state, *left);
            let a = reduced_expression::<Canonicalizer>(state, *left);
            lemma_normal_expression(a.0, *right);
        },
        ExpressionKindView::Ternary { condition, if_true, if_false } => {
            lemma_normal_expression(state, *condition);
            let a = reduced_expression::<Canonicalizer>(state, *condition);
            lemma_normal_expression(a.0, *if_true);
            let b = reduced_expression::<Canonicalizer>(a.0, *if_true);
            lemma_normal_expression(b.0, *if_false);
        },
        ExpressionKindView::Call { arguments, .. } => {
            lemma_normal_expressions(state, arguments, arguments.len());
        },
        ExpressionKindView::Array(elements) => {
            lemma_normal_expressions(state, elements, elements.len());
        },
        ExpressionKindView::Tuple(elements) => {
            lemma_normal_expressions(state, elements, elements.len());
        },
        ExpressionKindView::Circuit { members, .. } => {
            lemma_normal_member_inits(state, members, members.len());
        },
        ExpressionKindView::Index { array, index } => {
            lemma_normal_expression(state, *array);
            let a = reduced_expression::<Canonicalizer>(state, *array);
            lemma_normal_expression(a.0, *index);
        },
        ExpressionKindView::Member { object, .. } => {
            lemma_normal_expression(state, *object);
        },
        ExpressionKindView::TupleAccess { tuple, .. } => {
            lemma_normal_expression(state, *tuple);
        },
        ExpressionKindView::ImplicitMember { .. } => {
            let r = reduced_expression::<Canonicalizer>(state, e);
            if r.1 is Ok {
                assert(canonical_expression(*r.1->Ok_0.kind->object));
            }
        },
        ExpressionKindView::Cast { operand, .. } => {
            lemma_normal_expression(state, *operand);
        },
    }
}

proof fn lemma_normal_expressions(state: CanonicalizerView, items: Seq<ExpressionView>, n: nat)
    requires
        n <= items.len(),
    ensures
        ({
            let r = reduced_expressions::<Canonicalizer>(state, items, n);
            &&& r.0.signatures == state.signatures
            &&& r.1 is Ok ==> r.1->Ok_0.len() == n && forall|i: int|
                0 <= i < n ==> canonical_expression(#[trigger] r.1->Ok_0[i]) && r.1->Ok_0[i].node
                    == items[i].node
        }),
    decreases items, n,
{
    if n > 0 {
        lemma_normal_expressions(state, items, (n - 1) as nat);
        let before = reduced_expressions::<Canonicalizer>(state, items, (n - 1) as nat);
        lemma_normal_expression(before.0, items[n - 1]);
    }
}

proof fn lemma_normal_member_inits(state: CanonicalizerView, items: Seq<MemberInitView>, n: nat)
    requires
        n <= items.len(),
    ensures
        ({
            let r = reduced_member_inits::<Canonicalizer>(state, items, n);
            &&& r.0.signatures == state.signatures
            &&& r.1 is Ok ==> r.1->Ok_0.len() == n && forall|i: int|
                0 <= i < n ==> canonical_expression((#[trigger] r.1->Ok_0[i]).value)
        }),
    decreases items, n,
{
    if n > 0 {
        lemma_normal_member_inits(state, items, (n - 1) as nat);
        let before = reduced_member_inits::<Canonicalizer>(state, items, (n - 1) as nat);
        lemma_normal_expression(before.0, items[n - 1].value);
        let last = reduced_member_init::<Canonicalizer>(before.0, items[n - 1]);
        assert(last.0.signatures == state.signatures);
        assert(last.1 is Ok ==> canonical_expression(last.1->Ok_0.value));
    }
}

/// What holds of the result `r` of canonicalizing the definition `d` in `state`,
/// before the pass has looked at whether to split it.
pub open spec fn normal_definition(
    state: CanonicalizerView,
    d: DefinitionView,
    r: (CanonicalizerView, Result<DefinitionView, ReducerError>),
) -> bool {
    &&& r.0.signatures == state.signatures
    &&& r.1 is Ok ==> {
        &&& canonical_expression(r.1->Ok_0.value)
        &&& r.1->Ok_0.node == d.node
        &&& r.1->Ok_0.bindings == d.bindings
        &&& r.1->Ok_0.mutable == d.mutable
    }
}

proof fn lemma_normal_definition(state: CanonicalizerView, d: DefinitionView)
    ensures
        normal_definition(state, d, reduced_definition::<Canonicalizer>(state, d)),
{
    lemma_canonicalizer_keeps_leaves();
    lemma_kept_bindings::<Canonicalizer>(state, d.bindings, d.bindings.len());
    assert(d.bindings.take(d.bindings.len() as int) =~= d.bindings);
    lemma_normal_expression(state, d.value);
}

proof fn lemma_normal_components(state: CanonicalizerView, d: DefinitionView, n: nat)
    requires
        canonical_expression(d.value),
        n <= d.bindings.len(),
        d.value.kind is Tuple ==> d.value.kind->Tuple_0.len() == d.bindings.len(),
    ensures
        ({
            let r = components(state, d, n);
            &&& r.0.signatures == state.signatures
            &&& r.1 is Ok ==> r.1->Ok_0.len() == n && forall|i: int|
                0 <= i < n ==> {
                    &&& canonical_expression((#[trigger] r.1->Ok_0[i]).value)
                    &&& r.1->Ok_0[i].bindings.len() == 1
                    &&& r.1->Ok_0[i].node.span == d.node.span
                }
        }),
    decreases n,
{
    if n > 0 {
        lemma_normal_components(state, d, (n - 1) as nat);
        let before = components(state, d, (n - 1) as nat);
        if before.1 is Ok {
            let last = component(before.0, d, n - 1);
            let m = crate::identities::minted(before.0.next, d.node.span);
            match d.value.kind {
                ExpressionKindView::Tuple(elements) => {
                    assert(canonical_expression(elements[n - 1]));
                },
                _ => {
                    if m.1 is Ok {
                        lemma_copy_is_canonical(m.0, d.value);
                    }
                },
            }
            assert(last.0.signatures == state.signatures);
            assert(last.1 is Ok ==> canonical_expression(last.1->Ok_0.value) && last.1->Ok_0.bindings.len()
                == 1 && last.1->Ok_0.node.span == d.node.span);
        }
    }
}

proof fn lemma_normal_single_definitions(state: CanonicalizerView, d: DefinitionView)
    requires
        canonical_expression(d.value),
    ensures
        ({
            let r = single_definitions(state, d);
            &&& r.0.signatures == state.signatures
            &&& r.1 is Ok ==> forall|i: int|
                0 <= i < r.1->Ok_0.len() ==> {
                    &&& canonical_definition(state.signatures, #[trigger] r.1->Ok_0[i])
                    &&& r.1->Ok_0[i].node.span == d.node.span
                }
        }),
{
    if splits(state.signatures, d) && tuple_width(state.signatures, d.value)->Some_0
        == d.bindings.len() {
        lemma_normal_components(state, d, d.bindings.len());
    }
}

/// A statement as the traversal hands it to the block around it: canonical, but for
/// a definition, which the block may still have to split.
pub open spec fn settled_statement(signatures: Seq<SignatureView>, s: StatementView) -> bool {
    match s {
        StatementView::Definition(d) => canonical_expression(d.value),
        _ => canonical_statement(signatures, s),
    }
}

proof fn lemma_normal_split(state: CanonicalizerView, items: Seq<StatementView>, n: nat)
    requires
        n <= items.len(),
        forall|i: int| 0 <= i < items.len() ==> settled_statement(state.signatures, #[trigger] items[i]),
    ensures
        ({
            let r = with_single_definitions(state, items, n);
            &&& r.0.signatures == state.signatures
            &&& r.1 is Ok ==> forall|i: int|
                0 <= i < r.1->Ok_0.len() ==> canonical_statement(
                    state.signatures,
                    #[trigger] r.1->Ok_0[i],
                )
        }),
    decreases n,
{
    if n > 0 {
        lemma_normal_split(state, items, (n - 1) as nat);
        let before = with_single_definitions(state, items, (n - 1) as nat);
        let last = items[n - 1];
        assert(settled_statement(state.signatures, last));
        if before.1 is Ok {
            match last {
                StatementView::Definition(d) => {
                    lemma_normal_single_definitions(before.0, d);
                    let parts = single_definitions(before.0, d);
                    if parts.1 is Ok {
                        let added = as_statements(parts.1->Ok_0);
                        let out = before.1->Ok_0 + added;
                        assert forall|i: int| 0 <= i < out.len() implies canonical_statement(
                            state.signatures,
                            #[trigger] out[i],
                        ) by {
                            if i >= before.1->Ok_0.len() {
                                let j = i - before.1->Ok_0.len();
                                assert(out[i] == added[j]);
                                assert(canonical_definition(state.signatures, parts.1->Ok_0[j]));
                            }
                        }
                    }
                },
                _ => {},
            }
        }
    }
}

proof fn lemma_normal_global_split(state: CanonicalizerView, items: Seq<DefinitionView>, n: nat)
    requires
        n <= items.len(),
        forall|i: int| 0 <= i < items.len() ==> canonical_expression((#[trigger] items[i]).value),
    ensures
        ({
            let r = global_single_definitions(state, items, n);
            &&& r.0.signatures == state.signatures
            &&& r.1 is Ok ==> forall|i: int|
                0 <= i < r.1->Ok_0.len() ==> canonical_definition(
                    state.signatures,
                    #[trigger] r.1->Ok_0[i],
                )
        }),
    decreases n,
{
    if n > 0 {
        lemma_normal_global_split(state, items, (n - 1) as nat);
        let before = global_single_definitions(state, items, (n - 1) as nat);
        let d = items[n - 1];
        assert(canonical_expression(d.value));
        if before.1 is Ok {
            lemma_normal_single_definitions(before.0, d);
            let parts = single_definitions(before.0, d);
            if parts.1 is Ok {
                let out = before.1->Ok_0 + parts.1->Ok_0;
                assert forall|i: int| 0 <= i < out.len() implies canonical_definition(
                    state.signatures,
                    #[trigger] out[i],
                ) by {
                    if i >= before.1->Ok_0.len() {
                        let j = i - before.1->Ok_0.len();
                        assert(out[i] == parts.1->Ok_0[j]);
                    }
                }
            }
        }
    }
}

/// What holds of the result `r` of canonicalizing the statement `s` in `state`.
pub open spec fn normal_statement(
    state: CanonicalizerView,
    s: StatementView,
    r: (CanonicalizerView, Result<StatementView, ReducerError>),
) -> bool {
    &&& r.0.signatures == state.signatures
    &&& r.1 is Ok ==> settled_statement(state.signatures, r.1->Ok_0) && r.1->Ok_0.node() == s.node()
}

/// What holds of the result `r` of canonicalizing the block `b` in `state`.
pub open spec fn normal_block(
    state: CanonicalizerView,
    b: BlockView,
    r: (CanonicalizerView, Result<BlockView, ReducerError>),
) -> bool {
    &&& r.0.signatures == state.signatures
    &&& r.1 is Ok ==> canonical_block(state.signatures, r.1->Ok_0) && r.1->Ok_0.node == b.node
}

proof fn lemma_normal_statement(state: CanonicalizerView, s: StatementView)
    ensures
        normal_statement(state, s, reduced_statement::<Canonicalizer>(state, s)),
    decreases s, 0nat,
{
    match s {
        StatementView::Return { value, .. } => {
            lemma_normal_expression(state, value);
        },
        StatementView::Definition(d) => {
            lemma_normal_definition(state, d);
        },
        StatementView::Assign { target, value, operation, .. } => {
            lemma_normal_expression(state, target);
            let a = reduced_expression::<Canonicalizer>(state, target);
            lemma_normal_expression(a.0, value);
            let b = reduced_expression::<Canonicalizer>(a.0, value);
            if a.1 is Ok && b.1 is Ok {
                lemma_copy_is_canonical(b.0.next, a.1->Ok_0);
                let r = reduced_statement::<Canonicalizer>(state, s);
                if r.1 is Ok && operation is Some {
                    assert(canonical_expression(r.1->Ok_0->Assign_value));
                }
            }
        },
        StatementView::Conditional { condition, then_block, otherwise, .. } => {
            lemma_normal_expression(state, condition);
            let a = reduced_expression::<Canonicalizer>(state, condition);
            lemma_normal_block(a.0, then_block);
            let b = reduced_block::<Canonicalizer>(a.0, then_block);
            match otherwise {
                None => {},
                Some(next) => {
                    lemma_normal_statement(b.0, *next);
                    let c = reduced_statement::<Canonicalizer>(b.0, *next);
                    if a.1 is Ok && b.1 is Ok && c.1 is Ok {
                        let following = c.1->Ok_0;
                        if !(following is Block) {
                            let one = seq![following];
                            assert forall|i: int| 0 <= i < one.len() implies settled_statement(
                                c.0.signatures,
                                #[trigger] one[i],
                            ) by {}
                            lemma_normal_split(c.0, one, 1);
                        }
                        let r = reduced_statement::<Canonicalizer>(state, s);
                        if r.1 is Ok {
                            assert(canonical_statement(state.signatures, *r.1->Ok_0->otherwise->Some_0));
                        }
                    }
                },
            }
        },
        StatementView::Iteration { start, stop, body, .. } => {
            lemma_normal_expression(state, start);
            let a = reduced_expression::<Canonicalizer>(state, start);
            lemma_normal_expression(a.0, stop);
            let b = reduced_expression::<Canonicalizer>(a.0, stop);
            lemma_normal_block(b.0, body);
        },
        StatementView::Expression { expression, .. } => {
            lemma_normal_expression(state, expression);
        },
        StatementView::Block(b) => {
            lemma_normal_block(state, b);
        },
    }
}

proof fn lemma_normal_block(state: CanonicalizerView, b: BlockView)
    ensures
        normal_block(state, b, reduced_block::<Canonicalizer>(state, b)),
    decreases b, 0nat,
{
    lemma_normal_statements(state, b.statements, b.statements.len());
    let a = reduced_statements::<Canonicalizer>(state, b.statements, b.statements.len());
    if a.1 is Ok {
        lemma_normal_split(a.0, a.1->Ok_0, a.1->Ok_0.len());
    }
}

proof fn lemma_normal_statements(state: CanonicalizerView, items: Seq<StatementView>, n: nat)
    requires
        n <= items.len(),
    ensures
        ({
            let r = reduced_statements::<Canonicalizer>(state, items, n);
            &&& r.0.signatures == state.signatures
            &&& r.1 is Ok ==> r.1->Ok_0.len() == n && forall|i: int|
                0 <= i < n ==> settled_statement(state.signatures, #[trigger] r.1->Ok_0[i])
                    && r.1->Ok_0[i].node() == items[i].node()
        }),
    decreases items, n,
{
    if n > 0 {
        lemma_normal_statements(state, items, (n - 1) as nat);
        let before = reduced_statements::<Canonicalizer>(state, items, (n - 1) as nat);
        lemma_normal_statement(before.0, items[n - 1]);
    }
}

/// What holds of the result `r` of canonicalizing the function `f` in `state`.
pub open spec fn normal_function(
    state: CanonicalizerView,
    f: FunctionView,
    r: (CanonicalizerView, Result<FunctionView, ReducerError>),
) -> bool {
    &&& r.0.signatures == state.signatures
    &&& r.1 is Ok ==> {
        &&& canonical_block(state.signatures, r.1->Ok_0.body)
        &&& r.1->Ok_0.node == f.node
        &&& r.1->Ok_0.name == f.name
        &&& r.1->Ok_0.output == f.output
        &&& r.1->Ok_0.inputs == f.inputs
        &&& r.1->Ok_0.annotations == f.annotations
    }
}

proof fn lemma_normal_function(state: CanonicalizerView, f: FunctionView)
    ensures
        normal_function(state, f, reduced_function::<Canonicalizer>(state, f)),
{
    lemma_canonicalizer_keeps_leaves();
    lemma_kept_annotations::<Canonicalizer>(state, f.annotations, f.annotations.len());
    assert(f.annotations.take(f.annotations.len() as int) =~= f.annotations);
    lemma_kept_function_inputs::<Canonicalizer>(state, f.inputs, f.inputs.len());
    assert(f.inputs.take(f.inputs.len() as int) =~= f.inputs);
    lemma_kept_optional_type::<Canonicalizer>(state, f.output);
    lemma_normal_block(state, f.body);
}

proof fn lemma_normal_functions(state: CanonicalizerView, items: Seq<FunctionView>, n: nat)
    requires
        n <= items.len(),
    ensures
        ({
            let r = reduced_functions::<Canonicalizer>(state, items, n);
            &&& r.0.signatures == state.signatures
            &&& r.1 is Ok ==> r.1->Ok_0.len() == n && forall|i: int|
                0 <= i < n ==> {
                    &&& canonical_block(state.signatures, (#[trigger] r.1->Ok_0[i]).body)
                    &&& r.1->Ok_0[i].node == items[i].node
                    &&& r.1->Ok_0[i].name == items[i].name
                    &&& r.1->Ok_0[i].output == items[i].output
                }
        }),
    decreases n,
{
    if n > 0 {
        lemma_normal_functions(state, items, (n - 1) as nat);
        let before = reduced_functions::<Canonicalizer>(state, items, (n - 1) as nat);
        lemma_normal_function(before.0, items[n - 1]);
    }
}

proof fn lemma_normal_circuit(state: CanonicalizerView, c: CircuitView)
    ensures
        ({
            let r = reduced_circuit::<Canonicalizer>(state, c);
            &&& r.0.signatures == state.signatures
            &&& r.1 is Ok ==> canonical_circuit(state.signatures, r.1->Ok_0) && r.1->Ok_0.node == c.node
                && r.1->Ok_0.name == c.name
        }),
{
    lemma_canonicalizer_keeps_leaves();
    lemma_kept_circuit_members::<Canonicalizer>(state, c.members, c.members.len());
    lemma_normal_functions(state, c.functions, c.functions.len());
}

proof fn lemma_normal_circuits(state: CanonicalizerView, items: Seq<CircuitView>, n: nat)
    requires
        n <= items.len(),
    ensures
        ({
            let r = reduced_circuits::<Canonicalizer>(state, items, n);
            &&& r.0.signatures == state.signatures
            &&& r.1 is Ok ==> r.1->Ok_0.len() == n && forall|i: int|
                0 <= i < n ==> {
                    &&& canonical_circuit(state.signatures, #[trigger] r.1->Ok_0[i])
                    &&& r.1->Ok_0[i].node == items[i].node
                    &&& r.1->Ok_0[i].name == items[i].name
                }
        }),
    decreases n,
{
    if n > 0 {
        lemma_normal_circuits(state, items, (n - 1) as nat);
        let before = reduced_circuits::<Canonicalizer>(state, items, (n - 1) as nat);
        lemma_normal_circuit(before.0, items[n - 1]);
    }
}

proof fn lemma_normal_definitions(state: CanonicalizerView, items: Seq<DefinitionView>, n: nat)
    requires
        n <= items.len(),
    ensures
        ({
            let r = reduced_definitions::<Canonicalizer>(state, items, n);
            &&& r.0.signatures == state.signatures
            &&& r.1 is Ok ==> r.1->Ok_0.len() == n && forall|i: int|
                0 <= i < n ==> canonical_expression((#[trigger] r.1->Ok_0[i]).value)
        }),
    decreases n,
{
    if n > 0 {
        lemma_normal_definitions(state, items, (n - 1) as nat);
        let before = reduced_definitions::<Canonicalizer>(state, items, (n - 1) as nat);
        lemma_normal_definition(before.0, items[n - 1]);
    }
}

/// What the pass returns for a program is canonical with respect to the signatures
/// the pass holds, and declares the circuits and functions that the program declares,
/// under the same names and with the same signatures.
pub proof fn lemma_reduced_program_is_canonical(state: CanonicalizerView, p: ProgramView)
    ensures
        ({
            let r = reduced_program::<Canonicalizer>(state, p);
            &&& r.0.signatures == state.signatures
            &&& r.1 is Ok ==> {
                &&& canonical_parts(state.signatures, r.1->Ok_0)
                &&& signatures_of(r.1->Ok_0.functions) == signatures_of(p.functions)
                &&& function_names(r.1->Ok_0.functions) == function_names(p.functions)
                &&& circuit_names(r.1->Ok_0.circuits) == circuit_names(p.circuits)
            }
        }),
{
    lemma_canonicalizer_keeps_leaves();
    lemma_kept_imports::<Canonicalizer>(state, p.imports, p.imports.len());
    lemma_normal_circuits(state, p.circuits, p.circuits.len());
    let b = reduced_circuits::<Canonicalizer>(state, p.circuits, p.circuits.len());
    lemma_normal_functions(b.0, p.functions, p.functions.len());
    let c = reduced_functions::<Canonicalizer>(b.0, p.functions, p.functions.len());
    lemma_normal_definitions(c.0, p.globals, p.globals.len());
    let d = reduced_definitions::<Canonicalizer>(c.0, p.globals, p.globals.len());
    if b.1 is Ok && c.1 is Ok && d.1 is Ok {
        lemma_normal_global_split(d.0, d.1->Ok_0, d.1->Ok_0.len());
        let r = reduced_program::<Canonicalizer>(state, p);
        if r.1 is Ok {
            let q = r.1->Ok_0;
            assert(q.functions == c.1->Ok_0);
            assert(q.circuits == b.1->Ok_0);
            assert(signatures_of(q.functions) =~= signatures_of(p.functions));
            assert(function_names(q.functions) =~= function_names(p.functions));
            assert(circuit_names(q.circuits) =~= circuit_names(p.circuits));
        }
    }
}

/// The canonicalizer leaves every construct where it was: the expression, statement,
/// block or function that it returns in place of one has the identifier and the span
/// of the one it was given, whether a rule has rewritten it or not.
pub proof fn lemma_canonicalization_keeps_identities(
    state: CanonicalizerView,
    e: ExpressionView,
    s: StatementView,
    b: BlockView,
    f: FunctionView,
)
    ensures
        ({
            let r = reduced_expression::<Canonicalizer>(state, e);
            r.1 is Ok ==> r.1->Ok_0.node == e.node
        }),
        ({
            let r = reduced_statement::<Canonicalizer>(state, s);
            r.1 is Ok ==> r.1->Ok_0.node() == s.node()
        }),
        ({
            let r = reduced_block::<Canonicalizer>(state, b);
            r.1 is Ok ==> r.1->Ok_0.node == b.node
        }),
        ({
            let r = reduced_function::<Canonicalizer>(state, f);
            r.1 is Ok ==> r.1->Ok_0.node == f.node
        }),
{
    lemma_normal_expression(state, e);
    lemma_normal_statement(state, s);
    lemma_normal_block(state, b);
    lemma_normal_function(state, f);
}

/// The definitions that take the place of a definition all stand at its span.
pub proof fn lemma_single_definitions_keep_span(state: CanonicalizerView, d: DefinitionView)
    requires
        canonical_expression(d.value),
    ensures
        ({
            let r = single_definitions(state, d);
            r.1 is Ok ==> forall|i: int|
                0 <= i < r.1->Ok_0.len() ==> (#[trigger] r.1->Ok_0[i]).node.span == d.node.span
        }),
{
    lemma_normal_single_definitions(state, d);
}

} // verus!
