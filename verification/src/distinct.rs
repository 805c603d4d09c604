//! Canonicalization keeps the identifiers of a tree distinct.
//!
//! A node that the pass rebuilds keeps its identifier, and a node that the pass adds
//! takes the next identifier of a supply that begins above every identifier of the
//! tree. So an identifier occurs in the canonical tree at most as often as it did
//! before, or once if it came from the supply.

use vstd::prelude::*;
use crate::canonical::lemma_canonicalizer_keeps_leaves;
use crate::ast::canonical_form;
use crate::canonicalizer::{
    as_statements, component, components, global_single_definitions, initial_state,
    single_definitions, splits, with_single_definitions, Canonicalizer, CanonicalizerView,
};
use crate::director::{
    reduced_annotation, reduced_annotations, reduced_binding, reduced_bindings, reduced_block,
    reduced_circuit, reduced_circuit_member, reduced_circuit_members, reduced_circuits,
    reduced_definition, reduced_definitions, reduced_expression, reduced_expressions,
    reduced_function, reduced_function_input, reduced_function_inputs, reduced_functions,
    reduced_import, reduced_imports, reduced_member_init, reduced_member_inits, reduced_program,
    reduced_statement, reduced_statements,
};
use crate::errors::ReducerError;
use crate::expression::{ExpressionKindView, ExpressionView, MemberInitView};
use crate::identifiers::{
    counts_in_annotations, counts_in_bindings, counts_in_circuit_members, counts_in_circuits,
    counts_in_definitions, counts_in_expressions, counts_in_function_inputs, counts_in_functions,
    all_different, count, counts_in_imports, counts_in_member_inits, counts_in_statements,
    distinct_identifiers, lemma_count_push, lemma_sum_add, lemma_sum_push, lemma_sum_take, occurrences_in_block, occurrences_in_circuit,
    occurrences_in_definition, occurrences_in_expression, occurrences_in_function,
    occurrences_in_program, occurrences_in_statement, one, sum,
};
use crate::identities::{
    fresh_copy, identifiers, identifiers_of, minted, unused_identities, Collect, IdentityScan, Renumber,
};
use crate::leaves::{
    lemma_kept_annotations, lemma_kept_bindings, lemma_kept_circuit_members,
    lemma_kept_function_inputs, lemma_kept_imports, lemma_kept_optional_type,
};
use crate::program::{
    AnnotationView, CircuitMemberView, CircuitView, FunctionInputView, FunctionView, ImportView,
    Program, ProgramView,
};
use crate::statements::{BindingView, BlockView, DefinitionView, StatementView};

verus! {

/// The bound of a supply of identifiers: the next identifier that it gives out, or
/// one more than the greatest identifier where it gives out none.
pub open spec fn bound(next: Option<u64>) -> int {
    match next {
        Some(n) => n as int,
        None => u64::MAX + 1,
    }
}

/// One if the identifier `v` was given out between the supply `lo` and the later
/// supply `hi`, else zero.
pub open spec fn fresh(lo: Option<u64>, hi: Option<u64>, v: u64) -> nat {
    if bound(lo) <= v < bound(hi) {
        1
    } else {
        0
    }
}

proof fn lemma_copy_counts(next: Option<u64>, e: ExpressionView, v: u64)
    ensures
        ({
            let r = fresh_copy(next, e);
            r.1 is Ok ==> bound(next) <= bound(r.0) && occurrences_in_expression(r.1->Ok_0, v)
                <= fresh(next, r.0, v)
        }),
    decreases e, 0nat,
{
    match e.kind {
        ExpressionKindView::Literal(_) => {},
        ExpressionKindView::Identifier(_) => {},
        ExpressionKindView::Unary { operand, .. } => {
            lemma_copy_counts(next, *operand, v);
        },
        ExpressionKindView::Binary { left, right, .. } => {
            lemma_copy_counts(next, *left, v);
            let a = reduced_expression::<Renumber>(next, *left);
            lemma_copy_counts(a.0, *right, v);
        },
        ExpressionKindView::Ternary { condition, if_true, if_false } => {
            lemma_copy_counts(next, *condition, v);
            let a = reduced_expression::<Renumber>(next, *condition);
            lemma_copy_counts(a.0, *if_true, v);
            let b = reduced_expression::<Renumber>(a.0, *if_true);
            lemma_copy_counts(b.0, *if_false, v);
        },
        ExpressionKindView::Call { arguments, .. } => {
            lemma_expressions_copy_counts(next, arguments, arguments.len(), v);
        },
        ExpressionKindView::Array(elements) => {
            lemma_expressions_copy_counts(next, elements, elements.len(), v);
        },
        ExpressionKindView::Tuple(elements) => {
            lemma_expressions_copy_counts(next, elements, elements.len(), v);
        },
        ExpressionKindView::Circuit { members, .. } => {
            lemma_member_inits_copy_counts(next, members, members.len(), v);
        },
        ExpressionKindView::Index { array, index } => {
            lemma_copy_counts(next, *array, v);
            let a = reduced_expression::<Renumber>(next, *array);
            lemma_copy_counts(a.0, *index, v);
        },
        ExpressionKindView::Member { object, .. } => {
            lemma_copy_counts(next, *object, v);
        },
        ExpressionKindView::TupleAccess { tuple, .. } => {
            lemma_copy_counts(next, *tuple, v);
        },
        ExpressionKindView::ImplicitMember { .. } => {},
        ExpressionKindView::Cast { operand, .. } => {
            lemma_copy_counts(next, *operand, v);
        },
    }
}

proof fn lemma_expressions_copy_counts(next: Option<u64>, items: Seq<ExpressionView>, n: nat, v: u64)
    requires
        n <= items.len(),
    ensures
        ({
            let r = reduced_expressions::<Renumber>(next, items, n);
            r.1 is Ok ==> bound(next) <= bound(r.0) && r.1->Ok_0.len() == n && sum(
                counts_in_expressions(r.1->Ok_0, v),
            ) <= fresh(next, r.0, v)
        }),
    decreases items, n,
{
    if n > 0 {
        lemma_expressions_copy_counts(next, items, (n - 1) as nat, v);
        let before = reduced_expressions::<Renumber>(next, items, (n - 1) as nat);
        if before.1 is Ok {
            lemma_copy_counts(before.0, items[n - 1], v);
            let last = reduced_expression::<Renumber>(before.0, items[n - 1]);
            if last.1 is Ok {
                let done = counts_in_expressions(before.1->Ok_0, v);
                let out = before.1->Ok_0.push(last.1->Ok_0);
                assert(counts_in_expressions(out, v) =~= done.push(counts_in_expressions(out, v)[n - 1]));
                lemma_sum_push(done, counts_in_expressions(out, v)[n - 1]);
            }
        }
    } else {
        assert(counts_in_expressions(Seq::empty(), v) =~= Seq::empty());
    }
}

proof fn lemma_member_inits_copy_counts(next: Option<u64>, items: Seq<MemberInitView>, n: nat, v: u64)
    requires
        n <= items.len(),
    ensures
        ({
            let r = reduced_member_inits::<Renumber>(next, items, n);
            r.1 is Ok ==> bound(next) <= bound(r.0) && r.1->Ok_0.len() == n && sum(
                counts_in_member_inits(r.1->Ok_0, v),
            ) <= fresh(next, r.0, v)
        }),
    decreases items, n,
{
    if n > 0 {
        lemma_member_inits_copy_counts(next, items, (n - 1) as nat, v);
        let before = reduced_member_inits::<Renumber>(next, items, (n - 1) as nat);
        if before.1 is Ok {
            lemma_copy_counts(before.0, items[n - 1].value, v);
            let last = reduced_member_init::<Renumber>(before.0, items[n - 1]);
            if last.1 is Ok {
                let done = counts_in_member_inits(before.1->Ok_0, v);
                let out = before.1->Ok_0.push(last.1->Ok_0);
                assert(counts_in_member_inits(out, v) =~= done.push(counts_in_member_inits(out, v)[n - 1]));
                lemma_sum_push(done, counts_in_member_inits(out, v)[n - 1]);
            }
        }
    } else {
        assert(counts_in_member_inits(Seq::empty(), v) =~= Seq::empty());
    }
}

proof fn lemma_expression_counts(state: CanonicalizerView, e: ExpressionView, v: u64)
    ensures
        ({
            let r = reduced_expression::<Canonicalizer>(state, e);
            r.1 is Ok ==> bound(state.next) <= bound(r.0.next) && occurrences_in_expression(
                r.1->Ok_0,
                v,
            ) <= occurrences_in_expression(e, v) + fresh(state.next, r.0.next, v)
        }),
    decreases e, 0nat,
{
    match e.kind {
        ExpressionKindView::Literal(_) => {},
        ExpressionKindView::Identifier(_) => {},
        ExpressionKindView::Unary { operand, .. } => {
            lemma_expression_counts(state, *operand, v);
        },
        ExpressionKindView::Binary { left, right, .. } => {
            lemma_expression_counts(state, *left, v);
            let a = reduced_expression::<Canonicalizer>(state, *left);
            lemma_expression_counts(a.0, *right, v);
        },
        ExpressionKindView::Ternary { condition, if_true, if_false } => {
            lemma_expression_counts(state, *condition, v);
            let a = reduced_expression::<Canonicalizer>(state, *condition);
            lemma_expression_counts(a.0, *if_true, v);
            let b = reduced_expression::<Canonicalizer>(a.0, *if_true);
            lemma_expression_counts(b.0, *if_false, v);
        },
        ExpressionKindView::Call { arguments, .. } => {
            lemma_expressions_counts(state, arguments, arguments.len(), v);
            assert(counts_in_expressions(arguments, v).take(arguments.len() as int)
                =~= counts_in_expressions(arguments, v));
        },
        ExpressionKindView::Array(elements) => {
            lemma_expressions_counts(state, elements, elements.len(), v);
            assert(counts_in_expressions(elements, v).take(elements.len() as int)
                =~= counts_in_expressions(elements, v));
        },
        ExpressionKindView::Tuple(elements) => {
            lemma_expressions_counts(state, elements, elements.len(), v);
            assert(counts_in_expressions(elements, v).take(elements.len() as int)
                =~= counts_in_expressions(elements, v));
        },
        ExpressionKindView::Circuit { members, .. } => {
            lemma_member_inits_counts(state, members, members.len(), v);
            assert(counts_in_member_inits(members, v).take(members.len() as int)
                =~= counts_in_member_inits(members, v));
        },
        ExpressionKindView::Index { array, index } => {
            lemma_expression_counts(state, *array, v);
            let a = reduced_expression::<Canonicalizer>(state, *array);
            lemma_expression_counts(a.0, *index, v);
        },
        ExpressionKindView::Member { object, .. } => {
            lemma_expression_counts(state, *object, v);
        },
        ExpressionKindView::TupleAccess { tuple, .. } => {
            lemma_expression_counts(state, *tuple, v);
        },
        ExpressionKindView::ImplicitMember { .. } => {
            let r = reduced_expression::<Canonicalizer>(state, e);
            if r.1 is Ok {
                assert(occurrences_in_expression(*r.1->Ok_0.kind->object, v) == fresh(
                    state.next,
                    r.0.next,
                    v,
                ));
            }
        },
        ExpressionKindView::Cast { operand, .. } => {
            lemma_expression_counts(state, *operand, v);
        },
    }
}

proof fn lemma_expressions_counts(state: CanonicalizerView, items: Seq<ExpressionView>, n: nat, v: u64)
    requires
        n <= items.len(),
    ensures
        ({
            let r = reduced_expressions::<Canonicalizer>(state, items, n);
            r.1 is Ok ==> bound(state.next) <= bound(r.0.next) && r.1->Ok_0.len() == n && sum(
                counts_in_expressions(r.1->Ok_0, v),
            ) <= sum(counts_in_expressions(items, v).take(n as int)) + fresh(state.next, r.0.next, v)
        }),
    decreases items, n,
{
    if n > 0 {
        lemma_expressions_counts(state, items, (n - 1) as nat, v);
        let before = reduced_expressions::<Canonicalizer>(state, items, (n - 1) as nat);
        if before.1 is Ok {
            lemma_expression_counts(before.0, items[n - 1], v);
            let last = reduced_expression::<Canonicalizer>(before.0, items[n - 1]);
            if last.1 is Ok {
                let done = counts_in_expressions(before.1->Ok_0, v);
                let out = before.1->Ok_0.push(last.1->Ok_0);
                assert(counts_in_expressions(out, v) =~= done.push(counts_in_expressions(out, v)[n - 1]));
                lemma_sum_push(done, counts_in_expressions(out, v)[n - 1]);
                lemma_sum_take(counts_in_expressions(items, v), n - 1);
            }
        }
    } else {
        assert(counts_in_expressions(Seq::empty(), v) =~= Seq::empty());
        assert(counts_in_expressions(items, v).take(0) =~= Seq::empty());
    }
}

proof fn lemma_member_inits_counts(state: CanonicalizerView, items: Seq<MemberInitView>, n: nat, v: u64)
    requires
        n <= items.len(),
    ensures
        ({
            let r = reduced_member_inits::<Canonicalizer>(state, items, n);
            r.1 is Ok ==> bound(state.next) <= bound(r.0.next) && r.1->Ok_0.len() == n && sum(
                counts_in_member_inits(r.1->Ok_0, v),
            ) <= sum(counts_in_member_inits(items, v).take(n as int)) + fresh(state.next, r.0.next, v)
        }),
    decreases items, n,
{
    if n > 0 {
        lemma_member_inits_counts(state, items, (n - 1) as nat, v);
        let before = reduced_member_inits::<Canonicalizer>(state, items, (n - 1) as nat);
        if before.1 is Ok {
            lemma_expression_counts(before.0, items[n - 1].value, v);
            let last = reduced_member_init::<Canonicalizer>(before.0, items[n - 1]);
            if last.1 is Ok {
                let done = counts_in_member_inits(before.1->Ok_0, v);
                let out = before.1->Ok_0.push(last.1->Ok_0);
                assert(counts_in_member_inits(out, v) =~= done.push(counts_in_member_inits(out, v)[n - 1]));
                lemma_sum_push(done, counts_in_member_inits(out, v)[n - 1]);
                lemma_sum_take(counts_in_member_inits(items, v), n - 1);
            }
        }
    } else {
        assert(counts_in_member_inits(Seq::empty(), v) =~= Seq::empty());
        assert(counts_in_member_inits(items, v).take(0) =~= Seq::empty());
    }
}

proof fn lemma_sum_one(x: nat)
    ensures
        sum(seq![x]) == x,
{
    lemma_sum_push(Seq::<nat>::empty(), x);
    assert(Seq::<nat>::empty().push(x) =~= seq![x]);
    assert(sum(Seq::<nat>::empty()) == 0);
}

proof fn lemma_definition_counts(state: CanonicalizerView, d: DefinitionView, v: u64)
    ensures
        ({
            let r = reduced_definition::<Canonicalizer>(state, d);
            r.1 is Ok ==> bound(state.next) <= bound(r.0.next) && occurrences_in_definition(
                r.1->Ok_0,
                v,
            ) <= occurrences_in_definition(d, v) + fresh(state.next, r.0.next, v)
        }),
{
    lemma_canonicalizer_keeps_leaves();
    lemma_kept_bindings::<Canonicalizer>(state, d.bindings, d.bindings.len());
    assert(d.bindings.take(d.bindings.len() as int) =~= d.bindings);
    lemma_expression_counts(state, d.value, v);
}

proof fn lemma_definitions_counts(state: CanonicalizerView, items: Seq<DefinitionView>, n: nat, v: u64)
    requires
        n <= items.len(),
    ensures
        ({
            let r = reduced_definitions::<Canonicalizer>(state, items, n);
            r.1 is Ok ==> bound(state.next) <= bound(r.0.next) && r.1->Ok_0.len() == n && sum(
                counts_in_definitions(r.1->Ok_0, v),
            ) <= sum(counts_in_definitions(items, v).take(n as int)) + fresh(state.next, r.0.next, v)
        }),
    decreases n,
{
    if n > 0 {
        lemma_definitions_counts(state, items, (n - 1) as nat, v);
        let before = reduced_definitions::<Canonicalizer>(state, items, (n - 1) as nat);
        if before.1 is Ok {
            lemma_definition_counts(before.0, items[n - 1], v);
            let last = reduced_definition::<Canonicalizer>(before.0, items[n - 1]);
            if last.1 is Ok {
                let done = counts_in_definitions(before.1->Ok_0, v);
                let out = before.1->Ok_0.push(last.1->Ok_0);
                assert(counts_in_definitions(out, v) =~= done.push(counts_in_definitions(out, v)[n - 1]));
                lemma_sum_push(done, counts_in_definitions(out, v)[n - 1]);
                lemma_sum_take(counts_in_definitions(items, v), n - 1);
            }
        }
    } else {
        assert(counts_in_definitions(Seq::empty(), v) =~= Seq::empty());
        assert(counts_in_definitions(items, v).take(0) =~= Seq::empty());
    }
}

proof fn lemma_component_counts(state: CanonicalizerView, d: DefinitionView, i: int, v: u64)
    requires
        0 <= i < d.bindings.len(),
        d.value.kind is Tuple ==> d.value.kind->Tuple_0.len() == d.bindings.len(),
    ensures
        ({
            let r = component(state, d, i);
            r.1 is Ok ==> bound(state.next) <= bound(r.0.next) && occurrences_in_definition(
                r.1->Ok_0,
                v,
            ) <= one(d.bindings[i].node, v) + (if d.value.kind is Tuple {
                occurrences_in_expression(d.value.kind->Tuple_0[i], v)
            } else {
                0
            }) + fresh(state.next, r.0.next, v)
        }),
{
    let r = component(state, d, i);
    if r.1 is Ok {
        let m = minted(state.next, d.node.span);
        assert(counts_in_bindings(seq![d.bindings[i]], v) =~= seq![one(d.bindings[i].node, v)]);
        lemma_sum_one(one(d.bindings[i].node, v));
        if !(d.value.kind is Tuple) {
            lemma_copy_counts(m.0, d.value, v);
        }
    }
}

proof fn lemma_components_counts(state: CanonicalizerView, d: DefinitionView, n: nat, v: u64)
    requires
        n <= d.bindings.len(),
        d.value.kind is Tuple ==> d.value.kind->Tuple_0.len() == d.bindings.len(),
    ensures
        ({
            let r = components(state, d, n);
            r.1 is Ok ==> bound(state.next) <= bound(r.0.next) && sum(
                counts_in_definitions(r.1->Ok_0, v),
            ) <= sum(counts_in_bindings(d.bindings, v).take(n as int)) + (if d.value.kind is Tuple {
                sum(counts_in_expressions(d.value.kind->Tuple_0, v).take(n as int))
            } else {
                0
            }) + fresh(state.next, r.0.next, v)
        }),
    decreases n,
{
    if n > 0 {
        lemma_components_counts(state, d, (n - 1) as nat, v);
        let before = components(state, d, (n - 1) as nat);
        if before.1 is Ok {
            lemma_component_counts(before.0, d, n - 1, v);
            let last = component(before.0, d, n - 1);
            if last.1 is Ok {
                let done = counts_in_definitions(before.1->Ok_0, v);
                let out = before.1->Ok_0.push(last.1->Ok_0);
                assert(counts_in_definitions(out, v) =~= done.push(
                    occurrences_in_definition(last.1->Ok_0, v),
                ));
                lemma_sum_push(done, occurrences_in_definition(last.1->Ok_0, v));
                lemma_sum_take(counts_in_bindings(d.bindings, v), n - 1);
                if d.value.kind is Tuple {
                    lemma_sum_take(counts_in_expressions(d.value.kind->Tuple_0, v), n - 1);
                }
            }
        }
    } else {
        assert(counts_in_definitions(Seq::empty(), v) =~= Seq::empty());
        assert(counts_in_bindings(d.bindings, v).take(0) =~= Seq::empty());
        if d.value.kind is Tuple {
            assert(counts_in_expressions(d.value.kind->Tuple_0, v).take(0) =~= Seq::empty());
        }
    }
}

proof fn lemma_single_definitions_counts(state: CanonicalizerView, d: DefinitionView, v: u64)
    ensures
        ({
            let r = single_definitions(state, d);
            r.1 is Ok ==> bound(state.next) <= bound(r.0.next) && sum(
                counts_in_definitions(r.1->Ok_0, v),
            ) <= occurrences_in_definition(d, v) + fresh(state.next, r.0.next, v)
        }),
{
    let r = single_definitions(state, d);
    if r.1 is Ok {
        if !splits(state.signatures, d) {
            assert(counts_in_definitions(seq![d], v) =~= seq![occurrences_in_definition(d, v)]);
            lemma_sum_one(occurrences_in_definition(d, v));
        } else {
            let n = d.bindings.len();
            lemma_components_counts(state, d, n, v);
            assert(counts_in_bindings(d.bindings, v).take(n as int) =~= counts_in_bindings(
                d.bindings,
                v,
            ));
            if d.value.kind is Tuple {
                let elements = d.value.kind->Tuple_0;
                assert(counts_in_expressions(elements, v).take(n as int) =~= counts_in_expressions(
                    elements,
                    v,
                ));
            }
        }
    }
}

proof fn lemma_split_counts(state: CanonicalizerView, items: Seq<StatementView>, n: nat, v: u64)
    requires
        n <= items.len(),
    ensures
        ({
            let r = with_single_definitions(state, items, n);
            r.1 is Ok ==> bound(state.next) <= bound(r.0.next) && sum(
                counts_in_statements(r.1->Ok_0, v),
            ) <= sum(counts_in_statements(items, v).take(n as int)) + fresh(state.next, r.0.next, v)
        }),
    decreases n,
{
    if n > 0 {
        lemma_split_counts(state, items, (n - 1) as nat, v);
        let before = with_single_definitions(state, items, (n - 1) as nat);
        if before.1 is Ok {
            let done = counts_in_statements(before.1->Ok_0, v);
            lemma_sum_take(counts_in_statements(items, v), n - 1);
            match items[n - 1] {
                StatementView::Definition(d) => {
                    lemma_single_definitions_counts(before.0, d, v);
                    let last = single_definitions(before.0, d);
                    if last.1 is Ok {
                        let out = before.1->Ok_0 + as_statements(last.1->Ok_0);
                        assert(counts_in_statements(out, v) =~= done + counts_in_definitions(
                            last.1->Ok_0,
                            v,
                        ));
                        lemma_sum_add(done, counts_in_definitions(last.1->Ok_0, v));
                    }
                },
                other => {
                    let out = before.1->Ok_0.push(other);
                    assert(counts_in_statements(out, v) =~= done.push(
                        occurrences_in_statement(other, v),
                    ));
                    lemma_sum_push(done, occurrences_in_statement(other, v));
                },
            }
        }
    } else {
        assert(counts_in_statements(Seq::empty(), v) =~= Seq::empty());
        assert(counts_in_statements(items, v).take(0) =~= Seq::empty());
    }
}

proof fn lemma_global_split_counts(state: CanonicalizerView, items: Seq<DefinitionView>, n: nat, v: u64)
    requires
        n <= items.len(),
    ensures
        ({
            let r = global_single_definitions(state, items, n);
            r.1 is Ok ==> bound(state.next) <= bound(r.0.next) && sum(
                counts_in_definitions(r.1->Ok_0, v),
            ) <= sum(counts_in_definitions(items, v).take(n as int)) + fresh(state.next, r.0.next, v)
        }),
    decreases n,
{
    if n > 0 {
        lemma_global_split_counts(state, items, (n - 1) as nat, v);
        let before = global_single_definitions(state, items, (n - 1) as nat);
        if before.1 is Ok {
            let done = counts_in_definitions(before.1->Ok_0, v);
            lemma_sum_take(counts_in_definitions(items, v), n - 1);
            lemma_single_definitions_counts(before.0, items[n - 1], v);
            let last = single_definitions(before.0, items[n - 1]);
            if last.1 is Ok {
                let out = before.1->Ok_0 + last.1->Ok_0;
                assert(counts_in_definitions(out, v) =~= done + counts_in_definitions(last.1->Ok_0, v));
                lemma_sum_add(done, counts_in_definitions(last.1->Ok_0, v));
            }
        }
    } else {
        assert(counts_in_definitions(Seq::empty(), v) =~= Seq::empty());
        assert(counts_in_definitions(items, v).take(0) =~= Seq::empty());
    }
}

proof fn lemma_statement_counts(state: CanonicalizerView, s: StatementView, v: u64)
    ensures
        ({
            let r = reduced_statement::<Canonicalizer>(state, s);
            r.1 is Ok ==> bound(state.next) <= bound(r.0.next) && occurrences_in_statement(
                r.1->Ok_0,
                v,
            ) <= occurrences_in_statement(s, v) + fresh(state.next, r.0.next, v)
        }),
    decreases s, 0nat,
{
    match s {
        StatementView::Return { value, .. } => {
            lemma_expression_counts(state, value, v);
        },
        StatementView::Definition(d) => {
            lemma_definition_counts(state, d, v);
        },
        StatementView::Assign { target, value, operation, .. } => {
            lemma_expression_counts(state, target, v);
            let a = reduced_expression::<Canonicalizer>(state, target);
            lemma_expression_counts(a.0, value, v);
            let b = reduced_expression::<Canonicalizer>(a.0, value);
            if a.1 is Ok && b.1 is Ok && operation is Some {
                lemma_copy_counts(b.0.next, a.1->Ok_0, v);
                let r = reduced_statement::<Canonicalizer>(state, s);
                if r.1 is Ok {
                    let c = fresh_copy(b.0.next, a.1->Ok_0);
                    let sum_value = r.1->Ok_0->Assign_value;
                    assert(occurrences_in_expression(sum_value, v) == one(sum_value.node, v)
                        + occurrences_in_expression(c.1->Ok_0, v) + occurrences_in_expression(
                        b.1->Ok_0,
                        v,
                    ));
                }
            }
        },
        StatementView::Conditional { condition, then_block, otherwise, .. } => {
            lemma_expression_counts(state, condition, v);
            let a = reduced_expression::<Canonicalizer>(state, condition);
            lemma_block_counts(a.0, then_block, v);
            let b = reduced_block::<Canonicalizer>(a.0, then_block);
            match otherwise {
                None => {},
                Some(next) => {
                    lemma_statement_counts(b.0, *next, v);
                    let c = reduced_statement::<Canonicalizer>(b.0, *next);
                    if a.1 is Ok && b.1 is Ok && c.1 is Ok {
                        let following = c.1->Ok_0;
                        if !(following is Block) {
                            let alone = seq![following];
                            lemma_split_counts(c.0, alone, 1, v);
                            assert(counts_in_statements(alone, v).take(1) =~= seq![
                                occurrences_in_statement(following, v),
                            ]);
                            lemma_sum_one(occurrences_in_statement(following, v));
                            let r = reduced_statement::<Canonicalizer>(state, s);
                            if r.1 is Ok {
                                let wrapped = *r.1->Ok_0->otherwise->Some_0;
                                assert(occurrences_in_statement(wrapped, v) == one(
                                    wrapped->Block_0.node,
                                    v,
                                ) + sum(counts_in_statements(wrapped->Block_0.statements, v)));
                            }
                        }
                    }
                },
            }
        },
        StatementView::Iteration { start, stop, body, .. } => {
            lemma_expression_counts(state, start, v);
            let a = reduced_expression::<Canonicalizer>(state, start);
            lemma_expression_counts(a.0, stop, v);
            let b = reduced_expression::<Canonicalizer>(a.0, stop);
            lemma_block_counts(b.0, body, v);
        },
        StatementView::Expression { expression, .. } => {
            lemma_expression_counts(state, expression, v);
        },
        StatementView::Block(b) => {
            lemma_block_counts(state, b, v);
        },
    }
}

proof fn lemma_block_counts(state: CanonicalizerView, b: BlockView, v: u64)
    ensures
        ({
            let r = reduced_block::<Canonicalizer>(state, b);
            r.1 is Ok ==> bound(state.next) <= bound(r.0.next) && occurrences_in_block(r.1->Ok_0, v)
                <= occurrences_in_block(b, v) + fresh(state.next, r.0.next, v)
        }),
    decreases b, 0nat,
{
    lemma_statements_counts(state, b.statements, b.statements.len(), v);
    let a = reduced_statements::<Canonicalizer>(state, b.statements, b.statements.len());
    if a.1 is Ok {
        let rewritten = a.1->Ok_0;
        lemma_split_counts(a.0, rewritten, rewritten.len(), v);
        assert(counts_in_statements(rewritten, v).take(rewritten.len() as int)
            =~= counts_in_statements(rewritten, v));
        assert(counts_in_statements(b.statements, v).take(b.statements.len() as int)
            =~= counts_in_statements(b.statements, v));
    }
}

proof fn lemma_statements_counts(state: CanonicalizerView, items: Seq<StatementView>, n: nat, v: u64)
    requires
        n <= items.len(),
    ensures
        ({
            let r = reduced_statements::<Canonicalizer>(state, items, n);
            r.1 is Ok ==> bound(state.next) <= bound(r.0.next) && r.1->Ok_0.len() == n && sum(
                counts_in_statements(r.1->Ok_0, v),
            ) <= sum(counts_in_statements(items, v).take(n as int)) + fresh(state.next, r.0.next, v)
        }),
    decreases items, n,
{
    if n > 0 {
        lemma_statements_counts(state, items, (n - 1) as nat, v);
        let before = reduced_statements::<Canonicalizer>(state, items, (n - 1) as nat);
        if before.1 is Ok {
            lemma_statement_counts(before.0, items[n - 1], v);
            let last = reduced_statement::<Canonicalizer>(before.0, items[n - 1]);
            if last.1 is Ok {
                let done = counts_in_statements(before.1->Ok_0, v);
                let out = before.1->Ok_0.push(last.1->Ok_0);
                assert(counts_in_statements(out, v) =~= done.push(counts_in_statements(out, v)[n - 1]));
                lemma_sum_push(done, counts_in_statements(out, v)[n - 1]);
                lemma_sum_take(counts_in_statements(items, v), n - 1);
            }
        }
    } else {
        assert(counts_in_statements(Seq::empty(), v) =~= Seq::empty());
        assert(counts_in_statements(items, v).take(0) =~= Seq::empty());
    }
}

proof fn lemma_function_counts(state: CanonicalizerView, f: FunctionView, v: u64)
    ensures
        ({
            let r = reduced_function::<Canonicalizer>(state, f);
            r.1 is Ok ==> bound(state.next) <= bound(r.0.next) && occurrences_in_function(
                r.1->Ok_0,
                v,
            ) <= occurrences_in_function(f, v) + fresh(state.next, r.0.next, v)
        }),
{
    lemma_canonicalizer_keeps_leaves();
    lemma_kept_annotations::<Canonicalizer>(state, f.annotations, f.annotations.len());
    assert(f.annotations.take(f.annotations.len() as int) =~= f.annotations);
    lemma_kept_function_inputs::<Canonicalizer>(state, f.inputs, f.inputs.len());
    assert(f.inputs.take(f.inputs.len() as int) =~= f.inputs);
    lemma_kept_optional_type::<Canonicalizer>(state, f.output);
    lemma_block_counts(state, f.body, v);
}

proof fn lemma_functions_counts(state: CanonicalizerView, items: Seq<FunctionView>, n: nat, v: u64)
    requires
        n <= items.len(),
    ensures
        ({
            let r = reduced_functions::<Canonicalizer>(state, items, n);
            r.1 is Ok ==> bound(state.next) <= bound(r.0.next) && r.1->Ok_0.len() == n && sum(
                counts_in_functions(r.1->Ok_0, v),
            ) <= sum(counts_in_functions(items, v).take(n as int)) + fresh(state.next, r.0.next, v)
        }),
    decreases n,
{
    if n > 0 {
        lemma_functions_counts(state, items, (n - 1) as nat, v);
        let before = reduced_functions::<Canonicalizer>(state, items, (n - 1) as nat);
        if before.1 is Ok {
            lemma_function_counts(before.0, items[n - 1], v);
            let last = reduced_function::<Canonicalizer>(before.0, items[n - 1]);
            if last.1 is Ok {
                let done = counts_in_functions(before.1->Ok_0, v);
                let out = before.1->Ok_0.push(last.1->Ok_0);
                assert(counts_in_functions(out, v) =~= done.push(counts_in_functions(out, v)[n - 1]));
                lemma_sum_push(done, counts_in_functions(out, v)[n - 1]);
                lemma_sum_take(counts_in_functions(items, v), n - 1);
            }
        }
    } else {
        assert(counts_in_functions(Seq::empty(), v) =~= Seq::empty());
        assert(counts_in_functions(items, v).take(0) =~= Seq::empty());
    }
}

proof fn lemma_circuit_counts(state: CanonicalizerView, c: CircuitView, v: u64)
    ensures
        ({
            let r = reduced_circuit::<Canonicalizer>(state, c);
            r.1 is Ok ==> bound(state.next) <= bound(r.0.next) && occurrences_in_circuit(r.1->Ok_0, v)
                <= occurrences_in_circuit(c, v) + fresh(state.next, r.0.next, v)
        }),
{
    lemma_canonicalizer_keeps_leaves();
    lemma_kept_circuit_members::<Canonicalizer>(state, c.members, c.members.len());
    assert(c.members.take(c.members.len() as int) =~= c.members);
    lemma_functions_counts(state, c.functions, c.functions.len(), v);
    assert(counts_in_functions(c.functions, v).take(c.functions.len() as int)
        =~= counts_in_functions(c.functions, v));
}

proof fn lemma_circuits_counts(state: CanonicalizerView, items: Seq<CircuitView>, n: nat, v: u64)
    requires
        n <= items.len(),
    ensures
        ({
            let r = reduced_circuits::<Canonicalizer>(state, items, n);
            r.1 is Ok ==> bound(state.next) <= bound(r.0.next) && r.1->Ok_0.len() == n && sum(
                counts_in_circuits(r.1->Ok_0, v),
            ) <= sum(counts_in_circuits(items, v).take(n as int)) + fresh(state.next, r.0.next, v)
        }),
    decreases n,
{
    if n > 0 {
        lemma_circuits_counts(state, items, (n - 1) as nat, v);
        let before = reduced_circuits::<Canonicalizer>(state, items, (n - 1) as nat);
        if before.1 is Ok {
            lemma_circuit_counts(before.0, items[n - 1], v);
            let last = reduced_circuit::<Canonicalizer>(before.0, items[n - 1]);
            if last.1 is Ok {
                let done = counts_in_circuits(before.1->Ok_0, v);
                let out = before.1->Ok_0.push(last.1->Ok_0);
                assert(counts_in_circuits(out, v) =~= done.push(counts_in_circuits(out, v)[n - 1]));
                lemma_sum_push(done, counts_in_circuits(out, v)[n - 1]);
                lemma_sum_take(counts_in_circuits(items, v), n - 1);
            }
        }
    } else {
        assert(counts_in_circuits(Seq::empty(), v) =~= Seq::empty());
        assert(counts_in_circuits(items, v).take(0) =~= Seq::empty());
    }
}

/// An identifier occurs in what the pass returns for a program at most as often as
/// it occurs in the program, and once more if the pass has taken it from its supply.
pub proof fn lemma_program_counts(state: CanonicalizerView, p: ProgramView, v: u64)
    ensures
        ({
            let r = reduced_program::<Canonicalizer>(state, p);
            r.1 is Ok ==> bound(state.next) <= bound(r.0.next) && occurrences_in_program(r.1->Ok_0, v)
                <= occurrences_in_program(p, v) + fresh(state.next, r.0.next, v)
        }),
{
    lemma_canonicalizer_keeps_leaves();
    lemma_kept_imports::<Canonicalizer>(state, p.imports, p.imports.len());
    assert(p.imports.take(p.imports.len() as int) =~= p.imports);
    lemma_circuits_counts(state, p.circuits, p.circuits.len(), v);
    assert(counts_in_circuits(p.circuits, v).take(p.circuits.len() as int) =~= counts_in_circuits(
        p.circuits,
        v,
    ));
    let b = reduced_circuits::<Canonicalizer>(state, p.circuits, p.circuits.len());
    lemma_functions_counts(b.0, p.functions, p.functions.len(), v);
    assert(counts_in_functions(p.functions, v).take(p.functions.len() as int)
        =~= counts_in_functions(p.functions, v));
    let c = reduced_functions::<Canonicalizer>(b.0, p.functions, p.functions.len());
    lemma_definitions_counts(c.0, p.globals, p.globals.len(), v);
    assert(counts_in_definitions(p.globals, v).take(p.globals.len() as int)
        =~= counts_in_definitions(p.globals, v));
    let d = reduced_definitions::<Canonicalizer>(c.0, p.globals, p.globals.len());
    if b.1 is Ok && c.1 is Ok && d.1 is Ok {
        let globals = d.1->Ok_0;
        lemma_global_split_counts(d.0, globals, globals.len(), v);
        assert(counts_in_definitions(globals, v).take(globals.len() as int)
            =~= counts_in_definitions(globals, v));
    }
}

/// Whether the identifier `v` is at most the greatest identifier seen so far.
pub open spec fn covers(highest: Option<u64>, v: u64) -> bool {
    highest matches Some(h) && v <= h
}

proof fn lemma_expression_scan(highest: Option<u64>, e: ExpressionView, v: u64)
    ensures
        ({
            let r = reduced_expression::<IdentityScan>(highest, e);
            &&& r.1 == Ok::<_, ReducerError>(e)
            &&& covers(highest, v) ==> covers(r.0, v)
            &&& occurrences_in_expression(e, v) > 0 ==> covers(r.0, v)
        }),
    decreases e, 0nat,
{
    match e.kind {
        ExpressionKindView::Literal(_) => {},
        ExpressionKindView::Identifier(_) => {},
        ExpressionKindView::Unary { operand, .. } => {
            lemma_expression_scan(highest, *operand, v);
        },
        ExpressionKindView::Binary { left, right, .. } => {
            lemma_expression_scan(highest, *left, v);
            let a = reduced_expression::<IdentityScan>(highest, *left);
            lemma_expression_scan(a.0, *right, v);
        },
        ExpressionKindView::Ternary { condition, if_true, if_false } => {
            lemma_expression_scan(highest, *condition, v);
            let a = reduced_expression::<IdentityScan>(highest, *condition);
            lemma_expression_scan(a.0, *if_true, v);
            let b = reduced_expression::<IdentityScan>(a.0, *if_true);
            lemma_expression_scan(b.0, *if_false, v);
        },
        ExpressionKindView::Call { arguments, .. } => {
            lemma_expressions_scan(highest, arguments, arguments.len(), v);
            assert(arguments.take(arguments.len() as int) =~= arguments);
            assert(counts_in_expressions(arguments, v).take(arguments.len() as int)
                =~= counts_in_expressions(arguments, v));
        },
        ExpressionKindView::Array(elements) => {
            lemma_expressions_scan(highest, elements, elements.len(), v);
            assert(elements.take(elements.len() as int) =~= elements);
            assert(counts_in_expressions(elements, v).take(elements.len() as int)
                =~= counts_in_expressions(elements, v));
        },
        ExpressionKindView::Tuple(elements) => {
            lemma_expressions_scan(highest, elements, elements.len(), v);
            assert(elements.take(elements.len() as int) =~= elements);
            assert(counts_in_expressions(elements, v).take(elements.len() as int)
                =~= counts_in_expressions(elements, v));
        },
        ExpressionKindView::Circuit { members, .. } => {
            lemma_member_inits_scan(highest, members, members.len(), v);
            assert(members.take(members.len() as int) =~= members);
            assert(counts_in_member_inits(members, v).take(members.len() as int)
                =~= counts_in_member_inits(members, v));
        },
        ExpressionKindView::Index { array, index } => {
            lemma_expression_scan(highest, *array, v);
            let a = reduced_expression::<IdentityScan>(highest, *array);
            lemma_expression_scan(a.0, *index, v);
        },
        ExpressionKindView::Member { object, .. } => {
            lemma_expression_scan(highest, *object, v);
        },
        ExpressionKindView::TupleAccess { tuple, .. } => {
            lemma_expression_scan(highest, *tuple, v);
        },
        ExpressionKindView::ImplicitMember { .. } => {},
        ExpressionKindView::Cast { operand, .. } => {
            lemma_expression_scan(highest, *operand, v);
        },
    }
}

proof fn lemma_expressions_scan(highest: Option<u64>, items: Seq<ExpressionView>, n: nat, v: u64)
    requires
        n <= items.len(),
    ensures
        ({
            let r = reduced_expressions::<IdentityScan>(highest, items, n);
            &&& r.1 == Ok::<_, ReducerError>(items.take(n as int))
            &&& covers(highest, v) ==> covers(r.0, v)
            &&& sum(counts_in_expressions(items, v).take(n as int)) > 0 ==> covers(r.0, v)
        }),
    decreases items, n,
{
    if n > 0 {
        lemma_expressions_scan(highest, items, (n - 1) as nat, v);
        let before = reduced_expressions::<IdentityScan>(highest, items, (n - 1) as nat);
        lemma_expression_scan(before.0, items[n - 1], v);
        let last = reduced_expression::<IdentityScan>(before.0, items[n - 1]);
        assert(last.1 == Ok::<_, ReducerError>(items[n - 1]));
        assert(items.take(n - 1).push(items[n - 1]) =~= items.take(n as int));
        lemma_sum_take(counts_in_expressions(items, v), n - 1);
    } else {
        assert(items.take(0) =~= Seq::empty());
        assert(counts_in_expressions(items, v).take(0) =~= Seq::empty());
    }
}

proof fn lemma_member_inits_scan(highest: Option<u64>, items: Seq<MemberInitView>, n: nat, v: u64)
    requires
        n <= items.len(),
    ensures
        ({
            let r = reduced_member_inits::<IdentityScan>(highest, items, n);
            &&& r.1 == Ok::<_, ReducerError>(items.take(n as int))
            &&& covers(highest, v) ==> covers(r.0, v)
            &&& sum(counts_in_member_inits(items, v).take(n as int)) > 0 ==> covers(r.0, v)
        }),
    decreases items, n,
{
    if n > 0 {
        lemma_member_inits_scan(highest, items, (n - 1) as nat, v);
        let before = reduced_member_inits::<IdentityScan>(highest, items, (n - 1) as nat);
        lemma_expression_scan(before.0, items[n - 1].value, v);
        let last = reduced_member_init::<IdentityScan>(before.0, items[n - 1]);
        assert(last.1 == Ok::<_, ReducerError>(items[n - 1]));
        assert(items.take(n - 1).push(items[n - 1]) =~= items.take(n as int));
        lemma_sum_take(counts_in_member_inits(items, v), n - 1);
    } else {
        assert(items.take(0) =~= Seq::empty());
        assert(counts_in_member_inits(items, v).take(0) =~= Seq::empty());
    }
}

proof fn lemma_binding_scan(highest: Option<u64>, x: BindingView, v: u64)
    ensures
        ({
            let r = reduced_binding::<IdentityScan>(highest, x);
            &&& r.1 == Ok::<_, ReducerError>(x)
            &&& covers(highest, v) ==> covers(r.0, v)
            &&& one(x.node, v) > 0 ==> covers(r.0, v)
        }),
{
}

proof fn lemma_bindings_scan(highest: Option<u64>, items: Seq<BindingView>, n: nat, v: u64)
    requires
        n <= items.len(),
    ensures
        ({
            let r = reduced_bindings::<IdentityScan>(highest, items, n);
            &&& r.1 == Ok::<_, ReducerError>(items.take(n as int))
            &&& covers(highest, v) ==> covers(r.0, v)
            &&& sum(counts_in_bindings(items, v).take(n as int)) > 0 ==> covers(r.0, v)
        }),
    decreases n,
{
    if n > 0 {
        lemma_bindings_scan(highest, items, (n - 1) as nat, v);
        let before = reduced_bindings::<IdentityScan>(highest, items, (n - 1) as nat);
        lemma_binding_scan(before.0, items[n - 1], v);
        let last = reduced_binding::<IdentityScan>(before.0, items[n - 1]);
        assert(last.1 == Ok::<_, ReducerError>(items[n - 1]));
        assert(items.take(n - 1).push(items[n - 1]) =~= items.take(n as int));
        lemma_sum_take(counts_in_bindings(items, v), n - 1);
    } else {
        assert(items.take(0) =~= Seq::empty());
        assert(counts_in_bindings(items, v).take(0) =~= Seq::empty());
    }
}

proof fn lemma_definition_scan(highest: Option<u64>, d: DefinitionView, v: u64)
    ensures
        ({
            let r = reduced_definition::<IdentityScan>(highest, d);
            &&& r.1 == Ok::<_, ReducerError>(d)
            &&& covers(highest, v) ==> covers(r.0, v)
            &&& occurrences_in_definition(d, v) > 0 ==> covers(r.0, v)
        }),
{
    lemma_bindings_scan(highest, d.bindings, d.bindings.len(), v);
    assert(d.bindings.take(d.bindings.len() as int) =~= d.bindings);
    assert(counts_in_bindings(d.bindings, v).take(d.bindings.len() as int) =~= counts_in_bindings(
        d.bindings,
        v,
    ));
    let a = reduced_bindings::<IdentityScan>(highest, d.bindings, d.bindings.len());
    lemma_expression_scan(a.0, d.value, v);
}

proof fn lemma_definitions_scan(highest: Option<u64>, items: Seq<DefinitionView>, n: nat, v: u64)
    requires
        n <= items.len(),
    ensures
        ({
            let r = reduced_definitions::<IdentityScan>(highest, items, n);
            &&& r.1 == Ok::<_, ReducerError>(items.take(n as int))
            &&& covers(highest, v) ==> covers(r.0, v)
            &&& sum(counts_in_definitions(items, v).take(n as int)) > 0 ==> covers(r.0, v)
        }),
    decreases n,
{
    if n > 0 {
        lemma_definitions_scan(highest, items, (n - 1) as nat, v);
        let before = reduced_definitions::<IdentityScan>(highest, items, (n - 1) as nat);
        lemma_definition_scan(before.0, items[n - 1], v);
        let last = reduced_definition::<IdentityScan>(before.0, items[n - 1]);
        assert(last.1 == Ok::<_, ReducerError>(items[n - 1]));
        assert(items.take(n - 1).push(items[n - 1]) =~= items.take(n as int));
        lemma_sum_take(counts_in_definitions(items, v), n - 1);
    } else {
        assert(items.take(0) =~= Seq::empty());
        assert(counts_in_definitions(items, v).take(0) =~= Seq::empty());
    }
}

proof fn lemma_statement_scan(highest: Option<u64>, s: StatementView, v: u64)
    ensures
        ({
            let r = reduced_statement::<IdentityScan>(highest, s);
            &&& r.1 == Ok::<_, ReducerError>(s)
            &&& covers(highest, v) ==> covers(r.0, v)
            &&& occurrences_in_statement(s, v) > 0 ==> covers(r.0, v)
        }),
    decreases s, 0nat,
{
    match s {
        StatementView::Return { value, .. } => {
            lemma_expression_scan(highest, value, v);
        },
        StatementView::Definition(d) => {
            lemma_definition_scan(highest, d, v);
        },
        StatementView::Assign { target, value, .. } => {
            lemma_expression_scan(highest, target, v);
            let a = reduced_expression::<IdentityScan>(highest, target);
            lemma_expression_scan(a.0, value, v);
        },
        StatementView::Conditional { condition, then_block, otherwise, .. } => {
            lemma_expression_scan(highest, condition, v);
            let a = reduced_expression::<IdentityScan>(highest, condition);
            lemma_block_scan(a.0, then_block, v);
            let b = reduced_block::<IdentityScan>(a.0, then_block);
            match otherwise {
                None => {},
                Some(next) => {
                    lemma_statement_scan(b.0, *next, v);
                },
            }
        },
        StatementView::Iteration { start, stop, body, .. } => {
            lemma_expression_scan(highest, start, v);
            let a = reduced_expression::<IdentityScan>(highest, start);
            lemma_expression_scan(a.0, stop, v);
            let b = reduced_expression::<IdentityScan>(a.0, stop);
            lemma_block_scan(b.0, body, v);
        },
        StatementView::Expression { expression, .. } => {
            lemma_expression_scan(highest, expression, v);
        },
        StatementView::Block(b) => {
            lemma_block_scan(highest, b, v);
        },
    }
}

proof fn lemma_block_scan(highest: Option<u64>, b: BlockView, v: u64)
    ensures
        ({
            let r = reduced_block::<IdentityScan>(highest, b);
            &&& r.1 == Ok::<_, ReducerError>(b)
            &&& covers(highest, v) ==> covers(r.0, v)
            &&& occurrences_in_block(b, v) > 0 ==> covers(r.0, v)
        }),
    decreases b, 0nat,
{
    lemma_statements_scan(highest, b.statements, b.statements.len(), v);
    assert(b.statements.take(b.statements.len() as int) =~= b.statements);
    assert(counts_in_statements(b.statements, v).take(b.statements.len() as int)
        =~= counts_in_statements(b.statements, v));
}

proof fn lemma_statements_scan(highest: Option<u64>, items: Seq<StatementView>, n: nat, v: u64)
    requires
        n <= items.len(),
    ensures
        ({
            let r = reduced_statements::<IdentityScan>(highest, items, n);
            &&& r.1 == Ok::<_, ReducerError>(items.take(n as int))
            &&& covers(highest, v) ==> covers(r.0, v)
            &&& sum(counts_in_statements(items, v).take(n as int)) > 0 ==> covers(r.0, v)
        }),
    decreases items, n,
{
    if n > 0 {
        lemma_statements_scan(highest, items, (n - 1) as nat, v);
        let before = reduced_statements::<IdentityScan>(highest, items, (n - 1) as nat);
        lemma_statement_scan(before.0, items[n - 1], v);
        let last = reduced_statement::<IdentityScan>(before.0, items[n - 1]);
        assert(last.1 == Ok::<_, ReducerError>(items[n - 1]));
        assert(items.take(n - 1).push(items[n - 1]) =~= items.take(n as int));
        lemma_sum_take(counts_in_statements(items, v), n - 1);
    } else {
        assert(items.take(0) =~= Seq::empty());
        assert(counts_in_statements(items, v).take(0) =~= Seq::empty());
    }
}

proof fn lemma_import_scan(highest: Option<u64>, x: ImportView, v: u64)
    ensures
        ({
            let r = reduced_import::<IdentityScan>(highest, x);
            &&& r.1 == Ok::<_, ReducerError>(x)
            &&& covers(highest, v) ==> covers(r.0, v)
            &&& one(x.node, v) > 0 ==> covers(r.0, v)
        }),
{
}

proof fn lemma_imports_scan(highest: Option<u64>, items: Seq<ImportView>, n: nat, v: u64)
    requires
        n <= items.len(),
    ensures
        ({
            let r = reduced_imports::<IdentityScan>(highest, items, n);
            &&& r.1 == Ok::<_, ReducerError>(items.take(n as int))
            &&& covers(highest, v) ==> covers(r.0, v)
            &&& sum(counts_in_imports(items, v).take(n as int)) > 0 ==> covers(r.0, v)
        }),
    decreases n,
{
    if n > 0 {
        lemma_imports_scan(highest, items, (n - 1) as nat, v);
        let before = reduced_imports::<IdentityScan>(highest, items, (n - 1) as nat);
        lemma_import_scan(before.0, items[n - 1], v);
        let last = reduced_import::<IdentityScan>(before.0, items[n - 1]);
        assert(last.1 == Ok::<_, ReducerError>(items[n - 1]));
        assert(items.take(n - 1).push(items[n - 1]) =~= items.take(n as int));
        lemma_sum_take(counts_in_imports(items, v), n - 1);
    } else {
        assert(items.take(0) =~= Seq::empty());
        assert(counts_in_imports(items, v).take(0) =~= Seq::empty());
    }
}

proof fn lemma_annotation_scan(highest: Option<u64>, x: AnnotationView, v: u64)
    ensures
        ({
            let r = reduced_annotation::<IdentityScan>(highest, x);
            &&& r.1 == Ok::<_, ReducerError>(x)
            &&& covers(highest, v) ==> covers(r.0, v)
            &&& one(x.node, v) > 0 ==> covers(r.0, v)
        }),
{
}

proof fn lemma_annotations_scan(highest: Option<u64>, items: Seq<AnnotationView>, n: nat, v: u64)
    requires
        n <= items.len(),
    ensures
        ({
            let r = reduced_annotations::<IdentityScan>(highest, items, n);
            &&& r.1 == Ok::<_, ReducerError>(items.take(n as int))
            &&& covers(highest, v) ==> covers(r.0, v)
            &&& sum(counts_in_annotations(items, v).take(n as int)) > 0 ==> covers(r.0, v)
        }),
    decreases n,
{
    if n > 0 {
        lemma_annotations_scan(highest, items, (n - 1) as nat, v);
        let before = reduced_annotations::<IdentityScan>(highest, items, (n - 1) as nat);
        lemma_annotation_scan(before.0, items[n - 1], v);
        let last = reduced_annotation::<IdentityScan>(before.0, items[n - 1]);
        assert(last.1 == Ok::<_, ReducerError>(items[n - 1]));
        assert(items.take(n - 1).push(items[n - 1]) =~= items.take(n as int));
        lemma_sum_take(counts_in_annotations(items, v), n - 1);
    } else {
        assert(items.take(0) =~= Seq::empty());
        assert(counts_in_annotations(items, v).take(0) =~= Seq::empty());
    }
}

proof fn lemma_function_input_scan(highest: Option<u64>, x: FunctionInputView, v: u64)
    ensures
        ({
            let r = reduced_function_input::<IdentityScan>(highest, x);
            &&& r.1 == Ok::<_, ReducerError>(x)
            &&& covers(highest, v) ==> covers(r.0, v)
            &&& one(x.node, v) > 0 ==> covers(r.0, v)
        }),
{
}

proof fn lemma_function_inputs_scan(highest: Option<u64>, items: Seq<FunctionInputView>, n: nat, v: u64)
    requires
        n <= items.len(),
    ensures
        ({
            let r = reduced_function_inputs::<IdentityScan>(highest, items, n);
            &&& r.1 == Ok::<_, ReducerError>(items.take(n as int))
            &&& covers(highest, v) ==> covers(r.0, v)
            &&& sum(counts_in_function_inputs(items, v).take(n as int)) > 0 ==> covers(r.0, v)
        }),
    decreases n,
{
    if n > 0 {
        lemma_function_inputs_scan(highest, items, (n - 1) as nat, v);
        let before = reduced_function_inputs::<IdentityScan>(highest, items, (n - 1) as nat);
        lemma_function_input_scan(before.0, items[n - 1], v);
        let last = reduced_function_input::<IdentityScan>(before.0, items[n - 1]);
        assert(last.1 == Ok::<_, ReducerError>(items[n - 1]));
        assert(items.take(n - 1).push(items[n - 1]) =~= items.take(n as int));
        lemma_sum_take(counts_in_function_inputs(items, v), n - 1);
    } else {
        assert(items.take(0) =~= Seq::empty());
        assert(counts_in_function_inputs(items, v).take(0) =~= Seq::empty());
    }
}

proof fn lemma_circuit_member_scan(highest: Option<u64>, x: CircuitMemberView, v: u64)
    ensures
        ({
            let r = reduced_circuit_member::<IdentityScan>(highest, x);
            &&& r.1 == Ok::<_, ReducerError>(x)
            &&& covers(highest, v) ==> covers(r.0, v)
            &&& one(x.node, v) > 0 ==> covers(r.0, v)
        }),
{
}

proof fn lemma_circuit_members_scan(highest: Option<u64>, items: Seq<CircuitMemberView>, n: nat, v: u64)
    requires
        n <= items.len(),
    ensures
        ({
            let r = reduced_circuit_members::<IdentityScan>(highest, items, n);
            &&& r.1 == Ok::<_, ReducerError>(items.take(n as int))
            &&& covers(highest, v) ==> covers(r.0, v)
            &&& sum(counts_in_circuit_members(items, v).take(n as int)) > 0 ==> covers(r.0, v)
        }),
    decreases n,
{
    if n > 0 {
        lemma_circuit_members_scan(highest, items, (n - 1) as nat, v);
        let before = reduced_circuit_members::<IdentityScan>(highest, items, (n - 1) as nat);
        lemma_circuit_member_scan(before.0, items[n - 1], v);
        let last = reduced_circuit_member::<IdentityScan>(before.0, items[n - 1]);
        assert(last.1 == Ok::<_, ReducerError>(items[n - 1]));
        assert(items.take(n - 1).push(items[n - 1]) =~= items.take(n as int));
        lemma_sum_take(counts_in_circuit_members(items, v), n - 1);
    } else {
        assert(items.take(0) =~= Seq::empty());
        assert(counts_in_circuit_members(items, v).take(0) =~= Seq::empty());
    }
}

proof fn lemma_function_scan(highest: Option<u64>, f: FunctionView, v: u64)
    ensures
        ({
            let r = reduced_function::<IdentityScan>(highest, f);
            &&& r.1 == Ok::<_, ReducerError>(f)
            &&& covers(highest, v) ==> covers(r.0, v)
            &&& occurrences_in_function(f, v) > 0 ==> covers(r.0, v)
        }),
{
    lemma_annotations_scan(highest, f.annotations, f.annotations.len(), v);
    assert(f.annotations.take(f.annotations.len() as int) =~= f.annotations);
    assert(counts_in_annotations(f.annotations, v).take(f.annotations.len() as int)
        =~= counts_in_annotations(f.annotations, v));
    let a = reduced_annotations::<IdentityScan>(highest, f.annotations, f.annotations.len());
    lemma_function_inputs_scan(a.0, f.inputs, f.inputs.len(), v);
    assert(f.inputs.take(f.inputs.len() as int) =~= f.inputs);
    assert(counts_in_function_inputs(f.inputs, v).take(f.inputs.len() as int)
        =~= counts_in_function_inputs(f.inputs, v));
    let b = reduced_function_inputs::<IdentityScan>(a.0, f.inputs, f.inputs.len());
    lemma_block_scan(b.0, f.body, v);
}

proof fn lemma_functions_scan(highest: Option<u64>, items: Seq<FunctionView>, n: nat, v: u64)
    requires
        n <= items.len(),
    ensures
        ({
            let r = reduced_functions::<IdentityScan>(highest, items, n);
            &&& r.1 == Ok::<_, ReducerError>(items.take(n as int))
            &&& covers(highest, v) ==> covers(r.0, v)
            &&& sum(counts_in_functions(items, v).take(n as int)) > 0 ==> covers(r.0, v)
        }),
    decreases n,
{
    if n > 0 {
        lemma_functions_scan(highest, items, (n - 1) as nat, v);
        let before = reduced_functions::<IdentityScan>(highest, items, (n - 1) as nat);
        lemma_function_scan(before.0, items[n - 1], v);
        let last = reduced_function::<IdentityScan>(before.0, items[n - 1]);
        assert(last.1 == Ok::<_, ReducerError>(items[n - 1]));
        assert(items.take(n - 1).push(items[n - 1]) =~= items.take(n as int));
        lemma_sum_take(counts_in_functions(items, v), n - 1);
    } else {
        assert(items.take(0) =~= Seq::empty());
        assert(counts_in_functions(items, v).take(0) =~= Seq::empty());
    }
}

proof fn lemma_circuit_scan(highest: Option<u64>, c: CircuitView, v: u64)
    ensures
        ({
            let r = reduced_circuit::<IdentityScan>(highest, c);
            &&& r.1 == Ok::<_, ReducerError>(c)
            &&& covers(highest, v) ==> covers(r.0, v)
            &&& occurrences_in_circuit(c, v) > 0 ==> covers(r.0, v)
        }),
{
    lemma_circuit_members_scan(highest, c.members, c.members.len(), v);
    assert(c.members.take(c.members.len() as int) =~= c.members);
    assert(counts_in_circuit_members(c.members, v).take(c.members.len() as int)
        =~= counts_in_circuit_members(c.members, v));
    let a = reduced_circuit_members::<IdentityScan>(highest, c.members, c.members.len());
    lemma_functions_scan(a.0, c.functions, c.functions.len(), v);
    assert(c.functions.take(c.functions.len() as int) =~= c.functions);
    assert(counts_in_functions(c.functions, v).take(c.functions.len() as int)
        =~= counts_in_functions(c.functions, v));
}

proof fn lemma_circuits_scan(highest: Option<u64>, items: Seq<CircuitView>, n: nat, v: u64)
    requires
        n <= items.len(),
    ensures
        ({
            let r = reduced_circuits::<IdentityScan>(highest, items, n);
            &&& r.1 == Ok::<_, ReducerError>(items.take(n as int))
            &&& covers(highest, v) ==> covers(r.0, v)
            &&& sum(counts_in_circuits(items, v).take(n as int)) > 0 ==> covers(r.0, v)
        }),
    decreases n,
{
    if n > 0 {
        lemma_circuits_scan(highest, items, (n - 1) as nat, v);
        let before = reduced_circuits::<IdentityScan>(highest, items, (n - 1) as nat);
        lemma_circuit_scan(before.0, items[n - 1], v);
        let last = reduced_circuit::<IdentityScan>(before.0, items[n - 1]);
        assert(last.1 == Ok::<_, ReducerError>(items[n - 1]));
        assert(items.take(n - 1).push(items[n - 1]) =~= items.take(n as int));
        lemma_sum_take(counts_in_circuits(items, v), n - 1);
    } else {
        assert(items.take(0) =~= Seq::empty());
        assert(counts_in_circuits(items, v).take(0) =~= Seq::empty());
    }
}

/// Every identifier of a program lies below the supply of unused identifiers.
pub proof fn lemma_unused_identities_are_unused(p: ProgramView, v: u64)
    requires
        occurrences_in_program(p, v) > 0,
    ensures
        v < bound(unused_identities(p)),
{
    lemma_imports_scan(None, p.imports, p.imports.len(), v);
    assert(p.imports.take(p.imports.len() as int) =~= p.imports);
    assert(counts_in_imports(p.imports, v).take(p.imports.len() as int) =~= counts_in_imports(
        p.imports,
        v,
    ));
    let a = reduced_imports::<IdentityScan>(None, p.imports, p.imports.len());
    lemma_circuits_scan(a.0, p.circuits, p.circuits.len(), v);
    assert(p.circuits.take(p.circuits.len() as int) =~= p.circuits);
    assert(counts_in_circuits(p.circuits, v).take(p.circuits.len() as int) =~= counts_in_circuits(
        p.circuits,
        v,
    ));
    let b = reduced_circuits::<IdentityScan>(a.0, p.circuits, p.circuits.len());
    lemma_functions_scan(b.0, p.functions, p.functions.len(), v);
    assert(p.functions.take(p.functions.len() as int) =~= p.functions);
    assert(counts_in_functions(p.functions, v).take(p.functions.len() as int)
        =~= counts_in_functions(p.functions, v));
    let c = reduced_functions::<IdentityScan>(b.0, p.functions, p.functions.len());
    lemma_definitions_scan(c.0, p.globals, p.globals.len(), v);
    assert(p.globals.take(p.globals.len() as int) =~= p.globals);
    assert(counts_in_definitions(p.globals, v).take(p.globals.len() as int)
        =~= counts_in_definitions(p.globals, v));
}

/// Canonicalization keeps the identifiers of a program distinct: if no identifier
/// occurs twice in a program, none occurs twice in its canonical form.
pub proof fn lemma_canonicalization_keeps_identifiers_distinct(p: ProgramView)
    requires
        distinct_identifiers(p),
        canonical_form(p) is Ok,
    ensures
        distinct_identifiers(canonical_form(p)->Ok_0),
{
    let q = canonical_form(p)->Ok_0;
    assert forall|v: u64| #[trigger] occurrences_in_program(q, v) <= 1 by {
        lemma_program_counts(initial_state(p), p, v);
        assert(occurrences_in_program(p, v) <= 1);
        if occurrences_in_program(p, v) > 0 {
            lemma_unused_identities_are_unused(p, v);
        }
    }
}

proof fn lemma_expression_collect(seen: Seq<u64>, e: ExpressionView, v: u64)
    ensures
        ({
            let r = reduced_expression::<Collect>(seen, e);
            &&& r.1 == Ok::<_, ReducerError>(e)
            &&& count(r.0, v) == count(seen, v) + occurrences_in_expression(e, v)
        }),
    decreases e, 0nat,
{
    match e.kind {
        ExpressionKindView::Literal(_) => {
            lemma_count_push(seen, e.node.id, v);
        },
        ExpressionKindView::Identifier(_) => {
            lemma_count_push(seen, e.node.id, v);
        },
        ExpressionKindView::Unary { operand, .. } => {
            lemma_expression_collect(seen, *operand, v);
            let a = reduced_expression::<Collect>(seen, *operand);
            lemma_count_push(a.0, e.node.id, v);
        },
        ExpressionKindView::Binary { left, right, .. } => {
            lemma_expression_collect(seen, *left, v);
            let a = reduced_expression::<Collect>(seen, *left);
            lemma_expression_collect(a.0, *right, v);
            let b = reduced_expression::<Collect>(a.0, *right);
            lemma_count_push(b.0, e.node.id, v);
        },
        ExpressionKindView::Ternary { condition, if_true, if_false } => {
            lemma_expression_collect(seen, *condition, v);
            let a = reduced_expression::<Collect>(seen, *condition);
            lemma_expression_collect(a.0, *if_true, v);
            let b = reduced_expression::<Collect>(a.0, *if_true);
            lemma_expression_collect(b.0, *if_false, v);
            let c = reduced_expression::<Collect>(b.0, *if_false);
            lemma_count_push(c.0, e.node.id, v);
        },
        ExpressionKindView::Call { arguments, .. } => {
            lemma_expressions_collect(seen, arguments, arguments.len(), v);
            assert(arguments.take(arguments.len() as int) =~= arguments);
            assert(counts_in_expressions(arguments, v).take(arguments.len() as int)
                =~= counts_in_expressions(arguments, v));
            let a = reduced_expressions::<Collect>(seen, arguments, arguments.len());
            lemma_count_push(a.0, e.node.id, v);
        },
        ExpressionKindView::Array(elements) => {
            lemma_expressions_collect(seen, elements, elements.len(), v);
            assert(elements.take(elements.len() as int) =~= elements);
            assert(counts_in_expressions(elements, v).take(elements.len() as int)
                =~= counts_in_expressions(elements, v));
            let a = reduced_expressions::<Collect>(seen, elements, elements.len());
            lemma_count_push(a.0, e.node.id, v);
        },
        ExpressionKindView::Tuple(elements) => {
            lemma_expressions_collect(seen, elements, elements.len(), v);
            assert(elements.take(elements.len() as int) =~= elements);
            assert(counts_in_expressions(elements, v).take(elements.len() as int)
                =~= counts_in_expressions(elements, v));
            let a = reduced_expressions::<Collect>(seen, elements, elements.len());
            lemma_count_push(a.0, e.node.id, v);
        },
        ExpressionKindView::Circuit { members, .. } => {
            lemma_member_inits_collect(seen, members, members.len(), v);
            assert(members.take(members.len() as int) =~= members);
            assert(counts_in_member_inits(members, v).take(members.len() as int)
                =~= counts_in_member_inits(members, v));
            let a = reduced_member_inits::<Collect>(seen, members, members.len());
            lemma_count_push(a.0, e.node.id, v);
        },
        ExpressionKindView::Index { array, index } => {
            lemma_expression_collect(seen, *array, v);
            let a = reduced_expression::<Collect>(seen, *array);
            lemma_expression_collect(a.0, *index, v);
            let b = reduced_expression::<Collect>(a.0, *index);
            lemma_count_push(b.0, e.node.id, v);
        },
        ExpressionKindView::Member { object, .. } => {
            lemma_expression_collect(seen, *object, v);
            let a = reduced_expression::<Collect>(seen, *object);
            lemma_count_push(a.0, e.node.id, v);
        },
        ExpressionKindView::TupleAccess { tuple, .. } => {
            lemma_expression_collect(seen, *tuple, v);
            let a = reduced_expression::<Collect>(seen, *tuple);
            lemma_count_push(a.0, e.node.id, v);
        },
        ExpressionKindView::ImplicitMember { .. } => {
            lemma_count_push(seen, e.node.id, v);
        },
        ExpressionKindView::Cast { operand, .. } => {
            lemma_expression_collect(seen, *operand, v);
            let a = reduced_expression::<Collect>(seen, *operand);
            lemma_count_push(a.0, e.node.id, v);
        },
    }
}

proof fn lemma_expressions_collect(seen: Seq<u64>, items: Seq<ExpressionView>, n: nat, v: u64)
    requires
        n <= items.len(),
    ensures
        ({
            let r = reduced_expressions::<Collect>(seen, items, n);
            &&& r.1 == Ok::<_, ReducerError>(items.take(n as int))
            &&& count(r.0, v) == count(seen, v) + sum(counts_in_expressions(items, v).take(n as int))
        }),
    decreases items, n,
{
    if n > 0 {
        lemma_expressions_collect(seen, items, (n - 1) as nat, v);
        let before = reduced_expressions::<Collect>(seen, items, (n - 1) as nat);
        lemma_expression_collect(before.0, items[n - 1], v);
        let last = reduced_expression::<Collect>(before.0, items[n - 1]);
        assert(last.1 == Ok::<_, ReducerError>(items[n - 1]));
        assert(items.take(n - 1).push(items[n - 1]) =~= items.take(n as int));
        lemma_sum_take(counts_in_expressions(items, v), n - 1);
    } else {
        assert(items.take(0) =~= Seq::empty());
        assert(counts_in_expressions(items, v).take(0) =~= Seq::empty());
    }
}

proof fn lemma_member_inits_collect(seen: Seq<u64>, items: Seq<MemberInitView>, n: nat, v: u64)
    requires
        n <= items.len(),
    ensures
        ({
            let r = reduced_member_inits::<Collect>(seen, items, n);
            &&& r.1 == Ok::<_, ReducerError>(items.take(n as int))
            &&& count(r.0, v) == count(seen, v) + sum(counts_in_member_inits(items, v).take(n as int))
        }),
    decreases items, n,
{
    if n > 0 {
        lemma_member_inits_collect(seen, items, (n - 1) as nat, v);
        let before = reduced_member_inits::<Collect>(seen, items, (n - 1) as nat);
        lemma_expression_collect(before.0, items[n - 1].value, v);
        let last = reduced_member_init::<Collect>(before.0, items[n - 1]);
        assert(last.1 == Ok::<_, ReducerError>(items[n - 1]));
        assert(items.take(n - 1).push(items[n - 1]) =~= items.take(n as int));
        lemma_sum_take(counts_in_member_inits(items, v), n - 1);
    } else {
        assert(items.take(0) =~= Seq::empty());
        assert(counts_in_member_inits(items, v).take(0) =~= Seq::empty());
    }
}

proof fn lemma_binding_collect(seen: Seq<u64>, x: BindingView, v: u64)
    ensures
        ({
            let r = reduced_binding::<Collect>(seen, x);
            &&& r.1 == Ok::<_, ReducerError>(x)
            &&& count(r.0, v) == count(seen, v) + one(x.node, v)
        }),
{
    lemma_count_push(seen, x.node.id, v);
}

proof fn lemma_bindings_collect(seen: Seq<u64>, items: Seq<BindingView>, n: nat, v: u64)
    requires
        n <= items.len(),
    ensures
        ({
            let r = reduced_bindings::<Collect>(seen, items, n);
            &&& r.1 == Ok::<_, ReducerError>(items.take(n as int))
            &&& count(r.0, v) == count(seen, v) + sum(counts_in_bindings(items, v).take(n as int))
        }),
    decreases n,
{
    if n > 0 {
        lemma_bindings_collect(seen, items, (n - 1) as nat, v);
        let before = reduced_bindings::<Collect>(seen, items, (n - 1) as nat);
        lemma_binding_collect(before.0, items[n - 1], v);
        let last = reduced_binding::<Collect>(before.0, items[n - 1]);
        assert(last.1 == Ok::<_, ReducerError>(items[n - 1]));
        assert(items.take(n - 1).push(items[n - 1]) =~= items.take(n as int));
        lemma_sum_take(counts_in_bindings(items, v), n - 1);
    } else {
        assert(items.take(0) =~= Seq::empty());
        assert(counts_in_bindings(items, v).take(0) =~= Seq::empty());
    }
}

proof fn lemma_definition_collect(seen: Seq<u64>, d: DefinitionView, v: u64)
    ensures
        ({
            let r = reduced_definition::<Collect>(seen, d);
            &&& r.1 == Ok::<_, ReducerError>(d)
            &&& count(r.0, v) == count(seen, v) + occurrences_in_definition(d, v)
        }),
{
    lemma_bindings_collect(seen, d.bindings, d.bindings.len(), v);
    assert(d.bindings.take(d.bindings.len() as int) =~= d.bindings);
    assert(counts_in_bindings(d.bindings, v).take(d.bindings.len() as int) =~= counts_in_bindings(
        d.bindings,
        v,
    ));
    let a = reduced_bindings::<Collect>(seen, d.bindings, d.bindings.len());
    lemma_expression_collect(a.0, d.value, v);
    let b = reduced_expression::<Collect>(a.0, d.value);
    lemma_count_push(b.0, d.node.id, v);
}

proof fn lemma_definitions_collect(seen: Seq<u64>, items: Seq<DefinitionView>, n: nat, v: u64)
    requires
        n <= items.len(),
    ensures
        ({
            let r = reduced_definitions::<Collect>(seen, items, n);
            &&& r.1 == Ok::<_, ReducerError>(items.take(n as int))
            &&& count(r.0, v) == count(seen, v) + sum(counts_in_definitions(items, v).take(n as int))
        }),
    decreases n,
{
    if n > 0 {
        lemma_definitions_collect(seen, items, (n - 1) as nat, v);
        let before = reduced_definitions::<Collect>(seen, items, (n - 1) as nat);
        lemma_definition_collect(before.0, items[n - 1], v);
        let last = reduced_definition::<Collect>(before.0, items[n - 1]);
        assert(last.1 == Ok::<_, ReducerError>(items[n - 1]));
        assert(items.take(n - 1).push(items[n - 1]) =~= items.take(n as int));
        lemma_sum_take(counts_in_definitions(items, v), n - 1);
    } else {
        assert(items.take(0) =~= Seq::empty());
        assert(counts_in_definitions(items, v).take(0) =~= Seq::empty());
    }
}

proof fn lemma_statement_collect(seen: Seq<u64>, s: StatementView, v: u64)
    ensures
        ({
            let r = reduced_statement::<Collect>(seen, s);
            &&& r.1 == Ok::<_, ReducerError>(s)
            &&& count(r.0, v) == count(seen, v) + occurrences_in_statement(s, v)
        }),
    decreases s, 0nat,
{
    match s {
        StatementView::Return { value, node } => {
            lemma_expression_collect(seen, value, v);
            let a = reduced_expression::<Collect>(seen, value);
            lemma_count_push(a.0, node.id, v);
        },
        StatementView::Definition(d) => {
            lemma_definition_collect(seen, d, v);
        },
        StatementView::Assign { target, value, node, .. } => {
            lemma_expression_collect(seen, target, v);
            let a = reduced_expression::<Collect>(seen, target);
            lemma_expression_collect(a.0, value, v);
            let b = reduced_expression::<Collect>(a.0, value);
            lemma_count_push(b.0, node.id, v);
        },
        StatementView::Conditional { condition, then_block, otherwise, node } => {
            lemma_expression_collect(seen, condition, v);
            let a = reduced_expression::<Collect>(seen, condition);
            lemma_block_collect(a.0, then_block, v);
            let b = reduced_block::<Collect>(a.0, then_block);
            match otherwise {
                None => {
                    lemma_count_push(b.0, node.id, v);
                },
                Some(next) => {
                    lemma_statement_collect(b.0, *next, v);
                    let c = reduced_statement::<Collect>(b.0, *next);
                    lemma_count_push(c.0, node.id, v);
                },
            }
        },
        StatementView::Iteration { start, stop, body, node, .. } => {
            lemma_expression_collect(seen, start, v);
            let a = reduced_expression::<Collect>(seen, start);
            lemma_expression_collect(a.0, stop, v);
            let b = reduced_expression::<Collect>(a.0, stop);
            lemma_block_collect(b.0, body, v);
            let c = reduced_block::<Collect>(b.0, body);
            lemma_count_push(c.0, node.id, v);
        },
        StatementView::Expression { expression, node } => {
            lemma_expression_collect(seen, expression, v);
            let a = reduced_expression::<Collect>(seen, expression);
            lemma_count_push(a.0, node.id, v);
        },
        StatementView::Block(b) => {
            lemma_block_collect(seen, b, v);
        },
    }
}

proof fn lemma_block_collect(seen: Seq<u64>, b: BlockView, v: u64)
    ensures
        ({
            let r = reduced_block::<Collect>(seen, b);
            &&& r.1 == Ok::<_, ReducerError>(b)
            &&& count(r.0, v) == count(seen, v) + occurrences_in_block(b, v)
        }),
    decreases b, 0nat,
{
    lemma_statements_collect(seen, b.statements, b.statements.len(), v);
    assert(b.statements.take(b.statements.len() as int) =~= b.statements);
    assert(counts_in_statements(b.statements, v).take(b.statements.len() as int)
        =~= counts_in_statements(b.statements, v));
    let a = reduced_statements::<Collect>(seen, b.statements, b.statements.len());
    lemma_count_push(a.0, b.node.id, v);
}

proof fn lemma_statements_collect(seen: Seq<u64>, items: Seq<StatementView>, n: nat, v: u64)
    requires
        n <= items.len(),
    ensures
        ({
            let r = reduced_statements::<Collect>(seen, items, n);
            &&& r.1 == Ok::<_, ReducerError>(items.take(n as int))
            &&& count(r.0, v) == count(seen, v) + sum(counts_in_statements(items, v).take(n as int))
        }),
    decreases items, n,
{
    if n > 0 {
        lemma_statements_collect(seen, items, (n - 1) as nat, v);
        let before = reduced_statements::<Collect>(seen, items, (n - 1) as nat);
        lemma_statement_collect(before.0, items[n - 1], v);
        let last = reduced_statement::<Collect>(before.0, items[n - 1]);
        assert(last.1 == Ok::<_, ReducerError>(items[n - 1]));
        assert(items.take(n - 1).push(items[n - 1]) =~= items.take(n as int));
        lemma_sum_take(counts_in_statements(items, v), n - 1);
    } else {
        assert(items.take(0) =~= Seq::empty());
        assert(counts_in_statements(items, v).take(0) =~= Seq::empty());
    }
}

proof fn lemma_import_collect(seen: Seq<u64>, x: ImportView, v: u64)
    ensures
        ({
            let r = reduced_import::<Collect>(seen, x);
            &&& r.1 == Ok::<_, ReducerError>(x)
            &&& count(r.0, v) == count(seen, v) + one(x.node, v)
        }),
{
    lemma_count_push(seen, x.node.id, v);
}

proof fn lemma_imports_collect(seen: Seq<u64>, items: Seq<ImportView>, n: nat, v: u64)
    requires
        n <= items.len(),
    ensures
        ({
            let r = reduced_imports::<Collect>(seen, items, n);
            &&& r.1 == Ok::<_, ReducerError>(items.take(n as int))
            &&& count(r.0, v) == count(seen, v) + sum(counts_in_imports(items, v).take(n as int))
        }),
    decreases n,
{
    if n > 0 {
        lemma_imports_collect(seen, items, (n - 1) as nat, v);
        let before = reduced_imports::<Collect>(seen, items, (n - 1) as nat);
        lemma_import_collect(before.0, items[n - 1], v);
        let last = reduced_import::<Collect>(before.0, items[n - 1]);
        assert(last.1 == Ok::<_, ReducerError>(items[n - 1]));
        assert(items.take(n - 1).push(items[n - 1]) =~= items.take(n as int));
        lemma_sum_take(counts_in_imports(items, v), n - 1);
    } else {
        assert(items.take(0) =~= Seq::empty());
        assert(counts_in_imports(items, v).take(0) =~= Seq::empty());
    }
}

proof fn lemma_annotation_collect(seen: Seq<u64>, x: AnnotationView, v: u64)
    ensures
        ({
            let r = reduced_annotation::<Collect>(seen, x);
            &&& r.1 == Ok::<_, ReducerError>(x)
            &&& count(r.0, v) == count(seen, v) + one(x.node, v)
        }),
{
    lemma_count_push(seen, x.node.id, v);
}

proof fn lemma_annotations_collect(seen: Seq<u64>, items: Seq<AnnotationView>, n: nat, v: u64)
    requires
        n <= items.len(),
    ensures
        ({
            let r = reduced_annotations::<Collect>(seen, items, n);
            &&& r.1 == Ok::<_, ReducerError>(items.take(n as int))
            &&& count(r.0, v) == count(seen, v) + sum(counts_in_annotations(items, v).take(n as int))
        }),
    decreases n,
{
    if n > 0 {
        lemma_annotations_collect(seen, items, (n - 1) as nat, v);
        let before = reduced_annotations::<Collect>(seen, items, (n - 1) as nat);
        lemma_annotation_collect(before.0, items[n - 1], v);
        let last = reduced_annotation::<Collect>(before.0, items[n - 1]);
        assert(last.1 == Ok::<_, ReducerError>(items[n - 1]));
        assert(items.take(n - 1).push(items[n - 1]) =~= items.take(n as int));
        lemma_sum_take(counts_in_annotations(items, v), n - 1);
    } else {
        assert(items.take(0) =~= Seq::empty());
        assert(counts_in_annotations(items, v).take(0) =~= Seq::empty());
    }
}

proof fn lemma_function_input_collect(seen: Seq<u64>, x: FunctionInputView, v: u64)
    ensures
        ({
            let r = reduced_function_input::<Collect>(seen, x);
            &&& r.1 == Ok::<_, ReducerError>(x)
            &&& count(r.0, v) == count(seen, v) + one(x.node, v)
        }),
{
    lemma_count_push(seen, x.node.id, v);
}

proof fn lemma_function_inputs_collect(seen: Seq<u64>, items: Seq<FunctionInputView>, n: nat, v: u64)
    requires
        n <= items.len(),
    ensures
        ({
            let r = reduced_function_inputs::<Collect>(seen, items, n);
            &&& r.1 == Ok::<_, ReducerError>(items.take(n as int))
            &&& count(r.0, v) == count(seen, v) + sum(counts_in_function_inputs(items, v).take(n as int))
        }),
    decreases n,
{
    if n > 0 {
        lemma_function_inputs_collect(seen, items, (n - 1) as nat, v);
        let before = reduced_function_inputs::<Collect>(seen, items, (n - 1) as nat);
        lemma_function_input_collect(before.0, items[n - 1], v);
        let last = reduced_function_input::<Collect>(before.0, items[n - 1]);
        assert(last.1 == Ok::<_, ReducerError>(items[n - 1]));
        assert(items.take(n - 1).push(items[n - 1]) =~= items.take(n as int));
        lemma_sum_take(counts_in_function_inputs(items, v), n - 1);
    } else {
        assert(items.take(0) =~= Seq::empty());
        assert(counts_in_function_inputs(items, v).take(0) =~= Seq::empty());
    }
}

proof fn lemma_circuit_member_collect(seen: Seq<u64>, x: CircuitMemberView, v: u64)
    ensures
        ({
            let r = reduced_circuit_member::<Collect>(seen, x);
            &&& r.1 == Ok::<_, ReducerError>(x)
            &&& count(r.0, v) == count(seen, v) + one(x.node, v)
        }),
{
    lemma_count_push(seen, x.node.id, v);
}

proof fn lemma_circuit_members_collect(seen: Seq<u64>, items: Seq<CircuitMemberView>, n: nat, v: u64)
    requires
        n <= items.len(),
    ensures
        ({
            let r = reduced_circuit_members::<Collect>(seen, items, n);
            &&& r.1 == Ok::<_, ReducerError>(items.take(n as int))
            &&& count(r.0, v) == count(seen, v) + sum(counts_in_circuit_members(items, v).take(n as int))
        }),
    decreases n,
{
    if n > 0 {
        lemma_circuit_members_collect(seen, items, (n - 1) as nat, v);
        let before = reduced_circuit_members::<Collect>(seen, items, (n - 1) as nat);
        lemma_circuit_member_collect(before.0, items[n - 1], v);
        let last = reduced_circuit_member::<Collect>(before.0, items[n - 1]);
        assert(last.1 == Ok::<_, ReducerError>(items[n - 1]));
        assert(items.take(n - 1).push(items[n - 1]) =~= items.take(n as int));
        lemma_sum_take(counts_in_circuit_members(items, v), n - 1);
    } else {
        assert(items.take(0) =~= Seq::empty());
        assert(counts_in_circuit_members(items, v).take(0) =~= Seq::empty());
    }
}

proof fn lemma_function_collect(seen: Seq<u64>, f: FunctionView, v: u64)
    ensures
        ({
            let r = reduced_function::<Collect>(seen, f);
            &&& r.1 == Ok::<_, ReducerError>(f)
            &&& count(r.0, v) == count(seen, v) + occurrences_in_function(f, v)
        }),
{
    lemma_annotations_collect(seen, f.annotations, f.annotations.len(), v);
    assert(f.annotations.take(f.annotations.len() as int) =~= f.annotations);
    assert(counts_in_annotations(f.annotations, v).take(f.annotations.len() as int)
        =~= counts_in_annotations(f.annotations, v));
    let a = reduced_annotations::<Collect>(seen, f.annotations, f.annotations.len());
    lemma_function_inputs_collect(a.0, f.inputs, f.inputs.len(), v);
    assert(f.inputs.take(f.inputs.len() as int) =~= f.inputs);
    assert(counts_in_function_inputs(f.inputs, v).take(f.inputs.len() as int)
        =~= counts_in_function_inputs(f.inputs, v));
    let b = reduced_function_inputs::<Collect>(a.0, f.inputs, f.inputs.len());
    lemma_block_collect(b.0, f.body, v);
    let c = reduced_block::<Collect>(b.0, f.body);
    lemma_count_push(c.0, f.node.id, v);
}

proof fn lemma_functions_collect(seen: Seq<u64>, items: Seq<FunctionView>, n: nat, v: u64)
    requires
        n <= items.len(),
    ensures
        ({
            let r = reduced_functions::<Collect>(seen, items, n);
            &&& r.1 == Ok::<_, ReducerError>(items.take(n as int))
            &&& count(r.0, v) == count(seen, v) + sum(counts_in_functions(items, v).take(n as int))
        }),
    decreases n,
{
    if n > 0 {
        lemma_functions_collect(seen, items, (n - 1) as nat, v);
        let before = reduced_functions::<Collect>(seen, items, (n - 1) as nat);
        lemma_function_collect(before.0, items[n - 1], v);
        let last = reduced_function::<Collect>(before.0, items[n - 1]);
        assert(last.1 == Ok::<_, ReducerError>(items[n - 1]));
        assert(items.take(n - 1).push(items[n - 1]) =~= items.take(n as int));
        lemma_sum_take(counts_in_functions(items, v), n - 1);
    } else {
        assert(items.take(0) =~= Seq::empty());
        assert(counts_in_functions(items, v).take(0) =~= Seq::empty());
    }
}

proof fn lemma_circuit_collect(seen: Seq<u64>, c: CircuitView, v: u64)
    ensures
        ({
            let r = reduced_circuit::<Collect>(seen, c);
            &&& r.1 == Ok::<_, ReducerError>(c)
            &&& count(r.0, v) == count(seen, v) + occurrences_in_circuit(c, v)
        }),
{
    lemma_circuit_members_collect(seen, c.members, c.members.len(), v);
    assert(c.members.take(c.members.len() as int) =~= c.members);
    assert(counts_in_circuit_members(c.members, v).take(c.members.len() as int)
        =~= counts_in_circuit_members(c.members, v));
    let a = reduced_circuit_members::<Collect>(seen, c.members, c.members.len());
    lemma_functions_collect(a.0, c.functions, c.functions.len(), v);
    assert(c.functions.take(c.functions.len() as int) =~= c.functions);
    assert(counts_in_functions(c.functions, v).take(c.functions.len() as int)
        =~= counts_in_functions(c.functions, v));
    let b = reduced_functions::<Collect>(a.0, c.functions, c.functions.len());
    lemma_count_push(b.0, c.node.id, v);
}

proof fn lemma_circuits_collect(seen: Seq<u64>, items: Seq<CircuitView>, n: nat, v: u64)
    requires
        n <= items.len(),
    ensures
        ({
            let r = reduced_circuits::<Collect>(seen, items, n);
            &&& r.1 == Ok::<_, ReducerError>(items.take(n as int))
            &&& count(r.0, v) == count(seen, v) + sum(counts_in_circuits(items, v).take(n as int))
        }),
    decreases n,
{
    if n > 0 {
        lemma_circuits_collect(seen, items, (n - 1) as nat, v);
        let before = reduced_circuits::<Collect>(seen, items, (n - 1) as nat);
        lemma_circuit_collect(before.0, items[n - 1], v);
        let last = reduced_circuit::<Collect>(before.0, items[n - 1]);
        assert(last.1 == Ok::<_, ReducerError>(items[n - 1]));
        assert(items.take(n - 1).push(items[n - 1]) =~= items.take(n as int));
        lemma_sum_take(counts_in_circuits(items, v), n - 1);
    } else {
        assert(items.take(0) =~= Seq::empty());
        assert(counts_in_circuits(items, v).take(0) =~= Seq::empty());
    }
}

/// An identifier is listed among the identifiers of a program as often as it occurs
/// in the program.
pub proof fn lemma_identifiers_are_counted(p: ProgramView, v: u64)
    ensures
        count(identifiers(p), v) == occurrences_in_program(p, v),
{
    let seen = Seq::<u64>::empty();
    lemma_imports_collect(seen, p.imports, p.imports.len(), v);
    assert(p.imports.take(p.imports.len() as int) =~= p.imports);
    assert(counts_in_imports(p.imports, v).take(p.imports.len() as int) =~= counts_in_imports(
        p.imports,
        v,
    ));
    let a = reduced_imports::<Collect>(seen, p.imports, p.imports.len());
    lemma_circuits_collect(a.0, p.circuits, p.circuits.len(), v);
    assert(p.circuits.take(p.circuits.len() as int) =~= p.circuits);
    assert(counts_in_circuits(p.circuits, v).take(p.circuits.len() as int) =~= counts_in_circuits(
        p.circuits,
        v,
    ));
    let b = reduced_circuits::<Collect>(a.0, p.circuits, p.circuits.len());
    lemma_functions_collect(b.0, p.functions, p.functions.len(), v);
    assert(p.functions.take(p.functions.len() as int) =~= p.functions);
    assert(counts_in_functions(p.functions, v).take(p.functions.len() as int)
        =~= counts_in_functions(p.functions, v));
    let c = reduced_functions::<Collect>(b.0, p.functions, p.functions.len());
    lemma_definitions_collect(c.0, p.globals, p.globals.len(), v);
    assert(p.globals.take(p.globals.len() as int) =~= p.globals);
    assert(counts_in_definitions(p.globals, v).take(p.globals.len() as int)
        =~= counts_in_definitions(p.globals, v));
}

/// Whether no identifier occurs twice in the program `p`.
pub fn has_distinct_identifiers(p: &Program) -> (r: bool)
    ensures
        r == distinct_identifiers(p@),
{
    let listed = identifiers_of(p);
    let r = all_different(&listed);
    proof {
        if r {
            assert forall|v: u64| #[trigger] occurrences_in_program(p@, v) <= 1 by {
                lemma_identifiers_are_counted(p@, v);
                assert(count(listed@, v) <= 1);
            }
        } else if distinct_identifiers(p@) {
            assert forall|v: u64| #[trigger] count(listed@, v) <= 1 by {
                lemma_identifiers_are_counted(p@, v);
                assert(occurrences_in_program(p@, v) <= 1);
            }
        }
    }
    r
}

} // verus!
