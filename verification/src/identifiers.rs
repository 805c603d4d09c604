//! How often an identifier occurs in a tree.
//!
//! The identifiers of a tree are distinct when none occurs in it more than once.

use vstd::prelude::*;
use std::collections::HashSet;
use crate::expression::{ExpressionKindView, ExpressionView, MemberInitView};
use crate::node::Node;
use crate::program::{
    AnnotationView, CircuitMemberView, CircuitView, FunctionInputView, FunctionView, ImportView,
    ProgramView,
};
use crate::statements::{BindingView, BlockView, DefinitionView, StatementView};

verus! {

/// The sum of the numbers of `s`.
pub open spec fn sum(s: Seq<nat>) -> nat
    decreases s.len(),
{
    if s.len() == 0 {
        0
    } else {
        sum(s.drop_last()) + s.last()
    }
}

/// The sum of a list with one number more is the sum of the list and that number.
pub proof fn lemma_sum_push(s: Seq<nat>, x: nat)
    ensures
        sum(s.push(x)) == sum(s) + x,
{
    assert(s.push(x).drop_last() =~= s);
}

/// The sum of two lists, one after the other, is the sum of their sums.
pub proof fn lemma_sum_add(a: Seq<nat>, b: Seq<nat>)
    ensures
        sum(a + b) == sum(a) + sum(b),
    decreases b.len(),
{
    if b.len() == 0 {
        assert(a + b =~= a);
    } else {
        lemma_sum_add(a, b.drop_last());
        assert((a + b).drop_last() =~= a + b.drop_last());
    }
}

/// The sum of the first `n` numbers and the next is the sum of the first `n + 1`.
pub proof fn lemma_sum_take(s: Seq<nat>, n: int)
    requires
        0 <= n < s.len(),
    ensures
        sum(s.take(n + 1)) == sum(s.take(n)) + s[n],
{
    assert(s.take(n + 1).drop_last() =~= s.take(n));
}

/// One if `node` has the identifier `v`, else zero.
pub open spec fn one(node: Node, v: u64) -> nat {
    if node.id == v {
        1
    } else {
        0
    }
}

/// How many nodes of the expression `e` have the identifier `v`.
pub open spec fn occurrences_in_expression(e: ExpressionView, v: u64) -> nat
    decreases e, 0nat,
{
    one(e.node, v) + match e.kind {
        ExpressionKindView::Literal(_) => 0,
        ExpressionKindView::Identifier(_) => 0,
        ExpressionKindView::Unary { operand, .. } => occurrences_in_expression(*operand, v),
        ExpressionKindView::Binary { left, right, .. } => occurrences_in_expression(*left, v)
            + occurrences_in_expression(*right, v),
        ExpressionKindView::Ternary { condition, if_true, if_false } => occurrences_in_expression(
            *condition,
            v,
        ) + occurrences_in_expression(*if_true, v) + occurrences_in_expression(*if_false, v),
        ExpressionKindView::Call { arguments, .. } => sum(counts_in_expressions(arguments, v)),
        ExpressionKindView::Array(elements) => sum(counts_in_expressions(elements, v)),
        ExpressionKindView::Tuple(elements) => sum(counts_in_expressions(elements, v)),
        ExpressionKindView::Circuit { members, .. } => sum(counts_in_member_inits(members, v)),
        ExpressionKindView::Index { array, index } => occurrences_in_expression(*array, v)
            + occurrences_in_expression(*index, v),
        ExpressionKindView::Member { object, .. } => occurrences_in_expression(*object, v),
        ExpressionKindView::TupleAccess { tuple, .. } => occurrences_in_expression(*tuple, v),
        ExpressionKindView::ImplicitMember { .. } => 0,
        ExpressionKindView::Cast { operand, .. } => occurrences_in_expression(*operand, v),
    }
}

/// For each expression of `items`, how many of its nodes have the identifier `v`.
pub open spec fn counts_in_expressions(items: Seq<ExpressionView>, v: u64) -> Seq<nat>
    decreases items, 1nat,
{
    Seq::new(
        items.len(),
        |i: int| if 0 <= i < items.len() { occurrences_in_expression(items[i], v) } else { 0 },
    )
}

/// For each member of `items`, how many nodes of its value have the identifier `v`.
pub open spec fn counts_in_member_inits(items: Seq<MemberInitView>, v: u64) -> Seq<nat>
    decreases items, 1nat,
{
    Seq::new(
        items.len(),
        |i: int| if 0 <= i < items.len() { occurrences_in_expression(items[i].value, v) } else { 0 },
    )
}

pub open spec fn counts_in_bindings(items: Seq<BindingView>, v: u64) -> Seq<nat> {
    Seq::new(items.len(), |i: int| one(items[i].node, v))
}

/// How many nodes of the definition `d` have the identifier `v`.
pub open spec fn occurrences_in_definition(d: DefinitionView, v: u64) -> nat {
    one(d.node, v) + sum(counts_in_bindings(d.bindings, v)) + occurrences_in_expression(d.value, v)
}

pub open spec fn counts_in_definitions(items: Seq<DefinitionView>, v: u64) -> Seq<nat> {
    Seq::new(items.len(), |i: int| occurrences_in_definition(items[i], v))
}

/// How many nodes of the statement `s` have the identifier `v`.
pub open spec fn occurrences_in_statement(s: StatementView, v: u64) -> nat
    decreases s, 0nat,
{
    match s {
        StatementView::Return { node, value } => one(node, v) + occurrences_in_expression(value, v),
        StatementView::Definition(d) => occurrences_in_definition(d, v),
        StatementView::Assign { node, target, value, .. } => one(node, v) + occurrences_in_expression(
            target,
            v,
        ) + occurrences_in_expression(value, v),
        StatementView::Conditional { node, condition, then_block, otherwise } => one(node, v)
            + occurrences_in_expression(condition, v) + one(then_block.node, v) + sum(
            counts_in_statements(then_block.statements, v),
        ) + match otherwise {
            Some(next) => occurrences_in_statement(*next, v),
            None => 0,
        },
        StatementView::Iteration { node, start, stop, body, .. } => one(node, v)
            + occurrences_in_expression(start, v) + occurrences_in_expression(stop, v) + one(
            body.node,
            v,
        ) + sum(counts_in_statements(body.statements, v)),
        StatementView::Expression { node, expression } => one(node, v) + occurrences_in_expression(
            expression,
            v,
        ),
        StatementView::Block(b) => one(b.node, v) + sum(counts_in_statements(b.statements, v)),
    }
}

pub open spec fn counts_in_statements(items: Seq<StatementView>, v: u64) -> Seq<nat>
    decreases items, 1nat,
{
    Seq::new(
        items.len(),
        |i: int| if 0 <= i < items.len() { occurrences_in_statement(items[i], v) } else { 0 },
    )
}

/// How many nodes of the block `b` have the identifier `v`.
pub open spec fn occurrences_in_block(b: BlockView, v: u64) -> nat {
    one(b.node, v) + sum(counts_in_statements(b.statements, v))
}

pub open spec fn counts_in_imports(items: Seq<ImportView>, v: u64) -> Seq<nat> {
    Seq::new(items.len(), |i: int| one(items[i].node, v))
}

pub open spec fn counts_in_annotations(items: Seq<AnnotationView>, v: u64) -> Seq<nat> {
    Seq::new(items.len(), |i: int| one(items[i].node, v))
}

pub open spec fn counts_in_function_inputs(items: Seq<FunctionInputView>, v: u64) -> Seq<nat> {
    Seq::new(items.len(), |i: int| one(items[i].node, v))
}

pub open spec fn counts_in_circuit_members(items: Seq<CircuitMemberView>, v: u64) -> Seq<nat> {
    Seq::new(items.len(), |i: int| one(items[i].node, v))
}

/// How many nodes of the function `f` have the identifier `v`.
pub open spec fn occurrences_in_function(f: FunctionView, v: u64) -> nat {
    one(f.node, v) + sum(counts_in_annotations(f.annotations, v)) + sum(
        counts_in_function_inputs(f.inputs, v),
    ) + occurrences_in_block(f.body, v)
}

pub open spec fn counts_in_functions(items: Seq<FunctionView>, v: u64) -> Seq<nat> {
    Seq::new(items.len(), |i: int| occurrences_in_function(items[i], v))
}

/// How many nodes of the circuit `c` have the identifier `v`.
pub open spec fn occurrences_in_circuit(c: CircuitView, v: u64) -> nat {
    one(c.node, v) + sum(counts_in_circuit_members(c.members, v)) + sum(
        counts_in_functions(c.functions, v),
    )
}

pub open spec fn counts_in_circuits(items: Seq<CircuitView>, v: u64) -> Seq<nat> {
    Seq::new(items.len(), |i: int| occurrences_in_circuit(items[i], v))
}

/// How many nodes of the program `p` have the identifier `v`.
pub open spec fn occurrences_in_program(p: ProgramView, v: u64) -> nat {
    sum(counts_in_imports(p.imports, v)) + sum(counts_in_circuits(p.circuits, v)) + sum(
        counts_in_functions(p.functions, v),
    ) + sum(counts_in_definitions(p.globals, v))
}

/// No identifier occurs twice in the program `p`.
pub open spec fn distinct_identifiers(p: ProgramView) -> bool {
    forall|v: u64| #[trigger] occurrences_in_program(p, v) <= 1
}

/// How often `v` occurs in the list `s`.
pub open spec fn count(s: Seq<u64>, v: u64) -> nat
    decreases s.len(),
{
    if s.len() == 0 {
        0
    } else {
        count(s.drop_last(), v) + if s.last() == v {
            1nat
        } else {
            0nat
        }
    }
}

/// An item more is an occurrence more of that item, and of no other.
pub proof fn lemma_count_push(s: Seq<u64>, x: u64, v: u64)
    ensures
        count(s.push(x), v) == count(s, v) + if x == v {
            1nat
        } else {
            0nat
        },
{
    assert(s.push(x).drop_last() =~= s);
}

/// What is at no position of a list does not occur in it.
pub proof fn lemma_count_absent(s: Seq<u64>, v: u64)
    requires
        forall|i: int| 0 <= i < s.len() ==> s[i] != v,
    ensures
        count(s, v) == 0,
    decreases s.len(),
{
    if s.len() > 0 {
        lemma_count_absent(s.drop_last(), v);
    }
}

/// What is at a position of a list occurs in it.
pub proof fn lemma_count_present(s: Seq<u64>, i: int, v: u64)
    requires
        0 <= i < s.len(),
        s[i] == v,
    ensures
        count(s, v) >= 1,
    decreases s.len(),
{
    if i < s.len() - 1 {
        lemma_count_present(s.drop_last(), i, v);
    }
}

/// What is at two positions of a list occurs in it twice.
pub proof fn lemma_count_twice(s: Seq<u64>, i: int, j: int, v: u64)
    requires
        0 <= i < j < s.len(),
        s[i] == v,
        s[j] == v,
    ensures
        count(s, v) >= 2,
    decreases s.len(),
{
    if j < s.len() - 1 {
        lemma_count_twice(s.drop_last(), i, j, v);
    } else {
        lemma_count_present(s.drop_last(), i, v);
    }
}

/// In a list that holds no item at two positions, no item occurs twice.
pub proof fn lemma_count_once(s: Seq<u64>, v: u64)
    requires
        forall|i: int, j: int| 0 <= i < j < s.len() ==> s[i] != s[j],
    ensures
        count(s, v) <= 1,
    decreases s.len(),
{
    if s.len() > 0 {
        let t = s.drop_last();
        lemma_count_once(t, v);
        if s.last() == v {
            assert forall|i: int| 0 <= i < t.len() implies t[i] != v by {
                assert(s[i] != s[s.len() - 1]);
            }
            lemma_count_absent(t, v);
        }
    }
}

/// Whether no item occurs twice in `items`.
pub fn all_different(items: &Vec<u64>) -> (r: bool)
    ensures
        r == (forall|v: u64| #[trigger] count(items@, v) <= 1),
{
    broadcast use vstd::std_specs::hash::group_hash_axioms;

    let mut seen = HashSet::<u64>::new();
    let mut i: usize = 0;
    while i < items.len()
        invariant
            i <= items.len(),
            forall|x: u64| seen@.contains(x) ==> exists|a: int| 0 <= a < i && items[a] == x,
            forall|a: int| 0 <= a < i ==> seen@.contains(#[trigger] items[a]),
            forall|a: int, b: int| 0 <= a < b < i ==> items[a] != items[b],
        decreases items.len() - i,
    {
        let item = items[i];
        if !seen.insert(item) {
            proof {
                let a = choose|a: int| 0 <= a < i && items[a] == item;
                lemma_count_twice(items@, a, i as int, item);
            }
            return false;
        }
        i = i + 1;
    }
    assert forall|v: u64| #[trigger] count(items@, v) <= 1 by {
        lemma_count_once(items@, v);
    }
    true
}

} // verus!
