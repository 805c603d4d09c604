//! Every tree has a rewriting: the traversal covers every kind of node.

use vstd::prelude::*;
use vstd::pervasive::unreached;
use crate::director::{
    reduced_block, reduced_circuit, reduced_circuits, reduced_definition, reduced_definitions,
    reduced_expression, reduced_expressions, reduced_function, reduced_functions, reduced_member_init,
    reduced_member_inits, reduced_program, reduced_statement, reduced_statements,
    ReconstructingDirector,
};
use crate::errors::ReducerError;
use crate::leaves::{
    keeps_annotations, keeps_bindings, keeps_circuit_members, keeps_function_inputs, keeps_imports,
    keeps_types, lemma_kept_annotations, lemma_kept_bindings, lemma_kept_circuit_members,
    lemma_kept_function_inputs, lemma_kept_imports,
};
use crate::expression::{Expression, ExpressionKindView, ExpressionView, MemberInitView};
use crate::program::{CircuitView, Function, FunctionView, Program, ProgramView};
use crate::reducer::PassThrough;
use crate::statements::{BlockView, DefinitionView, Statement, StatementView};

verus! {

proof fn lemma_kept_expression(e: ExpressionView)
    ensures
        reduced_expression::<PassThrough>((), e) == ((), Ok::<_, ReducerError>(e)),
    decreases e, 0nat,
{
    match e.kind {
        ExpressionKindView::Literal(_) => {},
        ExpressionKindView::Identifier(_) => {},
        ExpressionKindView::Unary { operand, .. } => {
            lemma_kept_expression(*operand);
        },
        ExpressionKindView::Binary { left, right, .. } => {
            lemma_kept_expression(*left);
            lemma_kept_expression(*right);
        },
        ExpressionKindView::Ternary { condition, if_true, if_false } => {
            lemma_kept_expression(*condition);
            lemma_kept_expression(*if_true);
            lemma_kept_expression(*if_false);
        },
        ExpressionKindView::Call { arguments, .. } => {
            lemma_kept_expressions(arguments, arguments.len());
            assert(arguments.take(arguments.len() as int) =~= arguments);
        },
        ExpressionKindView::Array(elements) => {
            lemma_kept_expressions(elements, elements.len());
            assert(elements.take(elements.len() as int) =~= elements);
        },
        ExpressionKindView::Tuple(elements) => {
            lemma_kept_expressions(elements, elements.len());
            assert(elements.take(elements.len() as int) =~= elements);
        },
        ExpressionKindView::Circuit { members, .. } => {
            lemma_kept_member_inits(members, members.len());
            assert(members.take(members.len() as int) =~= members);
        },
        ExpressionKindView::Index { array, index } => {
            lemma_kept_expression(*array);
            lemma_kept_expression(*index);
        },
        ExpressionKindView::Member { object, .. } => {
            lemma_kept_expression(*object);
        },
        ExpressionKindView::TupleAccess { tuple, .. } => {
            lemma_kept_expression(*tuple);
        },
        ExpressionKindView::ImplicitMember { .. } => {},
        ExpressionKindView::Cast { operand, .. } => {
            lemma_kept_expression(*operand);
        },
    }
}

proof fn lemma_kept_member_init(m: MemberInitView)
    ensures
        reduced_member_init::<PassThrough>((), m) == ((), Ok::<_, ReducerError>(m)),
    decreases m, 0nat,
{
    lemma_kept_expression(m.value);
}

proof fn lemma_kept_expressions(items: Seq<ExpressionView>, n: nat)
    requires
        n <= items.len(),
    ensures
        reduced_expressions::<PassThrough>((), items, n) == ((), Ok::<_, ReducerError>(items.take(n as int))),
    decreases items, n,
{
    if n > 0 {
        lemma_kept_expressions(items, (n - 1) as nat);
        lemma_kept_expression(items[n - 1]);
        assert(items.take(n - 1).push(items[n - 1]) =~= items.take(n as int));
    } else {
        assert(items.take(0) =~= Seq::empty());
    }
}

proof fn lemma_kept_member_inits(items: Seq<MemberInitView>, n: nat)
    requires
        n <= items.len(),
    ensures
        reduced_member_inits::<PassThrough>((), items, n) == ((), Ok::<_, ReducerError>(items.take(n as int))),
    decreases items, n,
{
    if n > 0 {
        lemma_kept_member_inits(items, (n - 1) as nat);
        lemma_kept_member_init(items[n - 1]);
        assert(items.take(n - 1).push(items[n - 1]) =~= items.take(n as int));
    } else {
        assert(items.take(0) =~= Seq::empty());
    }
}

proof fn lemma_kept_statements(items: Seq<StatementView>, n: nat)
    requires
        n <= items.len(),
    ensures
        reduced_statements::<PassThrough>((), items, n) == ((), Ok::<_, ReducerError>(items.take(n as int))),
    decreases items, n,
{
    if n > 0 {
        lemma_kept_statements(items, (n - 1) as nat);
        lemma_kept_statement(items[n - 1]);
        assert(items.take(n - 1).push(items[n - 1]) =~= items.take(n as int));
    } else {
        assert(items.take(0) =~= Seq::empty());
    }
}

/// The pass that keeps every node keeps the leaves of a tree.
pub proof fn lemma_pass_through_keeps_leaves()
    ensures
        keeps_types::<PassThrough>(),
        keeps_bindings::<PassThrough>(),
        keeps_imports::<PassThrough>(),
        keeps_circuit_members::<PassThrough>(),
        keeps_annotations::<PassThrough>(),
        keeps_function_inputs::<PassThrough>(),
{
}

proof fn lemma_kept_definition(d: DefinitionView)
    ensures
        reduced_definition::<PassThrough>((), d) == ((), Ok::<_, ReducerError>(d)),
{
    lemma_pass_through_keeps_leaves();
    lemma_kept_bindings::<PassThrough>((), d.bindings, d.bindings.len());
    assert(d.bindings.take(d.bindings.len() as int) =~= d.bindings);
    lemma_kept_expression(d.value);
}

proof fn lemma_kept_statement(s: StatementView)
    ensures
        reduced_statement::<PassThrough>((), s) == ((), Ok::<_, ReducerError>(s)),
    decreases s, 0nat,
{
    match s {
        StatementView::Return { value, .. } => {
            lemma_kept_expression(value);
        },
        StatementView::Definition(d) => {
            lemma_kept_definition(d);
        },
        StatementView::Assign { target, value, .. } => {
            lemma_kept_expression(target);
            lemma_kept_expression(value);
        },
        StatementView::Conditional { condition, then_block, otherwise, .. } => {
            lemma_kept_expression(condition);
            lemma_kept_block(then_block);
            match otherwise {
                None => {},
                Some(next) => {
                    lemma_kept_statement(*next);
                },
            }
        },
        StatementView::Iteration { start, stop, body, .. } => {
            lemma_kept_expression(start);
            lemma_kept_expression(stop);
            lemma_kept_block(body);
        },
        StatementView::Expression { expression, .. } => {
            lemma_kept_expression(expression);
        },
        StatementView::Block(b) => {
            lemma_kept_block(b);
        },
    }
}

proof fn lemma_kept_block(b: BlockView)
    ensures
        reduced_block::<PassThrough>((), b) == ((), Ok::<_, ReducerError>(b)),
    decreases b, 0nat,
{
    lemma_kept_statements(b.statements, b.statements.len());
    assert(b.statements.take(b.statements.len() as int) =~= b.statements);
}

proof fn lemma_kept_function(f: FunctionView)
    ensures
        reduced_function::<PassThrough>((), f) == ((), Ok::<_, ReducerError>(f)),
{
    lemma_pass_through_keeps_leaves();
    lemma_kept_annotations::<PassThrough>((), f.annotations, f.annotations.len());
    assert(f.annotations.take(f.annotations.len() as int) =~= f.annotations);
    lemma_kept_function_inputs::<PassThrough>((), f.inputs, f.inputs.len());
    assert(f.inputs.take(f.inputs.len() as int) =~= f.inputs);
    lemma_kept_block(f.body);
}

proof fn lemma_kept_circuit(c: CircuitView)
    ensures
        reduced_circuit::<PassThrough>((), c) == ((), Ok::<_, ReducerError>(c)),
{
    lemma_pass_through_keeps_leaves();
    lemma_kept_circuit_members::<PassThrough>((), c.members, c.members.len());
    assert(c.members.take(c.members.len() as int) =~= c.members);
    lemma_kept_functions(c.functions, c.functions.len());
    assert(c.functions.take(c.functions.len() as int) =~= c.functions);
}

proof fn lemma_kept_definitions(items: Seq<DefinitionView>, n: nat)
    requires
        n <= items.len(),
    ensures
        reduced_definitions::<PassThrough>((), items, n) == ((), Ok::<_, ReducerError>(items.take(n as int))),
    decreases n,
{
    if n > 0 {
        lemma_kept_definitions(items, (n - 1) as nat);
        lemma_kept_definition(items[n - 1]);
        assert(items.take(n - 1).push(items[n - 1]) =~= items.take(n as int));
    } else {
        assert(items.take(0) =~= Seq::empty());
    }
}

proof fn lemma_kept_functions(items: Seq<FunctionView>, n: nat)
    requires
        n <= items.len(),
    ensures
        reduced_functions::<PassThrough>((), items, n) == ((), Ok::<_, ReducerError>(items.take(n as int))),
    decreases n,
{
    if n > 0 {
        lemma_kept_functions(items, (n - 1) as nat);
        lemma_kept_function(items[n - 1]);
        assert(items.take(n - 1).push(items[n - 1]) =~= items.take(n as int));
    } else {
        assert(items.take(0) =~= Seq::empty());
    }
}

proof fn lemma_kept_circuits(items: Seq<CircuitView>, n: nat)
    requires
        n <= items.len(),
    ensures
        reduced_circuits::<PassThrough>((), items, n) == ((), Ok::<_, ReducerError>(items.take(n as int))),
    decreases n,
{
    if n > 0 {
        lemma_kept_circuits(items, (n - 1) as nat);
        lemma_kept_circuit(items[n - 1]);
        assert(items.take(n - 1).push(items[n - 1]) =~= items.take(n as int));
    } else {
        assert(items.take(0) =~= Seq::empty());
    }
}

/// The traversal is defined on every tree, whatever kinds of node it holds: driven
/// by the pass that keeps every node, it rewrites each program to itself, and so
/// neither fails nor loses a node.
pub proof fn lemma_pass_through_keeps_program(p: ProgramView)
    ensures
        reduced_program::<PassThrough>((), p) == ((), Ok::<_, ReducerError>(p)),
{
    lemma_pass_through_keeps_leaves();
    lemma_kept_imports::<PassThrough>((), p.imports, p.imports.len());
    assert(p.imports.take(p.imports.len() as int) =~= p.imports);
    lemma_kept_circuits(p.circuits, p.circuits.len());
    assert(p.circuits.take(p.circuits.len() as int) =~= p.circuits);
    lemma_kept_functions(p.functions, p.functions.len());
    assert(p.functions.take(p.functions.len() as int) =~= p.functions);
    lemma_kept_definitions(p.globals, p.globals.len());
    assert(p.globals.take(p.globals.len() as int) =~= p.globals);
}

/// With the pass that keeps every node, rewriting an expression or a statement
/// returns it as it was.
pub proof fn lemma_pass_through_keeps_nodes(e: ExpressionView, s: StatementView)
    ensures
        reduced_expression::<PassThrough>((), e) == ((), Ok::<_, ReducerError>(e)),
        reduced_statement::<PassThrough>((), s) == ((), Ok::<_, ReducerError>(s)),
{
    lemma_kept_expression(e);
    lemma_kept_statement(s);
}

impl Clone for Program {
    /// A copy of this program, made by the traversal with the pass that keeps every
    /// node.
    fn clone(&self) -> (r: Self)
        ensures
            r@ == self@,
    {
        proof {
            lemma_pass_through_keeps_program(self@);
        }
        let mut director = ReconstructingDirector::new(PassThrough {});
        match director.reduce_program(self) {
            Ok(copy) => copy,
            Err(_) => unreached(),
        }
    }
}

impl Clone for Expression {
    /// A copy of this expression.
    fn clone(&self) -> (r: Self)
        ensures
            r@ == self@,
    {
        proof {
            lemma_kept_expression(self@);
        }
        let mut director = ReconstructingDirector::new(PassThrough {});
        match director.reduce_expression(self) {
            Ok(copy) => copy,
            Err(_) => unreached(),
        }
    }
}

impl Clone for Statement {
    /// A copy of this statement.
    fn clone(&self) -> (r: Self)
        ensures
            r@ == self@,
    {
        proof {
            lemma_kept_statement(self@);
        }
        let mut director = ReconstructingDirector::new(PassThrough {});
        match director.reduce_statement(self) {
            Ok(copy) => copy,
            Err(_) => unreached(),
        }
    }
}

impl Clone for Function {
    /// A copy of this function.
    fn clone(&self) -> (r: Self)
        ensures
            r@ == self@,
    {
        proof {
            lemma_kept_function(self@);
        }
        let mut director = ReconstructingDirector::new(PassThrough {});
        match director.reduce_function(self) {
            Ok(copy) => copy,
            Err(_) => unreached(),
        }
    }
}

} // verus!
