//! The engine that drives a rewriting pass over a tree, children before parents.

use vstd::prelude::*;
use crate::errors::{outcome_view, ReducerError};
use crate::expression::{
    expressions_view, member_inits_view, Expression, ExpressionKind, ExpressionKindView, ExpressionView,
    MemberInit, MemberInitView,
};
use crate::program::{
    annotations_view, circuit_members_view, circuits_view, functions_view, imports_view, inputs_view,
    Annotation, AnnotationView, Circuit, CircuitMember, CircuitMemberView, CircuitView, Function,
    FunctionInput, FunctionInputView, FunctionView, Import, ImportView, Program, ProgramView,
};
use crate::reducer::Reducer;
use crate::statements::{
    bindings_view, definitions_view, statements_view, Binding, BindingView, Block, BlockView, Definition,
    DefinitionView, Statement, StatementView,
};
use crate::types::{optional_type_view, Type, TypeView};

verus! {

/// The result of rewriting the type `t`.
pub open spec fn reduced_type<R: Reducer>(state: R::V, t: TypeView) -> (
    R::V,
    Result<TypeView, ReducerError>,
) {
    R::type_rule(state, t)
}

/// The result of rewriting the type `t`, if there is one.
pub open spec fn reduced_optional_type<R: Reducer>(state: R::V, t: Option<TypeView>) -> (
    R::V,
    Result<Option<TypeView>, ReducerError>,
) {
    match t {
        None => (state, Ok(None)),
        Some(t) => {
            let a = reduced_type::<R>(state, t);
            if a.1 is Err {
                (a.0, Err(a.1->Err_0))
            } else {
                (a.0, Ok(Some(a.1->Ok_0)))
            }
        },
    }
}

/// The result of rewriting the expression `e`: first its children, from left to right,
/// then `e` itself by the operation of its kind.
pub open spec fn reduced_expression<R: Reducer>(state: R::V, e: ExpressionView) -> (
    R::V,
    Result<ExpressionView, ReducerError>,
)
    decreases e, 0nat,
{
    match e.kind {
        ExpressionKindView::Literal(_) => R::literal_rule(state, e),
        ExpressionKindView::Identifier(_) => R::identifier_rule(state, e),
        ExpressionKindView::Unary { operand, .. } => {
            let a = reduced_expression::<R>(state, *operand);
            if a.1 is Err {
                a
            } else {
                R::unary_rule(a.0, e, a.1->Ok_0)
            }
        },
        ExpressionKindView::Binary { left, right, .. } => {
            let a = reduced_expression::<R>(state, *left);
            if a.1 is Err {
                a
            } else {
                let b = reduced_expression::<R>(a.0, *right);
                if b.1 is Err {
                    b
                } else {
                    R::binary_rule(b.0, e, a.1->Ok_0, b.1->Ok_0)
                }
            }
        },
        ExpressionKindView::Ternary { condition, if_true, if_false } => {
            let a = reduced_expression::<R>(state, *condition);
            if a.1 is Err {
                a
            } else {
                let b = reduced_expression::<R>(a.0, *if_true);
                if b.1 is Err {
                    b
                } else {
                    let c = reduced_expression::<R>(b.0, *if_false);
                    if c.1 is Err {
                        c
                    } else {
                        R::ternary_rule(c.0, e, a.1->Ok_0, b.1->Ok_0, c.1->Ok_0)
                    }
                }
            }
        },
        ExpressionKindView::Call { arguments, .. } => {
            let a = reduced_expressions::<R>(state, arguments, arguments.len());
            if a.1 is Err {
                (a.0, Err(a.1->Err_0))
            } else {
                R::call_rule(a.0, e, a.1->Ok_0)
            }
        },
        ExpressionKindView::Array(elements) => {
            let a = reduced_expressions::<R>(state, elements, elements.len());
            if a.1 is Err {
                (a.0, Err(a.1->Err_0))
            } else {
                R::array_rule(a.0, e, a.1->Ok_0)
            }
        },
        ExpressionKindView::Tuple(elements) => {
            let a = reduced_expressions::<R>(state, elements, elements.len());
            if a.1 is Err {
                (a.0, Err(a.1->Err_0))
            } else {
                R::tuple_rule(a.0, e, a.1->Ok_0)
            }
        },
        ExpressionKindView::Circuit { members, .. } => {
            let a = reduced_member_inits::<R>(state, members, members.len());
            if a.1 is Err {
                (a.0, Err(a.1->Err_0))
            } else {
                R::circuit_init_rule(a.0, e, a.1->Ok_0)
            }
        },
        ExpressionKindView::Index { array, index } => {
            let a = reduced_expression::<R>(state, *array);
            if a.1 is Err {
                a
            } else {
                let b = reduced_expression::<R>(a.0, *index);
                if b.1 is Err {
                    b
                } else {
                    R::index_rule(b.0, e, a.1->Ok_0, b.1->Ok_0)
                }
            }
        },
        ExpressionKindView::Member { object, .. } => {
            let a = reduced_expression::<R>(state, *object);
            if a.1 is Err {
                a
            } else {
                R::member_rule(a.0, e, a.1->Ok_0)
            }
        },
        ExpressionKindView::TupleAccess { tuple, .. } => {
            let a = reduced_expression::<R>(state, *tuple);
            if a.1 is Err {
                a
            } else {
                R::tuple_access_rule(a.0, e, a.1->Ok_0)
            }
        },
        ExpressionKindView::ImplicitMember { .. } => R::implicit_member_rule(state, e),
        ExpressionKindView::Cast { operand, target } => {
            let a = reduced_expression::<R>(state, *operand);
            if a.1 is Err {
                a
            } else {
                let b = reduced_type::<R>(a.0, target);
                if b.1 is Err {
                    (b.0, Err(b.1->Err_0))
                } else {
                    R::cast_rule(b.0, e, a.1->Ok_0, b.1->Ok_0)
                }
            }
        },
    }
}

/// The result of rewriting the value of the member `m` of a circuit expression.
pub open spec fn reduced_member_init<R: Reducer>(state: R::V, m: MemberInitView) -> (
    R::V,
    Result<MemberInitView, ReducerError>,
)
    decreases m, 0nat,
{
    let a = reduced_expression::<R>(state, m.value);
    if a.1 is Err {
        (a.0, Err(a.1->Err_0))
    } else {
        (a.0, Ok(MemberInitView { name: m.name, value: a.1->Ok_0 }))
    }
}

/// The result of rewriting the first `n` of `items` in turn: the state of the pass
/// afterwards and the rewritten items, or the first error and the state it left.
pub open spec fn reduced_expressions<R: Reducer>(state: R::V, items: Seq<ExpressionView>, n: nat) -> (
    R::V,
    Result<Seq<ExpressionView>, ReducerError>,
)
    decreases items, n,
{
    if n == 0 || n > items.len() {
        (state, Ok(Seq::empty()))
    } else {
        let before = reduced_expressions::<R>(state, items, (n - 1) as nat);
        if before.1 is Err {
            before
        } else {
            let last = reduced_expression::<R>(before.0, items[n - 1]);
            if last.1 is Err {
                (last.0, Err(last.1->Err_0))
            } else {
                (last.0, Ok(before.1->Ok_0.push(last.1->Ok_0)))
            }
        }
    }
}

/// The result of rewriting the first `n` of `items` in turn: the state of the pass
/// afterwards and the rewritten items, or the first error and the state it left.
pub open spec fn reduced_member_inits<R: Reducer>(state: R::V, items: Seq<MemberInitView>, n: nat) -> (
    R::V,
    Result<Seq<MemberInitView>, ReducerError>,
)
    decreases items, n,
{
    if n == 0 || n > items.len() {
        (state, Ok(Seq::empty()))
    } else {
        let before = reduced_member_inits::<R>(state, items, (n - 1) as nat);
        if before.1 is Err {
            before
        } else {
            let last = reduced_member_init::<R>(before.0, items[n - 1]);
            if last.1 is Err {
                (last.0, Err(last.1->Err_0))
            } else {
                (last.0, Ok(before.1->Ok_0.push(last.1->Ok_0)))
            }
        }
    }
}

/// The result of rewriting the first `n` of `items` in turn: the state of the pass
/// afterwards and the rewritten items, or the first error and the state it left.
pub open spec fn reduced_statements<R: Reducer>(state: R::V, items: Seq<StatementView>, n: nat) -> (
    R::V,
    Result<Seq<StatementView>, ReducerError>,
)
    decreases items, n,
{
    if n == 0 || n > items.len() {
        (state, Ok(Seq::empty()))
    } else {
        let before = reduced_statements::<R>(state, items, (n - 1) as nat);
        if before.1 is Err {
            before
        } else {
            let last = reduced_statement::<R>(before.0, items[n - 1]);
            if last.1 is Err {
                (last.0, Err(last.1->Err_0))
            } else {
                (last.0, Ok(before.1->Ok_0.push(last.1->Ok_0)))
            }
        }
    }
}

/// The result of rewriting the name `b` of a definition: first its type, then `b`.
pub open spec fn reduced_binding<R: Reducer>(state: R::V, b: BindingView) -> (
    R::V,
    Result<BindingView, ReducerError>,
) {
    let a = reduced_optional_type::<R>(state, b.declared);
    if a.1 is Err {
        (a.0, Err(a.1->Err_0))
    } else {
        R::binding_rule(a.0, b, a.1->Ok_0)
    }
}

/// The result of rewriting the definition `d`: first its names, then its initializer,
/// then `d`.
pub open spec fn reduced_definition<R: Reducer>(state: R::V, d: DefinitionView) -> (
    R::V,
    Result<DefinitionView, ReducerError>,
) {
    let a = reduced_bindings::<R>(state, d.bindings, d.bindings.len());
    if a.1 is Err {
        (a.0, Err(a.1->Err_0))
    } else {
        let b = reduced_expression::<R>(a.0, d.value);
        if b.1 is Err {
            (b.0, Err(b.1->Err_0))
        } else {
            R::definition_rule(b.0, d, a.1->Ok_0, b.1->Ok_0)
        }
    }
}

/// The result of rewriting the statement `s`: first its children, in the order in
/// which they are written, then `s` itself by the operation of its kind.
pub open spec fn reduced_statement<R: Reducer>(state: R::V, s: StatementView) -> (
    R::V,
    Result<StatementView, ReducerError>,
)
    decreases s, 0nat,
{
    match s {
        StatementView::Return { value, .. } => {
            let a = reduced_expression::<R>(state, value);
            if a.1 is Err {
                (a.0, Err(a.1->Err_0))
            } else {
                R::return_rule(a.0, s, a.1->Ok_0)
            }
        },
        StatementView::Definition(d) => {
            let a = reduced_definition::<R>(state, d);
            if a.1 is Err {
                (a.0, Err(a.1->Err_0))
            } else {
                (a.0, Ok(StatementView::Definition(a.1->Ok_0)))
            }
        },
        StatementView::Assign { target, value, .. } => {
            let a = reduced_expression::<R>(state, target);
            if a.1 is Err {
                (a.0, Err(a.1->Err_0))
            } else {
                let b = reduced_expression::<R>(a.0, value);
                if b.1 is Err {
                    (b.0, Err(b.1->Err_0))
                } else {
                    R::assign_rule(b.0, s, a.1->Ok_0, b.1->Ok_0)
                }
            }
        },
        StatementView::Conditional { condition, then_block, otherwise, .. } => {
            let a = reduced_expression::<R>(state, condition);
            if a.1 is Err {
                (a.0, Err(a.1->Err_0))
            } else {
                let b = reduced_block::<R>(a.0, then_block);
                if b.1 is Err {
                    (b.0, Err(b.1->Err_0))
                } else {
                    match otherwise {
                        None => R::conditional_rule(b.0, s, a.1->Ok_0, b.1->Ok_0, None),
                        Some(next) => {
                            let c = reduced_statement::<R>(b.0, *next);
                            if c.1 is Err {
                                c
                            } else {
                                R::conditional_rule(c.0, s, a.1->Ok_0, b.1->Ok_0, Some(c.1->Ok_0))
                            }
                        },
                    }
                }
            }
        },
        StatementView::Iteration { start, stop, body, .. } => {
            let a = reduced_expression::<R>(state, start);
            if a.1 is Err {
                (a.0, Err(a.1->Err_0))
            } else {
                let b = reduced_expression::<R>(a.0, stop);
                if b.1 is Err {
                    (b.0, Err(b.1->Err_0))
                } else {
                    let c = reduced_block::<R>(b.0, body);
                    if c.1 is Err {
                        (c.0, Err(c.1->Err_0))
                    } else {
                        R::iteration_rule(c.0, s, a.1->Ok_0, b.1->Ok_0, c.1->Ok_0)
                    }
                }
            }
        },
        StatementView::Expression { expression, .. } => {
            let a = reduced_expression::<R>(state, expression);
            if a.1 is Err {
                (a.0, Err(a.1->Err_0))
            } else {
                R::expression_statement_rule(a.0, s, a.1->Ok_0)
            }
        },
        StatementView::Block(b) => {
            let a = reduced_block::<R>(state, b);
            if a.1 is Err {
                (a.0, Err(a.1->Err_0))
            } else {
                (a.0, Ok(StatementView::Block(a.1->Ok_0)))
            }
        },
    }
}

/// The result of rewriting the block `b`: first its statements, in order, then `b`.
pub open spec fn reduced_block<R: Reducer>(state: R::V, b: BlockView) -> (
    R::V,
    Result<BlockView, ReducerError>,
)
    decreases b, 0nat,
{
    let a = reduced_statements::<R>(state, b.statements, b.statements.len());
    if a.1 is Err {
        (a.0, Err(a.1->Err_0))
    } else {
        R::block_rule(a.0, b, a.1->Ok_0)
    }
}

/// The result of rewriting the import `i`.
pub open spec fn reduced_import<R: Reducer>(state: R::V, i: ImportView) -> (
    R::V,
    Result<ImportView, ReducerError>,
) {
    R::import_rule(state, i)
}

/// The result of rewriting the member variable `m`: first its type, then `m`.
pub open spec fn reduced_circuit_member<R: Reducer>(state: R::V, m: CircuitMemberView) -> (
    R::V,
    Result<CircuitMemberView, ReducerError>,
) {
    let a = reduced_type::<R>(state, m.member_type);
    if a.1 is Err {
        (a.0, Err(a.1->Err_0))
    } else {
        R::circuit_member_rule(a.0, m, a.1->Ok_0)
    }
}

/// The result of rewriting the annotation `a`.
pub open spec fn reduced_annotation<R: Reducer>(state: R::V, a: AnnotationView) -> (
    R::V,
    Result<AnnotationView, ReducerError>,
) {
    R::annotation_rule(state, a)
}

/// The result of rewriting the parameter `i`: first its type, then `i`.
pub open spec fn reduced_function_input<R: Reducer>(state: R::V, i: FunctionInputView) -> (
    R::V,
    Result<FunctionInputView, ReducerError>,
) {
    let a = reduced_type::<R>(state, i.input_type);
    if a.1 is Err {
        (a.0, Err(a.1->Err_0))
    } else {
        R::function_input_rule(a.0, i, a.1->Ok_0)
    }
}

/// The result of rewriting the function `f`: first its annotations, its parameters,
/// its return type and its body, in this order, then `f`.
pub open spec fn reduced_function<R: Reducer>(state: R::V, f: FunctionView) -> (
    R::V,
    Result<FunctionView, ReducerError>,
) {
    let a = reduced_annotations::<R>(state, f.annotations, f.annotations.len());
    if a.1 is Err {
        (a.0, Err(a.1->Err_0))
    } else {
        let b = reduced_function_inputs::<R>(a.0, f.inputs, f.inputs.len());
        if b.1 is Err {
            (b.0, Err(b.1->Err_0))
        } else {
            let c = reduced_optional_type::<R>(b.0, f.output);
            if c.1 is Err {
                (c.0, Err(c.1->Err_0))
            } else {
                let d = reduced_block::<R>(c.0, f.body);
                if d.1 is Err {
                    (d.0, Err(d.1->Err_0))
                } else {
                    R::function_rule(d.0, f, a.1->Ok_0, b.1->Ok_0, c.1->Ok_0, d.1->Ok_0)
                }
            }
        }
    }
}

/// The result of rewriting the circuit `c`: first its member variables, then its
/// functions, then `c`.
pub open spec fn reduced_circuit<R: Reducer>(state: R::V, c: CircuitView) -> (
    R::V,
    Result<CircuitView, ReducerError>,
) {
    let a = reduced_circuit_members::<R>(state, c.members, c.members.len());
    if a.1 is Err {
        (a.0, Err(a.1->Err_0))
    } else {
        let b = reduced_functions::<R>(a.0, c.functions, c.functions.len());
        if b.1 is Err {
            (b.0, Err(b.1->Err_0))
        } else {
            R::circuit_rule(b.0, c, a.1->Ok_0, b.1->Ok_0)
        }
    }
}

/// The result of rewriting the program `p`: first its imports, then its circuits,
/// then its functions, then its global definitions, then `p`.
pub open spec fn reduced_program<R: Reducer>(state: R::V, p: ProgramView) -> (
    R::V,
    Result<ProgramView, ReducerError>,
) {
    let a = reduced_imports::<R>(state, p.imports, p.imports.len());
    if a.1 is Err {
        (a.0, Err(a.1->Err_0))
    } else {
        let b = reduced_circuits::<R>(a.0, p.circuits, p.circuits.len());
        if b.1 is Err {
            (b.0, Err(b.1->Err_0))
        } else {
            let c = reduced_functions::<R>(b.0, p.functions, p.functions.len());
            if c.1 is Err {
                (c.0, Err(c.1->Err_0))
            } else {
                let d = reduced_definitions::<R>(c.0, p.globals, p.globals.len());
                if d.1 is Err {
                    (d.0, Err(d.1->Err_0))
                } else {
                    R::program_rule(d.0, p, a.1->Ok_0, b.1->Ok_0, c.1->Ok_0, d.1->Ok_0)
                }
            }
        }
    }
}

/// The result of rewriting the first `n` of `items` in turn: the state of the pass
/// afterwards and the rewritten items, or the first error and the state it left.
pub open spec fn reduced_bindings<R: Reducer>(state: R::V, items: Seq<BindingView>, n: nat) -> (
    R::V,
    Result<Seq<BindingView>, ReducerError>,
)
    decreases n,
{
    if n == 0 || n > items.len() {
        (state, Ok(Seq::empty()))
    } else {
        let before = reduced_bindings::<R>(state, items, (n - 1) as nat);
        if before.1 is Err {
            before
        } else {
            let last = reduced_binding::<R>(before.0, items[n - 1]);
            if last.1 is Err {
                (last.0, Err(last.1->Err_0))
            } else {
                (last.0, Ok(before.1->Ok_0.push(last.1->Ok_0)))
            }
        }
    }
}

/// The result of rewriting the first `n` of `items` in turn: the state of the pass
/// afterwards and the rewritten items, or the first error and the state it left.
pub open spec fn reduced_definitions<R: Reducer>(state: R::V, items: Seq<DefinitionView>, n: nat) -> (
    R::V,
    Result<Seq<DefinitionView>, ReducerError>,
)
    decreases n,
{
    if n == 0 || n > items.len() {
        (state, Ok(Seq::empty()))
    } else {
        let before = reduced_definitions::<R>(state, items, (n - 1) as nat);
        if before.1 is Err {
            before
        } else {
            let last = reduced_definition::<R>(before.0, items[n - 1]);
            if last.1 is Err {
                (last.0, Err(last.1->Err_0))
            } else {
                (last.0, Ok(before.1->Ok_0.push(last.1->Ok_0)))
            }
        }
    }
}

/// The result of rewriting the first `n` of `items` in turn: the state of the pass
/// afterwards and the rewritten items, or the first error and the state it left.
pub open spec fn reduced_imports<R: Reducer>(state: R::V, items: Seq<ImportView>, n: nat) -> (
    R::V,
    Result<Seq<ImportView>, ReducerError>,
)
    decreases n,
{
    if n == 0 || n > items.len() {
        (state, Ok(Seq::empty()))
    } else {
        let before = reduced_imports::<R>(state, items, (n - 1) as nat);
        if before.1 is Err {
            before
        } else {
            let last = reduced_import::<R>(before.0, items[n - 1]);
            if last.1 is Err {
                (last.0, Err(last.1->Err_0))
            } else {
                (last.0, Ok(before.1->Ok_0.push(last.1->Ok_0)))
            }
        }
    }
}

/// The result of rewriting the first `n` of `items` in turn: the state of the pass
/// afterwards and the rewritten items, or the first error and the state it left.
pub open spec fn reduced_circuit_members<R: Reducer>(state: R::V, items: Seq<CircuitMemberView>, n: nat) -> (
    R::V,
    Result<Seq<CircuitMemberView>, ReducerError>,
)
    decreases n,
{
    if n == 0 || n > items.len() {
        (state, Ok(Seq::empty()))
    } else {
        let before = reduced_circuit_members::<R>(state, items, (n - 1) as nat);
        if before.1 is Err {
            before
        } else {
            let last = reduced_circuit_member::<R>(before.0, items[n - 1]);
            if last.1 is Err {
                (last.0, Err(last.1->Err_0))
            } else {
                (last.0, Ok(before.1->Ok_0.push(last.1->Ok_0)))
            }
        }
    }
}

/// The result of rewriting the first `n` of `items` in turn: the state of the pass
/// afterwards and the rewritten items, or the first error and the state it left.
pub open spec fn reduced_annotations<R: Reducer>(state: R::V, items: Seq<AnnotationView>, n: nat) -> (
    R::V,
    Result<Seq<AnnotationView>, ReducerError>,
)
    decreases n,
{
    if n == 0 || n > items.len() {
        (state, Ok(Seq::empty()))
    } else {
        let before = reduced_annotations::<R>(state, items, (n - 1) as nat);
        if before.1 is Err {
            before
        } else {
            let last = reduced_annotation::<R>(before.0, items[n - 1]);
            if last.1 is Err {
                (last.0, Err(last.1->Err_0))
            } else {
                (last.0, Ok(before.1->Ok_0.push(last.1->Ok_0)))
            }
        }
    }
}

/// The result of rewriting the first `n` of `items` in turn: the state of the pass
/// afterwards and the rewritten items, or the first error and the state it left.
pub open spec fn reduced_function_inputs<R: Reducer>(state: R::V, items: Seq<FunctionInputView>, n: nat) -> (
    R::V,
    Result<Seq<FunctionInputView>, ReducerError>,
)
    decreases n,
{
    if n == 0 || n > items.len() {
        (state, Ok(Seq::empty()))
    } else {
        let before = reduced_function_inputs::<R>(state, items, (n - 1) as nat);
        if before.1 is Err {
            before
        } else {
            let last = reduced_function_input::<R>(before.0, items[n - 1]);
            if last.1 is Err {
                (last.0, Err(last.1->Err_0))
            } else {
                (last.0, Ok(before.1->Ok_0.push(last.1->Ok_0)))
            }
        }
    }
}

/// The result of rewriting the first `n` of `items` in turn: the state of the pass
/// afterwards and the rewritten items, or the first error and the state it left.
pub open spec fn reduced_functions<R: Reducer>(state: R::V, items: Seq<FunctionView>, n: nat) -> (
    R::V,
    Result<Seq<FunctionView>, ReducerError>,
)
    decreases n,
{
    if n == 0 || n > items.len() {
        (state, Ok(Seq::empty()))
    } else {
        let before = reduced_functions::<R>(state, items, (n - 1) as nat);
        if before.1 is Err {
            before
        } else {
            let last = reduced_function::<R>(before.0, items[n - 1]);
            if last.1 is Err {
                (last.0, Err(last.1->Err_0))
            } else {
                (last.0, Ok(before.1->Ok_0.push(last.1->Ok_0)))
            }
        }
    }
}

/// The result of rewriting the first `n` of `items` in turn: the state of the pass
/// afterwards and the rewritten items, or the first error and the state it left.
pub open spec fn reduced_circuits<R: Reducer>(state: R::V, items: Seq<CircuitView>, n: nat) -> (
    R::V,
    Result<Seq<CircuitView>, ReducerError>,
)
    decreases n,
{
    if n == 0 || n > items.len() {
        (state, Ok(Seq::empty()))
    } else {
        let before = reduced_circuits::<R>(state, items, (n - 1) as nat);
        if before.1 is Err {
            before
        } else {
            let last = reduced_circuit::<R>(before.0, items[n - 1]);
            if last.1 is Err {
                (last.0, Err(last.1->Err_0))
            } else {
                (last.0, Ok(before.1->Ok_0.push(last.1->Ok_0)))
            }
        }
    }
}

/// Once rewriting a list has failed, the rest of the list changes nothing.
pub proof fn lemma_reduced_expressions_error<R: Reducer>(
    state: R::V,
    items: Seq<ExpressionView>,
    m: nat,
    n: nat,
)
    requires
        m <= n <= items.len(),
        reduced_expressions::<R>(state, items, m).1 is Err,
    ensures
        reduced_expressions::<R>(state, items, n) == reduced_expressions::<R>(state, items, m),
    decreases n,
{
    if m < n {
        lemma_reduced_expressions_error::<R>(state, items, m, (n - 1) as nat);
    }
}

/// Once rewriting a list has failed, the rest of the list changes nothing.
pub proof fn lemma_reduced_member_inits_error<R: Reducer>(
    state: R::V,
    items: Seq<MemberInitView>,
    m: nat,
    n: nat,
)
    requires
        m <= n <= items.len(),
        reduced_member_inits::<R>(state, items, m).1 is Err,
    ensures
        reduced_member_inits::<R>(state, items, n) == reduced_member_inits::<R>(state, items, m),
    decreases n,
{
    if m < n {
        lemma_reduced_member_inits_error::<R>(state, items, m, (n - 1) as nat);
    }
}

/// Once rewriting a list has failed, the rest of the list changes nothing.
pub proof fn lemma_reduced_statements_error<R: Reducer>(
    state: R::V,
    items: Seq<StatementView>,
    m: nat,
    n: nat,
)
    requires
        m <= n <= items.len(),
        reduced_statements::<R>(state, items, m).1 is Err,
    ensures
        reduced_statements::<R>(state, items, n) == reduced_statements::<R>(state, items, m),
    decreases n,
{
    if m < n {
        lemma_reduced_statements_error::<R>(state, items, m, (n - 1) as nat);
    }
}

/// Once rewriting a list has failed, the rest of the list changes nothing.
pub proof fn lemma_reduced_bindings_error<R: Reducer>(
    state: R::V,
    items: Seq<BindingView>,
    m: nat,
    n: nat,
)
    requires
        m <= n <= items.len(),
        reduced_bindings::<R>(state, items, m).1 is Err,
    ensures
        reduced_bindings::<R>(state, items, n) == reduced_bindings::<R>(state, items, m),
    decreases n,
{
    if m < n {
        lemma_reduced_bindings_error::<R>(state, items, m, (n - 1) as nat);
    }
}

/// Once rewriting a list has failed, the rest of the list changes nothing.
pub proof fn lemma_reduced_definitions_error<R: Reducer>(
    state: R::V,
    items: Seq<DefinitionView>,
    m: nat,
    n: nat,
)
    requires
        m <= n <= items.len(),
        reduced_definitions::<R>(state, items, m).1 is Err,
    ensures
        reduced_definitions::<R>(state, items, n) == reduced_definitions::<R>(state, items, m),
    decreases n,
{
    if m < n {
        lemma_reduced_definitions_error::<R>(state, items, m, (n - 1) as nat);
    }
}

/// Once rewriting a list has failed, the rest of the list changes nothing.
pub proof fn lemma_reduced_imports_error<R: Reducer>(
    state: R::V,
    items: Seq<ImportView>,
    m: nat,
    n: nat,
)
    requires
        m <= n <= items.len(),
        reduced_imports::<R>(state, items, m).1 is Err,
    ensures
        reduced_imports::<R>(state, items, n) == reduced_imports::<R>(state, items, m),
    decreases n,
{
    if m < n {
        lemma_reduced_imports_error::<R>(state, items, m, (n - 1) as nat);
    }
}

/// Once rewriting a list has failed, the rest of the list changes nothing.
pub proof fn lemma_reduced_circuit_members_error<R: Reducer>(
    state: R::V,
    items: Seq<CircuitMemberView>,
    m: nat,
    n: nat,
)
    requires
        m <= n <= items.len(),
        reduced_circuit_members::<R>(state, items, m).1 is Err,
    ensures
        reduced_circuit_members::<R>(state, items, n) == reduced_circuit_members::<R>(state, items, m),
    decreases n,
{
    if m < n {
        lemma_reduced_circuit_members_error::<R>(state, items, m, (n - 1) as nat);
    }
}

/// Once rewriting a list has failed, the rest of the list changes nothing.
pub proof fn lemma_reduced_annotations_error<R: Reducer>(
    state: R::V,
    items: Seq<AnnotationView>,
    m: nat,
    n: nat,
)
    requires
        m <= n <= items.len(),
        reduced_annotations::<R>(state, items, m).1 is Err,
    ensures
        reduced_annotations::<R>(state, items, n) == reduced_annotations::<R>(state, items, m),
    decreases n,
{
    if m < n {
        lemma_reduced_annotations_error::<R>(state, items, m, (n - 1) as nat);
    }
}

/// Once rewriting a list has failed, the rest of the list changes nothing.
pub proof fn lemma_reduced_function_inputs_error<R: Reducer>(
    state: R::V,
    items: Seq<FunctionInputView>,
    m: nat,
    n: nat,
)
    requires
        m <= n <= items.len(),
        reduced_function_inputs::<R>(state, items, m).1 is Err,
    ensures
        reduced_function_inputs::<R>(state, items, n) == reduced_function_inputs::<R>(state, items, m),
    decreases n,
{
    if m < n {
        lemma_reduced_function_inputs_error::<R>(state, items, m, (n - 1) as nat);
    }
}

/// Once rewriting a list has failed, the rest of the list changes nothing.
pub proof fn lemma_reduced_functions_error<R: Reducer>(
    state: R::V,
    items: Seq<FunctionView>,
    m: nat,
    n: nat,
)
    requires
        m <= n <= items.len(),
        reduced_functions::<R>(state, items, m).1 is Err,
    ensures
        reduced_functions::<R>(state, items, n) == reduced_functions::<R>(state, items, m),
    decreases n,
{
    if m < n {
        lemma_reduced_functions_error::<R>(state, items, m, (n - 1) as nat);
    }
}

/// Once rewriting a list has failed, the rest of the list changes nothing.
pub proof fn lemma_reduced_circuits_error<R: Reducer>(
    state: R::V,
    items: Seq<CircuitView>,
    m: nat,
    n: nat,
)
    requires
        m <= n <= items.len(),
        reduced_circuits::<R>(state, items, m).1 is Err,
    ensures
        reduced_circuits::<R>(state, items, n) == reduced_circuits::<R>(state, items, m),
    decreases n,
{
    if m < n {
        lemma_reduced_circuits_error::<R>(state, items, m, (n - 1) as nat);
    }
}

/// Drives a rewriting pass over a tree. Every node is visited once, children before
/// their parent and siblings in the order in which they are written, and the tree is
/// rebuilt from what the pass returns. The director adds no error of its own: the
/// first error of the pass ends the traversal and is returned as it is.
pub struct ReconstructingDirector<R: Reducer> {
    reducer: R,
}

impl<R: Reducer> View for ReconstructingDirector<R> {
    type V = R::V;

    closed spec fn view(&self) -> R::V {
        self.reducer@
    }
}

impl<R: Reducer> ReconstructingDirector<R> {
    /// The director of the pass `reducer`.
    pub fn new(reducer: R) -> (r: Self)
        ensures
            r@ == reducer@,
    {
        ReconstructingDirector { reducer }
    }

    /// Gives the pass back, in the state the traversals have left it in.
    pub fn into_reducer(self) -> (r: R)
        ensures
            r@ == self@,
    {
        self.reducer
    }

    /// Rewrites the type `t`.
    pub fn reduce_type(&mut self, t: &Type) -> (r: Result<Type, ReducerError>)
        ensures
            reduced_type::<R>(old(self)@, t@) == (final(self)@, outcome_view(r)),
    {
        self.reducer.reduce_type(t)
    }

    /// Rewrites the type `t`, if there is one.
    pub fn reduce_optional_type(&mut self, t: &Option<Type>) -> (r: Result<
        Option<Type>,
        ReducerError,
    >)
        ensures
            reduced_optional_type::<R>(old(self)@, optional_type_view(*t)) == (
                final(self)@,
                match r {
                    Ok(t) => Ok(optional_type_view(t)),
                    Err(e) => Err(e),
                },
            ),
    {
        match t {
            None => Ok(None),
            Some(t) => match self.reduce_type(t) {
                Ok(t) => Ok(Some(t)),
                Err(error) => Err(error),
            },
        }
    }

    /// Rewrites the expression `e`, children first.
    pub fn reduce_expression(&mut self, e: &Expression) -> (r: Result<Expression, ReducerError>)
        ensures
            reduced_expression::<R>(old(self)@, e@) == (final(self)@, outcome_view(r)),
        decreases e,
    {
        match &e.kind {
            ExpressionKind::Literal(_) => self.reducer.reduce_literal(e),
            ExpressionKind::Identifier(_) => self.reducer.reduce_identifier(e),
            ExpressionKind::Unary { operand, .. } => {
                let operand = match self.reduce_expression(&**operand) {
                    Ok(x) => x,
                    Err(error) => return Err(error),
                };
                self.reducer.reduce_unary(e, operand)
            },
            ExpressionKind::Binary { left, right, .. } => {
                let left = match self.reduce_expression(&**left) {
                    Ok(x) => x,
                    Err(error) => return Err(error),
                };
                let right = match self.reduce_expression(&**right) {
                    Ok(x) => x,
                    Err(error) => return Err(error),
                };
                self.reducer.reduce_binary(e, left, right)
            },
            ExpressionKind::Ternary { condition, if_true, if_false } => {
                let condition = match self.reduce_expression(&**condition) {
                    Ok(x) => x,
                    Err(error) => return Err(error),
                };
                let if_true = match self.reduce_expression(&**if_true) {
                    Ok(x) => x,
                    Err(error) => return Err(error),
                };
                let if_false = match self.reduce_expression(&**if_false) {
                    Ok(x) => x,
                    Err(error) => return Err(error),
                };
                self.reducer.reduce_ternary(e, condition, if_true, if_false)
            },
            ExpressionKind::Call { arguments, .. } => {
                let arguments = match self.reduce_expressions(arguments) {
                    Ok(x) => x,
                    Err(error) => return Err(error),
                };
                self.reducer.reduce_call(e, arguments)
            },
            ExpressionKind::Array(elements) => {
                let elements = match self.reduce_expressions(elements) {
                    Ok(x) => x,
                    Err(error) => return Err(error),
                };
                self.reducer.reduce_array(e, elements)
            },
            ExpressionKind::Tuple(elements) => {
                let elements = match self.reduce_expressions(elements) {
                    Ok(x) => x,
                    Err(error) => return Err(error),
                };
                self.reducer.reduce_tuple(e, elements)
            },
            ExpressionKind::Circuit { members, .. } => {
                let members = match self.reduce_member_inits(members) {
                    Ok(x) => x,
                    Err(error) => return Err(error),
                };
                self.reducer.reduce_circuit_init(e, members)
            },
            ExpressionKind::Index { array, index } => {
                let array = match self.reduce_expression(&**array) {
                    Ok(x) => x,
                    Err(error) => return Err(error),
                };
                let index = match self.reduce_expression(&**index) {
                    Ok(x) => x,
                    Err(error) => return Err(error),
                };
                self.reducer.reduce_index(e, array, index)
            },
            ExpressionKind::Member { object, .. } => {
                let object = match self.reduce_expression(&**object) {
                    Ok(x) => x,
                    Err(error) => return Err(error),
                };
                self.reducer.reduce_member(e, object)
            },
            ExpressionKind::TupleAccess { tuple, .. } => {
                let tuple = match self.reduce_expression(&**tuple) {
                    Ok(x) => x,
                    Err(error) => return Err(error),
                };
                self.reducer.reduce_tuple_access(e, tuple)
            },
            ExpressionKind::ImplicitMember { .. } => self.reducer.reduce_implicit_member(e),
            ExpressionKind::Cast { operand, target } => {
                let operand = match self.reduce_expression(&**operand) {
                    Ok(x) => x,
                    Err(error) => return Err(error),
                };
                let target = match self.reduce_type(target) {
                    Ok(x) => x,
                    Err(error) => return Err(error),
                };
                self.reducer.reduce_cast(e, operand, target)
            },
        }
    }

    /// Rewrites the value of the member `m` of a circuit expression.
    pub fn reduce_member_init(&mut self, m: &MemberInit) -> (r: Result<MemberInit, ReducerError>)
        ensures
            reduced_member_init::<R>(old(self)@, m@) == (final(self)@, outcome_view(r)),
        decreases m,
    {
        match self.reduce_expression(&m.value) {
            Ok(value) => Ok(MemberInit { name: m.name.clone(), value }),
            Err(error) => Err(error),
        }
    }

    /// Rewrites the name `b` of a definition.
    pub fn reduce_binding(&mut self, b: &Binding) -> (r: Result<Binding, ReducerError>)
        ensures
            reduced_binding::<R>(old(self)@, b@) == (final(self)@, outcome_view(r)),
    {
        let declared = match self.reduce_optional_type(&b.declared) {
            Ok(x) => x,
            Err(error) => return Err(error),
        };
        self.reducer.reduce_binding(b, declared)
    }

    /// Rewrites the definition `d`.
    pub fn reduce_definition(&mut self, d: &Definition) -> (r: Result<Definition, ReducerError>)
        ensures
            reduced_definition::<R>(old(self)@, d@) == (final(self)@, outcome_view(r)),
    {
        let bindings = match self.reduce_bindings(&d.bindings) {
            Ok(x) => x,
            Err(error) => return Err(error),
        };
        let value = match self.reduce_expression(&d.value) {
            Ok(x) => x,
            Err(error) => return Err(error),
        };
        self.reducer.reduce_definition(d, bindings, value)
    }

    /// Rewrites the statement `s`, children first.
    pub fn reduce_statement(&mut self, s: &Statement) -> (r: Result<Statement, ReducerError>)
        ensures
            reduced_statement::<R>(old(self)@, s@) == (final(self)@, outcome_view(r)),
        decreases s,
    {
        match s {
            Statement::Return { value, .. } => {
                let value = match self.reduce_expression(value) {
                    Ok(x) => x,
                    Err(error) => return Err(error),
                };
                self.reducer.reduce_return(s, value)
            },
            Statement::Definition(d) => match self.reduce_definition(d) {
                Ok(d) => Ok(Statement::Definition(d)),
                Err(error) => Err(error),
            },
            Statement::Assign { target, value, .. } => {
                let target = match self.reduce_expression(target) {
                    Ok(x) => x,
                    Err(error) => return Err(error),
                };
                let value = match self.reduce_expression(value) {
                    Ok(x) => x,
                    Err(error) => return Err(error),
                };
                self.reducer.reduce_assign(s, target, value)
            },
            Statement::Conditional { condition, then_block, otherwise, .. } => {
                let condition = match self.reduce_expression(condition) {
                    Ok(x) => x,
                    Err(error) => return Err(error),
                };
                let then_block = match self.reduce_block(then_block) {
                    Ok(x) => x,
                    Err(error) => return Err(error),
                };
                let otherwise = match otherwise {
                    None => None,
                    Some(next) => match self.reduce_statement(&**next) {
                        Ok(x) => Some(x),
                        Err(error) => return Err(error),
                    },
                };
                self.reducer.reduce_conditional(s, condition, then_block, otherwise)
            },
            Statement::Iteration { start, stop, body, .. } => {
                let start = match self.reduce_expression(start) {
                    Ok(x) => x,
                    Err(error) => return Err(error),
                };
                let stop = match self.reduce_expression(stop) {
                    Ok(x) => x,
                    Err(error) => return Err(error),
                };
                let body = match self.reduce_block(body) {
                    Ok(x) => x,
                    Err(error) => return Err(error),
                };
                self.reducer.reduce_iteration(s, start, stop, body)
            },
            Statement::Expression { expression, .. } => {
                let expression = match self.reduce_expression(expression) {
                    Ok(x) => x,
                    Err(error) => return Err(error),
                };
                self.reducer.reduce_expression_statement(s, expression)
            },
            Statement::Block(b) => match self.reduce_block(b) {
                Ok(b) => Ok(Statement::Block(b)),
                Err(error) => Err(error),
            },
        }
    }

    /// Rewrites the block `b`, its statements first.
    pub fn reduce_block(&mut self, b: &Block) -> (r: Result<Block, ReducerError>)
        ensures
            reduced_block::<R>(old(self)@, b@) == (final(self)@, outcome_view(r)),
        decreases b,
    {
        let statements = match self.reduce_statements(&b.statements) {
            Ok(x) => x,
            Err(error) => return Err(error),
        };
        self.reducer.reduce_block(b, statements)
    }

    /// Rewrites the import `i`.
    pub fn reduce_import(&mut self, i: &Import) -> (r: Result<Import, ReducerError>)
        ensures
            reduced_import::<R>(old(self)@, i@) == (final(self)@, outcome_view(r)),
    {
        self.reducer.reduce_import(i)
    }

    /// Rewrites the member variable `m` of a circuit.
    pub fn reduce_circuit_member(&mut self, m: &CircuitMember) -> (r: Result<
        CircuitMember,
        ReducerError,
    >)
        ensures
            reduced_circuit_member::<R>(old(self)@, m@) == (final(self)@, outcome_view(r)),
    {
        let member_type = match self.reduce_type(&m.member_type) {
            Ok(x) => x,
            Err(error) => return Err(error),
        };
        self.reducer.reduce_circuit_member(m, member_type)
    }

    /// Rewrites the annotation `a`.
    pub fn reduce_annotation(&mut self, a: &Annotation) -> (r: Result<Annotation, ReducerError>)
        ensures
            reduced_annotation::<R>(old(self)@, a@) == (final(self)@, outcome_view(r)),
    {
        self.reducer.reduce_annotation(a)
    }

    /// Rewrites the parameter `i`.
    pub fn reduce_function_input(&mut self, i: &FunctionInput) -> (r: Result<
        FunctionInput,
        ReducerError,
    >)
        ensures
            reduced_function_input::<R>(old(self)@, i@) == (final(self)@, outcome_view(r)),
    {
        let input_type = match self.reduce_type(&i.input_type) {
            Ok(x) => x,
            Err(error) => return Err(error),
        };
        self.reducer.reduce_function_input(i, input_type)
    }

    /// Rewrites the function `f`.
    pub fn reduce_function(&mut self, f: &Function) -> (r: Result<Function, ReducerError>)
        ensures
            reduced_function::<R>(old(self)@, f@) == (final(self)@, outcome_view(r)),
    {
        let annotations = match self.reduce_annotations(&f.annotations) {
            Ok(x) => x,
            Err(error) => return Err(error),
        };
        let inputs = match self.reduce_function_inputs(&f.inputs) {
            Ok(x) => x,
            Err(error) => return Err(error),
        };
        let output = match self.reduce_optional_type(&f.output) {
            Ok(x) => x,
            Err(error) => return Err(error),
        };
        let body = match self.reduce_block(&f.body) {
            Ok(x) => x,
            Err(error) => return Err(error),
        };
        self.reducer.reduce_function(f, annotations, inputs, output, body)
    }

    /// Rewrites the circuit `c`.
    pub fn reduce_circuit(&mut self, c: &Circuit) -> (r: Result<Circuit, ReducerError>)
        ensures
            reduced_circuit::<R>(old(self)@, c@) == (final(self)@, outcome_view(r)),
    {
        let members = match self.reduce_circuit_members(&c.members) {
            Ok(x) => x,
            Err(error) => return Err(error),
        };
        let functions = match self.reduce_functions(&c.functions) {
            Ok(x) => x,
            Err(error) => return Err(error),
        };
        self.reducer.reduce_circuit(c, members, functions)
    }

    /// Rewrites the program `p`: its imports, its circuits, its functions and its
    /// global definitions, in this order, and then the program itself.
    pub fn reduce_program(&mut self, p: &Program) -> (r: Result<Program, ReducerError>)
        ensures
            reduced_program::<R>(old(self)@, p@) == (final(self)@, outcome_view(r)),
    {
        let imports = match self.reduce_imports(&p.imports) {
            Ok(x) => x,
            Err(error) => return Err(error),
        };
        let circuits = match self.reduce_circuits(&p.circuits) {
            Ok(x) => x,
            Err(error) => return Err(error),
        };
        let functions = match self.reduce_functions(&p.functions) {
            Ok(x) => x,
            Err(error) => return Err(error),
        };
        let globals = match self.reduce_definitions(&p.globals) {
            Ok(x) => x,
            Err(error) => return Err(error),
        };
        self.reducer.reduce_program(p, imports, circuits, functions, globals)
    }

    /// Rewrites each expression of `items` in turn, and stops at the first error.
    #[verifier::loop_isolation(false)]
    pub fn reduce_expressions(&mut self, items: &Vec<Expression>) -> (r: Result<
        Vec<Expression>,
        ReducerError,
    >)
        ensures
            reduced_expressions::<R>(old(self)@, expressions_view(items@), items.len() as nat) == (
                final(self)@,
                match r {
                    Ok(v) => Ok(expressions_view(v@)),
                    Err(e) => Err(e),
                },
            ),
        decreases items,
    {
        let ghost start = self@;
        let ghost all = expressions_view(items@);
        let mut out: Vec<Expression> = Vec::new();
        let mut i: usize = 0;
        assert(expressions_view(out@) =~= Seq::empty());
        while i < items.len()
            invariant
                i <= items.len(),
                all == expressions_view(items@),
                reduced_expressions::<R>(start, all, i as nat) == (
                    self@,
                    Ok::<_, ReducerError>(expressions_view(out@)),
                ),
            decreases items.len() - i,
        {
            let ghost done = expressions_view(out@);
            assert(all[i as int] == items[i as int]@);
            match self.reduce_expression(&items[i]) {
                Ok(item) => {
                    out.push(item);
                    assert(expressions_view(out@) =~= done.push(item@));
                },
                Err(error) => {
                    proof {
                        lemma_reduced_expressions_error::<R>(
                            start,
                            all,
                            (i + 1) as nat,
                            items.len() as nat,
                        );
                    }
                    return Err(error);
                },
            }
            i = i + 1;
        }
        Ok(out)
    }

    /// Rewrites the value of each member of `items` in turn, and stops at the first error.
    #[verifier::loop_isolation(false)]
    pub fn reduce_member_inits(&mut self, items: &Vec<MemberInit>) -> (r: Result<
        Vec<MemberInit>,
        ReducerError,
    >)
        ensures
            reduced_member_inits::<R>(old(self)@, member_inits_view(items@), items.len() as nat) == (
                final(self)@,
                match r {
                    Ok(v) => Ok(member_inits_view(v@)),
                    Err(e) => Err(e),
                },
            ),
        decreases items,
    {
        let ghost start = self@;
        let ghost all = member_inits_view(items@);
        let mut out: Vec<MemberInit> = Vec::new();
        let mut i: usize = 0;
        assert(member_inits_view(out@) =~= Seq::empty());
        while i < items.len()
            invariant
                i <= items.len(),
                all == member_inits_view(items@),
                reduced_member_inits::<R>(start, all, i as nat) == (
                    self@,
                    Ok::<_, ReducerError>(member_inits_view(out@)),
                ),
            decreases items.len() - i,
        {
            let ghost done = member_inits_view(out@);
            assert(all[i as int] == items[i as int]@);
            match self.reduce_member_init(&items[i]) {
                Ok(item) => {
                    out.push(item);
                    assert(member_inits_view(out@) =~= done.push(item@));
                },
                Err(error) => {
                    proof {
                        lemma_reduced_member_inits_error::<R>(
                            start,
                            all,
                            (i + 1) as nat,
                            items.len() as nat,
                        );
                    }
                    return Err(error);
                },
            }
            i = i + 1;
        }
        Ok(out)
    }

    /// Rewrites each statement of `items` in turn, and stops at the first error.
    #[verifier::loop_isolation(false)]
    pub fn reduce_statements(&mut self, items: &Vec<Statement>) -> (r: Result<
        Vec<Statement>,
        ReducerError,
    >)
        ensures
            reduced_statements::<R>(old(self)@, statements_view(items@), items.len() as nat) == (
                final(self)@,
                match r {
                    Ok(v) => Ok(statements_view(v@)),
                    Err(e) => Err(e),
                },
            ),
        decreases items,
    {
        let ghost start = self@;
        let ghost all = statements_view(items@);
        let mut out: Vec<Statement> = Vec::new();
        let mut i: usize = 0;
        assert(statements_view(out@) =~= Seq::empty());
        while i < items.len()
            invariant
                i <= items.len(),
                all == statements_view(items@),
                reduced_statements::<R>(start, all, i as nat) == (
                    self@,
                    Ok::<_, ReducerError>(statements_view(out@)),
                ),
            decreases items.len() - i,
        {
            let ghost done = statements_view(out@);
            assert(all[i as int] == items[i as int]@);
            match self.reduce_statement(&items[i]) {
                Ok(item) => {
                    out.push(item);
                    assert(statements_view(out@) =~= done.push(item@));
                },
                Err(error) => {
                    proof {
                        lemma_reduced_statements_error::<R>(
                            start,
                            all,
                            (i + 1) as nat,
                            items.len() as nat,
                        );
                    }
                    return Err(error);
                },
            }
            i = i + 1;
        }
        Ok(out)
    }

    /// Rewrites each name of `items` in turn, and stops at the first error.
    #[verifier::loop_isolation(false)]
    pub fn reduce_bindings(&mut self, items: &Vec<Binding>) -> (r: Result<
        Vec<Binding>,
        ReducerError,
    >)
        ensures
            reduced_bindings::<R>(old(self)@, bindings_view(items@), items.len() as nat) == (
                final(self)@,
                match r {
                    Ok(v) => Ok(bindings_view(v@)),
                    Err(e) => Err(e),
                },
            ),
    {
        let ghost start = self@;
        let ghost all = bindings_view(items@);
        let mut out: Vec<Binding> = Vec::new();
        let mut i: usize = 0;
        assert(bindings_view(out@) =~= Seq::empty());
        while i < items.len()
            invariant
                i <= items.len(),
                all == bindings_view(items@),
                reduced_bindings::<R>(start, all, i as nat) == (
                    self@,
                    Ok::<_, ReducerError>(bindings_view(out@)),
                ),
            decreases items.len() - i,
        {
            let ghost done = bindings_view(out@);
            assert(all[i as int] == items[i as int]@);
            match self.reduce_binding(&items[i]) {
                Ok(item) => {
                    out.push(item);
                    assert(bindings_view(out@) =~= done.push(item@));
                },
                Err(error) => {
                    proof {
                        lemma_reduced_bindings_error::<R>(
                            start,
                            all,
                            (i + 1) as nat,
                            items.len() as nat,
                        );
                    }
                    return Err(error);
                },
            }
            i = i + 1;
        }
        Ok(out)
    }

    /// Rewrites each definition of `items` in turn, and stops at the first error.
    #[verifier::loop_isolation(false)]
    pub fn reduce_definitions(&mut self, items: &Vec<Definition>) -> (r: Result<
        Vec<Definition>,
        ReducerError,
    >)
        ensures
            reduced_definitions::<R>(old(self)@, definitions_view(items@), items.len() as nat) == (
                final(self)@,
                match r {
                    Ok(v) => Ok(definitions_view(v@)),
                    Err(e) => Err(e),
                },
            ),
    {
        let ghost start = self@;
        let ghost all = definitions_view(items@);
        let mut out: Vec<Definition> = Vec::new();
        let mut i: usize = 0;
        assert(definitions_view(out@) =~= Seq::empty());
        while i < items.len()
            invariant
                i <= items.len(),
                all == definitions_view(items@),
                reduced_definitions::<R>(start, all, i as nat) == (
                    self@,
                    Ok::<_, ReducerError>(definitions_view(out@)),
                ),
            decreases items.len() - i,
        {
            let ghost done = definitions_view(out@);
            assert(all[i as int] == items[i as int]@);
            match self.reduce_definition(&items[i]) {
                Ok(item) => {
                    out.push(item);
                    assert(definitions_view(out@) =~= done.push(item@));
                },
                Err(error) => {
                    proof {
                        lemma_reduced_definitions_error::<R>(
                            start,
                            all,
                            (i + 1) as nat,
                            items.len() as nat,
                        );
                    }
                    return Err(error);
                },
            }
            i = i + 1;
        }
        Ok(out)
    }

    /// Rewrites each import of `items` in turn, and stops at the first error.
    #[verifier::loop_isolation(false)]
    pub fn reduce_imports(&mut self, items: &Vec<Import>) -> (r: Result<
        Vec<Import>,
        ReducerError,
    >)
        ensures
            reduced_imports::<R>(old(self)@, imports_view(items@), items.len() as nat) == (
                final(self)@,
                match r {
                    Ok(v) => Ok(imports_view(v@)),
                    Err(e) => Err(e),
                },
            ),
    {
        let ghost start = self@;
        let ghost all = imports_view(items@);
        let mut out: Vec<Import> = Vec::new();
        let mut i: usize = 0;
        assert(imports_view(out@) =~= Seq::empty());
        while i < items.len()
            invariant
                i <= items.len(),
                all == imports_view(items@),
                reduced_imports::<R>(start, all, i as nat) == (
                    self@,
                    Ok::<_, ReducerError>(imports_view(out@)),
                ),
            decreases items.len() - i,
        {
            let ghost done = imports_view(out@);
            assert(all[i as int] == items[i as int]@);
            match self.reduce_import(&items[i]) {
                Ok(item) => {
                    out.push(item);
                    assert(imports_view(out@) =~= done.push(item@));
                },
                Err(error) => {
                    proof {
                        lemma_reduced_imports_error::<R>(
                            start,
                            all,
                            (i + 1) as nat,
                            items.len() as nat,
                        );
                    }
                    return Err(error);
                },
            }
            i = i + 1;
        }
        Ok(out)
    }

    /// Rewrites each member variable of `items` in turn, and stops at the first error.
    #[verifier::loop_isolation(false)]
    pub fn reduce_circuit_members(&mut self, items: &Vec<CircuitMember>) -> (r: Result<
        Vec<CircuitMember>,
        ReducerError,
    >)
        ensures
            reduced_circuit_members::<R>(old(self)@, circuit_members_view(items@), items.len() as nat) == (
                final(self)@,
                match r {
                    Ok(v) => Ok(circuit_members_view(v@)),
                    Err(e) => Err(e),
                },
            ),
    {
        let ghost start = self@;
        let ghost all = circuit_members_view(items@);
        let mut out: Vec<CircuitMember> = Vec::new();
        let mut i: usize = 0;
        assert(circuit_members_view(out@) =~= Seq::empty());
        while i < items.len()
            invariant
                i <= items.len(),
                all == circuit_members_view(items@),
                reduced_circuit_members::<R>(start, all, i as nat) == (
                    self@,
                    Ok::<_, ReducerError>(circuit_members_view(out@)),
                ),
            decreases items.len() - i,
        {
            let ghost done = circuit_members_view(out@);
            assert(all[i as int] == items[i as int]@);
            match self.reduce_circuit_member(&items[i]) {
                Ok(item) => {
                    out.push(item);
                    assert(circuit_members_view(out@) =~= done.push(item@));
                },
                Err(error) => {
                    proof {
                        lemma_reduced_circuit_members_error::<R>(
                            start,
                            all,
                            (i + 1) as nat,
                            items.len() as nat,
                        );
                    }
                    return Err(error);
                },
            }
            i = i + 1;
        }
        Ok(out)
    }

    /// Rewrites each annotation of `items` in turn, and stops at the first error.
    #[verifier::loop_isolation(false)]
    pub fn reduce_annotations(&mut self, items: &Vec<Annotation>) -> (r: Result<
        Vec<Annotation>,
        ReducerError,
    >)
        ensures
            reduced_annotations::<R>(old(self)@, annotations_view(items@), items.len() as nat) == (
                final(self)@,
                match r {
                    Ok(v) => Ok(annotations_view(v@)),
                    Err(e) => Err(e),
                },
            ),
    {
        let ghost start = self@;
        let ghost all = annotations_view(items@);
        let mut out: Vec<Annotation> = Vec::new();
        let mut i: usize = 0;
        assert(annotations_view(out@) =~= Seq::empty());
        while i < items.len()
            invariant
                i <= items.len(),
                all == annotations_view(items@),
                reduced_annotations::<R>(start, all, i as nat) == (
                    self@,
                    Ok::<_, ReducerError>(annotations_view(out@)),
                ),
            decreases items.len() - i,
        {
            let ghost done = annotations_view(out@);
            assert(all[i as int] == items[i as int]@);
            match self.reduce_annotation(&items[i]) {
                Ok(item) => {
                    out.push(item);
                    assert(annotations_view(out@) =~= done.push(item@));
                },
                Err(error) => {
                    proof {
                        lemma_reduced_annotations_error::<R>(
                            start,
                            all,
                            (i + 1) as nat,
                            items.len() as nat,
                        );
                    }
                    return Err(error);
                },
            }
            i = i + 1;
        }
        Ok(out)
    }

    /// Rewrites each parameter of `items` in turn, and stops at the first error.
    #[verifier::loop_isolation(false)]
    pub fn reduce_function_inputs(&mut self, items: &Vec<FunctionInput>) -> (r: Result<
        Vec<FunctionInput>,
        ReducerError,
    >)
        ensures
            reduced_function_inputs::<R>(old(self)@, inputs_view(items@), items.len() as nat) == (
                final(self)@,
                match r {
                    Ok(v) => Ok(inputs_view(v@)),
                    Err(e) => Err(e),
                },
            ),
    {
        let ghost start = self@;
        let ghost all = inputs_view(items@);
        let mut out: Vec<FunctionInput> = Vec::new();
        let mut i: usize = 0;
        assert(inputs_view(out@) =~= Seq::empty());
        while i < items.len()
            invariant
                i <= items.len(),
                all == inputs_view(items@),
                reduced_function_inputs::<R>(start, all, i as nat) == (
                    self@,
                    Ok::<_, ReducerError>(inputs_view(out@)),
                ),
            decreases items.len() - i,
        {
            let ghost done = inputs_view(out@);
            assert(all[i as int] == items[i as int]@);
            match self.reduce_function_input(&items[i]) {
                Ok(item) => {
                    out.push(item);
                    assert(inputs_view(out@) =~= done.push(item@));
                },
                Err(error) => {
                    proof {
                        lemma_reduced_function_inputs_error::<R>(
                            start,
                            all,
                            (i + 1) as nat,
                            items.len() as nat,
                        );
                    }
                    return Err(error);
                },
            }
            i = i + 1;
        }
        Ok(out)
    }

    /// Rewrites each function of `items` in turn, and stops at the first error.
    #[verifier::loop_isolation(false)]
    pub fn reduce_functions(&mut self, items: &Vec<Function>) -> (r: Result<
        Vec<Function>,
        ReducerError,
    >)
        ensures
            reduced_functions::<R>(old(self)@, functions_view(items@), items.len() as nat) == (
                final(self)@,
                match r {
                    Ok(v) => Ok(functions_view(v@)),
                    Err(e) => Err(e),
                },
            ),
    {
        let ghost start = self@;
        let ghost all = functions_view(items@);
        let mut out: Vec<Function> = Vec::new();
        let mut i: usize = 0;
        assert(functions_view(out@) =~= Seq::empty());
        while i < items.len()
            invariant
                i <= items.len(),
                all == functions_view(items@),
                reduced_functions::<R>(start, all, i as nat) == (
                    self@,
                    Ok::<_, ReducerError>(functions_view(out@)),
                ),
            decreases items.len() - i,
        {
            let ghost done = functions_view(out@);
            assert(all[i as int] == items[i as int]@);
            match self.reduce_function(&items[i]) {
                Ok(item) => {
                    out.push(item);
                    assert(functions_view(out@) =~= done.push(item@));
                },
                Err(error) => {
                    proof {
                        lemma_reduced_functions_error::<R>(
                            start,
                            all,
                            (i + 1) as nat,
                            items.len() as nat,
                        );
                    }
                    return Err(error);
                },
            }
            i = i + 1;
        }
        Ok(out)
    }

    /// Rewrites each circuit of `items` in turn, and stops at the first error.
    #[verifier::loop_isolation(false)]
    pub fn reduce_circuits(&mut self, items: &Vec<Circuit>) -> (r: Result<
        Vec<Circuit>,
        ReducerError,
    >)
        ensures
            reduced_circuits::<R>(old(self)@, circuits_view(items@), items.len() as nat) == (
                final(self)@,
                match r {
                    Ok(v) => Ok(circuits_view(v@)),
                    Err(e) => Err(e),
                },
            ),
    {
        let ghost start = self@;
        let ghost all = circuits_view(items@);
        let mut out: Vec<Circuit> = Vec::new();
        let mut i: usize = 0;
        assert(circuits_view(out@) =~= Seq::empty());
        while i < items.len()
            invariant
                i <= items.len(),
                all == circuits_view(items@),
                reduced_circuits::<R>(start, all, i as nat) == (
                    self@,
                    Ok::<_, ReducerError>(circuits_view(out@)),
                ),
            decreases items.len() - i,
        {
            let ghost done = circuits_view(out@);
            assert(all[i as int] == items[i as int]@);
            match self.reduce_circuit(&items[i]) {
                Ok(item) => {
                    out.push(item);
                    assert(circuits_view(out@) =~= done.push(item@));
                },
                Err(error) => {
                    proof {
                        lemma_reduced_circuits_error::<R>(
                            start,
                            all,
                            (i + 1) as nat,
                            items.len() as nat,
                        );
                    }
                    return Err(error);
                },
            }
            i = i + 1;
        }
        Ok(out)
    }
}

} // verus!
