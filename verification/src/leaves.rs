//! Passes that leave the leaves of a tree alone.
//!
//! Most passes change nothing about types, names, imports, annotations and parameters.
//! What follows from that is the same for all of them, and is proved here once.

use vstd::prelude::*;
use crate::director::{
    reduced_annotation, reduced_annotations, reduced_binding, reduced_bindings,
    reduced_circuit_member, reduced_circuit_members, reduced_function_input,
    reduced_function_inputs, reduced_import, reduced_imports, reduced_optional_type,
};
use crate::errors::ReducerError;
use crate::program::{AnnotationView, CircuitMemberView, FunctionInputView, ImportView};
use crate::reducer::Reducer;
use crate::statements::BindingView;
use crate::types::TypeView;

verus! {

/// The pass `R` returns every type as it is, in the state it was in.
pub open spec fn keeps_types<R: Reducer>() -> bool {
    forall|s: R::V, x: TypeView| #[trigger] R::type_rule(s, x) == (s, Ok::<_, ReducerError>(x))
}

/// The pass `R` returns a name of a definition as it is, in the state it was in, if its type is
/// handed back as it is.
pub open spec fn keeps_bindings<R: Reducer>() -> bool {
    forall|s: R::V, x: BindingView| #[trigger] R::binding_rule(s, x, x.declared) == (s, Ok::<_, ReducerError>(x))
}

/// The pass `R` returns an import as it is, in the state it was in, if its type is
/// handed back as it is.
pub open spec fn keeps_imports<R: Reducer>() -> bool {
    forall|s: R::V, x: ImportView| #[trigger] R::import_rule(s, x) == (s, Ok::<_, ReducerError>(x))
}

/// The pass `R` returns a member variable as it is, in the state it was in, if its type is
/// handed back as it is.
pub open spec fn keeps_circuit_members<R: Reducer>() -> bool {
    forall|s: R::V, x: CircuitMemberView| #[trigger] R::circuit_member_rule(s, x, x.member_type) == (s, Ok::<_, ReducerError>(x))
}

/// The pass `R` returns an annotation as it is, in the state it was in, if its type is
/// handed back as it is.
pub open spec fn keeps_annotations<R: Reducer>() -> bool {
    forall|s: R::V, x: AnnotationView| #[trigger] R::annotation_rule(s, x) == (s, Ok::<_, ReducerError>(x))
}

/// The pass `R` returns a parameter as it is, in the state it was in, if its type is
/// handed back as it is.
pub open spec fn keeps_function_inputs<R: Reducer>() -> bool {
    forall|s: R::V, x: FunctionInputView| #[trigger] R::function_input_rule(s, x, x.input_type) == (s, Ok::<_, ReducerError>(x))
}

/// A pass that keeps types rewrites an optional type to itself.
pub proof fn lemma_kept_optional_type<R: Reducer>(state: R::V, t: Option<TypeView>)
    requires
        keeps_types::<R>(),
    ensures
        reduced_optional_type::<R>(state, t) == (state, Ok::<_, ReducerError>(t)),
{
}

/// A pass that keeps every item of such a list rewrites the first `n` items of the
/// list to themselves.
pub proof fn lemma_kept_bindings<R: Reducer>(state: R::V, items: Seq<BindingView>, n: nat)
    requires
        keeps_types::<R>() && keeps_bindings::<R>(),
        n <= items.len(),
    ensures
        reduced_bindings::<R>(state, items, n) == (state, Ok::<_, ReducerError>(items.take(n as int))),
    decreases n,
{
    if n > 0 {
        lemma_kept_bindings::<R>(state, items, (n - 1) as nat);
        assert(reduced_binding::<R>(state, items[n - 1]) == (state, Ok::<_, ReducerError>(items[n - 1])));
        assert(items.take(n - 1).push(items[n - 1]) =~= items.take(n as int));
    } else {
        assert(items.take(0) =~= Seq::empty());
    }
}

/// A pass that keeps every item of such a list rewrites the first `n` items of the
/// list to themselves.
pub proof fn lemma_kept_imports<R: Reducer>(state: R::V, items: Seq<ImportView>, n: nat)
    requires
        keeps_imports::<R>(),
        n <= items.len(),
    ensures
        reduced_imports::<R>(state, items, n) == (state, Ok::<_, ReducerError>(items.take(n as int))),
    decreases n,
{
    if n > 0 {
        lemma_kept_imports::<R>(state, items, (n - 1) as nat);
        assert(reduced_import::<R>(state, items[n - 1]) == (state, Ok::<_, ReducerError>(items[n - 1])));
        assert(items.take(n - 1).push(items[n - 1]) =~= items.take(n as int));
    } else {
        assert(items.take(0) =~= Seq::empty());
    }
}

/// A pass that keeps every item of such a list rewrites the first `n` items of the
/// list to themselves.
pub proof fn lemma_kept_circuit_members<R: Reducer>(state: R::V, items: Seq<CircuitMemberView>, n: nat)
    requires
        keeps_types::<R>() && keeps_circuit_members::<R>(),
        n <= items.len(),
    ensures
        reduced_circuit_members::<R>(state, items, n) == (state, Ok::<_, ReducerError>(items.take(n as int))),
    decreases n,
{
    if n > 0 {
        lemma_kept_circuit_members::<R>(state, items, (n - 1) as nat);
        assert(reduced_circuit_member::<R>(state, items[n - 1]) == (state, Ok::<_, ReducerError>(items[n - 1])));
        assert(items.take(n - 1).push(items[n - 1]) =~= items.take(n as int));
    } else {
        assert(items.take(0) =~= Seq::empty());
    }
}

/// A pass that keeps every item of such a list rewrites the first `n` items of the
/// list to themselves.
pub proof fn lemma_kept_annotations<R: Reducer>(state: R::V, items: Seq<AnnotationView>, n: nat)
    requires
        keeps_annotations::<R>(),
        n <= items.len(),
    ensures
        reduced_annotations::<R>(state, items, n) == (state, Ok::<_, ReducerError>(items.take(n as int))),
    decreases n,
{
    if n > 0 {
        lemma_kept_annotations::<R>(state, items, (n - 1) as nat);
        assert(reduced_annotation::<R>(state, items[n - 1]) == (state, Ok::<_, ReducerError>(items[n - 1])));
        assert(items.take(n - 1).push(items[n - 1]) =~= items.take(n as int));
    } else {
        assert(items.take(0) =~= Seq::empty());
    }
}

/// A pass that keeps every item of such a list rewrites the first `n` items of the
/// list to themselves.
pub proof fn lemma_kept_function_inputs<R: Reducer>(state: R::V, items: Seq<FunctionInputView>, n: nat)
    requires
        keeps_types::<R>() && keeps_function_inputs::<R>(),
        n <= items.len(),
    ensures
        reduced_function_inputs::<R>(state, items, n) == (state, Ok::<_, ReducerError>(items.take(n as int))),
    decreases n,
{
    if n > 0 {
        lemma_kept_function_inputs::<R>(state, items, (n - 1) as nat);
        assert(reduced_function_input::<R>(state, items[n - 1]) == (state, Ok::<_, ReducerError>(items[n - 1])));
        assert(items.take(n - 1).push(items[n - 1]) =~= items.take(n as int));
    } else {
        assert(items.take(0) =~= Seq::empty());
    }
}

} // verus!
