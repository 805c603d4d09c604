//! The pass that brings a program into canonical form.
//!
//! Five forms of writing are replaced by their plain equivalents:
//!
//! - a compound assignment `t op= v` becomes `t = t op v`;
//! - a definition of several names from a tuple becomes one definition for each name,
//!   in order, each from the component at the name's position; the definition is
//!   checked to have as many names as the tuple has components where it stands, and
//!   is split where the block around it is rebuilt;
//! - a statement that follows `else` and is no block is put into a block;
//! - a group literal of one number becomes the pair it is short for, an address is
//!   put into lower case, and either is checked to be written as it must be;
//! - a member access in its short form becomes the access on `self`.
//!
//! Every other node is rebuilt as it was. A node that is rewritten in place keeps its
//! identity; a node that the pass adds takes a new identifier and the span of the
//! construct it was made from.

use vstd::prelude::*;
use vstd::pervasive::unreached;
use vstd::string::StringExecFns;
use crate::errors::{outcome_view, ReducerError, ReducerErrorKind};
use crate::expression::{
    expressions_view, Expression, ExpressionKind, ExpressionKindView, ExpressionView, MemberInit,
    MemberInitView,
};
use crate::identities::{
    copy_with_new_identities, first_unused_identity, fresh_copy, mint, minted, unused_identities,
};
use crate::literals::{canonical_literal, canonicalize_literal};
use crate::program::{
    functions_view, Annotation, AnnotationView, Circuit, CircuitMember, CircuitMemberView, CircuitView,
    Function, FunctionInput, FunctionInputView, FunctionView, Import, ImportView, Program,
    ProgramView,
};
use crate::reducer::{
    keep_array, keep_assign, keep_binary, keep_binding, keep_block, keep_call, keep_cast, keep_circuit,
    keep_circuit_init, keep_circuit_member, keep_conditional, keep_definition,
    keep_expression_statement, keep_function, keep_function_input, keep_identifier, keep_index,
    keep_iteration, keep_member, keep_program, keep_return, keep_ternary, keep_tuple,
    keep_tuple_access, keep_unary, kept_array, kept_assign, kept_binary, kept_binding, kept_block, kept_call,
    kept_cast, kept_circuit, kept_circuit_init, kept_circuit_member, kept_conditional,
    kept_definition, kept_expression_statement, kept_function, kept_function_input, kept_index,
    kept_iteration, kept_member, kept_program, kept_return, kept_ternary, kept_tuple,
    kept_tuple_access, kept_unary, optional_statement_view, Reducer,
};
use crate::statements::{
    bindings_view, definitions_view, statements_view, Binding, BindingView, Block, BlockView,
    Definition, DefinitionView, Statement, StatementView,
};
use crate::types::{Type, TypeView};

verus! {

/// What the pass knows of a function: its name and, where it is declared to return a
/// tuple, how many components the tuple has.
#[derive(Debug, PartialEq, Eq)]
pub struct Signature {
    pub name: String,
    pub width: Option<usize>,
}

pub struct SignatureView {
    pub name: Seq<char>,
    pub width: Option<nat>,
}

impl View for Signature {
    type V = SignatureView;

    open spec fn view(&self) -> SignatureView {
        SignatureView {
            name: self.name@,
            width: match self.width {
                Some(w) => Some(w as nat),
                None => None,
            },
        }
    }
}

impl Signature {
    /// The signature of the function `f`.
    pub fn of(f: &Function) -> (r: Signature)
        ensures
            r@ == signature_of(f@),
    {
        let width = match &f.output {
            Some(Type::Tuple(elements)) => {
                assert(crate::types::types_view(elements@).len() == elements.len());
                Some(elements.len())
            },
            _ => None,
        };
        Signature { name: f.name.clone(), width }
    }
}

pub open spec fn signatures_view(s: Seq<Signature>) -> Seq<SignatureView> {
    Seq::new(s.len(), |i: int| s[i]@)
}

/// The signature of the function `f`.
pub open spec fn signature_of(f: FunctionView) -> SignatureView {
    SignatureView {
        name: f.name,
        width: match f.output {
            Some(TypeView::Tuple(elements)) => Some(elements.len()),
            _ => None,
        },
    }
}

/// The signatures of `functions`, in order.
pub open spec fn signatures_of(functions: Seq<FunctionView>) -> Seq<SignatureView> {
    Seq::new(functions.len(), |i: int| signature_of(functions[i]))
}

/// The width that the first signature named `name`, from position `i` on, declares.
pub open spec fn declared_width_from(signatures: Seq<SignatureView>, name: Seq<char>, i: nat) -> Option<
    nat,
>
    decreases signatures.len() - i,
{
    if i >= signatures.len() {
        None
    } else if signatures[i as int].name == name {
        signatures[i as int].width
    } else {
        declared_width_from(signatures, name, i + 1)
    }
}

/// The number of components of the tuple that `e` produces, where the form of `e`
/// shows it: `e` is a tuple expression, or a call of a function of the program, by its
/// name alone, that is declared to return a tuple.
pub open spec fn tuple_width(signatures: Seq<SignatureView>, e: ExpressionView) -> Option<nat> {
    match e.kind {
        ExpressionKindView::Tuple(elements) => Some(elements.len()),
        ExpressionKindView::Call { callee, .. } => if callee.len() == 1 {
            declared_width_from(signatures, callee[0], 0)
        } else {
            None
        },
        _ => None,
    }
}

/// The state of the pass: the supply of identifiers for new nodes, and the signatures
/// of the functions of the program.
pub struct CanonicalizerView {
    pub next: Option<u64>,
    pub signatures: Seq<SignatureView>,
}

impl CanonicalizerView {
    /// This state with the supply `next`.
    pub open spec fn with_next(self, next: Option<u64>) -> CanonicalizerView {
        CanonicalizerView { next, signatures: self.signatures }
    }
}

/// The name of the receiver of a member access in its short form.
pub open spec fn receiver_name() -> Seq<char> {
    "self"@
}

/// Whether `e` can stand on the left of an assignment: a name, or a member, an
/// element or a component of something that can.
pub open spec fn assignable(e: ExpressionView) -> bool
    decreases e,
{
    match e.kind {
        ExpressionKindView::Identifier(_) => true,
        ExpressionKindView::Member { object, .. } => assignable(*object),
        ExpressionKindView::Index { array, .. } => assignable(*array),
        ExpressionKindView::TupleAccess { tuple, .. } => assignable(*tuple),
        _ => false,
    }
}

/// The literal expression `original` with its literal in canonical form, or the
/// error of a malformed literal at the span of `original`.
pub open spec fn canonical_literal_expression(original: ExpressionView) -> Result<
    ExpressionView,
    ReducerError,
> {
    match canonical_literal(original.kind->Literal_0) {
        Some(l) => Ok(ExpressionView { node: original.node, kind: ExpressionKindView::Literal(l) }),
        None => Err(
            ReducerError { kind: ReducerErrorKind::MalformedLiteral, span: original.node.span },
        ),
    }
}

/// The member access on `self` that the short form `original` stands for. The access
/// keeps the identity of `original`; the reference to `self` is a new node at the
/// same span.
pub open spec fn explicit_member(state: CanonicalizerView, original: ExpressionView) -> (
    CanonicalizerView,
    Result<ExpressionView, ReducerError>,
) {
    let m = minted(state.next, original.node.span);
    if m.1 is Err {
        (state.with_next(m.0), Err(m.1->Err_0))
    } else {
        (
            state.with_next(m.0),
            Ok(
                ExpressionView {
                    node: original.node,
                    kind: ExpressionKindView::Member {
                        object: Box::new(
                            ExpressionView {
                                node: m.1->Ok_0,
                                kind: ExpressionKindView::Identifier(receiver_name()),
                            },
                        ),
                        name: original.kind->ImplicitMember_name,
                    },
                },
            ),
        )
    }
}

/// The plain assignment that the assignment `original` stands for, given its target
/// and value as already rewritten. An assignment without an operator is kept. A
/// compound assignment `t op= v` whose target can be assigned to becomes `t = c op v`,
/// where `c` is a copy of `t` under new identifiers and the operation is a new node at
/// the span of the assignment; if the target cannot be assigned to, the result is an
/// error at the target's span.
pub open spec fn plain_assignment(
    state: CanonicalizerView,
    original: StatementView,
    target: ExpressionView,
    value: ExpressionView,
) -> (CanonicalizerView, Result<StatementView, ReducerError>) {
    match original->operation {
        None => (state, Ok(kept_assign(original, target, value))),
        Some(operation) => if !assignable(target) {
            (
                state,
                Err(
                    ReducerError {
                        kind: ReducerErrorKind::InvalidAssignmentTarget,
                        span: target.node.span,
                    },
                ),
            )
        } else {
            let c = fresh_copy(state.next, target);
            if c.1 is Err {
                (state.with_next(c.0), Err(c.1->Err_0))
            } else {
                let m = minted(c.0, original.node().span);
                if m.1 is Err {
                    (state.with_next(m.0), Err(m.1->Err_0))
                } else {
                    (
                        state.with_next(m.0),
                        Ok(
                            StatementView::Assign {
                                node: original.node(),
                                target,
                                operation: None,
                                value: ExpressionView {
                                    node: m.1->Ok_0,
                                    kind: ExpressionKindView::Binary {
                                        operation,
                                        left: Box::new(c.1->Ok_0),
                                        right: Box::new(value),
                                    },
                                },
                            },
                        ),
                    )
                }
            }
        },
    }
}

/// The definition of the name at position `i` of `d`, a definition of several names
/// from a tuple. The definition is a new node at the span of `d`. Where the
/// initializer of `d` is a tuple expression, the name is defined from the component
/// at its position as it stands; else from a new access, at the span of the
/// initializer, to that component of a copy of the initializer under new identifiers.
pub open spec fn component(state: CanonicalizerView, d: DefinitionView, i: int) -> (
    CanonicalizerView,
    Result<DefinitionView, ReducerError>,
) {
    let m = minted(state.next, d.node.span);
    if m.1 is Err {
        (state.with_next(m.0), Err(m.1->Err_0))
    } else {
        match d.value.kind {
            ExpressionKindView::Tuple(elements) => (
                state.with_next(m.0),
                Ok(
                    DefinitionView {
                        node: m.1->Ok_0,
                        mutable: d.mutable,
                        bindings: seq![d.bindings[i]],
                        value: elements[i],
                    },
                ),
            ),
            _ => {
                let c = fresh_copy(m.0, d.value);
                if c.1 is Err {
                    (state.with_next(c.0), Err(c.1->Err_0))
                } else {
                    let a = minted(c.0, d.value.node.span);
                    if a.1 is Err {
                        (state.with_next(a.0), Err(a.1->Err_0))
                    } else {
                        (
                            state.with_next(a.0),
                            Ok(
                                DefinitionView {
                                    node: m.1->Ok_0,
                                    mutable: d.mutable,
                                    bindings: seq![d.bindings[i]],
                                    value: ExpressionView {
                                        node: a.1->Ok_0,
                                        kind: ExpressionKindView::TupleAccess {
                                            tuple: Box::new(c.1->Ok_0),
                                            position: i as u64,
                                        },
                                    },
                                },
                            ),
                        )
                    }
                }
            },
        }
    }
}

/// The definitions of the first `n` names of `d`, in order.
pub open spec fn components(state: CanonicalizerView, d: DefinitionView, n: nat) -> (
    CanonicalizerView,
    Result<Seq<DefinitionView>, ReducerError>,
)
    decreases n,
{
    if n == 0 {
        (state, Ok(Seq::empty()))
    } else {
        let before = components(state, d, (n - 1) as nat);
        if before.1 is Err {
            before
        } else {
            let last = component(before.0, d, n - 1);
            if last.1 is Err {
                (last.0, Err(last.1->Err_0))
            } else {
                (last.0, Ok(before.1->Ok_0.push(last.1->Ok_0)))
            }
        }
    }
}

/// Whether the definition `d` is one that the pass splits: it defines two names or
/// more, and the form of its initializer shows a tuple.
pub open spec fn splits(signatures: Seq<SignatureView>, d: DefinitionView) -> bool {
    d.bindings.len() >= 2 && tuple_width(signatures, d.value) is Some
}

/// Whether the definition `d` is one that the pass splits, but defines another
/// number of names than its tuple has components.
pub open spec fn mismatched(signatures: Seq<SignatureView>, d: DefinitionView) -> bool {
    splits(signatures, d) && tuple_width(signatures, d.value)->Some_0 != d.bindings.len()
}

/// The definition `original` around its names and its initializer as already
/// rewritten, or the error of a number of names that differs from the width of the
/// tuple, at the span of the definition.
pub open spec fn checked_definition(
    state: CanonicalizerView,
    original: DefinitionView,
    bindings: Seq<BindingView>,
    value: ExpressionView,
) -> (CanonicalizerView, Result<DefinitionView, ReducerError>) {
    let d = kept_definition(original, bindings, value);
    if mismatched(state.signatures, d) {
        (state, Err(ReducerError { kind: ReducerErrorKind::ArityMismatch, span: d.node.span }))
    } else {
        (state, Ok(d))
    }
}

/// The definitions that take the place of `d`: `d` alone, unless the pass splits it;
/// else one definition for each name, or the error of a number of names that differs
/// from the width of the tuple, at the span of `d`.
pub open spec fn single_definitions(state: CanonicalizerView, d: DefinitionView) -> (
    CanonicalizerView,
    Result<Seq<DefinitionView>, ReducerError>,
) {
    if !splits(state.signatures, d) {
        (state, Ok(seq![d]))
    } else if mismatched(state.signatures, d) {
        (state, Err(ReducerError { kind: ReducerErrorKind::ArityMismatch, span: d.node.span }))
    } else {
        components(state, d, d.bindings.len())
    }
}

/// Each of `definitions` as a statement.
pub open spec fn as_statements(definitions: Seq<DefinitionView>) -> Seq<StatementView> {
    Seq::new(definitions.len(), |i: int| StatementView::Definition(definitions[i]))
}

/// The first `n` of `items` with each definition replaced by the definitions that
/// take its place.
pub open spec fn with_single_definitions(state: CanonicalizerView, items: Seq<StatementView>, n: nat) -> (
    CanonicalizerView,
    Result<Seq<StatementView>, ReducerError>,
)
    decreases n,
{
    if n == 0 || n > items.len() {
        (state, Ok(Seq::empty()))
    } else {
        let before = with_single_definitions(state, items, (n - 1) as nat);
        if before.1 is Err {
            before
        } else {
            match items[n - 1] {
                StatementView::Definition(d) => {
                    let last = single_definitions(before.0, d);
                    if last.1 is Err {
                        (last.0, Err(last.1->Err_0))
                    } else {
                        (last.0, Ok(before.1->Ok_0 + as_statements(last.1->Ok_0)))
                    }
                },
                other => (before.0, Ok(before.1->Ok_0.push(other))),
            }
        }
    }
}

/// The first `n` of the global definitions `items` with each replaced by the
/// definitions that take its place.
pub open spec fn global_single_definitions(
    state: CanonicalizerView,
    items: Seq<DefinitionView>,
    n: nat,
) -> (CanonicalizerView, Result<Seq<DefinitionView>, ReducerError>)
    decreases n,
{
    if n == 0 || n > items.len() {
        (state, Ok(Seq::empty()))
    } else {
        let before = global_single_definitions(state, items, (n - 1) as nat);
        if before.1 is Err {
            before
        } else {
            let last = single_definitions(before.0, items[n - 1]);
            if last.1 is Err {
                (last.0, Err(last.1->Err_0))
            } else {
                (last.0, Ok(before.1->Ok_0 + last.1->Ok_0))
            }
        }
    }
}

/// The block `original` around the statements as already rewritten, with each
/// definition among them replaced by the definitions that take its place.
pub open spec fn block_of_single_definitions(
    state: CanonicalizerView,
    original: BlockView,
    statements: Seq<StatementView>,
) -> (CanonicalizerView, Result<BlockView, ReducerError>) {
    let s = with_single_definitions(state, statements, statements.len());
    if s.1 is Err {
        (s.0, Err(s.1->Err_0))
    } else {
        (s.0, Ok(kept_block(original, s.1->Ok_0)))
    }
}

/// The program of the given parts, with each global definition replaced by the
/// definitions that take its place.
pub open spec fn program_of_single_definitions(
    state: CanonicalizerView,
    imports: Seq<ImportView>,
    circuits: Seq<CircuitView>,
    functions: Seq<FunctionView>,
    globals: Seq<DefinitionView>,
) -> (CanonicalizerView, Result<ProgramView, ReducerError>) {
    let s = global_single_definitions(state, globals, globals.len());
    if s.1 is Err {
        (s.0, Err(s.1->Err_0))
    } else {
        (s.0, Ok(kept_program(imports, circuits, functions, s.1->Ok_0)))
    }
}

/// The conditional `original` around its parts as already rewritten. A statement
/// after `else` that is no block is put into a block, a new node at the span of that
/// statement; a definition that is put into a block so is replaced by the
/// definitions that take its place.
pub open spec fn conditional_with_else_block(
    state: CanonicalizerView,
    original: StatementView,
    condition: ExpressionView,
    then_block: BlockView,
    otherwise: Option<StatementView>,
) -> (CanonicalizerView, Result<StatementView, ReducerError>) {
    match otherwise {
        None => (state, Ok(kept_conditional(original, condition, then_block, otherwise))),
        Some(next) => if next is Block {
            (state, Ok(kept_conditional(original, condition, then_block, otherwise)))
        } else {
            let s = with_single_definitions(state, seq![next], 1);
            if s.1 is Err {
                (s.0, Err(s.1->Err_0))
            } else {
                let m = minted(s.0.next, next.node().span);
                if m.1 is Err {
                    (s.0.with_next(m.0), Err(m.1->Err_0))
                } else {
                    (
                        s.0.with_next(m.0),
                        Ok(
                            kept_conditional(
                                original,
                                condition,
                                then_block,
                                Some(
                                    StatementView::Block(
                                        BlockView { node: m.1->Ok_0, statements: s.1->Ok_0 },
                                    ),
                                ),
                            ),
                        ),
                    )
                }
            }
        },
    }
}

/// Once replacing the definitions of a list has failed, the rest of the list changes
/// nothing.
pub proof fn lemma_with_single_definitions_error(
    state: CanonicalizerView,
    items: Seq<StatementView>,
    m: nat,
    n: nat,
)
    requires
        m <= n <= items.len(),
        with_single_definitions(state, items, m).1 is Err,
    ensures
        with_single_definitions(state, items, n) == with_single_definitions(state, items, m),
    decreases n,
{
    if m < n {
        lemma_with_single_definitions_error(state, items, m, (n - 1) as nat);
    }
}

/// Once replacing the global definitions has failed, the rest of them changes nothing.
pub proof fn lemma_global_single_definitions_error(
    state: CanonicalizerView,
    items: Seq<DefinitionView>,
    m: nat,
    n: nat,
)
    requires
        m <= n <= items.len(),
        global_single_definitions(state, items, m).1 is Err,
    ensures
        global_single_definitions(state, items, n) == global_single_definitions(state, items, m),
    decreases n,
{
    if m < n {
        lemma_global_single_definitions_error(state, items, m, (n - 1) as nat);
    }
}

/// Once defining the names of a definition one by one has failed, the rest of the
/// names changes nothing.
pub proof fn lemma_components_error(state: CanonicalizerView, d: DefinitionView, m: nat, n: nat)
    requires
        m <= n,
        components(state, d, m).1 is Err,
    ensures
        components(state, d, n) == components(state, d, m),
    decreases n,
{
    if m < n {
        lemma_components_error(state, d, m, (n - 1) as nat);
    }
}

/// The pass that brings a program into canonical form.
pub struct Canonicalizer {
    next: Option<u64>,
    signatures: Vec<Signature>,
}

impl View for Canonicalizer {
    type V = CanonicalizerView;

    closed spec fn view(&self) -> CanonicalizerView {
        CanonicalizerView { next: self.next, signatures: signatures_view(self.signatures@) }
    }
}

/// The state in which the pass begins on the program `p`: the identifiers that no
/// node of `p` has, and the signatures of the functions of `p`.
pub open spec fn initial_state(p: ProgramView) -> CanonicalizerView {
    CanonicalizerView { next: unused_identities(p), signatures: signatures_of(p.functions) }
}

impl Canonicalizer {
    /// The pass with the supply of identifiers `next` and the given signatures.
    pub fn new(next: Option<u64>, signatures: Vec<Signature>) -> (r: Canonicalizer)
        ensures
            r@ == (CanonicalizerView { next, signatures: signatures_view(signatures@) }),
    {
        Canonicalizer { next, signatures }
    }

    /// The pass as it begins on the program `p`.
    pub fn for_program(p: &Program) -> (r: Canonicalizer)
        ensures
            r@ == initial_state(p@),
    {
        let next = first_unused_identity(p);
        let mut signatures: Vec<Signature> = Vec::new();
        let mut i: usize = 0;
        while i < p.functions.len()
            invariant
                i <= p.functions.len(),
                signatures.len() == i,
                forall|k: int| 0 <= k < i ==> signatures[k]@ == signature_of(p.functions[k]@),
            decreases p.functions.len() - i,
        {
            signatures.push(Signature::of(&p.functions[i]));
            i = i + 1;
        }
        assert(signatures_view(signatures@) =~= signatures_of(functions_view(p.functions@)));
        Canonicalizer { next, signatures }
    }

    /// The width that the signatures declare for the function `name`.
    fn declared_width(&self, name: &String) -> (r: Option<usize>)
        ensures
            declared_width_from(self@.signatures, name@, 0) == match r {
                Some(w) => Some(w as nat),
                None => None,
            },
    {
        let mut i: usize = 0;
        while i < self.signatures.len()
            invariant
                i <= self.signatures.len(),
                declared_width_from(self@.signatures, name@, 0) == declared_width_from(
                    self@.signatures,
                    name@,
                    i as nat,
                ),
            decreases self.signatures.len() - i,
        {
            if self.signatures[i].name == *name {
                return self.signatures[i].width;
            }
            i = i + 1;
        }
        None
    }

    /// The number of components of the tuple that `e` produces, where the form of `e`
    /// shows it.
    pub fn tuple_width(&self, e: &Expression) -> (r: Option<usize>)
        ensures
            tuple_width(self@.signatures, e@) == match r {
                Some(w) => Some(w as nat),
                None => None,
            },
    {
        match &e.kind {
            ExpressionKind::Tuple(elements) => {
                assert(expressions_view(elements@).len() == elements.len());
                Some(elements.len())
            },
            ExpressionKind::Call { callee, .. } => if callee.len() == 1 {
                assert(crate::node::texts_view(callee@)[0] == callee[0]@);
                self.declared_width(&callee[0])
            } else {
                None
            },
            _ => None,
        }
    }
}

impl Default for Canonicalizer {
    /// The pass for a program without nodes and without functions: every identifier
    /// is free for new nodes, and no call is known to return a tuple.
    fn default() -> (r: Canonicalizer)
        ensures
            r@ == (CanonicalizerView { next: Some(0u64), signatures: Seq::<SignatureView>::empty() }),
    {
        let signatures: Vec<Signature> = Vec::new();
        assert(signatures_view(signatures@) =~= Seq::<SignatureView>::empty());
        Canonicalizer { next: Some(0), signatures }
    }
}

/// Whether `e` can stand on the left of an assignment.
pub fn is_assignable(e: &Expression) -> (r: bool)
    ensures
        r == assignable(e@),
    decreases e,
{
    match &e.kind {
        ExpressionKind::Identifier(_) => true,
        ExpressionKind::Member { object, .. } => is_assignable(&**object),
        ExpressionKind::Index { array, .. } => is_assignable(&**array),
        ExpressionKind::TupleAccess { tuple, .. } => is_assignable(&**tuple),
        _ => false,
    }
}

/// Moves the definitions `parts` to the end of `out`.
fn append_all(out: &mut Vec<Definition>, parts: Vec<Definition>)
    ensures
        definitions_view(final(out)@) == definitions_view(old(out)@) + definitions_view(parts@),
{
    let ghost done = definitions_view(out@);
    let ghost added = definitions_view(parts@);
    assert(definitions_view(out@) =~= done + added.take(0));
    for part in it: parts
        invariant
            it.seq() == parts@,
            added == definitions_view(parts@),
            definitions_view(out@) == done + added.take(it.index() as int),
    {
        let ghost before = definitions_view(out@);
        assert(added[it.index() as int] == part@);
        assert(added.take(it.index() + 1) =~= added.take(it.index() as int).push(part@));
        out.push(part);
        assert(definitions_view(out@) =~= before.push(part@));
        assert(definitions_view(out@) =~= done + added.take(it.index() + 1));
    }
    assert(added.take(parts@.len() as int) =~= added);
}

/// Moves the definitions `parts`, as statements, to the end of `out`.
fn append_definitions(out: &mut Vec<Statement>, parts: Vec<Definition>)
    ensures
        statements_view(final(out)@) == statements_view(old(out)@) + as_statements(
            definitions_view(parts@),
        ),
{
    let ghost done = statements_view(out@);
    let ghost added = as_statements(definitions_view(parts@));
    assert(statements_view(out@) =~= done + added.take(0));
    for part in it: parts
        invariant
            it.seq() == parts@,
            added == as_statements(definitions_view(parts@)),
            statements_view(out@) == done + added.take(it.index() as int),
    {
        let ghost last = StatementView::Definition(part@);
        assert(added[it.index() as int] == last);
        assert(added.take(it.index() + 1) =~= added.take(it.index() as int).push(last));
        let ghost before = statements_view(out@);
        let statement = Statement::Definition(part);
        assert(statement@ == last);
        out.push(statement);
        assert(statements_view(out@) =~= before.push(last));
        assert(statements_view(out@) =~= done + added.take(it.index() + 1));
    }
    assert(added.take(parts@.len() as int) =~= added);
}

impl Canonicalizer {
    fn canonicalize_literal_expression(&mut self, original: &Expression) -> (r: Result<
        Expression,
        ReducerError,
    >)
        requires
            original@.kind is Literal,
        ensures
            (old(self)@, canonical_literal_expression(original@)) == (final(self)@, outcome_view(r)),
    {
        match &original.kind {
            ExpressionKind::Literal(l) => match canonicalize_literal(l) {
                Some(l) => Ok(Expression { node: original.node, kind: ExpressionKind::Literal(l) }),
                None => Err(
                    ReducerError { kind: ReducerErrorKind::MalformedLiteral, span: original.node.span },
                ),
            },
            _ => unreached(),
        }
    }

    fn expand_implicit_member(&mut self, original: &Expression) -> (r: Result<Expression, ReducerError>)
        requires
            original@.kind is ImplicitMember,
        ensures
            explicit_member(old(self)@, original@) == (final(self)@, outcome_view(r)),
    {
        match &original.kind {
            ExpressionKind::ImplicitMember { name } => {
                let node = match mint(&mut self.next, original.node.span) {
                    Ok(node) => node,
                    Err(error) => return Err(error),
                };
                let receiver = Expression {
                    node,
                    kind: ExpressionKind::Identifier(String::from_str("self")),
                };
                assert(receiver@.kind == ExpressionKindView::Identifier(receiver_name()));
                Ok(
                    Expression {
                        node: original.node,
                        kind: ExpressionKind::Member { object: Box::new(receiver), name: name.clone() },
                    },
                )
            },
            _ => unreached(),
        }
    }

    fn expand_assignment(&mut self, original: &Statement, target: Expression, value: Expression) -> (r:
        Result<Statement, ReducerError>)
        requires
            original@ is Assign,
        ensures
            plain_assignment(old(self)@, original@, target@, value@) == (final(self)@, outcome_view(r)),
    {
        match original {
            Statement::Assign { node, operation, .. } => match operation {
                None => Ok(keep_assign(original, target, value)),
                Some(operation) => {
                    if !is_assignable(&target) {
                        return Err(
                            ReducerError {
                                kind: ReducerErrorKind::InvalidAssignmentTarget,
                                span: target.node.span,
                            },
                        );
                    }
                    let copy = match copy_with_new_identities(&mut self.next, &target) {
                        Ok(copy) => copy,
                        Err(error) => return Err(error),
                    };
                    let binary = match mint(&mut self.next, node.span) {
                        Ok(node) => node,
                        Err(error) => return Err(error),
                    };
                    Ok(
                        Statement::Assign {
                            node: *node,
                            target,
                            operation: None,
                            value: Expression {
                                node: binary,
                                kind: ExpressionKind::Binary {
                                    operation: *operation,
                                    left: Box::new(copy),
                                    right: Box::new(value),
                                },
                            },
                        },
                    )
                },
            },
            _ => unreached(),
        }
    }

    fn check_definition(&mut self, original: &Definition, bindings: Vec<Binding>, value: Expression) -> (r:
        Result<Definition, ReducerError>)
        ensures
            checked_definition(old(self)@, original@, bindings_view(bindings@), value@) == (
                final(self)@,
                outcome_view(r),
            ),
    {
        let d = keep_definition(original, bindings, value);
        if d.bindings.len() >= 2 {
            match self.tuple_width(&d.value) {
                Some(width) => {
                    if width != d.bindings.len() {
                        return Err(
                            ReducerError { kind: ReducerErrorKind::ArityMismatch, span: d.node.span },
                        );
                    }
                },
                None => {},
            }
        }
        Ok(d)
    }

    /// Defines each name of `d` from the component at its position of a copy of the
    /// initializer.
    #[verifier::loop_isolation(false)]
    fn split_by_access(&mut self, d: &Definition) -> (r: Result<Vec<Definition>, ReducerError>)
        requires
            !(d@.value.kind is Tuple),
        ensures
            components(old(self)@, d@, d.bindings.len() as nat) == (
                final(self)@,
                match r {
                    Ok(v) => Ok(definitions_view(v@)),
                    Err(e) => Err(e),
                },
            ),
    {
        let ghost start = self@;
        let n = d.bindings.len();
        let mut out: Vec<Definition> = Vec::new();
        let mut i: usize = 0;
        assert(definitions_view(out@) =~= Seq::empty());
        while i < n
            invariant
                i <= n,
                components(start, d@, i as nat) == (self@, Ok::<_, ReducerError>(definitions_view(out@))),
            decreases n - i,
        {
            let ghost done = definitions_view(out@);
            let ghost step = component(self@, d@, i as int);
            let node = match mint(&mut self.next, d.node.span) {
                Ok(node) => node,
                Err(error) => {
                    proof {
                        lemma_components_error(start, d@, (i + 1) as nat, n as nat);
                    }
                    return Err(error);
                },
            };
            let copy = match copy_with_new_identities(&mut self.next, &d.value) {
                Ok(copy) => copy,
                Err(error) => {
                    proof {
                        lemma_components_error(start, d@, (i + 1) as nat, n as nat);
                    }
                    return Err(error);
                },
            };
            let access = match mint(&mut self.next, d.value.node.span) {
                Ok(node) => node,
                Err(error) => {
                    proof {
                        lemma_components_error(start, d@, (i + 1) as nat, n as nat);
                    }
                    return Err(error);
                },
            };
            let mut bindings: Vec<Binding> = Vec::new();
            bindings.push(d.bindings[i].clone());
            assert(bindings_view(bindings@) =~= seq![d@.bindings[i as int]]);
            let part = Definition {
                node,
                mutable: d.mutable,
                bindings,
                value: Expression {
                    node: access,
                    kind: ExpressionKind::TupleAccess { tuple: Box::new(copy), position: i as u64 },
                },
            };
            assert(step == (self@, Ok::<_, ReducerError>(part@)));
            out.push(part);
            assert(definitions_view(out@) =~= done.push(part@));
            i = i + 1;
        }
        Ok(out)
    }

    /// Defines each name of `d` from the element at its position of the tuple
    /// expression that is the initializer.
    #[verifier::loop_isolation(false)]
    fn split_by_element(&mut self, d: Definition) -> (r: Result<Vec<Definition>, ReducerError>)
        requires
            d@.value.kind matches ExpressionKindView::Tuple(elements) && elements.len()
                == d.bindings.len(),
        ensures
            components(old(self)@, d@, d.bindings.len() as nat) == (
                final(self)@,
                match r {
                    Ok(v) => Ok(definitions_view(v@)),
                    Err(e) => Err(e),
                },
            ),
    {
        let ghost start = self@;
        let ghost whole = d@;
        let Definition { node, mutable, bindings: names, value } = d;
        let n = names.len();
        match value.kind {
            ExpressionKind::Tuple(elements) => {
                let ghost all = elements@;
                assert(whole.value.kind->Tuple_0 == expressions_view(all));
                let mut out: Vec<Definition> = Vec::new();
                let mut i: usize = 0;
                assert(definitions_view(out@) =~= Seq::empty());
                for element in it: elements
                    invariant
                        i == it.index(),
                        it.seq() == all,
                        all.len() == n,
                        components(start, whole, i as nat) == (
                            self@,
                            Ok::<_, ReducerError>(definitions_view(out@)),
                        ),
                {
                    let ghost done = definitions_view(out@);
                    let ghost step = component(self@, whole, i as int);
                    assert(element == all[i as int]);
                    assert(whole.value.kind->Tuple_0[i as int] == element@);
                    let part_node = match mint(&mut self.next, node.span) {
                        Ok(node) => node,
                        Err(error) => {
                            proof {
                                lemma_components_error(start, whole, (i + 1) as nat, n as nat);
                            }
                            return Err(error);
                        },
                    };
                    let mut bindings: Vec<Binding> = Vec::new();
                    bindings.push(names[i].clone());
                    assert(bindings_view(bindings@) =~= seq![whole.bindings[i as int]]);
                    let part = Definition { node: part_node, mutable, bindings, value: element };
                    assert(step == (self@, Ok::<_, ReducerError>(part@)));
                    out.push(part);
                    assert(definitions_view(out@) =~= done.push(part@));
                    i = i + 1;
                }
                Ok(out)
            },
            _ => unreached(),
        }
    }

    /// The definitions that take the place of `d`.
    pub fn split_definition(&mut self, d: Definition) -> (r: Result<Vec<Definition>, ReducerError>)
        ensures
            single_definitions(old(self)@, d@) == (
                final(self)@,
                match r {
                    Ok(v) => Ok(definitions_view(v@)),
                    Err(e) => Err(e),
                },
            ),
    {
        let n = d.bindings.len();
        let width = if n >= 2 {
            self.tuple_width(&d.value)
        } else {
            None
        };
        match width {
            None => {
                let ghost whole = d@;
                let mut out: Vec<Definition> = Vec::new();
                out.push(d);
                assert(definitions_view(out@) =~= seq![whole]);
                Ok(out)
            },
            Some(w) => {
                if w != n {
                    return Err(
                        ReducerError { kind: ReducerErrorKind::ArityMismatch, span: d.node.span },
                    );
                }
                let is_tuple = match &d.value.kind {
                    ExpressionKind::Tuple(_) => true,
                    _ => false,
                };
                if is_tuple {
                    self.split_by_element(d)
                } else {
                    self.split_by_access(&d)
                }
            },
        }
    }

    /// `items` with each definition replaced by the definitions that take its place.
    #[verifier::loop_isolation(false)]
    pub fn split_statements(&mut self, items: Vec<Statement>) -> (r: Result<Vec<Statement>, ReducerError>)
        ensures
            with_single_definitions(old(self)@, statements_view(items@), items.len() as nat) == (
                final(self)@,
                match r {
                    Ok(v) => Ok(statements_view(v@)),
                    Err(e) => Err(e),
                },
            ),
    {
        let ghost start = self@;
        let ghost all = statements_view(items@);
        let ghost n = items.len() as nat;
        let mut out: Vec<Statement> = Vec::new();
        assert(statements_view(out@) =~= Seq::empty());
        for item in it: items
            invariant
                it.seq() == items@,
                all == statements_view(items@),
                n == items.len(),
                with_single_definitions(start, all, it.index() as nat) == (
                    self@,
                    Ok::<_, ReducerError>(statements_view(out@)),
                ),
        {
            let ghost done = statements_view(out@);
            assert(all[it.index() as int] == item@);
            match item {
                Statement::Definition(d) => {
                    match self.split_definition(d) {
                        Ok(parts) => {
                            append_definitions(&mut out, parts);
                        },
                        Err(error) => {
                            proof {
                                lemma_with_single_definitions_error(
                                    start,
                                    all,
                                    (it.index() + 1) as nat,
                                    n,
                                );
                            }
                            return Err(error);
                        },
                    }
                },
                other => {
                    out.push(other);
                    assert(statements_view(out@) =~= done.push(other@));
                },
            }
        }
        Ok(out)
    }

    /// The global definitions `items` with each replaced by the definitions that take
    /// its place.
    #[verifier::loop_isolation(false)]
    pub fn split_globals(&mut self, items: Vec<Definition>) -> (r: Result<Vec<Definition>, ReducerError>)
        ensures
            global_single_definitions(old(self)@, definitions_view(items@), items.len() as nat) == (
                final(self)@,
                match r {
                    Ok(v) => Ok(definitions_view(v@)),
                    Err(e) => Err(e),
                },
            ),
    {
        let ghost start = self@;
        let ghost all = definitions_view(items@);
        let ghost n = items.len() as nat;
        let mut out: Vec<Definition> = Vec::new();
        assert(definitions_view(out@) =~= Seq::empty());
        for item in it: items
            invariant
                it.seq() == items@,
                all == definitions_view(items@),
                n == items.len(),
                global_single_definitions(start, all, it.index() as nat) == (
                    self@,
                    Ok::<_, ReducerError>(definitions_view(out@)),
                ),
        {
            assert(all[it.index() as int] == item@);
            match self.split_definition(item) {
                Ok(parts) => {
                    append_all(&mut out, parts);
                },
                Err(error) => {
                    proof {
                        lemma_global_single_definitions_error(start, all, (it.index() + 1) as nat, n);
                    }
                    return Err(error);
                },
            }
        }
        Ok(out)
    }

    fn wrap_else_branch(
        &mut self,
        original: &Statement,
        condition: Expression,
        then_block: Block,
        otherwise: Option<Statement>,
    ) -> (r: Result<Statement, ReducerError>)
        requires
            original@ is Conditional,
        ensures
            conditional_with_else_block(
                old(self)@,
                original@,
                condition@,
                then_block@,
                optional_statement_view(otherwise),
            ) == (final(self)@, outcome_view(r)),
    {
        match otherwise {
            None => Ok(keep_conditional(original, condition, then_block, None)),
            Some(next) => {
                let is_block = match &next {
                    Statement::Block(_) => true,
                    _ => false,
                };
                if is_block {
                    Ok(keep_conditional(original, condition, then_block, Some(next)))
                } else {
                    let span = next.node().span;
                    let ghost following = next@;
                    let mut one: Vec<Statement> = Vec::new();
                    one.push(next);
                    assert(statements_view(one@) =~= seq![following]);
                    let statements = match self.split_statements(one) {
                        Ok(statements) => statements,
                        Err(error) => return Err(error),
                    };
                    let node = match mint(&mut self.next, span) {
                        Ok(node) => node,
                        Err(error) => return Err(error),
                    };
                    let block = Statement::Block(Block { node, statements });
                    Ok(keep_conditional(original, condition, then_block, Some(block)))
                }
            },
        }
    }

    fn rebuild_block(&mut self, original: &Block, statements: Vec<Statement>) -> (r: Result<
        Block,
        ReducerError,
    >)
        ensures
            block_of_single_definitions(old(self)@, original@, statements_view(statements@)) == (
                final(self)@,
                outcome_view(r),
            ),
    {
        match self.split_statements(statements) {
            Ok(statements) => Ok(keep_block(original, statements)),
            Err(error) => Err(error),
        }
    }

    fn rebuild_program(
        &mut self,
        imports: Vec<Import>,
        circuits: Vec<Circuit>,
        functions: Vec<Function>,
        globals: Vec<Definition>,
    ) -> (r: Result<Program, ReducerError>)
        ensures
            program_of_single_definitions(
                old(self)@,
                crate::program::imports_view(imports@),
                crate::program::circuits_view(circuits@),
                functions_view(functions@),
                definitions_view(globals@),
            ) == (final(self)@, outcome_view(r)),
    {
        match self.split_globals(globals) {
            Ok(globals) => Ok(keep_program(imports, circuits, functions, globals)),
            Err(error) => Err(error),
        }
    }
}

impl Reducer for Canonicalizer {
    open spec fn literal_rule(
        state: CanonicalizerView,
        original: ExpressionView,
    ) -> (CanonicalizerView, Result<ExpressionView, ReducerError>) {
        (state, canonical_literal_expression(original))
    }

    open spec fn identifier_rule(
        state: CanonicalizerView,
        original: ExpressionView,
    ) -> (CanonicalizerView, Result<ExpressionView, ReducerError>) {
        (state, Ok(original))
    }

    open spec fn unary_rule(
        state: CanonicalizerView,
        original: ExpressionView,
        operand: ExpressionView,
    ) -> (CanonicalizerView, Result<ExpressionView, ReducerError>) {
        (state, Ok(kept_unary(original, operand)))
    }

    open spec fn binary_rule(
        state: CanonicalizerView,
        original: ExpressionView,
        left: ExpressionView,
        right: ExpressionView,
    ) -> (CanonicalizerView, Result<ExpressionView, ReducerError>) {
        (state, Ok(kept_binary(original, left, right)))
    }

    open spec fn ternary_rule(
        state: CanonicalizerView,
        original: ExpressionView,
        condition: ExpressionView,
        if_true: ExpressionView,
        if_false: ExpressionView,
    ) -> (CanonicalizerView, Result<ExpressionView, ReducerError>) {
        (state, Ok(kept_ternary(original, condition, if_true, if_false)))
    }

    open spec fn call_rule(
        state: CanonicalizerView,
        original: ExpressionView,
        arguments: Seq<ExpressionView>,
    ) -> (CanonicalizerView, Result<ExpressionView, ReducerError>) {
        (state, Ok(kept_call(original, arguments)))
    }

    open spec fn array_rule(
        state: CanonicalizerView,
        original: ExpressionView,
        elements: Seq<ExpressionView>,
    ) -> (CanonicalizerView, Result<ExpressionView, ReducerError>) {
        (state, Ok(kept_array(original, elements)))
    }

    open spec fn tuple_rule(
        state: CanonicalizerView,
        original: ExpressionView,
        elements: Seq<ExpressionView>,
    ) -> (CanonicalizerView, Result<ExpressionView, ReducerError>) {
        (state, Ok(kept_tuple(original, elements)))
    }

    open spec fn circuit_init_rule(
        state: CanonicalizerView,
        original: ExpressionView,
        members: Seq<MemberInitView>,
    ) -> (CanonicalizerView, Result<ExpressionView, ReducerError>) {
        (state, Ok(kept_circuit_init(original, members)))
    }

    open spec fn index_rule(
        state: CanonicalizerView,
        original: ExpressionView,
        array: ExpressionView,
        index: ExpressionView,
    ) -> (CanonicalizerView, Result<ExpressionView, ReducerError>) {
        (state, Ok(kept_index(original, array, index)))
    }

    open spec fn member_rule(
        state: CanonicalizerView,
        original: ExpressionView,
        object: ExpressionView,
    ) -> (CanonicalizerView, Result<ExpressionView, ReducerError>) {
        (state, Ok(kept_member(original, object)))
    }

    open spec fn tuple_access_rule(
        state: CanonicalizerView,
        original: ExpressionView,
        tuple: ExpressionView,
    ) -> (CanonicalizerView, Result<ExpressionView, ReducerError>) {
        (state, Ok(kept_tuple_access(original, tuple)))
    }

    open spec fn implicit_member_rule(
        state: CanonicalizerView,
        original: ExpressionView,
    ) -> (CanonicalizerView, Result<ExpressionView, ReducerError>) {
        explicit_member(state, original)
    }

    open spec fn cast_rule(
        state: CanonicalizerView,
        original: ExpressionView,
        operand: ExpressionView,
        target: TypeView,
    ) -> (CanonicalizerView, Result<ExpressionView, ReducerError>) {
        (state, Ok(kept_cast(original, operand, target)))
    }

    open spec fn type_rule(
        state: CanonicalizerView,
        original: TypeView,
    ) -> (CanonicalizerView, Result<TypeView, ReducerError>) {
        (state, Ok(original))
    }

    open spec fn return_rule(
        state: CanonicalizerView,
        original: StatementView,
        value: ExpressionView,
    ) -> (CanonicalizerView, Result<StatementView, ReducerError>) {
        (state, Ok(kept_return(original, value)))
    }

    open spec fn binding_rule(
        state: CanonicalizerView,
        original: BindingView,
        declared: Option<TypeView>,
    ) -> (CanonicalizerView, Result<BindingView, ReducerError>) {
        (state, Ok(kept_binding(original, declared)))
    }

    open spec fn definition_rule(
        state: CanonicalizerView,
        original: DefinitionView,
        bindings: Seq<BindingView>,
        value: ExpressionView,
    ) -> (CanonicalizerView, Result<DefinitionView, ReducerError>) {
        checked_definition(state, original, bindings, value)
    }

    open spec fn assign_rule(
        state: CanonicalizerView,
        original: StatementView,
        target: ExpressionView,
        value: ExpressionView,
    ) -> (CanonicalizerView, Result<StatementView, ReducerError>) {
        plain_assignment(state, original, target, value)
    }

    open spec fn conditional_rule(
        state: CanonicalizerView,
        original: StatementView,
        condition: ExpressionView,
        then_block: BlockView,
        otherwise: Option<StatementView>,
    ) -> (CanonicalizerView, Result<StatementView, ReducerError>) {
        conditional_with_else_block(state, original, condition, then_block, otherwise)
    }

    open spec fn iteration_rule(
        state: CanonicalizerView,
        original: StatementView,
        start: ExpressionView,
        stop: ExpressionView,
        body: BlockView,
    ) -> (CanonicalizerView, Result<StatementView, ReducerError>) {
        (state, Ok(kept_iteration(original, start, stop, body)))
    }

    open spec fn expression_statement_rule(
        state: CanonicalizerView,
        original: StatementView,
        expression: ExpressionView,
    ) -> (CanonicalizerView, Result<StatementView, ReducerError>) {
        (state, Ok(kept_expression_statement(original, expression)))
    }

    open spec fn block_rule(
        state: CanonicalizerView,
        original: BlockView,
        statements: Seq<StatementView>,
    ) -> (CanonicalizerView, Result<BlockView, ReducerError>) {
        block_of_single_definitions(state, original, statements)
    }

    open spec fn import_rule(
        state: CanonicalizerView,
        original: ImportView,
    ) -> (CanonicalizerView, Result<ImportView, ReducerError>) {
        (state, Ok(original))
    }

    open spec fn circuit_member_rule(
        state: CanonicalizerView,
        original: CircuitMemberView,
        member_type: TypeView,
    ) -> (CanonicalizerView, Result<CircuitMemberView, ReducerError>) {
        (state, Ok(kept_circuit_member(original, member_type)))
    }

    open spec fn circuit_rule(
        state: CanonicalizerView,
        original: CircuitView,
        members: Seq<CircuitMemberView>,
        functions: Seq<FunctionView>,
    ) -> (CanonicalizerView, Result<CircuitView, ReducerError>) {
        (state, Ok(kept_circuit(original, members, functions)))
    }

    open spec fn annotation_rule(
        state: CanonicalizerView,
        original: AnnotationView,
    ) -> (CanonicalizerView, Result<AnnotationView, ReducerError>) {
        (state, Ok(original))
    }

    open spec fn function_input_rule(
        state: CanonicalizerView,
        original: FunctionInputView,
        input_type: TypeView,
    ) -> (CanonicalizerView, Result<FunctionInputView, ReducerError>) {
        (state, Ok(kept_function_input(original, input_type)))
    }

    open spec fn function_rule(
        state: CanonicalizerView,
        original: FunctionView,
        annotations: Seq<AnnotationView>,
        inputs: Seq<FunctionInputView>,
        output: Option<TypeView>,
        body: BlockView,
    ) -> (CanonicalizerView, Result<FunctionView, ReducerError>) {
        (state, Ok(kept_function(original, annotations, inputs, output, body)))
    }

    open spec fn program_rule(
        state: CanonicalizerView,
        original: ProgramView,
        imports: Seq<ImportView>,
        circuits: Seq<CircuitView>,
        functions: Seq<FunctionView>,
        globals: Seq<DefinitionView>,
    ) -> (CanonicalizerView, Result<ProgramView, ReducerError>) {
        program_of_single_definitions(state, imports, circuits, functions, globals)
    }

    fn reduce_literal(&mut self, original: &Expression) -> (r: Result<Expression, ReducerError>) {
        self.canonicalize_literal_expression(original)
    }

    fn reduce_identifier(&mut self, original: &Expression) -> (r: Result<Expression, ReducerError>) {
        Ok(keep_identifier(original))
    }

    fn reduce_unary(
        &mut self,
        original: &Expression,
        operand: Expression,
    ) -> (r: Result<Expression, ReducerError>) {
        Ok(keep_unary(original, operand))
    }

    fn reduce_binary(
        &mut self,
        original: &Expression,
        left: Expression,
        right: Expression,
    ) -> (r: Result<Expression, ReducerError>) {
        Ok(keep_binary(original, left, right))
    }

    fn reduce_ternary(
        &mut self,
        original: &Expression,
        condition: Expression,
        if_true: Expression,
        if_false: Expression,
    ) -> (r: Result<Expression, ReducerError>) {
        Ok(keep_ternary(original, condition, if_true, if_false))
    }

    fn reduce_call(
        &mut self,
        original: &Expression,
        arguments: Vec<Expression>,
    ) -> (r: Result<Expression, ReducerError>) {
        Ok(keep_call(original, arguments))
    }

    fn reduce_array(
        &mut self,
        original: &Expression,
        elements: Vec<Expression>,
    ) -> (r: Result<Expression, ReducerError>) {
        Ok(keep_array(original, elements))
    }

    fn reduce_tuple(
        &mut self,
        original: &Expression,
        elements: Vec<Expression>,
    ) -> (r: Result<Expression, ReducerError>) {
        Ok(keep_tuple(original, elements))
    }

    fn reduce_circuit_init(
        &mut self,
        original: &Expression,
        members: Vec<MemberInit>,
    ) -> (r: Result<Expression, ReducerError>) {
        Ok(keep_circuit_init(original, members))
    }

    fn reduce_index(
        &mut self,
        original: &Expression,
        array: Expression,
        index: Expression,
    ) -> (r: Result<Expression, ReducerError>) {
        Ok(keep_index(original, array, index))
    }

    fn reduce_member(
        &mut self,
        original: &Expression,
        object: Expression,
    ) -> (r: Result<Expression, ReducerError>) {
        Ok(keep_member(original, object))
    }

    fn reduce_tuple_access(
        &mut self,
        original: &Expression,
        tuple: Expression,
    ) -> (r: Result<Expression, ReducerError>) {
        Ok(keep_tuple_access(original, tuple))
    }

    fn reduce_implicit_member(
        &mut self,
        original: &Expression,
    ) -> (r: Result<Expression, ReducerError>) {
        self.expand_implicit_member(original)
    }

    fn reduce_cast(
        &mut self,
        original: &Expression,
        operand: Expression,
        target: Type,
    ) -> (r: Result<Expression, ReducerError>) {
        Ok(keep_cast(original, operand, target))
    }

    fn reduce_type(&mut self, original: &Type) -> (r: Result<Type, ReducerError>) {
        Ok(original.clone())
    }

    fn reduce_return(
        &mut self,
        original: &Statement,
        value: Expression,
    ) -> (r: Result<Statement, ReducerError>) {
        Ok(keep_return(original, value))
    }

    fn reduce_binding(
        &mut self,
        original: &Binding,
        declared: Option<Type>,
    ) -> (r: Result<Binding, ReducerError>) {
        Ok(keep_binding(original, declared))
    }

    fn reduce_definition(
        &mut self,
        original: &Definition,
        bindings: Vec<Binding>,
        value: Expression,
    ) -> (r: Result<Definition, ReducerError>) {
        self.check_definition(original, bindings, value)
    }

    fn reduce_assign(
        &mut self,
        original: &Statement,
        target: Expression,
        value: Expression,
    ) -> (r: Result<Statement, ReducerError>) {
        self.expand_assignment(original, target, value)
    }

    fn reduce_conditional(
        &mut self,
        original: &Statement,
        condition: Expression,
        then_block: Block,
        otherwise: Option<Statement>,
    ) -> (r: Result<Statement, ReducerError>) {
        self.wrap_else_branch(original, condition, then_block, otherwise)
    }

    fn reduce_iteration(
        &mut self,
        original: &Statement,
        start: Expression,
        stop: Expression,
        body: Block,
    ) -> (r: Result<Statement, ReducerError>) {
        Ok(keep_iteration(original, start, stop, body))
    }

    fn reduce_expression_statement(
        &mut self,
        original: &Statement,
        expression: Expression,
    ) -> (r: Result<Statement, ReducerError>) {
        Ok(keep_expression_statement(original, expression))
    }

    fn reduce_block(
        &mut self,
        original: &Block,
        statements: Vec<Statement>,
    ) -> (r: Result<Block, ReducerError>) {
        self.rebuild_block(original, statements)
    }

    fn reduce_import(&mut self, original: &Import) -> (r: Result<Import, ReducerError>) {
        Ok(original.clone())
    }

    fn reduce_circuit_member(
        &mut self,
        original: &CircuitMember,
        member_type: Type,
    ) -> (r: Result<CircuitMember, ReducerError>) {
        Ok(keep_circuit_member(original, member_type))
    }

    fn reduce_circuit(
        &mut self,
        original: &Circuit,
        members: Vec<CircuitMember>,
        functions: Vec<Function>,
    ) -> (r: Result<Circuit, ReducerError>) {
        Ok(keep_circuit(original, members, functions))
    }

    fn reduce_annotation(&mut self, original: &Annotation) -> (r: Result<Annotation, ReducerError>) {
        Ok(original.clone())
    }

    fn reduce_function_input(
        &mut self,
        original: &FunctionInput,
        input_type: Type,
    ) -> (r: Result<FunctionInput, ReducerError>) {
        Ok(keep_function_input(original, input_type))
    }

    fn reduce_function(
        &mut self,
        original: &Function,
        annotations: Vec<Annotation>,
        inputs: Vec<FunctionInput>,
        output: Option<Type>,
        body: Block,
    ) -> (r: Result<Function, ReducerError>) {
        Ok(keep_function(original, annotations, inputs, output, body))
    }

    fn reduce_program(
        &mut self,
        original: &Program,
        imports: Vec<Import>,
        circuits: Vec<Circuit>,
        functions: Vec<Function>,
        globals: Vec<Definition>,
    ) -> (r: Result<Program, ReducerError>) {
        self.rebuild_program(imports, circuits, functions, globals)
    }
}

} // verus!
