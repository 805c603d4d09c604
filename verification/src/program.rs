//! Programs and their declarations.

use vstd::prelude::*;
use crate::distinct::has_distinct_identifiers;
use crate::identifiers::distinct_identifiers;
use crate::node::{clone_optional_text, clone_texts, optional_text_view, texts_view, Node};
use crate::statements::{block_view, definitions_view, Block, BlockView, Definition, DefinitionView};
use crate::types::{optional_type_view, type_view, Type, TypeView};

verus! {

/// An import of a module, as a whole or of chosen symbols, under its own name or an
/// alias.
#[derive(Debug, PartialEq, Eq)]
pub struct Import {
    pub node: Node,
    pub path: Vec<String>,
    pub alias: Option<String>,
    pub symbols: Vec<String>,
}

pub struct ImportView {
    pub node: Node,
    pub path: Seq<Seq<char>>,
    pub alias: Option<Seq<char>>,
    pub symbols: Seq<Seq<char>>,
}

impl View for Import {
    type V = ImportView;

    open spec fn view(&self) -> ImportView {
        ImportView {
            node: self.node,
            path: texts_view(self.path@),
            alias: optional_text_view(self.alias),
            symbols: texts_view(self.symbols@),
        }
    }
}

impl Clone for Import {
    fn clone(&self) -> (r: Self)
        ensures
            r@ == self@,
    {
        Import {
            node: self.node,
            path: clone_texts(&self.path),
            alias: clone_optional_text(&self.alias),
            symbols: clone_texts(&self.symbols),
        }
    }
}

pub open spec fn imports_view(s: Seq<Import>) -> Seq<ImportView> {
    Seq::new(s.len(), |i: int| s[i]@)
}

/// An annotation of a function: a name and its arguments as written.
#[derive(Debug, PartialEq, Eq)]
pub struct Annotation {
    pub node: Node,
    pub name: String,
    pub arguments: Vec<String>,
}

pub struct AnnotationView {
    pub node: Node,
    pub name: Seq<char>,
    pub arguments: Seq<Seq<char>>,
}

impl View for Annotation {
    type V = AnnotationView;

    open spec fn view(&self) -> AnnotationView {
        AnnotationView { node: self.node, name: self.name@, arguments: texts_view(self.arguments@) }
    }
}

impl Clone for Annotation {
    fn clone(&self) -> (r: Self)
        ensures
            r@ == self@,
    {
        Annotation {
            node: self.node,
            name: self.name.clone(),
            arguments: clone_texts(&self.arguments),
        }
    }
}

pub open spec fn annotations_view(s: Seq<Annotation>) -> Seq<AnnotationView> {
    Seq::new(s.len(), |i: int| s[i]@)
}

/// How a function takes a parameter.
#[derive(Clone, Copy, Debug, PartialEq, Eq, Structural)]
pub enum InputMode {
    Value,
    Constant,
    Reference,
}

#[derive(Debug, PartialEq, Eq)]
pub struct FunctionInput {
    pub node: Node,
    pub name: String,
    pub mode: InputMode,
    pub input_type: Type,
}

pub struct FunctionInputView {
    pub node: Node,
    pub name: Seq<char>,
    pub mode: InputMode,
    pub input_type: TypeView,
}

impl View for FunctionInput {
    type V = FunctionInputView;

    open spec fn view(&self) -> FunctionInputView {
        FunctionInputView {
            node: self.node,
            name: self.name@,
            mode: self.mode,
            input_type: type_view(self.input_type),
        }
    }
}

pub open spec fn inputs_view(s: Seq<FunctionInput>) -> Seq<FunctionInputView> {
    Seq::new(s.len(), |i: int| s[i]@)
}

#[derive(Debug, PartialEq, Eq)]
pub struct Function {
    pub node: Node,
    pub name: String,
    pub inputs: Vec<FunctionInput>,
    pub output: Option<Type>,
    pub annotations: Vec<Annotation>,
    pub body: Block,
}

pub struct FunctionView {
    pub node: Node,
    pub name: Seq<char>,
    pub inputs: Seq<FunctionInputView>,
    pub output: Option<TypeView>,
    pub annotations: Seq<AnnotationView>,
    pub body: BlockView,
}

impl View for Function {
    type V = FunctionView;

    open spec fn view(&self) -> FunctionView {
        FunctionView {
            node: self.node,
            name: self.name@,
            inputs: inputs_view(self.inputs@),
            output: optional_type_view(self.output),
            annotations: annotations_view(self.annotations@),
            body: block_view(self.body),
        }
    }
}

pub open spec fn functions_view(s: Seq<Function>) -> Seq<FunctionView> {
    Seq::new(s.len(), |i: int| s[i]@)
}

/// A member variable of a circuit.
#[derive(Debug, PartialEq, Eq)]
pub struct CircuitMember {
    pub node: Node,
    pub name: String,
    pub member_type: Type,
}

pub struct CircuitMemberView {
    pub node: Node,
    pub name: Seq<char>,
    pub member_type: TypeView,
}

impl View for CircuitMember {
    type V = CircuitMemberView;

    open spec fn view(&self) -> CircuitMemberView {
        CircuitMemberView {
            node: self.node,
            name: self.name@,
            member_type: type_view(self.member_type),
        }
    }
}

pub open spec fn circuit_members_view(s: Seq<CircuitMember>) -> Seq<CircuitMemberView> {
    Seq::new(s.len(), |i: int| s[i]@)
}

/// A circuit: a named type with member variables and functions of its own.
#[derive(Debug, PartialEq, Eq)]
pub struct Circuit {
    pub node: Node,
    pub name: String,
    pub members: Vec<CircuitMember>,
    pub functions: Vec<Function>,
}

pub struct CircuitView {
    pub node: Node,
    pub name: Seq<char>,
    pub members: Seq<CircuitMemberView>,
    pub functions: Seq<FunctionView>,
}

impl View for Circuit {
    type V = CircuitView;

    open spec fn view(&self) -> CircuitView {
        CircuitView {
            node: self.node,
            name: self.name@,
            members: circuit_members_view(self.members@),
            functions: functions_view(self.functions@),
        }
    }
}

pub open spec fn circuits_view(s: Seq<Circuit>) -> Seq<CircuitView> {
    Seq::new(s.len(), |i: int| s[i]@)
}

/// A whole program. Circuits and functions are kept in the order of their declaration
/// and found by their names.
#[derive(Debug, PartialEq, Eq)]
pub struct Program {
    pub imports: Vec<Import>,
    pub circuits: Vec<Circuit>,
    pub functions: Vec<Function>,
    pub globals: Vec<Definition>,
}

pub struct ProgramView {
    pub imports: Seq<ImportView>,
    pub circuits: Seq<CircuitView>,
    pub functions: Seq<FunctionView>,
    pub globals: Seq<DefinitionView>,
}

impl View for Program {
    type V = ProgramView;

    open spec fn view(&self) -> ProgramView {
        ProgramView {
            imports: imports_view(self.imports@),
            circuits: circuits_view(self.circuits@),
            functions: functions_view(self.functions@),
            globals: definitions_view(self.globals@),
        }
    }
}

/// The names of the circuits of `s`, in order.
pub open spec fn circuit_names(s: Seq<CircuitView>) -> Seq<Seq<char>> {
    Seq::new(s.len(), |i: int| s[i].name)
}

/// The names of the functions of `s`, in order.
pub open spec fn function_names(s: Seq<FunctionView>) -> Seq<Seq<char>> {
    Seq::new(s.len(), |i: int| s[i].name)
}

/// No text occurs twice in `names`.
pub open spec fn distinct(names: Seq<Seq<char>>) -> bool {
    forall|i: int, j: int| 0 <= i < j < names.len() ==> names[i] != names[j]
}

impl ProgramView {
    /// A program is well formed when no two of its circuits share a name, no two of
    /// its functions, and no two of its nodes an identifier.
    pub open spec fn well_formed(self) -> bool {
        &&& distinct(circuit_names(self.circuits))
        &&& distinct(function_names(self.functions))
        &&& distinct_identifiers(self)
    }
}

/// Whether no text occurs twice in `names`.
pub fn are_distinct(names: &Vec<String>) -> (r: bool)
    ensures
        r == distinct(texts_view(names@)),
{
    let ghost all = texts_view(names@);
    let mut j: usize = 0;
    while j < names.len()
        invariant
            j <= names.len(),
            all == texts_view(names@),
            forall|a: int, b: int| 0 <= a < b < j ==> all[a] != all[b],
        decreases names.len() - j,
    {
        let mut i: usize = 0;
        while i < j
            invariant
                i <= j < names.len(),
                all == texts_view(names@),
                forall|a: int| 0 <= a < i ==> all[a] != all[j as int],
            decreases j - i,
        {
            assert(all[i as int] == names[i as int]@ && all[j as int] == names[j as int]@);
            if names[i] == names[j] {
                return false;
            }
            i = i + 1;
        }
        j = j + 1;
    }
    true
}

impl Program {
    /// Whether no two circuits of this program share a name, no two of its
    /// functions, and no two of its nodes an identifier.
    pub fn is_well_formed(&self) -> (r: bool)
        ensures
            r == self@.well_formed(),
    {
        let mut circuits: Vec<String> = Vec::new();
        let mut i: usize = 0;
        while i < self.circuits.len()
            invariant
                i <= self.circuits.len(),
                circuits.len() == i,
                forall|k: int| 0 <= k < i ==> (#[trigger] circuits[k])@ == self.circuits[k].name@,
            decreases self.circuits.len() - i,
        {
            circuits.push(self.circuits[i].name.clone());
            i = i + 1;
        }
        assert(texts_view(circuits@) =~= circuit_names(self@.circuits));
        let mut functions: Vec<String> = Vec::new();
        let mut i: usize = 0;
        while i < self.functions.len()
            invariant
                i <= self.functions.len(),
                functions.len() == i,
                forall|k: int| 0 <= k < i ==> (#[trigger] functions[k])@ == self.functions[k].name@,
            decreases self.functions.len() - i,
        {
            functions.push(self.functions[i].name.clone());
            i = i + 1;
        }
        assert(texts_view(functions@) =~= function_names(self@.functions));
        are_distinct(&circuits) && are_distinct(&functions) && has_distinct_identifiers(self)
    }
}

} // verus!
