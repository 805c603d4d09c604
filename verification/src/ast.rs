//! The syntax tree of one program, as the rest of a compiler holds it.

use vstd::prelude::*;
use crate::canonical::{canonical_parts, lemma_canonical_program_is_fixed};
use crate::canonicalizer::{initial_state, signatures_of, Canonicalizer};
use crate::director::{reduced_program, ReconstructingDirector};
use crate::distinct::lemma_canonicalization_keeps_identifiers_distinct;
use crate::identifiers::distinct_identifiers;
use crate::errors::{AstError, ReducerError};
use crate::json::{describe, parse, parsed, render, rendered, Json};
use crate::persistence::{program_from_document, program_to_document, read_program};
use crate::wire_program::program_document;
use crate::normal::lemma_reduced_program_is_canonical;
use crate::program::{Program, ProgramView};

verus! {

/// The canonical form of the program `p`, or the error of the first operation of
/// the canonicalizer that fails as the tree is traversed, children before parents
/// and siblings in the order in which they are written. A literal, the target of a
/// compound assignment and the number of names of a definition are checked by the
/// operation of the node itself; a supply of identifiers that has run out shows
/// where a new node is needed.
pub open spec fn canonical_form(p: ProgramView) -> Result<ProgramView, ReducerError> {
    reduced_program::<Canonicalizer>(initial_state(p), p).1
}

/// The program `p` is in canonical form.
pub open spec fn canonical_program(p: ProgramView) -> bool {
    canonical_parts(signatures_of(p.functions), p)
}

/// The canonical form of a program is in canonical form, and is well formed if the
/// program is.
pub proof fn lemma_canonical_form_is_canonical(p: ProgramView)
    requires
        canonical_form(p) is Ok,
    ensures
        canonical_program(canonical_form(p)->Ok_0),
        p.well_formed() ==> canonical_form(p)->Ok_0.well_formed(),
{
    lemma_reduced_program_is_canonical(initial_state(p), p);
    if distinct_identifiers(p) {
        lemma_canonicalization_keeps_identifiers_distinct(p);
    }
}

/// A program in canonical form is its own canonical form.
pub proof fn lemma_canonical_program_is_unchanged(p: ProgramView)
    requires
        canonical_program(p),
    ensures
        canonical_form(p) == Ok::<_, ReducerError>(p),
{
    lemma_canonical_program_is_fixed(initial_state(p), p);
}

/// Canonicalization is idempotent: the canonical form of a canonical form is that
/// canonical form itself, node for node.
pub proof fn lemma_canonicalization_is_idempotent(p: ProgramView)
    requires
        canonical_form(p) is Ok,
    ensures
        canonical_form(canonical_form(p)->Ok_0) == canonical_form(p),
{
    lemma_canonical_form_is_canonical(p);
    lemma_canonical_program_is_unchanged(canonical_form(p)->Ok_0);
}

/// The syntax tree of a program: a well-formed [`Program`], which can be brought into
/// canonical form and written down as a document. In a well-formed program no two
/// circuits share a name, no two functions, and no two nodes an identifier; the syntax
/// tree stays well formed whatever is done with it.
#[derive(Debug, PartialEq, Eq)]
pub struct Ast {
    ast: Program,
}

impl View for Ast {
    type V = ProgramView;

    closed spec fn view(&self) -> ProgramView {
        self.ast@
    }
}

impl Ast {
    #[verifier::type_invariant]
    spec fn holds_well_formed_program(self) -> bool {
        self.ast@.well_formed()
    }

    /// The syntax tree of the program `program`.
    pub fn new(program: Program) -> (r: Self)
        requires
            program@.well_formed(),
        ensures
            r@ == program@,
    {
        Ast { ast: program }
    }

    /// Brings the program into canonical form. On an error the program is left as it
    /// was. Nodes that are added take identifiers that no node of the program has, so
    /// that the identifiers stay distinct if they were.
    pub fn canonicalize(&mut self) -> (r: Result<(), AstError>)
        ensures
            match canonical_form(old(self)@) {
                Ok(canonical) => r is Ok && final(self)@ == canonical,
                Err(error) => r == Err::<(), AstError>(AstError::Canonicalization(error))
                    && final(self)@ == old(self)@,
            },
            r is Ok ==> canonical_program(final(self)@),
            final(self)@.well_formed(),
    {
        proof {
            use_type_invariant(&*self);
            if canonical_form(self@) is Ok {
                lemma_canonical_form_is_canonical(self@);
            }
        }
        let mut director = ReconstructingDirector::new(Canonicalizer::for_program(&self.ast));
        match director.reduce_program(&self.ast) {
            Ok(program) => {
                self.ast = program;
                Ok(())
            },
            Err(error) => Err(AstError::Canonicalization(error)),
        }
    }

    /// The program.
    pub fn as_repr(&self) -> (r: &Program)
        ensures
            r@ == self@,
            r@.well_formed(),
    {
        proof {
            use_type_invariant(self);
        }
        &self.ast
    }

    /// Gives the program up.
    pub fn into_repr(self) -> (r: Program)
        ensures
            r@ == self@,
            r@.well_formed(),
    {
        proof {
            use_type_invariant(&self);
        }
        self.ast
    }

    /// The program as a document.
    pub fn to_json(&self) -> (r: Json)
        ensures
            r@ == program_document(self@),
    {
        program_to_document(&self.ast)
    }

    /// The syntax tree of the well-formed program that `document` is the document of,
    /// or the error of a document that is the document of none.
    pub fn from_json(document: &Json) -> (r: Result<Ast, AstError>)
        ensures
            match read_program(document@) {
                Some(program) => r matches Ok(ast) && ast@ == program,
                None => r == Err::<Ast, AstError>(AstError::UnexpectedShape),
            },
    {
        match program_from_document(document) {
            Some(program) => Ok(Ast { ast: program }),
            None => Err(AstError::UnexpectedShape),
        }
    }

    /// What [`Ast::to_json_string`] returns, given what the writer of texts returned:
    /// its text, or its error in words.
    pub fn written(outcome: Result<String, serde_json::Error>) -> (r: Result<String, AstError>)
        ensures
            match outcome {
                Ok(text) => r == Ok::<String, AstError>(text),
                Err(_) => r matches Err(AstError::Encoding { .. }),
            },
    {
        match outcome {
            Ok(text) => Ok(text),
            Err(error) => Err(AstError::Encoding { message: describe(&error) }),
        }
    }

    /// The document of the program as indented text. There is a text for every
    /// program: the text of its document.
    pub fn to_json_string(&self) -> (r: Result<String, AstError>)
        ensures
            r matches Ok(text) && text@ == rendered(program_document(self@)),
    {
        let document = self.to_json();
        Ast::written(render(&document))
    }

    /// What [`Ast::from_json_string`] returns, given what the reader of texts
    /// returned: the syntax tree of the program that the document is the document of,
    /// the error of a document that is the document of no program, or the error of
    /// the reader in words.
    pub fn read(outcome: Result<Json, serde_json::Error>) -> (r: Result<Ast, AstError>)
        ensures
            match outcome {
                Ok(document) => match read_program(document@) {
                    Some(program) => r matches Ok(ast) && ast@ == program,
                    None => r == Err::<Ast, AstError>(AstError::UnexpectedShape),
                },
                Err(_) => r matches Err(AstError::Syntax { .. }),
            },
    {
        match outcome {
            Ok(document) => Ast::from_json(&document),
            Err(error) => Err(AstError::Syntax { message: describe(&error) }),
        }
    }

    /// The syntax tree of the program that the text `json` is the document of: an
    /// error where the text is no document, and where the document is the document
    /// of no well-formed program.
    pub fn from_json_string(json: &str) -> (r: Result<Ast, AstError>)
        ensures
            match parsed(json@) {
                Some(document) => match read_program(document) {
                    Some(program) => r matches Ok(ast) && ast@ == program,
                    None => r == Err::<Ast, AstError>(AstError::UnexpectedShape),
                },
                None => r matches Err(AstError::Syntax { .. }),
            },
    {
        Ast::read(parse(json))
    }
}

impl Clone for Ast {
    /// A copy of this syntax tree.
    fn clone(&self) -> (r: Self)
        ensures
            r@ == self@,
    {
        proof {
            use_type_invariant(self);
        }
        Ast { ast: self.ast.clone() }
    }
}

impl AsRef<Program> for Ast {
    fn as_ref(&self) -> (r: &Program)
        ensures
            r@ == self@,
    {
        &self.ast
    }
}

} // verus!
