//! Programs as documents.
//!
//! A program is written down as a document that names every part of every node, its
//! identifier and span included, so that nothing is lost. Reading is the inverse of
//! writing: a document is read as the well-formed program that it is the document of,
//! and as nothing else.

use vstd::prelude::*;
use crate::json::{Json, JsonView};
use crate::program::{Program, ProgramView};
use crate::wire_program::{
    decode_program, encode_program, lemma_program_document_injective, program_document,
};

verus! {

/// The well-formed program whose document is `document`, if there is one.
pub open spec fn read_program(document: JsonView) -> Option<ProgramView> {
    if exists|p: ProgramView| p.well_formed() && program_document(p) == document {
        Some(choose|p: ProgramView| p.well_formed() && program_document(p) == document)
    } else {
        None
    }
}

/// Reading is the inverse of writing: the document of a well-formed program is read
/// as that program, with every node, identifier and span as it was.
pub proof fn lemma_read_inverts_write(p: ProgramView)
    requires
        p.well_formed(),
    ensures
        read_program(program_document(p)) == Some(p),
{
    let q = choose|q: ProgramView| q.well_formed() && program_document(q) == program_document(p);
    lemma_program_document_injective(q, p);
}

/// No two programs are written as the same document.
pub proof fn lemma_documents_differ(p: ProgramView, q: ProgramView)
    requires
        p != q,
    ensures
        program_document(p) != program_document(q),
{
    if program_document(p) == program_document(q) {
        lemma_program_document_injective(p, q);
    }
}

/// The view of an optional program.
pub open spec fn optional_program_view(p: Option<Program>) -> Option<ProgramView> {
    match p {
        Some(p) => Some(p@),
        None => None,
    }
}

/// Writes the program `p` as a document.
pub fn program_to_document(p: &Program) -> (r: Json)
    ensures
        r@ == program_document(p@),
{
    encode_program(p)
}

/// Reads the well-formed program that `document` is the document of, if there is one.
pub fn program_from_document(document: &Json) -> (r: Option<Program>)
    ensures
        optional_program_view(r) == read_program(document@),
{
    match decode_program(document) {
        Some(p) => {
            if p.is_well_formed() {
                proof {
                    lemma_read_inverts_write(p@);
                }
                Some(p)
            } else {
                assert forall|q: ProgramView| q.well_formed() implies program_document(q)
                    != document@ by {
                    if program_document(q) == document@ {
                        lemma_program_document_injective(q, p@);
                    }
                }
                None
            }
        },
        None => None,
    }
}

} // verus!
