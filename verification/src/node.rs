//! Source locations and node identities.

use vstd::prelude::*;

verus! {

/// A range of source positions, from `start` up to `end`.
#[derive(Clone, Copy, Debug, PartialEq, Eq, Structural)]
pub struct Span {
    pub start: u64,
    pub end: u64,
}

impl Span {
    /// The span from `start` to `end`.
    pub fn new(start: u64, end: u64) -> (r: Span)
        ensures
            r == (Span { start, end }),
    {
        Span { start, end }
    }
}

/// What every syntactic construct of a program carries: an identifier that tells it
/// apart from every other construct of the same tree, and the place it was read from.
///
/// Equality of nodes, and with it equality of trees, takes both fields into account.
#[derive(Clone, Copy, Debug, PartialEq, Eq, Structural)]
pub struct Node {
    pub id: u64,
    pub span: Span,
}

impl Node {
    /// The identity `id` at `span`.
    pub fn new(id: u64, span: Span) -> (r: Node)
        ensures
            r == (Node { id, span }),
    {
        Node { id, span }
    }
}

/// The text of each string of `v`.
pub open spec fn texts_view(v: Seq<String>) -> Seq<Seq<char>> {
    v.map_values(|s: String| s@)
}

/// A copy of a list of strings.
pub fn clone_texts(v: &Vec<String>) -> (r: Vec<String>)
    ensures
        texts_view(r@) == texts_view(v@),
{
    let mut out: Vec<String> = Vec::new();
    let mut i: usize = 0;
    while i < v.len()
        invariant
            i <= v.len(),
            out.len() == i,
            forall|k: int| 0 <= k < i ==> out[k]@ == v[k]@,
        decreases v.len() - i,
    {
        out.push(v[i].clone());
        i = i + 1;
    }
    assert(texts_view(out@) =~= texts_view(v@));
    out
}

/// A copy of an optional string.
pub fn clone_optional_text(v: &Option<String>) -> (r: Option<String>)
    ensures
        optional_text_view(r) == optional_text_view(*v),
{
    match v {
        Some(s) => Some(s.clone()),
        None => None,
    }
}

/// The text of an optional string.
pub open spec fn optional_text_view(v: Option<String>) -> Option<Seq<char>> {
    match v {
        Some(s) => Some(s@),
        None => None,
    }
}

} // verus!
