//! The types that a program can name.

use vstd::prelude::*;

verus! {

/// The fixed-width integer kinds.
#[derive(Clone, Copy, Debug, PartialEq, Eq, Structural)]
pub enum IntegerType {
    U8,
    U16,
    U32,
    U64,
    U128,
    I8,
    I16,
    I32,
    I64,
    I128,
}

/// A type as it is written in a program.
#[derive(Debug, PartialEq, Eq)]
pub enum Type {
    Boolean,
    Field,
    Group,
    Address,
    Text,
    Integer(IntegerType),
    /// An array of the given element type and length.
    Array(Box<Type>, u64),
    Tuple(Vec<Type>),
    /// A circuit, by its name.
    Named(String),
    /// The placeholder that stands for a type until names are resolved.
    Unresolved,
}

/// The mathematical value of a [`Type`].
pub enum TypeView {
    Boolean,
    Field,
    Group,
    Address,
    Text,
    Integer(IntegerType),
    Array(Box<TypeView>, u64),
    Tuple(Seq<TypeView>),
    Named(Seq<char>),
    Unresolved,
}

pub open spec fn type_view(t: Type) -> TypeView
    decreases t, 0nat,
{
    match t {
        Type::Boolean => TypeView::Boolean,
        Type::Field => TypeView::Field,
        Type::Group => TypeView::Group,
        Type::Address => TypeView::Address,
        Type::Text => TypeView::Text,
        Type::Integer(i) => TypeView::Integer(i),
        Type::Array(element, length) => TypeView::Array(Box::new(type_view(*element)), length),
        Type::Tuple(elements) => TypeView::Tuple(types_view(elements@)),
        Type::Named(name) => TypeView::Named(name@),
        Type::Unresolved => TypeView::Unresolved,
    }
}

pub open spec fn types_view(ts: Seq<Type>) -> Seq<TypeView>
    decreases ts, 1nat,
{
    Seq::new(ts.len(), |i: int| if 0 <= i < ts.len() { type_view(ts[i]) } else { arbitrary() })
}

pub open spec fn optional_type_view(t: Option<Type>) -> Option<TypeView> {
    match t {
        Some(t) => Some(type_view(t)),
        None => None,
    }
}

impl View for Type {
    type V = TypeView;

    open spec fn view(&self) -> TypeView {
        type_view(*self)
    }
}

impl Clone for Type {
    #[verifier::loop_isolation(false)]
    fn clone(&self) -> (r: Self)
        ensures
            r@ == self@,
        decreases self,
    {
        match self {
            Type::Boolean => Type::Boolean,
            Type::Field => Type::Field,
            Type::Group => Type::Group,
            Type::Address => Type::Address,
            Type::Text => Type::Text,
            Type::Integer(i) => Type::Integer(*i),
            Type::Array(element, length) => Type::Array(Box::new((**element).clone()), *length),
            Type::Tuple(elements) => {
                let mut out: Vec<Type> = Vec::new();
                let mut i: usize = 0;
                while i < elements.len()
                    invariant
                        i <= elements.len(),
                        out.len() == i,
                        forall|k: int| 0 <= k < i ==> out[k]@ == elements[k]@,
                    decreases elements.len() - i,
                {
                    out.push(elements[i].clone());
                    i = i + 1;
                }
                assert(types_view(out@) =~= types_view(elements@));
                Type::Tuple(out)
            },
            Type::Named(name) => Type::Named(name.clone()),
            Type::Unresolved => Type::Unresolved,
        }
    }
}

/// A copy of an optional type.
pub fn clone_optional_type(t: &Option<Type>) -> (r: Option<Type>)
    ensures
        optional_type_view(r) == optional_type_view(*t),
{
    match t {
        Some(t) => Some(t.clone()),
        None => None,
    }
}

} // verus!
