//! The abstract syntax tree of a program, the framework that rewrites such trees
//! bottom-up, and the pass that brings a tree into canonical form.

pub mod ast;
pub mod canonical;
pub mod canonicalizer;
pub mod director;
pub mod distinct;
pub mod document;
pub mod errors;
pub mod expression;
pub mod identifiers;
pub mod identities;
pub mod json;
pub mod leaves;
pub mod literals;
pub mod node;
pub mod normal;
pub mod persistence;
pub mod program;
pub mod reducer;
pub mod statements;
pub mod totality;
pub mod types;
pub mod wire_expressions;
pub mod wire_statements;
pub mod wire_program;
pub mod wire_types;

pub use ast::Ast;
pub use canonicalizer::{Canonicalizer, Signature};
pub use director::ReconstructingDirector;
pub use errors::{AstError, ReducerError, ReducerErrorKind};
pub use expression::{
    BinaryOperation, Expression, ExpressionKind, GroupCoordinate, Literal, MemberInit, UnaryOperation,
};
pub use json::{Json, JsonField};
pub use node::{Node, Span};
pub use program::{Annotation, Circuit, CircuitMember, Function, FunctionInput, Import, InputMode, Program};
pub use reducer::{PassThrough, Reducer};
pub use statements::{Binding, Block, Definition, Statement};
pub use types::{IntegerType, Type};
