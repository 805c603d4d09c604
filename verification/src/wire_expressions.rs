//! The documents of expressions.

use vstd::prelude::*;
use crate::document::{
    decode_node, decode_number, decode_text, decode_texts, encode_node, encode_number, encode_text,
    encode_texts, has_key, lemma_texts_document_injective, members_1, members_2, members_3,
    node_document, number_document, object_fields, text_document, text_is, texts_document, variant,
    variant_of, variant_parts,
};
use crate::json::{field, json_fields_view, jsons_view, Json, JsonField, JsonFieldView, JsonView};
use crate::expression::{
    expressions_view, member_inits_view, Expression, ExpressionKind, ExpressionKindView,
    ExpressionView, Literal, MemberInit, MemberInitView,
};
use crate::wire_types::{
    binary_operation_document, decode_binary_operation, decode_literal, decode_type,
    decode_unary_operation, encode_binary_operation, encode_literal, encode_type,
    encode_unary_operation, lemma_binary_operation_document_injective,
    lemma_literal_document_injective, lemma_type_document_injective,
    lemma_unary_operation_document_injective, literal_document, type_document,
    unary_operation_document,
};

verus! {
/// The names of the variants differ from one another.
pub proof fn lemma_expression_kind_names()
    ensures
        "literal"@ != "identifier"@,
        "literal"@ != "unary"@,
        "literal"@ != "binary"@,
        "literal"@ != "ternary"@,
        "literal"@ != "call"@,
        "literal"@ != "array"@,
        "literal"@ != "tuple"@,
        "literal"@ != "circuit"@,
        "literal"@ != "index"@,
        "literal"@ != "member"@,
        "literal"@ != "tuple_access"@,
        "literal"@ != "implicit_member"@,
        "literal"@ != "cast"@,
        "identifier"@ != "unary"@,
        "identifier"@ != "binary"@,
        "identifier"@ != "ternary"@,
        "identifier"@ != "call"@,
        "identifier"@ != "array"@,
        "identifier"@ != "tuple"@,
        "identifier"@ != "circuit"@,
        "identifier"@ != "index"@,
        "identifier"@ != "member"@,
        "identifier"@ != "tuple_access"@,
        "identifier"@ != "implicit_member"@,
        "identifier"@ != "cast"@,
        "unary"@ != "binary"@,
        "unary"@ != "ternary"@,
        "unary"@ != "call"@,
        "unary"@ != "array"@,
        "unary"@ != "tuple"@,
        "unary"@ != "circuit"@,
        "unary"@ != "index"@,
        "unary"@ != "member"@,
        "unary"@ != "tuple_access"@,
        "unary"@ != "implicit_member"@,
        "unary"@ != "cast"@,
        "binary"@ != "ternary"@,
        "binary"@ != "call"@,
        "binary"@ != "array"@,
        "binary"@ != "tuple"@,
        "binary"@ != "circuit"@,
        "binary"@ != "index"@,
        "binary"@ != "member"@,
        "binary"@ != "tuple_access"@,
        "binary"@ != "implicit_member"@,
        "binary"@ != "cast"@,
        "ternary"@ != "call"@,
        "ternary"@ != "array"@,
        "ternary"@ != "tuple"@,
        "ternary"@ != "circuit"@,
        "ternary"@ != "index"@,
        "ternary"@ != "member"@,
        "ternary"@ != "tuple_access"@,
        "ternary"@ != "implicit_member"@,
        "ternary"@ != "cast"@,
        "call"@ != "array"@,
        "call"@ != "tuple"@,
        "call"@ != "circuit"@,
        "call"@ != "index"@,
        "call"@ != "member"@,
        "call"@ != "tuple_access"@,
        "call"@ != "implicit_member"@,
        "call"@ != "cast"@,
        "array"@ != "tuple"@,
        "array"@ != "circuit"@,
        "array"@ != "index"@,
        "array"@ != "member"@,
        "array"@ != "tuple_access"@,
        "array"@ != "implicit_member"@,
        "array"@ != "cast"@,
        "tuple"@ != "circuit"@,
        "tuple"@ != "index"@,
        "tuple"@ != "member"@,
        "tuple"@ != "tuple_access"@,
        "tuple"@ != "implicit_member"@,
        "tuple"@ != "cast"@,
        "circuit"@ != "index"@,
        "circuit"@ != "member"@,
        "circuit"@ != "tuple_access"@,
        "circuit"@ != "implicit_member"@,
        "circuit"@ != "cast"@,
        "index"@ != "member"@,
        "index"@ != "tuple_access"@,
        "index"@ != "implicit_member"@,
        "index"@ != "cast"@,
        "member"@ != "tuple_access"@,
        "member"@ != "implicit_member"@,
        "member"@ != "cast"@,
        "tuple_access"@ != "implicit_member"@,
        "tuple_access"@ != "cast"@,
        "implicit_member"@ != "cast"@,
{
    reveal_strlit("literal");
    reveal_strlit("identifier");
    reveal_strlit("unary");
    reveal_strlit("binary");
    reveal_strlit("ternary");
    reveal_strlit("call");
    reveal_strlit("array");
    reveal_strlit("tuple");
    reveal_strlit("circuit");
    reveal_strlit("index");
    reveal_strlit("member");
    reveal_strlit("tuple_access");
    reveal_strlit("implicit_member");
    reveal_strlit("cast");
    assert("literal"@.len() != "identifier"@.len());
    assert("literal"@.len() != "unary"@.len());
    assert("literal"@.len() != "binary"@.len());
    assert("literal"@[0] != "ternary"@[0]);
    assert("literal"@.len() != "call"@.len());
    assert("literal"@.len() != "array"@.len());
    assert("literal"@.len() != "tuple"@.len());
    assert("literal"@[0] != "circuit"@[0]);
    assert("literal"@.len() != "index"@.len());
    assert("literal"@.len() != "member"@.len());
    assert("literal"@.len() != "tuple_access"@.len());
    assert("literal"@.len() != "implicit_member"@.len());
    assert("literal"@.len() != "cast"@.len());
    assert("identifier"@.len() != "unary"@.len());
    assert("identifier"@.len() != "binary"@.len());
    assert("identifier"@.len() != "ternary"@.len());
    assert("identifier"@.len() != "call"@.len());
    assert("identifier"@.len() != "array"@.len());
    assert("identifier"@.len() != "tuple"@.len());
    assert("identifier"@.len() != "circuit"@.len());
    assert("identifier"@.len() != "index"@.len());
    assert("identifier"@.len() != "member"@.len());
    assert("identifier"@.len() != "tuple_access"@.len());
    assert("identifier"@.len() != "implicit_member"@.len());
    assert("identifier"@.len() != "cast"@.len());
    assert("unary"@.len() != "binary"@.len());
    assert("unary"@.len() != "ternary"@.len());
    assert("unary"@.len() != "call"@.len());
    assert("unary"@[0] != "array"@[0]);
    assert("unary"@[0] != "tuple"@[0]);
    assert("unary"@.len() != "circuit"@.len());
    assert("unary"@[0] != "index"@[0]);
    assert("unary"@.len() != "member"@.len());
    assert("unary"@.len() != "tuple_access"@.len());
    assert("unary"@.len() != "implicit_member"@.len());
    assert("unary"@.len() != "cast"@.len());
    assert("binary"@.len() != "ternary"@.len());
    assert("binary"@.len() != "call"@.len());
    assert("binary"@.len() != "array"@.len());
    assert("binary"@.len() != "tuple"@.len());
    assert("binary"@.len() != "circuit"@.len());
    assert("binary"@.len() != "index"@.len());
    assert("binary"@[0] != "member"@[0]);
    assert("binary"@.len() != "tuple_access"@.len());
    assert("binary"@.len() != "implicit_member"@.len());
    assert("binary"@.len() != "cast"@.len());
    assert("ternary"@.len() != "call"@.len());
    assert("ternary"@.len() != "array"@.len());
    assert("ternary"@.len() != "tuple"@.len());
    assert("ternary"@[0] != "circuit"@[0]);
    assert("ternary"@.len() != "index"@.len());
    assert("ternary"@.len() != "member"@.len());
    assert("ternary"@.len() != "tuple_access"@.len());
    assert("ternary"@.len() != "implicit_member"@.len());
    assert("ternary"@.len() != "cast"@.len());
    assert("call"@.len() != "array"@.len());
    assert("call"@.len() != "tuple"@.len());
    assert("call"@.len() != "circuit"@.len());
    assert("call"@.len() != "index"@.len());
    assert("call"@.len() != "member"@.len());
    assert("call"@.len() != "tuple_access"@.len());
    assert("call"@.len() != "implicit_member"@.len());
    assert("call"@[2] != "cast"@[2]);
    assert("array"@[0] != "tuple"@[0]);
    assert("array"@.len() != "circuit"@.len());
    assert("array"@[0] != "index"@[0]);
    assert("array"@.len() != "member"@.len());
    assert("array"@.len() != "tuple_access"@.len());
    assert("array"@.len() != "implicit_member"@.len());
    assert("array"@.len() != "cast"@.len());
    assert("tuple"@.len() != "circuit"@.len());
    assert("tuple"@[0] != "index"@[0]);
    assert("tuple"@.len() != "member"@.len());
    assert("tuple"@.len() != "tuple_access"@.len());
    assert("tuple"@.len() != "implicit_member"@.len());
    assert("tuple"@.len() != "cast"@.len());
    assert("circuit"@.len() != "index"@.len());
    assert("circuit"@.len() != "member"@.len());
    assert("circuit"@.len() != "tuple_access"@.len());
    assert("circuit"@.len() != "implicit_member"@.len());
    assert("circuit"@.len() != "cast"@.len());
    assert("index"@.len() != "member"@.len());
    assert("index"@.len() != "tuple_access"@.len());
    assert("index"@.len() != "implicit_member"@.len());
    assert("index"@.len() != "cast"@.len());
    assert("member"@.len() != "tuple_access"@.len());
    assert("member"@.len() != "implicit_member"@.len());
    assert("member"@.len() != "cast"@.len());
    assert("tuple_access"@.len() != "implicit_member"@.len());
    assert("tuple_access"@.len() != "cast"@.len());
    assert("implicit_member"@.len() != "cast"@.len());
}

/// The document of the kind of an expression: the name of the variant, as a text where the variant
/// has no part, else as the key of the object of its parts.
pub open spec fn expression_kind_document(this: ExpressionKindView) -> JsonView
    decreases this, 0nat,
{
    match this {
        ExpressionKindView::Literal(literal) => variant(
            "literal"@,
            seq![
                field("literal"@, literal_document(literal)),
            ],
        ),
        ExpressionKindView::Identifier(name) => variant(
            "identifier"@,
            seq![
                field("name"@, text_document(name)),
            ],
        ),
        ExpressionKindView::Unary { operator, operand } => variant(
            "unary"@,
            seq![
                field("operator"@, unary_operation_document(operator)),
                field("operand"@, expression_document(*operand)),
            ],
        ),
        ExpressionKindView::Binary { operation, left, right } => variant(
            "binary"@,
            seq![
                field("operation"@, binary_operation_document(operation)),
                field("left"@, expression_document(*left)),
                field("right"@, expression_document(*right)),
            ],
        ),
        ExpressionKindView::Ternary { condition, if_true, if_false } => variant(
            "ternary"@,
            seq![
                field("condition"@, expression_document(*condition)),
                field("if_true"@, expression_document(*if_true)),
                field("if_false"@, expression_document(*if_false)),
            ],
        ),
        ExpressionKindView::Call { callee, arguments } => variant(
            "call"@,
            seq![
                field("callee"@, texts_document(callee)),
                field("arguments"@, expressions_document(arguments)),
            ],
        ),
        ExpressionKindView::Array(elements) => variant(
            "array"@,
            seq![
                field("elements"@, expressions_document(elements)),
            ],
        ),
        ExpressionKindView::Tuple(elements) => variant(
            "tuple"@,
            seq![
                field("elements"@, expressions_document(elements)),
            ],
        ),
        ExpressionKindView::Circuit { name, members } => variant(
            "circuit"@,
            seq![
                field("name"@, text_document(name)),
                field("members"@, member_inits_document(members)),
            ],
        ),
        ExpressionKindView::Index { array, index } => variant(
            "index"@,
            seq![
                field("array"@, expression_document(*array)),
                field("index"@, expression_document(*index)),
            ],
        ),
        ExpressionKindView::Member { object, name } => variant(
            "member"@,
            seq![
                field("object"@, expression_document(*object)),
                field("name"@, text_document(name)),
            ],
        ),
        ExpressionKindView::TupleAccess { tuple, position } => variant(
            "tuple_access"@,
            seq![
                field("tuple"@, expression_document(*tuple)),
                field("position"@, number_document(position)),
            ],
        ),
        ExpressionKindView::ImplicitMember { name } => variant(
            "implicit_member"@,
            seq![
                field("name"@, text_document(name)),
            ],
        ),
        ExpressionKindView::Cast { operand, target } => variant(
            "cast"@,
            seq![
                field("operand"@, expression_document(*operand)),
                field("target"@, type_document(target)),
            ],
        ),
    }
}

/// A document of the variant `literal` is the document of a value of that variant,
/// and its members are the documents of the parts.
pub proof fn lemma_expression_kind_literal_members(subject: ExpressionKindView, listed: Seq<JsonFieldView>)
    requires
        expression_kind_document(subject) == variant("literal"@, listed),
    ensures
        subject matches ExpressionKindView::Literal(literal)
        && listed.len() == 1
        && listed[0] == field("literal"@, literal_document(literal)),
{
    lemma_expression_kind_names();
    assert(expression_kind_document(subject)->Object_0[0] == variant("literal"@, listed)->Object_0[0]);
    match subject {
        ExpressionKindView::Literal(literal) => {
            let parts = expression_kind_document(subject)->Object_0[0].value->Object_0;
            assert(parts == listed);
            assert(parts.len() == 1);
            assert(parts[0] == field("literal"@, literal_document(literal)));
        },
        _ => {},
    }
}

/// Reads the parts of the variant `literal` from the members `fields`.
fn decode_expression_kind_literal(fields: &Vec<JsonField>) -> (r: Option<ExpressionKind>)
    requires
        forall|i: int| 0 <= i < fields.len() ==> json_fields_view(fields@)[i] == (#[trigger] fields@[i])@,
    ensures
        match r {
            Some(x) => expression_kind_document(x@) == variant("literal"@, json_fields_view(fields@)),
            None => forall|x: ExpressionKindView|
                #[trigger] expression_kind_document(x) != variant("literal"@, json_fields_view(fields@)),
        },
    decreases fields, 0nat,
{
    let ghost whole = variant("literal"@, json_fields_view(fields@));
    let ghost listed = json_fields_view(fields@);
    assert forall|subject: ExpressionKindView| #[trigger] expression_kind_document(subject) == whole implies
        subject matches ExpressionKindView::Literal(literal)
        && listed.len() == 1
        && listed[0] == field("literal"@, literal_document(literal)) by {
        lemma_expression_kind_literal_members(subject, listed);
    }
    if fields.len() != 1 {
        return None;
    }
    if !has_key(&fields[0], "literal") {
        return None;
    }
    let literal = match decode_literal(&fields[0].value) {
        Some(x) => x,
        None => return None,
    };
    let x = ExpressionKind::Literal(literal);
    assert(json_fields_view(fields@) =~= expression_kind_document(x@)->Object_0[0].value->Object_0);
    Some(x)
}

/// Two values with the same document, one of them of the variant `literal`, are the
/// same value.
proof fn lemma_expression_kind_literal_injective(a: ExpressionKindView, b: ExpressionKindView)
    requires
        a is Literal,
        expression_kind_document(a) == expression_kind_document(b),
    ensures
        a == b,
    decreases a, 0nat,
{
    let listed = expression_kind_document(a)->Object_0[0].value->Object_0;
    assert(expression_kind_document(a) == variant("literal"@, listed));
    lemma_expression_kind_literal_members(a, listed);
    lemma_expression_kind_literal_members(b, listed);
    match (a, b) {
        (ExpressionKindView::Literal(a_literal), ExpressionKindView::Literal(b_literal)) => {
            lemma_literal_document_injective(a_literal, b_literal);
        },
        _ => {},
    }
}

/// A document of the variant `identifier` is the document of a value of that variant,
/// and its members are the documents of the parts.
pub proof fn lemma_expression_kind_identifier_members(subject: ExpressionKindView, listed: Seq<JsonFieldView>)
    requires
        expression_kind_document(subject) == variant("identifier"@, listed),
    ensures
        subject matches ExpressionKindView::Identifier(name)
        && listed.len() == 1
        && listed[0] == field("name"@, text_document(name)),
{
    lemma_expression_kind_names();
    assert(expression_kind_document(subject)->Object_0[0] == variant("identifier"@, listed)->Object_0[0]);
    match subject {
        ExpressionKindView::Identifier(name) => {
            let parts = expression_kind_document(subject)->Object_0[0].value->Object_0;
            assert(parts == listed);
            assert(parts.len() == 1);
            assert(parts[0] == field("name"@, text_document(name)));
        },
        _ => {},
    }
}

/// Reads the parts of the variant `identifier` from the members `fields`.
fn decode_expression_kind_identifier(fields: &Vec<JsonField>) -> (r: Option<ExpressionKind>)
    requires
        forall|i: int| 0 <= i < fields.len() ==> json_fields_view(fields@)[i] == (#[trigger] fields@[i])@,
    ensures
        match r {
            Some(x) => expression_kind_document(x@) == variant("identifier"@, json_fields_view(fields@)),
            None => forall|x: ExpressionKindView|
                #[trigger] expression_kind_document(x) != variant("identifier"@, json_fields_view(fields@)),
        },
    decreases fields, 0nat,
{
    let ghost whole = variant("identifier"@, json_fields_view(fields@));
    let ghost listed = json_fields_view(fields@);
    assert forall|subject: ExpressionKindView| #[trigger] expression_kind_document(subject) == whole implies
        subject matches ExpressionKindView::Identifier(name)
        && listed.len() == 1
        && listed[0] == field("name"@, text_document(name)) by {
        lemma_expression_kind_identifier_members(subject, listed);
    }
    if fields.len() != 1 {
        return None;
    }
    if !has_key(&fields[0], "name") {
        return None;
    }
    let name = match decode_text(&fields[0].value) {
        Some(x) => x,
        None => return None,
    };
    let x = ExpressionKind::Identifier(name);
    assert(json_fields_view(fields@) =~= expression_kind_document(x@)->Object_0[0].value->Object_0);
    Some(x)
}

/// Two values with the same document, one of them of the variant `identifier`, are the
/// same value.
proof fn lemma_expression_kind_identifier_injective(a: ExpressionKindView, b: ExpressionKindView)
    requires
        a is Identifier,
        expression_kind_document(a) == expression_kind_document(b),
    ensures
        a == b,
    decreases a, 0nat,
{
    let listed = expression_kind_document(a)->Object_0[0].value->Object_0;
    assert(expression_kind_document(a) == variant("identifier"@, listed));
    lemma_expression_kind_identifier_members(a, listed);
    lemma_expression_kind_identifier_members(b, listed);
    match (a, b) {
        (ExpressionKindView::Identifier(a_name), ExpressionKindView::Identifier(b_name)) => {
        },
        _ => {},
    }
}

/// A document of the variant `unary` is the document of a value of that variant,
/// and its members are the documents of the parts.
pub proof fn lemma_expression_kind_unary_members(subject: ExpressionKindView, listed: Seq<JsonFieldView>)
    requires
        expression_kind_document(subject) == variant("unary"@, listed),
    ensures
        subject matches ExpressionKindView::Unary { operator, operand }
        && listed.len() == 2
        && listed[0] == field("operator"@, unary_operation_document(operator))
        && listed[1] == field("operand"@, expression_document(*operand)),
{
    lemma_expression_kind_names();
    assert(expression_kind_document(subject)->Object_0[0] == variant("unary"@, listed)->Object_0[0]);
    match subject {
        ExpressionKindView::Unary { operator, operand } => {
            let parts = expression_kind_document(subject)->Object_0[0].value->Object_0;
            assert(parts == listed);
            assert(parts.len() == 2);
            assert(parts[0] == field("operator"@, unary_operation_document(operator)));
            assert(parts[1] == field("operand"@, expression_document(*operand)));
        },
        _ => {},
    }
}

/// Reads the parts of the variant `unary` from the members `fields`.
fn decode_expression_kind_unary(fields: &Vec<JsonField>) -> (r: Option<ExpressionKind>)
    requires
        forall|i: int| 0 <= i < fields.len() ==> json_fields_view(fields@)[i] == (#[trigger] fields@[i])@,
    ensures
        match r {
            Some(x) => expression_kind_document(x@) == variant("unary"@, json_fields_view(fields@)),
            None => forall|x: ExpressionKindView|
                #[trigger] expression_kind_document(x) != variant("unary"@, json_fields_view(fields@)),
        },
    decreases fields, 0nat,
{
    let ghost whole = variant("unary"@, json_fields_view(fields@));
    let ghost listed = json_fields_view(fields@);
    assert forall|subject: ExpressionKindView| #[trigger] expression_kind_document(subject) == whole implies
        subject matches ExpressionKindView::Unary { operator, operand }
        && listed.len() == 2
        && listed[0] == field("operator"@, unary_operation_document(operator))
        && listed[1] == field("operand"@, expression_document(*operand)) by {
        lemma_expression_kind_unary_members(subject, listed);
    }
    if fields.len() != 2 {
        return None;
    }
    if !has_key(&fields[0], "operator") {
        return None;
    }
    if !has_key(&fields[1], "operand") {
        return None;
    }
    let operator = match decode_unary_operation(&fields[0].value) {
        Some(x) => x,
        None => return None,
    };
    let operand = match decode_expression(&fields[1].value) {
        Some(x) => Box::new(x),
        None => return None,
    };
    let x = ExpressionKind::Unary { operator, operand };
    assert(json_fields_view(fields@) =~= expression_kind_document(x@)->Object_0[0].value->Object_0);
    Some(x)
}

/// Two values with the same document, one of them of the variant `unary`, are the
/// same value.
proof fn lemma_expression_kind_unary_injective(a: ExpressionKindView, b: ExpressionKindView)
    requires
        a is Unary,
        expression_kind_document(a) == expression_kind_document(b),
    ensures
        a == b,
    decreases a, 0nat,
{
    let listed = expression_kind_document(a)->Object_0[0].value->Object_0;
    assert(expression_kind_document(a) == variant("unary"@, listed));
    lemma_expression_kind_unary_members(a, listed);
    lemma_expression_kind_unary_members(b, listed);
    match (a, b) {
        (ExpressionKindView::Unary { operator: a_operator, operand: a_operand }, ExpressionKindView::Unary { operator: b_operator, operand: b_operand }) => {
            lemma_unary_operation_document_injective(a_operator, b_operator);
            lemma_expression_document_injective(*a_operand, *b_operand);
        },
        _ => {},
    }
}

/// A document of the variant `binary` is the document of a value of that variant,
/// and its members are the documents of the parts.
pub proof fn lemma_expression_kind_binary_members(subject: ExpressionKindView, listed: Seq<JsonFieldView>)
    requires
        expression_kind_document(subject) == variant("binary"@, listed),
    ensures
        subject matches ExpressionKindView::Binary { operation, left, right }
        && listed.len() == 3
        && listed[0] == field("operation"@, binary_operation_document(operation))
        && listed[1] == field("left"@, expression_document(*left))
        && listed[2] == field("right"@, expression_document(*right)),
{
    lemma_expression_kind_names();
    assert(expression_kind_document(subject)->Object_0[0] == variant("binary"@, listed)->Object_0[0]);
    match subject {
        ExpressionKindView::Binary { operation, left, right } => {
            let parts = expression_kind_document(subject)->Object_0[0].value->Object_0;
            assert(parts == listed);
            assert(parts.len() == 3);
            assert(parts[0] == field("operation"@, binary_operation_document(operation)));
            assert(parts[1] == field("left"@, expression_document(*left)));
            assert(parts[2] == field("right"@, expression_document(*right)));
        },
        _ => {},
    }
}

/// Reads the parts of the variant `binary` from the members `fields`.
fn decode_expression_kind_binary(fields: &Vec<JsonField>) -> (r: Option<ExpressionKind>)
    requires
        forall|i: int| 0 <= i < fields.len() ==> json_fields_view(fields@)[i] == (#[trigger] fields@[i])@,
    ensures
        match r {
            Some(x) => expression_kind_document(x@) == variant("binary"@, json_fields_view(fields@)),
            None => forall|x: ExpressionKindView|
                #[trigger] expression_kind_document(x) != variant("binary"@, json_fields_view(fields@)),
        },
    decreases fields, 0nat,
{
    let ghost whole = variant("binary"@, json_fields_view(fields@));
    let ghost listed = json_fields_view(fields@);
    assert forall|subject: ExpressionKindView| #[trigger] expression_kind_document(subject) == whole implies
        subject matches ExpressionKindView::Binary { operation, left, right }
        && listed.len() == 3
        && listed[0] == field("operation"@, binary_operation_document(operation))
        && listed[1] == field("left"@, expression_document(*left))
        && listed[2] == field("right"@, expression_document(*right)) by {
        lemma_expression_kind_binary_members(subject, listed);
    }
    if fields.len() != 3 {
        return None;
    }
    if !has_key(&fields[0], "operation") {
        return None;
    }
    if !has_key(&fields[1], "left") {
        return None;
    }
    if !has_key(&fields[2], "right") {
        return None;
    }
    let operation = match decode_binary_operation(&fields[0].value) {
        Some(x) => x,
        None => return None,
    };
    let left = match decode_expression(&fields[1].value) {
        Some(x) => Box::new(x),
        None => return None,
    };
    let right = match decode_expression(&fields[2].value) {
        Some(x) => Box::new(x),
        None => return None,
    };
    let x = ExpressionKind::Binary { operation, left, right };
    assert(json_fields_view(fields@) =~= expression_kind_document(x@)->Object_0[0].value->Object_0);
    Some(x)
}

/// Two values with the same document, one of them of the variant `binary`, are the
/// same value.
proof fn lemma_expression_kind_binary_injective(a: ExpressionKindView, b: ExpressionKindView)
    requires
        a is Binary,
        expression_kind_document(a) == expression_kind_document(b),
    ensures
        a == b,
    decreases a, 0nat,
{
    let listed = expression_kind_document(a)->Object_0[0].value->Object_0;
    assert(expression_kind_document(a) == variant("binary"@, listed));
    lemma_expression_kind_binary_members(a, listed);
    lemma_expression_kind_binary_members(b, listed);
    match (a, b) {
        (ExpressionKindView::Binary { operation: a_operation, left: a_left, right: a_right }, ExpressionKindView::Binary { operation: b_operation, left: b_left, right: b_right }) => {
            lemma_binary_operation_document_injective(a_operation, b_operation);
            lemma_expression_document_injective(*a_left, *b_left);
            lemma_expression_document_injective(*a_right, *b_right);
        },
        _ => {},
    }
}

/// A document of the variant `ternary` is the document of a value of that variant,
/// and its members are the documents of the parts.
pub proof fn lemma_expression_kind_ternary_members(subject: ExpressionKindView, listed: Seq<JsonFieldView>)
    requires
        expression_kind_document(subject) == variant("ternary"@, listed),
    ensures
        subject matches ExpressionKindView::Ternary { condition, if_true, if_false }
        && listed.len() == 3
        && listed[0] == field("condition"@, expression_document(*condition))
        && listed[1] == field("if_true"@, expression_document(*if_true))
        && listed[2] == field("if_false"@, expression_document(*if_false)),
{
    lemma_expression_kind_names();
    assert(expression_kind_document(subject)->Object_0[0] == variant("ternary"@, listed)->Object_0[0]);
    match subject {
        ExpressionKindView::Ternary { condition, if_true, if_false } => {
            let parts = expression_kind_document(subject)->Object_0[0].value->Object_0;
            assert(parts == listed);
            assert(parts.len() == 3);
            assert(parts[0] == field("condition"@, expression_document(*condition)));
            assert(parts[1] == field("if_true"@, expression_document(*if_true)));
            assert(parts[2] == field("if_false"@, expression_document(*if_false)));
        },
        _ => {},
    }
}

/// Reads the parts of the variant `ternary` from the members `fields`.
fn decode_expression_kind_ternary(fields: &Vec<JsonField>) -> (r: Option<ExpressionKind>)
    requires
        forall|i: int| 0 <= i < fields.len() ==> json_fields_view(fields@)[i] == (#[trigger] fields@[i])@,
    ensures
        match r {
            Some(x) => expression_kind_document(x@) == variant("ternary"@, json_fields_view(fields@)),
            None => forall|x: ExpressionKindView|
                #[trigger] expression_kind_document(x) != variant("ternary"@, json_fields_view(fields@)),
        },
    decreases fields, 0nat,
{
    let ghost whole = variant("ternary"@, json_fields_view(fields@));
    let ghost listed = json_fields_view(fields@);
    assert forall|subject: ExpressionKindView| #[trigger] expression_kind_document(subject) == whole implies
        subject matches ExpressionKindView::Ternary { condition, if_true, if_false }
        && listed.len() == 3
        && listed[0] == field("condition"@, expression_document(*condition))
        && listed[1] == field("if_true"@, expression_document(*if_true))
        && listed[2] == field("if_false"@, expression_document(*if_false)) by {
        lemma_expression_kind_ternary_members(subject, listed);
    }
    if fields.len() != 3 {
        return None;
    }
    if !has_key(&fields[0], "condition") {
        return None;
    }
    if !has_key(&fields[1], "if_true") {
        return None;
    }
    if !has_key(&fields[2], "if_false") {
        return None;
    }
    let condition = match decode_expression(&fields[0].value) {
        Some(x) => Box::new(x),
        None => return None,
    };
    let if_true = match decode_expression(&fields[1].value) {
        Some(x) => Box::new(x),
        None => return None,
    };
    let if_false = match decode_expression(&fields[2].value) {
        Some(x) => Box::new(x),
        None => return None,
    };
    let x = ExpressionKind::Ternary { condition, if_true, if_false };
    assert(json_fields_view(fields@) =~= expression_kind_document(x@)->Object_0[0].value->Object_0);
    Some(x)
}

/// Two values with the same document, one of them of the variant `ternary`, are the
/// same value.
proof fn lemma_expression_kind_ternary_injective(a: ExpressionKindView, b: ExpressionKindView)
    requires
        a is Ternary,
        expression_kind_document(a) == expression_kind_document(b),
    ensures
        a == b,
    decreases a, 0nat,
{
    let listed = expression_kind_document(a)->Object_0[0].value->Object_0;
    assert(expression_kind_document(a) == variant("ternary"@, listed));
    lemma_expression_kind_ternary_members(a, listed);
    lemma_expression_kind_ternary_members(b, listed);
    match (a, b) {
        (ExpressionKindView::Ternary { condition: a_condition, if_true: a_if_true, if_false: a_if_false }, ExpressionKindView::Ternary { condition: b_condition, if_true: b_if_true, if_false: b_if_false }) => {
            lemma_expression_document_injective(*a_condition, *b_condition);
            lemma_expression_document_injective(*a_if_true, *b_if_true);
            lemma_expression_document_injective(*a_if_false, *b_if_false);
        },
        _ => {},
    }
}

/// A document of the variant `call` is the document of a value of that variant,
/// and its members are the documents of the parts.
pub proof fn lemma_expression_kind_call_members(subject: ExpressionKindView, listed: Seq<JsonFieldView>)
    requires
        expression_kind_document(subject) == variant("call"@, listed),
    ensures
        subject matches ExpressionKindView::Call { callee, arguments }
        && listed.len() == 2
        && listed[0] == field("callee"@, texts_document(callee))
        && listed[1] == field("arguments"@, expressions_document(arguments)),
{
    lemma_expression_kind_names();
    assert(expression_kind_document(subject)->Object_0[0] == variant("call"@, listed)->Object_0[0]);
    match subject {
        ExpressionKindView::Call { callee, arguments } => {
            let parts = expression_kind_document(subject)->Object_0[0].value->Object_0;
            assert(parts == listed);
            assert(parts.len() == 2);
            assert(parts[0] == field("callee"@, texts_document(callee)));
            assert(parts[1] == field("arguments"@, expressions_document(arguments)));
        },
        _ => {},
    }
}

/// Reads the parts of the variant `call` from the members `fields`.
fn decode_expression_kind_call(fields: &Vec<JsonField>) -> (r: Option<ExpressionKind>)
    requires
        forall|i: int| 0 <= i < fields.len() ==> json_fields_view(fields@)[i] == (#[trigger] fields@[i])@,
    ensures
        match r {
            Some(x) => expression_kind_document(x@) == variant("call"@, json_fields_view(fields@)),
            None => forall|x: ExpressionKindView|
                #[trigger] expression_kind_document(x) != variant("call"@, json_fields_view(fields@)),
        },
    decreases fields, 0nat,
{
    let ghost whole = variant("call"@, json_fields_view(fields@));
    let ghost listed = json_fields_view(fields@);
    assert forall|subject: ExpressionKindView| #[trigger] expression_kind_document(subject) == whole implies
        subject matches ExpressionKindView::Call { callee, arguments }
        && listed.len() == 2
        && listed[0] == field("callee"@, texts_document(callee))
        && listed[1] == field("arguments"@, expressions_document(arguments)) by {
        lemma_expression_kind_call_members(subject, listed);
    }
    if fields.len() != 2 {
        return None;
    }
    if !has_key(&fields[0], "callee") {
        return None;
    }
    if !has_key(&fields[1], "arguments") {
        return None;
    }
    let callee = match decode_texts(&fields[0].value) {
        Some(x) => x,
        None => return None,
    };
    let arguments = match decode_expressions(&fields[1].value) {
        Some(x) => x,
        None => return None,
    };
    let x = ExpressionKind::Call { callee, arguments };
    assert(json_fields_view(fields@) =~= expression_kind_document(x@)->Object_0[0].value->Object_0);
    Some(x)
}

/// Two values with the same document, one of them of the variant `call`, are the
/// same value.
proof fn lemma_expression_kind_call_injective(a: ExpressionKindView, b: ExpressionKindView)
    requires
        a is Call,
        expression_kind_document(a) == expression_kind_document(b),
    ensures
        a == b,
    decreases a, 0nat,
{
    let listed = expression_kind_document(a)->Object_0[0].value->Object_0;
    assert(expression_kind_document(a) == variant("call"@, listed));
    lemma_expression_kind_call_members(a, listed);
    lemma_expression_kind_call_members(b, listed);
    match (a, b) {
        (ExpressionKindView::Call { callee: a_callee, arguments: a_arguments }, ExpressionKindView::Call { callee: b_callee, arguments: b_arguments }) => {
            lemma_texts_document_injective(a_callee, b_callee);
            lemma_expressions_document_injective(a_arguments, b_arguments);
        },
        _ => {},
    }
}

/// A document of the variant `array` is the document of a value of that variant,
/// and its members are the documents of the parts.
pub proof fn lemma_expression_kind_array_members(subject: ExpressionKindView, listed: Seq<JsonFieldView>)
    requires
        expression_kind_document(subject) == variant("array"@, listed),
    ensures
        subject matches ExpressionKindView::Array(elements)
        && listed.len() == 1
        && listed[0] == field("elements"@, expressions_document(elements)),
{
    lemma_expression_kind_names();
    assert(expression_kind_document(subject)->Object_0[0] == variant("array"@, listed)->Object_0[0]);
    match subject {
        ExpressionKindView::Array(elements) => {
            let parts = expression_kind_document(subject)->Object_0[0].value->Object_0;
            assert(parts == listed);
            assert(parts.len() == 1);
            assert(parts[0] == field("elements"@, expressions_document(elements)));
        },
        _ => {},
    }
}

/// Reads the parts of the variant `array` from the members `fields`.
fn decode_expression_kind_array(fields: &Vec<JsonField>) -> (r: Option<ExpressionKind>)
    requires
        forall|i: int| 0 <= i < fields.len() ==> json_fields_view(fields@)[i] == (#[trigger] fields@[i])@,
    ensures
        match r {
            Some(x) => expression_kind_document(x@) == variant("array"@, json_fields_view(fields@)),
            None => forall|x: ExpressionKindView|
                #[trigger] expression_kind_document(x) != variant("array"@, json_fields_view(fields@)),
        },
    decreases fields, 0nat,
{
    let ghost whole = variant("array"@, json_fields_view(fields@));
    let ghost listed = json_fields_view(fields@);
    assert forall|subject: ExpressionKindView| #[trigger] expression_kind_document(subject) == whole implies
        subject matches ExpressionKindView::Array(elements)
        && listed.len() == 1
        && listed[0] == field("elements"@, expressions_document(elements)) by {
        lemma_expression_kind_array_members(subject, listed);
    }
    if fields.len() != 1 {
        return None;
    }
    if !has_key(&fields[0], "elements") {
        return None;
    }
    let elements = match decode_expressions(&fields[0].value) {
        Some(x) => x,
        None => return None,
    };
    let x = ExpressionKind::Array(elements);
    assert(json_fields_view(fields@) =~= expression_kind_document(x@)->Object_0[0].value->Object_0);
    Some(x)
}

/// Two values with the same document, one of them of the variant `array`, are the
/// same value.
proof fn lemma_expression_kind_array_injective(a: ExpressionKindView, b: ExpressionKindView)
    requires
        a is Array,
        expression_kind_document(a) == expression_kind_document(b),
    ensures
        a == b,
    decreases a, 0nat,
{
    let listed = expression_kind_document(a)->Object_0[0].value->Object_0;
    assert(expression_kind_document(a) == variant("array"@, listed));
    lemma_expression_kind_array_members(a, listed);
    lemma_expression_kind_array_members(b, listed);
    match (a, b) {
        (ExpressionKindView::Array(a_elements), ExpressionKindView::Array(b_elements)) => {
            lemma_expressions_document_injective(a_elements, b_elements);
        },
        _ => {},
    }
}

/// A document of the variant `tuple` is the document of a value of that variant,
/// and its members are the documents of the parts.
pub proof fn lemma_expression_kind_tuple_members(subject: ExpressionKindView, listed: Seq<JsonFieldView>)
    requires
        expression_kind_document(subject) == variant("tuple"@, listed),
    ensures
        subject matches ExpressionKindView::Tuple(elements)
        && listed.len() == 1
        && listed[0] == field("elements"@, expressions_document(elements)),
{
    lemma_expression_kind_names();
    assert(expression_kind_document(subject)->Object_0[0] == variant("tuple"@, listed)->Object_0[0]);
    match subject {
        ExpressionKindView::Tuple(elements) => {
            let parts = expression_kind_document(subject)->Object_0[0].value->Object_0;
            assert(parts == listed);
            assert(parts.len() == 1);
            assert(parts[0] == field("elements"@, expressions_document(elements)));
        },
        _ => {},
    }
}

/// Reads the parts of the variant `tuple` from the members `fields`.
fn decode_expression_kind_tuple(fields: &Vec<JsonField>) -> (r: Option<ExpressionKind>)
    requires
        forall|i: int| 0 <= i < fields.len() ==> json_fields_view(fields@)[i] == (#[trigger] fields@[i])@,
    ensures
        match r {
            Some(x) => expression_kind_document(x@) == variant("tuple"@, json_fields_view(fields@)),
            None => forall|x: ExpressionKindView|
                #[trigger] expression_kind_document(x) != variant("tuple"@, json_fields_view(fields@)),
        },
    decreases fields, 0nat,
{
    let ghost whole = variant("tuple"@, json_fields_view(fields@));
    let ghost listed = json_fields_view(fields@);
    assert forall|subject: ExpressionKindView| #[trigger] expression_kind_document(subject) == whole implies
        subject matches ExpressionKindView::Tuple(elements)
        && listed.len() == 1
        && listed[0] == field("elements"@, expressions_document(elements)) by {
        lemma_expression_kind_tuple_members(subject, listed);
    }
    if fields.len() != 1 {
        return None;
    }
    if !has_key(&fields[0], "elements") {
        return None;
    }
    let elements = match decode_expressions(&fields[0].value) {
        Some(x) => x,
        None => return None,
    };
    let x = ExpressionKind::Tuple(elements);
    assert(json_fields_view(fields@) =~= expression_kind_document(x@)->Object_0[0].value->Object_0);
    Some(x)
}

/// Two values with the same document, one of them of the variant `tuple`, are the
/// same value.
proof fn lemma_expression_kind_tuple_injective(a: ExpressionKindView, b: ExpressionKindView)
    requires
        a is Tuple,
        expression_kind_document(a) == expression_kind_document(b),
    ensures
        a == b,
    decreases a, 0nat,
{
    let listed = expression_kind_document(a)->Object_0[0].value->Object_0;
    assert(expression_kind_document(a) == variant("tuple"@, listed));
    lemma_expression_kind_tuple_members(a, listed);
    lemma_expression_kind_tuple_members(b, listed);
    match (a, b) {
        (ExpressionKindView::Tuple(a_elements), ExpressionKindView::Tuple(b_elements)) => {
            lemma_expressions_document_injective(a_elements, b_elements);
        },
        _ => {},
    }
}

/// A document of the variant `circuit` is the document of a value of that variant,
/// and its members are the documents of the parts.
pub proof fn lemma_expression_kind_circuit_members(subject: ExpressionKindView, listed: Seq<JsonFieldView>)
    requires
        expression_kind_document(subject) == variant("circuit"@, listed),
    ensures
        subject matches ExpressionKindView::Circuit { name, members }
        && listed.len() == 2
        && listed[0] == field("name"@, text_document(name))
        && listed[1] == field("members"@, member_inits_document(members)),
{
    lemma_expression_kind_names();
    assert(expression_kind_document(subject)->Object_0[0] == variant("circuit"@, listed)->Object_0[0]);
    match subject {
        ExpressionKindView::Circuit { name, members } => {
            let parts = expression_kind_document(subject)->Object_0[0].value->Object_0;
            assert(parts == listed);
            assert(parts.len() == 2);
            assert(parts[0] == field("name"@, text_document(name)));
            assert(parts[1] == field("members"@, member_inits_document(members)));
        },
        _ => {},
    }
}

/// Reads the parts of the variant `circuit` from the members `fields`.
fn decode_expression_kind_circuit(fields: &Vec<JsonField>) -> (r: Option<ExpressionKind>)
    requires
        forall|i: int| 0 <= i < fields.len() ==> json_fields_view(fields@)[i] == (#[trigger] fields@[i])@,
    ensures
        match r {
            Some(x) => expression_kind_document(x@) == variant("circuit"@, json_fields_view(fields@)),
            None => forall|x: ExpressionKindView|
                #[trigger] expression_kind_document(x) != variant("circuit"@, json_fields_view(fields@)),
        },
    decreases fields, 0nat,
{
    let ghost whole = variant("circuit"@, json_fields_view(fields@));
    let ghost listed = json_fields_view(fields@);
    assert forall|subject: ExpressionKindView| #[trigger] expression_kind_document(subject) == whole implies
        subject matches ExpressionKindView::Circuit { name, members }
        && listed.len() == 2
        && listed[0] == field("name"@, text_document(name))
        && listed[1] == field("members"@, member_inits_document(members)) by {
        lemma_expression_kind_circuit_members(subject, listed);
    }
    if fields.len() != 2 {
        return None;
    }
    if !has_key(&fields[0], "name") {
        return None;
    }
    if !has_key(&fields[1], "members") {
        return None;
    }
    let name = match decode_text(&fields[0].value) {
        Some(x) => x,
        None => return None,
    };
    let members = match decode_member_inits(&fields[1].value) {
        Some(x) => x,
        None => return None,
    };
    let x = ExpressionKind::Circuit { name, members };
    assert(json_fields_view(fields@) =~= expression_kind_document(x@)->Object_0[0].value->Object_0);
    Some(x)
}

/// Two values with the same document, one of them of the variant `circuit`, are the
/// same value.
proof fn lemma_expression_kind_circuit_injective(a: ExpressionKindView, b: ExpressionKindView)
    requires
        a is Circuit,
        expression_kind_document(a) == expression_kind_document(b),
    ensures
        a == b,
    decreases a, 0nat,
{
    let listed = expression_kind_document(a)->Object_0[0].value->Object_0;
    assert(expression_kind_document(a) == variant("circuit"@, listed));
    lemma_expression_kind_circuit_members(a, listed);
    lemma_expression_kind_circuit_members(b, listed);
    match (a, b) {
        (ExpressionKindView::Circuit { name: a_name, members: a_members }, ExpressionKindView::Circuit { name: b_name, members: b_members }) => {
            lemma_member_inits_document_injective(a_members, b_members);
        },
        _ => {},
    }
}

/// A document of the variant `index` is the document of a value of that variant,
/// and its members are the documents of the parts.
pub proof fn lemma_expression_kind_index_members(subject: ExpressionKindView, listed: Seq<JsonFieldView>)
    requires
        expression_kind_document(subject) == variant("index"@, listed),
    ensures
        subject matches ExpressionKindView::Index { array, index }
        && listed.len() == 2
        && listed[0] == field("array"@, expression_document(*array))
        && listed[1] == field("index"@, expression_document(*index)),
{
    lemma_expression_kind_names();
    assert(expression_kind_document(subject)->Object_0[0] == variant("index"@, listed)->Object_0[0]);
    match subject {
        ExpressionKindView::Index { array, index } => {
            let parts = expression_kind_document(subject)->Object_0[0].value->Object_0;
            assert(parts == listed);
            assert(parts.len() == 2);
            assert(parts[0] == field("array"@, expression_document(*array)));
            assert(parts[1] == field("index"@, expression_document(*index)));
        },
        _ => {},
    }
}

/// Reads the parts of the variant `index` from the members `fields`.
fn decode_expression_kind_index(fields: &Vec<JsonField>) -> (r: Option<ExpressionKind>)
    requires
        forall|i: int| 0 <= i < fields.len() ==> json_fields_view(fields@)[i] == (#[trigger] fields@[i])@,
    ensures
        match r {
            Some(x) => expression_kind_document(x@) == variant("index"@, json_fields_view(fields@)),
            None => forall|x: ExpressionKindView|
                #[trigger] expression_kind_document(x) != variant("index"@, json_fields_view(fields@)),
        },
    decreases fields, 0nat,
{
    let ghost whole = variant("index"@, json_fields_view(fields@));
    let ghost listed = json_fields_view(fields@);
    assert forall|subject: ExpressionKindView| #[trigger] expression_kind_document(subject) == whole implies
        subject matches ExpressionKindView::Index { array, index }
        && listed.len() == 2
        && listed[0] == field("array"@, expression_document(*array))
        && listed[1] == field("index"@, expression_document(*index)) by {
        lemma_expression_kind_index_members(subject, listed);
    }
    if fields.len() != 2 {
        return None;
    }
    if !has_key(&fields[0], "array") {
        return None;
    }
    if !has_key(&fields[1], "index") {
        return None;
    }
    let array = match decode_expression(&fields[0].value) {
        Some(x) => Box::new(x),
        None => return None,
    };
    let index = match decode_expression(&fields[1].value) {
        Some(x) => Box::new(x),
        None => return None,
    };
    let x = ExpressionKind::Index { array, index };
    assert(json_fields_view(fields@) =~= expression_kind_document(x@)->Object_0[0].value->Object_0);
    Some(x)
}

/// Two values with the same document, one of them of the variant `index`, are the
/// same value.
proof fn lemma_expression_kind_index_injective(a: ExpressionKindView, b: ExpressionKindView)
    requires
        a is Index,
        expression_kind_document(a) == expression_kind_document(b),
    ensures
        a == b,
    decreases a, 0nat,
{
    let listed = expression_kind_document(a)->Object_0[0].value->Object_0;
    assert(expression_kind_document(a) == variant("index"@, listed));
    lemma_expression_kind_index_members(a, listed);
    lemma_expression_kind_index_members(b, listed);
    match (a, b) {
        (ExpressionKindView::Index { array: a_array, index: a_index }, ExpressionKindView::Index { array: b_array, index: b_index }) => {
            lemma_expression_document_injective(*a_array, *b_array);
            lemma_expression_document_injective(*a_index, *b_index);
        },
        _ => {},
    }
}

/// A document of the variant `member` is the document of a value of that variant,
/// and its members are the documents of the parts.
pub proof fn lemma_expression_kind_member_members(subject: ExpressionKindView, listed: Seq<JsonFieldView>)
    requires
        expression_kind_document(subject) == variant("member"@, listed),
    ensures
        subject matches ExpressionKindView::Member { object, name }
        && listed.len() == 2
        && listed[0] == field("object"@, expression_document(*object))
        && listed[1] == field("name"@, text_document(name)),
{
    lemma_expression_kind_names();
    assert(expression_kind_document(subject)->Object_0[0] == variant("member"@, listed)->Object_0[0]);
    match subject {
        ExpressionKindView::Member { object, name } => {
            let parts = expression_kind_document(subject)->Object_0[0].value->Object_0;
            assert(parts == listed);
            assert(parts.len() == 2);
            assert(parts[0] == field("object"@, expression_document(*object)));
            assert(parts[1] == field("name"@, text_document(name)));
        },
        _ => {},
    }
}

/// Reads the parts of the variant `member` from the members `fields`.
fn decode_expression_kind_member(fields: &Vec<JsonField>) -> (r: Option<ExpressionKind>)
    requires
        forall|i: int| 0 <= i < fields.len() ==> json_fields_view(fields@)[i] == (#[trigger] fields@[i])@,
    ensures
        match r {
            Some(x) => expression_kind_document(x@) == variant("member"@, json_fields_view(fields@)),
            None => forall|x: ExpressionKindView|
                #[trigger] expression_kind_document(x) != variant("member"@, json_fields_view(fields@)),
        },
    decreases fields, 0nat,
{
    let ghost whole = variant("member"@, json_fields_view(fields@));
    let ghost listed = json_fields_view(fields@);
    assert forall|subject: ExpressionKindView| #[trigger] expression_kind_document(subject) == whole implies
        subject matches ExpressionKindView::Member { object, name }
        && listed.len() == 2
        && listed[0] == field("object"@, expression_document(*object))
        && listed[1] == field("name"@, text_document(name)) by {
        lemma_expression_kind_member_members(subject, listed);
    }
    if fields.len() != 2 {
        return None;
    }
    if !has_key(&fields[0], "object") {
        return None;
    }
    if !has_key(&fields[1], "name") {
        return None;
    }
    let object = match decode_expression(&fields[0].value) {
        Some(x) => Box::new(x),
        None => return None,
    };
    let name = match decode_text(&fields[1].value) {
        Some(x) => x,
        None => return None,
    };
    let x = ExpressionKind::Member { object, name };
    assert(json_fields_view(fields@) =~= expression_kind_document(x@)->Object_0[0].value->Object_0);
    Some(x)
}

/// Two values with the same document, one of them of the variant `member`, are the
/// same value.
proof fn lemma_expression_kind_member_injective(a: ExpressionKindView, b: ExpressionKindView)
    requires
        a is Member,
        expression_kind_document(a) == expression_kind_document(b),
    ensures
        a == b,
    decreases a, 0nat,
{
    let listed = expression_kind_document(a)->Object_0[0].value->Object_0;
    assert(expression_kind_document(a) == variant("member"@, listed));
    lemma_expression_kind_member_members(a, listed);
    lemma_expression_kind_member_members(b, listed);
    match (a, b) {
        (ExpressionKindView::Member { object: a_object, name: a_name }, ExpressionKindView::Member { object: b_object, name: b_name }) => {
            lemma_expression_document_injective(*a_object, *b_object);
        },
        _ => {},
    }
}

/// A document of the variant `tuple_access` is the document of a value of that variant,
/// and its members are the documents of the parts.
pub proof fn lemma_expression_kind_tuple_access_members(subject: ExpressionKindView, listed: Seq<JsonFieldView>)
    requires
        expression_kind_document(subject) == variant("tuple_access"@, listed),
    ensures
        subject matches ExpressionKindView::TupleAccess { tuple, position }
        && listed.len() == 2
        && listed[0] == field("tuple"@, expression_document(*tuple))
        && listed[1] == field("position"@, number_document(position)),
{
    lemma_expression_kind_names();
    assert(expression_kind_document(subject)->Object_0[0] == variant("tuple_access"@, listed)->Object_0[0]);
    match subject {
        ExpressionKindView::TupleAccess { tuple, position } => {
            let parts = expression_kind_document(subject)->Object_0[0].value->Object_0;
            assert(parts == listed);
            assert(parts.len() == 2);
            assert(parts[0] == field("tuple"@, expression_document(*tuple)));
            assert(parts[1] == field("position"@, number_document(position)));
        },
        _ => {},
    }
}

/// Reads the parts of the variant `tuple_access` from the members `fields`.
fn decode_expression_kind_tuple_access(fields: &Vec<JsonField>) -> (r: Option<ExpressionKind>)
    requires
        forall|i: int| 0 <= i < fields.len() ==> json_fields_view(fields@)[i] == (#[trigger] fields@[i])@,
    ensures
        match r {
            Some(x) => expression_kind_document(x@) == variant("tuple_access"@, json_fields_view(fields@)),
            None => forall|x: ExpressionKindView|
                #[trigger] expression_kind_document(x) != variant("tuple_access"@, json_fields_view(fields@)),
        },
    decreases fields, 0nat,
{
    let ghost whole = variant("tuple_access"@, json_fields_view(fields@));
    let ghost listed = json_fields_view(fields@);
    assert forall|subject: ExpressionKindView| #[trigger] expression_kind_document(subject) == whole implies
        subject matches ExpressionKindView::TupleAccess { tuple, position }
        && listed.len() == 2
        && listed[0] == field("tuple"@, expression_document(*tuple))
        && listed[1] == field("position"@, number_document(position)) by {
        lemma_expression_kind_tuple_access_members(subject, listed);
    }
    if fields.len() != 2 {
        return None;
    }
    if !has_key(&fields[0], "tuple") {
        return None;
    }
    if !has_key(&fields[1], "position") {
        return None;
    }
    let tuple = match decode_expression(&fields[0].value) {
        Some(x) => Box::new(x),
        None => return None,
    };
    let position = match decode_number(&fields[1].value) {
        Some(x) => x,
        None => return None,
    };
    let x = ExpressionKind::TupleAccess { tuple, position };
    assert(json_fields_view(fields@) =~= expression_kind_document(x@)->Object_0[0].value->Object_0);
    Some(x)
}

/// Two values with the same document, one of them of the variant `tuple_access`, are the
/// same value.
proof fn lemma_expression_kind_tuple_access_injective(a: ExpressionKindView, b: ExpressionKindView)
    requires
        a is TupleAccess,
        expression_kind_document(a) == expression_kind_document(b),
    ensures
        a == b,
    decreases a, 0nat,
{
    let listed = expression_kind_document(a)->Object_0[0].value->Object_0;
    assert(expression_kind_document(a) == variant("tuple_access"@, listed));
    lemma_expression_kind_tuple_access_members(a, listed);
    lemma_expression_kind_tuple_access_members(b, listed);
    match (a, b) {
        (ExpressionKindView::TupleAccess { tuple: a_tuple, position: a_position }, ExpressionKindView::TupleAccess { tuple: b_tuple, position: b_position }) => {
            lemma_expression_document_injective(*a_tuple, *b_tuple);
        },
        _ => {},
    }
}

/// A document of the variant `implicit_member` is the document of a value of that variant,
/// and its members are the documents of the parts.
pub proof fn lemma_expression_kind_implicit_member_members(subject: ExpressionKindView, listed: Seq<JsonFieldView>)
    requires
        expression_kind_document(subject) == variant("implicit_member"@, listed),
    ensures
        subject matches ExpressionKindView::ImplicitMember { name }
        && listed.len() == 1
        && listed[0] == field("name"@, text_document(name)),
{
    lemma_expression_kind_names();
    assert(expression_kind_document(subject)->Object_0[0] == variant("implicit_member"@, listed)->Object_0[0]);
    match subject {
        ExpressionKindView::ImplicitMember { name } => {
            let parts = expression_kind_document(subject)->Object_0[0].value->Object_0;
            assert(parts == listed);
            assert(parts.len() == 1);
            assert(parts[0] == field("name"@, text_document(name)));
        },
        _ => {},
    }
}

/// Reads the parts of the variant `implicit_member` from the members `fields`.
fn decode_expression_kind_implicit_member(fields: &Vec<JsonField>) -> (r: Option<ExpressionKind>)
    requires
        forall|i: int| 0 <= i < fields.len() ==> json_fields_view(fields@)[i] == (#[trigger] fields@[i])@,
    ensures
        match r {
            Some(x) => expression_kind_document(x@) == variant("implicit_member"@, json_fields_view(fields@)),
            None => forall|x: ExpressionKindView|
                #[trigger] expression_kind_document(x) != variant("implicit_member"@, json_fields_view(fields@)),
        },
    decreases fields, 0nat,
{
    let ghost whole = variant("implicit_member"@, json_fields_view(fields@));
    let ghost listed = json_fields_view(fields@);
    assert forall|subject: ExpressionKindView| #[trigger] expression_kind_document(subject) == whole implies
        subject matches ExpressionKindView::ImplicitMember { name }
        && listed.len() == 1
        && listed[0] == field("name"@, text_document(name)) by {
        lemma_expression_kind_implicit_member_members(subject, listed);
    }
    if fields.len() != 1 {
        return None;
    }
    if !has_key(&fields[0], "name") {
        return None;
    }
    let name = match decode_text(&fields[0].value) {
        Some(x) => x,
        None => return None,
    };
    let x = ExpressionKind::ImplicitMember { name };
    assert(json_fields_view(fields@) =~= expression_kind_document(x@)->Object_0[0].value->Object_0);
    Some(x)
}

/// Two values with the same document, one of them of the variant `implicit_member`, are the
/// same value.
proof fn lemma_expression_kind_implicit_member_injective(a: ExpressionKindView, b: ExpressionKindView)
    requires
        a is ImplicitMember,
        expression_kind_document(a) == expression_kind_document(b),
    ensures
        a == b,
    decreases a, 0nat,
{
    let listed = expression_kind_document(a)->Object_0[0].value->Object_0;
    assert(expression_kind_document(a) == variant("implicit_member"@, listed));
    lemma_expression_kind_implicit_member_members(a, listed);
    lemma_expression_kind_implicit_member_members(b, listed);
    match (a, b) {
        (ExpressionKindView::ImplicitMember { name: a_name }, ExpressionKindView::ImplicitMember { name: b_name }) => {
        },
        _ => {},
    }
}

/// A document of the variant `cast` is the document of a value of that variant,
/// and its members are the documents of the parts.
pub proof fn lemma_expression_kind_cast_members(subject: ExpressionKindView, listed: Seq<JsonFieldView>)
    requires
        expression_kind_document(subject) == variant("cast"@, listed),
    ensures
        subject matches ExpressionKindView::Cast { operand, target }
        && listed.len() == 2
        && listed[0] == field("operand"@, expression_document(*operand))
        && listed[1] == field("target"@, type_document(target)),
{
    lemma_expression_kind_names();
    assert(expression_kind_document(subject)->Object_0[0] == variant("cast"@, listed)->Object_0[0]);
    match subject {
        ExpressionKindView::Cast { operand, target } => {
            let parts = expression_kind_document(subject)->Object_0[0].value->Object_0;
            assert(parts == listed);
            assert(parts.len() == 2);
            assert(parts[0] == field("operand"@, expression_document(*operand)));
            assert(parts[1] == field("target"@, type_document(target)));
        },
        _ => {},
    }
}

/// Reads the parts of the variant `cast` from the members `fields`.
fn decode_expression_kind_cast(fields: &Vec<JsonField>) -> (r: Option<ExpressionKind>)
    requires
        forall|i: int| 0 <= i < fields.len() ==> json_fields_view(fields@)[i] == (#[trigger] fields@[i])@,
    ensures
        match r {
            Some(x) => expression_kind_document(x@) == variant("cast"@, json_fields_view(fields@)),
            None => forall|x: ExpressionKindView|
                #[trigger] expression_kind_document(x) != variant("cast"@, json_fields_view(fields@)),
        },
    decreases fields, 0nat,
{
    let ghost whole = variant("cast"@, json_fields_view(fields@));
    let ghost listed = json_fields_view(fields@);
    assert forall|subject: ExpressionKindView| #[trigger] expression_kind_document(subject) == whole implies
        subject matches ExpressionKindView::Cast { operand, target }
        && listed.len() == 2
        && listed[0] == field("operand"@, expression_document(*operand))
        && listed[1] == field("target"@, type_document(target)) by {
        lemma_expression_kind_cast_members(subject, listed);
    }
    if fields.len() != 2 {
        return None;
    }
    if !has_key(&fields[0], "operand") {
        return None;
    }
    if !has_key(&fields[1], "target") {
        return None;
    }
    let operand = match decode_expression(&fields[0].value) {
        Some(x) => Box::new(x),
        None => return None,
    };
    let target = match decode_type(&fields[1].value) {
        Some(x) => x,
        None => return None,
    };
    let x = ExpressionKind::Cast { operand, target };
    assert(json_fields_view(fields@) =~= expression_kind_document(x@)->Object_0[0].value->Object_0);
    Some(x)
}

/// Two values with the same document, one of them of the variant `cast`, are the
/// same value.
proof fn lemma_expression_kind_cast_injective(a: ExpressionKindView, b: ExpressionKindView)
    requires
        a is Cast,
        expression_kind_document(a) == expression_kind_document(b),
    ensures
        a == b,
    decreases a, 0nat,
{
    let listed = expression_kind_document(a)->Object_0[0].value->Object_0;
    assert(expression_kind_document(a) == variant("cast"@, listed));
    lemma_expression_kind_cast_members(a, listed);
    lemma_expression_kind_cast_members(b, listed);
    match (a, b) {
        (ExpressionKindView::Cast { operand: a_operand, target: a_target }, ExpressionKindView::Cast { operand: b_operand, target: b_target }) => {
            lemma_expression_document_injective(*a_operand, *b_operand);
            lemma_type_document_injective(a_target, b_target);
        },
        _ => {},
    }
}

/// Writes the kind of an expression as a document.
pub fn encode_expression_kind(this: &ExpressionKind) -> (r: Json)
    ensures
        r@ == expression_kind_document(this@),
    decreases this,
{
    match this {
        ExpressionKind::Literal(literal) => variant_of(
            "literal",
            members_1(
                "literal",
                encode_literal(literal),
            ),
        ),
        ExpressionKind::Identifier(name) => variant_of(
            "identifier",
            members_1(
                "name",
                encode_text(name),
            ),
        ),
        ExpressionKind::Unary { operator, operand } => variant_of(
            "unary",
            members_2(
                "operator",
                encode_unary_operation(*operator),
                "operand",
                encode_expression(&**operand),
            ),
        ),
        ExpressionKind::Binary { operation, left, right } => variant_of(
            "binary",
            members_3(
                "operation",
                encode_binary_operation(*operation),
                "left",
                encode_expression(&**left),
                "right",
                encode_expression(&**right),
            ),
        ),
        ExpressionKind::Ternary { condition, if_true, if_false } => variant_of(
            "ternary",
            members_3(
                "condition",
                encode_expression(&**condition),
                "if_true",
                encode_expression(&**if_true),
                "if_false",
                encode_expression(&**if_false),
            ),
        ),
        ExpressionKind::Call { callee, arguments } => variant_of(
            "call",
            members_2(
                "callee",
                encode_texts(callee),
                "arguments",
                encode_expressions(arguments),
            ),
        ),
        ExpressionKind::Array(elements) => variant_of(
            "array",
            members_1(
                "elements",
                encode_expressions(elements),
            ),
        ),
        ExpressionKind::Tuple(elements) => variant_of(
            "tuple",
            members_1(
                "elements",
                encode_expressions(elements),
            ),
        ),
        ExpressionKind::Circuit { name, members } => variant_of(
            "circuit",
            members_2(
                "name",
                encode_text(name),
                "members",
                encode_member_inits(members),
            ),
        ),
        ExpressionKind::Index { array, index } => variant_of(
            "index",
            members_2(
                "array",
                encode_expression(&**array),
                "index",
                encode_expression(&**index),
            ),
        ),
        ExpressionKind::Member { object, name } => variant_of(
            "member",
            members_2(
                "object",
                encode_expression(&**object),
                "name",
                encode_text(name),
            ),
        ),
        ExpressionKind::TupleAccess { tuple, position } => variant_of(
            "tuple_access",
            members_2(
                "tuple",
                encode_expression(&**tuple),
                "position",
                encode_number(*position),
            ),
        ),
        ExpressionKind::ImplicitMember { name } => variant_of(
            "implicit_member",
            members_1(
                "name",
                encode_text(name),
            ),
        ),
        ExpressionKind::Cast { operand, target } => variant_of(
            "cast",
            members_2(
                "operand",
                encode_expression(&**operand),
                "target",
                encode_type(target),
            ),
        ),
    }
}

/// Reads the kind of an expression from the document `j`, if `j` is the document of one.
pub fn decode_expression_kind(j: &Json) -> (r: Option<ExpressionKind>)
    ensures
        match r {
            Some(x) => expression_kind_document(x@) == j@,
            None => forall|x: ExpressionKindView| #[trigger] expression_kind_document(x) != j@,
        },
    decreases j, 0nat,
{
    match j {
        _ => {
            let (tag, fields) = match variant_parts(j) {
                Some(parts) => parts,
                None => {
                    assert forall|x: ExpressionKindView| #[trigger] expression_kind_document(x) != j@ by {
                        if expression_kind_document(x) == j@ {
                            assert(expression_kind_document(x) == variant(
                                expression_kind_document(x)->Object_0[0].key,
                                expression_kind_document(x)->Object_0[0].value->Object_0,
                            ));
                        }
                    }
                    return None;
                },
            };
            if text_is(tag, "literal") {
                decode_expression_kind_literal(fields)
            } else if text_is(tag, "identifier") {
                decode_expression_kind_identifier(fields)
            } else if text_is(tag, "unary") {
                decode_expression_kind_unary(fields)
            } else if text_is(tag, "binary") {
                decode_expression_kind_binary(fields)
            } else if text_is(tag, "ternary") {
                decode_expression_kind_ternary(fields)
            } else if text_is(tag, "call") {
                decode_expression_kind_call(fields)
            } else if text_is(tag, "array") {
                decode_expression_kind_array(fields)
            } else if text_is(tag, "tuple") {
                decode_expression_kind_tuple(fields)
            } else if text_is(tag, "circuit") {
                decode_expression_kind_circuit(fields)
            } else if text_is(tag, "index") {
                decode_expression_kind_index(fields)
            } else if text_is(tag, "member") {
                decode_expression_kind_member(fields)
            } else if text_is(tag, "tuple_access") {
                decode_expression_kind_tuple_access(fields)
            } else if text_is(tag, "implicit_member") {
                decode_expression_kind_implicit_member(fields)
            } else if text_is(tag, "cast") {
                decode_expression_kind_cast(fields)
            } else {
                assert forall|x: ExpressionKindView| #[trigger] expression_kind_document(x) != j@ by {
                    if expression_kind_document(x) == j@ {
                        assert(expression_kind_document(x)->Object_0[0] == j@->Object_0[0]);
                    }
                }
                None
            }
        },
    }
}

/// Two values with the same document are the same value.
pub proof fn lemma_expression_kind_document_injective(a: ExpressionKindView, b: ExpressionKindView)
    requires
        expression_kind_document(a) == expression_kind_document(b),
    ensures
        a == b,
    decreases a, 1nat,
{
    match a {
        ExpressionKindView::Literal(..) => {
            lemma_expression_kind_literal_injective(a, b);
        },
        ExpressionKindView::Identifier(..) => {
            lemma_expression_kind_identifier_injective(a, b);
        },
        ExpressionKindView::Unary { .. } => {
            lemma_expression_kind_unary_injective(a, b);
        },
        ExpressionKindView::Binary { .. } => {
            lemma_expression_kind_binary_injective(a, b);
        },
        ExpressionKindView::Ternary { .. } => {
            lemma_expression_kind_ternary_injective(a, b);
        },
        ExpressionKindView::Call { .. } => {
            lemma_expression_kind_call_injective(a, b);
        },
        ExpressionKindView::Array(..) => {
            lemma_expression_kind_array_injective(a, b);
        },
        ExpressionKindView::Tuple(..) => {
            lemma_expression_kind_tuple_injective(a, b);
        },
        ExpressionKindView::Circuit { .. } => {
            lemma_expression_kind_circuit_injective(a, b);
        },
        ExpressionKindView::Index { .. } => {
            lemma_expression_kind_index_injective(a, b);
        },
        ExpressionKindView::Member { .. } => {
            lemma_expression_kind_member_injective(a, b);
        },
        ExpressionKindView::TupleAccess { .. } => {
            lemma_expression_kind_tuple_access_injective(a, b);
        },
        ExpressionKindView::ImplicitMember { .. } => {
            lemma_expression_kind_implicit_member_injective(a, b);
        },
        ExpressionKindView::Cast { .. } => {
            lemma_expression_kind_cast_injective(a, b);
        },
    }
}

/// The document of an expression: an object with one member for each part.
pub open spec fn expression_document(x: ExpressionView) -> JsonView
    decreases x, 0nat,
{
    JsonView::Object(
        seq![
            field("node"@, node_document(x.node)),
            field("kind"@, expression_kind_document(x.kind)),
        ],
    )
}

/// The members of the document of an expression, one by one.
pub proof fn lemma_expression_document_members(subject: ExpressionView, listed: Seq<JsonFieldView>)
    requires
        expression_document(subject) == JsonView::Object(listed),
    ensures
        listed.len() == 2,
        listed[0] == field("node"@, node_document(subject.node)),
        listed[1] == field("kind"@, expression_kind_document(subject.kind)),
{
    let parts = expression_document(subject)->Object_0;
    assert(parts == listed);
    assert(parts.len() == 2);
    assert(parts[0] == field("node"@, node_document(subject.node)));
    assert(parts[1] == field("kind"@, expression_kind_document(subject.kind)));
}

/// Writes an expression as a document.
pub fn encode_expression(x: &Expression) -> (r: Json)
    ensures
        r@ == expression_document(x@),
    decreases x,
{
    assert(x@.kind == x.kind@);
    let fields = members_2(
        "node",
        encode_node(&x.node),
        "kind",
        encode_expression_kind(&x.kind),
    );
    Json::Object(fields)
}

/// Reads an expression from the document `j`, if `j` is the document of one.
pub fn decode_expression(j: &Json) -> (r: Option<Expression>)
    ensures
        match r {
            Some(x) => expression_document(x@) == j@,
            None => forall|x: ExpressionView| #[trigger] expression_document(x) != j@,
        },
    decreases j, 0nat,
{
    let fields = match object_fields(j, 2) {
        Some(fields) => fields,
        None => return None,
    };
    let ghost listed = json_fields_view(fields@);
    assert forall|subject: ExpressionView| #[trigger] expression_document(subject) == j@ implies
        listed.len() == 2
        && listed[0] == field("node"@, node_document(subject.node))
        && listed[1] == field("kind"@, expression_kind_document(subject.kind)) by {
        lemma_expression_document_members(subject, listed);
    }
    if !has_key(&fields[0], "node") {
        return None;
    }
    if !has_key(&fields[1], "kind") {
        return None;
    }
    let node = match decode_node(&fields[0].value) {
        Some(x) => x,
        None => return None,
    };
    let kind = match decode_expression_kind(&fields[1].value) {
        Some(x) => x,
        None => return None,
    };
    let x = Expression { node, kind };
    assert(x@.kind == x.kind@);
    assert(json_fields_view(fields@) =~= expression_document(x@)->Object_0);
    Some(x)
}

/// Two values with the same document are the same value.
pub proof fn lemma_expression_document_injective(a: ExpressionView, b: ExpressionView)
    requires
        expression_document(a) == expression_document(b),
    ensures
        a == b,
    decreases a, 0nat,
{
    let listed = expression_document(a)->Object_0;
    lemma_expression_document_members(a, listed);
    lemma_expression_document_members(b, listed);
    lemma_expression_kind_document_injective(a.kind, b.kind);
}

/// The document of a member of a circuit expression: an object with one member for each part.
pub open spec fn member_init_document(x: MemberInitView) -> JsonView
    decreases x, 0nat,
{
    JsonView::Object(
        seq![
            field("name"@, text_document(x.name)),
            field("value"@, expression_document(x.value)),
        ],
    )
}

/// The members of the document of a member of a circuit expression, one by one.
pub proof fn lemma_member_init_document_members(subject: MemberInitView, listed: Seq<JsonFieldView>)
    requires
        member_init_document(subject) == JsonView::Object(listed),
    ensures
        listed.len() == 2,
        listed[0] == field("name"@, text_document(subject.name)),
        listed[1] == field("value"@, expression_document(subject.value)),
{
    let parts = member_init_document(subject)->Object_0;
    assert(parts == listed);
    assert(parts.len() == 2);
    assert(parts[0] == field("name"@, text_document(subject.name)));
    assert(parts[1] == field("value"@, expression_document(subject.value)));
}

/// Writes a member of a circuit expression as a document.
pub fn encode_member_init(x: &MemberInit) -> (r: Json)
    ensures
        r@ == member_init_document(x@),
    decreases x,
{
    let fields = members_2(
        "name",
        encode_text(&x.name),
        "value",
        encode_expression(&x.value),
    );
    Json::Object(fields)
}

/// Reads a member of a circuit expression from the document `j`, if `j` is the document of one.
pub fn decode_member_init(j: &Json) -> (r: Option<MemberInit>)
    ensures
        match r {
            Some(x) => member_init_document(x@) == j@,
            None => forall|x: MemberInitView| #[trigger] member_init_document(x) != j@,
        },
    decreases j, 0nat,
{
    let fields = match object_fields(j, 2) {
        Some(fields) => fields,
        None => return None,
    };
    let ghost listed = json_fields_view(fields@);
    assert forall|subject: MemberInitView| #[trigger] member_init_document(subject) == j@ implies
        listed.len() == 2
        && listed[0] == field("name"@, text_document(subject.name))
        && listed[1] == field("value"@, expression_document(subject.value)) by {
        lemma_member_init_document_members(subject, listed);
    }
    if !has_key(&fields[0], "name") {
        return None;
    }
    if !has_key(&fields[1], "value") {
        return None;
    }
    let name = match decode_text(&fields[0].value) {
        Some(x) => x,
        None => return None,
    };
    let value = match decode_expression(&fields[1].value) {
        Some(x) => x,
        None => return None,
    };
    let x = MemberInit { name, value };
    assert(json_fields_view(fields@) =~= member_init_document(x@)->Object_0);
    Some(x)
}

/// Two values with the same document are the same value.
pub proof fn lemma_member_init_document_injective(a: MemberInitView, b: MemberInitView)
    requires
        member_init_document(a) == member_init_document(b),
    ensures
        a == b,
    decreases a, 0nat,
{
    let listed = member_init_document(a)->Object_0;
    lemma_member_init_document_members(a, listed);
    lemma_member_init_document_members(b, listed);
    lemma_expression_document_injective(a.value, b.value);
}

/// The document of a list of expressions: the array of their documents, in order.
pub open spec fn expressions_document(s: Seq<ExpressionView>) -> JsonView
    decreases s, 1nat,
{
    JsonView::Array(
        Seq::new(s.len(), |i: int| if 0 <= i < s.len() { expression_document(s[i]) } else { arbitrary() }),
    )
}

/// Writes a list of expressions as a document.
#[verifier::loop_isolation(false)]
pub fn encode_expressions(s: &Vec<Expression>) -> (r: Json)
    ensures
        r@ == expressions_document(expressions_view(s@)),
    decreases s,
{
    let mut out: Vec<Json> = Vec::new();
    let mut i: usize = 0;
    while i < s.len()
        invariant
            i <= s.len(),
            out.len() == i,
            forall|k: int| 0 <= k < i ==> (#[trigger] out[k])@ == expression_document(s[k]@),
        decreases s.len() - i,
    {
        out.push(encode_expression(&s[i]));
        i = i + 1;
    }
    assert forall|k: int| 0 <= k < s.len() implies jsons_view(out@)[k] == expressions_document(
        expressions_view(s@),
    )->Array_0[k] by {
        assert(expressions_view(s@)[k] == s[k]@);
        assert(jsons_view(out@)[k] == out[k]@);
    }
    assert(jsons_view(out@) =~= expressions_document(expressions_view(s@))->Array_0);
    Json::Array(out)
}

/// Reads a list of expressions from the document `j`, if `j` is the document of one.
#[verifier::loop_isolation(false)]
pub fn decode_expressions(j: &Json) -> (r: Option<Vec<Expression>>)
    ensures
        match r {
            Some(s) => expressions_document(expressions_view(s@)) == j@,
            None => forall|s: Seq<ExpressionView>| #[trigger] expressions_document(s) != j@,
        },
    decreases j, 0nat,
{
    match j {
        Json::Array(items) => {
            let mut out: Vec<Expression> = Vec::new();
            let mut i: usize = 0;
            while i < items.len()
                invariant
                    i <= items.len(),
                    out.len() == i,
                    *j == Json::Array(*items),
                    forall|k: int| 0 <= k < i ==> (#[trigger] items[k])@ == expression_document(out[k]@),
                decreases items.len() - i,
            {
                match decode_expression(&items[i]) {
                    Some(x) => {
                        out.push(x);
                    },
                    None => {
                        assert(j@ == JsonView::Array(jsons_view(items@)));
                        assert(jsons_view(items@)[i as int] == items[i as int]@);
                        assert forall|s: Seq<ExpressionView>| #[trigger] expressions_document(s) != j@ by {
                            if expressions_document(s) == j@ {
                                assert(expressions_document(s)->Array_0 == jsons_view(items@));
                                assert(expressions_document(s)->Array_0.len() == s.len());
                                assert(jsons_view(items@).len() == items.len());
                                assert(expressions_document(s)->Array_0[i as int] == expression_document(s[i as int]));
                            }
                        }
                        return None;
                    },
                }
                i = i + 1;
            }
            assert forall|k: int| 0 <= k < items.len() implies jsons_view(items@)[k] == expressions_document(
                expressions_view(out@),
            )->Array_0[k] by {
                assert(expressions_view(out@)[k] == out[k]@);
                assert(jsons_view(items@)[k] == items[k]@);
            }
            assert(jsons_view(items@) =~= expressions_document(expressions_view(out@))->Array_0);
            Some(out)
        },
        _ => None,
    }
}

/// Two lists with the same document are the same list.
pub proof fn lemma_expressions_document_injective(a: Seq<ExpressionView>, b: Seq<ExpressionView>)
    requires
        expressions_document(a) == expressions_document(b),
    ensures
        a == b,
    decreases a, 1nat,
{
    let da = expressions_document(a)->Array_0;
    let db = expressions_document(b)->Array_0;
    assert(da.len() == a.len() && db.len() == b.len());
    assert forall|i: int| 0 <= i < a.len() implies a[i] == b[i] by {
        assert(da[i] == expression_document(a[i]));
        assert(db[i] == expression_document(b[i]));
        lemma_expression_document_injective(a[i], b[i]);
    }
    assert(a =~= b);
}

/// The document of a list of members of a circuit expression: the array of their documents, in order.
pub open spec fn member_inits_document(s: Seq<MemberInitView>) -> JsonView
    decreases s, 1nat,
{
    JsonView::Array(
        Seq::new(s.len(), |i: int| if 0 <= i < s.len() { member_init_document(s[i]) } else { arbitrary() }),
    )
}

/// Writes a list of members of a circuit expression as a document.
#[verifier::loop_isolation(false)]
pub fn encode_member_inits(s: &Vec<MemberInit>) -> (r: Json)
    ensures
        r@ == member_inits_document(member_inits_view(s@)),
    decreases s,
{
    let mut out: Vec<Json> = Vec::new();
    let mut i: usize = 0;
    while i < s.len()
        invariant
            i <= s.len(),
            out.len() == i,
            forall|k: int| 0 <= k < i ==> (#[trigger] out[k])@ == member_init_document(s[k]@),
        decreases s.len() - i,
    {
        out.push(encode_member_init(&s[i]));
        i = i + 1;
    }
    assert forall|k: int| 0 <= k < s.len() implies jsons_view(out@)[k] == member_inits_document(
        member_inits_view(s@),
    )->Array_0[k] by {
        assert(member_inits_view(s@)[k] == s[k]@);
        assert(jsons_view(out@)[k] == out[k]@);
    }
    assert(jsons_view(out@) =~= member_inits_document(member_inits_view(s@))->Array_0);
    Json::Array(out)
}

/// Reads a list of members of a circuit expression from the document `j`, if `j` is the document of one.
#[verifier::loop_isolation(false)]
pub fn decode_member_inits(j: &Json) -> (r: Option<Vec<MemberInit>>)
    ensures
        match r {
            Some(s) => member_inits_document(member_inits_view(s@)) == j@,
            None => forall|s: Seq<MemberInitView>| #[trigger] member_inits_document(s) != j@,
        },
    decreases j, 0nat,
{
    match j {
        Json::Array(items) => {
            let mut out: Vec<MemberInit> = Vec::new();
            let mut i: usize = 0;
            while i < items.len()
                invariant
                    i <= items.len(),
                    out.len() == i,
                    *j == Json::Array(*items),
                    forall|k: int| 0 <= k < i ==> (#[trigger] items[k])@ == member_init_document(out[k]@),
                decreases items.len() - i,
            {
                match decode_member_init(&items[i]) {
                    Some(x) => {
                        out.push(x);
                    },
                    None => {
                        assert(j@ == JsonView::Array(jsons_view(items@)));
                        assert(jsons_view(items@)[i as int] == items[i as int]@);
                        assert forall|s: Seq<MemberInitView>| #[trigger] member_inits_document(s) != j@ by {
                            if member_inits_document(s) == j@ {
                                assert(member_inits_document(s)->Array_0 == jsons_view(items@));
                                assert(member_inits_document(s)->Array_0.len() == s.len());
                                assert(jsons_view(items@).len() == items.len());
                                assert(member_inits_document(s)->Array_0[i as int] == member_init_document(s[i as int]));
                            }
                        }
                        return None;
                    },
                }
                i = i + 1;
            }
            assert forall|k: int| 0 <= k < items.len() implies jsons_view(items@)[k] == member_inits_document(
                member_inits_view(out@),
            )->Array_0[k] by {
                assert(member_inits_view(out@)[k] == out[k]@);
                assert(jsons_view(items@)[k] == items[k]@);
            }
            assert(jsons_view(items@) =~= member_inits_document(member_inits_view(out@))->Array_0);
            Some(out)
        },
        _ => None,
    }
}

/// Two lists with the same document are the same list.
pub proof fn lemma_member_inits_document_injective(a: Seq<MemberInitView>, b: Seq<MemberInitView>)
    requires
        member_inits_document(a) == member_inits_document(b),
    ensures
        a == b,
    decreases a, 1nat,
{
    let da = member_inits_document(a)->Array_0;
    let db = member_inits_document(b)->Array_0;
    assert(da.len() == a.len() && db.len() == b.len());
    assert forall|i: int| 0 <= i < a.len() implies a[i] == b[i] by {
        assert(da[i] == member_init_document(a[i]));
        assert(db[i] == member_init_document(b[i]));
        lemma_member_init_document_injective(a[i], b[i]);
    }
    assert(a =~= b);
}
} // verus!
