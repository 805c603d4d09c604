//! The documents of types and literals.

use vstd::prelude::*;
use vstd::string::StringExecFns;
use crate::document::{
    decode_flag, decode_number, decode_text, encode_flag, encode_number, encode_text, flag_document,
    has_key, members_1, members_2, number_document, text_document, text_is, variant, variant_of,
    variant_parts,
};
use crate::json::{field, json_fields_view, jsons_view, Json, JsonField, JsonFieldView, JsonView};
use crate::expression::{
    BinaryOperation, GroupCoordinate, GroupCoordinateView, Literal, LiteralView, UnaryOperation,
};
use crate::program::InputMode;
use crate::types::{optional_type_view, types_view, IntegerType, Type, TypeView};

verus! {
/// The names of the variants differ from one another.
pub proof fn lemma_integer_type_names()
    ensures
        "u8"@ != "u16"@,
        "u8"@ != "u32"@,
        "u8"@ != "u64"@,
        "u8"@ != "u128"@,
        "u8"@ != "i8"@,
        "u8"@ != "i16"@,
        "u8"@ != "i32"@,
        "u8"@ != "i64"@,
        "u8"@ != "i128"@,
        "u16"@ != "u32"@,
        "u16"@ != "u64"@,
        "u16"@ != "u128"@,
        "u16"@ != "i8"@,
        "u16"@ != "i16"@,
        "u16"@ != "i32"@,
        "u16"@ != "i64"@,
        "u16"@ != "i128"@,
        "u32"@ != "u64"@,
        "u32"@ != "u128"@,
        "u32"@ != "i8"@,
        "u32"@ != "i16"@,
        "u32"@ != "i32"@,
        "u32"@ != "i64"@,
        "u32"@ != "i128"@,
        "u64"@ != "u128"@,
        "u64"@ != "i8"@,
        "u64"@ != "i16"@,
        "u64"@ != "i32"@,
        "u64"@ != "i64"@,
        "u64"@ != "i128"@,
        "u128"@ != "i8"@,
        "u128"@ != "i16"@,
        "u128"@ != "i32"@,
        "u128"@ != "i64"@,
        "u128"@ != "i128"@,
        "i8"@ != "i16"@,
        "i8"@ != "i32"@,
        "i8"@ != "i64"@,
        "i8"@ != "i128"@,
        "i16"@ != "i32"@,
        "i16"@ != "i64"@,
        "i16"@ != "i128"@,
        "i32"@ != "i64"@,
        "i32"@ != "i128"@,
        "i64"@ != "i128"@,
{
    reveal_strlit("u8");
    reveal_strlit("u16");
    reveal_strlit("u32");
    reveal_strlit("u64");
    reveal_strlit("u128");
    reveal_strlit("i8");
    reveal_strlit("i16");
    reveal_strlit("i32");
    reveal_strlit("i64");
    reveal_strlit("i128");
    assert("u8"@.len() != "u16"@.len());
    assert("u8"@.len() != "u32"@.len());
    assert("u8"@.len() != "u64"@.len());
    assert("u8"@.len() != "u128"@.len());
    assert("u8"@[0] != "i8"@[0]);
    assert("u8"@.len() != "i16"@.len());
    assert("u8"@.len() != "i32"@.len());
    assert("u8"@.len() != "i64"@.len());
    assert("u8"@.len() != "i128"@.len());
    assert("u16"@[1] != "u32"@[1]);
    assert("u16"@[1] != "u64"@[1]);
    assert("u16"@.len() != "u128"@.len());
    assert("u16"@.len() != "i8"@.len());
    assert("u16"@[0] != "i16"@[0]);
    assert("u16"@[0] != "i32"@[0]);
    assert("u16"@[0] != "i64"@[0]);
    assert("u16"@.len() != "i128"@.len());
    assert("u32"@[1] != "u64"@[1]);
    assert("u32"@.len() != "u128"@.len());
    assert("u32"@.len() != "i8"@.len());
    assert("u32"@[0] != "i16"@[0]);
    assert("u32"@[0] != "i32"@[0]);
    assert("u32"@[0] != "i64"@[0]);
    assert("u32"@.len() != "i128"@.len());
    assert("u64"@.len() != "u128"@.len());
    assert("u64"@.len() != "i8"@.len());
    assert("u64"@[0] != "i16"@[0]);
    assert("u64"@[0] != "i32"@[0]);
    assert("u64"@[0] != "i64"@[0]);
    assert("u64"@.len() != "i128"@.len());
    assert("u128"@.len() != "i8"@.len());
    assert("u128"@.len() != "i16"@.len());
    assert("u128"@.len() != "i32"@.len());
    assert("u128"@.len() != "i64"@.len());
    assert("u128"@[0] != "i128"@[0]);
    assert("i8"@.len() != "i16"@.len());
    assert("i8"@.len() != "i32"@.len());
    assert("i8"@.len() != "i64"@.len());
    assert("i8"@.len() != "i128"@.len());
    assert("i16"@[1] != "i32"@[1]);
    assert("i16"@[1] != "i64"@[1]);
    assert("i16"@.len() != "i128"@.len());
    assert("i32"@[1] != "i64"@[1]);
    assert("i32"@.len() != "i128"@.len());
    assert("i64"@.len() != "i128"@.len());
}

/// The document of an integer type: the name of the variant, as a text where the variant
/// has no part, else as the key of the object of its parts.
pub open spec fn integer_type_document(this: IntegerType) -> JsonView
{
    match this {
        IntegerType::U8 => JsonView::Text("u8"@),
        IntegerType::U16 => JsonView::Text("u16"@),
        IntegerType::U32 => JsonView::Text("u32"@),
        IntegerType::U64 => JsonView::Text("u64"@),
        IntegerType::U128 => JsonView::Text("u128"@),
        IntegerType::I8 => JsonView::Text("i8"@),
        IntegerType::I16 => JsonView::Text("i16"@),
        IntegerType::I32 => JsonView::Text("i32"@),
        IntegerType::I64 => JsonView::Text("i64"@),
        IntegerType::I128 => JsonView::Text("i128"@),
    }
}

/// Writes an integer type as a document.
pub fn encode_integer_type(this: IntegerType) -> (r: Json)
    ensures
        r@ == integer_type_document(this),
{
    match this {
        IntegerType::U8 => Json::Text(String::from_str("u8")),
        IntegerType::U16 => Json::Text(String::from_str("u16")),
        IntegerType::U32 => Json::Text(String::from_str("u32")),
        IntegerType::U64 => Json::Text(String::from_str("u64")),
        IntegerType::U128 => Json::Text(String::from_str("u128")),
        IntegerType::I8 => Json::Text(String::from_str("i8")),
        IntegerType::I16 => Json::Text(String::from_str("i16")),
        IntegerType::I32 => Json::Text(String::from_str("i32")),
        IntegerType::I64 => Json::Text(String::from_str("i64")),
        IntegerType::I128 => Json::Text(String::from_str("i128")),
    }
}

/// Reads an integer type from the document `j`, if `j` is the document of one.
pub fn decode_integer_type(j: &Json) -> (r: Option<IntegerType>)
    ensures
        match r {
            Some(x) => integer_type_document(x) == j@,
            None => forall|x: IntegerType| #[trigger] integer_type_document(x) != j@,
        },
{
    match j {
        Json::Text(tag) => {
            if text_is(tag, "u8") {
                Some(IntegerType::U8)
            } else if text_is(tag, "u16") {
                Some(IntegerType::U16)
            } else if text_is(tag, "u32") {
                Some(IntegerType::U32)
            } else if text_is(tag, "u64") {
                Some(IntegerType::U64)
            } else if text_is(tag, "u128") {
                Some(IntegerType::U128)
            } else if text_is(tag, "i8") {
                Some(IntegerType::I8)
            } else if text_is(tag, "i16") {
                Some(IntegerType::I16)
            } else if text_is(tag, "i32") {
                Some(IntegerType::I32)
            } else if text_is(tag, "i64") {
                Some(IntegerType::I64)
            } else if text_is(tag, "i128") {
                Some(IntegerType::I128)
            } else {
                None
            }
        },
        _ => None,
    }
}

/// Two values with the same document are the same value.
pub proof fn lemma_integer_type_document_injective(a: IntegerType, b: IntegerType)
    requires
        integer_type_document(a) == integer_type_document(b),
    ensures
        a == b,
{
    lemma_integer_type_names();
    match a {
        _ => {},
    }
}

/// The names of the variants differ from one another.
pub proof fn lemma_unary_operation_names()
    ensures
        "not"@ != "negate"@,
{
    reveal_strlit("not");
    reveal_strlit("negate");
    assert("not"@.len() != "negate"@.len());
}

/// The document of a unary operator: the name of the variant, as a text where the variant
/// has no part, else as the key of the object of its parts.
pub open spec fn unary_operation_document(this: UnaryOperation) -> JsonView
{
    match this {
        UnaryOperation::Not => JsonView::Text("not"@),
        UnaryOperation::Negate => JsonView::Text("negate"@),
    }
}

/// Writes a unary operator as a document.
pub fn encode_unary_operation(this: UnaryOperation) -> (r: Json)
    ensures
        r@ == unary_operation_document(this),
{
    match this {
        UnaryOperation::Not => Json::Text(String::from_str("not")),
        UnaryOperation::Negate => Json::Text(String::from_str("negate")),
    }
}

/// Reads a unary operator from the document `j`, if `j` is the document of one.
pub fn decode_unary_operation(j: &Json) -> (r: Option<UnaryOperation>)
    ensures
        match r {
            Some(x) => unary_operation_document(x) == j@,
            None => forall|x: UnaryOperation| #[trigger] unary_operation_document(x) != j@,
        },
{
    match j {
        Json::Text(tag) => {
            if text_is(tag, "not") {
                Some(UnaryOperation::Not)
            } else if text_is(tag, "negate") {
                Some(UnaryOperation::Negate)
            } else {
                None
            }
        },
        _ => None,
    }
}

/// Two values with the same document are the same value.
pub proof fn lemma_unary_operation_document_injective(a: UnaryOperation, b: UnaryOperation)
    requires
        unary_operation_document(a) == unary_operation_document(b),
    ensures
        a == b,
{
    lemma_unary_operation_names();
    match a {
        _ => {},
    }
}

/// The names of the variants differ from one another.
pub proof fn lemma_binary_operation_names()
    ensures
        "add"@ != "sub"@,
        "add"@ != "mul"@,
        "add"@ != "div"@,
        "add"@ != "pow"@,
        "add"@ != "or"@,
        "add"@ != "and"@,
        "add"@ != "eq"@,
        "add"@ != "ne"@,
        "add"@ != "ge"@,
        "add"@ != "gt"@,
        "add"@ != "le"@,
        "add"@ != "lt"@,
        "sub"@ != "mul"@,
        "sub"@ != "div"@,
        "sub"@ != "pow"@,
        "sub"@ != "or"@,
        "sub"@ != "and"@,
        "sub"@ != "eq"@,
        "sub"@ != "ne"@,
        "sub"@ != "ge"@,
        "sub"@ != "gt"@,
        "sub"@ != "le"@,
        "sub"@ != "lt"@,
        "mul"@ != "div"@,
        "mul"@ != "pow"@,
        "mul"@ != "or"@,
        "mul"@ != "and"@,
        "mul"@ != "eq"@,
        "mul"@ != "ne"@,
        "mul"@ != "ge"@,
        "mul"@ != "gt"@,
        "mul"@ != "le"@,
        "mul"@ != "lt"@,
        "div"@ != "pow"@,
        "div"@ != "or"@,
        "div"@ != "and"@,
        "div"@ != "eq"@,
        "div"@ != "ne"@,
        "div"@ != "ge"@,
        "div"@ != "gt"@,
        "div"@ != "le"@,
        "div"@ != "lt"@,
        "pow"@ != "or"@,
        "pow"@ != "and"@,
        "pow"@ != "eq"@,
        "pow"@ != "ne"@,
        "pow"@ != "ge"@,
        "pow"@ != "gt"@,
        "pow"@ != "le"@,
        "pow"@ != "lt"@,
        "or"@ != "and"@,
        "or"@ != "eq"@,
        "or"@ != "ne"@,
        "or"@ != "ge"@,
        "or"@ != "gt"@,
        "or"@ != "le"@,
        "or"@ != "lt"@,
        "and"@ != "eq"@,
        "and"@ != "ne"@,
        "and"@ != "ge"@,
        "and"@ != "gt"@,
        "and"@ != "le"@,
        "and"@ != "lt"@,
        "eq"@ != "ne"@,
        "eq"@ != "ge"@,
        "eq"@ != "gt"@,
        "eq"@ != "le"@,
        "eq"@ != "lt"@,
        "ne"@ != "ge"@,
        "ne"@ != "gt"@,
        "ne"@ != "le"@,
        "ne"@ != "lt"@,
        "ge"@ != "gt"@,
        "ge"@ != "le"@,
        "ge"@ != "lt"@,
        "gt"@ != "le"@,
        "gt"@ != "lt"@,
        "le"@ != "lt"@,
{
    reveal_strlit("add");
    reveal_strlit("sub");
    reveal_strlit("mul");
    reveal_strlit("div");
    reveal_strlit("pow");
    reveal_strlit("or");
    reveal_strlit("and");
    reveal_strlit("eq");
    reveal_strlit("ne");
    reveal_strlit("ge");
    reveal_strlit("gt");
    reveal_strlit("le");
    reveal_strlit("lt");
    assert("add"@[0] != "sub"@[0]);
    assert("add"@[0] != "mul"@[0]);
    assert("add"@[0] != "div"@[0]);
    assert("add"@[0] != "pow"@[0]);
    assert("add"@.len() != "or"@.len());
    assert("add"@[1] != "and"@[1]);
    assert("add"@.len() != "eq"@.len());
    assert("add"@.len() != "ne"@.len());
    assert("add"@.len() != "ge"@.len());
    assert("add"@.len() != "gt"@.len());
    assert("add"@.len() != "le"@.len());
    assert("add"@.len() != "lt"@.len());
    assert("sub"@[0] != "mul"@[0]);
    assert("sub"@[0] != "div"@[0]);
    assert("sub"@[0] != "pow"@[0]);
    assert("sub"@.len() != "or"@.len());
    assert("sub"@[0] != "and"@[0]);
    assert("sub"@.len() != "eq"@.len());
    assert("sub"@.len() != "ne"@.len());
    assert("sub"@.len() != "ge"@.len());
    assert("sub"@.len() != "gt"@.len());
    assert("sub"@.len() != "le"@.len());
    assert("sub"@.len() != "lt"@.len());
    assert("mul"@[0] != "div"@[0]);
    assert("mul"@[0] != "pow"@[0]);
    assert("mul"@.len() != "or"@.len());
    assert("mul"@[0] != "and"@[0]);
    assert("mul"@.len() != "eq"@.len());
    assert("mul"@.len() != "ne"@.len());
    assert("mul"@.len() != "ge"@.len());
    assert("mul"@.len() != "gt"@.len());
    assert("mul"@.len() != "le"@.len());
    assert("mul"@.len() != "lt"@.len());
    assert("div"@[0] != "pow"@[0]);
    assert("div"@.len() != "or"@.len());
    assert("div"@[0] != "and"@[0]);
    assert("div"@.len() != "eq"@.len());
    assert("div"@.len() != "ne"@.len());
    assert("div"@.len() != "ge"@.len());
    assert("div"@.len() != "gt"@.len());
    assert("div"@.len() != "le"@.len());
    assert("div"@.len() != "lt"@.len());
    assert("pow"@.len() != "or"@.len());
    assert("pow"@[0] != "and"@[0]);
    assert("pow"@.len() != "eq"@.len());
    assert("pow"@.len() != "ne"@.len());
    assert("pow"@.len() != "ge"@.len());
    assert("pow"@.len() != "gt"@.len());
    assert("pow"@.len() != "le"@.len());
    assert("pow"@.len() != "lt"@.len());
    assert("or"@.len() != "and"@.len());
    assert("or"@[0] != "eq"@[0]);
    assert("or"@[0] != "ne"@[0]);
    assert("or"@[0] != "ge"@[0]);
    assert("or"@[0] != "gt"@[0]);
    assert("or"@[0] != "le"@[0]);
    assert("or"@[0] != "lt"@[0]);
    assert("and"@.len() != "eq"@.len());
    assert("and"@.len() != "ne"@.len());
    assert("and"@.len() != "ge"@.len());
    assert("and"@.len() != "gt"@.len());
    assert("and"@.len() != "le"@.len());
    assert("and"@.len() != "lt"@.len());
    assert("eq"@[0] != "ne"@[0]);
    assert("eq"@[0] != "ge"@[0]);
    assert("eq"@[0] != "gt"@[0]);
    assert("eq"@[0] != "le"@[0]);
    assert("eq"@[0] != "lt"@[0]);
    assert("ne"@[0] != "ge"@[0]);
    assert("ne"@[0] != "gt"@[0]);
    assert("ne"@[0] != "le"@[0]);
    assert("ne"@[0] != "lt"@[0]);
    assert("ge"@[1] != "gt"@[1]);
    assert("ge"@[0] != "le"@[0]);
    assert("ge"@[0] != "lt"@[0]);
    assert("gt"@[0] != "le"@[0]);
    assert("gt"@[0] != "lt"@[0]);
    assert("le"@[1] != "lt"@[1]);
}

/// The document of a binary operator: the name of the variant, as a text where the variant
/// has no part, else as the key of the object of its parts.
pub open spec fn binary_operation_document(this: BinaryOperation) -> JsonView
{
    match this {
        BinaryOperation::Add => JsonView::Text("add"@),
        BinaryOperation::Sub => JsonView::Text("sub"@),
        BinaryOperation::Mul => JsonView::Text("mul"@),
        BinaryOperation::Div => JsonView::Text("div"@),
        BinaryOperation::Pow => JsonView::Text("pow"@),
        BinaryOperation::Or => JsonView::Text("or"@),
        BinaryOperation::And => JsonView::Text("and"@),
        BinaryOperation::Eq => JsonView::Text("eq"@),
        BinaryOperation::Ne => JsonView::Text("ne"@),
        BinaryOperation::Ge => JsonView::Text("ge"@),
        BinaryOperation::Gt => JsonView::Text("gt"@),
        BinaryOperation::Le => JsonView::Text("le"@),
        BinaryOperation::Lt => JsonView::Text("lt"@),
    }
}

/// Writes a binary operator as a document.
pub fn encode_binary_operation(this: BinaryOperation) -> (r: Json)
    ensures
        r@ == binary_operation_document(this),
{
    match this {
        BinaryOperation::Add => Json::Text(String::from_str("add")),
        BinaryOperation::Sub => Json::Text(String::from_str("sub")),
        BinaryOperation::Mul => Json::Text(String::from_str("mul")),
        BinaryOperation::Div => Json::Text(String::from_str("div")),
        BinaryOperation::Pow => Json::Text(String::from_str("pow")),
        BinaryOperation::Or => Json::Text(String::from_str("or")),
        BinaryOperation::And => Json::Text(String::from_str("and")),
        BinaryOperation::Eq => Json::Text(String::from_str("eq")),
        BinaryOperation::Ne => Json::Text(String::from_str("ne")),
        BinaryOperation::Ge => Json::Text(String::from_str("ge")),
        BinaryOperation::Gt => Json::Text(String::from_str("gt")),
        BinaryOperation::Le => Json::Text(String::from_str("le")),
        BinaryOperation::Lt => Json::Text(String::from_str("lt")),
    }
}

/// Reads a binary operator from the document `j`, if `j` is the document of one.
pub fn decode_binary_operation(j: &Json) -> (r: Option<BinaryOperation>)
    ensures
        match r {
            Some(x) => binary_operation_document(x) == j@,
            None => forall|x: BinaryOperation| #[trigger] binary_operation_document(x) != j@,
        },
{
    match j {
        Json::Text(tag) => {
            if text_is(tag, "add") {
                Some(BinaryOperation::Add)
            } else if text_is(tag, "sub") {
                Some(BinaryOperation::Sub)
            } else if text_is(tag, "mul") {
                Some(BinaryOperation::Mul)
            } else if text_is(tag, "div") {
                Some(BinaryOperation::Div)
            } else if text_is(tag, "pow") {
                Some(BinaryOperation::Pow)
            } else if text_is(tag, "or") {
                Some(BinaryOperation::Or)
            } else if text_is(tag, "and") {
                Some(BinaryOperation::And)
            } else if text_is(tag, "eq") {
                Some(BinaryOperation::Eq)
            } else if text_is(tag, "ne") {
                Some(BinaryOperation::Ne)
            } else if text_is(tag, "ge") {
                Some(BinaryOperation::Ge)
            } else if text_is(tag, "gt") {
                Some(BinaryOperation::Gt)
            } else if text_is(tag, "le") {
                Some(BinaryOperation::Le)
            } else if text_is(tag, "lt") {
                Some(BinaryOperation::Lt)
            } else {
                None
            }
        },
        _ => None,
    }
}

/// Two values with the same document are the same value.
pub proof fn lemma_binary_operation_document_injective(a: BinaryOperation, b: BinaryOperation)
    requires
        binary_operation_document(a) == binary_operation_document(b),
    ensures
        a == b,
{
    lemma_binary_operation_names();
    match a {
        _ => {},
    }
}

/// The names of the variants differ from one another.
pub proof fn lemma_input_mode_names()
    ensures
        "value"@ != "constant"@,
        "value"@ != "reference"@,
        "constant"@ != "reference"@,
{
    reveal_strlit("value");
    reveal_strlit("constant");
    reveal_strlit("reference");
    assert("value"@.len() != "constant"@.len());
    assert("value"@.len() != "reference"@.len());
    assert("constant"@.len() != "reference"@.len());
}

/// The document of the mode of a parameter: the name of the variant, as a text where the variant
/// has no part, else as the key of the object of its parts.
pub open spec fn input_mode_document(this: InputMode) -> JsonView
{
    match this {
        InputMode::Value => JsonView::Text("value"@),
        InputMode::Constant => JsonView::Text("constant"@),
        InputMode::Reference => JsonView::Text("reference"@),
    }
}

/// Writes the mode of a parameter as a document.
pub fn encode_input_mode(this: InputMode) -> (r: Json)
    ensures
        r@ == input_mode_document(this),
{
    match this {
        InputMode::Value => Json::Text(String::from_str("value")),
        InputMode::Constant => Json::Text(String::from_str("constant")),
        InputMode::Reference => Json::Text(String::from_str("reference")),
    }
}

/// Reads the mode of a parameter from the document `j`, if `j` is the document of one.
pub fn decode_input_mode(j: &Json) -> (r: Option<InputMode>)
    ensures
        match r {
            Some(x) => input_mode_document(x) == j@,
            None => forall|x: InputMode| #[trigger] input_mode_document(x) != j@,
        },
{
    match j {
        Json::Text(tag) => {
            if text_is(tag, "value") {
                Some(InputMode::Value)
            } else if text_is(tag, "constant") {
                Some(InputMode::Constant)
            } else if text_is(tag, "reference") {
                Some(InputMode::Reference)
            } else {
                None
            }
        },
        _ => None,
    }
}

/// Two values with the same document are the same value.
pub proof fn lemma_input_mode_document_injective(a: InputMode, b: InputMode)
    requires
        input_mode_document(a) == input_mode_document(b),
    ensures
        a == b,
{
    lemma_input_mode_names();
    match a {
        _ => {},
    }
}

/// The document of a binary operator that may be missing: its document, or `null` where
/// it is missing.
pub open spec fn optional_binary_operation_document(x: Option<BinaryOperation>) -> JsonView
{
    match x {
        Some(x) => binary_operation_document(x),
        None => JsonView::Null,
    }
}

/// Writes a binary operator that may be missing as a document.
pub fn encode_optional_binary_operation(x: &Option<BinaryOperation>) -> (r: Json)
    ensures
        r@ == optional_binary_operation_document(*x),
{
    match x {
        Some(x) => encode_binary_operation(*x),
        None => Json::Null,
    }
}

/// Reads a binary operator that may be missing from the document `j`.
pub fn decode_optional_binary_operation(j: &Json) -> (r: Option<Option<BinaryOperation>>)
    ensures
        match r {
            Some(x) => optional_binary_operation_document(x) == j@,
            None => forall|x: Option<BinaryOperation>| #[trigger] optional_binary_operation_document(x) != j@,
        },
{
    match j {
        Json::Null => Some(None),
        _ => {
            assert(j@ != JsonView::Null);
            match decode_binary_operation(j) {
                Some(x) => Some(Some(x)),
                None => {
                    assert forall|x: Option<BinaryOperation>| #[trigger] optional_binary_operation_document(x) != j@ by {
                        match x {
                            Some(inner) => {
                                assert(binary_operation_document(inner) != j@);
                            },
                            None => {},
                        }
                    }
                    None
                },
            }
        },
    }
}

/// Two optional values with the same document are the same.
pub proof fn lemma_optional_binary_operation_document_injective(a: Option<BinaryOperation>, b: Option<BinaryOperation>)
    requires
        optional_binary_operation_document(a) == optional_binary_operation_document(b),
    ensures
        a == b,
{
    match (a, b) {
        (Some(x), Some(y)) => {
            lemma_binary_operation_document_injective(x, y);
        },
        _ => {},
    }
}

/// The names of the variants differ from one another.
pub proof fn lemma_type_names()
    ensures
        "bool"@ != "field"@,
        "bool"@ != "group"@,
        "bool"@ != "address"@,
        "bool"@ != "string"@,
        "bool"@ != "unresolved"@,
        "field"@ != "group"@,
        "field"@ != "address"@,
        "field"@ != "string"@,
        "field"@ != "unresolved"@,
        "group"@ != "address"@,
        "group"@ != "string"@,
        "group"@ != "unresolved"@,
        "address"@ != "string"@,
        "address"@ != "unresolved"@,
        "string"@ != "unresolved"@,
        "integer"@ != "array"@,
        "integer"@ != "tuple"@,
        "integer"@ != "circuit"@,
        "array"@ != "tuple"@,
        "array"@ != "circuit"@,
        "tuple"@ != "circuit"@,
{
    reveal_strlit("bool");
    reveal_strlit("field");
    reveal_strlit("group");
    reveal_strlit("address");
    reveal_strlit("string");
    reveal_strlit("unresolved");
    reveal_strlit("integer");
    reveal_strlit("array");
    reveal_strlit("tuple");
    reveal_strlit("circuit");
    assert("bool"@.len() != "field"@.len());
    assert("bool"@.len() != "group"@.len());
    assert("bool"@.len() != "address"@.len());
    assert("bool"@.len() != "string"@.len());
    assert("bool"@.len() != "unresolved"@.len());
    assert("field"@[0] != "group"@[0]);
    assert("field"@.len() != "address"@.len());
    assert("field"@.len() != "string"@.len());
    assert("field"@.len() != "unresolved"@.len());
    assert("group"@.len() != "address"@.len());
    assert("group"@.len() != "string"@.len());
    assert("group"@.len() != "unresolved"@.len());
    assert("address"@.len() != "string"@.len());
    assert("address"@.len() != "unresolved"@.len());
    assert("string"@.len() != "unresolved"@.len());
    assert("integer"@.len() != "array"@.len());
    assert("integer"@.len() != "tuple"@.len());
    assert("integer"@[0] != "circuit"@[0]);
    assert("array"@[0] != "tuple"@[0]);
    assert("array"@.len() != "circuit"@.len());
    assert("tuple"@.len() != "circuit"@.len());
}

/// The document of a type: the name of the variant, as a text where the variant
/// has no part, else as the key of the object of its parts.
pub open spec fn type_document(this: TypeView) -> JsonView
    decreases this, 0nat,
{
    match this {
        TypeView::Boolean => JsonView::Text("bool"@),
        TypeView::Field => JsonView::Text("field"@),
        TypeView::Group => JsonView::Text("group"@),
        TypeView::Address => JsonView::Text("address"@),
        TypeView::Text => JsonView::Text("string"@),
        TypeView::Integer(kind) => variant(
            "integer"@,
            seq![
                field("kind"@, integer_type_document(kind)),
            ],
        ),
        TypeView::Array(element, length) => variant(
            "array"@,
            seq![
                field("element"@, type_document(*element)),
                field("length"@, number_document(length)),
            ],
        ),
        TypeView::Tuple(elements) => variant(
            "tuple"@,
            seq![
                field("elements"@, types_document(elements)),
            ],
        ),
        TypeView::Named(name) => variant(
            "circuit"@,
            seq![
                field("name"@, text_document(name)),
            ],
        ),
        TypeView::Unresolved => JsonView::Text("unresolved"@),
    }
}

/// A document of the variant `integer` is the document of a value of that variant,
/// and its members are the documents of the parts.
pub proof fn lemma_type_integer_members(subject: TypeView, listed: Seq<JsonFieldView>)
    requires
        type_document(subject) == variant("integer"@, listed),
    ensures
        subject matches TypeView::Integer(kind)
        && listed.len() == 1
        && listed[0] == field("kind"@, integer_type_document(kind)),
{
    lemma_type_names();
    assert(type_document(subject)->Object_0[0] == variant("integer"@, listed)->Object_0[0]);
    match subject {
        TypeView::Integer(kind) => {
            let parts = type_document(subject)->Object_0[0].value->Object_0;
            assert(parts == listed);
            assert(parts.len() == 1);
            assert(parts[0] == field("kind"@, integer_type_document(kind)));
        },
        _ => {},
    }
}

/// Reads the parts of the variant `integer` from the members `fields`.
fn decode_type_integer(fields: &Vec<JsonField>) -> (r: Option<Type>)
    requires
        forall|i: int| 0 <= i < fields.len() ==> json_fields_view(fields@)[i] == (#[trigger] fields@[i])@,
    ensures
        match r {
            Some(x) => type_document(x@) == variant("integer"@, json_fields_view(fields@)),
            None => forall|x: TypeView|
                #[trigger] type_document(x) != variant("integer"@, json_fields_view(fields@)),
        },
    decreases fields, 0nat,
{
    let ghost whole = variant("integer"@, json_fields_view(fields@));
    let ghost listed = json_fields_view(fields@);
    assert forall|subject: TypeView| #[trigger] type_document(subject) == whole implies
        subject matches TypeView::Integer(kind)
        && listed.len() == 1
        && listed[0] == field("kind"@, integer_type_document(kind)) by {
        lemma_type_integer_members(subject, listed);
    }
    if fields.len() != 1 {
        return None;
    }
    if !has_key(&fields[0], "kind") {
        return None;
    }
    let kind = match decode_integer_type(&fields[0].value) {
        Some(x) => x,
        None => return None,
    };
    let x = Type::Integer(kind);
    assert(json_fields_view(fields@) =~= type_document(x@)->Object_0[0].value->Object_0);
    Some(x)
}

/// Two values with the same document, one of them of the variant `integer`, are the
/// same value.
proof fn lemma_type_integer_injective(a: TypeView, b: TypeView)
    requires
        a is Integer,
        type_document(a) == type_document(b),
    ensures
        a == b,
    decreases a, 0nat,
{
    let listed = type_document(a)->Object_0[0].value->Object_0;
    assert(type_document(a) == variant("integer"@, listed));
    lemma_type_integer_members(a, listed);
    lemma_type_integer_members(b, listed);
    match (a, b) {
        (TypeView::Integer(a_kind), TypeView::Integer(b_kind)) => {
            lemma_integer_type_document_injective(a_kind, b_kind);
        },
        _ => {},
    }
}

/// A document of the variant `array` is the document of a value of that variant,
/// and its members are the documents of the parts.
pub proof fn lemma_type_array_members(subject: TypeView, listed: Seq<JsonFieldView>)
    requires
        type_document(subject) == variant("array"@, listed),
    ensures
        subject matches TypeView::Array(element, length)
        && listed.len() == 2
        && listed[0] == field("element"@, type_document(*element))
        && listed[1] == field("length"@, number_document(length)),
{
    lemma_type_names();
    assert(type_document(subject)->Object_0[0] == variant("array"@, listed)->Object_0[0]);
    match subject {
        TypeView::Array(element, length) => {
            let parts = type_document(subject)->Object_0[0].value->Object_0;
            assert(parts == listed);
            assert(parts.len() == 2);
            assert(parts[0] == field("element"@, type_document(*element)));
            assert(parts[1] == field("length"@, number_document(length)));
        },
        _ => {},
    }
}

/// Reads the parts of the variant `array` from the members `fields`.
fn decode_type_array(fields: &Vec<JsonField>) -> (r: Option<Type>)
    requires
        forall|i: int| 0 <= i < fields.len() ==> json_fields_view(fields@)[i] == (#[trigger] fields@[i])@,
    ensures
        match r {
            Some(x) => type_document(x@) == variant("array"@, json_fields_view(fields@)),
            None => forall|x: TypeView|
                #[trigger] type_document(x) != variant("array"@, json_fields_view(fields@)),
        },
    decreases fields, 0nat,
{
    let ghost whole = variant("array"@, json_fields_view(fields@));
    let ghost listed = json_fields_view(fields@);
    assert forall|subject: TypeView| #[trigger] type_document(subject) == whole implies
        subject matches TypeView::Array(element, length)
        && listed.len() == 2
        && listed[0] == field("element"@, type_document(*element))
        && listed[1] == field("length"@, number_document(length)) by {
        lemma_type_array_members(subject, listed);
    }
    if fields.len() != 2 {
        return None;
    }
    if !has_key(&fields[0], "element") {
        return None;
    }
    if !has_key(&fields[1], "length") {
        return None;
    }
    let element = match decode_type(&fields[0].value) {
        Some(x) => Box::new(x),
        None => return None,
    };
    let length = match decode_number(&fields[1].value) {
        Some(x) => x,
        None => return None,
    };
    let x = Type::Array(element, length);
    assert(json_fields_view(fields@) =~= type_document(x@)->Object_0[0].value->Object_0);
    Some(x)
}

/// Two values with the same document, one of them of the variant `array`, are the
/// same value.
proof fn lemma_type_array_injective(a: TypeView, b: TypeView)
    requires
        a is Array,
        type_document(a) == type_document(b),
    ensures
        a == b,
    decreases a, 0nat,
{
    let listed = type_document(a)->Object_0[0].value->Object_0;
    assert(type_document(a) == variant("array"@, listed));
    lemma_type_array_members(a, listed);
    lemma_type_array_members(b, listed);
    match (a, b) {
        (TypeView::Array(a_element, a_length), TypeView::Array(b_element, b_length)) => {
            lemma_type_document_injective(*a_element, *b_element);
        },
        _ => {},
    }
}

/// A document of the variant `tuple` is the document of a value of that variant,
/// and its members are the documents of the parts.
pub proof fn lemma_type_tuple_members(subject: TypeView, listed: Seq<JsonFieldView>)
    requires
        type_document(subject) == variant("tuple"@, listed),
    ensures
        subject matches TypeView::Tuple(elements)
        && listed.len() == 1
        && listed[0] == field("elements"@, types_document(elements)),
{
    lemma_type_names();
    assert(type_document(subject)->Object_0[0] == variant("tuple"@, listed)->Object_0[0]);
    match subject {
        TypeView::Tuple(elements) => {
            let parts = type_document(subject)->Object_0[0].value->Object_0;
            assert(parts == listed);
            assert(parts.len() == 1);
            assert(parts[0] == field("elements"@, types_document(elements)));
        },
        _ => {},
    }
}

/// Reads the parts of the variant `tuple` from the members `fields`.
fn decode_type_tuple(fields: &Vec<JsonField>) -> (r: Option<Type>)
    requires
        forall|i: int| 0 <= i < fields.len() ==> json_fields_view(fields@)[i] == (#[trigger] fields@[i])@,
    ensures
        match r {
            Some(x) => type_document(x@) == variant("tuple"@, json_fields_view(fields@)),
            None => forall|x: TypeView|
                #[trigger] type_document(x) != variant("tuple"@, json_fields_view(fields@)),
        },
    decreases fields, 0nat,
{
    let ghost whole = variant("tuple"@, json_fields_view(fields@));
    let ghost listed = json_fields_view(fields@);
    assert forall|subject: TypeView| #[trigger] type_document(subject) == whole implies
        subject matches TypeView::Tuple(elements)
        && listed.len() == 1
        && listed[0] == field("elements"@, types_document(elements)) by {
        lemma_type_tuple_members(subject, listed);
    }
    if fields.len() != 1 {
        return None;
    }
    if !has_key(&fields[0], "elements") {
        return None;
    }
    let elements = match decode_types(&fields[0].value) {
        Some(x) => x,
        None => return None,
    };
    let x = Type::Tuple(elements);
    assert(json_fields_view(fields@) =~= type_document(x@)->Object_0[0].value->Object_0);
    Some(x)
}

/// Two values with the same document, one of them of the variant `tuple`, are the
/// same value.
proof fn lemma_type_tuple_injective(a: TypeView, b: TypeView)
    requires
        a is Tuple,
        type_document(a) == type_document(b),
    ensures
        a == b,
    decreases a, 0nat,
{
    let listed = type_document(a)->Object_0[0].value->Object_0;
    assert(type_document(a) == variant("tuple"@, listed));
    lemma_type_tuple_members(a, listed);
    lemma_type_tuple_members(b, listed);
    match (a, b) {
        (TypeView::Tuple(a_elements), TypeView::Tuple(b_elements)) => {
            lemma_types_document_injective(a_elements, b_elements);
        },
        _ => {},
    }
}

/// A document of the variant `circuit` is the document of a value of that variant,
/// and its members are the documents of the parts.
pub proof fn lemma_type_circuit_members(subject: TypeView, listed: Seq<JsonFieldView>)
    requires
        type_document(subject) == variant("circuit"@, listed),
    ensures
        subject matches TypeView::Named(name)
        && listed.len() == 1
        && listed[0] == field("name"@, text_document(name)),
{
    lemma_type_names();
    assert(type_document(subject)->Object_0[0] == variant("circuit"@, listed)->Object_0[0]);
    match subject {
        TypeView::Named(name) => {
            let parts = type_document(subject)->Object_0[0].value->Object_0;
            assert(parts == listed);
            assert(parts.len() == 1);
            assert(parts[0] == field("name"@, text_document(name)));
        },
        _ => {},
    }
}

/// Reads the parts of the variant `circuit` from the members `fields`.
fn decode_type_circuit(fields: &Vec<JsonField>) -> (r: Option<Type>)
    requires
        forall|i: int| 0 <= i < fields.len() ==> json_fields_view(fields@)[i] == (#[trigger] fields@[i])@,
    ensures
        match r {
            Some(x) => type_document(x@) == variant("circuit"@, json_fields_view(fields@)),
            None => forall|x: TypeView|
                #[trigger] type_document(x) != variant("circuit"@, json_fields_view(fields@)),
        },
    decreases fields, 0nat,
{
    let ghost whole = variant("circuit"@, json_fields_view(fields@));
    let ghost listed = json_fields_view(fields@);
    assert forall|subject: TypeView| #[trigger] type_document(subject) == whole implies
        subject matches TypeView::Named(name)
        && listed.len() == 1
        && listed[0] == field("name"@, text_document(name)) by {
        lemma_type_circuit_members(subject, listed);
    }
    if fields.len() != 1 {
        return None;
    }
    if !has_key(&fields[0], "name") {
        return None;
    }
    let name = match decode_text(&fields[0].value) {
        Some(x) => x,
        None => return None,
    };
    let x = Type::Named(name);
    assert(json_fields_view(fields@) =~= type_document(x@)->Object_0[0].value->Object_0);
    Some(x)
}

/// Two values with the same document, one of them of the variant `circuit`, are the
/// same value.
proof fn lemma_type_circuit_injective(a: TypeView, b: TypeView)
    requires
        a is Named,
        type_document(a) == type_document(b),
    ensures
        a == b,
    decreases a, 0nat,
{
    let listed = type_document(a)->Object_0[0].value->Object_0;
    assert(type_document(a) == variant("circuit"@, listed));
    lemma_type_circuit_members(a, listed);
    lemma_type_circuit_members(b, listed);
    match (a, b) {
        (TypeView::Named(a_name), TypeView::Named(b_name)) => {
        },
        _ => {},
    }
}

/// Writes a type as a document.
pub fn encode_type(this: &Type) -> (r: Json)
    ensures
        r@ == type_document(this@),
    decreases this,
{
    match this {
        Type::Boolean => Json::Text(String::from_str("bool")),
        Type::Field => Json::Text(String::from_str("field")),
        Type::Group => Json::Text(String::from_str("group")),
        Type::Address => Json::Text(String::from_str("address")),
        Type::Text => Json::Text(String::from_str("string")),
        Type::Integer(kind) => variant_of(
            "integer",
            members_1(
                "kind",
                encode_integer_type(*kind),
            ),
        ),
        Type::Array(element, length) => variant_of(
            "array",
            members_2(
                "element",
                encode_type(&**element),
                "length",
                encode_number(*length),
            ),
        ),
        Type::Tuple(elements) => variant_of(
            "tuple",
            members_1(
                "elements",
                encode_types(elements),
            ),
        ),
        Type::Named(name) => variant_of(
            "circuit",
            members_1(
                "name",
                encode_text(name),
            ),
        ),
        Type::Unresolved => Json::Text(String::from_str("unresolved")),
    }
}

/// Reads a type from the document `j`, if `j` is the document of one.
pub fn decode_type(j: &Json) -> (r: Option<Type>)
    ensures
        match r {
            Some(x) => type_document(x@) == j@,
            None => forall|x: TypeView| #[trigger] type_document(x) != j@,
        },
    decreases j, 0nat,
{
    match j {
        Json::Text(tag) => {
            if text_is(tag, "bool") {
                Some(Type::Boolean)
            } else if text_is(tag, "field") {
                Some(Type::Field)
            } else if text_is(tag, "group") {
                Some(Type::Group)
            } else if text_is(tag, "address") {
                Some(Type::Address)
            } else if text_is(tag, "string") {
                Some(Type::Text)
            } else if text_is(tag, "unresolved") {
                Some(Type::Unresolved)
            } else {
                None
            }
        },
        _ => {
            let (tag, fields) = match variant_parts(j) {
                Some(parts) => parts,
                None => {
                    assert forall|x: TypeView| #[trigger] type_document(x) != j@ by {
                        if type_document(x) == j@ {
                            assert(type_document(x) == variant(
                                type_document(x)->Object_0[0].key,
                                type_document(x)->Object_0[0].value->Object_0,
                            ));
                        }
                    }
                    return None;
                },
            };
            if text_is(tag, "integer") {
                decode_type_integer(fields)
            } else if text_is(tag, "array") {
                decode_type_array(fields)
            } else if text_is(tag, "tuple") {
                decode_type_tuple(fields)
            } else if text_is(tag, "circuit") {
                decode_type_circuit(fields)
            } else {
                assert forall|x: TypeView| #[trigger] type_document(x) != j@ by {
                    if type_document(x) == j@ {
                        assert(type_document(x)->Object_0[0] == j@->Object_0[0]);
                    }
                }
                None
            }
        },
    }
}

/// Two values with the same document are the same value.
pub proof fn lemma_type_document_injective(a: TypeView, b: TypeView)
    requires
        type_document(a) == type_document(b),
    ensures
        a == b,
    decreases a, 1nat,
{
    lemma_type_names();
    match a {
        TypeView::Integer(..) => {
            lemma_type_integer_injective(a, b);
        },
        TypeView::Array(..) => {
            lemma_type_array_injective(a, b);
        },
        TypeView::Tuple(..) => {
            lemma_type_tuple_injective(a, b);
        },
        TypeView::Named(..) => {
            lemma_type_circuit_injective(a, b);
        },
        _ => {},
    }
}

/// The document of a list of types: the array of their documents, in order.
pub open spec fn types_document(s: Seq<TypeView>) -> JsonView
    decreases s, 1nat,
{
    JsonView::Array(
        Seq::new(s.len(), |i: int| if 0 <= i < s.len() { type_document(s[i]) } else { arbitrary() }),
    )
}

/// Writes a list of types as a document.
#[verifier::loop_isolation(false)]
pub fn encode_types(s: &Vec<Type>) -> (r: Json)
    ensures
        r@ == types_document(types_view(s@)),
    decreases s,
{
    let mut out: Vec<Json> = Vec::new();
    let mut i: usize = 0;
    while i < s.len()
        invariant
            i <= s.len(),
            out.len() == i,
            forall|k: int| 0 <= k < i ==> (#[trigger] out[k])@ == type_document(s[k]@),
        decreases s.len() - i,
    {
        out.push(encode_type(&s[i]));
        i = i + 1;
    }
    assert forall|k: int| 0 <= k < s.len() implies jsons_view(out@)[k] == types_document(
        types_view(s@),
    )->Array_0[k] by {
        assert(types_view(s@)[k] == s[k]@);
        assert(jsons_view(out@)[k] == out[k]@);
    }
    assert(jsons_view(out@) =~= types_document(types_view(s@))->Array_0);
    Json::Array(out)
}

/// Reads a list of types from the document `j`, if `j` is the document of one.
#[verifier::loop_isolation(false)]
pub fn decode_types(j: &Json) -> (r: Option<Vec<Type>>)
    ensures
        match r {
            Some(s) => types_document(types_view(s@)) == j@,
            None => forall|s: Seq<TypeView>| #[trigger] types_document(s) != j@,
        },
    decreases j, 0nat,
{
    match j {
        Json::Array(items) => {
            let mut out: Vec<Type> = Vec::new();
            let mut i: usize = 0;
            while i < items.len()
                invariant
                    i <= items.len(),
                    out.len() == i,
                    *j == Json::Array(*items),
                    forall|k: int| 0 <= k < i ==> (#[trigger] items[k])@ == type_document(out[k]@),
                decreases items.len() - i,
            {
                match decode_type(&items[i]) {
                    Some(x) => {
                        out.push(x);
                    },
                    None => {
                        assert(j@ == JsonView::Array(jsons_view(items@)));
                        assert(jsons_view(items@)[i as int] == items[i as int]@);
                        assert forall|s: Seq<TypeView>| #[trigger] types_document(s) != j@ by {
                            if types_document(s) == j@ {
                                assert(types_document(s)->Array_0 == jsons_view(items@));
                                assert(types_document(s)->Array_0.len() == s.len());
                                assert(jsons_view(items@).len() == items.len());
                                assert(types_document(s)->Array_0[i as int] == type_document(s[i as int]));
                            }
                        }
                        return None;
                    },
                }
                i = i + 1;
            }
            assert forall|k: int| 0 <= k < items.len() implies jsons_view(items@)[k] == types_document(
                types_view(out@),
            )->Array_0[k] by {
                assert(types_view(out@)[k] == out[k]@);
                assert(jsons_view(items@)[k] == items[k]@);
            }
            assert(jsons_view(items@) =~= types_document(types_view(out@))->Array_0);
            Some(out)
        },
        _ => None,
    }
}

/// Two lists with the same document are the same list.
pub proof fn lemma_types_document_injective(a: Seq<TypeView>, b: Seq<TypeView>)
    requires
        types_document(a) == types_document(b),
    ensures
        a == b,
    decreases a, 1nat,
{
    let da = types_document(a)->Array_0;
    let db = types_document(b)->Array_0;
    assert(da.len() == a.len() && db.len() == b.len());
    assert forall|i: int| 0 <= i < a.len() implies a[i] == b[i] by {
        assert(da[i] == type_document(a[i]));
        assert(db[i] == type_document(b[i]));
        lemma_type_document_injective(a[i], b[i]);
    }
    assert(a =~= b);
}

/// The document of a type that may be missing: its document, or `null` where
/// it is missing.
pub open spec fn optional_type_document(x: Option<TypeView>) -> JsonView
{
    match x {
        Some(x) => type_document(x),
        None => JsonView::Null,
    }
}

/// Writes a type that may be missing as a document.
pub fn encode_optional_type(x: &Option<Type>) -> (r: Json)
    ensures
        r@ == optional_type_document(optional_type_view(*x)),
{
    match x {
        Some(x) => encode_type(x),
        None => Json::Null,
    }
}

/// Reads a type that may be missing from the document `j`.
pub fn decode_optional_type(j: &Json) -> (r: Option<Option<Type>>)
    ensures
        match r {
            Some(x) => optional_type_document(optional_type_view(x)) == j@,
            None => forall|x: Option<TypeView>| #[trigger] optional_type_document(x) != j@,
        },
{
    match j {
        Json::Null => Some(None),
        _ => {
            assert(j@ != JsonView::Null);
            match decode_type(j) {
                Some(x) => Some(Some(x)),
                None => {
                    assert forall|x: Option<TypeView>| #[trigger] optional_type_document(x) != j@ by {
                        match x {
                            Some(inner) => {
                                assert(type_document(inner) != j@);
                            },
                            None => {},
                        }
                    }
                    None
                },
            }
        },
    }
}

/// Two optional values with the same document are the same.
pub proof fn lemma_optional_type_document_injective(a: Option<TypeView>, b: Option<TypeView>)
    requires
        optional_type_document(a) == optional_type_document(b),
    ensures
        a == b,
{
    match (a, b) {
        (Some(x), Some(y)) => {
            lemma_type_document_injective(x, y);
        },
        _ => {},
    }
}

/// The names of the variants differ from one another.
pub proof fn lemma_group_coordinate_names()
    ensures
        "sign_high"@ != "sign_low"@,
        "sign_high"@ != "inferred"@,
        "sign_low"@ != "inferred"@,
{
    reveal_strlit("sign_high");
    reveal_strlit("sign_low");
    reveal_strlit("inferred");
    reveal_strlit("number");
    assert("sign_high"@.len() != "sign_low"@.len());
    assert("sign_high"@.len() != "inferred"@.len());
    assert("sign_low"@[0] != "inferred"@[0]);
}

/// The document of a coordinate of a group literal: the name of the variant, as a text where the variant
/// has no part, else as the key of the object of its parts.
pub open spec fn group_coordinate_document(this: GroupCoordinateView) -> JsonView
{
    match this {
        GroupCoordinateView::Number(digits) => variant(
            "number"@,
            seq![
                field("digits"@, text_document(digits)),
            ],
        ),
        GroupCoordinateView::SignHigh => JsonView::Text("sign_high"@),
        GroupCoordinateView::SignLow => JsonView::Text("sign_low"@),
        GroupCoordinateView::Inferred => JsonView::Text("inferred"@),
    }
}

/// A document of the variant `number` is the document of a value of that variant,
/// and its members are the documents of the parts.
pub proof fn lemma_group_coordinate_number_members(subject: GroupCoordinateView, listed: Seq<JsonFieldView>)
    requires
        group_coordinate_document(subject) == variant("number"@, listed),
    ensures
        subject matches GroupCoordinateView::Number(digits)
        && listed.len() == 1
        && listed[0] == field("digits"@, text_document(digits)),
{
    assert(group_coordinate_document(subject)->Object_0[0] == variant("number"@, listed)->Object_0[0]);
    match subject {
        GroupCoordinateView::Number(digits) => {
            let parts = group_coordinate_document(subject)->Object_0[0].value->Object_0;
            assert(parts == listed);
            assert(parts.len() == 1);
            assert(parts[0] == field("digits"@, text_document(digits)));
        },
        _ => {},
    }
}

/// Reads the parts of the variant `number` from the members `fields`.
fn decode_group_coordinate_number(fields: &Vec<JsonField>) -> (r: Option<GroupCoordinate>)
    requires
        forall|i: int| 0 <= i < fields.len() ==> json_fields_view(fields@)[i] == (#[trigger] fields@[i])@,
    ensures
        match r {
            Some(x) => group_coordinate_document(x@) == variant("number"@, json_fields_view(fields@)),
            None => forall|x: GroupCoordinateView|
                #[trigger] group_coordinate_document(x) != variant("number"@, json_fields_view(fields@)),
        },
{
    let ghost whole = variant("number"@, json_fields_view(fields@));
    let ghost listed = json_fields_view(fields@);
    assert forall|subject: GroupCoordinateView| #[trigger] group_coordinate_document(subject) == whole implies
        subject matches GroupCoordinateView::Number(digits)
        && listed.len() == 1
        && listed[0] == field("digits"@, text_document(digits)) by {
        lemma_group_coordinate_number_members(subject, listed);
    }
    if fields.len() != 1 {
        return None;
    }
    if !has_key(&fields[0], "digits") {
        return None;
    }
    let digits = match decode_text(&fields[0].value) {
        Some(x) => x,
        None => return None,
    };
    let x = GroupCoordinate::Number(digits);
    assert(json_fields_view(fields@) =~= group_coordinate_document(x@)->Object_0[0].value->Object_0);
    Some(x)
}

/// Two values with the same document, one of them of the variant `number`, are the
/// same value.
proof fn lemma_group_coordinate_number_injective(a: GroupCoordinateView, b: GroupCoordinateView)
    requires
        a is Number,
        group_coordinate_document(a) == group_coordinate_document(b),
    ensures
        a == b,
{
    let listed = group_coordinate_document(a)->Object_0[0].value->Object_0;
    assert(group_coordinate_document(a) == variant("number"@, listed));
    lemma_group_coordinate_number_members(a, listed);
    lemma_group_coordinate_number_members(b, listed);
    match (a, b) {
        (GroupCoordinateView::Number(a_digits), GroupCoordinateView::Number(b_digits)) => {
        },
        _ => {},
    }
}

/// Writes a coordinate of a group literal as a document.
pub fn encode_group_coordinate(this: &GroupCoordinate) -> (r: Json)
    ensures
        r@ == group_coordinate_document(this@),
{
    match this {
        GroupCoordinate::Number(digits) => variant_of(
            "number",
            members_1(
                "digits",
                encode_text(digits),
            ),
        ),
        GroupCoordinate::SignHigh => Json::Text(String::from_str("sign_high")),
        GroupCoordinate::SignLow => Json::Text(String::from_str("sign_low")),
        GroupCoordinate::Inferred => Json::Text(String::from_str("inferred")),
    }
}

/// Reads a coordinate of a group literal from the document `j`, if `j` is the document of one.
pub fn decode_group_coordinate(j: &Json) -> (r: Option<GroupCoordinate>)
    ensures
        match r {
            Some(x) => group_coordinate_document(x@) == j@,
            None => forall|x: GroupCoordinateView| #[trigger] group_coordinate_document(x) != j@,
        },
{
    match j {
        Json::Text(tag) => {
            if text_is(tag, "sign_high") {
                Some(GroupCoordinate::SignHigh)
            } else if text_is(tag, "sign_low") {
                Some(GroupCoordinate::SignLow)
            } else if text_is(tag, "inferred") {
                Some(GroupCoordinate::Inferred)
            } else {
                None
            }
        },
        _ => {
            let (tag, fields) = match variant_parts(j) {
                Some(parts) => parts,
                None => {
                    assert forall|x: GroupCoordinateView| #[trigger] group_coordinate_document(x) != j@ by {
                        if group_coordinate_document(x) == j@ {
                            assert(group_coordinate_document(x) == variant(
                                group_coordinate_document(x)->Object_0[0].key,
                                group_coordinate_document(x)->Object_0[0].value->Object_0,
                            ));
                        }
                    }
                    return None;
                },
            };
            if text_is(tag, "number") {
                decode_group_coordinate_number(fields)
            } else {
                assert forall|x: GroupCoordinateView| #[trigger] group_coordinate_document(x) != j@ by {
                    if group_coordinate_document(x) == j@ {
                        assert(group_coordinate_document(x)->Object_0[0] == j@->Object_0[0]);
                    }
                }
                None
            }
        },
    }
}

/// Two values with the same document are the same value.
pub proof fn lemma_group_coordinate_document_injective(a: GroupCoordinateView, b: GroupCoordinateView)
    requires
        group_coordinate_document(a) == group_coordinate_document(b),
    ensures
        a == b,
{
    lemma_group_coordinate_names();
    match a {
        GroupCoordinateView::Number(..) => {
            lemma_group_coordinate_number_injective(a, b);
        },
        _ => {},
    }
}

/// The names of the variants differ from one another.
pub proof fn lemma_literal_names()
    ensures
        "boolean"@ != "integer"@,
        "boolean"@ != "field"@,
        "boolean"@ != "group"@,
        "boolean"@ != "group_pair"@,
        "boolean"@ != "address"@,
        "boolean"@ != "string"@,
        "integer"@ != "field"@,
        "integer"@ != "group"@,
        "integer"@ != "group_pair"@,
        "integer"@ != "address"@,
        "integer"@ != "string"@,
        "field"@ != "group"@,
        "field"@ != "group_pair"@,
        "field"@ != "address"@,
        "field"@ != "string"@,
        "group"@ != "group_pair"@,
        "group"@ != "address"@,
        "group"@ != "string"@,
        "group_pair"@ != "address"@,
        "group_pair"@ != "string"@,
        "address"@ != "string"@,
{
    reveal_strlit("boolean");
    reveal_strlit("integer");
    reveal_strlit("field");
    reveal_strlit("group");
    reveal_strlit("group_pair");
    reveal_strlit("address");
    reveal_strlit("string");
    assert("boolean"@[0] != "integer"@[0]);
    assert("boolean"@.len() != "field"@.len());
    assert("boolean"@.len() != "group"@.len());
    assert("boolean"@.len() != "group_pair"@.len());
    assert("boolean"@[0] != "address"@[0]);
    assert("boolean"@.len() != "string"@.len());
    assert("integer"@.len() != "field"@.len());
    assert("integer"@.len() != "group"@.len());
    assert("integer"@.len() != "group_pair"@.len());
    assert("integer"@[0] != "address"@[0]);
    assert("integer"@.len() != "string"@.len());
    assert("field"@[0] != "group"@[0]);
    assert("field"@.len() != "group_pair"@.len());
    assert("field"@.len() != "address"@.len());
    assert("field"@.len() != "string"@.len());
    assert("group"@.len() != "group_pair"@.len());
    assert("group"@.len() != "address"@.len());
    assert("group"@.len() != "string"@.len());
    assert("group_pair"@.len() != "address"@.len());
    assert("group_pair"@.len() != "string"@.len());
    assert("address"@.len() != "string"@.len());
}

/// The document of a literal: the name of the variant, as a text where the variant
/// has no part, else as the key of the object of its parts.
pub open spec fn literal_document(this: LiteralView) -> JsonView
{
    match this {
        LiteralView::Boolean(value) => variant(
            "boolean"@,
            seq![
                field("value"@, flag_document(value)),
            ],
        ),
        LiteralView::Integer(kind, digits) => variant(
            "integer"@,
            seq![
                field("kind"@, integer_type_document(kind)),
                field("digits"@, text_document(digits)),
            ],
        ),
        LiteralView::Field(digits) => variant(
            "field"@,
            seq![
                field("digits"@, text_document(digits)),
            ],
        ),
        LiteralView::GroupSingle(digits) => variant(
            "group"@,
            seq![
                field("digits"@, text_document(digits)),
            ],
        ),
        LiteralView::GroupPair(x, y) => variant(
            "group_pair"@,
            seq![
                field("x"@, group_coordinate_document(x)),
                field("y"@, group_coordinate_document(y)),
            ],
        ),
        LiteralView::Address(text) => variant(
            "address"@,
            seq![
                field("text"@, text_document(text)),
            ],
        ),
        LiteralView::Text(text) => variant(
            "string"@,
            seq![
                field("text"@, text_document(text)),
            ],
        ),
    }
}

/// A document of the variant `boolean` is the document of a value of that variant,
/// and its members are the documents of the parts.
pub proof fn lemma_literal_boolean_members(subject: LiteralView, listed: Seq<JsonFieldView>)
    requires
        literal_document(subject) == variant("boolean"@, listed),
    ensures
        subject matches LiteralView::Boolean(value)
        && listed.len() == 1
        && listed[0] == field("value"@, flag_document(value)),
{
    lemma_literal_names();
    assert(literal_document(subject)->Object_0[0] == variant("boolean"@, listed)->Object_0[0]);
    match subject {
        LiteralView::Boolean(value) => {
            let parts = literal_document(subject)->Object_0[0].value->Object_0;
            assert(parts == listed);
            assert(parts.len() == 1);
            assert(parts[0] == field("value"@, flag_document(value)));
        },
        _ => {},
    }
}

/// Reads the parts of the variant `boolean` from the members `fields`.
fn decode_literal_boolean(fields: &Vec<JsonField>) -> (r: Option<Literal>)
    requires
        forall|i: int| 0 <= i < fields.len() ==> json_fields_view(fields@)[i] == (#[trigger] fields@[i])@,
    ensures
        match r {
            Some(x) => literal_document(x@) == variant("boolean"@, json_fields_view(fields@)),
            None => forall|x: LiteralView|
                #[trigger] literal_document(x) != variant("boolean"@, json_fields_view(fields@)),
        },
{
    let ghost whole = variant("boolean"@, json_fields_view(fields@));
    let ghost listed = json_fields_view(fields@);
    assert forall|subject: LiteralView| #[trigger] literal_document(subject) == whole implies
        subject matches LiteralView::Boolean(value)
        && listed.len() == 1
        && listed[0] == field("value"@, flag_document(value)) by {
        lemma_literal_boolean_members(subject, listed);
    }
    if fields.len() != 1 {
        return None;
    }
    if !has_key(&fields[0], "value") {
        return None;
    }
    let value = match decode_flag(&fields[0].value) {
        Some(x) => x,
        None => return None,
    };
    let x = Literal::Boolean(value);
    assert(json_fields_view(fields@) =~= literal_document(x@)->Object_0[0].value->Object_0);
    Some(x)
}

/// Two values with the same document, one of them of the variant `boolean`, are the
/// same value.
proof fn lemma_literal_boolean_injective(a: LiteralView, b: LiteralView)
    requires
        a is Boolean,
        literal_document(a) == literal_document(b),
    ensures
        a == b,
{
    let listed = literal_document(a)->Object_0[0].value->Object_0;
    assert(literal_document(a) == variant("boolean"@, listed));
    lemma_literal_boolean_members(a, listed);
    lemma_literal_boolean_members(b, listed);
    match (a, b) {
        (LiteralView::Boolean(a_value), LiteralView::Boolean(b_value)) => {
        },
        _ => {},
    }
}

/// A document of the variant `integer` is the document of a value of that variant,
/// and its members are the documents of the parts.
pub proof fn lemma_literal_integer_members(subject: LiteralView, listed: Seq<JsonFieldView>)
    requires
        literal_document(subject) == variant("integer"@, listed),
    ensures
        subject matches LiteralView::Integer(kind, digits)
        && listed.len() == 2
        && listed[0] == field("kind"@, integer_type_document(kind))
        && listed[1] == field("digits"@, text_document(digits)),
{
    lemma_literal_names();
    assert(literal_document(subject)->Object_0[0] == variant("integer"@, listed)->Object_0[0]);
    match subject {
        LiteralView::Integer(kind, digits) => {
            let parts = literal_document(subject)->Object_0[0].value->Object_0;
            assert(parts == listed);
            assert(parts.len() == 2);
            assert(parts[0] == field("kind"@, integer_type_document(kind)));
            assert(parts[1] == field("digits"@, text_document(digits)));
        },
        _ => {},
    }
}

/// Reads the parts of the variant `integer` from the members `fields`.
fn decode_literal_integer(fields: &Vec<JsonField>) -> (r: Option<Literal>)
    requires
        forall|i: int| 0 <= i < fields.len() ==> json_fields_view(fields@)[i] == (#[trigger] fields@[i])@,
    ensures
        match r {
            Some(x) => literal_document(x@) == variant("integer"@, json_fields_view(fields@)),
            None => forall|x: LiteralView|
                #[trigger] literal_document(x) != variant("integer"@, json_fields_view(fields@)),
        },
{
    let ghost whole = variant("integer"@, json_fields_view(fields@));
    let ghost listed = json_fields_view(fields@);
    assert forall|subject: LiteralView| #[trigger] literal_document(subject) == whole implies
        subject matches LiteralView::Integer(kind, digits)
        && listed.len() == 2
        && listed[0] == field("kind"@, integer_type_document(kind))
        && listed[1] == field("digits"@, text_document(digits)) by {
        lemma_literal_integer_members(subject, listed);
    }
    if fields.len() != 2 {
        return None;
    }
    if !has_key(&fields[0], "kind") {
        return None;
    }
    if !has_key(&fields[1], "digits") {
        return None;
    }
    let kind = match decode_integer_type(&fields[0].value) {
        Some(x) => x,
        None => return None,
    };
    let digits = match decode_text(&fields[1].value) {
        Some(x) => x,
        None => return None,
    };
    let x = Literal::Integer(kind, digits);
    assert(json_fields_view(fields@) =~= literal_document(x@)->Object_0[0].value->Object_0);
    Some(x)
}

/// Two values with the same document, one of them of the variant `integer`, are the
/// same value.
proof fn lemma_literal_integer_injective(a: LiteralView, b: LiteralView)
    requires
        a is Integer,
        literal_document(a) == literal_document(b),
    ensures
        a == b,
{
    let listed = literal_document(a)->Object_0[0].value->Object_0;
    assert(literal_document(a) == variant("integer"@, listed));
    lemma_literal_integer_members(a, listed);
    lemma_literal_integer_members(b, listed);
    match (a, b) {
        (LiteralView::Integer(a_kind, a_digits), LiteralView::Integer(b_kind, b_digits)) => {
            lemma_integer_type_document_injective(a_kind, b_kind);
        },
        _ => {},
    }
}

/// A document of the variant `field` is the document of a value of that variant,
/// and its members are the documents of the parts.
pub proof fn lemma_literal_field_members(subject: LiteralView, listed: Seq<JsonFieldView>)
    requires
        literal_document(subject) == variant("field"@, listed),
    ensures
        subject matches LiteralView::Field(digits)
        && listed.len() == 1
        && listed[0] == field("digits"@, text_document(digits)),
{
    lemma_literal_names();
    assert(literal_document(subject)->Object_0[0] == variant("field"@, listed)->Object_0[0]);
    match subject {
        LiteralView::Field(digits) => {
            let parts = literal_document(subject)->Object_0[0].value->Object_0;
            assert(parts == listed);
            assert(parts.len() == 1);
            assert(parts[0] == field("digits"@, text_document(digits)));
        },
        _ => {},
    }
}

/// Reads the parts of the variant `field` from the members `fields`.
fn decode_literal_field(fields: &Vec<JsonField>) -> (r: Option<Literal>)
    requires
        forall|i: int| 0 <= i < fields.len() ==> json_fields_view(fields@)[i] == (#[trigger] fields@[i])@,
    ensures
        match r {
            Some(x) => literal_document(x@) == variant("field"@, json_fields_view(fields@)),
            None => forall|x: LiteralView|
                #[trigger] literal_document(x) != variant("field"@, json_fields_view(fields@)),
        },
{
    let ghost whole = variant("field"@, json_fields_view(fields@));
    let ghost listed = json_fields_view(fields@);
    assert forall|subject: LiteralView| #[trigger] literal_document(subject) == whole implies
        subject matches LiteralView::Field(digits)
        && listed.len() == 1
        && listed[0] == field("digits"@, text_document(digits)) by {
        lemma_literal_field_members(subject, listed);
    }
    if fields.len() != 1 {
        return None;
    }
    if !has_key(&fields[0], "digits") {
        return None;
    }
    let digits = match decode_text(&fields[0].value) {
        Some(x) => x,
        None => return None,
    };
    let x = Literal::Field(digits);
    assert(json_fields_view(fields@) =~= literal_document(x@)->Object_0[0].value->Object_0);
    Some(x)
}

/// Two values with the same document, one of them of the variant `field`, are the
/// same value.
proof fn lemma_literal_field_injective(a: LiteralView, b: LiteralView)
    requires
        a is Field,
        literal_document(a) == literal_document(b),
    ensures
        a == b,
{
    let listed = literal_document(a)->Object_0[0].value->Object_0;
    assert(literal_document(a) == variant("field"@, listed));
    lemma_literal_field_members(a, listed);
    lemma_literal_field_members(b, listed);
    match (a, b) {
        (LiteralView::Field(a_digits), LiteralView::Field(b_digits)) => {
        },
        _ => {},
    }
}

/// A document of the variant `group` is the document of a value of that variant,
/// and its members are the documents of the parts.
pub proof fn lemma_literal_group_members(subject: LiteralView, listed: Seq<JsonFieldView>)
    requires
        literal_document(subject) == variant("group"@, listed),
    ensures
        subject matches LiteralView::GroupSingle(digits)
        && listed.len() == 1
        && listed[0] == field("digits"@, text_document(digits)),
{
    lemma_literal_names();
    assert(literal_document(subject)->Object_0[0] == variant("group"@, listed)->Object_0[0]);
    match subject {
        LiteralView::GroupSingle(digits) => {
            let parts = literal_document(subject)->Object_0[0].value->Object_0;
            assert(parts == listed);
            assert(parts.len() == 1);
            assert(parts[0] == field("digits"@, text_document(digits)));
        },
        _ => {},
    }
}

/// Reads the parts of the variant `group` from the members `fields`.
fn decode_literal_group(fields: &Vec<JsonField>) -> (r: Option<Literal>)
    requires
        forall|i: int| 0 <= i < fields.len() ==> json_fields_view(fields@)[i] == (#[trigger] fields@[i])@,
    ensures
        match r {
            Some(x) => literal_document(x@) == variant("group"@, json_fields_view(fields@)),
            None => forall|x: LiteralView|
                #[trigger] literal_document(x) != variant("group"@, json_fields_view(fields@)),
        },
{
    let ghost whole = variant("group"@, json_fields_view(fields@));
    let ghost listed = json_fields_view(fields@);
    assert forall|subject: LiteralView| #[trigger] literal_document(subject) == whole implies
        subject matches LiteralView::GroupSingle(digits)
        && listed.len() == 1
        && listed[0] == field("digits"@, text_document(digits)) by {
        lemma_literal_group_members(subject, listed);
    }
    if fields.len() != 1 {
        return None;
    }
    if !has_key(&fields[0], "digits") {
        return None;
    }
    let digits = match decode_text(&fields[0].value) {
        Some(x) => x,
        None => return None,
    };
    let x = Literal::GroupSingle(digits);
    assert(json_fields_view(fields@) =~= literal_document(x@)->Object_0[0].value->Object_0);
    Some(x)
}

/// Two values with the same document, one of them of the variant `group`, are the
/// same value.
proof fn lemma_literal_group_injective(a: LiteralView, b: LiteralView)
    requires
        a is GroupSingle,
        literal_document(a) == literal_document(b),
    ensures
        a == b,
{
    let listed = literal_document(a)->Object_0[0].value->Object_0;
    assert(literal_document(a) == variant("group"@, listed));
    lemma_literal_group_members(a, listed);
    lemma_literal_group_members(b, listed);
    match (a, b) {
        (LiteralView::GroupSingle(a_digits), LiteralView::GroupSingle(b_digits)) => {
        },
        _ => {},
    }
}

/// A document of the variant `group_pair` is the document of a value of that variant,
/// and its members are the documents of the parts.
pub proof fn lemma_literal_group_pair_members(subject: LiteralView, listed: Seq<JsonFieldView>)
    requires
        literal_document(subject) == variant("group_pair"@, listed),
    ensures
        subject matches LiteralView::GroupPair(x, y)
        && listed.len() == 2
        && listed[0] == field("x"@, group_coordinate_document(x))
        && listed[1] == field("y"@, group_coordinate_document(y)),
{
    lemma_literal_names();
    assert(literal_document(subject)->Object_0[0] == variant("group_pair"@, listed)->Object_0[0]);
    match subject {
        LiteralView::GroupPair(x, y) => {
            let parts = literal_document(subject)->Object_0[0].value->Object_0;
            assert(parts == listed);
            assert(parts.len() == 2);
            assert(parts[0] == field("x"@, group_coordinate_document(x)));
            assert(parts[1] == field("y"@, group_coordinate_document(y)));
        },
        _ => {},
    }
}

/// Reads the parts of the variant `group_pair` from the members `fields`.
fn decode_literal_group_pair(fields: &Vec<JsonField>) -> (r: Option<Literal>)
    requires
        forall|i: int| 0 <= i < fields.len() ==> json_fields_view(fields@)[i] == (#[trigger] fields@[i])@,
    ensures
        match r {
            Some(x) => literal_document(x@) == variant("group_pair"@, json_fields_view(fields@)),
            None => forall|x: LiteralView|
                #[trigger] literal_document(x) != variant("group_pair"@, json_fields_view(fields@)),
        },
{
    let ghost whole = variant("group_pair"@, json_fields_view(fields@));
    let ghost listed = json_fields_view(fields@);
    assert forall|subject: LiteralView| #[trigger] literal_document(subject) == whole implies
        subject matches LiteralView::GroupPair(x, y)
        && listed.len() == 2
        && listed[0] == field("x"@, group_coordinate_document(x))
        && listed[1] == field("y"@, group_coordinate_document(y)) by {
        lemma_literal_group_pair_members(subject, listed);
    }
    if fields.len() != 2 {
        return None;
    }
    if !has_key(&fields[0], "x") {
        return None;
    }
    if !has_key(&fields[1], "y") {
        return None;
    }
    let x = match decode_group_coordinate(&fields[0].value) {
        Some(x) => x,
        None => return None,
    };
    let y = match decode_group_coordinate(&fields[1].value) {
        Some(x) => x,
        None => return None,
    };
    let x = Literal::GroupPair(x, y);
    assert(json_fields_view(fields@) =~= literal_document(x@)->Object_0[0].value->Object_0);
    Some(x)
}

/// Two values with the same document, one of them of the variant `group_pair`, are the
/// same value.
proof fn lemma_literal_group_pair_injective(a: LiteralView, b: LiteralView)
    requires
        a is GroupPair,
        literal_document(a) == literal_document(b),
    ensures
        a == b,
{
    let listed = literal_document(a)->Object_0[0].value->Object_0;
    assert(literal_document(a) == variant("group_pair"@, listed));
    lemma_literal_group_pair_members(a, listed);
    lemma_literal_group_pair_members(b, listed);
    match (a, b) {
        (LiteralView::GroupPair(a_x, a_y), LiteralView::GroupPair(b_x, b_y)) => {
            lemma_group_coordinate_document_injective(a_x, b_x);
            lemma_group_coordinate_document_injective(a_y, b_y);
        },
        _ => {},
    }
}

/// A document of the variant `address` is the document of a value of that variant,
/// and its members are the documents of the parts.
pub proof fn lemma_literal_address_members(subject: LiteralView, listed: Seq<JsonFieldView>)
    requires
        literal_document(subject) == variant("address"@, listed),
    ensures
        subject matches LiteralView::Address(text)
        && listed.len() == 1
        && listed[0] == field("text"@, text_document(text)),
{
    lemma_literal_names();
    assert(literal_document(subject)->Object_0[0] == variant("address"@, listed)->Object_0[0]);
    match subject {
        LiteralView::Address(text) => {
            let parts = literal_document(subject)->Object_0[0].value->Object_0;
            assert(parts == listed);
            assert(parts.len() == 1);
            assert(parts[0] == field("text"@, text_document(text)));
        },
        _ => {},
    }
}

/// Reads the parts of the variant `address` from the members `fields`.
fn decode_literal_address(fields: &Vec<JsonField>) -> (r: Option<Literal>)
    requires
        forall|i: int| 0 <= i < fields.len() ==> json_fields_view(fields@)[i] == (#[trigger] fields@[i])@,
    ensures
        match r {
            Some(x) => literal_document(x@) == variant("address"@, json_fields_view(fields@)),
            None => forall|x: LiteralView|
                #[trigger] literal_document(x) != variant("address"@, json_fields_view(fields@)),
        },
{
    let ghost whole = variant("address"@, json_fields_view(fields@));
    let ghost listed = json_fields_view(fields@);
    assert forall|subject: LiteralView| #[trigger] literal_document(subject) == whole implies
        subject matches LiteralView::Address(text)
        && listed.len() == 1
        && listed[0] == field("text"@, text_document(text)) by {
        lemma_literal_address_members(subject, listed);
    }
    if fields.len() != 1 {
        return None;
    }
    if !has_key(&fields[0], "text") {
        return None;
    }
    let text = match decode_text(&fields[0].value) {
        Some(x) => x,
        None => return None,
    };
    let x = Literal::Address(text);
    assert(json_fields_view(fields@) =~= literal_document(x@)->Object_0[0].value->Object_0);
    Some(x)
}

/// Two values with the same document, one of them of the variant `address`, are the
/// same value.
proof fn lemma_literal_address_injective(a: LiteralView, b: LiteralView)
    requires
        a is Address,
        literal_document(a) == literal_document(b),
    ensures
        a == b,
{
    let listed = literal_document(a)->Object_0[0].value->Object_0;
    assert(literal_document(a) == variant("address"@, listed));
    lemma_literal_address_members(a, listed);
    lemma_literal_address_members(b, listed);
    match (a, b) {
        (LiteralView::Address(a_text), LiteralView::Address(b_text)) => {
        },
        _ => {},
    }
}

/// A document of the variant `string` is the document of a value of that variant,
/// and its members are the documents of the parts.
pub proof fn lemma_literal_string_members(subject: LiteralView, listed: Seq<JsonFieldView>)
    requires
        literal_document(subject) == variant("string"@, listed),
    ensures
        subject matches LiteralView::Text(text)
        && listed.len() == 1
        && listed[0] == field("text"@, text_document(text)),
{
    lemma_literal_names();
    assert(literal_document(subject)->Object_0[0] == variant("string"@, listed)->Object_0[0]);
    match subject {
        LiteralView::Text(text) => {
            let parts = literal_document(subject)->Object_0[0].value->Object_0;
            assert(parts == listed);
            assert(parts.len() == 1);
            assert(parts[0] == field("text"@, text_document(text)));
        },
        _ => {},
    }
}

/// Reads the parts of the variant `string` from the members `fields`.
fn decode_literal_string(fields: &Vec<JsonField>) -> (r: Option<Literal>)
    requires
        forall|i: int| 0 <= i < fields.len() ==> json_fields_view(fields@)[i] == (#[trigger] fields@[i])@,
    ensures
        match r {
            Some(x) => literal_document(x@) == variant("string"@, json_fields_view(fields@)),
            None => forall|x: LiteralView|
                #[trigger] literal_document(x) != variant("string"@, json_fields_view(fields@)),
        },
{
    let ghost whole = variant("string"@, json_fields_view(fields@));
    let ghost listed = json_fields_view(fields@);
    assert forall|subject: LiteralView| #[trigger] literal_document(subject) == whole implies
        subject matches LiteralView::Text(text)
        && listed.len() == 1
        && listed[0] == field("text"@, text_document(text)) by {
        lemma_literal_string_members(subject, listed);
    }
    if fields.len() != 1 {
        return None;
    }
    if !has_key(&fields[0], "text") {
        return None;
    }
    let text = match decode_text(&fields[0].value) {
        Some(x) => x,
        None => return None,
    };
    let x = Literal::Text(text);
    assert(json_fields_view(fields@) =~= literal_document(x@)->Object_0[0].value->Object_0);
    Some(x)
}

/// Two values with the same document, one of them of the variant `string`, are the
/// same value.
proof fn lemma_literal_string_injective(a: LiteralView, b: LiteralView)
    requires
        a is Text,
        literal_document(a) == literal_document(b),
    ensures
        a == b,
{
    let listed = literal_document(a)->Object_0[0].value->Object_0;
    assert(literal_document(a) == variant("string"@, listed));
    lemma_literal_string_members(a, listed);
    lemma_literal_string_members(b, listed);
    match (a, b) {
        (LiteralView::Text(a_text), LiteralView::Text(b_text)) => {
        },
        _ => {},
    }
}

/// Writes a literal as a document.
pub fn encode_literal(this: &Literal) -> (r: Json)
    ensures
        r@ == literal_document(this@),
{
    match this {
        Literal::Boolean(value) => variant_of(
            "boolean",
            members_1(
                "value",
                encode_flag(*value),
            ),
        ),
        Literal::Integer(kind, digits) => variant_of(
            "integer",
            members_2(
                "kind",
                encode_integer_type(*kind),
                "digits",
                encode_text(digits),
            ),
        ),
        Literal::Field(digits) => variant_of(
            "field",
            members_1(
                "digits",
                encode_text(digits),
            ),
        ),
        Literal::GroupSingle(digits) => variant_of(
            "group",
            members_1(
                "digits",
                encode_text(digits),
            ),
        ),
        Literal::GroupPair(x, y) => variant_of(
            "group_pair",
            members_2(
                "x",
                encode_group_coordinate(x),
                "y",
                encode_group_coordinate(y),
            ),
        ),
        Literal::Address(text) => variant_of(
            "address",
            members_1(
                "text",
                encode_text(text),
            ),
        ),
        Literal::Text(text) => variant_of(
            "string",
            members_1(
                "text",
                encode_text(text),
            ),
        ),
    }
}

/// Reads a literal from the document `j`, if `j` is the document of one.
pub fn decode_literal(j: &Json) -> (r: Option<Literal>)
    ensures
        match r {
            Some(x) => literal_document(x@) == j@,
            None => forall|x: LiteralView| #[trigger] literal_document(x) != j@,
        },
{
    match j {
        _ => {
            let (tag, fields) = match variant_parts(j) {
                Some(parts) => parts,
                None => {
                    assert forall|x: LiteralView| #[trigger] literal_document(x) != j@ by {
                        if literal_document(x) == j@ {
                            assert(literal_document(x) == variant(
                                literal_document(x)->Object_0[0].key,
                                literal_document(x)->Object_0[0].value->Object_0,
                            ));
                        }
                    }
                    return None;
                },
            };
            if text_is(tag, "boolean") {
                decode_literal_boolean(fields)
            } else if text_is(tag, "integer") {
                decode_literal_integer(fields)
            } else if text_is(tag, "field") {
                decode_literal_field(fields)
            } else if text_is(tag, "group") {
                decode_literal_group(fields)
            } else if text_is(tag, "group_pair") {
                decode_literal_group_pair(fields)
            } else if text_is(tag, "address") {
                decode_literal_address(fields)
            } else if text_is(tag, "string") {
                decode_literal_string(fields)
            } else {
                assert forall|x: LiteralView| #[trigger] literal_document(x) != j@ by {
                    if literal_document(x) == j@ {
                        assert(literal_document(x)->Object_0[0] == j@->Object_0[0]);
                    }
                }
                None
            }
        },
    }
}

/// Two values with the same document are the same value.
pub proof fn lemma_literal_document_injective(a: LiteralView, b: LiteralView)
    requires
        literal_document(a) == literal_document(b),
    ensures
        a == b,
{
    match a {
        LiteralView::Boolean(..) => {
            lemma_literal_boolean_injective(a, b);
        },
        LiteralView::Integer(..) => {
            lemma_literal_integer_injective(a, b);
        },
        LiteralView::Field(..) => {
            lemma_literal_field_injective(a, b);
        },
        LiteralView::GroupSingle(..) => {
            lemma_literal_group_injective(a, b);
        },
        LiteralView::GroupPair(..) => {
            lemma_literal_group_pair_injective(a, b);
        },
        LiteralView::Address(..) => {
            lemma_literal_address_injective(a, b);
        },
        LiteralView::Text(..) => {
            lemma_literal_string_injective(a, b);
        },
    }
}
} // verus!
