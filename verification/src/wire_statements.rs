//! The documents of statements.

use vstd::prelude::*;
use crate::document::{
    decode_flag, decode_node, decode_text, encode_flag, encode_node, encode_text, flag_document,
    has_key, members_1, members_2, members_3, members_4, members_5, node_document, object_fields,
    text_document, text_is, variant, variant_of, variant_parts,
};
use crate::json::{field, json_fields_view, jsons_view, Json, JsonField, JsonFieldView, JsonView};
use crate::expression::Expression;
use crate::statements::{
    bindings_view, definitions_view, optional_boxed_statement_view, statements_view, Binding,
    BindingView, Block, BlockView, Definition, DefinitionView, Statement, StatementView,
};
use crate::wire_expressions::{
    decode_expression, encode_expression, expression_document, lemma_expression_document_injective,
};
use crate::wire_types::{
    decode_optional_binary_operation, decode_optional_type, encode_optional_binary_operation,
    encode_optional_type, lemma_optional_binary_operation_document_injective,
    lemma_optional_type_document_injective, optional_binary_operation_document,
    optional_type_document,
};

verus! {
/// The document of a name of a definition: an object with one member for each part.
pub open spec fn binding_document(x: BindingView) -> JsonView
{
    JsonView::Object(
        seq![
            field("node"@, node_document(x.node)),
            field("name"@, text_document(x.name)),
            field("declared"@, optional_type_document(x.declared)),
        ],
    )
}

/// The members of the document of a name of a definition, one by one.
pub proof fn lemma_binding_document_members(subject: BindingView, listed: Seq<JsonFieldView>)
    requires
        binding_document(subject) == JsonView::Object(listed),
    ensures
        listed.len() == 3,
        listed[0] == field("node"@, node_document(subject.node)),
        listed[1] == field("name"@, text_document(subject.name)),
        listed[2] == field("declared"@, optional_type_document(subject.declared)),
{
    let parts = binding_document(subject)->Object_0;
    assert(parts == listed);
    assert(parts.len() == 3);
    assert(parts[0] == field("node"@, node_document(subject.node)));
    assert(parts[1] == field("name"@, text_document(subject.name)));
    assert(parts[2] == field("declared"@, optional_type_document(subject.declared)));
}

/// Writes a name of a definition as a document.
pub fn encode_binding(x: &Binding) -> (r: Json)
    ensures
        r@ == binding_document(x@),
{
    let fields = members_3(
        "node",
        encode_node(&x.node),
        "name",
        encode_text(&x.name),
        "declared",
        encode_optional_type(&x.declared),
    );
    Json::Object(fields)
}

/// Reads a name of a definition from the document `j`, if `j` is the document of one.
pub fn decode_binding(j: &Json) -> (r: Option<Binding>)
    ensures
        match r {
            Some(x) => binding_document(x@) == j@,
            None => forall|x: BindingView| #[trigger] binding_document(x) != j@,
        },
{
    let fields = match object_fields(j, 3) {
        Some(fields) => fields,
        None => return None,
    };
    let ghost listed = json_fields_view(fields@);
    assert forall|subject: BindingView| #[trigger] binding_document(subject) == j@ implies
        listed.len() == 3
        && listed[0] == field("node"@, node_document(subject.node))
        && listed[1] == field("name"@, text_document(subject.name))
        && listed[2] == field("declared"@, optional_type_document(subject.declared)) by {
        lemma_binding_document_members(subject, listed);
    }
    if !has_key(&fields[0], "node") {
        return None;
    }
    if !has_key(&fields[1], "name") {
        return None;
    }
    if !has_key(&fields[2], "declared") {
        return None;
    }
    let node = match decode_node(&fields[0].value) {
        Some(x) => x,
        None => return None,
    };
    let name = match decode_text(&fields[1].value) {
        Some(x) => x,
        None => return None,
    };
    let declared = match decode_optional_type(&fields[2].value) {
        Some(x) => x,
        None => return None,
    };
    let x = Binding { node, name, declared };
    assert(json_fields_view(fields@) =~= binding_document(x@)->Object_0);
    Some(x)
}

/// Two values with the same document are the same value.
pub proof fn lemma_binding_document_injective(a: BindingView, b: BindingView)
    requires
        binding_document(a) == binding_document(b),
    ensures
        a == b,
{
    let listed = binding_document(a)->Object_0;
    lemma_binding_document_members(a, listed);
    lemma_binding_document_members(b, listed);
    lemma_optional_type_document_injective(a.declared, b.declared);
}

/// The document of a list of names of a definition: the array of their documents, in order.
pub open spec fn bindings_document(s: Seq<BindingView>) -> JsonView
{
    JsonView::Array(
        Seq::new(s.len(), |i: int| if 0 <= i < s.len() { binding_document(s[i]) } else { arbitrary() }),
    )
}

/// Writes a list of names of a definition as a document.
pub fn encode_bindings(s: &Vec<Binding>) -> (r: Json)
    ensures
        r@ == bindings_document(bindings_view(s@)),
{
    let mut out: Vec<Json> = Vec::new();
    let mut i: usize = 0;
    while i < s.len()
        invariant
            i <= s.len(),
            out.len() == i,
            forall|k: int| 0 <= k < i ==> (#[trigger] out[k])@ == binding_document(s[k]@),
        decreases s.len() - i,
    {
        out.push(encode_binding(&s[i]));
        i = i + 1;
    }
    assert forall|k: int| 0 <= k < s.len() implies jsons_view(out@)[k] == bindings_document(
        bindings_view(s@),
    )->Array_0[k] by {
        assert(bindings_view(s@)[k] == s[k]@);
        assert(jsons_view(out@)[k] == out[k]@);
    }
    assert(jsons_view(out@) =~= bindings_document(bindings_view(s@))->Array_0);
    Json::Array(out)
}

/// Reads a list of names of a definition from the document `j`, if `j` is the document of one.
pub fn decode_bindings(j: &Json) -> (r: Option<Vec<Binding>>)
    ensures
        match r {
            Some(s) => bindings_document(bindings_view(s@)) == j@,
            None => forall|s: Seq<BindingView>| #[trigger] bindings_document(s) != j@,
        },
{
    match j {
        Json::Array(items) => {
            let mut out: Vec<Binding> = Vec::new();
            let mut i: usize = 0;
            while i < items.len()
                invariant
                    i <= items.len(),
                    out.len() == i,
                    *j == Json::Array(*items),
                    forall|k: int| 0 <= k < i ==> (#[trigger] items[k])@ == binding_document(out[k]@),
                decreases items.len() - i,
            {
                match decode_binding(&items[i]) {
                    Some(x) => {
                        out.push(x);
                    },
                    None => {
                        assert(j@ == JsonView::Array(jsons_view(items@)));
                        assert(jsons_view(items@)[i as int] == items[i as int]@);
                        assert forall|s: Seq<BindingView>| #[trigger] bindings_document(s) != j@ by {
                            if bindings_document(s) == j@ {
                                assert(bindings_document(s)->Array_0 == jsons_view(items@));
                                assert(bindings_document(s)->Array_0.len() == s.len());
                                assert(jsons_view(items@).len() == items.len());
                                assert(bindings_document(s)->Array_0[i as int] == binding_document(s[i as int]));
                            }
                        }
                        return None;
                    },
                }
                i = i + 1;
            }
            assert forall|k: int| 0 <= k < items.len() implies jsons_view(items@)[k] == bindings_document(
                bindings_view(out@),
            )->Array_0[k] by {
                assert(bindings_view(out@)[k] == out[k]@);
                assert(jsons_view(items@)[k] == items[k]@);
            }
            assert(jsons_view(items@) =~= bindings_document(bindings_view(out@))->Array_0);
            Some(out)
        },
        _ => None,
    }
}

/// Two lists with the same document are the same list.
pub proof fn lemma_bindings_document_injective(a: Seq<BindingView>, b: Seq<BindingView>)
    requires
        bindings_document(a) == bindings_document(b),
    ensures
        a == b,
{
    let da = bindings_document(a)->Array_0;
    let db = bindings_document(b)->Array_0;
    assert(da.len() == a.len() && db.len() == b.len());
    assert forall|i: int| 0 <= i < a.len() implies a[i] == b[i] by {
        assert(da[i] == binding_document(a[i]));
        assert(db[i] == binding_document(b[i]));
        lemma_binding_document_injective(a[i], b[i]);
    }
    assert(a =~= b);
}

/// The document of a definition: an object with one member for each part.
pub open spec fn definition_document(x: DefinitionView) -> JsonView
{
    JsonView::Object(
        seq![
            field("node"@, node_document(x.node)),
            field("mutable"@, flag_document(x.mutable)),
            field("bindings"@, bindings_document(x.bindings)),
            field("value"@, expression_document(x.value)),
        ],
    )
}

/// The members of the document of a definition, one by one.
pub proof fn lemma_definition_document_members(subject: DefinitionView, listed: Seq<JsonFieldView>)
    requires
        definition_document(subject) == JsonView::Object(listed),
    ensures
        listed.len() == 4,
        listed[0] == field("node"@, node_document(subject.node)),
        listed[1] == field("mutable"@, flag_document(subject.mutable)),
        listed[2] == field("bindings"@, bindings_document(subject.bindings)),
        listed[3] == field("value"@, expression_document(subject.value)),
{
    let parts = definition_document(subject)->Object_0;
    assert(parts == listed);
    assert(parts.len() == 4);
    assert(parts[0] == field("node"@, node_document(subject.node)));
    assert(parts[1] == field("mutable"@, flag_document(subject.mutable)));
    assert(parts[2] == field("bindings"@, bindings_document(subject.bindings)));
    assert(parts[3] == field("value"@, expression_document(subject.value)));
}

/// Writes a definition as a document.
pub fn encode_definition(x: &Definition) -> (r: Json)
    ensures
        r@ == definition_document(x@),
{
    let fields = members_4(
        "node",
        encode_node(&x.node),
        "mutable",
        encode_flag(*&x.mutable),
        "bindings",
        encode_bindings(&x.bindings),
        "value",
        encode_expression(&x.value),
    );
    Json::Object(fields)
}

/// Reads a definition from the document `j`, if `j` is the document of one.
pub fn decode_definition(j: &Json) -> (r: Option<Definition>)
    ensures
        match r {
            Some(x) => definition_document(x@) == j@,
            None => forall|x: DefinitionView| #[trigger] definition_document(x) != j@,
        },
{
    let fields = match object_fields(j, 4) {
        Some(fields) => fields,
        None => return None,
    };
    let ghost listed = json_fields_view(fields@);
    assert forall|subject: DefinitionView| #[trigger] definition_document(subject) == j@ implies
        listed.len() == 4
        && listed[0] == field("node"@, node_document(subject.node))
        && listed[1] == field("mutable"@, flag_document(subject.mutable))
        && listed[2] == field("bindings"@, bindings_document(subject.bindings))
        && listed[3] == field("value"@, expression_document(subject.value)) by {
        lemma_definition_document_members(subject, listed);
    }
    if !has_key(&fields[0], "node") {
        return None;
    }
    if !has_key(&fields[1], "mutable") {
        return None;
    }
    if !has_key(&fields[2], "bindings") {
        return None;
    }
    if !has_key(&fields[3], "value") {
        return None;
    }
    let node = match decode_node(&fields[0].value) {
        Some(x) => x,
        None => return None,
    };
    let mutable = match decode_flag(&fields[1].value) {
        Some(x) => x,
        None => return None,
    };
    let bindings = match decode_bindings(&fields[2].value) {
        Some(x) => x,
        None => return None,
    };
    let value = match decode_expression(&fields[3].value) {
        Some(x) => x,
        None => return None,
    };
    let x = Definition { node, mutable, bindings, value };
    assert(json_fields_view(fields@) =~= definition_document(x@)->Object_0);
    Some(x)
}

/// Two values with the same document are the same value.
pub proof fn lemma_definition_document_injective(a: DefinitionView, b: DefinitionView)
    requires
        definition_document(a) == definition_document(b),
    ensures
        a == b,
{
    let listed = definition_document(a)->Object_0;
    lemma_definition_document_members(a, listed);
    lemma_definition_document_members(b, listed);
    lemma_bindings_document_injective(a.bindings, b.bindings);
    lemma_expression_document_injective(a.value, b.value);
}

/// The document of a list of definitions: the array of their documents, in order.
pub open spec fn definitions_document(s: Seq<DefinitionView>) -> JsonView
{
    JsonView::Array(
        Seq::new(s.len(), |i: int| if 0 <= i < s.len() { definition_document(s[i]) } else { arbitrary() }),
    )
}

/// Writes a list of definitions as a document.
pub fn encode_definitions(s: &Vec<Definition>) -> (r: Json)
    ensures
        r@ == definitions_document(definitions_view(s@)),
{
    let mut out: Vec<Json> = Vec::new();
    let mut i: usize = 0;
    while i < s.len()
        invariant
            i <= s.len(),
            out.len() == i,
            forall|k: int| 0 <= k < i ==> (#[trigger] out[k])@ == definition_document(s[k]@),
        decreases s.len() - i,
    {
        out.push(encode_definition(&s[i]));
        i = i + 1;
    }
    assert forall|k: int| 0 <= k < s.len() implies jsons_view(out@)[k] == definitions_document(
        definitions_view(s@),
    )->Array_0[k] by {
        assert(definitions_view(s@)[k] == s[k]@);
        assert(jsons_view(out@)[k] == out[k]@);
    }
    assert(jsons_view(out@) =~= definitions_document(definitions_view(s@))->Array_0);
    Json::Array(out)
}

/// Reads a list of definitions from the document `j`, if `j` is the document of one.
pub fn decode_definitions(j: &Json) -> (r: Option<Vec<Definition>>)
    ensures
        match r {
            Some(s) => definitions_document(definitions_view(s@)) == j@,
            None => forall|s: Seq<DefinitionView>| #[trigger] definitions_document(s) != j@,
        },
{
    match j {
        Json::Array(items) => {
            let mut out: Vec<Definition> = Vec::new();
            let mut i: usize = 0;
            while i < items.len()
                invariant
                    i <= items.len(),
                    out.len() == i,
                    *j == Json::Array(*items),
                    forall|k: int| 0 <= k < i ==> (#[trigger] items[k])@ == definition_document(out[k]@),
                decreases items.len() - i,
            {
                match decode_definition(&items[i]) {
                    Some(x) => {
                        out.push(x);
                    },
                    None => {
                        assert(j@ == JsonView::Array(jsons_view(items@)));
                        assert(jsons_view(items@)[i as int] == items[i as int]@);
                        assert forall|s: Seq<DefinitionView>| #[trigger] definitions_document(s) != j@ by {
                            if definitions_document(s) == j@ {
                                assert(definitions_document(s)->Array_0 == jsons_view(items@));
                                assert(definitions_document(s)->Array_0.len() == s.len());
                                assert(jsons_view(items@).len() == items.len());
                                assert(definitions_document(s)->Array_0[i as int] == definition_document(s[i as int]));
                            }
                        }
                        return None;
                    },
                }
                i = i + 1;
            }
            assert forall|k: int| 0 <= k < items.len() implies jsons_view(items@)[k] == definitions_document(
                definitions_view(out@),
            )->Array_0[k] by {
                assert(definitions_view(out@)[k] == out[k]@);
                assert(jsons_view(items@)[k] == items[k]@);
            }
            assert(jsons_view(items@) =~= definitions_document(definitions_view(out@))->Array_0);
            Some(out)
        },
        _ => None,
    }
}

/// Two lists with the same document are the same list.
pub proof fn lemma_definitions_document_injective(a: Seq<DefinitionView>, b: Seq<DefinitionView>)
    requires
        definitions_document(a) == definitions_document(b),
    ensures
        a == b,
{
    let da = definitions_document(a)->Array_0;
    let db = definitions_document(b)->Array_0;
    assert(da.len() == a.len() && db.len() == b.len());
    assert forall|i: int| 0 <= i < a.len() implies a[i] == b[i] by {
        assert(da[i] == definition_document(a[i]));
        assert(db[i] == definition_document(b[i]));
        lemma_definition_document_injective(a[i], b[i]);
    }
    assert(a =~= b);
}

/// The names of the variants differ from one another.
pub proof fn lemma_statement_names()
    ensures
        "return"@ != "definition"@,
        "return"@ != "assign"@,
        "return"@ != "conditional"@,
        "return"@ != "iteration"@,
        "return"@ != "expression"@,
        "return"@ != "block"@,
        "definition"@ != "assign"@,
        "definition"@ != "conditional"@,
        "definition"@ != "iteration"@,
        "definition"@ != "expression"@,
        "definition"@ != "block"@,
        "assign"@ != "conditional"@,
        "assign"@ != "iteration"@,
        "assign"@ != "expression"@,
        "assign"@ != "block"@,
        "conditional"@ != "iteration"@,
        "conditional"@ != "expression"@,
        "conditional"@ != "block"@,
        "iteration"@ != "expression"@,
        "iteration"@ != "block"@,
        "expression"@ != "block"@,
{
    reveal_strlit("return");
    reveal_strlit("definition");
    reveal_strlit("assign");
    reveal_strlit("conditional");
    reveal_strlit("iteration");
    reveal_strlit("expression");
    reveal_strlit("block");
    assert("return"@.len() != "definition"@.len());
    assert("return"@[0] != "assign"@[0]);
    assert("return"@.len() != "conditional"@.len());
    assert("return"@.len() != "iteration"@.len());
    assert("return"@.len() != "expression"@.len());
    assert("return"@.len() != "block"@.len());
    assert("definition"@.len() != "assign"@.len());
    assert("definition"@.len() != "conditional"@.len());
    assert("definition"@.len() != "iteration"@.len());
    assert("definition"@[0] != "expression"@[0]);
    assert("definition"@.len() != "block"@.len());
    assert("assign"@.len() != "conditional"@.len());
    assert("assign"@.len() != "iteration"@.len());
    assert("assign"@.len() != "expression"@.len());
    assert("assign"@.len() != "block"@.len());
    assert("conditional"@.len() != "iteration"@.len());
    assert("conditional"@.len() != "expression"@.len());
    assert("conditional"@.len() != "block"@.len());
    assert("iteration"@.len() != "expression"@.len());
    assert("iteration"@.len() != "block"@.len());
    assert("expression"@.len() != "block"@.len());
}

/// The document of a statement: the name of the variant, as a text where the variant
/// has no part, else as the key of the object of its parts.
pub open spec fn statement_document(this: StatementView) -> JsonView
    decreases this, 0nat,
{
    match this {
        StatementView::Return { node, value } => variant(
            "return"@,
            seq![
                field("node"@, node_document(node)),
                field("value"@, expression_document(value)),
            ],
        ),
        StatementView::Definition(definition) => variant(
            "definition"@,
            seq![
                field("definition"@, definition_document(definition)),
            ],
        ),
        StatementView::Assign { node, target, operation, value } => variant(
            "assign"@,
            seq![
                field("node"@, node_document(node)),
                field("target"@, expression_document(target)),
                field("operation"@, optional_binary_operation_document(operation)),
                field("value"@, expression_document(value)),
            ],
        ),
        StatementView::Conditional { node, condition, then_block, otherwise } => variant(
            "conditional"@,
            seq![
                field("node"@, node_document(node)),
                field("condition"@, expression_document(condition)),
                field("then_block"@, block_document(then_block)),
                field("otherwise"@, optional_boxed_statement_document(otherwise)),
            ],
        ),
        StatementView::Iteration { node, variable, start, stop, body } => variant(
            "iteration"@,
            seq![
                field("node"@, node_document(node)),
                field("variable"@, text_document(variable)),
                field("start"@, expression_document(start)),
                field("stop"@, expression_document(stop)),
                field("body"@, block_document(body)),
            ],
        ),
        StatementView::Expression { node, expression } => variant(
            "expression"@,
            seq![
                field("node"@, node_document(node)),
                field("expression"@, expression_document(expression)),
            ],
        ),
        StatementView::Block(block) => variant(
            "block"@,
            seq![
                field("block"@, block_document(block)),
            ],
        ),
    }
}

/// A document of the variant `return` is the document of a value of that variant,
/// and its members are the documents of the parts.
pub proof fn lemma_statement_return_members(subject: StatementView, listed: Seq<JsonFieldView>)
    requires
        statement_document(subject) == variant("return"@, listed),
    ensures
        subject matches StatementView::Return { node, value }
        && listed.len() == 2
        && listed[0] == field("node"@, node_document(node))
        && listed[1] == field("value"@, expression_document(value)),
{
    lemma_statement_names();
    assert(statement_document(subject)->Object_0[0] == variant("return"@, listed)->Object_0[0]);
    match subject {
        StatementView::Return { node, value } => {
            let parts = statement_document(subject)->Object_0[0].value->Object_0;
            assert(parts == listed);
            assert(parts.len() == 2);
            assert(parts[0] == field("node"@, node_document(node)));
            assert(parts[1] == field("value"@, expression_document(value)));
        },
        _ => {},
    }
}

/// Reads the parts of the variant `return` from the members `fields`.
fn decode_statement_return(fields: &Vec<JsonField>) -> (r: Option<Statement>)
    requires
        forall|i: int| 0 <= i < fields.len() ==> json_fields_view(fields@)[i] == (#[trigger] fields@[i])@,
    ensures
        match r {
            Some(x) => statement_document(x@) == variant("return"@, json_fields_view(fields@)),
            None => forall|x: StatementView|
                #[trigger] statement_document(x) != variant("return"@, json_fields_view(fields@)),
        },
    decreases fields, 0nat,
{
    let ghost whole = variant("return"@, json_fields_view(fields@));
    let ghost listed = json_fields_view(fields@);
    assert forall|subject: StatementView| #[trigger] statement_document(subject) == whole implies
        subject matches StatementView::Return { node, value }
        && listed.len() == 2
        && listed[0] == field("node"@, node_document(node))
        && listed[1] == field("value"@, expression_document(value)) by {
        lemma_statement_return_members(subject, listed);
    }
    if fields.len() != 2 {
        return None;
    }
    if !has_key(&fields[0], "node") {
        return None;
    }
    if !has_key(&fields[1], "value") {
        return None;
    }
    let node = match decode_node(&fields[0].value) {
        Some(x) => x,
        None => return None,
    };
    let value = match decode_expression(&fields[1].value) {
        Some(x) => x,
        None => return None,
    };
    let x = Statement::Return { node, value };
    assert(json_fields_view(fields@) =~= statement_document(x@)->Object_0[0].value->Object_0);
    Some(x)
}

/// Two values with the same document, one of them of the variant `return`, are the
/// same value.
proof fn lemma_statement_return_injective(a: StatementView, b: StatementView)
    requires
        a is Return,
        statement_document(a) == statement_document(b),
    ensures
        a == b,
    decreases a, 0nat,
{
    let listed = statement_document(a)->Object_0[0].value->Object_0;
    assert(statement_document(a) == variant("return"@, listed));
    lemma_statement_return_members(a, listed);
    lemma_statement_return_members(b, listed);
    match (a, b) {
        (StatementView::Return { node: a_node, value: a_value }, StatementView::Return { node: b_node, value: b_value }) => {
            lemma_expression_document_injective(a_value, b_value);
        },
        _ => {},
    }
}

/// A document of the variant `definition` is the document of a value of that variant,
/// and its members are the documents of the parts.
pub proof fn lemma_statement_definition_members(subject: StatementView, listed: Seq<JsonFieldView>)
    requires
        statement_document(subject) == variant("definition"@, listed),
    ensures
        subject matches StatementView::Definition(definition)
        && listed.len() == 1
        && listed[0] == field("definition"@, definition_document(definition)),
{
    lemma_statement_names();
    assert(statement_document(subject)->Object_0[0] == variant("definition"@, listed)->Object_0[0]);
    match subject {
        StatementView::Definition(definition) => {
            let parts = statement_document(subject)->Object_0[0].value->Object_0;
            assert(parts == listed);
            assert(parts.len() == 1);
            assert(parts[0] == field("definition"@, definition_document(definition)));
        },
        _ => {},
    }
}

/// Reads the parts of the variant `definition` from the members `fields`.
fn decode_statement_definition(fields: &Vec<JsonField>) -> (r: Option<Statement>)
    requires
        forall|i: int| 0 <= i < fields.len() ==> json_fields_view(fields@)[i] == (#[trigger] fields@[i])@,
    ensures
        match r {
            Some(x) => statement_document(x@) == variant("definition"@, json_fields_view(fields@)),
            None => forall|x: StatementView|
                #[trigger] statement_document(x) != variant("definition"@, json_fields_view(fields@)),
        },
    decreases fields, 0nat,
{
    let ghost whole = variant("definition"@, json_fields_view(fields@));
    let ghost listed = json_fields_view(fields@);
    assert forall|subject: StatementView| #[trigger] statement_document(subject) == whole implies
        subject matches StatementView::Definition(definition)
        && listed.len() == 1
        && listed[0] == field("definition"@, definition_document(definition)) by {
        lemma_statement_definition_members(subject, listed);
    }
    if fields.len() != 1 {
        return None;
    }
    if !has_key(&fields[0], "definition") {
        return None;
    }
    let definition = match decode_definition(&fields[0].value) {
        Some(x) => x,
        None => return None,
    };
    let x = Statement::Definition(definition);
    assert(json_fields_view(fields@) =~= statement_document(x@)->Object_0[0].value->Object_0);
    Some(x)
}

/// Two values with the same document, one of them of the variant `definition`, are the
/// same value.
proof fn lemma_statement_definition_injective(a: StatementView, b: StatementView)
    requires
        a is Definition,
        statement_document(a) == statement_document(b),
    ensures
        a == b,
    decreases a, 0nat,
{
    let listed = statement_document(a)->Object_0[0].value->Object_0;
    assert(statement_document(a) == variant("definition"@, listed));
    lemma_statement_definition_members(a, listed);
    lemma_statement_definition_members(b, listed);
    match (a, b) {
        (StatementView::Definition(a_definition), StatementView::Definition(b_definition)) => {
            lemma_definition_document_injective(a_definition, b_definition);
        },
        _ => {},
    }
}

/// A document of the variant `assign` is the document of a value of that variant,
/// and its members are the documents of the parts.
pub proof fn lemma_statement_assign_members(subject: StatementView, listed: Seq<JsonFieldView>)
    requires
        statement_document(subject) == variant("assign"@, listed),
    ensures
        subject matches StatementView::Assign { node, target, operation, value }
        && listed.len() == 4
        && listed[0] == field("node"@, node_document(node))
        && listed[1] == field("target"@, expression_document(target))
        && listed[2] == field("operation"@, optional_binary_operation_document(operation))
        && listed[3] == field("value"@, expression_document(value)),
{
    lemma_statement_names();
    assert(statement_document(subject)->Object_0[0] == variant("assign"@, listed)->Object_0[0]);
    match subject {
        StatementView::Assign { node, target, operation, value } => {
            let parts = statement_document(subject)->Object_0[0].value->Object_0;
            assert(parts == listed);
            assert(parts.len() == 4);
            assert(parts[0] == field("node"@, node_document(node)));
            assert(parts[1] == field("target"@, expression_document(target)));
            assert(parts[2] == field("operation"@, optional_binary_operation_document(operation)));
            assert(parts[3] == field("value"@, expression_document(value)));
        },
        _ => {},
    }
}

/// Reads the parts of the variant `assign` from the members `fields`.
fn decode_statement_assign(fields: &Vec<JsonField>) -> (r: Option<Statement>)
    requires
        forall|i: int| 0 <= i < fields.len() ==> json_fields_view(fields@)[i] == (#[trigger] fields@[i])@,
    ensures
        match r {
            Some(x) => statement_document(x@) == variant("assign"@, json_fields_view(fields@)),
            None => forall|x: StatementView|
                #[trigger] statement_document(x) != variant("assign"@, json_fields_view(fields@)),
        },
    decreases fields, 0nat,
{
    let ghost whole = variant("assign"@, json_fields_view(fields@));
    let ghost listed = json_fields_view(fields@);
    assert forall|subject: StatementView| #[trigger] statement_document(subject) == whole implies
        subject matches StatementView::Assign { node, target, operation, value }
        && listed.len() == 4
        && listed[0] == field("node"@, node_document(node))
        && listed[1] == field("target"@, expression_document(target))
        && listed[2] == field("operation"@, optional_binary_operation_document(operation))
        && listed[3] == field("value"@, expression_document(value)) by {
        lemma_statement_assign_members(subject, listed);
    }
    if fields.len() != 4 {
        return None;
    }
    if !has_key(&fields[0], "node") {
        return None;
    }
    if !has_key(&fields[1], "target") {
        return None;
    }
    if !has_key(&fields[2], "operation") {
        return None;
    }
    if !has_key(&fields[3], "value") {
        return None;
    }
    let node = match decode_node(&fields[0].value) {
        Some(x) => x,
        None => return None,
    };
    let target = match decode_expression(&fields[1].value) {
        Some(x) => x,
        None => return None,
    };
    let operation = match decode_optional_binary_operation(&fields[2].value) {
        Some(x) => x,
        None => return None,
    };
    let value = match decode_expression(&fields[3].value) {
        Some(x) => x,
        None => return None,
    };
    let x = Statement::Assign { node, target, operation, value };
    assert(json_fields_view(fields@) =~= statement_document(x@)->Object_0[0].value->Object_0);
    Some(x)
}

/// Two values with the same document, one of them of the variant `assign`, are the
/// same value.
proof fn lemma_statement_assign_injective(a: StatementView, b: StatementView)
    requires
        a is Assign,
        statement_document(a) == statement_document(b),
    ensures
        a == b,
    decreases a, 0nat,
{
    let listed = statement_document(a)->Object_0[0].value->Object_0;
    assert(statement_document(a) == variant("assign"@, listed));
    lemma_statement_assign_members(a, listed);
    lemma_statement_assign_members(b, listed);
    match (a, b) {
        (StatementView::Assign { node: a_node, target: a_target, operation: a_operation, value: a_value }, StatementView::Assign { node: b_node, target: b_target, operation: b_operation, value: b_value }) => {
            lemma_expression_document_injective(a_target, b_target);
            lemma_optional_binary_operation_document_injective(a_operation, b_operation);
            lemma_expression_document_injective(a_value, b_value);
        },
        _ => {},
    }
}

/// A document of the variant `conditional` is the document of a value of that variant,
/// and its members are the documents of the parts.
pub proof fn lemma_statement_conditional_members(subject: StatementView, listed: Seq<JsonFieldView>)
    requires
        statement_document(subject) == variant("conditional"@, listed),
    ensures
        subject matches StatementView::Conditional { node, condition, then_block, otherwise }
        && listed.len() == 4
        && listed[0] == field("node"@, node_document(node))
        && listed[1] == field("condition"@, expression_document(condition))
        && listed[2] == field("then_block"@, block_document(then_block))
        && listed[3] == field("otherwise"@, optional_boxed_statement_document(otherwise)),
{
    lemma_statement_names();
    assert(statement_document(subject)->Object_0[0] == variant("conditional"@, listed)->Object_0[0]);
    match subject {
        StatementView::Conditional { node, condition, then_block, otherwise } => {
            let parts = statement_document(subject)->Object_0[0].value->Object_0;
            assert(parts == listed);
            assert(parts.len() == 4);
            assert(parts[0] == field("node"@, node_document(node)));
            assert(parts[1] == field("condition"@, expression_document(condition)));
            assert(parts[2] == field("then_block"@, block_document(then_block)));
            assert(parts[3] == field("otherwise"@, optional_boxed_statement_document(otherwise)));
        },
        _ => {},
    }
}

/// Reads the parts of the variant `conditional` from the members `fields`.
fn decode_statement_conditional(fields: &Vec<JsonField>) -> (r: Option<Statement>)
    requires
        forall|i: int| 0 <= i < fields.len() ==> json_fields_view(fields@)[i] == (#[trigger] fields@[i])@,
    ensures
        match r {
            Some(x) => statement_document(x@) == variant("conditional"@, json_fields_view(fields@)),
            None => forall|x: StatementView|
                #[trigger] statement_document(x) != variant("conditional"@, json_fields_view(fields@)),
        },
    decreases fields, 0nat,
{
    let ghost whole = variant("conditional"@, json_fields_view(fields@));
    let ghost listed = json_fields_view(fields@);
    assert forall|subject: StatementView| #[trigger] statement_document(subject) == whole implies
        subject matches StatementView::Conditional { node, condition, then_block, otherwise }
        && listed.len() == 4
        && listed[0] == field("node"@, node_document(node))
        && listed[1] == field("condition"@, expression_document(condition))
        && listed[2] == field("then_block"@, block_document(then_block))
        && listed[3] == field("otherwise"@, optional_boxed_statement_document(otherwise)) by {
        lemma_statement_conditional_members(subject, listed);
    }
    if fields.len() != 4 {
        return None;
    }
    if !has_key(&fields[0], "node") {
        return None;
    }
    if !has_key(&fields[1], "condition") {
        return None;
    }
    if !has_key(&fields[2], "then_block") {
        return None;
    }
    if !has_key(&fields[3], "otherwise") {
        return None;
    }
    let node = match decode_node(&fields[0].value) {
        Some(x) => x,
        None => return None,
    };
    let condition = match decode_expression(&fields[1].value) {
        Some(x) => x,
        None => return None,
    };
    let then_block = match decode_block(&fields[2].value) {
        Some(x) => x,
        None => return None,
    };
    let otherwise = match decode_optional_boxed_statement(&fields[3].value) {
        Some(x) => x,
        None => return None,
    };
    let x = Statement::Conditional { node, condition, then_block, otherwise };
    assert(json_fields_view(fields@) =~= statement_document(x@)->Object_0[0].value->Object_0);
    Some(x)
}

/// Two values with the same document, one of them of the variant `conditional`, are the
/// same value.
proof fn lemma_statement_conditional_injective(a: StatementView, b: StatementView)
    requires
        a is Conditional,
        statement_document(a) == statement_document(b),
    ensures
        a == b,
    decreases a, 0nat,
{
    let listed = statement_document(a)->Object_0[0].value->Object_0;
    assert(statement_document(a) == variant("conditional"@, listed));
    lemma_statement_conditional_members(a, listed);
    lemma_statement_conditional_members(b, listed);
    match (a, b) {
        (StatementView::Conditional { node: a_node, condition: a_condition, then_block: a_then_block, otherwise: a_otherwise }, StatementView::Conditional { node: b_node, condition: b_condition, then_block: b_then_block, otherwise: b_otherwise }) => {
            lemma_expression_document_injective(a_condition, b_condition);
            lemma_block_document_injective(a_then_block, b_then_block);
            lemma_optional_boxed_statement_document_injective(a_otherwise, b_otherwise);
        },
        _ => {},
    }
}

/// A document of the variant `iteration` is the document of a value of that variant,
/// and its members are the documents of the parts.
pub proof fn lemma_statement_iteration_members(subject: StatementView, listed: Seq<JsonFieldView>)
    requires
        statement_document(subject) == variant("iteration"@, listed),
    ensures
        subject matches StatementView::Iteration { node, variable, start, stop, body }
        && listed.len() == 5
        && listed[0] == field("node"@, node_document(node))
        && listed[1] == field("variable"@, text_document(variable))
        && listed[2] == field("start"@, expression_document(start))
        && listed[3] == field("stop"@, expression_document(stop))
        && listed[4] == field("body"@, block_document(body)),
{
    lemma_statement_names();
    assert(statement_document(subject)->Object_0[0] == variant("iteration"@, listed)->Object_0[0]);
    match subject {
        StatementView::Iteration { node, variable, start, stop, body } => {
            let parts = statement_document(subject)->Object_0[0].value->Object_0;
            assert(parts == listed);
            assert(parts.len() == 5);
            assert(parts[0] == field("node"@, node_document(node)));
            assert(parts[1] == field("variable"@, text_document(variable)));
            assert(parts[2] == field("start"@, expression_document(start)));
            assert(parts[3] == field("stop"@, expression_document(stop)));
            assert(parts[4] == field("body"@, block_document(body)));
        },
        _ => {},
    }
}

/// Reads the parts of the variant `iteration` from the members `fields`.
fn decode_statement_iteration(fields: &Vec<JsonField>) -> (r: Option<Statement>)
    requires
        forall|i: int| 0 <= i < fields.len() ==> json_fields_view(fields@)[i] == (#[trigger] fields@[i])@,
    ensures
        match r {
            Some(x) => statement_document(x@) == variant("iteration"@, json_fields_view(fields@)),
            None => forall|x: StatementView|
                #[trigger] statement_document(x) != variant("iteration"@, json_fields_view(fields@)),
        },
    decreases fields, 0nat,
{
    let ghost whole = variant("iteration"@, json_fields_view(fields@));
    let ghost listed = json_fields_view(fields@);
    assert forall|subject: StatementView| #[trigger] statement_document(subject) == whole implies
        subject matches StatementView::Iteration { node, variable, start, stop, body }
        && listed.len() == 5
        && listed[0] == field("node"@, node_document(node))
        && listed[1] == field("variable"@, text_document(variable))
        && listed[2] == field("start"@, expression_document(start))
        && listed[3] == field("stop"@, expression_document(stop))
        && listed[4] == field("body"@, block_document(body)) by {
        lemma_statement_iteration_members(subject, listed);
    }
    if fields.len() != 5 {
        return None;
    }
    if !has_key(&fields[0], "node") {
        return None;
    }
    if !has_key(&fields[1], "variable") {
        return None;
    }
    if !has_key(&fields[2], "start") {
        return None;
    }
    if !has_key(&fields[3], "stop") {
        return None;
    }
    if !has_key(&fields[4], "body") {
        return None;
    }
    let node = match decode_node(&fields[0].value) {
        Some(x) => x,
        None => return None,
    };
    let variable = match decode_text(&fields[1].value) {
        Some(x) => x,
        None => return None,
    };
    let start = match decode_expression(&fields[2].value) {
        Some(x) => x,
        None => return None,
    };
    let stop = match decode_expression(&fields[3].value) {
        Some(x) => x,
        None => return None,
    };
    let body = match decode_block(&fields[4].value) {
        Some(x) => x,
        None => return None,
    };
    let x = Statement::Iteration { node, variable, start, stop, body };
    assert(json_fields_view(fields@) =~= statement_document(x@)->Object_0[0].value->Object_0);
    Some(x)
}

/// Two values with the same document, one of them of the variant `iteration`, are the
/// same value.
proof fn lemma_statement_iteration_injective(a: StatementView, b: StatementView)
    requires
        a is Iteration,
        statement_document(a) == statement_document(b),
    ensures
        a == b,
    decreases a, 0nat,
{
    let listed = statement_document(a)->Object_0[0].value->Object_0;
    assert(statement_document(a) == variant("iteration"@, listed));
    lemma_statement_iteration_members(a, listed);
    lemma_statement_iteration_members(b, listed);
    match (a, b) {
        (StatementView::Iteration { node: a_node, variable: a_variable, start: a_start, stop: a_stop, body: a_body }, StatementView::Iteration { node: b_node, variable: b_variable, start: b_start, stop: b_stop, body: b_body }) => {
            lemma_expression_document_injective(a_start, b_start);
            lemma_expression_document_injective(a_stop, b_stop);
            lemma_block_document_injective(a_body, b_body);
        },
        _ => {},
    }
}

/// A document of the variant `expression` is the document of a value of that variant,
/// and its members are the documents of the parts.
pub proof fn lemma_statement_expression_members(subject: StatementView, listed: Seq<JsonFieldView>)
    requires
        statement_document(subject) == variant("expression"@, listed),
    ensures
        subject matches StatementView::Expression { node, expression }
        && listed.len() == 2
        && listed[0] == field("node"@, node_document(node))
        && listed[1] == field("expression"@, expression_document(expression)),
{
    lemma_statement_names();
    assert(statement_document(subject)->Object_0[0] == variant("expression"@, listed)->Object_0[0]);
    match subject {
        StatementView::Expression { node, expression } => {
            let parts = statement_document(subject)->Object_0[0].value->Object_0;
            assert(parts == listed);
            assert(parts.len() == 2);
            assert(parts[0] == field("node"@, node_document(node)));
            assert(parts[1] == field("expression"@, expression_document(expression)));
        },
        _ => {},
    }
}

/// Reads the parts of the variant `expression` from the members `fields`.
fn decode_statement_expression(fields: &Vec<JsonField>) -> (r: Option<Statement>)
    requires
        forall|i: int| 0 <= i < fields.len() ==> json_fields_view(fields@)[i] == (#[trigger] fields@[i])@,
    ensures
        match r {
            Some(x) => statement_document(x@) == variant("expression"@, json_fields_view(fields@)),
            None => forall|x: StatementView|
                #[trigger] statement_document(x) != variant("expression"@, json_fields_view(fields@)),
        },
    decreases fields, 0nat,
{
    let ghost whole = variant("expression"@, json_fields_view(fields@));
    let ghost listed = json_fields_view(fields@);
    assert forall|subject: StatementView| #[trigger] statement_document(subject) == whole implies
        subject matches StatementView::Expression { node, expression }
        && listed.len() == 2
        && listed[0] == field("node"@, node_document(node))
        && listed[1] == field("expression"@, expression_document(expression)) by {
        lemma_statement_expression_members(subject, listed);
    }
    if fields.len() != 2 {
        return None;
    }
    if !has_key(&fields[0], "node") {
        return None;
    }
    if !has_key(&fields[1], "expression") {
        return None;
    }
    let node = match decode_node(&fields[0].value) {
        Some(x) => x,
        None => return None,
    };
    let expression = match decode_expression(&fields[1].value) {
        Some(x) => x,
        None => return None,
    };
    let x = Statement::Expression { node, expression };
    assert(json_fields_view(fields@) =~= statement_document(x@)->Object_0[0].value->Object_0);
    Some(x)
}

/// Two values with the same document, one of them of the variant `expression`, are the
/// same value.
proof fn lemma_statement_expression_injective(a: StatementView, b: StatementView)
    requires
        a is Expression,
        statement_document(a) == statement_document(b),
    ensures
        a == b,
    decreases a, 0nat,
{
    let listed = statement_document(a)->Object_0[0].value->Object_0;
    assert(statement_document(a) == variant("expression"@, listed));
    lemma_statement_expression_members(a, listed);
    lemma_statement_expression_members(b, listed);
    match (a, b) {
        (StatementView::Expression { node: a_node, expression: a_expression }, StatementView::Expression { node: b_node, expression: b_expression }) => {
            lemma_expression_document_injective(a_expression, b_expression);
        },
        _ => {},
    }
}

/// A document of the variant `block` is the document of a value of that variant,
/// and its members are the documents of the parts.
pub proof fn lemma_statement_block_members(subject: StatementView, listed: Seq<JsonFieldView>)
    requires
        statement_document(subject) == variant("block"@, listed),
    ensures
        subject matches StatementView::Block(block)
        && listed.len() == 1
        && listed[0] == field("block"@, block_document(block)),
{
    lemma_statement_names();
    assert(statement_document(subject)->Object_0[0] == variant("block"@, listed)->Object_0[0]);
    match subject {
        StatementView::Block(block) => {
            let parts = statement_document(subject)->Object_0[0].value->Object_0;
            assert(parts == listed);
            assert(parts.len() == 1);
            assert(parts[0] == field("block"@, block_document(block)));
        },
        _ => {},
    }
}

/// Reads the parts of the variant `block` from the members `fields`.
fn decode_statement_block(fields: &Vec<JsonField>) -> (r: Option<Statement>)
    requires
        forall|i: int| 0 <= i < fields.len() ==> json_fields_view(fields@)[i] == (#[trigger] fields@[i])@,
    ensures
        match r {
            Some(x) => statement_document(x@) == variant("block"@, json_fields_view(fields@)),
            None => forall|x: StatementView|
                #[trigger] statement_document(x) != variant("block"@, json_fields_view(fields@)),
        },
    decreases fields, 0nat,
{
    let ghost whole = variant("block"@, json_fields_view(fields@));
    let ghost listed = json_fields_view(fields@);
    assert forall|subject: StatementView| #[trigger] statement_document(subject) == whole implies
        subject matches StatementView::Block(block)
        && listed.len() == 1
        && listed[0] == field("block"@, block_document(block)) by {
        lemma_statement_block_members(subject, listed);
    }
    if fields.len() != 1 {
        return None;
    }
    if !has_key(&fields[0], "block") {
        return None;
    }
    let block = match decode_block(&fields[0].value) {
        Some(x) => x,
        None => return None,
    };
    let x = Statement::Block(block);
    assert(json_fields_view(fields@) =~= statement_document(x@)->Object_0[0].value->Object_0);
    Some(x)
}

/// Two values with the same document, one of them of the variant `block`, are the
/// same value.
proof fn lemma_statement_block_injective(a: StatementView, b: StatementView)
    requires
        a is Block,
        statement_document(a) == statement_document(b),
    ensures
        a == b,
    decreases a, 0nat,
{
    let listed = statement_document(a)->Object_0[0].value->Object_0;
    assert(statement_document(a) == variant("block"@, listed));
    lemma_statement_block_members(a, listed);
    lemma_statement_block_members(b, listed);
    match (a, b) {
        (StatementView::Block(a_block), StatementView::Block(b_block)) => {
            lemma_block_document_injective(a_block, b_block);
        },
        _ => {},
    }
}

/// Writes a statement as a document.
pub fn encode_statement(this: &Statement) -> (r: Json)
    ensures
        r@ == statement_document(this@),
    decreases this,
{
    match this {
        Statement::Return { node, value } => variant_of(
            "return",
            members_2(
                "node",
                encode_node(node),
                "value",
                encode_expression(value),
            ),
        ),
        Statement::Definition(definition) => variant_of(
            "definition",
            members_1(
                "definition",
                encode_definition(definition),
            ),
        ),
        Statement::Assign { node, target, operation, value } => variant_of(
            "assign",
            members_4(
                "node",
                encode_node(node),
                "target",
                encode_expression(target),
                "operation",
                encode_optional_binary_operation(operation),
                "value",
                encode_expression(value),
            ),
        ),
        Statement::Conditional { node, condition, then_block, otherwise } => variant_of(
            "conditional",
            members_4(
                "node",
                encode_node(node),
                "condition",
                encode_expression(condition),
                "then_block",
                encode_block(then_block),
                "otherwise",
                encode_optional_boxed_statement(otherwise),
            ),
        ),
        Statement::Iteration { node, variable, start, stop, body } => variant_of(
            "iteration",
            members_5(
                "node",
                encode_node(node),
                "variable",
                encode_text(variable),
                "start",
                encode_expression(start),
                "stop",
                encode_expression(stop),
                "body",
                encode_block(body),
            ),
        ),
        Statement::Expression { node, expression } => variant_of(
            "expression",
            members_2(
                "node",
                encode_node(node),
                "expression",
                encode_expression(expression),
            ),
        ),
        Statement::Block(block) => variant_of(
            "block",
            members_1(
                "block",
                encode_block(block),
            ),
        ),
    }
}

/// Reads a statement from the document `j`, if `j` is the document of one.
pub fn decode_statement(j: &Json) -> (r: Option<Statement>)
    ensures
        match r {
            Some(x) => statement_document(x@) == j@,
            None => forall|x: StatementView| #[trigger] statement_document(x) != j@,
        },
    decreases j, 0nat,
{
    match j {
        _ => {
            let (tag, fields) = match variant_parts(j) {
                Some(parts) => parts,
                None => {
                    assert forall|x: StatementView| #[trigger] statement_document(x) != j@ by {
                        if statement_document(x) == j@ {
                            assert(statement_document(x) == variant(
                                statement_document(x)->Object_0[0].key,
                                statement_document(x)->Object_0[0].value->Object_0,
                            ));
                        }
                    }
                    return None;
                },
            };
            if text_is(tag, "return") {
                decode_statement_return(fields)
            } else if text_is(tag, "definition") {
                decode_statement_definition(fields)
            } else if text_is(tag, "assign") {
                decode_statement_assign(fields)
            } else if text_is(tag, "conditional") {
                decode_statement_conditional(fields)
            } else if text_is(tag, "iteration") {
                decode_statement_iteration(fields)
            } else if text_is(tag, "expression") {
                decode_statement_expression(fields)
            } else if text_is(tag, "block") {
                decode_statement_block(fields)
            } else {
                assert forall|x: StatementView| #[trigger] statement_document(x) != j@ by {
                    if statement_document(x) == j@ {
                        assert(statement_document(x)->Object_0[0] == j@->Object_0[0]);
                    }
                }
                None
            }
        },
    }
}

/// Two values with the same document are the same value.
pub proof fn lemma_statement_document_injective(a: StatementView, b: StatementView)
    requires
        statement_document(a) == statement_document(b),
    ensures
        a == b,
    decreases a, 1nat,
{
    match a {
        StatementView::Return { .. } => {
            lemma_statement_return_injective(a, b);
        },
        StatementView::Definition(..) => {
            lemma_statement_definition_injective(a, b);
        },
        StatementView::Assign { .. } => {
            lemma_statement_assign_injective(a, b);
        },
        StatementView::Conditional { .. } => {
            lemma_statement_conditional_injective(a, b);
        },
        StatementView::Iteration { .. } => {
            lemma_statement_iteration_injective(a, b);
        },
        StatementView::Expression { .. } => {
            lemma_statement_expression_injective(a, b);
        },
        StatementView::Block(..) => {
            lemma_statement_block_injective(a, b);
        },
    }
}

/// The document of a block: an object with one member for each part.
pub open spec fn block_document(x: BlockView) -> JsonView
    decreases x, 0nat,
{
    JsonView::Object(
        seq![
            field("node"@, node_document(x.node)),
            field("statements"@, statements_document(x.statements)),
        ],
    )
}

/// The members of the document of a block, one by one.
pub proof fn lemma_block_document_members(subject: BlockView, listed: Seq<JsonFieldView>)
    requires
        block_document(subject) == JsonView::Object(listed),
    ensures
        listed.len() == 2,
        listed[0] == field("node"@, node_document(subject.node)),
        listed[1] == field("statements"@, statements_document(subject.statements)),
{
    let parts = block_document(subject)->Object_0;
    assert(parts == listed);
    assert(parts.len() == 2);
    assert(parts[0] == field("node"@, node_document(subject.node)));
    assert(parts[1] == field("statements"@, statements_document(subject.statements)));
}

/// Writes a block as a document.
pub fn encode_block(x: &Block) -> (r: Json)
    ensures
        r@ == block_document(x@),
    decreases x,
{
    let fields = members_2(
        "node",
        encode_node(&x.node),
        "statements",
        encode_statements(&x.statements),
    );
    Json::Object(fields)
}

/// Reads a block from the document `j`, if `j` is the document of one.
pub fn decode_block(j: &Json) -> (r: Option<Block>)
    ensures
        match r {
            Some(x) => block_document(x@) == j@,
            None => forall|x: BlockView| #[trigger] block_document(x) != j@,
        },
    decreases j, 0nat,
{
    let fields = match object_fields(j, 2) {
        Some(fields) => fields,
        None => return None,
    };
    let ghost listed = json_fields_view(fields@);
    assert forall|subject: BlockView| #[trigger] block_document(subject) == j@ implies
        listed.len() == 2
        && listed[0] == field("node"@, node_document(subject.node))
        && listed[1] == field("statements"@, statements_document(subject.statements)) by {
        lemma_block_document_members(subject, listed);
    }
    if !has_key(&fields[0], "node") {
        return None;
    }
    if !has_key(&fields[1], "statements") {
        return None;
    }
    let node = match decode_node(&fields[0].value) {
        Some(x) => x,
        None => return None,
    };
    let statements = match decode_statements(&fields[1].value) {
        Some(x) => x,
        None => return None,
    };
    let x = Block { node, statements };
    assert(json_fields_view(fields@) =~= block_document(x@)->Object_0);
    Some(x)
}

/// Two values with the same document are the same value.
pub proof fn lemma_block_document_injective(a: BlockView, b: BlockView)
    requires
        block_document(a) == block_document(b),
    ensures
        a == b,
    decreases a, 0nat,
{
    let listed = block_document(a)->Object_0;
    lemma_block_document_members(a, listed);
    lemma_block_document_members(b, listed);
    lemma_statements_document_injective(a.statements, b.statements);
}

/// The document of a list of statements: the array of their documents, in order.
pub open spec fn statements_document(s: Seq<StatementView>) -> JsonView
    decreases s, 1nat,
{
    JsonView::Array(
        Seq::new(s.len(), |i: int| if 0 <= i < s.len() { statement_document(s[i]) } else { arbitrary() }),
    )
}

/// Writes a list of statements as a document.
#[verifier::loop_isolation(false)]
pub fn encode_statements(s: &Vec<Statement>) -> (r: Json)
    ensures
        r@ == statements_document(statements_view(s@)),
    decreases s,
{
    let mut out: Vec<Json> = Vec::new();
    let mut i: usize = 0;
    while i < s.len()
        invariant
            i <= s.len(),
            out.len() == i,
            forall|k: int| 0 <= k < i ==> (#[trigger] out[k])@ == statement_document(s[k]@),
        decreases s.len() - i,
    {
        out.push(encode_statement(&s[i]));
        i = i + 1;
    }
    assert forall|k: int| 0 <= k < s.len() implies jsons_view(out@)[k] == statements_document(
        statements_view(s@),
    )->Array_0[k] by {
        assert(statements_view(s@)[k] == s[k]@);
        assert(jsons_view(out@)[k] == out[k]@);
    }
    assert(jsons_view(out@) =~= statements_document(statements_view(s@))->Array_0);
    Json::Array(out)
}

/// Reads a list of statements from the document `j`, if `j` is the document of one.
#[verifier::loop_isolation(false)]
pub fn decode_statements(j: &Json) -> (r: Option<Vec<Statement>>)
    ensures
        match r {
            Some(s) => statements_document(statements_view(s@)) == j@,
            None => forall|s: Seq<StatementView>| #[trigger] statements_document(s) != j@,
        },
    decreases j, 0nat,
{
    match j {
        Json::Array(items) => {
            let mut out: Vec<Statement> = Vec::new();
            let mut i: usize = 0;
            while i < items.len()
                invariant
                    i <= items.len(),
                    out.len() == i,
                    *j == Json::Array(*items),
                    forall|k: int| 0 <= k < i ==> (#[trigger] items[k])@ == statement_document(out[k]@),
                decreases items.len() - i,
            {
                match decode_statement(&items[i]) {
                    Some(x) => {
                        out.push(x);
                    },
                    None => {
                        assert(j@ == JsonView::Array(jsons_view(items@)));
                        assert(jsons_view(items@)[i as int] == items[i as int]@);
                        assert forall|s: Seq<StatementView>| #[trigger] statements_document(s) != j@ by {
                            if statements_document(s) == j@ {
                                assert(statements_document(s)->Array_0 == jsons_view(items@));
                                assert(statements_document(s)->Array_0.len() == s.len());
                                assert(jsons_view(items@).len() == items.len());
                                assert(statements_document(s)->Array_0[i as int] == statement_document(s[i as int]));
                            }
                        }
                        return None;
                    },
                }
                i = i + 1;
            }
            assert forall|k: int| 0 <= k < items.len() implies jsons_view(items@)[k] == statements_document(
                statements_view(out@),
            )->Array_0[k] by {
                assert(statements_view(out@)[k] == out[k]@);
                assert(jsons_view(items@)[k] == items[k]@);
            }
            assert(jsons_view(items@) =~= statements_document(statements_view(out@))->Array_0);
            Some(out)
        },
        _ => None,
    }
}

/// Two lists with the same document are the same list.
pub proof fn lemma_statements_document_injective(a: Seq<StatementView>, b: Seq<StatementView>)
    requires
        statements_document(a) == statements_document(b),
    ensures
        a == b,
    decreases a, 1nat,
{
    let da = statements_document(a)->Array_0;
    let db = statements_document(b)->Array_0;
    assert(da.len() == a.len() && db.len() == b.len());
    assert forall|i: int| 0 <= i < a.len() implies a[i] == b[i] by {
        assert(da[i] == statement_document(a[i]));
        assert(db[i] == statement_document(b[i]));
        lemma_statement_document_injective(a[i], b[i]);
    }
    assert(a =~= b);
}

/// The document of a statement that may be missing: its document, or `null` where
/// it is missing.
pub open spec fn optional_boxed_statement_document(x: Option<Box<StatementView>>) -> JsonView
    decreases x, 0nat,
{
    match x {
        Some(x) => statement_document(*x),
        None => JsonView::Null,
    }
}

/// Writes a statement that may be missing as a document.
pub fn encode_optional_boxed_statement(x: &Option<Box<Statement>>) -> (r: Json)
    ensures
        r@ == optional_boxed_statement_document(optional_boxed_statement_view(*x)),
    decreases x,
{
    match x {
        Some(x) => encode_statement(&**x),
        None => Json::Null,
    }
}

/// Reads a statement that may be missing from the document `j`.
pub fn decode_optional_boxed_statement(j: &Json) -> (r: Option<Option<Box<Statement>>>)
    ensures
        match r {
            Some(x) => optional_boxed_statement_document(optional_boxed_statement_view(x)) == j@,
            None => forall|x: Option<Box<StatementView>>| #[trigger] optional_boxed_statement_document(x) != j@,
        },
    decreases j, 1nat,
{
    match j {
        Json::Null => Some(None),
        _ => {
            assert(j@ != JsonView::Null);
            match decode_statement(j) {
                Some(x) => Some(Some(Box::new(x))),
                None => {
                    assert forall|x: Option<Box<StatementView>>| #[trigger] optional_boxed_statement_document(x) != j@ by {
                        match x {
                            Some(inner) => {
                                assert(statement_document(*inner) != j@);
                            },
                            None => {},
                        }
                    }
                    None
                },
            }
        },
    }
}

/// Two optional values with the same document are the same.
pub proof fn lemma_optional_boxed_statement_document_injective(a: Option<Box<StatementView>>, b: Option<Box<StatementView>>)
    requires
        optional_boxed_statement_document(a) == optional_boxed_statement_document(b),
    ensures
        a == b,
    decreases a, 0nat,
{
    match (a, b) {
        (Some(x), Some(y)) => {
            lemma_statement_document_injective(*x, *y);
        },
        _ => {},
    }
}
} // verus!
