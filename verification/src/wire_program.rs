//! The documents of programs and their declarations.

use vstd::prelude::*;
use crate::document::{
    decode_node, decode_optional_text, decode_text, decode_texts, encode_node, encode_optional_text,
    encode_text, encode_texts, has_key, lemma_texts_document_injective, members_3, members_4,
    members_6, node_document, object_fields, optional_text_document, text_document, texts_document,
};
use crate::json::{field, json_fields_view, jsons_view, Json, JsonFieldView, JsonView};
use crate::program::{
    annotations_view, circuit_members_view, circuits_view, functions_view, imports_view, inputs_view,
    Annotation, AnnotationView, Circuit, CircuitMember, CircuitMemberView, CircuitView, Function,
    FunctionInput, FunctionInputView, FunctionView, Import, ImportView, Program, ProgramView,
};
use crate::wire_statements::{
    block_document, decode_block, decode_definitions, definitions_document, encode_block,
    encode_definitions, lemma_block_document_injective, lemma_definitions_document_injective,
};
use crate::wire_types::{
    decode_input_mode, decode_optional_type, decode_type, encode_input_mode, encode_optional_type,
    encode_type, input_mode_document, lemma_input_mode_document_injective,
    lemma_optional_type_document_injective, lemma_type_document_injective, optional_type_document,
    type_document,
};

verus! {
/// The document of an import: an object with one member for each part.
pub open spec fn import_document(x: ImportView) -> JsonView
{
    JsonView::Object(
        seq![
            field("node"@, node_document(x.node)),
            field("path"@, texts_document(x.path)),
            field("alias"@, optional_text_document(x.alias)),
            field("symbols"@, texts_document(x.symbols)),
        ],
    )
}

/// The members of the document of an import, one by one.
pub proof fn lemma_import_document_members(subject: ImportView, listed: Seq<JsonFieldView>)
    requires
        import_document(subject) == JsonView::Object(listed),
    ensures
        listed.len() == 4,
        listed[0] == field("node"@, node_document(subject.node)),
        listed[1] == field("path"@, texts_document(subject.path)),
        listed[2] == field("alias"@, optional_text_document(subject.alias)),
        listed[3] == field("symbols"@, texts_document(subject.symbols)),
{
    let parts = import_document(subject)->Object_0;
    assert(parts == listed);
    assert(parts.len() == 4);
    assert(parts[0] == field("node"@, node_document(subject.node)));
    assert(parts[1] == field("path"@, texts_document(subject.path)));
    assert(parts[2] == field("alias"@, optional_text_document(subject.alias)));
    assert(parts[3] == field("symbols"@, texts_document(subject.symbols)));
}

/// Writes an import as a document.
pub fn encode_import(x: &Import) -> (r: Json)
    ensures
        r@ == import_document(x@),
{
    let fields = members_4(
        "node",
        encode_node(&x.node),
        "path",
        encode_texts(&x.path),
        "alias",
        encode_optional_text(&x.alias),
        "symbols",
        encode_texts(&x.symbols),
    );
    Json::Object(fields)
}

/// Reads an import from the document `j`, if `j` is the document of one.
pub fn decode_import(j: &Json) -> (r: Option<Import>)
    ensures
        match r {
            Some(x) => import_document(x@) == j@,
            None => forall|x: ImportView| #[trigger] import_document(x) != j@,
        },
{
    let fields = match object_fields(j, 4) {
        Some(fields) => fields,
        None => return None,
    };
    let ghost listed = json_fields_view(fields@);
    assert forall|subject: ImportView| #[trigger] import_document(subject) == j@ implies
        listed.len() == 4
        && listed[0] == field("node"@, node_document(subject.node))
        && listed[1] == field("path"@, texts_document(subject.path))
        && listed[2] == field("alias"@, optional_text_document(subject.alias))
        && listed[3] == field("symbols"@, texts_document(subject.symbols)) by {
        lemma_import_document_members(subject, listed);
    }
    if !has_key(&fields[0], "node") {
        return None;
    }
    if !has_key(&fields[1], "path") {
        return None;
    }
    if !has_key(&fields[2], "alias") {
        return None;
    }
    if !has_key(&fields[3], "symbols") {
        return None;
    }
    let node = match decode_node(&fields[0].value) {
        Some(x) => x,
        None => return None,
    };
    let path = match decode_texts(&fields[1].value) {
        Some(x) => x,
        None => return None,
    };
    let alias = match decode_optional_text(&fields[2].value) {
        Some(x) => x,
        None => return None,
    };
    let symbols = match decode_texts(&fields[3].value) {
        Some(x) => x,
        None => return None,
    };
    let x = Import { node, path, alias, symbols };
    assert(json_fields_view(fields@) =~= import_document(x@)->Object_0);
    Some(x)
}

/// Two values with the same document are the same value.
pub proof fn lemma_import_document_injective(a: ImportView, b: ImportView)
    requires
        import_document(a) == import_document(b),
    ensures
        a == b,
{
    let listed = import_document(a)->Object_0;
    lemma_import_document_members(a, listed);
    lemma_import_document_members(b, listed);
    lemma_texts_document_injective(a.path, b.path);
    lemma_texts_document_injective(a.symbols, b.symbols);
}

/// The document of a list of imports: the array of their documents, in order.
pub open spec fn imports_document(s: Seq<ImportView>) -> JsonView
{
    JsonView::Array(
        Seq::new(s.len(), |i: int| if 0 <= i < s.len() { import_document(s[i]) } else { arbitrary() }),
    )
}

/// Writes a list of imports as a document.
pub fn encode_imports(s: &Vec<Import>) -> (r: Json)
    ensures
        r@ == imports_document(imports_view(s@)),
{
    let mut out: Vec<Json> = Vec::new();
    let mut i: usize = 0;
    while i < s.len()
        invariant
            i <= s.len(),
            out.len() == i,
            forall|k: int| 0 <= k < i ==> (#[trigger] out[k])@ == import_document(s[k]@),
        decreases s.len() - i,
    {
        out.push(encode_import(&s[i]));
        i = i + 1;
    }
    assert forall|k: int| 0 <= k < s.len() implies jsons_view(out@)[k] == imports_document(
        imports_view(s@),
    )->Array_0[k] by {
        assert(imports_view(s@)[k] == s[k]@);
        assert(jsons_view(out@)[k] == out[k]@);
    }
    assert(jsons_view(out@) =~= imports_document(imports_view(s@))->Array_0);
    Json::Array(out)
}

/// Reads a list of imports from the document `j`, if `j` is the document of one.
pub fn decode_imports(j: &Json) -> (r: Option<Vec<Import>>)
    ensures
        match r {
            Some(s) => imports_document(imports_view(s@)) == j@,
            None => forall|s: Seq<ImportView>| #[trigger] imports_document(s) != j@,
        },
{
    match j {
        Json::Array(items) => {
            let mut out: Vec<Import> = Vec::new();
            let mut i: usize = 0;
            while i < items.len()
                invariant
                    i <= items.len(),
                    out.len() == i,
                    *j == Json::Array(*items),
                    forall|k: int| 0 <= k < i ==> (#[trigger] items[k])@ == import_document(out[k]@),
                decreases items.len() - i,
            {
                match decode_import(&items[i]) {
                    Some(x) => {
                        out.push(x);
                    },
                    None => {
                        assert(j@ == JsonView::Array(jsons_view(items@)));
                        assert(jsons_view(items@)[i as int] == items[i as int]@);
                        assert forall|s: Seq<ImportView>| #[trigger] imports_document(s) != j@ by {
                            if imports_document(s) == j@ {
                                assert(imports_document(s)->Array_0 == jsons_view(items@));
                                assert(imports_document(s)->Array_0.len() == s.len());
                                assert(jsons_view(items@).len() == items.len());
                                assert(imports_document(s)->Array_0[i as int] == import_document(s[i as int]));
                            }
                        }
                        return None;
                    },
                }
                i = i + 1;
            }
            assert forall|k: int| 0 <= k < items.len() implies jsons_view(items@)[k] == imports_document(
                imports_view(out@),
            )->Array_0[k] by {
                assert(imports_view(out@)[k] == out[k]@);
                assert(jsons_view(items@)[k] == items[k]@);
            }
            assert(jsons_view(items@) =~= imports_document(imports_view(out@))->Array_0);
            Some(out)
        },
        _ => None,
    }
}

/// Two lists with the same document are the same list.
pub proof fn lemma_imports_document_injective(a: Seq<ImportView>, b: Seq<ImportView>)
    requires
        imports_document(a) == imports_document(b),
    ensures
        a == b,
{
    let da = imports_document(a)->Array_0;
    let db = imports_document(b)->Array_0;
    assert(da.len() == a.len() && db.len() == b.len());
    assert forall|i: int| 0 <= i < a.len() implies a[i] == b[i] by {
        assert(da[i] == import_document(a[i]));
        assert(db[i] == import_document(b[i]));
        lemma_import_document_injective(a[i], b[i]);
    }
    assert(a =~= b);
}

/// The document of an annotation: an object with one member for each part.
pub open spec fn annotation_document(x: AnnotationView) -> JsonView
{
    JsonView::Object(
        seq![
            field("node"@, node_document(x.node)),
            field("name"@, text_document(x.name)),
            field("arguments"@, texts_document(x.arguments)),
        ],
    )
}

/// The members of the document of an annotation, one by one.
pub proof fn lemma_annotation_document_members(subject: AnnotationView, listed: Seq<JsonFieldView>)
    requires
        annotation_document(subject) == JsonView::Object(listed),
    ensures
        listed.len() == 3,
        listed[0] == field("node"@, node_document(subject.node)),
        listed[1] == field("name"@, text_document(subject.name)),
        listed[2] == field("arguments"@, texts_document(subject.arguments)),
{
    let parts = annotation_document(subject)->Object_0;
    assert(parts == listed);
    assert(parts.len() == 3);
    assert(parts[0] == field("node"@, node_document(subject.node)));
    assert(parts[1] == field("name"@, text_document(subject.name)));
    assert(parts[2] == field("arguments"@, texts_document(subject.arguments)));
}

/// Writes an annotation as a document.
pub fn encode_annotation(x: &Annotation) -> (r: Json)
    ensures
        r@ == annotation_document(x@),
{
    let fields = members_3(
        "node",
        encode_node(&x.node),
        "name",
        encode_text(&x.name),
        "arguments",
        encode_texts(&x.arguments),
    );
    Json::Object(fields)
}

/// Reads an annotation from the document `j`, if `j` is the document of one.
pub fn decode_annotation(j: &Json) -> (r: Option<Annotation>)
    ensures
        match r {
            Some(x) => annotation_document(x@) == j@,
            None => forall|x: AnnotationView| #[trigger] annotation_document(x) != j@,
        },
{
    let fields = match object_fields(j, 3) {
        Some(fields) => fields,
        None => return None,
    };
    let ghost listed = json_fields_view(fields@);
    assert forall|subject: AnnotationView| #[trigger] annotation_document(subject) == j@ implies
        listed.len() == 3
        && listed[0] == field("node"@, node_document(subject.node))
        && listed[1] == field("name"@, text_document(subject.name))
        && listed[2] == field("arguments"@, texts_document(subject.arguments)) by {
        lemma_annotation_document_members(subject, listed);
    }
    if !has_key(&fields[0], "node") {
        return None;
    }
    if !has_key(&fields[1], "name") {
        return None;
    }
    if !has_key(&fields[2], "arguments") {
        return None;
    }
    let node = match decode_node(&fields[0].value) {
        Some(x) => x,
        None => return None,
    };
    let name = match decode_text(&fields[1].value) {
        Some(x) => x,
        None => return None,
    };
    let arguments = match decode_texts(&fields[2].value) {
        Some(x) => x,
        None => return None,
    };
    let x = Annotation { node, name, arguments };
    assert(json_fields_view(fields@) =~= annotation_document(x@)->Object_0);
    Some(x)
}

/// Two values with the same document are the same value.
pub proof fn lemma_annotation_document_injective(a: AnnotationView, b: AnnotationView)
    requires
        annotation_document(a) == annotation_document(b),
    ensures
        a == b,
{
    let listed = annotation_document(a)->Object_0;
    lemma_annotation_document_members(a, listed);
    lemma_annotation_document_members(b, listed);
    lemma_texts_document_injective(a.arguments, b.arguments);
}

/// The document of a list of annotations: the array of their documents, in order.
pub open spec fn annotations_document(s: Seq<AnnotationView>) -> JsonView
{
    JsonView::Array(
        Seq::new(s.len(), |i: int| if 0 <= i < s.len() { annotation_document(s[i]) } else { arbitrary() }),
    )
}

/// Writes a list of annotations as a document.
pub fn encode_annotations(s: &Vec<Annotation>) -> (r: Json)
    ensures
        r@ == annotations_document(annotations_view(s@)),
{
    let mut out: Vec<Json> = Vec::new();
    let mut i: usize = 0;
    while i < s.len()
        invariant
            i <= s.len(),
            out.len() == i,
            forall|k: int| 0 <= k < i ==> (#[trigger] out[k])@ == annotation_document(s[k]@),
        decreases s.len() - i,
    {
        out.push(encode_annotation(&s[i]));
        i = i + 1;
    }
    assert forall|k: int| 0 <= k < s.len() implies jsons_view(out@)[k] == annotations_document(
        annotations_view(s@),
    )->Array_0[k] by {
        assert(annotations_view(s@)[k] == s[k]@);
        assert(jsons_view(out@)[k] == out[k]@);
    }
    assert(jsons_view(out@) =~= annotations_document(annotations_view(s@))->Array_0);
    Json::Array(out)
}

/// Reads a list of annotations from the document `j`, if `j` is the document of one.
pub fn decode_annotations(j: &Json) -> (r: Option<Vec<Annotation>>)
    ensures
        match r {
            Some(s) => annotations_document(annotations_view(s@)) == j@,
            None => forall|s: Seq<AnnotationView>| #[trigger] annotations_document(s) != j@,
        },
{
    match j {
        Json::Array(items) => {
            let mut out: Vec<Annotation> = Vec::new();
            let mut i: usize = 0;
            while i < items.len()
                invariant
                    i <= items.len(),
                    out.len() == i,
                    *j == Json::Array(*items),
                    forall|k: int| 0 <= k < i ==> (#[trigger] items[k])@ == annotation_document(out[k]@),
                decreases items.len() - i,
            {
                match decode_annotation(&items[i]) {
                    Some(x) => {
                        out.push(x);
                    },
                    None => {
                        assert(j@ == JsonView::Array(jsons_view(items@)));
                        assert(jsons_view(items@)[i as int] == items[i as int]@);
                        assert forall|s: Seq<AnnotationView>| #[trigger] annotations_document(s) != j@ by {
                            if annotations_document(s) == j@ {
                                assert(annotations_document(s)->Array_0 == jsons_view(items@));
                                assert(annotations_document(s)->Array_0.len() == s.len());
                                assert(jsons_view(items@).len() == items.len());
                                assert(annotations_document(s)->Array_0[i as int] == annotation_document(s[i as int]));
                            }
                        }
                        return None;
                    },
                }
                i = i + 1;
            }
            assert forall|k: int| 0 <= k < items.len() implies jsons_view(items@)[k] == annotations_document(
                annotations_view(out@),
            )->Array_0[k] by {
                assert(annotations_view(out@)[k] == out[k]@);
                assert(jsons_view(items@)[k] == items[k]@);
            }
            assert(jsons_view(items@) =~= annotations_document(annotations_view(out@))->Array_0);
            Some(out)
        },
        _ => None,
    }
}

/// Two lists with the same document are the same list.
pub proof fn lemma_annotations_document_injective(a: Seq<AnnotationView>, b: Seq<AnnotationView>)
    requires
        annotations_document(a) == annotations_document(b),
    ensures
        a == b,
{
    let da = annotations_document(a)->Array_0;
    let db = annotations_document(b)->Array_0;
    assert(da.len() == a.len() && db.len() == b.len());
    assert forall|i: int| 0 <= i < a.len() implies a[i] == b[i] by {
        assert(da[i] == annotation_document(a[i]));
        assert(db[i] == annotation_document(b[i]));
        lemma_annotation_document_injective(a[i], b[i]);
    }
    assert(a =~= b);
}

/// The document of a parameter: an object with one member for each part.
pub open spec fn function_input_document(x: FunctionInputView) -> JsonView
{
    JsonView::Object(
        seq![
            field("node"@, node_document(x.node)),
            field("name"@, text_document(x.name)),
            field("mode"@, input_mode_document(x.mode)),
            field("input_type"@, type_document(x.input_type)),
        ],
    )
}

/// The members of the document of a parameter, one by one.
pub proof fn lemma_function_input_document_members(subject: FunctionInputView, listed: Seq<JsonFieldView>)
    requires
        function_input_document(subject) == JsonView::Object(listed),
    ensures
        listed.len() == 4,
        listed[0] == field("node"@, node_document(subject.node)),
        listed[1] == field("name"@, text_document(subject.name)),
        listed[2] == field("mode"@, input_mode_document(subject.mode)),
        listed[3] == field("input_type"@, type_document(subject.input_type)),
{
    let parts = function_input_document(subject)->Object_0;
    assert(parts == listed);
    assert(parts.len() == 4);
    assert(parts[0] == field("node"@, node_document(subject.node)));
    assert(parts[1] == field("name"@, text_document(subject.name)));
    assert(parts[2] == field("mode"@, input_mode_document(subject.mode)));
    assert(parts[3] == field("input_type"@, type_document(subject.input_type)));
}

/// Writes a parameter as a document.
pub fn encode_function_input(x: &FunctionInput) -> (r: Json)
    ensures
        r@ == function_input_document(x@),
{
    let fields = members_4(
        "node",
        encode_node(&x.node),
        "name",
        encode_text(&x.name),
        "mode",
        encode_input_mode(*&x.mode),
        "input_type",
        encode_type(&x.input_type),
    );
    Json::Object(fields)
}

/// Reads a parameter from the document `j`, if `j` is the document of one.
pub fn decode_function_input(j: &Json) -> (r: Option<FunctionInput>)
    ensures
        match r {
            Some(x) => function_input_document(x@) == j@,
            None => forall|x: FunctionInputView| #[trigger] function_input_document(x) != j@,
        },
{
    let fields = match object_fields(j, 4) {
        Some(fields) => fields,
        None => return None,
    };
    let ghost listed = json_fields_view(fields@);
    assert forall|subject: FunctionInputView| #[trigger] function_input_document(subject) == j@ implies
        listed.len() == 4
        && listed[0] == field("node"@, node_document(subject.node))
        && listed[1] == field("name"@, text_document(subject.name))
        && listed[2] == field("mode"@, input_mode_document(subject.mode))
        && listed[3] == field("input_type"@, type_document(subject.input_type)) by {
        lemma_function_input_document_members(subject, listed);
    }
    if !has_key(&fields[0], "node") {
        return None;
    }
    if !has_key(&fields[1], "name") {
        return None;
    }
    if !has_key(&fields[2], "mode") {
        return None;
    }
    if !has_key(&fields[3], "input_type") {
        return None;
    }
    let node = match decode_node(&fields[0].value) {
        Some(x) => x,
        None => return None,
    };
    let name = match decode_text(&fields[1].value) {
        Some(x) => x,
        None => return None,
    };
    let mode = match decode_input_mode(&fields[2].value) {
        Some(x) => x,
        None => return None,
    };
    let input_type = match decode_type(&fields[3].value) {
        Some(x) => x,
        None => return None,
    };
    let x = FunctionInput { node, name, mode, input_type };
    assert(json_fields_view(fields@) =~= function_input_document(x@)->Object_0);
    Some(x)
}

/// Two values with the same document are the same value.
pub proof fn lemma_function_input_document_injective(a: FunctionInputView, b: FunctionInputView)
    requires
        function_input_document(a) == function_input_document(b),
    ensures
        a == b,
{
    let listed = function_input_document(a)->Object_0;
    lemma_function_input_document_members(a, listed);
    lemma_function_input_document_members(b, listed);
    lemma_input_mode_document_injective(a.mode, b.mode);
    lemma_type_document_injective(a.input_type, b.input_type);
}

/// The document of a list of parameters: the array of their documents, in order.
pub open spec fn function_inputs_document(s: Seq<FunctionInputView>) -> JsonView
{
    JsonView::Array(
        Seq::new(s.len(), |i: int| if 0 <= i < s.len() { function_input_document(s[i]) } else { arbitrary() }),
    )
}

/// Writes a list of parameters as a document.
pub fn encode_function_inputs(s: &Vec<FunctionInput>) -> (r: Json)
    ensures
        r@ == function_inputs_document(inputs_view(s@)),
{
    let mut out: Vec<Json> = Vec::new();
    let mut i: usize = 0;
    while i < s.len()
        invariant
            i <= s.len(),
            out.len() == i,
            forall|k: int| 0 <= k < i ==> (#[trigger] out[k])@ == function_input_document(s[k]@),
        decreases s.len() - i,
    {
        out.push(encode_function_input(&s[i]));
        i = i + 1;
    }
    assert forall|k: int| 0 <= k < s.len() implies jsons_view(out@)[k] == function_inputs_document(
        inputs_view(s@),
    )->Array_0[k] by {
        assert(inputs_view(s@)[k] == s[k]@);
        assert(jsons_view(out@)[k] == out[k]@);
    }
    assert(jsons_view(out@) =~= function_inputs_document(inputs_view(s@))->Array_0);
    Json::Array(out)
}

/// Reads a list of parameters from the document `j`, if `j` is the document of one.
pub fn decode_function_inputs(j: &Json) -> (r: Option<Vec<FunctionInput>>)
    ensures
        match r {
            Some(s) => function_inputs_document(inputs_view(s@)) == j@,
            None => forall|s: Seq<FunctionInputView>| #[trigger] function_inputs_document(s) != j@,
        },
{
    match j {
        Json::Array(items) => {
            let mut out: Vec<FunctionInput> = Vec::new();
            let mut i: usize = 0;
            while i < items.len()
                invariant
                    i <= items.len(),
                    out.len() == i,
                    *j == Json::Array(*items),
                    forall|k: int| 0 <= k < i ==> (#[trigger] items[k])@ == function_input_document(out[k]@),
                decreases items.len() - i,
            {
                match decode_function_input(&items[i]) {
                    Some(x) => {
                        out.push(x);
                    },
                    None => {
                        assert(j@ == JsonView::Array(jsons_view(items@)));
                        assert(jsons_view(items@)[i as int] == items[i as int]@);
                        assert forall|s: Seq<FunctionInputView>| #[trigger] function_inputs_document(s) != j@ by {
                            if function_inputs_document(s) == j@ {
                                assert(function_inputs_document(s)->Array_0 == jsons_view(items@));
                                assert(function_inputs_document(s)->Array_0.len() == s.len());
                                assert(jsons_view(items@).len() == items.len());
                                assert(function_inputs_document(s)->Array_0[i as int] == function_input_document(s[i as int]));
                            }
                        }
                        return None;
                    },
                }
                i = i + 1;
            }
            assert forall|k: int| 0 <= k < items.len() implies jsons_view(items@)[k] == function_inputs_document(
                inputs_view(out@),
            )->Array_0[k] by {
                assert(inputs_view(out@)[k] == out[k]@);
                assert(jsons_view(items@)[k] == items[k]@);
            }
            assert(jsons_view(items@) =~= function_inputs_document(inputs_view(out@))->Array_0);
            Some(out)
        },
        _ => None,
    }
}

/// Two lists with the same document are the same list.
pub proof fn lemma_function_inputs_document_injective(a: Seq<FunctionInputView>, b: Seq<FunctionInputView>)
    requires
        function_inputs_document(a) == function_inputs_document(b),
    ensures
        a == b,
{
    let da = function_inputs_document(a)->Array_0;
    let db = function_inputs_document(b)->Array_0;
    assert(da.len() == a.len() && db.len() == b.len());
    assert forall|i: int| 0 <= i < a.len() implies a[i] == b[i] by {
        assert(da[i] == function_input_document(a[i]));
        assert(db[i] == function_input_document(b[i]));
        lemma_function_input_document_injective(a[i], b[i]);
    }
    assert(a =~= b);
}

/// The document of a function: an object with one member for each part.
pub open spec fn function_document(x: FunctionView) -> JsonView
{
    JsonView::Object(
        seq![
            field("node"@, node_document(x.node)),
            field("name"@, text_document(x.name)),
            field("inputs"@, function_inputs_document(x.inputs)),
            field("output"@, optional_type_document(x.output)),
            field("annotations"@, annotations_document(x.annotations)),
            field("body"@, block_document(x.body)),
        ],
    )
}

/// The members of the document of a function, one by one.
pub proof fn lemma_function_document_members(subject: FunctionView, listed: Seq<JsonFieldView>)
    requires
        function_document(subject) == JsonView::Object(listed),
    ensures
        listed.len() == 6,
        listed[0] == field("node"@, node_document(subject.node)),
        listed[1] == field("name"@, text_document(subject.name)),
        listed[2] == field("inputs"@, function_inputs_document(subject.inputs)),
        listed[3] == field("output"@, optional_type_document(subject.output)),
        listed[4] == field("annotations"@, annotations_document(subject.annotations)),
        listed[5] == field("body"@, block_document(subject.body)),
{
    let parts = function_document(subject)->Object_0;
    assert(parts == listed);
    assert(parts.len() == 6);
    assert(parts[0] == field("node"@, node_document(subject.node)));
    assert(parts[1] == field("name"@, text_document(subject.name)));
    assert(parts[2] == field("inputs"@, function_inputs_document(subject.inputs)));
    assert(parts[3] == field("output"@, optional_type_document(subject.output)));
    assert(parts[4] == field("annotations"@, annotations_document(subject.annotations)));
    assert(parts[5] == field("body"@, block_document(subject.body)));
}

/// Writes a function as a document.
pub fn encode_function(x: &Function) -> (r: Json)
    ensures
        r@ == function_document(x@),
{
    let fields = members_6(
        "node",
        encode_node(&x.node),
        "name",
        encode_text(&x.name),
        "inputs",
        encode_function_inputs(&x.inputs),
        "output",
        encode_optional_type(&x.output),
        "annotations",
        encode_annotations(&x.annotations),
        "body",
        encode_block(&x.body),
    );
    Json::Object(fields)
}

/// Reads a function from the document `j`, if `j` is the document of one.
pub fn decode_function(j: &Json) -> (r: Option<Function>)
    ensures
        match r {
            Some(x) => function_document(x@) == j@,
            None => forall|x: FunctionView| #[trigger] function_document(x) != j@,
        },
{
    let fields = match object_fields(j, 6) {
        Some(fields) => fields,
        None => return None,
    };
    let ghost listed = json_fields_view(fields@);
    assert forall|subject: FunctionView| #[trigger] function_document(subject) == j@ implies
        listed.len() == 6
        && listed[0] == field("node"@, node_document(subject.node))
        && listed[1] == field("name"@, text_document(subject.name))
        && listed[2] == field("inputs"@, function_inputs_document(subject.inputs))
        && listed[3] == field("output"@, optional_type_document(subject.output))
        && listed[4] == field("annotations"@, annotations_document(subject.annotations))
        && listed[5] == field("body"@, block_document(subject.body)) by {
        lemma_function_document_members(subject, listed);
    }
    if !has_key(&fields[0], "node") {
        return None;
    }
    if !has_key(&fields[1], "name") {
        return None;
    }
    if !has_key(&fields[2], "inputs") {
        return None;
    }
    if !has_key(&fields[3], "output") {
        return None;
    }
    if !has_key(&fields[4], "annotations") {
        return None;
    }
    if !has_key(&fields[5], "body") {
        return None;
    }
    let node = match decode_node(&fields[0].value) {
        Some(x) => x,
        None => return None,
    };
    let name = match decode_text(&fields[1].value) {
        Some(x) => x,
        None => return None,
    };
    let inputs = match decode_function_inputs(&fields[2].value) {
        Some(x) => x,
        None => return None,
    };
    let output = match decode_optional_type(&fields[3].value) {
        Some(x) => x,
        None => return None,
    };
    let annotations = match decode_annotations(&fields[4].value) {
        Some(x) => x,
        None => return None,
    };
    let body = match decode_block(&fields[5].value) {
        Some(x) => x,
        None => return None,
    };
    let x = Function { node, name, inputs, output, annotations, body };
    assert(json_fields_view(fields@) =~= function_document(x@)->Object_0);
    Some(x)
}

/// Two values with the same document are the same value.
pub proof fn lemma_function_document_injective(a: FunctionView, b: FunctionView)
    requires
        function_document(a) == function_document(b),
    ensures
        a == b,
{
    let listed = function_document(a)->Object_0;
    lemma_function_document_members(a, listed);
    lemma_function_document_members(b, listed);
    lemma_function_inputs_document_injective(a.inputs, b.inputs);
    lemma_optional_type_document_injective(a.output, b.output);
    lemma_annotations_document_injective(a.annotations, b.annotations);
    lemma_block_document_injective(a.body, b.body);
}

/// The document of a list of functions: the array of their documents, in order.
pub open spec fn functions_document(s: Seq<FunctionView>) -> JsonView
{
    JsonView::Array(
        Seq::new(s.len(), |i: int| if 0 <= i < s.len() { function_document(s[i]) } else { arbitrary() }),
    )
}

/// Writes a list of functions as a document.
pub fn encode_functions(s: &Vec<Function>) -> (r: Json)
    ensures
        r@ == functions_document(functions_view(s@)),
{
    let mut out: Vec<Json> = Vec::new();
    let mut i: usize = 0;
    while i < s.len()
        invariant
            i <= s.len(),
            out.len() == i,
            forall|k: int| 0 <= k < i ==> (#[trigger] out[k])@ == function_document(s[k]@),
        decreases s.len() - i,
    {
        out.push(encode_function(&s[i]));
        i = i + 1;
    }
    assert forall|k: int| 0 <= k < s.len() implies jsons_view(out@)[k] == functions_document(
        functions_view(s@),
    )->Array_0[k] by {
        assert(functions_view(s@)[k] == s[k]@);
        assert(jsons_view(out@)[k] == out[k]@);
    }
    assert(jsons_view(out@) =~= functions_document(functions_view(s@))->Array_0);
    Json::Array(out)
}

/// Reads a list of functions from the document `j`, if `j` is the document of one.
pub fn decode_functions(j: &Json) -> (r: Option<Vec<Function>>)
    ensures
        match r {
            Some(s) => functions_document(functions_view(s@)) == j@,
            None => forall|s: Seq<FunctionView>| #[trigger] functions_document(s) != j@,
        },
{
    match j {
        Json::Array(items) => {
            let mut out: Vec<Function> = Vec::new();
            let mut i: usize = 0;
            while i < items.len()
                invariant
                    i <= items.len(),
                    out.len() == i,
                    *j == Json::Array(*items),
                    forall|k: int| 0 <= k < i ==> (#[trigger] items[k])@ == function_document(out[k]@),
                decreases items.len() - i,
            {
                match decode_function(&items[i]) {
                    Some(x) => {
                        out.push(x);
                    },
                    None => {
                        assert(j@ == JsonView::Array(jsons_view(items@)));
                        assert(jsons_view(items@)[i as int] == items[i as int]@);
                        assert forall|s: Seq<FunctionView>| #[trigger] functions_document(s) != j@ by {
                            if functions_document(s) == j@ {
                                assert(functions_document(s)->Array_0 == jsons_view(items@));
                                assert(functions_document(s)->Array_0.len() == s.len());
                                assert(jsons_view(items@).len() == items.len());
                                assert(functions_document(s)->Array_0[i as int] == function_document(s[i as int]));
                            }
                        }
                        return None;
                    },
                }
                i = i + 1;
            }
            assert forall|k: int| 0 <= k < items.len() implies jsons_view(items@)[k] == functions_document(
                functions_view(out@),
            )->Array_0[k] by {
                assert(functions_view(out@)[k] == out[k]@);
                assert(jsons_view(items@)[k] == items[k]@);
            }
            assert(jsons_view(items@) =~= functions_document(functions_view(out@))->Array_0);
            Some(out)
        },
        _ => None,
    }
}

/// Two lists with the same document are the same list.
pub proof fn lemma_functions_document_injective(a: Seq<FunctionView>, b: Seq<FunctionView>)
    requires
        functions_document(a) == functions_document(b),
    ensures
        a == b,
{
    let da = functions_document(a)->Array_0;
    let db = functions_document(b)->Array_0;
    assert(da.len() == a.len() && db.len() == b.len());
    assert forall|i: int| 0 <= i < a.len() implies a[i] == b[i] by {
        assert(da[i] == function_document(a[i]));
        assert(db[i] == function_document(b[i]));
        lemma_function_document_injective(a[i], b[i]);
    }
    assert(a =~= b);
}

/// The document of a member variable of a circuit: an object with one member for each part.
pub open spec fn circuit_member_document(x: CircuitMemberView) -> JsonView
{
    JsonView::Object(
        seq![
            field("node"@, node_document(x.node)),
            field("name"@, text_document(x.name)),
            field("member_type"@, type_document(x.member_type)),
        ],
    )
}

/// The members of the document of a member variable of a circuit, one by one.
pub proof fn lemma_circuit_member_document_members(subject: CircuitMemberView, listed: Seq<JsonFieldView>)
    requires
        circuit_member_document(subject) == JsonView::Object(listed),
    ensures
        listed.len() == 3,
        listed[0] == field("node"@, node_document(subject.node)),
        listed[1] == field("name"@, text_document(subject.name)),
        listed[2] == field("member_type"@, type_document(subject.member_type)),
{
    let parts = circuit_member_document(subject)->Object_0;
    assert(parts == listed);
    assert(parts.len() == 3);
    assert(parts[0] == field("node"@, node_document(subject.node)));
    assert(parts[1] == field("name"@, text_document(subject.name)));
    assert(parts[2] == field("member_type"@, type_document(subject.member_type)));
}

/// Writes a member variable of a circuit as a document.
pub fn encode_circuit_member(x: &CircuitMember) -> (r: Json)
    ensures
        r@ == circuit_member_document(x@),
{
    let fields = members_3(
        "node",
        encode_node(&x.node),
        "name",
        encode_text(&x.name),
        "member_type",
        encode_type(&x.member_type),
    );
    Json::Object(fields)
}

/// Reads a member variable of a circuit from the document `j`, if `j` is the document of one.
pub fn decode_circuit_member(j: &Json) -> (r: Option<CircuitMember>)
    ensures
        match r {
            Some(x) => circuit_member_document(x@) == j@,
            None => forall|x: CircuitMemberView| #[trigger] circuit_member_document(x) != j@,
        },
{
    let fields = match object_fields(j, 3) {
        Some(fields) => fields,
        None => return None,
    };
    let ghost listed = json_fields_view(fields@);
    assert forall|subject: CircuitMemberView| #[trigger] circuit_member_document(subject) == j@ implies
        listed.len() == 3
        && listed[0] == field("node"@, node_document(subject.node))
        && listed[1] == field("name"@, text_document(subject.name))
        && listed[2] == field("member_type"@, type_document(subject.member_type)) by {
        lemma_circuit_member_document_members(subject, listed);
    }
    if !has_key(&fields[0], "node") {
        return None;
    }
    if !has_key(&fields[1], "name") {
        return None;
    }
    if !has_key(&fields[2], "member_type") {
        return None;
    }
    let node = match decode_node(&fields[0].value) {
        Some(x) => x,
        None => return None,
    };
    let name = match decode_text(&fields[1].value) {
        Some(x) => x,
        None => return None,
    };
    let member_type = match decode_type(&fields[2].value) {
        Some(x) => x,
        None => return None,
    };
    let x = CircuitMember { node, name, member_type };
    assert(json_fields_view(fields@) =~= circuit_member_document(x@)->Object_0);
    Some(x)
}

/// Two values with the same document are the same value.
pub proof fn lemma_circuit_member_document_injective(a: CircuitMemberView, b: CircuitMemberView)
    requires
        circuit_member_document(a) == circuit_member_document(b),
    ensures
        a == b,
{
    let listed = circuit_member_document(a)->Object_0;
    lemma_circuit_member_document_members(a, listed);
    lemma_circuit_member_document_members(b, listed);
    lemma_type_document_injective(a.member_type, b.member_type);
}

/// The document of a list of member variables: the array of their documents, in order.
pub open spec fn circuit_members_document(s: Seq<CircuitMemberView>) -> JsonView
{
    JsonView::Array(
        Seq::new(s.len(), |i: int| if 0 <= i < s.len() { circuit_member_document(s[i]) } else { arbitrary() }),
    )
}

/// Writes a list of member variables as a document.
pub fn encode_circuit_members(s: &Vec<CircuitMember>) -> (r: Json)
    ensures
        r@ == circuit_members_document(circuit_members_view(s@)),
{
    let mut out: Vec<Json> = Vec::new();
    let mut i: usize = 0;
    while i < s.len()
        invariant
            i <= s.len(),
            out.len() == i,
            forall|k: int| 0 <= k < i ==> (#[trigger] out[k])@ == circuit_member_document(s[k]@),
        decreases s.len() - i,
    {
        out.push(encode_circuit_member(&s[i]));
        i = i + 1;
    }
    assert forall|k: int| 0 <= k < s.len() implies jsons_view(out@)[k] == circuit_members_document(
        circuit_members_view(s@),
    )->Array_0[k] by {
        assert(circuit_members_view(s@)[k] == s[k]@);
        assert(jsons_view(out@)[k] == out[k]@);
    }
    assert(jsons_view(out@) =~= circuit_members_document(circuit_members_view(s@))->Array_0);
    Json::Array(out)
}

/// Reads a list of member variables from the document `j`, if `j` is the document of one.
pub fn decode_circuit_members(j: &Json) -> (r: Option<Vec<CircuitMember>>)
    ensures
        match r {
            Some(s) => circuit_members_document(circuit_members_view(s@)) == j@,
            None => forall|s: Seq<CircuitMemberView>| #[trigger] circuit_members_document(s) != j@,
        },
{
    match j {
        Json::Array(items) => {
            let mut out: Vec<CircuitMember> = Vec::new();
            let mut i: usize = 0;
            while i < items.len()
                invariant
                    i <= items.len(),
                    out.len() == i,
                    *j == Json::Array(*items),
                    forall|k: int| 0 <= k < i ==> (#[trigger] items[k])@ == circuit_member_document(out[k]@),
                decreases items.len() - i,
            {
                match decode_circuit_member(&items[i]) {
                    Some(x) => {
                        out.push(x);
                    },
                    None => {
                        assert(j@ == JsonView::Array(jsons_view(items@)));
                        assert(jsons_view(items@)[i as int] == items[i as int]@);
                        assert forall|s: Seq<CircuitMemberView>| #[trigger] circuit_members_document(s) != j@ by {
                            if circuit_members_document(s) == j@ {
                                assert(circuit_members_document(s)->Array_0 == jsons_view(items@));
                                assert(circuit_members_document(s)->Array_0.len() == s.len());
                                assert(jsons_view(items@).len() == items.len());
                                assert(circuit_members_document(s)->Array_0[i as int] == circuit_member_document(s[i as int]));
                            }
                        }
                        return None;
                    },
                }
                i = i + 1;
            }
            assert forall|k: int| 0 <= k < items.len() implies jsons_view(items@)[k] == circuit_members_document(
                circuit_members_view(out@),
            )->Array_0[k] by {
                assert(circuit_members_view(out@)[k] == out[k]@);
                assert(jsons_view(items@)[k] == items[k]@);
            }
            assert(jsons_view(items@) =~= circuit_members_document(circuit_members_view(out@))->Array_0);
            Some(out)
        },
        _ => None,
    }
}

/// Two lists with the same document are the same list.
pub proof fn lemma_circuit_members_document_injective(a: Seq<CircuitMemberView>, b: Seq<CircuitMemberView>)
    requires
        circuit_members_document(a) == circuit_members_document(b),
    ensures
        a == b,
{
    let da = circuit_members_document(a)->Array_0;
    let db = circuit_members_document(b)->Array_0;
    assert(da.len() == a.len() && db.len() == b.len());
    assert forall|i: int| 0 <= i < a.len() implies a[i] == b[i] by {
        assert(da[i] == circuit_member_document(a[i]));
        assert(db[i] == circuit_member_document(b[i]));
        lemma_circuit_member_document_injective(a[i], b[i]);
    }
    assert(a =~= b);
}

/// The document of a circuit: an object with one member for each part.
pub open spec fn circuit_document(x: CircuitView) -> JsonView
{
    JsonView::Object(
        seq![
            field("node"@, node_document(x.node)),
            field("name"@, text_document(x.name)),
            field("members"@, circuit_members_document(x.members)),
            field("functions"@, functions_document(x.functions)),
        ],
    )
}

/// The members of the document of a circuit, one by one.
pub proof fn lemma_circuit_document_members(subject: CircuitView, listed: Seq<JsonFieldView>)
    requires
        circuit_document(subject) == JsonView::Object(listed),
    ensures
        listed.len() == 4,
        listed[0] == field("node"@, node_document(subject.node)),
        listed[1] == field("name"@, text_document(subject.name)),
        listed[2] == field("members"@, circuit_members_document(subject.members)),
        listed[3] == field("functions"@, functions_document(subject.functions)),
{
    let parts = circuit_document(subject)->Object_0;
    assert(parts == listed);
    assert(parts.len() == 4);
    assert(parts[0] == field("node"@, node_document(subject.node)));
    assert(parts[1] == field("name"@, text_document(subject.name)));
    assert(parts[2] == field("members"@, circuit_members_document(subject.members)));
    assert(parts[3] == field("functions"@, functions_document(subject.functions)));
}

/// Writes a circuit as a document.
pub fn encode_circuit(x: &Circuit) -> (r: Json)
    ensures
        r@ == circuit_document(x@),
{
    let fields = members_4(
        "node",
        encode_node(&x.node),
        "name",
        encode_text(&x.name),
        "members",
        encode_circuit_members(&x.members),
        "functions",
        encode_functions(&x.functions),
    );
    Json::Object(fields)
}

/// Reads a circuit from the document `j`, if `j` is the document of one.
pub fn decode_circuit(j: &Json) -> (r: Option<Circuit>)
    ensures
        match r {
            Some(x) => circuit_document(x@) == j@,
            None => forall|x: CircuitView| #[trigger] circuit_document(x) != j@,
        },
{
    let fields = match object_fields(j, 4) {
        Some(fields) => fields,
        None => return None,
    };
    let ghost listed = json_fields_view(fields@);
    assert forall|subject: CircuitView| #[trigger] circuit_document(subject) == j@ implies
        listed.len() == 4
        && listed[0] == field("node"@, node_document(subject.node))
        && listed[1] == field("name"@, text_document(subject.name))
        && listed[2] == field("members"@, circuit_members_document(subject.members))
        && listed[3] == field("functions"@, functions_document(subject.functions)) by {
        lemma_circuit_document_members(subject, listed);
    }
    if !has_key(&fields[0], "node") {
        return None;
    }
    if !has_key(&fields[1], "name") {
        return None;
    }
    if !has_key(&fields[2], "members") {
        return None;
    }
    if !has_key(&fields[3], "functions") {
        return None;
    }
    let node = match decode_node(&fields[0].value) {
        Some(x) => x,
        None => return None,
    };
    let name = match decode_text(&fields[1].value) {
        Some(x) => x,
        None => return None,
    };
    let members = match decode_circuit_members(&fields[2].value) {
        Some(x) => x,
        None => return None,
    };
    let functions = match decode_functions(&fields[3].value) {
        Some(x) => x,
        None => return None,
    };
    let x = Circuit { node, name, members, functions };
    assert(json_fields_view(fields@) =~= circuit_document(x@)->Object_0);
    Some(x)
}

/// Two values with the same document are the same value.
pub proof fn lemma_circuit_document_injective(a: CircuitView, b: CircuitView)
    requires
        circuit_document(a) == circuit_document(b),
    ensures
        a == b,
{
    let listed = circuit_document(a)->Object_0;
    lemma_circuit_document_members(a, listed);
    lemma_circuit_document_members(b, listed);
    lemma_circuit_members_document_injective(a.members, b.members);
    lemma_functions_document_injective(a.functions, b.functions);
}

/// The document of a list of circuits: the array of their documents, in order.
pub open spec fn circuits_document(s: Seq<CircuitView>) -> JsonView
{
    JsonView::Array(
        Seq::new(s.len(), |i: int| if 0 <= i < s.len() { circuit_document(s[i]) } else { arbitrary() }),
    )
}

/// Writes a list of circuits as a document.
pub fn encode_circuits(s: &Vec<Circuit>) -> (r: Json)
    ensures
        r@ == circuits_document(circuits_view(s@)),
{
    let mut out: Vec<Json> = Vec::new();
    let mut i: usize = 0;
    while i < s.len()
        invariant
            i <= s.len(),
            out.len() == i,
            forall|k: int| 0 <= k < i ==> (#[trigger] out[k])@ == circuit_document(s[k]@),
        decreases s.len() - i,
    {
        out.push(encode_circuit(&s[i]));
        i = i + 1;
    }
    assert forall|k: int| 0 <= k < s.len() implies jsons_view(out@)[k] == circuits_document(
        circuits_view(s@),
    )->Array_0[k] by {
        assert(circuits_view(s@)[k] == s[k]@);
        assert(jsons_view(out@)[k] == out[k]@);
    }
    assert(jsons_view(out@) =~= circuits_document(circuits_view(s@))->Array_0);
    Json::Array(out)
}

/// Reads a list of circuits from the document `j`, if `j` is the document of one.
pub fn decode_circuits(j: &Json) -> (r: Option<Vec<Circuit>>)
    ensures
        match r {
            Some(s) => circuits_document(circuits_view(s@)) == j@,
            None => forall|s: Seq<CircuitView>| #[trigger] circuits_document(s) != j@,
        },
{
    match j {
        Json::Array(items) => {
            let mut out: Vec<Circuit> = Vec::new();
            let mut i: usize = 0;
            while i < items.len()
                invariant
                    i <= items.len(),
                    out.len() == i,
                    *j == Json::Array(*items),
                    forall|k: int| 0 <= k < i ==> (#[trigger] items[k])@ == circuit_document(out[k]@),
                decreases items.len() - i,
            {
                match decode_circuit(&items[i]) {
                    Some(x) => {
                        out.push(x);
                    },
                    None => {
                        assert(j@ == JsonView::Array(jsons_view(items@)));
                        assert(jsons_view(items@)[i as int] == items[i as int]@);
                        assert forall|s: Seq<CircuitView>| #[trigger] circuits_document(s) != j@ by {
                            if circuits_document(s) == j@ {
                                assert(circuits_document(s)->Array_0 == jsons_view(items@));
                                assert(circuits_document(s)->Array_0.len() == s.len());
                                assert(jsons_view(items@).len() == items.len());
                                assert(circuits_document(s)->Array_0[i as int] == circuit_document(s[i as int]));
                            }
                        }
                        return None;
                    },
                }
                i = i + 1;
            }
            assert forall|k: int| 0 <= k < items.len() implies jsons_view(items@)[k] == circuits_document(
                circuits_view(out@),
            )->Array_0[k] by {
                assert(circuits_view(out@)[k] == out[k]@);
                assert(jsons_view(items@)[k] == items[k]@);
            }
            assert(jsons_view(items@) =~= circuits_document(circuits_view(out@))->Array_0);
            Some(out)
        },
        _ => None,
    }
}

/// Two lists with the same document are the same list.
pub proof fn lemma_circuits_document_injective(a: Seq<CircuitView>, b: Seq<CircuitView>)
    requires
        circuits_document(a) == circuits_document(b),
    ensures
        a == b,
{
    let da = circuits_document(a)->Array_0;
    let db = circuits_document(b)->Array_0;
    assert(da.len() == a.len() && db.len() == b.len());
    assert forall|i: int| 0 <= i < a.len() implies a[i] == b[i] by {
        assert(da[i] == circuit_document(a[i]));
        assert(db[i] == circuit_document(b[i]));
        lemma_circuit_document_injective(a[i], b[i]);
    }
    assert(a =~= b);
}

/// The document of a program: an object with one member for each part.
pub open spec fn program_document(x: ProgramView) -> JsonView
{
    JsonView::Object(
        seq![
            field("imports"@, imports_document(x.imports)),
            field("circuits"@, circuits_document(x.circuits)),
            field("functions"@, functions_document(x.functions)),
            field("globals"@, definitions_document(x.globals)),
        ],
    )
}

/// The members of the document of a program, one by one.
pub proof fn lemma_program_document_members(subject: ProgramView, listed: Seq<JsonFieldView>)
    requires
        program_document(subject) == JsonView::Object(listed),
    ensures
        listed.len() == 4,
        listed[0] == field("imports"@, imports_document(subject.imports)),
        listed[1] == field("circuits"@, circuits_document(subject.circuits)),
        listed[2] == field("functions"@, functions_document(subject.functions)),
        listed[3] == field("globals"@, definitions_document(subject.globals)),
{
    let parts = program_document(subject)->Object_0;
    assert(parts == listed);
    assert(parts.len() == 4);
    assert(parts[0] == field("imports"@, imports_document(subject.imports)));
    assert(parts[1] == field("circuits"@, circuits_document(subject.circuits)));
    assert(parts[2] == field("functions"@, functions_document(subject.functions)));
    assert(parts[3] == field("globals"@, definitions_document(subject.globals)));
}

/// Writes a program as a document.
pub fn encode_program(x: &Program) -> (r: Json)
    ensures
        r@ == program_document(x@),
{
    let fields = members_4(
        "imports",
        encode_imports(&x.imports),
        "circuits",
        encode_circuits(&x.circuits),
        "functions",
        encode_functions(&x.functions),
        "globals",
        encode_definitions(&x.globals),
    );
    Json::Object(fields)
}

/// Reads a program from the document `j`, if `j` is the document of one.
pub fn decode_program(j: &Json) -> (r: Option<Program>)
    ensures
        match r {
            Some(x) => program_document(x@) == j@,
            None => forall|x: ProgramView| #[trigger] program_document(x) != j@,
        },
{
    let fields = match object_fields(j, 4) {
        Some(fields) => fields,
        None => return None,
    };
    let ghost listed = json_fields_view(fields@);
    assert forall|subject: ProgramView| #[trigger] program_document(subject) == j@ implies
        listed.len() == 4
        && listed[0] == field("imports"@, imports_document(subject.imports))
        && listed[1] == field("circuits"@, circuits_document(subject.circuits))
        && listed[2] == field("functions"@, functions_document(subject.functions))
        && listed[3] == field("globals"@, definitions_document(subject.globals)) by {
        lemma_program_document_members(subject, listed);
    }
    if !has_key(&fields[0], "imports") {
        return None;
    }
    if !has_key(&fields[1], "circuits") {
        return None;
    }
    if !has_key(&fields[2], "functions") {
        return None;
    }
    if !has_key(&fields[3], "globals") {
        return None;
    }
    let imports = match decode_imports(&fields[0].value) {
        Some(x) => x,
        None => return None,
    };
    let circuits = match decode_circuits(&fields[1].value) {
        Some(x) => x,
        None => return None,
    };
    let functions = match decode_functions(&fields[2].value) {
        Some(x) => x,
        None => return None,
    };
    let globals = match decode_definitions(&fields[3].value) {
        Some(x) => x,
        None => return None,
    };
    let x = Program { imports, circuits, functions, globals };
    assert(json_fields_view(fields@) =~= program_document(x@)->Object_0);
    Some(x)
}

/// Two values with the same document are the same value.
pub proof fn lemma_program_document_injective(a: ProgramView, b: ProgramView)
    requires
        program_document(a) == program_document(b),
    ensures
        a == b,
{
    let listed = program_document(a)->Object_0;
    lemma_program_document_members(a, listed);
    lemma_program_document_members(b, listed);
    lemma_imports_document_injective(a.imports, b.imports);
    lemma_circuits_document_injective(a.circuits, b.circuits);
    lemma_functions_document_injective(a.functions, b.functions);
    lemma_definitions_document_injective(a.globals, b.globals);
}
} // verus!
