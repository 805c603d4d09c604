//! The parts that the document of a program is built from, and how they are taken
//! apart again.

use vstd::prelude::*;
use vstd::string::StringExecFns;
use crate::json::{field, json_fields_view, jsons_view, Json, JsonField, JsonFieldView, JsonView};
use crate::node::{texts_view, Node, Span};

verus! {

/// The document of a variant of an enum that has fields: an object of one member,
/// whose key names the variant and whose value is the object of the fields.
pub open spec fn variant(tag: Seq<char>, fields: Seq<JsonFieldView>) -> JsonView {
    JsonView::Object(seq![field(tag, JsonView::Object(fields))])
}

/// Whether `text` is the text `literal`.
pub fn text_is(text: &String, literal: &str) -> (r: bool)
    ensures
        r == (text@ == literal@),
{
    let other = String::from_str(literal);
    *text == other
}

/// The members of `j`, if `j` is an object of exactly `n` members.
pub fn object_fields(j: &Json, n: usize) -> (r: Option<&Vec<JsonField>>)
    ensures
        match r {
            Some(fields) => {
                &&& *j == Json::Object(*fields)
                &&& j@ == JsonView::Object(json_fields_view(fields@))
                &&& fields.len() == n
                &&& forall|i: int|
                    0 <= i < n ==> json_fields_view(fields@)[i] == (#[trigger] fields@[i])@
            },
            None => !(j@ is Object && j@->Object_0.len() == n),
        },
{
    match j {
        Json::Object(fields) => if fields.len() == n {
            Some(fields)
        } else {
            None
        },
        _ => None,
    }
}

/// The key and the members of the value of the only member of `j`, if `j` is the
/// document of a variant with fields.
pub fn variant_parts(j: &Json) -> (r: Option<(&String, &Vec<JsonField>)>)
    ensures
        match r {
            Some((tag, fields)) => {
                &&& j@ == variant(tag@, json_fields_view(fields@))
                &&& decreases_to!(j => fields)
                &&& forall|i: int|
                    0 <= i < fields.len() ==> json_fields_view(fields@)[i] == (#[trigger] fields@[i])@
            },
            None => forall|tag: Seq<char>, fields: Seq<JsonFieldView>| j@ != #[trigger] variant(tag, fields),
        },
{
    match j {
        Json::Object(outer) => if outer.len() == 1 {
            assert(json_fields_view(outer@)[0] == outer[0]@);
            match &outer[0].value {
                Json::Object(fields) => {
                    assert(json_fields_view(outer@) =~= seq![
                        field(outer[0].key@, JsonView::Object(json_fields_view(fields@))),
                    ]);
                    Some((&outer[0].key, fields))
                },
                _ => {
                    assert forall|tag: Seq<char>, fields: Seq<JsonFieldView>|
                        j@ != #[trigger] variant(tag, fields) by {
                        if j@ == variant(tag, fields) {
                            assert(variant(tag, fields)->Object_0[0].value is Object);
                        }
                    }
                    None
                },
            }
        } else {
            assert forall|tag: Seq<char>, fields: Seq<JsonFieldView>|
                j@ != #[trigger] variant(tag, fields) by {
                assert(variant(tag, fields)->Object_0.len() == 1);
            }
            None
        },
        _ => None,
    }
}

/// The list of 1 member with the given keys and values.
pub fn members_1(k1: &str, v1: Json) -> (r: Vec<JsonField>)
    ensures
        json_fields_view(r@) == seq![
            field(k1@, v1@),
        ],
{
    let ghost listed = seq![
            field(k1@, v1@),
    ];
    let mut fields: Vec<JsonField> = Vec::new();
    fields.push(JsonField { key: String::from_str(k1), value: v1 });
    assert(json_fields_view(fields@) =~= listed);
    fields
}

/// The list of 2 members with the given keys and values.
pub fn members_2(k1: &str, v1: Json, k2: &str, v2: Json) -> (r: Vec<JsonField>)
    ensures
        json_fields_view(r@) == seq![
            field(k1@, v1@),
            field(k2@, v2@),
        ],
{
    let ghost listed = seq![
            field(k1@, v1@),
            field(k2@, v2@),
    ];
    let mut fields: Vec<JsonField> = Vec::new();
    fields.push(JsonField { key: String::from_str(k1), value: v1 });
    fields.push(JsonField { key: String::from_str(k2), value: v2 });
    assert(json_fields_view(fields@) =~= listed);
    fields
}

/// The list of 3 members with the given keys and values.
pub fn members_3(k1: &str, v1: Json, k2: &str, v2: Json, k3: &str, v3: Json) -> (r: Vec<JsonField>)
    ensures
        json_fields_view(r@) == seq![
            field(k1@, v1@),
            field(k2@, v2@),
            field(k3@, v3@),
        ],
{
    let ghost listed = seq![
            field(k1@, v1@),
            field(k2@, v2@),
            field(k3@, v3@),
    ];
    let mut fields: Vec<JsonField> = Vec::new();
    fields.push(JsonField { key: String::from_str(k1), value: v1 });
    fields.push(JsonField { key: String::from_str(k2), value: v2 });
    fields.push(JsonField { key: String::from_str(k3), value: v3 });
    assert(json_fields_view(fields@) =~= listed);
    fields
}

/// The list of 4 members with the given keys and values.
pub fn members_4(
    k1: &str,
    v1: Json,
    k2: &str,
    v2: Json,
    k3: &str,
    v3: Json,
    k4: &str,
    v4: Json,
) -> (r: Vec<JsonField>)
    ensures
        json_fields_view(r@) == seq![
            field(k1@, v1@),
            field(k2@, v2@),
            field(k3@, v3@),
            field(k4@, v4@),
        ],
{
    let ghost listed = seq![
            field(k1@, v1@),
            field(k2@, v2@),
            field(k3@, v3@),
            field(k4@, v4@),
    ];
    let mut fields: Vec<JsonField> = Vec::new();
    fields.push(JsonField { key: String::from_str(k1), value: v1 });
    fields.push(JsonField { key: String::from_str(k2), value: v2 });
    fields.push(JsonField { key: String::from_str(k3), value: v3 });
    fields.push(JsonField { key: String::from_str(k4), value: v4 });
    assert(json_fields_view(fields@) =~= listed);
    fields
}

/// The list of 5 members with the given keys and values.
pub fn members_5(
    k1: &str,
    v1: Json,
    k2: &str,
    v2: Json,
    k3: &str,
    v3: Json,
    k4: &str,
    v4: Json,
    k5: &str,
    v5: Json,
) -> (r: Vec<JsonField>)
    ensures
        json_fields_view(r@) == seq![
            field(k1@, v1@),
            field(k2@, v2@),
            field(k3@, v3@),
            field(k4@, v4@),
            field(k5@, v5@),
        ],
{
    let ghost listed = seq![
            field(k1@, v1@),
            field(k2@, v2@),
            field(k3@, v3@),
            field(k4@, v4@),
            field(k5@, v5@),
    ];
    let mut fields: Vec<JsonField> = Vec::new();
    fields.push(JsonField { key: String::from_str(k1), value: v1 });
    fields.push(JsonField { key: String::from_str(k2), value: v2 });
    fields.push(JsonField { key: String::from_str(k3), value: v3 });
    fields.push(JsonField { key: String::from_str(k4), value: v4 });
    fields.push(JsonField { key: String::from_str(k5), value: v5 });
    assert(json_fields_view(fields@) =~= listed);
    fields
}

/// The list of 6 members with the given keys and values.
pub fn members_6(
    k1: &str,
    v1: Json,
    k2: &str,
    v2: Json,
    k3: &str,
    v3: Json,
    k4: &str,
    v4: Json,
    k5: &str,
    v5: Json,
    k6: &str,
    v6: Json,
) -> (r: Vec<JsonField>)
    ensures
        json_fields_view(r@) == seq![
            field(k1@, v1@),
            field(k2@, v2@),
            field(k3@, v3@),
            field(k4@, v4@),
            field(k5@, v5@),
            field(k6@, v6@),
        ],
{
    let ghost listed = seq![
            field(k1@, v1@),
            field(k2@, v2@),
            field(k3@, v3@),
            field(k4@, v4@),
            field(k5@, v5@),
            field(k6@, v6@),
    ];
    let mut fields: Vec<JsonField> = Vec::new();
    fields.push(JsonField { key: String::from_str(k1), value: v1 });
    fields.push(JsonField { key: String::from_str(k2), value: v2 });
    fields.push(JsonField { key: String::from_str(k3), value: v3 });
    fields.push(JsonField { key: String::from_str(k4), value: v4 });
    fields.push(JsonField { key: String::from_str(k5), value: v5 });
    fields.push(JsonField { key: String::from_str(k6), value: v6 });
    assert(json_fields_view(fields@) =~= listed);
    fields
}

/// The document of the variant `tag` with the parts `members`.
pub fn variant_of(tag: &str, members: Vec<JsonField>) -> (r: Json)
    ensures
        r@ == variant(tag@, json_fields_view(members@)),
{
    let ghost listed = json_fields_view(members@);
    let mut outer: Vec<JsonField> = Vec::new();
    outer.push(JsonField { key: String::from_str(tag), value: Json::Object(members) });
    assert(json_fields_view(outer@) =~= variant(tag@, listed)->Object_0);
    Json::Object(outer)
}

/// Whether the key of `f` is `key`.
pub fn has_key(f: &JsonField, key: &str) -> (r: bool)
    ensures
        r == (f@.key == key@),
{
    text_is(&f.key, key)
}

pub open spec fn number_document(n: u64) -> JsonView {
    JsonView::Number(n)
}

pub fn encode_number(n: u64) -> (r: Json)
    ensures
        r@ == number_document(n),
{
    Json::Number(n)
}

pub fn decode_number(j: &Json) -> (r: Option<u64>)
    ensures
        match r {
            Some(n) => number_document(n) == j@,
            None => forall|n: u64| #[trigger] number_document(n) != j@,
        },
{
    match j {
        Json::Number(n) => Some(*n),
        _ => None,
    }
}

pub open spec fn flag_document(b: bool) -> JsonView {
    JsonView::Bool(b)
}

pub fn encode_flag(b: bool) -> (r: Json)
    ensures
        r@ == flag_document(b),
{
    Json::Bool(b)
}

pub fn decode_flag(j: &Json) -> (r: Option<bool>)
    ensures
        match r {
            Some(b) => flag_document(b) == j@,
            None => forall|b: bool| #[trigger] flag_document(b) != j@,
        },
{
    match j {
        Json::Bool(b) => Some(*b),
        _ => None,
    }
}

pub open spec fn text_document(s: Seq<char>) -> JsonView {
    JsonView::Text(s)
}

pub fn encode_text(s: &String) -> (r: Json)
    ensures
        r@ == text_document(s@),
{
    Json::Text(s.clone())
}

pub fn decode_text(j: &Json) -> (r: Option<String>)
    ensures
        match r {
            Some(s) => text_document(s@) == j@,
            None => forall|s: Seq<char>| #[trigger] text_document(s) != j@,
        },
{
    match j {
        Json::Text(s) => Some(s.clone()),
        _ => None,
    }
}

pub open spec fn optional_text_document(s: Option<Seq<char>>) -> JsonView {
    match s {
        Some(s) => JsonView::Text(s),
        None => JsonView::Null,
    }
}

pub fn encode_optional_text(s: &Option<String>) -> (r: Json)
    ensures
        r@ == optional_text_document(crate::node::optional_text_view(*s)),
{
    match s {
        Some(s) => Json::Text(s.clone()),
        None => Json::Null,
    }
}

pub fn decode_optional_text(j: &Json) -> (r: Option<Option<String>>)
    ensures
        match r {
            Some(s) => optional_text_document(crate::node::optional_text_view(s)) == j@,
            None => forall|s: Option<Seq<char>>| #[trigger] optional_text_document(s) != j@,
        },
{
    match j {
        Json::Text(s) => Some(Some(s.clone())),
        Json::Null => Some(None),
        _ => None,
    }
}

pub open spec fn texts_document(s: Seq<Seq<char>>) -> JsonView {
    JsonView::Array(Seq::new(s.len(), |i: int| JsonView::Text(s[i])))
}

pub fn encode_texts(s: &Vec<String>) -> (r: Json)
    ensures
        r@ == texts_document(texts_view(s@)),
{
    let mut out: Vec<Json> = Vec::new();
    let mut i: usize = 0;
    while i < s.len()
        invariant
            i <= s.len(),
            out.len() == i,
            forall|k: int| 0 <= k < i ==> (#[trigger] out[k])@ == JsonView::Text(s[k]@),
        decreases s.len() - i,
    {
        out.push(Json::Text(s[i].clone()));
        i = i + 1;
    }
    assert(jsons_view(out@) =~= texts_document(texts_view(s@))->Array_0);
    Json::Array(out)
}

pub fn decode_texts(j: &Json) -> (r: Option<Vec<String>>)
    ensures
        match r {
            Some(s) => texts_document(texts_view(s@)) == j@,
            None => forall|s: Seq<Seq<char>>| #[trigger] texts_document(s) != j@,
        },
{
    match j {
        Json::Array(items) => {
            let mut out: Vec<String> = Vec::new();
            let mut i: usize = 0;
            while i < items.len()
                invariant
                    i <= items.len(),
                    out.len() == i,
                    *j == Json::Array(*items),
                    forall|k: int| 0 <= k < i ==> (#[trigger] items[k])@ == JsonView::Text(out[k]@),
                decreases items.len() - i,
            {
                match &items[i] {
                    Json::Text(s) => {
                        out.push(s.clone());
                    },
                    _ => {
                        assert(j@ == JsonView::Array(jsons_view(items@)));
                        assert(jsons_view(items@)[i as int] == items[i as int]@);
                        assert forall|s: Seq<Seq<char>>| #[trigger] texts_document(s) != j@ by {
                            if texts_document(s) == j@ {
                                assert(!(items[i as int]@ is Text));
                                assert(texts_document(s)->Array_0 == jsons_view(items@));
                                assert(texts_document(s)->Array_0.len() == s.len());
                                assert(jsons_view(items@).len() == items.len());
                                assert(texts_document(s)->Array_0[i as int] == JsonView::Text(s[i as int]));
                            }
                        }
                        return None;
                    },
                }
                i = i + 1;
            }
            assert(jsons_view(items@) =~= texts_document(texts_view(out@))->Array_0);
            Some(out)
        },
        _ => None,
    }
}

/// Two lists of texts with the same document are the same list.
pub proof fn lemma_texts_document_injective(a: Seq<Seq<char>>, b: Seq<Seq<char>>)
    requires
        texts_document(a) == texts_document(b),
    ensures
        a == b,
{
    let da = texts_document(a)->Array_0;
    let db = texts_document(b)->Array_0;
    assert(da.len() == a.len() && db.len() == b.len());
    assert forall|i: int| 0 <= i < a.len() implies a[i] == b[i] by {
        assert(da[i] == JsonView::Text(a[i]));
        assert(db[i] == JsonView::Text(b[i]));
    }
    assert(a =~= b);
}

pub open spec fn node_document(n: Node) -> JsonView {
    JsonView::Object(
        seq![
            field("id"@, number_document(n.id)),
            field("start"@, number_document(n.span.start)),
            field("end"@, number_document(n.span.end)),
        ],
    )
}

pub fn encode_node(n: &Node) -> (r: Json)
    ensures
        r@ == node_document(*n),
{
    let mut fields: Vec<JsonField> = Vec::new();
    fields.push(JsonField { key: String::from_str("id"), value: encode_number(n.id) });
    fields.push(JsonField { key: String::from_str("start"), value: encode_number(n.span.start) });
    fields.push(JsonField { key: String::from_str("end"), value: encode_number(n.span.end) });
    assert(json_fields_view(fields@) =~= node_document(*n)->Object_0);
    Json::Object(fields)
}

pub fn decode_node(j: &Json) -> (r: Option<Node>)
    ensures
        match r {
            Some(n) => node_document(n) == j@,
            None => forall|n: Node| #[trigger] node_document(n) != j@,
        },
{
    let fields = match object_fields(j, 3) {
        Some(fields) => fields,
        None => return None,
    };
    if !has_key(&fields[0], "id") || !has_key(&fields[1], "start") || !has_key(&fields[2], "end") {
        return None;
    }
    let id = match decode_number(&fields[0].value) {
        Some(x) => x,
        None => return None,
    };
    let start = match decode_number(&fields[1].value) {
        Some(x) => x,
        None => return None,
    };
    let end = match decode_number(&fields[2].value) {
        Some(x) => x,
        None => return None,
    };
    let n = Node { id, span: Span { start, end } };
    assert(json_fields_view(fields@) =~= node_document(n)->Object_0);
    Some(n)
}

} // verus!
