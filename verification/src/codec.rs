//! The field codec: how one sub-document of a reference item becomes the
//! string stored in a flat row.
//!
//! A value that arrives as a JSON string is passed through verbatim — it is
//! already encoded text, and encoding it again would corrupt it. Any other
//! value is written as its compact JSON text. An absent field becomes the
//! empty-object text `{}`, never a null and never an omission.

use vstd::prelude::*;
use vstd::string::*;
use crate::json::{
    JsonVal,
    JsonModel,
    jmodel_of,
    jfield_models_of,
    spec_encode,
    to_json_text,
    push_char,
};

verus! {

broadcast use vstd::seq::group_seq_axioms, vstd::std_specs::vec::group_vec_axioms;

/// What a reference item carries in one sub-document field.
pub enum SubDoc {
    /// Pre-encoded JSON text, stored as it came.
    RawText(String),
    /// A structured value, stored as its compact JSON text.
    Structured(JsonVal),
    /// No value at all, stored as the empty-object text.
    Absent,
}

/// The mathematical shape of a sub-document field.
#[verifier::ext_equal]
pub enum SubDocModel {
    RawText(Seq<char>),
    Structured(JsonModel),
    Absent,
}

/// The model of an executable sub-document.
pub open spec fn subdoc_model_of(d: SubDoc) -> SubDocModel {
    match d {
        SubDoc::RawText(s) => SubDocModel::RawText(s@),
        SubDoc::Structured(v) => SubDocModel::Structured(jmodel_of(v)),
        SubDoc::Absent => SubDocModel::Absent,
    }
}

/// The canonical stored text of a sub-document: raw text verbatim, a
/// structured value as compact JSON, and nothing as `{}`.
pub open spec fn spec_encode_subdoc(d: SubDocModel) -> Seq<char> {
    match d {
        SubDocModel::RawText(s) => s,
        SubDocModel::Structured(v) => spec_encode(v),
        SubDocModel::Absent => seq!['{', '}'],
    }
}

/// Encodes one sub-document field into its canonical stored text.
pub fn encode_subdoc(d: &SubDoc) -> (r: String)
    ensures
        r@ == spec_encode_subdoc(subdoc_model_of(*d)),
{
    match d {
        SubDoc::RawText(s) => s.clone(),
        SubDoc::Structured(v) => to_json_text(v),
        SubDoc::Absent => {
            let mut out = String::new();
            push_char(&mut out, '{');
            push_char(&mut out, '}');
            assert(out@ =~= seq!['{', '}']);
            out
        },
    }
}

/// A field with no remote value is stored as exactly the empty-object text.
pub proof fn lemma_absent_field_encodes_empty(v: JsonModel, key: Seq<char>)
    requires
        spec_doc_get(v, key) is None,
    ensures
        spec_encode_subdoc(spec_subdoc_of(v, key)) == seq!['{', '}'],
{
}

/// The value under `key` among object members; with a repeated key the last
/// member wins, as the backend's object semantics keep the last write.
pub open spec fn spec_obj_get(fields: Seq<(Seq<char>, JsonModel)>, key: Seq<char>) -> Option<
    JsonModel,
>
    decreases fields.len(),
{
    if fields.len() == 0 {
        None
    } else if fields.last().0 == key {
        Some(fields.last().1)
    } else {
        spec_obj_get(fields.drop_last(), key)
    }
}

/// The value under `key` in a document: only an object holds members.
pub open spec fn spec_doc_get(v: JsonModel, key: Seq<char>) -> Option<JsonModel> {
    match v {
        JsonModel::Obj(fields) => spec_obj_get(fields, key),
        _ => None,
    }
}

/// The sub-document a remote record carries under `key`: a string member is
/// raw text, any other member is structured, a missing member is absent.
pub open spec fn spec_subdoc_of(v: JsonModel, key: Seq<char>) -> SubDocModel {
    match spec_doc_get(v, key) {
        None => SubDocModel::Absent,
        Some(JsonModel::Str(s)) => SubDocModel::RawText(s),
        Some(u) => SubDocModel::Structured(u),
    }
}

/// Character-by-character string equality.
pub fn str_eq(a: &str, b: &str) -> (r: bool)
    ensures
        r == (a@ == b@),
{
    let na = a.unicode_len();
    let nb = b.unicode_len();
    if na != nb {
        return false;
    }
    let mut i: usize = 0;
    while i < na
        invariant
            i <= na,
            na == a@.len(),
            na == b@.len(),
            forall|k: int| 0 <= k < i ==> a@[k] == b@[k],
        decreases na - i,
    {
        if a.get_char(i) != b.get_char(i) {
            return false;
        }
        i = i + 1;
    }
    assert(a@ =~= b@);
    true
}

/// Looks `key` up among the members of an object, last match first.
fn obj_get_last<'a>(fields: &'a Vec<(String, JsonVal)>, key: &str) -> (r: Option<&'a JsonVal>)
    ensures
        match r {
            Some(u) => spec_obj_get(jfield_models_of(fields@), key@) == Some(jmodel_of(*u)),
            None => spec_obj_get(jfield_models_of(fields@), key@) is None,
        },
{
    let ghost models = jfield_models_of(fields@);
    let mut idx = fields.len();
    assert(models.take(idx as int) =~= models);
    while idx > 0
        invariant
            idx <= fields@.len(),
            models == jfield_models_of(fields@),
            spec_obj_get(models, key@) == spec_obj_get(models.take(idx as int), key@),
        decreases idx,
    {
        idx = idx - 1;
        if str_eq(fields[idx].0.as_str(), key) {
            assert(models.take(idx as int + 1).last() == (fields@[idx as int].0@, jmodel_of(
                fields@[idx as int].1,
            )));
            return Some(&fields[idx].1);
        }
        assert(models.take(idx as int + 1).drop_last() =~= models.take(idx as int));
    }
    assert(models.take(0) =~= Seq::<(Seq<char>, JsonModel)>::empty());
    None
}

/// Looks `key` up in a document; only an object yields a value.
pub fn doc_get<'a>(v: &'a JsonVal, key: &str) -> (r: Option<&'a JsonVal>)
    ensures
        match r {
            Some(u) => spec_doc_get(jmodel_of(*v), key@) == Some(jmodel_of(*u)),
            None => spec_doc_get(jmodel_of(*v), key@) is None,
        },
{
    match v {
        JsonVal::Obj(fields) => obj_get_last(fields, key),
        JsonVal::Null => None,
        JsonVal::Bool(_) => None,
        JsonVal::Int(_) => None,
        JsonVal::Num(_) => None,
        JsonVal::Str(_) => None,
        JsonVal::Arr(_) => None,
    }
}

/// The whole-number member under `key`, or `default` when there is none.
pub open spec fn spec_get_i64(v: JsonModel, key: Seq<char>, default: i64) -> i64 {
    match spec_doc_get(v, key) {
        Some(JsonModel::Int(n)) => n,
        _ => default,
    }
}

/// Reads the whole-number member under `key`, defaulting when absent or of
/// another shape.
pub fn get_i64(v: &JsonVal, key: &str, default: i64) -> (r: i64)
    ensures
        r == spec_get_i64(jmodel_of(*v), key@, default),
{
    match doc_get(v, key) {
        Some(u) => match u {
            JsonVal::Int(n) => *n,
            JsonVal::Null => default,
            JsonVal::Bool(_) => default,
            JsonVal::Num(_) => default,
            JsonVal::Str(_) => default,
            JsonVal::Arr(_) => default,
            JsonVal::Obj(_) => default,
        },
        None => default,
    }
}

/// The string member under `key`, or `default` when there is none.
pub open spec fn spec_get_str(v: JsonModel, key: Seq<char>, default: Seq<char>) -> Seq<char> {
    match spec_doc_get(v, key) {
        Some(JsonModel::Str(s)) => s,
        _ => default,
    }
}

/// Reads the string member under `key`, defaulting when absent or of
/// another shape.
pub fn get_string(v: &JsonVal, key: &str, default: &str) -> (r: String)
    ensures
        r@ == spec_get_str(jmodel_of(*v), key@, default@),
{
    match doc_get(v, key) {
        Some(u) => match u {
            JsonVal::Str(s) => s.clone(),
            JsonVal::Null => default.to_owned(),
            JsonVal::Bool(_) => default.to_owned(),
            JsonVal::Int(_) => default.to_owned(),
            JsonVal::Num(_) => default.to_owned(),
            JsonVal::Arr(_) => default.to_owned(),
            JsonVal::Obj(_) => default.to_owned(),
        },
        None => default.to_owned(),
    }
}

/// The stored text of the sub-document under `key` of a remote record.
pub fn encoded_subdoc_field(v: &JsonVal, key: &str) -> (r: String)
    ensures
        r@ == spec_encode_subdoc(spec_subdoc_of(jmodel_of(*v), key@)),
{
    match doc_get(v, key) {
        None => {
            let mut out = String::new();
            push_char(&mut out, '{');
            push_char(&mut out, '}');
            assert(out@ =~= seq!['{', '}']);
            out
        },
        Some(u) => match u {
            JsonVal::Str(s) => s.clone(),
            JsonVal::Null => to_json_text(u),
            JsonVal::Bool(_) => to_json_text(u),
            JsonVal::Int(_) => to_json_text(u),
            JsonVal::Num(_) => to_json_text(u),
            JsonVal::Arr(_) => to_json_text(u),
            JsonVal::Obj(_) => to_json_text(u),
        },
    }
}

} // verus!
