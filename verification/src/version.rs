//! The version-marker protocol: a single `ref_version` key/value row kept
//! both locally and remotely, used to tell whether the local reference
//! catalog is stale.
//!
//! Reading the remote marker never fails outward. A version check treats
//! every failure as the default `"0"` (no versioned catalog exists yet); the
//! best-effort refresh after a pull falls back to `"1"` instead, recording
//! that a pull happened even though the version is unknown. The two
//! defaults differ deliberately.

use vstd::prelude::*;
use vstd::string::*;
use crate::json::{JsonVal, JsonModel, jfield_models_of, spec_encode, to_json_text};
use crate::parse::spec_parse_json;
use crate::parse::parse_json;
use crate::codec::spec_obj_get;
use crate::codec::get_string;
use crate::http::{HttpReply, spec_status_success, status_is_success};

verus! {

broadcast use vstd::seq::group_seq_axioms, vstd::std_specs::vec::group_vec_axioms;

/// The `value` column of the first row of a decoded metadata answer, when
/// the answer is an array whose first row carries a string under `value`.
pub open spec fn spec_meta_value_of(doc: Option<JsonModel>) -> Option<Seq<char>> {
    match doc {
        Some(JsonModel::Arr(rows)) => if rows.len() > 0 {
            match rows[0] {
                JsonModel::Obj(fields) => match spec_obj_get(fields, "value"@) {
                    Some(JsonModel::Str(s)) => Some(s),
                    _ => None,
                },
                _ => None,
            }
        } else {
            None
        },
        _ => None,
    }
}

/// The model of an optional reply: its status and body text.
pub open spec fn reply_model(r: Option<&HttpReply>) -> Option<(u16, Seq<char>)> {
    match r {
        Some(reply) => Some((reply.status, reply.body@)),
        None => None,
    }
}

/// The version a metadata reply yields under a given fallback: the `value`
/// of the first row when the reply succeeded and carries one, else the
/// fallback.
pub open spec fn spec_version_or(reply: Option<(u16, Seq<char>)>, fallback: Seq<char>) -> Seq<
    char,
> {
    match reply {
        None => fallback,
        Some((status, body)) => if !spec_status_success(status) {
            fallback
        } else {
            match spec_meta_value_of(spec_parse_json(body)) {
                Some(v) => v,
                None => fallback,
            }
        },
    }
}

fn version_or(reply: Option<&HttpReply>, fallback: &str) -> (r: String)
    ensures
        r@ == spec_version_or(reply_model(reply), fallback@),
{
    match reply {
        None => fallback.to_owned(),
        Some(reply) => {
            if !status_is_success(reply.status) {
                fallback.to_owned()
            } else {
                match parse_json(reply.body.as_str()) {
                    Some(doc) => match doc {
                        JsonVal::Arr(rows) => {
                            if rows.len() > 0 {
                                match &rows[0] {
                                    JsonVal::Obj(_) => get_string(&rows[0], "value", fallback),
                                    JsonVal::Null => fallback.to_owned(),
                                    JsonVal::Bool(_) => fallback.to_owned(),
                                    JsonVal::Int(_) => fallback.to_owned(),
                                    JsonVal::Num(_) => fallback.to_owned(),
                                    JsonVal::Str(_) => fallback.to_owned(),
                                    JsonVal::Arr(_) => fallback.to_owned(),
                                }
                            } else {
                                fallback.to_owned()
                            }
                        },
                        JsonVal::Null => fallback.to_owned(),
                        JsonVal::Bool(_) => fallback.to_owned(),
                        JsonVal::Int(_) => fallback.to_owned(),
                        JsonVal::Num(_) => fallback.to_owned(),
                        JsonVal::Str(_) => fallback.to_owned(),
                        JsonVal::Obj(_) => fallback.to_owned(),
                    },
                    None => fallback.to_owned(),
                }
            }
        },
    }
}

/// Decides the version a check reports: the remote marker's value verbatim
/// when the reply succeeded and carries one, else the literal `"0"` — a
/// missing version is not an error, it means no versioned catalog exists.
pub fn check_remote_db_version(reply: Option<&HttpReply>) -> (r: String)
    ensures
        r@ == spec_version_or(reply_model(reply), "0"@),
{
    version_or(reply, "0")
}

/// Decides the version recorded locally after a successful pull: the remote
/// marker's value when the reply succeeded and carries one, else the
/// literal `"1"` — distinct from the check's `"0"`, so that a completed
/// pull is never mistaken for a missing catalog.
pub fn local_version_after_pull(reply: Option<&HttpReply>) -> (r: String)
    ensures
        r@ == spec_version_or(reply_model(reply), "1"@),
{
    version_or(reply, "1")
}

/// The document upserted into the metadata table to publish a version.
pub open spec fn spec_meta_doc(version: Seq<char>) -> JsonModel {
    JsonModel::Obj(
        seq![("key"@, JsonModel::Str("ref_version"@)), ("value"@, JsonModel::Str(version))],
    )
}

/// Builds the body that publishes `version` into the remote metadata table.
pub fn meta_upsert_body(version: &str) -> (r: String)
    ensures
        r@ == spec_encode(spec_meta_doc(version@)),
{
    let mut fields: Vec<(String, JsonVal)> = Vec::new();
    fields.push(("key".to_owned(), JsonVal::Str("ref_version".to_owned())));
    fields.push(("value".to_owned(), JsonVal::Str(version.to_owned())));
    assert(jfield_models_of(fields@) =~= seq![
        ("key"@, JsonModel::Str("ref_version"@)),
        ("value"@, JsonModel::Str(version@)),
    ]);
    let doc = JsonVal::Obj(fields);
    to_json_text(&doc)
}

} // verus!
