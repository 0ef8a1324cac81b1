//! The two record shapes the engine moves around: user-owned characters and
//! catalog reference items, together with how a record is assembled from a
//! remote document (with defensive defaulting) and how it is written back
//! out as a JSON document.

use vstd::prelude::*;
use vstd::string::*;
use crate::json::{JsonVal, JsonModel, jmodel_of, jfield_models_of};
use crate::parse::{spec_parse_json, parse_json};
use crate::codec::{
    spec_get_i64,
    spec_get_str,
    spec_subdoc_of,
    spec_encode_subdoc,
    get_i64,
    get_string,
    encoded_subdoc_field,
};

verus! {

broadcast use vstd::seq::group_seq_axioms, vstd::std_specs::vec::group_vec_axioms;

/// One character row as the local store hands it over: the `data` column
/// holds the serialized document text.
pub struct CharacterRow {
    pub id: i64,
    pub name: String,
    pub data: String,
    pub updated_at: String,
}

/// One character record ready to travel: the document text decoded, with a
/// malformed document coerced to null rather than rejected.
pub struct Personnage {
    pub id: i64,
    pub name: String,
    pub data: JsonVal,
    pub updated_at: String,
}

/// One reference item as stored in the local flat table: the six
/// sub-document columns hold canonical JSON text.
pub struct RefItemRow {
    pub id: i64,
    pub category: String,
    pub ref_id: i64,
    pub nom: String,
    pub degats: String,
    pub caracteristiques: String,
    pub protections: String,
    pub prix_info: String,
    pub craft: String,
    pub details: String,
}

/// The mathematical shape of a stored reference item.
#[verifier::ext_equal]
pub struct RefItemModel {
    pub id: i64,
    pub category: Seq<char>,
    pub ref_id: i64,
    pub nom: Seq<char>,
    pub degats: Seq<char>,
    pub caracteristiques: Seq<char>,
    pub protections: Seq<char>,
    pub prix_info: Seq<char>,
    pub craft: Seq<char>,
    pub details: Seq<char>,
}

/// The model of a stored reference item.
pub open spec fn row_model(r: RefItemRow) -> RefItemModel {
    RefItemModel {
        id: r.id,
        category: r.category@,
        ref_id: r.ref_id,
        nom: r.nom@,
        degats: r.degats@,
        caracteristiques: r.caracteristiques@,
        protections: r.protections@,
        prix_info: r.prix_info@,
        craft: r.craft@,
        details: r.details@,
    }
}

/// The models of a sequence of stored reference items.
pub open spec fn row_models(s: Seq<RefItemRow>) -> Seq<RefItemModel> {
    Seq::new(s.len(), |i: int| row_model(s[i]))
}

/// The sub-document column of a stored reference item named by `key`; any
/// other key reads the first such column.
pub open spec fn subdoc_column(r: RefItemModel, key: Seq<char>) -> Seq<char> {
    if key == "caracteristiques"@ { r.caracteristiques }
    else if key == "protections"@ { r.protections }
    else if key == "prix_info"@ { r.prix_info }
    else if key == "craft"@ { r.craft }
    else if key == "details"@ { r.details }
    else { r.degats }
}

/// The document a stored text column decodes to: null when unreadable.
pub open spec fn spec_data_doc(s: Seq<char>) -> JsonModel {
    match spec_parse_json(s) {
        Some(v) => v,
        None => JsonModel::Null,
    }
}

/// Decodes a stored document column; a malformed document becomes null,
/// never an error.
pub fn decode_data_column(s: &str) -> (r: JsonVal)
    ensures
        jmodel_of(r) == spec_data_doc(s@),
{
    match parse_json(s) {
        Some(v) => v,
        None => JsonVal::Null,
    }
}

/// The stored reference item a remote document yields: absent identity
/// fields default to `0`, `"Autre"` and `"Inconnu"`, and each of the six
/// sub-document fields is put through the field codec.
pub open spec fn spec_ref_item_from_remote(v: JsonModel) -> RefItemModel {
    RefItemModel {
        id: spec_get_i64(v, "id"@, 0),
        category: spec_get_str(v, "category"@, "Autre"@),
        ref_id: spec_get_i64(v, "ref_id"@, 0),
        nom: spec_get_str(v, "nom"@, "Inconnu"@),
        degats: spec_encode_subdoc(spec_subdoc_of(v, "degats"@)),
        caracteristiques: spec_encode_subdoc(spec_subdoc_of(v, "caracteristiques"@)),
        protections: spec_encode_subdoc(spec_subdoc_of(v, "protections"@)),
        prix_info: spec_encode_subdoc(spec_subdoc_of(v, "prix_info"@)),
        craft: spec_encode_subdoc(spec_subdoc_of(v, "craft"@)),
        details: spec_encode_subdoc(spec_subdoc_of(v, "details"@)),
    }
}

/// Builds the stored reference item of one remote document.
pub fn ref_item_from_remote(v: &JsonVal) -> (r: RefItemRow)
    ensures
        row_model(r) == spec_ref_item_from_remote(jmodel_of(*v)),
{
    RefItemRow {
        id: get_i64(v, "id", 0),
        category: get_string(v, "category", "Autre"),
        ref_id: get_i64(v, "ref_id", 0),
        nom: get_string(v, "nom", "Inconnu"),
        degats: encoded_subdoc_field(v, "degats"),
        caracteristiques: encoded_subdoc_field(v, "caracteristiques"),
        protections: encoded_subdoc_field(v, "protections"),
        prix_info: encoded_subdoc_field(v, "prix_info"),
        craft: encoded_subdoc_field(v, "craft"),
        details: encoded_subdoc_field(v, "details"),
    }
}

/// Decodes one character row: the identity travels unchanged and the data
/// column becomes a document, null when unreadable.
pub fn personnage_from_row(row: CharacterRow) -> (r: Personnage)
    ensures
        r.id == row.id,
        r.name@ == row.name@,
        r.updated_at@ == row.updated_at@,
        jmodel_of(r.data) == spec_data_doc(row.data@),
{
    let data = decode_data_column(row.data.as_str());
    Personnage { id: row.id, name: row.name, data, updated_at: row.updated_at }
}

/// The JSON document a character record travels as.
pub open spec fn spec_personnage_json(
    id: i64,
    name: Seq<char>,
    data: JsonModel,
    updated_at: Seq<char>,
) -> JsonModel {
    JsonModel::Obj(
        seq![
            ("id"@, JsonModel::Int(id)),
            ("name"@, JsonModel::Str(name)),
            ("data"@, data),
            ("updated_at"@, JsonModel::Str(updated_at)),
        ],
    )
}

/// Turns one character record into the JSON document pushed to the remote
/// mirror.
pub fn personnage_json(p: Personnage) -> (r: JsonVal)
    ensures
        jmodel_of(r) == spec_personnage_json(p.id, p.name@, jmodel_of(p.data), p.updated_at@),
{
    let mut fields: Vec<(String, JsonVal)> = Vec::new();
    fields.push(("id".to_owned(), JsonVal::Int(p.id)));
    fields.push(("name".to_owned(), JsonVal::Str(p.name)));
    fields.push(("data".to_owned(), p.data));
    fields.push(("updated_at".to_owned(), JsonVal::Str(p.updated_at)));
    assert(jfield_models_of(fields@) =~= seq![
        ("id"@, JsonModel::Int(p.id)),
        ("name"@, JsonModel::Str(p.name@)),
        ("data"@, jmodel_of(p.data)),
        ("updated_at"@, JsonModel::Str(p.updated_at@)),
    ]);
    JsonVal::Obj(fields)
}

/// The JSON document a stored reference item travels as when published:
/// each stored sub-document column is decoded back to a document, null when
/// unreadable.
pub open spec fn spec_ref_item_json(m: RefItemModel) -> JsonModel {
    JsonModel::Obj(
        seq![
            ("id"@, JsonModel::Int(m.id)),
            ("category"@, JsonModel::Str(m.category)),
            ("ref_id"@, JsonModel::Int(m.ref_id)),
            ("nom"@, JsonModel::Str(m.nom)),
            ("degats"@, spec_data_doc(m.degats)),
            ("caracteristiques"@, spec_data_doc(m.caracteristiques)),
            ("protections"@, spec_data_doc(m.protections)),
            ("prix_info"@, spec_data_doc(m.prix_info)),
            ("craft"@, spec_data_doc(m.craft)),
            ("details"@, spec_data_doc(m.details)),
        ],
    )
}

/// Turns one stored reference item into the JSON document published to the
/// remote catalog.
pub fn ref_item_json(r: &RefItemRow) -> (j: JsonVal)
    ensures
        jmodel_of(j) == spec_ref_item_json(row_model(*r)),
{
    let mut fields: Vec<(String, JsonVal)> = Vec::new();
    fields.push(("id".to_owned(), JsonVal::Int(r.id)));
    fields.push(("category".to_owned(), JsonVal::Str(r.category.clone())));
    fields.push(("ref_id".to_owned(), JsonVal::Int(r.ref_id)));
    fields.push(("nom".to_owned(), JsonVal::Str(r.nom.clone())));
    fields.push(("degats".to_owned(), decode_data_column(r.degats.as_str())));
    fields.push(("caracteristiques".to_owned(), decode_data_column(r.caracteristiques.as_str())));
    fields.push(("protections".to_owned(), decode_data_column(r.protections.as_str())));
    fields.push(("prix_info".to_owned(), decode_data_column(r.prix_info.as_str())));
    fields.push(("craft".to_owned(), decode_data_column(r.craft.as_str())));
    fields.push(("details".to_owned(), decode_data_column(r.details.as_str())));
    assert(jfield_models_of(fields@) =~= seq![
        ("id"@, JsonModel::Int(r.id)),
        ("category"@, JsonModel::Str(r.category@)),
        ("ref_id"@, JsonModel::Int(r.ref_id)),
        ("nom"@, JsonModel::Str(r.nom@)),
        ("degats"@, spec_data_doc(r.degats@)),
        ("caracteristiques"@, spec_data_doc(r.caracteristiques@)),
        ("protections"@, spec_data_doc(r.protections@)),
        ("prix_info"@, spec_data_doc(r.prix_info@)),
        ("craft"@, spec_data_doc(r.craft@)),
        ("details"@, spec_data_doc(r.details@)),
    ]);
    JsonVal::Obj(fields)
}

} // verus!
