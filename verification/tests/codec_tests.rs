use refsync::codec::{SubDoc, encode_subdoc, get_i64, get_string, str_eq};
use refsync::json::JsonVal;
use refsync::parse::parse_json;
use refsync::records::{RefItemRow, ref_item_from_remote, ref_item_json};
use refsync::pull::build_ref_items;

fn obj(fields: Vec<(&str, JsonVal)>) -> JsonVal {
    JsonVal::Obj(fields.into_iter().map(|(k, v)| (k.to_string(), v)).collect())
}

#[test]
fn getters_and_duplicate_keys() {
    // With a repeated key the last member wins, as the backend keeps the
    // last write of a key.
    let v = refsync::parse::parse_json("{\"a\":1,\"a\":2,\"b\":\"x\"}").expect("parses");
    assert_eq!(get_i64(&v, "a", 0), 2);
    assert_eq!(get_string(&v, "b", "none"), "x");
    assert_eq!(get_i64(&v, "missing", -5), -5);
    assert_eq!(get_string(&v, "a", "fallback"), "fallback");
    assert!(str_eq("même", "même"));
    assert!(!str_eq("a", "b"));
    assert!(!str_eq("a", "ab"));
}

#[test]
fn codec_raw_string_passes_through_verbatim() {
    // Pre-encoded JSON text arriving as a string must not be escaped again.
    let d = SubDoc::RawText("{\"pi\":2}".to_string());
    assert_eq!(encode_subdoc(&d), "{\"pi\":2}");
}

#[test]
fn codec_structured_value_serializes_compactly() {
    let d = SubDoc::Structured(obj(vec![("pi", JsonVal::Int(2))]));
    assert_eq!(encode_subdoc(&d), "{\"pi\":2}");
    let n = SubDoc::Structured(JsonVal::Null);
    assert_eq!(encode_subdoc(&n), "null");
    let b = SubDoc::Structured(JsonVal::Bool(true));
    assert_eq!(encode_subdoc(&b), "true");
}

#[test]
fn codec_absent_defaults_to_empty_object() {
    assert_eq!(encode_subdoc(&SubDoc::Absent), "{}");
}

#[test]
fn defaulting_of_missing_remote_fields() {
    // A remote record with nothing in it: every identity field defaults and
    // every sub-document column is stored as exactly "{}".
    let remote = vec![obj(vec![])];
    let rows = build_ref_items(&remote);
    assert_eq!(rows.len(), 1);
    let r = &rows[0];
    assert_eq!(r.id, 0);
    assert_eq!(r.category, "Autre");
    assert_eq!(r.ref_id, 0);
    assert_eq!(r.nom, "Inconnu");
    for col in [&r.degats, &r.caracteristiques, &r.protections, &r.prix_info, &r.craft, &r.details]
    {
        assert_eq!(col, "{}");
    }
}

#[test]
fn defaulting_ignores_wrongly_shaped_fields() {
    let remote = vec![obj(vec![
        ("id", JsonVal::Str("not a number".to_string())),
        ("nom", JsonVal::Int(3)),
    ])];
    let rows = build_ref_items(&remote);
    assert_eq!(rows[0].id, 0);
    assert_eq!(rows[0].nom, "Inconnu");
    // A fractional id is a number, but no whole 64-bit value: it defaults.
    let remote = vec![obj(vec![("id", JsonVal::Num("2.5".to_string()))])];
    assert_eq!(build_ref_items(&remote)[0].id, 0);
}

#[test]
fn fractional_sub_documents_survive_a_pull() {
    // A remote row whose sub-document holds fractional numbers syncs, and
    // the stored column keeps them exactly.
    let remote = vec![obj(vec![(
        "degats",
        obj(vec![("poids", JsonVal::Num("0.75".to_string())), ("pi", JsonVal::Int(2))]),
    )])];
    let rows = build_ref_items(&remote);
    assert_eq!(rows[0].degats, "{\"poids\":0.75,\"pi\":2}");
}

#[test]
fn string_sub_document_passes_through_raw() {
    // A column holding a JSON *string* decodes to raw text; the pull stores
    // that text verbatim instead of encoding it again — the passthrough
    // that protects pre-encoded JSON from double-encoding.
    let remote = vec![obj(vec![(
        "degats",
        JsonVal::Str("{\"pi\":2}".to_string()),
    )])];
    let rows = build_ref_items(&remote);
    assert_eq!(rows[0].degats, "{\"pi\":2}");
}

#[test]
fn every_sub_document_column_round_trips() {
    // The same cycle holds for each of the six columns, not only degats.
    let local = RefItemRow {
        id: 1,
        category: "Autre".to_string(),
        ref_id: 0,
        nom: "Inconnu".to_string(),
        degats: "{\"pi\":2}".to_string(),
        caracteristiques: "[1,2,3]".to_string(),
        protections: "{\"pa\":4}".to_string(),
        prix_info: "{\"or\":0.5}".to_string(),
        craft: "true".to_string(),
        details: "\"du texte\"".to_string(),
    };
    let published = ref_item_json(&local);
    let pulled = &build_ref_items(&vec![published])[0];
    assert_eq!(pulled.degats, "{\"pi\":2}");
    assert_eq!(pulled.caracteristiques, "[1,2,3]");
    assert_eq!(pulled.protections, "{\"pa\":4}");
    assert_eq!(pulled.prix_info, "{\"or\":0.5}");
    assert_eq!(pulled.craft, "true");
    // A column that decodes to a JSON *string* passes through raw, per the
    // codec's passthrough asymmetry: its stored text is the inner text.
    assert_eq!(pulled.details, "du texte");
}

#[test]
fn sub_document_round_trip_through_publish_and_pull() {
    // A local item whose degats column holds {"pi": 2}: published, the
    // column decodes to a structured document; pulled back, the stored
    // column decodes to the same value, with no double-encoding.
    let local = RefItemRow {
        id: 7,
        category: "Arme".to_string(),
        ref_id: 3,
        nom: "Fronde".to_string(),
        degats: "{\"pi\":2}".to_string(),
        caracteristiques: "{}".to_string(),
        protections: "{}".to_string(),
        prix_info: "{}".to_string(),
        craft: "{}".to_string(),
        details: "{}".to_string(),
    };
    // Publish: the record travels as a JSON document.
    let published = ref_item_json(&local);
    // The remote row comes back as that same document in a pull page.
    let pulled = build_ref_items(&vec![published]);
    assert_eq!(pulled.len(), 1);
    assert_eq!(pulled[0].id, 7);
    assert_eq!(pulled[0].nom, "Fronde");
    assert_eq!(pulled[0].degats, "{\"pi\":2}");
    let decoded = parse_json(&pulled[0].degats).expect("stored column decodes");
    match decoded {
        JsonVal::Obj(fields) => {
            assert_eq!(fields.len(), 1);
            assert_eq!(fields[0].0, "pi");
            assert!(matches!(fields[0].1, JsonVal::Int(2)));
        },
        _ => panic!("expected an object"),
    }
}
