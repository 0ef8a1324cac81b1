use refsync::push::{
    sync_personnages_payload,
    publish_chunk_bodies,
    synced_msg,
    sync_failed_msg,
    batch_failed_msg,
    version_failed_msg,
    published_msg,
};
use refsync::records::{CharacterRow, RefItemRow};

fn item(id: i64) -> RefItemRow {
    RefItemRow {
        id,
        category: "Autre".to_string(),
        ref_id: 0,
        nom: "Inconnu".to_string(),
        degats: "{}".to_string(),
        caracteristiques: "{}".to_string(),
        protections: "{}".to_string(),
        prix_info: "{}".to_string(),
        craft: "{}".to_string(),
        details: "{}".to_string(),
    }
}

#[test]
fn character_payload_is_one_json_array() {
    let rows = vec![
        CharacterRow {
            id: 1,
            name: "Aria".to_string(),
            data: "{\"pv\":12}".to_string(),
            updated_at: "2024-01-01".to_string(),
        },
        CharacterRow {
            id: 2,
            name: "Bren".to_string(),
            data: "not json at all".to_string(),
            updated_at: "2024-01-02".to_string(),
        },
    ];
    let (body, count) = sync_personnages_payload(rows);
    assert_eq!(count, 2);
    // A malformed data column is coerced to null, never an error.
    assert_eq!(
        body,
        "[{\"id\":1,\"name\":\"Aria\",\"data\":{\"pv\":12},\"updated_at\":\"2024-01-01\"},\
         {\"id\":2,\"name\":\"Bren\",\"data\":null,\"updated_at\":\"2024-01-02\"}]"
    );
}

#[test]
fn empty_character_payload() {
    let (body, count) = sync_personnages_payload(vec![]);
    assert_eq!(count, 0);
    assert_eq!(body, "[]");
}

#[test]
fn publish_of_250_items_makes_three_batches_of_100_100_50() {
    let items: Vec<RefItemRow> = (0..250).map(item).collect();
    let bodies = publish_chunk_bodies(&items);
    assert_eq!(bodies.len(), 3);
    // Each body is a JSON array; count its top-level rows by their ids.
    let sizes: Vec<usize> = bodies
        .iter()
        .map(|b| {
            let v: serde_json::Value = serde_json::from_str(b).expect("valid JSON");
            v.as_array().expect("an array").len()
        })
        .collect();
    assert_eq!(sizes, vec![100, 100, 50]);
    // The batches cover the table in order.
    let first: serde_json::Value = serde_json::from_str(&bodies[0]).unwrap();
    let last: serde_json::Value = serde_json::from_str(&bodies[2]).unwrap();
    assert_eq!(first[0]["id"], serde_json::Value::Number(0.into()));
    assert_eq!(last[49]["id"], serde_json::Value::Number(249.into()));
}

#[test]
fn publish_aborts_on_first_failed_batch() {
    // The sequential send loop: batch 2 fails, so batch 1 stays committed
    // remotely and batch 3 is never attempted.
    let items: Vec<RefItemRow> = (0..250).map(item).collect();
    let bodies = publish_chunk_bodies(&items);
    let mut committed: Vec<String> = Vec::new();
    let mut attempted = 0;
    let mut failed = false;
    for (k, body) in bodies.iter().enumerate() {
        attempted += 1;
        let rejected = k == 1;
        if rejected {
            failed = true;
            break;
        }
        committed.push(body.clone());
    }
    assert!(failed);
    assert_eq!(attempted, 2);
    assert_eq!(committed.len(), 1);
    assert_eq!(committed[0], bodies[0]);
}

#[test]
fn publish_chunking_edges() {
    assert_eq!(publish_chunk_bodies(&vec![]).len(), 0);
    assert_eq!(publish_chunk_bodies(&(0..1).map(item).collect()).len(), 1);
    assert_eq!(publish_chunk_bodies(&(0..100).map(item).collect()).len(), 1);
    assert_eq!(publish_chunk_bodies(&(0..101).map(item).collect()).len(), 2);
}

#[test]
fn push_message_texts() {
    assert_eq!(synced_msg(3), "Synced 3 characters to cloud.");
    assert_eq!(sync_failed_msg("denied"), "Sync failed: denied");
    assert_eq!(
        batch_failed_msg("409 conflict"),
        "Failed to upload items batch: 409 conflict"
    );
    assert_eq!(version_failed_msg("nope"), "Failed to update version: nope");
    assert_eq!(published_msg(250, "7"), "Published 250 items. New version: 7");
}
