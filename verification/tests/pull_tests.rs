use refsync::pull::{PullFetch, LocalTableImage, build_ref_items, sync_ok_msg, fetch_failed_msg};
use refsync::http::HttpReply;
use refsync::json::JsonVal;
use refsync::errors::SyncError;

/// A page body of `n` empty-object rows: `[{},{},...]`.
fn page_of(n: usize) -> String {
    let mut body = String::from("[");
    for i in 0..n {
        if i > 0 {
            body.push(',');
        }
        body.push_str("{}");
    }
    body.push(']');
    body
}

#[test]
fn pagination_terminates_after_three_pages_of_2500_rows() {
    // A remote table of exactly 2500 rows with page size 1000: three
    // fetches of 1000, 1000 and 500 rows, and exactly 2500 accumulated.
    let mut walk = PullFetch::new();
    let mut fetches = 0;
    let pages = [page_of(1000), page_of(1000), page_of(500)];
    let mut next = 0;
    loop {
        assert!(next < pages.len(), "must not ask for a fourth page");
        let body = &pages[next];
        assert_eq!(walk.offset, next * 1000);
        next += 1;
        fetches += 1;
        let more = walk.ingest_page(body).expect("page decodes");
        if !more {
            break;
        }
    }
    assert_eq!(fetches, 3);
    assert_eq!(walk.rows.len(), 2500);
}

#[test]
fn pagination_single_short_page() {
    let mut walk = PullFetch::new();
    let more = walk.ingest_page(&page_of(3)).expect("page decodes");
    assert!(!more);
    assert_eq!(walk.rows.len(), 3);
    assert_eq!(walk.offset, 0);
}

#[test]
fn pagination_empty_table() {
    let mut walk = PullFetch::new();
    let more = walk.ingest_page("[]").expect("page decodes");
    assert!(!more);
    assert_eq!(walk.rows.len(), 0);
}

#[test]
fn rejected_page_carries_offset_stamped_message() {
    let mut walk = PullFetch::new();
    let _ = walk.ingest_page(&page_of(1000)).expect("full page");
    let reply = HttpReply { status: 503, body: "unavailable".to_string() };
    match walk.check_page_status(&reply) {
        Err(SyncError::RemoteRejected(msg)) => {
            assert_eq!(msg, "Fetch failed at offset 1000: unavailable");
        },
        _ => panic!("a non-success status must be rejected"),
    }
    assert_eq!(
        fetch_failed_msg(0, "boom"),
        "Fetch failed at offset 0: boom"
    );
}

#[test]
fn unreadable_page_changes_nothing() {
    let mut walk = PullFetch::new();
    let err = walk.ingest_page("not json").unwrap_err();
    assert!(matches!(err, SyncError::RemoteRejected(_)));
    assert_eq!(walk.rows.len(), 0);
    assert_eq!(walk.offset, 0);
}

#[test]
fn pull_is_idempotent_for_unchanged_remote_rows() {
    let remote: Vec<JsonVal> = (0..4).map(|_| JsonVal::Obj(vec![
        ("id".to_string(), JsonVal::Int(9)),
        ("nom".to_string(), JsonVal::Str("Corde".to_string())),
    ])).collect();
    let first = build_ref_items(&remote);
    let second = build_ref_items(&remote);
    assert_eq!(first.len(), second.len());
    for (a, b) in first.iter().zip(second.iter()) {
        assert_eq!(a.id, b.id);
        assert_eq!(a.nom, b.nom);
        assert_eq!(a.category, b.category);
        assert_eq!(a.degats, b.degats);
    }
}

#[test]
fn failed_pull_leaves_local_table_untouched() {
    // The local image is only ever replaced by a commit; a pull that fails
    // while fetching never commits, so the rows and marker survive.
    let seeded = build_ref_items(&vec![JsonVal::Obj(vec![(
        "nom".to_string(),
        JsonVal::Str("Ancien".to_string()),
    )])]);
    let mut image = LocalTableImage::new("5".to_string());
    image.commit_pull(seeded, "5".to_string());

    let mut walk = PullFetch::new();
    let outcome = walk.ingest_page("{\"oops\": true}");
    assert!(outcome.is_err());
    // No commit happened: the pre-pull state is intact.
    assert_eq!(image.rows.len(), 1);
    assert_eq!(image.rows[0].nom, "Ancien");
    assert_eq!(image.version, "5");
}

#[test]
fn committed_pull_replaces_all_rows_and_version() {
    let mut image = LocalTableImage::new("0".to_string());
    let old_rows = build_ref_items(&vec![JsonVal::Obj(vec![])]);
    image.commit_pull(old_rows, "1".to_string());
    let new_rows = build_ref_items(&vec![
        JsonVal::Obj(vec![("nom".to_string(), JsonVal::Str("Neuf".to_string()))]),
        JsonVal::Obj(vec![]),
    ]);
    image.commit_pull(new_rows, "2".to_string());
    assert_eq!(image.rows.len(), 2);
    assert_eq!(image.rows[0].nom, "Neuf");
    assert_eq!(image.version, "2");
}

#[test]
fn transactional_pull_rolls_back_on_insert_failure() {
    // The pull's local phase runs inside one transaction: delete all rows,
    // insert every fetched row, commit. Forcing a key violation on the
    // second insert must leave the pre-pull table intact — no partial rows.
    let mut db = rusqlite::Connection::open_in_memory().unwrap();
    db.execute_batch(
        "CREATE TABLE ref_items (id INTEGER PRIMARY KEY, nom TEXT NOT NULL);",
    )
    .unwrap();
    db.execute("INSERT INTO ref_items (id, nom) VALUES (?1, ?2)", (1, "Ancien")).unwrap();

    // Two fetched remote rows that collide on the primary key.
    let remote = vec![
        JsonVal::Obj(vec![
            ("id".to_string(), JsonVal::Int(10)),
            ("nom".to_string(), JsonVal::Str("Premier".to_string())),
        ]),
        JsonVal::Obj(vec![
            ("id".to_string(), JsonVal::Int(10)),
            ("nom".to_string(), JsonVal::Str("Doublon".to_string())),
        ]),
    ];
    let items = build_ref_items(&remote);

    let mut failed = false;
    {
        let tx = db.transaction().unwrap();
        tx.execute("DELETE FROM ref_items", []).unwrap();
        {
            let mut stmt = tx.prepare("INSERT INTO ref_items (id, nom) VALUES (?1, ?2)").unwrap();
            for r in &items {
                if stmt.execute((r.id, r.nom.as_str())).is_err() {
                    failed = true;
                    break;
                }
            }
        }
        // On failure the transaction is dropped uncommitted, as the engine
        // drops it when it returns the insert error.
        if !failed {
            tx.commit().unwrap();
        }
    }
    assert!(failed, "the second insert must violate the key");

    let n: i64 = db.query_row("SELECT COUNT(*) FROM ref_items", [], |r| r.get(0)).unwrap();
    assert_eq!(n, 1);
    let nom: String = db.query_row("SELECT nom FROM ref_items", [], |r| r.get(0)).unwrap();
    assert_eq!(nom, "Ancien");
}

#[test]
fn sync_message_text() {
    assert_eq!(sync_ok_msg(2500), "Successfully synced 2500 equipements.");
    assert_eq!(sync_ok_msg(0), "Successfully synced 0 equipements.");
}
