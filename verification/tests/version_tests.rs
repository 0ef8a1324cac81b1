use refsync::version::{check_remote_db_version, local_version_after_pull, meta_upsert_body};
use refsync::http::{HttpReply, meta_fetch_request, upsert_request, fetch_page_request, HttpMethod};

fn reply(status: u16, body: &str) -> HttpReply {
    HttpReply { status, body: body.to_string() }
}

#[test]
fn version_check_returns_value_when_present() {
    let r = reply(200, "[{\"key\":\"ref_version\",\"value\":\"42\"}]");
    assert_eq!(check_remote_db_version(Some(&r)), "42");
}

#[test]
fn version_check_defaults_to_zero_without_row() {
    // A backend with no ref_version row answers an empty selection.
    let r = reply(200, "[]");
    assert_eq!(check_remote_db_version(Some(&r)), "0");
    // A transport failure, a rejected request and an unreadable body are
    // all swallowed the same way.
    assert_eq!(check_remote_db_version(None), "0");
    assert_eq!(check_remote_db_version(Some(&reply(404, "missing"))), "0");
    assert_eq!(check_remote_db_version(Some(&reply(200, "garbage"))), "0");
    assert_eq!(check_remote_db_version(Some(&reply(200, "[{\"value\":7}]"))), "0");
}

#[test]
fn version_after_pull_defaults_to_one() {
    // The post-pull refresh falls back to "1", not "0": a completed pull
    // must not look like a missing catalog.
    assert_eq!(local_version_after_pull(None), "1");
    assert_eq!(local_version_after_pull(Some(&reply(500, ""))), "1");
    assert_eq!(local_version_after_pull(Some(&reply(200, "[]"))), "1");
    let found = reply(200, "[{\"value\":\"9\"}]");
    assert_eq!(local_version_after_pull(Some(&found)), "9");
}

#[test]
fn meta_upsert_body_text() {
    assert_eq!(
        meta_upsert_body("3"),
        "{\"key\":\"ref_version\",\"value\":\"3\"}"
    );
}

#[test]
fn request_shapes() {
    let up = upsert_request("https://x.example", "personnages", "k", "t", "[]".to_string());
    assert!(matches!(up.method, HttpMethod::Post));
    assert_eq!(up.url, "https://x.example/rest/v1/personnages");
    assert_eq!(up.headers[0], ("apikey".to_string(), "k".to_string()));
    assert_eq!(up.headers[1], ("Authorization".to_string(), "Bearer t".to_string()));
    assert_eq!(up.headers[2], ("Content-Type".to_string(), "application/json".to_string()));
    assert_eq!(
        up.headers[3],
        ("Prefer".to_string(), "resolution=merge-duplicates".to_string())
    );
    assert_eq!(up.body.as_deref(), Some("[]"));

    let page = fetch_page_request("https://x.example", "ref_items", "k", "t", 1000, 1000);
    assert!(matches!(page.method, HttpMethod::Get));
    assert_eq!(page.url, "https://x.example/rest/v1/ref_items?select=*");
    assert_eq!(page.headers[2], ("Range".to_string(), "1000-1999".to_string()));
    assert!(page.body.is_none());

    let meta = meta_fetch_request("https://x.example", "k", "t");
    assert!(matches!(meta.method, HttpMethod::Get));
    assert_eq!(
        meta.url,
        "https://x.example/rest/v1/db_meta?key=eq.ref_version&select=value"
    );
    assert_eq!(meta.headers.len(), 2);
}
