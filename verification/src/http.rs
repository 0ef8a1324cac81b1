//! The shapes of the requests the engine sends to the remote backend, and
//! the reading of status codes. Nothing here performs I/O: a caller takes a
//! built request, carries it over the wire, and hands the answer back.

use vstd::prelude::*;
use vstd::string::*;
use crate::json::{spec_nat_chars, write_nat, push_char};

verus! {

/// The verb of a request.
pub enum HttpMethod {
    Get,
    Post,
}

/// One request, ready to be carried by any HTTP client: a verb, a full URL,
/// header name/value pairs, and an optional body.
pub struct HttpRequest {
    pub method: HttpMethod,
    pub url: String,
    pub headers: Vec<(String, String)>,
    pub body: Option<String>,
}

/// An answer from the remote backend, as plain values: the status code and
/// the body text.
pub struct HttpReply {
    pub status: u16,
    pub body: String,
}

/// Whether a status code counts as success.
pub open spec fn spec_status_success(status: u16) -> bool {
    200 <= status < 300
}

/// Whether a status code counts as success.
pub fn status_is_success(status: u16) -> (b: bool)
    ensures
        b == spec_status_success(status),
{
    200 <= status && status < 300
}

/// The URL of a table endpoint: `{base}/rest/v1/{table}`.
pub open spec fn spec_table_url(base: Seq<char>, table: Seq<char>) -> Seq<char> {
    base + "/rest/v1/"@ + table
}

fn table_url(base: &str, table: &str) -> (r: String)
    ensures
        r@ == spec_table_url(base@, table@),
{
    let mut url = base.to_owned();
    url.append("/rest/v1/");
    url.append(table);
    url
}

/// The `Bearer {token}` credential value.
pub open spec fn spec_bearer(token: Seq<char>) -> Seq<char> {
    "Bearer "@ + token
}

fn auth_headers(api_key: &str, token: &str) -> (r: Vec<(String, String)>)
    ensures
        r@.len() == 2,
        r@[0].0@ == "apikey"@ && r@[0].1@ == api_key@,
        r@[1].0@ == "Authorization"@ && r@[1].1@ == spec_bearer(token@),
{
    let mut headers: Vec<(String, String)> = Vec::new();
    headers.push(("apikey".to_owned(), api_key.to_owned()));
    let mut bearer = "Bearer ".to_owned();
    bearer.append(token);
    headers.push(("Authorization".to_owned(), bearer));
    headers
}

/// Builds the upsert request of a row batch: a POST to the table endpoint
/// whose `Prefer` header asks the backend to merge duplicate keys, with the
/// JSON array of rows as its body.
pub fn upsert_request(base: &str, table: &str, api_key: &str, token: &str, body: String) -> (r:
    HttpRequest)
    ensures
        r.method is Post,
        r.url@ == spec_table_url(base@, table@),
        r.headers@.len() == 4,
        r.headers@[0].0@ == "apikey"@ && r.headers@[0].1@ == api_key@,
        r.headers@[1].0@ == "Authorization"@ && r.headers@[1].1@ == spec_bearer(token@),
        r.headers@[2].0@ == "Content-Type"@ && r.headers@[2].1@ == "application/json"@,
        r.headers@[3].0@ == "Prefer"@ && r.headers@[3].1@ == "resolution=merge-duplicates"@,
        r.body matches Some(b) && b@ == body@,
{
    let url = table_url(base, table);
    let mut headers = auth_headers(api_key, token);
    headers.push(("Content-Type".to_owned(), "application/json".to_owned()));
    headers.push(("Prefer".to_owned(), "resolution=merge-duplicates".to_owned()));
    HttpRequest { method: HttpMethod::Post, url, headers, body: Some(body) }
}

/// The inclusive `Range` window of one page: `{offset}-{offset+limit-1}`.
pub open spec fn spec_range_value(offset: nat, limit: nat) -> Seq<char> {
    spec_nat_chars(offset) + seq!['-'] + spec_nat_chars((offset + limit - 1) as nat)
}

/// Builds the request of one page of a table: a GET of `?select=*` whose
/// `Range` header names the inclusive row window starting at `offset`.
pub fn fetch_page_request(
    base: &str,
    table: &str,
    api_key: &str,
    token: &str,
    offset: u64,
    limit: u64,
) -> (r: HttpRequest)
    requires
        1 <= limit,
        offset + limit <= u64::MAX,
    ensures
        r.method is Get,
        r.url@ == spec_table_url(base@, table@) + "?select=*"@,
        r.headers@.len() == 3,
        r.headers@[0].0@ == "apikey"@ && r.headers@[0].1@ == api_key@,
        r.headers@[1].0@ == "Authorization"@ && r.headers@[1].1@ == spec_bearer(token@),
        r.headers@[2].0@ == "Range"@ && r.headers@[2].1@ == spec_range_value(
            offset as nat,
            limit as nat,
        ),
        r.body is None,
{
    let mut url = table_url(base, table);
    url.append("?select=*");
    let mut headers = auth_headers(api_key, token);
    let mut range = String::new();
    write_nat(offset, &mut range);
    push_char(&mut range, '-');
    write_nat(offset + limit - 1, &mut range);
    assert(range@ =~= spec_range_value(offset as nat, limit as nat));
    headers.push(("Range".to_owned(), range));
    HttpRequest { method: HttpMethod::Get, url, headers, body: None }
}

/// The URL that selects the value of the `ref_version` row of the metadata
/// table.
pub open spec fn spec_meta_url(base: Seq<char>) -> Seq<char> {
    base + "/rest/v1/db_meta?key=eq.ref_version&select=value"@
}

/// Builds the request that reads the remote `ref_version` marker.
pub fn meta_fetch_request(base: &str, api_key: &str, token: &str) -> (r: HttpRequest)
    ensures
        r.method is Get,
        r.url@ == spec_meta_url(base@),
        r.headers@.len() == 2,
        r.headers@[0].0@ == "apikey"@ && r.headers@[0].1@ == api_key@,
        r.headers@[1].0@ == "Authorization"@ && r.headers@[1].1@ == spec_bearer(token@),
        r.body is None,
{
    let mut url = base.to_owned();
    url.append("/rest/v1/db_meta?key=eq.ref_version&select=value");
    let headers = auth_headers(api_key, token);
    HttpRequest { method: HttpMethod::Get, url, headers, body: None }
}

} // verus!
