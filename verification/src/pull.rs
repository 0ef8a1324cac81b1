//! The pull pipeline: a full refresh of the local reference catalog.
//!
//! A pull pages through the remote table in fixed windows, accumulating
//! every row; a short page ends the walk. The fetched documents then fully
//! determine the new local table — the old rows contribute nothing — and a
//! caller installs the new rows and the refreshed version marker in one
//! transaction, so a failed pull leaves the local table as it was.

use vstd::prelude::*;
use vstd::string::*;
use crate::json::{JsonVal, JsonModel, jmodels_of, spec_nat_chars, write_nat};
use crate::parse::{spec_parse_json, parse_json};
use crate::records::{
    RefItemRow,
    RefItemModel,
    row_model,
    row_models,
    spec_ref_item_from_remote,
    ref_item_from_remote,
};
use crate::errors::SyncError;
use crate::http::{
    HttpRequest,
    HttpReply,
    spec_status_success,
    status_is_success,
    spec_table_url,
    spec_bearer,
    spec_range_value,
    fetch_page_request,
};

verus! {

broadcast use vstd::seq::group_seq_axioms, vstd::std_specs::vec::group_vec_axioms;

/// How many rows one page asks for.
pub const PULL_PAGE_SIZE: usize = 1000;

/// The rows of one page body: the body must decode to a JSON array.
pub open spec fn spec_page_rows(body: Seq<char>) -> Option<Seq<JsonModel>> {
    match spec_parse_json(body) {
        Some(JsonModel::Arr(items)) => Some(items),
        _ => None,
    }
}

/// The diagnostic of a page the backend refused.
pub open spec fn spec_fetch_failed_msg(offset: nat, body: Seq<char>) -> Seq<char> {
    "Fetch failed at offset "@ + spec_nat_chars(offset) + ": "@ + body
}

/// Composes the diagnostic of a page the backend refused.
pub fn fetch_failed_msg(offset: u64, body: &str) -> (r: String)
    ensures
        r@ == spec_fetch_failed_msg(offset as nat, body@),
{
    let mut out = "Fetch failed at offset ".to_owned();
    write_nat(offset, &mut out);
    out.append(": ");
    out.append(body);
    assert(out@ =~= spec_fetch_failed_msg(offset as nat, body@));
    out
}

/// Wraps a transport failure while fetching a page: the backend was never
/// reached, and the pull ends before any local mutation.
pub fn transport_failure(detail: &str) -> (r: SyncError)
    ensures
        r matches SyncError::RemoteUnreachable(m) && m@ == "Request failed: "@ + detail@,
{
    let mut out = "Request failed: ".to_owned();
    out.append(detail);
    SyncError::RemoteUnreachable(out)
}

/// The diagnostic of one local row insert that failed during the replace.
pub open spec fn spec_insert_failed_msg(nom: Seq<char>, detail: Seq<char>) -> Seq<char> {
    "Insert error for "@ + nom + ": "@ + detail
}

/// Composes the diagnostic of one local row insert that failed.
pub fn insert_failed_msg(nom: &str, detail: &str) -> (r: String)
    ensures
        r@ == spec_insert_failed_msg(nom@, detail@),
{
    let mut out = "Insert error for ".to_owned();
    out.append(nom);
    out.append(": ");
    out.append(detail);
    assert(out@ =~= spec_insert_failed_msg(nom@, detail@));
    out
}

/// The count message of a completed pull.
pub open spec fn spec_sync_ok_msg(n: nat) -> Seq<char> {
    "Successfully synced "@ + spec_nat_chars(n) + " equipements."@
}

/// Composes the count message of a completed pull.
pub fn sync_ok_msg(n: u64) -> (r: String)
    ensures
        r@ == spec_sync_ok_msg(n as nat),
{
    let mut out = "Successfully synced ".to_owned();
    write_nat(n, &mut out);
    out.append(" equipements.");
    assert(out@ =~= spec_sync_ok_msg(n as nat));
    out
}

/// The walk through the remote table: the window start of the next page and
/// every document fetched so far.
pub struct PullFetch {
    pub offset: usize,
    pub rows: Vec<JsonVal>,
}

impl PullFetch {
    /// A walk that has fetched nothing.
    pub fn new() -> (r: PullFetch)
        ensures
            r.offset == 0,
            r.rows@.len() == 0,
    {
        PullFetch { offset: 0, rows: Vec::new() }
    }

    /// The request of the next page of the reference-item table: a GET of
    /// `?select=*` whose `Range` header names this walk's current window.
    pub fn next_request(&self, base: &str, api_key: &str, token: &str) -> (r: HttpRequest)
        requires
            self.offset + PULL_PAGE_SIZE <= u64::MAX,
        ensures
            r.method is Get,
            r.url@ == spec_table_url(base@, "ref_items"@) + "?select=*"@,
            r.headers@.len() == 3,
            r.headers@[0].0@ == "apikey"@ && r.headers@[0].1@ == api_key@,
            r.headers@[1].0@ == "Authorization"@ && r.headers@[1].1@ == spec_bearer(token@),
            r.headers@[2].0@ == "Range"@ && r.headers@[2].1@ == spec_range_value(
                self.offset as nat,
                PULL_PAGE_SIZE as nat,
            ),
            r.body is None,
    {
        fetch_page_request(base, "ref_items", api_key, token, self.offset as u64, PULL_PAGE_SIZE
            as u64)
    }

    /// Reads the status of a page reply: a non-success status ends the pull
    /// with the offset-stamped diagnostic, before any local mutation.
    pub fn check_page_status(&self, reply: &HttpReply) -> (r: Result<(), SyncError>)
        ensures
            r is Ok <==> spec_status_success(reply.status),
            !spec_status_success(reply.status) ==> (r matches Err(e) && e matches
                SyncError::RemoteRejected(m) && m@ == spec_fetch_failed_msg(
                self.offset as nat,
                reply.body@,
            )),
    {
        if status_is_success(reply.status) {
            Ok(())
        } else {
            Err(SyncError::RemoteRejected(fetch_failed_msg(self.offset as u64, reply.body.as_str())))
        }
    }

    /// Feeds the body of one successful page reply. A body that is not a
    /// JSON array ends the pull and changes nothing. Otherwise the page's
    /// documents are appended, and the answer says whether another page
    /// must be fetched: exactly when this page was full.
    pub fn ingest_page(&mut self, body: &str) -> (r: Result<bool, SyncError>)
        ensures
            spec_page_rows(body@) is None ==> (*final(self) == *old(self) && (r matches Err(e)
                && e matches SyncError::RemoteRejected(m) && m@ == body@)),
            (match spec_page_rows(body@) {
                Some(items) => {
                    &&& jmodels_of(final(self).rows@) == jmodels_of(old(self).rows@) + items
                    &&& final(self).rows@.len() == old(self).rows@.len() + items.len()
                    &&& (if items.len() >= PULL_PAGE_SIZE && old(self).offset + PULL_PAGE_SIZE
                        <= usize::MAX {
                        final(self).offset == old(self).offset + PULL_PAGE_SIZE && r == Ok::<
                            bool,
                            SyncError,
                        >(true)
                    } else {
                        final(self).offset == old(self).offset && r == Ok::<bool, SyncError>(false)
                    })
                },
                None => true,
            }),
    {
        match parse_json(body) {
            Some(doc) => match doc {
                JsonVal::Arr(items) => {
                    let mut items = items;
                    let full = items.len() >= PULL_PAGE_SIZE;
                    let ghost old_rows = self.rows@;
                    let ghost page = jmodels_of(items@);
                    self.rows.append(&mut items);
                    assert(jmodels_of(self.rows@) =~= jmodels_of(old_rows) + page);
                    if full && self.offset <= usize::MAX - PULL_PAGE_SIZE {
                        self.offset = self.offset + PULL_PAGE_SIZE;
                        Ok(true)
                    } else {
                        Ok(false)
                    }
                },
                JsonVal::Null => Err(SyncError::RemoteRejected(body.to_owned())),
                JsonVal::Bool(_) => Err(SyncError::RemoteRejected(body.to_owned())),
                JsonVal::Int(_) => Err(SyncError::RemoteRejected(body.to_owned())),
                JsonVal::Num(_) => Err(SyncError::RemoteRejected(body.to_owned())),
                JsonVal::Str(_) => Err(SyncError::RemoteRejected(body.to_owned())),
                JsonVal::Obj(_) => Err(SyncError::RemoteRejected(body.to_owned())),
            },
            None => Err(SyncError::RemoteRejected(body.to_owned())),
        }
    }
}

/// The stored rows the fetched remote documents determine, one each, in
/// fetch order.
pub open spec fn spec_pull_rows(remote: Seq<JsonModel>) -> Seq<RefItemModel> {
    Seq::new(remote.len(), |i: int| spec_ref_item_from_remote(remote[i]))
}

/// Builds the complete replacement table of a pull: every fetched document
/// becomes one stored row, defaulted and codec-encoded.
pub fn build_ref_items(rows: &Vec<JsonVal>) -> (r: Vec<RefItemRow>)
    ensures
        r@.len() == rows@.len(),
        row_models(r@) == spec_pull_rows(jmodels_of(rows@)),
{
    let mut out: Vec<RefItemRow> = Vec::new();
    let mut i: usize = 0;
    while i < rows.len()
        invariant
            i <= rows@.len(),
            out@.len() == i,
            forall|k: int|
                0 <= k < i ==> row_model(out@[k]) == spec_ref_item_from_remote(jmodels_of(
                    rows@,
                )[k]),
        decreases rows@.len() - i,
    {
        let item = ref_item_from_remote(&rows[i]);
        out.push(item);
        i = i + 1;
    }
    assert(row_models(out@) =~= spec_pull_rows(jmodels_of(rows@)));
    out
}

/// The local reference table after a committed pull: the fetched documents
/// fully determine it, whatever the table held before.
pub open spec fn spec_table_after_pull(
    old_table: Seq<RefItemModel>,
    remote: Seq<JsonModel>,
) -> Seq<RefItemModel> {
    spec_pull_rows(remote)
}

/// A pull that fails before its commit leaves the local table as it was:
/// no half-replaced state is ever observable.
pub open spec fn spec_table_after_failed_pull(old_table: Seq<RefItemModel>) -> Seq<
    RefItemModel,
> {
    old_table
}

/// Pulling twice against unchanged remote data yields the same table as
/// pulling once, and the same row count both times.
pub proof fn lemma_pull_idempotent(t0: Seq<RefItemModel>, remote: Seq<JsonModel>)
    ensures
        spec_table_after_pull(spec_table_after_pull(t0, remote), remote) == spec_table_after_pull(
            t0,
            remote,
        ),
        spec_table_after_pull(spec_table_after_pull(t0, remote), remote).len()
            == spec_table_after_pull(t0, remote).len(),
        spec_table_after_pull(t0, remote).len() == remote.len(),
{
}

/// An in-memory image of the local reference table and its version marker:
/// the reference semantics of the transactional replace. A commit installs
/// the whole new table and the new marker at once; a pull that fails never
/// commits, so the image keeps its rows.
pub struct LocalTableImage {
    pub rows: Vec<RefItemRow>,
    pub version: String,
}

impl LocalTableImage {
    /// An image of an empty table with the given marker.
    pub fn new(version: String) -> (r: LocalTableImage)
        ensures
            r.rows@.len() == 0,
            r.version@ == version@,
    {
        LocalTableImage { rows: Vec::new(), version }
    }

    /// Commits a pull: the new rows and marker replace everything at once.
    pub fn commit_pull(&mut self, new_rows: Vec<RefItemRow>, version: String)
        ensures
            final(self).rows@ == new_rows@,
            final(self).version@ == version@,
    {
        self.rows = new_rows;
        self.version = version;
    }
}

} // verus!
