//! The push pipelines: characters go up in one upsert; reference items go
//! up in bounded batches, each batch one upsert body, attempted in order
//! and abandoned at the first rejection — what already went up stays.

use vstd::prelude::*;
use vstd::string::*;
use crate::json::{
    JsonVal,
    JsonModel,
    jmodel_of,
    jmodels_of,
    spec_encode,
    spec_nat_chars,
    to_json_text,
    write_nat,
};
use crate::errors::SyncError;
use crate::http::{HttpReply, spec_status_success, status_is_success};
use crate::records::{
    CharacterRow,
    RefItemRow,
    RefItemModel,
    row_models,
    spec_personnage_json,
    spec_data_doc,
    spec_ref_item_json,
    personnage_from_row,
    personnage_json,
    ref_item_json,
};

verus! {

broadcast use vstd::seq::group_seq_axioms, vstd::std_specs::vec::group_vec_axioms;

/// How many reference items one publish batch carries.
pub const PUBLISH_CHUNK_SIZE: usize = 100;

/// The document one character row travels as.
pub open spec fn spec_character_doc(row: CharacterRow) -> JsonModel {
    spec_personnage_json(row.id, row.name@, spec_data_doc(row.data@), row.updated_at@)
}

/// The documents of a sequence of character rows, in order.
pub open spec fn spec_character_docs(rows: Seq<CharacterRow>) -> Seq<JsonModel> {
    Seq::new(rows.len(), |i: int| spec_character_doc(rows[i]))
}

/// Assembles the single upsert body of a character push — the JSON array
/// of every local character, each data column decoded leniently — and the
/// count of records it carries.
pub fn sync_personnages_payload(rows: Vec<CharacterRow>) -> (r: (String, usize))
    ensures
        r.1 == rows@.len(),
        r.0@ == spec_encode(JsonModel::Arr(spec_character_docs(rows@))),
{
    let ghost rows0 = rows@;
    let n = rows.len();
    let mut rows = rows;
    let mut docs: Vec<JsonVal> = Vec::new();
    while rows.len() > 0
        invariant
            rows0.len() == docs@.len() + rows@.len(),
            rows@ == rows0.skip(docs@.len() as int),
            forall|j: int|
                0 <= j < docs@.len() ==> jmodel_of(docs@[j]) == spec_character_doc(rows0[j]),
        decreases rows@.len(),
    {
        let ghost k = docs@.len() as int;
        let row = rows.remove(0);
        assert(row == rows0[k]);
        let p = personnage_from_row(row);
        let d = personnage_json(p);
        docs.push(d);
        assert(rows@ =~= rows0.skip(k + 1));
    }
    assert(jmodels_of(docs@) =~= spec_character_docs(rows0));
    let arr = JsonVal::Arr(docs);
    let body = to_json_text(&arr);
    (body, n)
}

/// The success message of a character push.
pub open spec fn spec_synced_msg(n: nat) -> Seq<char> {
    "Synced "@ + spec_nat_chars(n) + " characters to cloud."@
}

/// Composes the success message of a character push.
pub fn synced_msg(n: u64) -> (r: String)
    ensures
        r@ == spec_synced_msg(n as nat),
{
    let mut out = "Synced ".to_owned();
    write_nat(n, &mut out);
    out.append(" characters to cloud.");
    assert(out@ =~= spec_synced_msg(n as nat));
    out
}

/// The diagnostic of a character push the backend refused.
pub open spec fn spec_sync_failed_msg(body: Seq<char>) -> Seq<char> {
    "Sync failed: "@ + body
}

/// Composes the diagnostic of a character push the backend refused.
pub fn sync_failed_msg(body: &str) -> (r: String)
    ensures
        r@ == spec_sync_failed_msg(body@),
{
    let mut out = "Sync failed: ".to_owned();
    out.append(body);
    out
}

/// Reads the status of the one character-push upsert reply: a rejection
/// fails the push with the sync diagnostic.
pub fn check_push_status(reply: &HttpReply) -> (r: Result<(), SyncError>)
    ensures
        r is Ok <==> spec_status_success(reply.status),
        !spec_status_success(reply.status) ==> (r matches Err(e) && e matches
            SyncError::RemoteRejected(m) && m@ == spec_sync_failed_msg(reply.body@)),
{
    if status_is_success(reply.status) {
        Ok(())
    } else {
        Err(SyncError::RemoteRejected(sync_failed_msg(reply.body.as_str())))
    }
}

/// The documents of a sequence of stored reference items, in order.
pub open spec fn spec_ref_item_docs(models: Seq<RefItemModel>) -> Seq<JsonModel> {
    Seq::new(models.len(), |i: int| spec_ref_item_json(models[i]))
}

/// Where the batch starting at `start` ends: one full window, or the end of
/// the table.
pub open spec fn spec_chunk_end(n: int, start: int) -> int {
    if start + PUBLISH_CHUNK_SIZE <= n {
        start + PUBLISH_CHUNK_SIZE
    } else {
        n
    }
}

/// The upsert body of the batch starting at `start`.
pub open spec fn spec_chunk_body(models: Seq<RefItemModel>, start: int) -> Seq<char> {
    spec_encode(
        JsonModel::Arr(
            spec_ref_item_docs(
                models.subrange(start, spec_chunk_end(models.len() as int, start)),
            ),
        ),
    )
}

/// How many batches a publish of `n` items issues.
pub open spec fn spec_chunk_count(n: nat) -> nat {
    ((n + (PUBLISH_CHUNK_SIZE - 1)) / (PUBLISH_CHUNK_SIZE as int)) as nat
}

/// Assembles the upsert bodies of a publish, one batch of at most
/// `PUBLISH_CHUNK_SIZE` items each, covering the table in order.
pub fn publish_chunk_bodies(items: &Vec<RefItemRow>) -> (r: Vec<String>)
    requires
        items@.len() + PUBLISH_CHUNK_SIZE <= usize::MAX,
    ensures
        r@.len() == spec_chunk_count(items@.len()),
        forall|c: int|
            0 <= c < r@.len() ==> r@[c]@ == spec_chunk_body(
                row_models(items@),
                c * (PUBLISH_CHUNK_SIZE as int),
            ),
{
    let n = items.len();
    let mut bodies: Vec<String> = Vec::new();
    let mut start: usize = 0;
    while start < n
        invariant
            n == items@.len(),
            n + PUBLISH_CHUNK_SIZE <= usize::MAX,
            start == bodies@.len() * PUBLISH_CHUNK_SIZE,
            start <= n + PUBLISH_CHUNK_SIZE - 1,
            forall|c: int|
                0 <= c < bodies@.len() ==> bodies@[c]@ == spec_chunk_body(
                    row_models(items@),
                    c * (PUBLISH_CHUNK_SIZE as int),
                ),
        decreases n + PUBLISH_CHUNK_SIZE - start,
    {
        let end = if n - start > PUBLISH_CHUNK_SIZE {
            start + PUBLISH_CHUNK_SIZE
        } else {
            n
        };
        let mut docs: Vec<JsonVal> = Vec::new();
        let mut i = start;
        while i < end
            invariant
                start <= i <= end,
                end <= n,
                n == items@.len(),
                docs@.len() == i - start,
                forall|j: int|
                    0 <= j < docs@.len() ==> jmodel_of(docs@[j]) == spec_ref_item_json(
                        row_models(items@)[start + j],
                    ),
            decreases end - i,
        {
            docs.push(ref_item_json(&items[i]));
            i = i + 1;
        }
        assert(jmodels_of(docs@) =~= spec_ref_item_docs(
            row_models(items@).subrange(start as int, end as int),
        ));
        assert(end as int == spec_chunk_end(n as int, start as int));
        let arr = JsonVal::Arr(docs);
        bodies.push(to_json_text(&arr));
        start = start + PUBLISH_CHUNK_SIZE;
    }
    assert(bodies@.len() == spec_chunk_count(n as nat)) by {
        let q = bodies@.len() as int;
        assert(start == q * PUBLISH_CHUNK_SIZE);
        assert(n <= q * 100 <= n + 99);
        assert((n + 99) / 100 == q) by (nonlinear_arith)
            requires
                n <= q * 100 <= n + 99,
                0 <= n,
                0 <= q,
        ;
    }
    bodies
}

/// Publishing exactly two and a half windows of items issues exactly three
/// batches: two full ones and a half one, covering the table in order.
pub proof fn lemma_batch_boundary(models: Seq<RefItemModel>)
    requires
        models.len() == 250,
    ensures
        spec_chunk_count(250) == 3,
        spec_chunk_body(models, 0) == spec_encode(
            JsonModel::Arr(spec_ref_item_docs(models.subrange(0, 100))),
        ),
        spec_chunk_body(models, 100) == spec_encode(
            JsonModel::Arr(spec_ref_item_docs(models.subrange(100, 200))),
        ),
        spec_chunk_body(models, 200) == spec_encode(
            JsonModel::Arr(spec_ref_item_docs(models.subrange(200, 250))),
        ),
{
}

/// The diagnostic of a publish batch the backend refused.
pub open spec fn spec_batch_failed_msg(body: Seq<char>) -> Seq<char> {
    "Failed to upload items batch: "@ + body
}

/// Composes the diagnostic of a publish batch the backend refused.
pub fn batch_failed_msg(body: &str) -> (r: String)
    ensures
        r@ == spec_batch_failed_msg(body@),
{
    let mut out = "Failed to upload items batch: ".to_owned();
    out.append(body);
    out
}

/// Reads the status of one publish-batch reply: a rejection aborts the
/// publish with the batch diagnostic; batches already sent stay committed,
/// and later ones are never attempted.
pub fn check_batch_status(reply: &HttpReply) -> (r: Result<(), SyncError>)
    ensures
        r is Ok <==> spec_status_success(reply.status),
        !spec_status_success(reply.status) ==> (r matches Err(e) && e matches
            SyncError::RemoteRejected(m) && m@ == spec_batch_failed_msg(reply.body@)),
{
    if status_is_success(reply.status) {
        Ok(())
    } else {
        Err(SyncError::RemoteRejected(batch_failed_msg(reply.body.as_str())))
    }
}

/// The diagnostic of a version publish the backend refused.
pub open spec fn spec_version_failed_msg(body: Seq<char>) -> Seq<char> {
    "Failed to update version: "@ + body
}

/// Composes the diagnostic of a version publish the backend refused.
pub fn version_failed_msg(body: &str) -> (r: String)
    ensures
        r@ == spec_version_failed_msg(body@),
{
    let mut out = "Failed to update version: ".to_owned();
    out.append(body);
    out
}

/// Reads the status of the version-marker upsert reply: a rejection fails
/// the publish after every batch went up.
pub fn check_version_status(reply: &HttpReply) -> (r: Result<(), SyncError>)
    ensures
        r is Ok <==> spec_status_success(reply.status),
        !spec_status_success(reply.status) ==> (r matches Err(e) && e matches
            SyncError::RemoteRejected(m) && m@ == spec_version_failed_msg(reply.body@)),
{
    if status_is_success(reply.status) {
        Ok(())
    } else {
        Err(SyncError::RemoteRejected(version_failed_msg(reply.body.as_str())))
    }
}

/// The success message of a publish: the item count and the new version.
pub open spec fn spec_published_msg(n: nat, version: Seq<char>) -> Seq<char> {
    "Published "@ + spec_nat_chars(n) + " items. New version: "@ + version
}

/// Composes the success message of a publish.
pub fn published_msg(n: u64, version: &str) -> (r: String)
    ensures
        r@ == spec_published_msg(n as nat, version@),
{
    let mut out = "Published ".to_owned();
    write_nat(n, &mut out);
    out.append(" items. New version: ");
    out.append(version);
    assert(out@ =~= spec_published_msg(n as nat, version@));
    out
}

} // verus!
