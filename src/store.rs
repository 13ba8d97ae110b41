//! The record store: entries kept in an embedded `sled` database, each encoded
//! with `bincode` under the key of its id.
use vstd::prelude::*;
use crate::auth::AdminKey;
use crate::entry::{anchor_of, opt_text, EntryDate, EntryModel, HallEntry, RecordSubmission};
use crate::keys::{has_record_prefix, key_for, record_key, record_key_prefix, record_prefix};
use crate::response::{failed_text, is_response, HallError, OperationResponse, Status};
use crate::text::{id_text, with_id};
use chrono::Datelike;

verus! {

#[verifier::external_type_specification]
#[verifier::external_body]
pub struct ExDb(sled::Db);

#[verifier::external_type_specification]
#[verifier::external_body]
pub struct ExSledError(sled::Error);

#[verifier::external_type_specification]
#[verifier::external_body]
pub struct ExBincodeErrorKind(bincode::ErrorKind);

/// The key-value pairs that a database holds. Contracts over it describe one
/// operation at a time, with no other writer acting in between; handles that
/// share one database across concurrent requests can race, and the later
/// write wins.
pub uninterp spec fn stored_records(db: sled::Db) -> Map<Seq<u8>, Seq<u8>>;

/// A bound below which the database has issued every id so far.
pub uninterp spec fn id_floor(db: sled::Db) -> nat;

/// The bytes of an entry encoded by `bincode`, its fields in order.
pub uninterp spec fn encoded_entry(e: EntryModel) -> Seq<u8>;

/// The entry that `bincode` decodes from some bytes, if they hold one.
pub uninterp spec fn decoded_entry(b: Seq<u8>) -> Option<EntryModel>;

/// Relies on sled's `Db::generate_id`: a monotonic id, never given out twice.
#[verifier::external_body]
fn db_generate_id(db: &mut sled::Db) -> (r: Result<u64, sled::Error>)
    ensures
        stored_records(*final(db)) == stored_records(*old(db)),
        id_floor(*final(db)) >= id_floor(*old(db)),
        r is Ok ==> r->Ok_0 >= id_floor(*old(db)) && id_floor(*final(db)) > r->Ok_0,
{
    db.generate_id()
}

/// Relies on sled's `Tree::insert`: afterwards `key` holds `value`.
#[verifier::external_body]
fn db_insert(db: &mut sled::Db, key: &Vec<u8>, value: Vec<u8>) -> (r: Result<(), sled::Error>)
    ensures
        id_floor(*final(db)) == id_floor(*old(db)),
        r is Ok ==> stored_records(*final(db)) == stored_records(*old(db)).insert(key@, value@),
{
    match db.insert(key.as_slice(), value) {
        Ok(_) => Ok(()),
        Err(e) => Err(e),
    }
}

/// Relies on sled's `Tree::get`: the value under `key`, if there is one.
#[verifier::external_body]
fn db_get(db: &sled::Db, key: &Vec<u8>) -> (r: Result<Option<Vec<u8>>, sled::Error>)
    ensures
        r is Ok ==> (r->Ok_0 is Some <==> stored_records(*db).contains_key(key@)),
        r is Ok && r->Ok_0 is Some ==> r->Ok_0->Some_0@ == stored_records(*db)[key@],
{
    match db.get(key.as_slice()) {
        Ok(v) => Ok(v.map(|v| v.to_vec())),
        Err(e) => Err(e),
    }
}

/// Relies on sled's `Tree::remove`: `key` is absent afterwards, and the result
/// says whether it held a value. A key that held nothing stays as it was, and
/// nothing else is written, whatever comes back.
#[verifier::external_body]
fn db_remove(db: &mut sled::Db, key: &Vec<u8>) -> (r: Result<Option<Vec<u8>>, sled::Error>)
    ensures
        id_floor(*final(db)) == id_floor(*old(db)),
        r is Ok ==> stored_records(*final(db)) == stored_records(*old(db)).remove(key@),
        r is Ok ==> stored_records(*final(db)).dom().finite(),
        !stored_records(*old(db)).contains_key(key@) ==> stored_records(*final(db))
            == stored_records(*old(db)),
        r is Ok ==> (r->Ok_0 is Some <==> stored_records(*old(db)).contains_key(key@)),
{
    match db.remove(key.as_slice()) {
        Ok(v) => Ok(v.map(|v| v.to_vec())),
        Err(e) => Err(e),
    }
}

/// Byte strings in lexicographic order: `a` comes before `b`.
pub open spec fn bytes_lt(a: Seq<u8>, b: Seq<u8>) -> bool
    decreases a.len(),
{
    if a.len() == 0 {
        b.len() > 0
    } else if b.len() == 0 {
        false
    } else if a[0] != b[0] {
        a[0] < b[0]
    } else {
        bytes_lt(a.drop_first(), b.drop_first())
    }
}

/// Relies on sled's `Tree::scan_prefix`: the pairs whose keys start with
/// `prefix`, each key once, in increasing order of the keys.
#[verifier::external_body]
fn db_scan_prefix(db: &sled::Db, prefix: &Vec<u8>) -> (r: Result<Vec<(Vec<u8>, Vec<u8>)>, sled::Error>)
    ensures
        r is Ok ==> r->Ok_0@.len() == stored_records(*db).dom().filter(
            |k: Seq<u8>| prefix@.is_prefix_of(k),
        ).len(),
        r is Ok ==> forall|i: int|
            0 <= i < r->Ok_0@.len() ==> {
                let (k, v) = #[trigger] r->Ok_0@[i];
                &&& prefix@.is_prefix_of(k@)
                &&& stored_records(*db).contains_key(k@)
                &&& stored_records(*db)[k@] == v@
            },
        r is Ok ==> forall|i: int, j: int|
            0 <= i < j < r->Ok_0@.len() ==> (#[trigger] r->Ok_0@[i]).0@ != (
            #[trigger] r->Ok_0@[j]).0@,
        r is Ok ==> forall|i: int, j: int|
            0 <= i < j < r->Ok_0@.len() ==> bytes_lt(
                (#[trigger] r->Ok_0@[i]).0@,
                (#[trigger] r->Ok_0@[j]).0@,
            ),
{
    db.scan_prefix(prefix.as_slice()).map(|kv| kv.map(|(k, v)| (k.to_vec(), v.to_vec()))).collect()
}

/// Relies on `bincode::serialize` of the fields as a tuple, the date as
/// chrono's `NaiveDate` (which `NaiveDate::from_ymd_opt` gives for a real date),
/// and on `deserialize` reading back what it wrote. With no size limit set,
/// integers, strings, dates and options of them always encode.
#[verifier::external_body]
fn encode_entry(e: &HallEntry) -> (r: Result<Vec<u8>, bincode::Error>)
    requires
        e.date.is_calendar_day(),
    ensures
        r is Ok,
        r is Ok ==> r->Ok_0@ == encoded_entry(e@),
        r is Ok ==> decoded_entry(r->Ok_0@) == Some(e@),
{
    bincode::serialize(
        &(
            e.id,
            &e.anchor_key,
            e.reference_id,
            &e.affected_service,
            chrono::NaiveDate::from_ymd_opt(e.date.year, e.date.month, e.date.day).unwrap(),
            &e.summary,
            &e.reporter,
            &e.reporter_handle,
        ),
    )
}

/// Relies on `bincode::deserialize` into the tuple of an entry's fields, the
/// date as chrono's `NaiveDate`, which always holds a real date.
#[verifier::external_body]
fn decode_entry(b: &Vec<u8>) -> (r: Result<HallEntry, bincode::Error>)
    ensures
        r is Ok <==> decoded_entry(b@) is Some,
        r is Ok ==> r->Ok_0.date.is_calendar_day(),
        r is Ok ==> decoded_entry(b@) == Some(r->Ok_0@),
{
    let (id, anchor_key, reference_id, affected_service, date, summary, reporter,
        reporter_handle): (_, _, _, _, chrono::NaiveDate, _, _, _) = bincode::deserialize(
        b.as_slice(),
    )?;
    let date = EntryDate { year: date.year(), month: date.month(), day: date.day() };
    Ok(HallEntry { id, anchor_key, reference_id, affected_service, date, summary, reporter,
        reporter_handle })
}

/// Relies on std's `SystemTime::now` and chrono's `DateTime::from_timestamp`
/// and `Datelike`: today's date in UTC, a calendar day like every `NaiveDate`.
/// There is none when the clock reads before 1970 or beyond chrono's range.
#[verifier::external_body]
fn today_utc() -> (r: Option<EntryDate>)
    ensures
        r is Some ==> r->Some_0.is_calendar_day(),
{
    let since = std::time::SystemTime::now().duration_since(std::time::UNIX_EPOCH).ok()?;
    let now = chrono::DateTime::from_timestamp(since.as_secs() as i64, 0)?;
    let today = now.date_naive();
    Some(EntryDate { year: today.year(), month: today.month(), day: today.day() })
}

// ---------------------------------------------------------------------------
// Outcomes of the operations
// ---------------------------------------------------------------------------

pub open spec fn not_found_text() -> Seq<char> {
    "The requested ID doesn't exist, please try again!"@
}

pub open spec fn no_id_text() -> Seq<char> {
    "No ID was provided, try again!"@
}

pub open spec fn id_mismatch_text() -> Seq<char> {
    "The provided ID and the record's current ID do not match, try again!"@
}

pub open spec fn created_text() -> Seq<char> {
    "Report created"@
}

pub open spec fn updated_text() -> Seq<char> {
    "Report has been updated"@
}

/// The generic outcome of a failure of the database or of the encoding.
pub open spec fn is_failure(r: OperationResponse) -> bool {
    is_response(r, Status::InternalServerError, failed_text())
}

/// The entry that a submission creates under `id` on `date`, before its anchor is set.
pub open spec fn submitted_entry(s: RecordSubmission, id: u64, date: EntryDate) -> EntryModel {
    EntryModel {
        id,
        anchor_key: None,
        reference_id: s.reference_id,
        affected_service: s.affected_service@,
        date,
        summary: s.summary@,
        reporter: s.reporter@,
        reporter_handle: opt_text(s.reporter_handle),
    }
}

/// The entry that a submission creates under `id` on `date`, with its anchor.
pub open spec fn created_entry(s: RecordSubmission, id: u64, date: EntryDate) -> EntryModel {
    let e = submitted_entry(s, id, date);
    EntryModel { anchor_key: Some(anchor_of(e)), ..e }
}

/// The entry `old` with the fields that a submission may change taken from `s`.
pub open spec fn updated_entry(old: EntryModel, s: RecordSubmission) -> EntryModel {
    EntryModel {
        reference_id: s.reference_id,
        affected_service: s.affected_service@,
        summary: s.summary@,
        reporter: s.reporter@,
        reporter_handle: opt_text(s.reporter_handle),
        ..old
    }
}

/// `after` is `before` with `e` stored under the key of `id`, where it decodes to `e`.
pub open spec fn stored_entry(
    before: Map<Seq<u8>, Seq<u8>>,
    after: Map<Seq<u8>, Seq<u8>>,
    id: u64,
    e: EntryModel,
) -> bool {
    &&& after == before.insert(record_key(id), encoded_entry(e))
    &&& decoded_entry(after[record_key(id)]) == Some(e)
}

/// Every entry key of `m` is the key of an id below `floor`.
pub open spec fn keys_issued(m: Map<Seq<u8>, Seq<u8>>, floor: nat) -> bool {
    forall|k: Seq<u8>|
        #![trigger m.contains_key(k)]
        m.contains_key(k) && has_record_prefix(k) ==> exists|j: u64|
            j < floor && k == #[trigger] record_key(j)
}

/// Every entry key of the database names an id that it has already issued, as
/// holds of a store that only this library has written.
pub open spec fn ids_issued(db: sled::Db) -> bool {
    keys_issued(stored_records(db), id_floor(db))
}

/// A create that succeeded: `id` was freshly issued, and the entry that the
/// submission makes under `id` on `date` is stored under its key.
pub open spec fn created(
    before: sled::Db,
    after: sled::Db,
    s: RecordSubmission,
    id: u64,
    date: EntryDate,
    r: OperationResponse,
) -> bool {
    &&& id >= id_floor(before)
    &&& id_floor(after) > id
    &&& date.is_calendar_day()
    &&& stored_entry(stored_records(before), stored_records(after), id, created_entry(s, id, date))
    &&& is_response(r, Status::Created, id_text(created_text(), id))
    &&& ids_issued(before) ==> !stored_records(before).contains_key(record_key(id)) && ids_issued(
        after,
    )
}

proof fn lemma_fresh_key(
    before: Map<Seq<u8>, Seq<u8>>,
    fb: nat,
    after: Map<Seq<u8>, Seq<u8>>,
    fa: nat,
    id: u64,
    v: Seq<u8>,
)
    requires
        keys_issued(before, fb),
        id >= fb,
        fa > id,
        after == before.insert(record_key(id), v),
    ensures
        !before.contains_key(record_key(id)),
        keys_issued(after, fa),
{
    if before.contains_key(record_key(id)) {
        crate::keys::lemma_record_key_has_prefix(id);
        let j = choose|j: u64| j < fb && record_key(id) == #[trigger] record_key(j);
        crate::keys::lemma_record_key_injective(id, j);
    }
    assert forall|k: Seq<u8>| after.contains_key(k) && has_record_prefix(k) implies exists|j: u64|
        j < fa && k == #[trigger] record_key(j) by {
        if k == record_key(id) {
            assert(id < fa && k == record_key(id));
        } else {
            assert(before.contains_key(k));
            let j = choose|j: u64| j < fb && k == #[trigger] record_key(j);
            assert(j < fa && k == record_key(j));
        }
    }
}

/// The generic failure, with `detail` kept for the log.
fn failure(detail: String) -> (r: OperationResponse)
    ensures
        is_failure(r),
        r.detail == Some(detail),
{
    let error = HallError::Failed;
    OperationResponse { detail: Some(detail), status: error.as_code(), message: error.message() }
}

/// Relies on the `Display` of sled's `Error`: a description of it for the log.
#[verifier::external_body]
fn sled_error_text(e: &sled::Error) -> String {
    e.to_string()
}

/// Relies on the `Display` of bincode's `ErrorKind`: a description of it for the log.
#[verifier::external_body]
fn bincode_error_text(e: &bincode::Error) -> String {
    e.to_string()
}

/// The entry that `submission` makes under the id `id` on `date`, with its anchor.
pub fn new_entry(submission: RecordSubmission, id: u64, date: EntryDate) -> (r: HallEntry)
    requires
        date.is_calendar_day(),
    ensures
        r.date.is_calendar_day(),
        r@ == created_entry(submission, id, date),
{
    let mut entry = HallEntry {
        id,
        anchor_key: None,
        reference_id: submission.reference_id,
        affected_service: submission.affected_service,
        date,
        summary: submission.summary,
        reporter: submission.reporter,
        reporter_handle: submission.reporter_handle,
    };
    entry.generate_anchor();
    entry
}

/// Issues a fresh id: greater than or equal to every bound issued before, and
/// below the bound that follows.
pub fn next_id(record_db: &mut sled::Db) -> (r: Result<u64, HallError>)
    ensures
        stored_records(*final(record_db)) == stored_records(*old(record_db)),
        id_floor(*final(record_db)) >= id_floor(*old(record_db)),
        r is Ok ==> r->Ok_0 >= id_floor(*old(record_db)) && id_floor(*final(record_db)) > r->Ok_0,
        r is Err ==> r->Err_0 == HallError::Failed,
{
    match db_generate_id(record_db) {
        Ok(id) => Ok(id),
        Err(_) => Err(HallError::Failed),
    }
}

/// Stores the entry that `submission` makes under `id` on `date`.
pub fn store_new_record(
    submission: RecordSubmission,
    id: u64,
    date: EntryDate,
    record_db: &mut sled::Db,
) -> (r: OperationResponse)
    requires
        date.is_calendar_day(),
    ensures
        id_floor(*final(record_db)) == id_floor(*old(record_db)),
        r.status == Status::Created ==> stored_entry(
            stored_records(*old(record_db)),
            stored_records(*final(record_db)),
            id,
            created_entry(submission, id, date),
        ) && r.message@ == id_text(created_text(), id),
        r.status != Status::Created ==> is_failure(r),
{
    let entry = new_entry(submission, id, date);
    let encoded = match encode_entry(&entry) {
        Ok(b) => b,
        Err(e) => {
            return failure(bincode_error_text(&e));
        },
    };
    let key = key_for(id);
    match db_insert(record_db, &key, encoded) {
        Ok(()) => {
            proof {
                assert(stored_records(*record_db)[record_key(id)] == encoded_entry(entry@));
            }
            OperationResponse { detail: None, status: Status::Created, message: with_id("Report created", id) }
        },
        Err(e) => failure(sled_error_text(&e)),
    }
}

/// Creates an entry from `new_record` under a fresh id, dated today. `user` is
/// the admin who asked, for the audit log kept by the caller.
pub fn add_record(new_record: RecordSubmission, user: &AdminKey, record_db: &mut sled::Db) -> (r:
    OperationResponse)
    ensures
        id_floor(*final(record_db)) >= id_floor(*old(record_db)),
        r.status == Status::Created ==> exists|id: u64, date: EntryDate|
            #[trigger] created(*old(record_db), *final(record_db), new_record, id, date, r),
        r.status != Status::Created ==> is_failure(r),
{
    let ghost before = *record_db;
    let new_id = match next_id(record_db) {
        Ok(id) => id,
        Err(e) => {
            return failure("allocating an id failed".to_string());
        },
    };
    let date = match today_utc() {
        Some(d) => d,
        None => {
            return failure("the system clock gives no date".to_string());
        },
    };
    let r = store_new_record(new_record, new_id, date, record_db);
    if r.status == Status::Created {
        proof {
            if ids_issued(before) {
                lemma_fresh_key(
                stored_records(before),
                id_floor(before),
                stored_records(*record_db),
                id_floor(*record_db),
                new_id,
                    encoded_entry(created_entry(new_record, new_id, date)),
                );
            }
        }
        assert(created(before, *record_db, new_record, new_id, date, r));
    }
    r
}

fn not_found() -> (r: OperationResponse)
    ensures
        is_response(r, Status::BadRequest, not_found_text()),
{
    OperationResponse {
        detail: None,
        status: Status::BadRequest,
        message: "The requested ID doesn't exist, please try again!".to_string(),
    }
}

/// The outcome of a remove of the entry with id `id`, from `before` to `after`.
pub open spec fn removed(
    before: Map<Seq<u8>, Seq<u8>>,
    after: Map<Seq<u8>, Seq<u8>>,
    id: u64,
    r: OperationResponse,
) -> bool {
    let k = record_key(id);
    &&& !is_failure(r) ==> before.dom().finite()
    &&& before.contains_key(k) ==> (is_response(r, Status::NoContent, seq![]) && after
        == before.remove(k)) || is_failure(r)
    &&& !before.contains_key(k) ==> after == before && (is_response(
        r,
        Status::BadRequest,
        not_found_text(),
    ) || is_failure(r))
}

/// The outcome of a remove, given the value that the key held, if any: an
/// empty `NoContent` when there was one, "not found" when there was none.
pub fn remove_outcome(removed: Option<Vec<u8>>) -> (r: OperationResponse)
    ensures
        removed is Some ==> is_response(r, Status::NoContent, seq![]),
        removed is None ==> is_response(r, Status::BadRequest, not_found_text()),
{
    match removed {
        Some(_) => OperationResponse { detail: None, status: Status::NoContent, message: String::new() },
        None => not_found(),
    }
}

/// Deletes the entry with id `record_id`. A missing entry is reported and
/// nothing changes; a deleted one gives an empty `NoContent` outcome.
pub fn remove_record(record_id: u64, user: &AdminKey, record_db: &mut sled::Db) -> (r:
    OperationResponse)
    ensures
        id_floor(*final(record_db)) == id_floor(*old(record_db)),
        removed(stored_records(*old(record_db)), stored_records(*final(record_db)), record_id, r),
{
    let key = key_for(record_id);
    match db_remove(record_db, &key) {
        Ok(found) => {
            proof {
                let before = stored_records(*old(record_db));
                let after = stored_records(*record_db);
                if before.contains_key(key@) {
                    assert(before.dom() =~= after.dom().insert(key@));
                } else {
                    assert(after =~= before);
                }
            }
            remove_outcome(found)
        },
        Err(e) => failure(sled_error_text(&e)),
    }
}

/// What an update of the entry with id `id` does with the value that its key
/// holds, if any: "not found" without one, the generic failure when it does
/// not decode, the mismatch error when the stored id is another, and otherwise
/// the stored entry with the changeable fields taken from `sub`.
pub fn update_outcome(stored: Option<Vec<u8>>, sub: RecordSubmission, id: u64) -> (r: Result<
    HallEntry,
    OperationResponse,
>)
    ensures
        stored is None ==> r is Err && is_response(r->Err_0, Status::BadRequest, not_found_text()),
        stored is Some && decoded_entry(stored->Some_0@) is None ==> r is Err && is_failure(
            r->Err_0,
        ),
        stored is Some && decoded_entry(stored->Some_0@) is Some && decoded_entry(
            stored->Some_0@,
        )->Some_0.id != id ==> r is Err && is_response(
            r->Err_0,
            Status::BadRequest,
            id_mismatch_text(),
        ),
        stored is Some && decoded_entry(stored->Some_0@) is Some && decoded_entry(
            stored->Some_0@,
        )->Some_0.id == id ==> r is Ok && r->Ok_0.date.is_calendar_day() && r->Ok_0@ == updated_entry(
            decoded_entry(stored->Some_0@)->Some_0,
            sub,
        ),
{
    let bytes = match stored {
        Some(b) => b,
        None => {
            return Err(not_found());
        },
    };
    let old_record = match decode_entry(&bytes) {
        Ok(e) => e,
        Err(e) => {
            return Err(failure(bincode_error_text(&e)));
        },
    };
    if old_record.id != id {
        return Err(
            OperationResponse {
                detail: None,
                status: Status::BadRequest,
                message: "The provided ID and the record's current ID do not match, try again!".to_string(),
            },
        );
    }
    Ok(
        HallEntry {
            id: old_record.id,
            anchor_key: old_record.anchor_key,
            reference_id: sub.reference_id,
            affected_service: sub.affected_service,
            date: old_record.date,
            summary: sub.summary,
            reporter: sub.reporter,
            reporter_handle: sub.reporter_handle,
        },
    )
}

/// Overwrites the changeable fields of the entry named by `updated_record.id`
/// with those of `updated_record`, keeping its id, date and anchor. The entry
/// must exist and its stored id must be the one asked for: a stored entry
/// whose id differs from its key is refused, never repaired.
pub fn update_record(updated_record: RecordSubmission, user: &AdminKey, record_db: &mut sled::Db) -> (r:
    OperationResponse)
    ensures
        id_floor(*final(record_db)) == id_floor(*old(record_db)),
        updated_record.id is None ==> is_response(r, Status::BadRequest, no_id_text())
            && *final(record_db) == *old(record_db),
        updated_record.id is Some ==> ({
            let id = updated_record.id->Some_0;
            let before = stored_records(*old(record_db));
            let k = record_key(id);
            let found = decoded_entry(before[k]);
            &&& !before.contains_key(k) ==> (is_response(r, Status::BadRequest, not_found_text())
                || is_failure(r)) && *final(record_db) == *old(record_db)
            &&& before.contains_key(k) && found is None ==> is_failure(r) && *final(record_db)
                == *old(record_db)
            &&& before.contains_key(k) && found is Some && found->Some_0.id != id ==> (is_response(
                r,
                Status::BadRequest,
                id_mismatch_text(),
            ) || is_failure(r)) && *final(record_db) == *old(record_db)
            &&& before.contains_key(k) && found is Some && found->Some_0.id == id ==> (
            is_response(r, Status::Success, id_text(updated_text(), id)) && stored_entry(
                before,
                stored_records(*final(record_db)),
                id,
                updated_entry(found->Some_0, updated_record),
            )) || is_failure(r)
        }),
{
    let current_id = match updated_record.id {
        Some(id) => id,
        None => {
            return OperationResponse {
                detail: None,
                status: Status::BadRequest,
                message: "No ID was provided, try again!".to_string(),
            };
        },
    };
    let key = key_for(current_id);
    let stored = match db_get(record_db, &key) {
        Ok(v) => v,
        Err(e) => {
            return failure(sled_error_text(&e));
        },
    };
    let new_record = match update_outcome(stored, updated_record, current_id) {
        Ok(e) => e,
        Err(resp) => {
            return resp;
        },
    };
    let encoded = match encode_entry(&new_record) {
        Ok(b) => b,
        Err(e) => {
            return failure(bincode_error_text(&e));
        },
    };
    match db_insert(record_db, &key, encoded) {
        Ok(()) => {
            OperationResponse {
                detail: None,
                status: Status::Success,
                message: with_id("Report has been updated", current_id),
            }
        },
        Err(e) => failure(sled_error_text(&e)),
    }
}

/// `es` are the entries that the entry keys `ks` hold in `m`: every entry key
/// of `m` once, in increasing order of the keys.
pub open spec fn lists_entries(m: Map<Seq<u8>, Seq<u8>>, ks: Seq<Seq<u8>>, es: Seq<HallEntry>) -> bool {
    &&& ks.len() == es.len()
    &&& ks.len() == m.dom().filter(|k: Seq<u8>| has_record_prefix(k)).len()
    &&& ks.no_duplicates()
    &&& forall|i: int, j: int| 0 <= i < j < ks.len() ==> bytes_lt(#[trigger] ks[i], #[trigger] ks[j])
    &&& forall|i: int|
        0 <= i < ks.len() ==> has_record_prefix(#[trigger] ks[i]) && m.contains_key(ks[i])
            && decoded_entry(m[ks[i]]) == Some(es[i]@)
}

/// Decodes the value of each pair, in order. Fails exactly when some value
/// does not decode.
pub fn decode_records(pairs: &Vec<(Vec<u8>, Vec<u8>)>) -> (r: Result<Vec<HallEntry>, HallError>)
    ensures
        r is Ok <==> forall|i: int|
            0 <= i < pairs@.len() ==> (#[trigger] decoded_entry(pairs@[i].1@)) is Some,
        r is Ok ==> r->Ok_0@.len() == pairs@.len(),
        r is Ok ==> forall|i: int|
            0 <= i < pairs@.len() ==> decoded_entry(pairs@[i].1@) == Some(
                (#[trigger] r->Ok_0@[i])@,
            ),
        r is Err ==> r->Err_0 == HallError::Failed,
{
    let mut decoded_records: Vec<HallEntry> = Vec::new();
    let mut i: usize = 0;
    while i < pairs.len()
        invariant
            0 <= i <= pairs@.len(),
            decoded_records@.len() == i,
            forall|j: int|
                0 <= j < i ==> decoded_entry(pairs@[j].1@) == Some(
                    (#[trigger] decoded_records@[j])@,
                ),
        decreases pairs@.len() - i,
    {
        let entry = match decode_entry(&pairs[i].1) {
            Ok(e) => e,
            Err(_) => {
                return Err(HallError::Failed);
            },
        };
        decoded_records.push(entry);
        i = i + 1;
    }
    assert forall|j: int| 0 <= j < pairs@.len() implies (#[trigger] decoded_entry(
        pairs@[j].1@,
    )) is Some by {
        assert(decoded_entry(pairs@[j].1@) == Some(decoded_records@[j]@));
    }
    Ok(decoded_records)
}

/// Every entry of the store, in increasing order of the keys. Once the database
/// has listed the pairs, the listing fails exactly when some value does not
/// decode.
pub fn list_records(record_db: &sled::Db) -> (r: Result<Vec<HallEntry>, HallError>)
    ensures
        r is Ok ==> exists|ks: Seq<Seq<u8>>|
            #[trigger] lists_entries(stored_records(*record_db), ks, r->Ok_0@),
        r is Err ==> r->Err_0 == HallError::Failed,
{
    let prefix = record_key_prefix();
    let pairs = match db_scan_prefix(record_db, &prefix) {
        Ok(v) => v,
        Err(_) => {
            return Err(HallError::Failed);
        },
    };
    let ghost m = stored_records(*record_db);
    let ghost ks = Seq::new(pairs@.len(), |j: int| pairs@[j].0@);
    proof {
        lemma_prefix_filter(m);
        assert forall|j: int| 0 <= j < ks.len() implies has_record_prefix(#[trigger] ks[j]) by {
            lemma_prefix_is_record_prefix(ks[j]);
        }
        assert forall|a: int, b: int| 0 <= a < ks.len() && 0 <= b < ks.len() && a != b implies ks[a]
            != ks[b] by {
            if a < b {
                assert(pairs@[a].0@ != pairs@[b].0@);
            } else {
                assert(pairs@[b].0@ != pairs@[a].0@);
            }
        }
        assert forall|a: int, b: int| 0 <= a < b < ks.len() implies bytes_lt(
            #[trigger] ks[a],
            #[trigger] ks[b],
        ) by {
            assert(bytes_lt(pairs@[a].0@, pairs@[b].0@));
        }
    }
    let r = decode_records(&pairs);
    if r.is_ok() {
        assert(lists_entries(stored_records(*record_db), ks, r->Ok_0@));
    }
    r
}

proof fn lemma_prefix_is_record_prefix(k: Seq<u8>)
    ensures
        record_prefix().is_prefix_of(k) <==> has_record_prefix(k),
{
    if has_record_prefix(k) {
        assert(k.subrange(0, 3) =~= record_prefix());
    }
    if record_prefix().is_prefix_of(k) {
        assert(k.subrange(0, 3) =~= record_prefix());
    }
}

proof fn lemma_prefix_filter(m: Map<Seq<u8>, Seq<u8>>)
    ensures
        m.dom().filter(|k: Seq<u8>| record_prefix().is_prefix_of(k)) == m.dom().filter(
            |k: Seq<u8>| has_record_prefix(k),
        ),
{
    assert forall|k: Seq<u8>| record_prefix().is_prefix_of(k) <==> has_record_prefix(k) by {
        lemma_prefix_is_record_prefix(k);
    }
    assert(m.dom().filter(|k: Seq<u8>| record_prefix().is_prefix_of(k)) =~= m.dom().filter(
        |k: Seq<u8>| has_record_prefix(k),
    ));
}

/// A successful create stores, under the key of the new id, a value that
/// decodes to an entry whose id is that id.
pub proof fn lemma_created_entry_matches_key(
    before: sled::Db,
    after: sled::Db,
    s: RecordSubmission,
    id: u64,
    date: EntryDate,
    r: OperationResponse,
)
    requires
        created(before, after, s, id, date, r),
    ensures
        stored_records(after).contains_key(record_key(id)),
        decoded_entry(stored_records(after)[record_key(id)]) is Some,
        decoded_entry(stored_records(after)[record_key(id)])->Some_0.id == id,
{
}

/// Ids issued one after another, with any other operations in between, are
/// strictly increasing, so no id is issued twice.
pub proof fn lemma_issued_ids_distinct(
    d0: sled::Db,
    d1: sled::Db,
    d2: sled::Db,
    d3: sled::Db,
    a: u64,
    b: u64,
)
    requires
        a >= id_floor(d0) && id_floor(d1) > a,
        id_floor(d2) >= id_floor(d1),
        b >= id_floor(d2) && id_floor(d3) > b,
    ensures
        a < b,
{
}

/// Removing an entry that exists takes exactly that key out of the store;
/// removing one that does not exist leaves the store's size as it was.
pub proof fn lemma_remove_store_size(
    before: Map<Seq<u8>, Seq<u8>>,
    after: Map<Seq<u8>, Seq<u8>>,
    id: u64,
    r: OperationResponse,
)
    requires
        removed(before, after, id, r),
        !is_failure(r),
    ensures
        before.contains_key(record_key(id)) ==> !after.contains_key(record_key(id))
            && after.dom().len() == before.dom().len() - 1,
        !before.contains_key(record_key(id)) ==> after.dom().len() == before.dom().len(),
{
    if before.contains_key(record_key(id)) {
        assert(after.dom() =~= before.dom().remove(record_key(id)));
    }
}

} // verus!
