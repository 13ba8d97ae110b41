use chrono::Datelike;
use hall_of_fame::{
    add_record, key_for, list_records, next_id, remove_record, store_new_record, update_record,
    AdminKey, EntryDate, RecordSubmission, Status,
};

fn temp_db() -> sled::Db {
    sled::Config::new().temporary(true).open().unwrap()
}

fn admin() -> AdminKey {
    AdminKey { username: "root".to_string(), key: "secret".to_string() }
}

fn submission(id: Option<u64>, summary: &str) -> RecordSubmission {
    RecordSubmission {
        id,
        reference_id: 7,
        affected_service: "api".to_string(),
        date: None,
        summary: summary.to_string(),
        reporter: "alice".to_string(),
        reporter_handle: None,
    }
}

fn created_id(message: &str) -> u64 {
    let rest = message.strip_prefix("Report created (ID: ").unwrap();
    rest.strip_suffix(')').unwrap().parse().unwrap()
}

fn today() -> EntryDate {
    let d = chrono::Utc::now().date_naive();
    EntryDate { year: d.year(), month: d.month(), day: d.day() }
}

#[test]
fn ids_are_distinct() {
    let mut db = temp_db();
    let mut seen = Vec::new();
    for _ in 0..50 {
        let id = next_id(&mut db).unwrap();
        assert!(!seen.contains(&id));
        seen.push(id);
    }
}

#[test]
fn create_stores_entry_under_its_id() {
    let mut db = temp_db();
    let r = add_record(submission(None, "outage"), &admin(), &mut db);
    assert_eq!(r.code(), 201);
    let id = created_id(&r.message);
    assert!(db.get(key_for(id)).unwrap().is_some());
    let all = list_records(&db).unwrap();
    assert_eq!(all.len(), 1);
    assert_eq!(all[0].id, id);
    assert_eq!(all[0].summary, "outage");
    assert!(all[0].anchor_key.is_some());
}

#[test]
fn create_ignores_submitted_id_and_date() {
    let mut db = temp_db();
    let mut s = submission(Some(12345), "outage");
    s.date = Some(EntryDate { year: 1999, month: 1, day: 1 });
    let r = add_record(s, &admin(), &mut db);
    assert_eq!(r.code(), 201);
    let id = created_id(&r.message);
    let all = list_records(&db).unwrap();
    assert_eq!(all[0].id, id);
    assert_eq!(all[0].date, today());
}

#[test]
fn stored_record_message_and_date() {
    let mut db = temp_db();
    let day = EntryDate { year: 2019, month: 5, day: 1 };
    let r = store_new_record(submission(None, "outage"), 42, day, &mut db);
    assert_eq!(r.status, Status::Created);
    assert_eq!(r.message, "Report created (ID: 42)");
    let all = list_records(&db).unwrap();
    assert_eq!(all.len(), 1);
    assert_eq!(all[0].id, 42);
    assert_eq!(all[0].date, day);
    assert!(all[0].anchor_key.as_ref().unwrap().starts_with("2019-"));
}

#[test]
fn listing_skips_other_keys() {
    let mut db = temp_db();
    db.insert(b"config", vec![1u8, 2, 3]).unwrap();
    add_record(submission(None, "one"), &admin(), &mut db);
    add_record(submission(None, "two"), &admin(), &mut db);
    let all = list_records(&db).unwrap();
    assert_eq!(all.len(), 2);
}

#[test]
fn listing_an_empty_store() {
    let db = temp_db();
    assert!(list_records(&db).unwrap().is_empty());
}

#[test]
fn listing_fails_on_undecodable_value() {
    let db = temp_db();
    db.insert(b"SI-1", vec![1u8]).unwrap();
    assert!(list_records(&db).is_err());
}

#[test]
fn update_without_id_is_refused() {
    let mut db = temp_db();
    let r = update_record(submission(None, "x"), &admin(), &mut db);
    assert_eq!(r.code(), 400);
    assert_eq!(r.message, "No ID was provided, try again!");
    assert!(list_records(&db).unwrap().is_empty());
}

#[test]
fn update_of_missing_entry_is_refused() {
    let mut db = temp_db();
    add_record(submission(None, "outage"), &admin(), &mut db);
    let before = db.len();
    let r = update_record(submission(Some(987654), "x"), &admin(), &mut db);
    assert_eq!(r.code(), 400);
    assert_eq!(r.message, "The requested ID doesn't exist, please try again!");
    assert_eq!(db.len(), before);
    assert!(db.get(key_for(987654)).unwrap().is_none());
}

#[test]
fn update_with_mismatched_stored_id_is_refused() {
    let mut db = temp_db();
    let r = add_record(submission(None, "outage"), &admin(), &mut db);
    let id = created_id(&r.message);
    let stored = db.get(key_for(id)).unwrap().unwrap();
    let other = id + 1000;
    db.insert(key_for(other), stored.clone()).unwrap();
    let r = update_record(submission(Some(other), "changed"), &admin(), &mut db);
    assert_eq!(r.code(), 400);
    assert_eq!(r.message, "The provided ID and the record's current ID do not match, try again!");
    assert_eq!(db.get(key_for(other)).unwrap().unwrap(), stored);
}

#[test]
fn update_of_undecodable_entry_fails_generically() {
    let mut db = temp_db();
    db.insert(key_for(5), vec![9u8]).unwrap();
    let r = update_record(submission(Some(5), "x"), &admin(), &mut db);
    assert_eq!(r.code(), 500);
    assert_eq!(r.message, "The requested operation failed, please try again.");
    assert!(!r.detail.unwrap().is_empty());
}

#[test]
fn remove_missing_entry_is_refused() {
    let mut db = temp_db();
    add_record(submission(None, "outage"), &admin(), &mut db);
    let before = db.len();
    let r = remove_record(424242, &admin(), &mut db);
    assert_eq!(r.code(), 400);
    assert!(r.detail.is_none());
    assert_eq!(r.message, "The requested ID doesn't exist, please try again!");
    assert_eq!(db.len(), before);
}

#[test]
fn remove_existing_entry_takes_one_out() {
    let mut db = temp_db();
    add_record(submission(None, "one"), &admin(), &mut db);
    let r = add_record(submission(None, "two"), &admin(), &mut db);
    let id = created_id(&r.message);
    let before = db.len();
    let r = remove_record(id, &admin(), &mut db);
    assert_eq!(r.code(), 204);
    assert_eq!(r.message, "");
    assert_eq!(db.len(), before - 1);
    assert!(db.get(key_for(id)).unwrap().is_none());
}

#[test]
fn create_update_remove_round() {
    let mut db = temp_db();
    let s = RecordSubmission {
        id: None,
        reference_id: 7,
        affected_service: "api".to_string(),
        date: None,
        summary: "outage".to_string(),
        reporter: "alice".to_string(),
        reporter_handle: None,
    };
    let r = add_record(s, &admin(), &mut db);
    assert_eq!(r.code(), 201);
    let id = created_id(&r.message);
    let all = list_records(&db).unwrap();
    assert_eq!(all.len(), 1);
    assert_eq!(all[0].id, id);
    assert_eq!(all[0].date, today());
    let created_date = all[0].date;
    let anchor = all[0].anchor_key.clone();

    let u = RecordSubmission {
        id: Some(id),
        reference_id: 7,
        affected_service: "api".to_string(),
        date: None,
        summary: "outage resolved".to_string(),
        reporter: "alice".to_string(),
        reporter_handle: None,
    };
    let r = update_record(u, &admin(), &mut db);
    assert_eq!(r.code(), 200);
    assert_eq!(r.message, format!("Report has been updated (ID: {})", id));
    let all = list_records(&db).unwrap();
    assert_eq!(all.len(), 1);
    assert_eq!(all[0].summary, "outage resolved");
    assert_eq!(all[0].id, id);
    assert_eq!(all[0].date, created_date);
    assert_eq!(all[0].anchor_key, anchor);

    let r = remove_record(id, &admin(), &mut db);
    assert_eq!(r.code(), 204);
    assert!(db.get(key_for(id)).unwrap().is_none());
    assert!(list_records(&db).unwrap().is_empty());
}
