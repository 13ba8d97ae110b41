use hall_of_fame::{new_entry, EntryDate, HallEntry, RecordSubmission};

fn sample(summary: &str) -> HallEntry {
    HallEntry {
        id: 3,
        anchor_key: None,
        reference_id: 7,
        affected_service: "api".to_string(),
        date: EntryDate { year: 2019, month: 5, day: 1 },
        summary: summary.to_string(),
        reporter: "alice".to_string(),
        reporter_handle: None,
    }
}

#[test]
fn anchor_is_year_and_upper_hex() {
    let mut e = sample("outage");
    e.generate_anchor();
    let anchor = e.anchor_key.unwrap();
    assert!(anchor.starts_with("2019-"));
    let hex = &anchor[5..];
    assert!(!hex.is_empty() && hex.len() <= 16);
    assert!(hex.chars().all(|c| c.is_ascii_digit() || ('A'..='F').contains(&c)));
    assert!(hex == "0" || !hex.starts_with('0'));
}

#[test]
fn anchor_is_deterministic() {
    let mut a = sample("outage");
    let mut b = sample("outage");
    a.generate_anchor();
    b.generate_anchor();
    assert_eq!(a.anchor_key, b.anchor_key);
}

#[test]
fn anchor_changes_with_a_field() {
    let mut a = sample("outage");
    let mut b = sample("outage resolved");
    a.generate_anchor();
    b.generate_anchor();
    assert_ne!(a.anchor_key, b.anchor_key);
}

#[test]
fn anchor_hashes_the_anchor_too() {
    let mut a = sample("outage");
    a.generate_anchor();
    let first = a.anchor_key.clone();
    a.generate_anchor();
    assert_ne!(a.anchor_key, first);
}

#[test]
fn new_entry_takes_submitted_fields() {
    let s = RecordSubmission {
        id: Some(99),
        reference_id: 7,
        affected_service: "api".to_string(),
        date: Some(EntryDate { year: 2001, month: 1, day: 1 }),
        summary: "outage".to_string(),
        reporter: "alice".to_string(),
        reporter_handle: Some("@alice".to_string()),
    };
    let day = EntryDate { year: 2024, month: 2, day: 29 };
    let e = new_entry(s, 12, day);
    assert_eq!(e.id, 12);
    assert_eq!(e.date, day);
    assert_eq!(e.reference_id, 7);
    assert_eq!(e.summary, "outage");
    assert_eq!(e.reporter_handle, Some("@alice".to_string()));
    assert!(e.anchor_key.unwrap().starts_with("2024-"));
}
