//! The stored record, the submission it is built from, and its anchor.
use vstd::prelude::*;
use crate::text::{anchor_text, format_anchor};
use std::hash::{Hash, Hasher};

verus! {

/// A calendar date as year, month and day of the month.
#[derive(Clone, Copy, Debug, PartialEq, Eq, Structural)]
pub struct EntryDate {
    pub year: i32,
    pub month: u32,
    pub day: u32,
}

pub open spec fn leap_year(y: int) -> bool {
    (y % 4 == 0 && y % 100 != 0) || y % 400 == 0
}

pub open spec fn days_in_month(y: int, m: int) -> int {
    if m == 2 {
        if leap_year(y) {
            29
        } else {
            28
        }
    } else if m == 4 || m == 6 || m == 9 || m == 11 {
        30
    } else {
        31
    }
}

impl EntryDate {
    /// A day of the proleptic Gregorian calendar, in the years that chrono's
    /// `NaiveDate` covers.
    pub open spec fn is_calendar_day(self) -> bool {
        &&& -262143 <= self.year <= 262142
        &&& 1 <= self.month <= 12
        &&& 1 <= self.day <= days_in_month(self.year as int, self.month as int)
    }
}

/// What an entry holds, as mathematical values.
pub ghost struct EntryModel {
    pub id: u64,
    pub anchor_key: Option<Seq<char>>,
    pub reference_id: u64,
    pub affected_service: Seq<char>,
    pub date: EntryDate,
    pub summary: Seq<char>,
    pub reporter: Seq<char>,
    pub reporter_handle: Option<Seq<char>>,
}

pub open spec fn opt_text(o: Option<String>) -> Option<Seq<char>> {
    match o {
        Some(s) => Some(s@),
        None => None,
    }
}

/// A stored incident report.
#[derive(Debug)]
pub struct HallEntry {
    /// Assigned by the store; also the suffix of the entry's key.
    pub id: u64,
    /// A stable token for linking to the entry, derived once at creation.
    pub anchor_key: Option<String>,
    /// Supplied by the reporter, to link to reports or incidents elsewhere.
    pub reference_id: u64,
    pub affected_service: String,
    pub date: EntryDate,
    pub summary: String,
    pub reporter: String,
    /// A handle or profile shown next to the reporter's name.
    pub reporter_handle: Option<String>,
}

impl View for HallEntry {
    type V = EntryModel;

    open spec fn view(&self) -> EntryModel {
        EntryModel {
            id: self.id,
            anchor_key: opt_text(self.anchor_key),
            reference_id: self.reference_id,
            affected_service: self.affected_service@,
            date: self.date,
            summary: self.summary@,
            reporter: self.reporter@,
            reporter_handle: opt_text(self.reporter_handle),
        }
    }
}

/// The data sent to create an entry, or to update one.
#[derive(Debug)]
pub struct RecordSubmission {
    /// The entry to update; not used on creation.
    pub id: Option<u64>,
    pub reference_id: u64,
    pub affected_service: String,
    /// Not used: a new entry is dated by the server, an updated one keeps its date.
    pub date: Option<EntryDate>,
    pub summary: String,
    pub reporter: String,
    pub reporter_handle: Option<String>,
}

/// The hash of all of an entry's fields, in order, by std's `DefaultHasher`.
pub uninterp spec fn entry_hash(e: EntryModel) -> u64;

/// The anchor derived from an entry's fields: its year and the hash of its fields.
pub open spec fn anchor_of(e: EntryModel) -> Seq<char> {
    anchor_text(e.date.year, entry_hash(e))
}

/// Relies on std's `DefaultHasher::new`, whose instances all start from the same
/// keys: the hash of the fields, the date as chrono's `NaiveDate` (which
/// `NaiveDate::from_ymd_opt` gives for a calendar day), depends on their values alone.
#[verifier::external_body]
fn hash_entry(e: &HallEntry) -> (r: u64)
    requires
        e.date.is_calendar_day(),
    ensures
        r == entry_hash(e@),
{
    let fields = (
        e.id,
        &e.anchor_key,
        e.reference_id,
        &e.affected_service,
        chrono::NaiveDate::from_ymd_opt(e.date.year, e.date.month, e.date.day).unwrap(),
        &e.summary,
        &e.reporter,
        &e.reporter_handle,
    );
    let mut hasher = std::collections::hash_map::DefaultHasher::new();
    fields.hash(&mut hasher);
    hasher.finish()
}

impl HallEntry {
    /// Sets the anchor from a hash of all fields, the anchor included, so it is
    /// to be called once, before the entry is stored.
    pub fn generate_anchor(&mut self)
        requires
            old(self).date.is_calendar_day(),
        ensures
            final(self)@ == (EntryModel { anchor_key: Some(anchor_of(old(self)@)), ..old(self)@ }),
    {
        let hash = hash_entry(self);
        let anchor = format_anchor(self.date.year, hash);
        self.anchor_key = Some(anchor);
    }
}

/// Equal entries get equal anchors.
pub proof fn lemma_anchor_deterministic(a: HallEntry, b: HallEntry)
    requires
        a@ == b@,
    ensures
        anchor_of(a@) == anchor_of(b@),
{
}

} // verus!
