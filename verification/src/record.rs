//! A note or a to-do as the store keeps it, and its mathematical model.
use vstd::prelude::*;
use crate::text::text_eq;

verus! {

/// A note or a to-do.
///
/// `record_type` is `note` or `todo`; `date` is the day the record belongs
/// to (`YYYY-MM-DD`); `status` is `pending` or `done` for a to-do and empty
/// for a note; timestamps are RFC 3339 text; `deleted_at` marks a tombstone.
#[derive(Clone, Debug, PartialEq, Eq)]
pub struct RecordItem {
    pub id: String,
    pub record_type: String,
    pub content: String,
    pub date: String,
    pub status: Option<String>,
    pub created_at: String,
    pub updated_at: String,
    pub completed_at: Option<String>,
    pub rolled_over_from_date: Option<String>,
    pub deleted_at: Option<String>,
}

/// The model of a [`RecordItem`]: each text field as its characters.
#[verifier::ext_equal]
pub struct RecordView {
    pub id: Seq<char>,
    pub record_type: Seq<char>,
    pub content: Seq<char>,
    pub date: Seq<char>,
    pub status: Option<Seq<char>>,
    pub created_at: Seq<char>,
    pub updated_at: Seq<char>,
    pub completed_at: Option<Seq<char>>,
    pub rolled_over_from_date: Option<Seq<char>>,
    pub deleted_at: Option<Seq<char>>,
}

/// The characters of an optional text.
pub open spec fn opt_text(o: Option<String>) -> Option<Seq<char>> {
    match o {
        Some(s) => Some(s@),
        None => None,
    }
}

impl View for RecordItem {
    type V = RecordView;

    open spec fn view(&self) -> RecordView {
        RecordView {
            id: self.id@,
            record_type: self.record_type@,
            content: self.content@,
            date: self.date@,
            status: opt_text(self.status),
            created_at: self.created_at@,
            updated_at: self.updated_at@,
            completed_at: opt_text(self.completed_at),
            rolled_over_from_date: opt_text(self.rolled_over_from_date),
            deleted_at: opt_text(self.deleted_at),
        }
    }
}

/// Whether a stored record still has to be uploaded (`Dirty`) or matches the
/// remote copy (`Synced`).
#[derive(Clone, Copy, Debug, PartialEq, Eq, Structural)]
pub enum SyncStatus {
    Dirty,
    Synced,
}

/// A row of the store: a record and its sync status.
#[derive(Clone, Debug, PartialEq, Eq)]
pub struct StoredRecord {
    pub record: RecordItem,
    pub sync_status: SyncStatus,
}

/// The model of a [`StoredRecord`].
#[verifier::ext_equal]
pub struct RowView {
    pub record: RecordView,
    pub sync: SyncStatus,
}

impl View for StoredRecord {
    type V = RowView;

    open spec fn view(&self) -> RowView {
        RowView { record: self.record@, sync: self.sync_status }
    }
}

/// The record type of a to-do.
pub open spec fn todo_type() -> Seq<char> {
    seq!['t', 'o', 'd', 'o']
}

/// The status of an unfinished to-do.
pub open spec fn pending_status() -> Seq<char> {
    seq!['p', 'e', 'n', 'd', 'i', 'n', 'g']
}

/// The status of a finished to-do.
pub open spec fn done_status() -> Seq<char> {
    seq!['d', 'o', 'n', 'e']
}

/// A copy of a text.
pub fn copy_text(s: &String) -> (r: String)
    ensures
        r@ == s@,
{
    s.clone()
}

/// A copy of an optional text.
pub fn copy_opt_text(o: &Option<String>) -> (r: Option<String>)
    ensures
        opt_text(r) == opt_text(*o),
{
    match o {
        Some(s) => Some(s.clone()),
        None => None,
    }
}

/// The text `pending`.
pub fn pending_text() -> (r: String)
    ensures
        r@ == pending_status(),
{
    proof {
        reveal_strlit("pending");
    }
    let r: String = "pending".to_owned();
    assert(r@ =~= pending_status());
    r
}

/// The text `done`.
pub fn done_text() -> (r: String)
    ensures
        r@ == done_status(),
{
    proof {
        reveal_strlit("done");
    }
    let r: String = "done".to_owned();
    assert(r@ =~= done_status());
    r
}

/// Whether a text is `done`.
pub fn is_done_text(s: &str) -> (r: bool)
    ensures
        r == (s@ == done_status()),
{
    proof {
        reveal_strlit("done");
    }
    assert("done"@ =~= done_status());
    text_eq(s, "done")
}

/// Whether a text is `pending`.
pub fn is_pending_text(s: &str) -> (r: bool)
    ensures
        r == (s@ == pending_status()),
{
    proof {
        reveal_strlit("pending");
    }
    assert("pending"@ =~= pending_status());
    text_eq(s, "pending")
}

/// Whether a text is `todo`.
pub fn is_todo_text(s: &str) -> (r: bool)
    ensures
        r == (s@ == todo_type()),
{
    proof {
        reveal_strlit("todo");
    }
    assert("todo"@ =~= todo_type());
    text_eq(s, "todo")
}

impl RecordItem {
    /// A copy of this record.
    pub fn duplicate(&self) -> (r: RecordItem)
        ensures
            r@ == self@,
    {
        RecordItem {
            id: copy_text(&self.id),
            record_type: copy_text(&self.record_type),
            content: copy_text(&self.content),
            date: copy_text(&self.date),
            status: copy_opt_text(&self.status),
            created_at: copy_text(&self.created_at),
            updated_at: copy_text(&self.updated_at),
            completed_at: copy_opt_text(&self.completed_at),
            rolled_over_from_date: copy_opt_text(&self.rolled_over_from_date),
            deleted_at: copy_opt_text(&self.deleted_at),
        }
    }
}

impl StoredRecord {
    /// A copy of this row.
    pub fn duplicate(&self) -> (r: StoredRecord)
        ensures
            r@ == self@,
    {
        StoredRecord { record: self.record.duplicate(), sync_status: self.sync_status }
    }
}

} // verus!
