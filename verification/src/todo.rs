//! The rules for to-dos: completing and reopening, rolling over overdue
//! to-dos to today, and repairing legacy statuses.
use vstd::prelude::*;
use crate::clock::now_rfc3339;
use crate::record::{
    copy_opt_text, copy_text, done_status, done_text, is_done_text, is_pending_text,
    is_todo_text, opt_text, pending_status, pending_text, todo_type, RecordItem, RecordView,
    RowView, StoredRecord, SyncStatus,
};
use crate::text::{text_less, text_lt};

verus! {

/// The characters of an optional text slice.
pub open spec fn opt_str(o: Option<&str>) -> Option<Seq<char>> {
    match o {
        Some(s) => Some(s@),
        None => None,
    }
}

/// Toggling a to-do whose status is this reopens it.
pub open spec fn reopens(current: Option<Seq<char>>) -> bool {
    current == Some(done_status())
}

/// The status a to-do takes when its check mark is toggled: a done to-do
/// goes back to pending, any other becomes done.
pub open spec fn next_status(current: Option<Seq<char>>) -> Seq<char> {
    if reopens(current) {
        pending_status()
    } else {
        done_status()
    }
}

/// The completion time a toggled to-do takes: none when it is reopened,
/// the time of the toggle when it is completed.
pub open spec fn next_completed_at(current: Option<Seq<char>>, time: Seq<char>) -> Option<
    Seq<char>,
> {
    if reopens(current) {
        None
    } else {
        Some(time)
    }
}

/// The new status and completion time of a to-do whose current status is
/// `current_status`, when the toggle happens at `completion_time`: a `done`
/// to-do becomes `pending` with no completion time; any other becomes
/// `done`, completed at `completion_time`.
pub fn next_todo_status_at(current_status: Option<&str>, completion_time: &str) -> (r: (
    Option<String>,
    Option<String>,
))
    ensures
        opt_text(r.0) == Some(next_status(opt_str(current_status))),
        opt_text(r.1) == next_completed_at(opt_str(current_status), completion_time@),
{
    let reopening: bool = match current_status {
        Some(s) => is_done_text(s),
        None => false,
    };
    if reopening {
        (Some(pending_text()), None)
    } else {
        (Some(done_text()), Some(completion_time.to_owned()))
    }
}

/// The new status and completion time of a to-do whose current status is
/// `current_status` (see [`next_todo_status_at`]), the completion time being
/// read from the clock.
pub fn next_todo_status(current_status: Option<&str>) -> (r: (Option<String>, Option<String>))
    ensures
        opt_text(r.0) == Some(next_status(opt_str(current_status))),
        reopens(opt_str(current_status)) ==> r.1 is None,
        !reopens(opt_str(current_status)) ==> (r.1 matches Some(t) && t@.len() >= 19),
{
    let now: String = now_rfc3339();
    next_todo_status_at(current_status, now.as_str())
}

/// A to-do that rollover moves to today: a to-do that is pending (or has no
/// status and no completion time), is not deleted, and belongs to a day
/// before `today`.
pub open spec fn is_overdue(r: RowView, today: Seq<char>) -> bool {
    &&& r.record.record_type == todo_type()
    &&& (r.record.status == Some(pending_status()) || (r.record.status is None
        && r.record.completed_at is None))
    &&& r.record.deleted_at is None
    &&& text_less(r.record.date, today)
}

/// The day a rolled-over to-do first belonged to: the one already recorded,
/// else its own date.
pub open spec fn rolled_from(r: RecordView) -> Seq<char> {
    match r.rolled_over_from_date {
        Some(d) => d,
        None => r.date,
    }
}

/// An overdue to-do moved to `today` at time `now`.
pub open spec fn rolled_over(r: RowView, today: Seq<char>, now: Seq<char>) -> RowView {
    RowView {
        record: RecordView {
            date: today,
            status: Some(pending_status()),
            rolled_over_from_date: Some(rolled_from(r.record)),
            updated_at: now,
            ..r.record
        },
        sync: SyncStatus::Dirty,
    }
}

/// A row after rollover to `today` at time `now`.
pub open spec fn rollover_row(r: RowView, today: Seq<char>, now: Seq<char>) -> RowView {
    if is_overdue(r, today) {
        rolled_over(r, today, now)
    } else {
        r
    }
}

/// A to-do whose status is neither `pending` nor `done`.
pub open spec fn needs_status_repair(r: RowView) -> bool {
    &&& r.record.record_type == todo_type()
    &&& r.record.status != Some(pending_status())
    &&& r.record.status != Some(done_status())
}

/// A row after status repair: a to-do without a valid status becomes `done`
/// when it has a completion time and `pending` otherwise.
pub open spec fn repair_row(r: RowView) -> RowView {
    if needs_status_repair(r) {
        RowView {
            record: RecordView {
                status: Some(
                    if r.record.completed_at is Some {
                        done_status()
                    } else {
                        pending_status()
                    },
                ),
                ..r.record
            },
            sync: r.sync,
        }
    } else {
        r
    }
}

/// Whether a row is an overdue to-do on `today`.
pub fn row_is_overdue(row: &StoredRecord, today: &str) -> (b: bool)
    ensures
        b == is_overdue(row@, today@),
{
    let rec: &RecordItem = &row.record;
    if !is_todo_text(rec.record_type.as_str()) {
        return false;
    }
    let open_status: bool = match &rec.status {
        Some(s) => is_pending_text(s.as_str()),
        None => rec.completed_at.is_none(),
    };
    if !open_status {
        return false;
    }
    if rec.deleted_at.is_some() {
        return false;
    }
    text_lt(rec.date.as_str(), today)
}

/// An overdue row moved to `today` at time `now`.
pub fn roll_over(row: &StoredRecord, today: &str, now: &str) -> (r: StoredRecord)
    ensures
        r@ == rolled_over(row@, today@, now@),
{
    let rec: &RecordItem = &row.record;
    let from: String = match &rec.rolled_over_from_date {
        Some(d) => copy_text(d),
        None => copy_text(&rec.date),
    };
    let r = StoredRecord {
        record: RecordItem {
            id: copy_text(&rec.id),
            record_type: copy_text(&rec.record_type),
            content: copy_text(&rec.content),
            date: today.to_owned(),
            status: Some(pending_text()),
            created_at: copy_text(&rec.created_at),
            updated_at: now.to_owned(),
            completed_at: copy_opt_text(&rec.completed_at),
            rolled_over_from_date: Some(from),
            deleted_at: copy_opt_text(&rec.deleted_at),
        },
        sync_status: SyncStatus::Dirty,
    };
    assert(r@ =~= rolled_over(row@, today@, now@));
    r
}

/// Whether a row is a to-do without a valid status.
pub fn row_needs_status_repair(row: &StoredRecord) -> (b: bool)
    ensures
        b == needs_status_repair(row@),
{
    let rec: &RecordItem = &row.record;
    if !is_todo_text(rec.record_type.as_str()) {
        return false;
    }
    match &rec.status {
        Some(s) => !is_pending_text(s.as_str()) && !is_done_text(s.as_str()),
        None => true,
    }
}

/// A row after status repair.
pub fn repair_status(row: &StoredRecord) -> (r: StoredRecord)
    ensures
        r@ == repair_row(row@),
{
    let mut r: StoredRecord = row.duplicate();
    if row_needs_status_repair(row) {
        let status: String = if row.record.completed_at.is_some() {
            done_text()
        } else {
            pending_text()
        };
        r.record.status = Some(status);
    }
    assert(r@ =~= repair_row(row@));
    r
}

} // verus!
