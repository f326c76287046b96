//! The record store: the rows of the records table, in insertion order, and
//! every operation that the application performs on them.
use vstd::prelude::*;
use crate::clock::now_rfc3339;
use crate::record::{
    copy_text, opt_text, RecordItem, RecordView, RowView, StoredRecord, SyncStatus,
};
use crate::text::{contains_text, text_eq, text_less, text_lt, text_views};
use crate::todo::{
    is_overdue, next_completed_at, next_status, next_todo_status_at, opt_str, repair_row,
    repair_status, roll_over, rollover_row, row_is_overdue, row_needs_status_repair,
    needs_status_repair,
};

verus! {

/// No two rows share an id (the table's primary key).
pub open spec fn ids_distinct(rows: Seq<RowView>) -> bool {
    forall|i: int, j: int|
        0 <= i < rows.len() && 0 <= j < rows.len() && i != j ==> #[trigger] rows[i].record.id
            != #[trigger] rows[j].record.id
}

/// Some row among the first `k` has this id.
pub open spec fn has_id_before(rows: Seq<RowView>, id: Seq<char>, k: int) -> bool {
    exists|j: int| 0 <= j < k && #[trigger] rows[j].record.id == id
}

/// Some row has this id.
pub open spec fn has_id(rows: Seq<RowView>, id: Seq<char>) -> bool {
    has_id_before(rows, id, rows.len() as int)
}

/// The models of a list of records.
pub open spec fn record_views(v: Seq<RecordItem>) -> Seq<RecordView> {
    v.map_values(|x: RecordItem| x@)
}

/// The models of a list of rows.
pub open spec fn row_views(v: Seq<StoredRecord>) -> Seq<RowView> {
    v.map_values(|x: StoredRecord| x@)
}

/// Which rows a read returns.
#[derive(Clone, Copy, Debug, PartialEq, Eq, Structural)]
pub enum ReadScope {
    /// Rows that are not deleted: what the user sees.
    Visible,
    /// Every row, tombstones included: what synchronisation reads.
    All,
    /// Rows that still have to be uploaded.
    Dirty,
}

/// Whether a row belongs to a read of this scope.
pub open spec fn in_scope(scope: ReadScope, r: RowView) -> bool {
    match scope {
        ReadScope::Visible => r.record.deleted_at is None,
        ReadScope::All => true,
        ReadScope::Dirty => r.sync == SyncStatus::Dirty,
    }
}

/// The records of the rows in this scope, in row order.
pub open spec fn records_in(rows: Seq<RowView>, scope: ReadScope) -> Seq<RecordView>
    decreases rows.len(),
{
    if rows.len() == 0 {
        Seq::empty()
    } else {
        let rest = records_in(rows.drop_last(), scope);
        if in_scope(scope, rows.last()) {
            rest.push(rows.last().record)
        } else {
            rest
        }
    }
}

/// The records that the user sees: those not deleted.
pub open spec fn visible_records(rows: Seq<RowView>) -> Seq<RecordView> {
    records_in(rows, ReadScope::Visible)
}

/// Every record, tombstones included.
pub open spec fn sync_records(rows: Seq<RowView>) -> Seq<RecordView> {
    rows.map_values(|r: RowView| r.record)
}

/// The records that still have to be uploaded.
pub open spec fn dirty_records(rows: Seq<RowView>) -> Seq<RecordView> {
    records_in(rows, ReadScope::Dirty)
}

/// The records table.
pub struct RecordStore {
    rows: Vec<StoredRecord>,
}

impl View for RecordStore {
    type V = Seq<RowView>;

    closed spec fn view(&self) -> Seq<RowView> {
        row_views(self.rows@)
    }
}

/// Reading every record in scope `All` gives each record in row order.
proof fn lemma_records_in_all(rows: Seq<RowView>)
    ensures
        records_in(rows, ReadScope::All) == sync_records(rows),
    decreases rows.len(),
{
    if rows.len() > 0 {
        lemma_records_in_all(rows.drop_last());
        assert(sync_records(rows) =~= sync_records(rows.drop_last()).push(rows.last().record));
    }
}

/// A record in a read comes from a row in scope.
pub proof fn lemma_records_in_from_rows(rows: Seq<RowView>, scope: ReadScope, k: int)
    requires
        0 <= k < records_in(rows, scope).len(),
    ensures
        exists|i: int|
            0 <= i < rows.len() && in_scope(scope, #[trigger] rows[i]) && rows[i].record
                == records_in(rows, scope)[k],
    decreases rows.len(),
{
    let rest = records_in(rows.drop_last(), scope);
    if k < rest.len() {
        lemma_records_in_from_rows(rows.drop_last(), scope, k);
        let i = choose|i: int|
            0 <= i < rows.drop_last().len() && in_scope(scope, #[trigger] rows.drop_last()[i])
                && rows.drop_last()[i].record == rest[k];
        assert(rows[i] == rows.drop_last()[i]);
    } else {
        assert(rows[rows.len() - 1] == rows.last());
    }
}

/// A row in scope has its record in the read.
pub proof fn lemma_row_in_records_in(rows: Seq<RowView>, scope: ReadScope, i: int)
    requires
        0 <= i < rows.len(),
        in_scope(scope, rows[i]),
    ensures
        records_in(rows, scope).contains(rows[i].record),
    decreases rows.len(),
{
    if i == rows.len() - 1 {
        assert(records_in(rows, scope).last() == rows[i].record);
    } else {
        lemma_row_in_records_in(rows.drop_last(), scope, i);
        let rest = records_in(rows.drop_last(), scope);
        let k = choose|k: int| 0 <= k < rest.len() && rest[k] == rows[i].record;
        assert(records_in(rows, scope)[k] == rows[i].record);
    }
}

impl RecordStore {
    /// No two rows share an id: every store keeps this.
    #[verifier::type_invariant]
    spec fn wf(&self) -> bool {
        ids_distinct(row_views(self.rows@))
    }

    /// An empty store.
    pub fn new() -> (s: Self)
        ensures
            s@ == Seq::<RowView>::empty(),
    {
        let s = RecordStore { rows: Vec::new() };
        assert(s@ =~= Seq::<RowView>::empty());
        s
    }

    /// A store holding these rows, in this order; `None` when two of them
    /// share an id.
    pub fn from_rows(rows: Vec<StoredRecord>) -> (r: Option<Self>)
        ensures
            r is Some <==> ids_distinct(row_views(rows@)),
            r matches Some(s) ==> s@ == row_views(rows@),
    {
        let n: usize = rows.len();
        let mut i: usize = 0;
        while i < n
            invariant
                n == rows.len(),
                0 <= i <= n,
                forall|a: int, b: int|
                    0 <= a < i && 0 <= b < i && a != b ==> #[trigger] row_views(rows@)[a].record.id
                        != #[trigger] row_views(rows@)[b].record.id,
            decreases n - i,
        {
            let mut j: usize = 0;
            while j < i
                invariant
                    n == rows.len(),
                    0 <= j <= i < n,
                    forall|a: int, b: int|
                        0 <= a < i && 0 <= b < i && a != b ==> #[trigger] row_views(
                            rows@,
                        )[a].record.id != #[trigger] row_views(rows@)[b].record.id,
                    forall|b: int|
                        0 <= b < j ==> row_views(rows@)[i as int].record.id != #[trigger] row_views(
                            rows@,
                        )[b].record.id,
                decreases i - j,
            {
                if text_eq(rows[i].record.id.as_str(), rows[j].record.id.as_str()) {
                    assert(row_views(rows@)[i as int].record.id == row_views(
                        rows@,
                    )[j as int].record.id);
                    return None;
                }
                j = j + 1;
            }
            i = i + 1;
        }
        let s = RecordStore { rows };
        Some(s)
    }

    /// A copy of every row, in order; no two of them share an id.
    pub fn rows(&self) -> (r: Vec<StoredRecord>)
        ensures
            row_views(r@) == self@,
            ids_distinct(self@),
    {
        proof {
            use_type_invariant(self);
        }
        let mut out: Vec<StoredRecord> = Vec::new();
        let mut i: usize = 0;
        while i < self.rows.len()
            invariant
                0 <= i <= self.rows.len(),
                out@.len() == i,
                forall|k: int| 0 <= k < i ==> #[trigger] out@[k]@ == self.rows@[k]@,
            decreases self.rows.len() - i,
        {
            out.push(self.rows[i].duplicate());
            i = i + 1;
        }
        assert(row_views(out@) =~= self@);
        out
    }

    /// The records of the rows in `scope`, in row order.
    fn read(&self, scope: ReadScope) -> (r: Vec<RecordItem>)
        ensures
            record_views(r@) == records_in(self@, scope),
    {
        let mut out: Vec<RecordItem> = Vec::new();
        let mut i: usize = 0;
        while i < self.rows.len()
            invariant
                0 <= i <= self.rows.len(),
                record_views(out@) == records_in(self@.take(i as int), scope),
            decreases self.rows.len() - i,
        {
            let row: &StoredRecord = &self.rows[i];
            let keep: bool = match scope {
                ReadScope::Visible => row.record.deleted_at.is_none(),
                ReadScope::All => true,
                ReadScope::Dirty => row.sync_status == SyncStatus::Dirty,
            };
            assert(self@.take(i + 1).drop_last() =~= self@.take(i as int));
            assert(self@.take(i + 1).last() == row@);
            if keep {
                let ghost before = out@;
                out.push(row.record.duplicate());
                assert(record_views(out@) =~= record_views(before).push(row.record@));
            }
            i = i + 1;
        }
        assert(self@.take(self.rows.len() as int) =~= self@);
        out
    }

    /// The records the user sees: those not deleted, in row order.
    pub fn read_visible_records(&self) -> (r: Vec<RecordItem>)
        ensures
            record_views(r@) == visible_records(self@),
    {
        self.read(ReadScope::Visible)
    }

    /// Every record, tombstones included, in row order.
    pub fn read_sync_records(&self) -> (r: Vec<RecordItem>)
        ensures
            record_views(r@) == sync_records(self@),
    {
        proof {
            lemma_records_in_all(self@);
        }
        self.read(ReadScope::All)
    }

    /// The records that still have to be uploaded, in row order.
    pub fn read_dirty_sync_records(&self) -> (r: Vec<RecordItem>)
        ensures
            record_views(r@) == dirty_records(self@),
    {
        self.read(ReadScope::Dirty)
    }
}

/// A row after soft-deleting the record `id` at time `now`: the record keeps
/// its content, is stamped deleted and updated at `now`, and must be
/// uploaded again.
pub open spec fn soft_deleted_row(r: RowView, id: Seq<char>, now: Seq<char>) -> RowView {
    if r.record.id == id {
        RowView {
            record: RecordView { deleted_at: Some(now), updated_at: now, ..r.record },
            sync: SyncStatus::Dirty,
        }
    } else {
        r
    }
}

/// The rows after soft-deleting the record `id` at time `now`.
pub open spec fn soft_delete_rows(rows: Seq<RowView>, id: Seq<char>, now: Seq<char>) -> Seq<
    RowView,
> {
    rows.map_values(|r: RowView| soft_deleted_row(r, id, now))
}

/// A row after a local edit of record `rec`: every field but the id and the
/// creation time is taken from `rec`, and the row must be uploaded again.
pub open spec fn edited_row(r: RowView, rec: RecordView) -> RowView {
    if r.record.id == rec.id {
        RowView {
            record: RecordView {
                record_type: rec.record_type,
                content: rec.content,
                date: rec.date,
                status: rec.status,
                updated_at: rec.updated_at,
                completed_at: rec.completed_at,
                rolled_over_from_date: rec.rolled_over_from_date,
                deleted_at: rec.deleted_at,
                ..r.record
            },
            sync: SyncStatus::Dirty,
        }
    } else {
        r
    }
}

/// The rows after a local edit of record `rec`.
pub open spec fn edit_rows(rows: Seq<RowView>, rec: RecordView) -> Seq<RowView> {
    rows.map_values(|r: RowView| edited_row(r, rec))
}

/// A row after setting the status and completion time of record `id` at
/// time `now`.
pub open spec fn status_set_row(
    r: RowView,
    id: Seq<char>,
    status: Option<Seq<char>>,
    completed_at: Option<Seq<char>>,
    now: Seq<char>,
) -> RowView {
    if r.record.id == id {
        RowView {
            record: RecordView { status, completed_at, updated_at: now, ..r.record },
            sync: SyncStatus::Dirty,
        }
    } else {
        r
    }
}

/// The rows after setting the status and completion time of record `id`.
pub open spec fn set_status_rows(
    rows: Seq<RowView>,
    id: Seq<char>,
    status: Option<Seq<char>>,
    completed_at: Option<Seq<char>>,
    now: Seq<char>,
) -> Seq<RowView> {
    rows.map_values(|r: RowView| status_set_row(r, id, status, completed_at, now))
}

/// A row after the records `ids` were uploaded.
pub open spec fn synced_row(r: RowView, ids: Seq<Seq<char>>) -> RowView {
    if ids.contains(r.record.id) {
        RowView { sync: SyncStatus::Synced, ..r }
    } else {
        r
    }
}

/// The rows after the records `ids` were uploaded.
pub open spec fn mark_synced_rows(rows: Seq<RowView>, ids: Seq<Seq<char>>) -> Seq<RowView> {
    rows.map_values(|r: RowView| synced_row(r, ids))
}

/// The rows after rolling overdue to-dos over to `today` at time `now`.
pub open spec fn rollover_rows(rows: Seq<RowView>, today: Seq<char>, now: Seq<char>) -> Seq<
    RowView,
> {
    rows.map_values(|r: RowView| rollover_row(r, today, now))
}

/// The number of overdue to-dos on `today`.
pub open spec fn count_overdue(rows: Seq<RowView>, today: Seq<char>) -> nat
    decreases rows.len(),
{
    if rows.len() == 0 {
        0
    } else {
        count_overdue(rows.drop_last(), today) + if is_overdue(rows.last(), today) {
            1nat
        } else {
            0nat
        }
    }
}

/// The rows after repairing to-do statuses.
pub open spec fn repair_rows(rows: Seq<RowView>) -> Seq<RowView> {
    rows.map_values(|r: RowView| repair_row(r))
}

/// The number of to-dos without a valid status.
pub open spec fn count_needing_repair(rows: Seq<RowView>) -> nat
    decreases rows.len(),
{
    if rows.len() == 0 {
        0
    } else {
        count_needing_repair(rows.drop_last()) + if needs_status_repair(rows.last()) {
            1nat
        } else {
            0nat
        }
    }
}

/// The number of rows that a statement addressed to the record `id` changes.
pub open spec fn changed_by_id(rows: Seq<RowView>, id: Seq<char>) -> usize {
    if has_id(rows, id) {
        1
    } else {
        0
    }
}

/// Two row lists with the same ids, in the same order, are both free of
/// repeated ids or both not.
proof fn lemma_same_ids_distinct(a: Seq<RowView>, b: Seq<RowView>)
    requires
        a.len() == b.len(),
        forall|k: int| 0 <= k < a.len() ==> #[trigger] a[k].record.id == b[k].record.id,
        ids_distinct(a),
    ensures
        ids_distinct(b),
{
    assert forall|i: int, j: int|
        0 <= i < b.len() && 0 <= j < b.len() && i != j implies #[trigger] b[i].record.id
        != #[trigger] b[j].record.id by {
        assert(a[i].record.id == b[i].record.id);
        assert(a[j].record.id == b[j].record.id);
    }
}

impl RecordStore {
    /// Soft-deletes the record `id` at time `now`: it stays as a tombstone
    /// stamped deleted and updated at `now`, to be uploaded again. Returns
    /// the number of rows changed: 1 when the record exists, else 0.
    pub fn soft_delete_record_at(&mut self, id: &str, now: &str) -> (n: usize)
        ensures
            final(self)@ == soft_delete_rows(old(self)@, id@, now@),
            n == changed_by_id(old(self)@, id@),
    {
        proof {
            use_type_invariant(&*self);
        }
        let ghost old_rows = self@;
        let mut out: Vec<StoredRecord> = Vec::new();
        let mut n: usize = 0;
        let mut i: usize = 0;
        while i < self.rows.len()
            invariant
                self@ == old_rows,
                ids_distinct(old_rows),
                0 <= i <= self.rows.len(),
                out@.len() == i,
                forall|k: int|
                    0 <= k < i ==> #[trigger] out@[k]@ == soft_deleted_row(old_rows[k], id@, now@),
                n == (if has_id_before(old_rows, id@, i as int) {
                    1usize
                } else {
                    0usize
                }),
            decreases self.rows.len() - i,
        {
            let row: &StoredRecord = &self.rows[i];
            assert(row@ == old_rows[i as int]);
            if text_eq(row.record.id.as_str(), id) {
                let rec: &RecordItem = &row.record;
                let new_row = StoredRecord {
                    record: RecordItem {
                        id: copy_text(&rec.id),
                        record_type: copy_text(&rec.record_type),
                        content: copy_text(&rec.content),
                        date: copy_text(&rec.date),
                        status: crate::record::copy_opt_text(&rec.status),
                        created_at: copy_text(&rec.created_at),
                        updated_at: now.to_owned(),
                        completed_at: crate::record::copy_opt_text(&rec.completed_at),
                        rolled_over_from_date: crate::record::copy_opt_text(
                            &rec.rolled_over_from_date,
                        ),
                        deleted_at: Some(now.to_owned()),
                    },
                    sync_status: SyncStatus::Dirty,
                };
                assert(new_row@ =~= soft_deleted_row(old_rows[i as int], id@, now@));
                proof {
                    if has_id_before(old_rows, id@, i as int) {
                        let j = choose|j: int| 0 <= j < i && #[trigger] old_rows[j].record.id == id@;
                        assert(old_rows[j].record.id == old_rows[i as int].record.id);
                    }
                }
                out.push(new_row);
                n = 1;
            } else {
                out.push(row.duplicate());
            }
            assert(has_id_before(old_rows, id@, i + 1) == (has_id_before(old_rows, id@, i as int)
                || old_rows[i as int].record.id == id@));
            i = i + 1;
        }
        let ghost new_rows = row_views(out@);
        assert(new_rows =~= soft_delete_rows(old_rows, id@, now@));
        proof {
            lemma_same_ids_distinct(old_rows, new_rows);
        }
        self.rows = out;
        n
    }
}

impl RecordStore {
    /// Soft-deletes the record `id` now (see [`RecordStore::soft_delete_record_at`]);
    /// the time is read from the clock.
    pub fn soft_delete_record(&mut self, id: &str) -> (n: usize)
        ensures
            exists|now: Seq<char>|
                now.len() >= 19 && final(self)@ == soft_delete_rows(old(self)@, id@, now),
            n == changed_by_id(old(self)@, id@),
    {
        let now: String = now_rfc3339();
        self.soft_delete_record_at(id, now.as_str())
    }

    /// Applies a local edit: the row with the id of `record` takes every
    /// field of `record` but its creation time, and must be uploaded again.
    /// A record that is not stored changes nothing.
    pub fn update_record(&mut self, record: &RecordItem)
        ensures
            final(self)@ == edit_rows(old(self)@, record@),
    {
        proof {
            use_type_invariant(&*self);
        }
        let ghost old_rows = self@;
        let mut out: Vec<StoredRecord> = Vec::new();
        let mut i: usize = 0;
        while i < self.rows.len()
            invariant
                self@ == old_rows,
                0 <= i <= self.rows.len(),
                out@.len() == i,
                forall|k: int|
                    0 <= k < i ==> #[trigger] out@[k]@ == edited_row(old_rows[k], record@),
            decreases self.rows.len() - i,
        {
            let row: &StoredRecord = &self.rows[i];
            assert(row@ == old_rows[i as int]);
            if text_eq(row.record.id.as_str(), record.id.as_str()) {
                let new_row = StoredRecord {
                    record: RecordItem {
                        id: copy_text(&row.record.id),
                        created_at: copy_text(&row.record.created_at),
                        ..record.duplicate()
                    },
                    sync_status: SyncStatus::Dirty,
                };
                assert(new_row@ =~= edited_row(old_rows[i as int], record@));
                out.push(new_row);
            } else {
                out.push(row.duplicate());
            }
            i = i + 1;
        }
        let ghost new_rows = row_views(out@);
        assert(new_rows =~= edit_rows(old_rows, record@));
        proof {
            lemma_same_ids_distinct(old_rows, new_rows);
        }
        self.rows = out;
    }

    /// Sets the status and completion time of the record `id`, stamps it
    /// updated at `now` and marks it to be uploaded again. A record that is
    /// not stored changes nothing.
    pub fn set_todo_status_at(
        &mut self,
        id: &str,
        status: Option<String>,
        completed_at: Option<String>,
        now: &str,
    )
        ensures
            final(self)@ == set_status_rows(
                old(self)@,
                id@,
                opt_text(status),
                opt_text(completed_at),
                now@,
            ),
    {
        proof {
            use_type_invariant(&*self);
        }
        let ghost old_rows = self@;
        let mut out: Vec<StoredRecord> = Vec::new();
        let mut i: usize = 0;
        while i < self.rows.len()
            invariant
                self@ == old_rows,
                0 <= i <= self.rows.len(),
                out@.len() == i,
                forall|k: int|
                    0 <= k < i ==> #[trigger] out@[k]@ == status_set_row(
                        old_rows[k],
                        id@,
                        opt_text(status),
                        opt_text(completed_at),
                        now@,
                    ),
            decreases self.rows.len() - i,
        {
            let row: &StoredRecord = &self.rows[i];
            assert(row@ == old_rows[i as int]);
            if text_eq(row.record.id.as_str(), id) {
                let mut new_row: StoredRecord = row.duplicate();
                new_row.record.status = crate::record::copy_opt_text(&status);
                new_row.record.completed_at = crate::record::copy_opt_text(&completed_at);
                new_row.record.updated_at = now.to_owned();
                new_row.sync_status = SyncStatus::Dirty;
                assert(new_row@ =~= status_set_row(
                    old_rows[i as int],
                    id@,
                    opt_text(status),
                    opt_text(completed_at),
                    now@,
                ));
                out.push(new_row);
            } else {
                out.push(row.duplicate());
            }
            i = i + 1;
        }
        let ghost new_rows = row_views(out@);
        assert(new_rows =~= set_status_rows(
            old_rows,
            id@,
            opt_text(status),
            opt_text(completed_at),
            now@,
        ));
        proof {
            lemma_same_ids_distinct(old_rows, new_rows);
        }
        self.rows = out;
    }

    /// Marks the records `ids` as uploaded.
    pub fn mark_records_synced(&mut self, ids: &Vec<String>)
        ensures
            final(self)@ == mark_synced_rows(old(self)@, text_views(ids@)),
    {
        proof {
            use_type_invariant(&*self);
        }
        let ghost old_rows = self@;
        let mut out: Vec<StoredRecord> = Vec::new();
        let mut i: usize = 0;
        while i < self.rows.len()
            invariant
                self@ == old_rows,
                0 <= i <= self.rows.len(),
                out@.len() == i,
                forall|k: int|
                    0 <= k < i ==> #[trigger] out@[k]@ == synced_row(old_rows[k], text_views(ids@)),
            decreases self.rows.len() - i,
        {
            let row: &StoredRecord = &self.rows[i];
            assert(row@ == old_rows[i as int]);
            let mut new_row: StoredRecord = row.duplicate();
            if contains_text(ids, row.record.id.as_str()) {
                new_row.sync_status = SyncStatus::Synced;
            }
            assert(new_row@ =~= synced_row(old_rows[i as int], text_views(ids@)));
            out.push(new_row);
            i = i + 1;
        }
        let ghost new_rows = row_views(out@);
        assert(new_rows =~= mark_synced_rows(old_rows, text_views(ids@)));
        proof {
            lemma_same_ids_distinct(old_rows, new_rows);
        }
        self.rows = out;
    }

    /// Repairs the status of every to-do whose status is neither `pending`
    /// nor `done` (see [`repair_row`]). Returns the number of rows repaired.
    pub fn normalize_todo_statuses(&mut self) -> (n: usize)
        ensures
            final(self)@ == repair_rows(old(self)@),
            n == count_needing_repair(old(self)@),
    {
        proof {
            use_type_invariant(&*self);
        }
        let ghost old_rows = self@;
        let mut out: Vec<StoredRecord> = Vec::new();
        let mut n: usize = 0;
        let mut i: usize = 0;
        while i < self.rows.len()
            invariant
                self@ == old_rows,
                0 <= i <= self.rows.len(),
                out@.len() == i,
                forall|k: int| 0 <= k < i ==> #[trigger] out@[k]@ == repair_row(old_rows[k]),
                n == count_needing_repair(old_rows.take(i as int)),
                n <= i,
            decreases self.rows.len() - i,
        {
            let row: &StoredRecord = &self.rows[i];
            assert(row@ == old_rows[i as int]);
            assert(old_rows.take(i + 1).drop_last() =~= old_rows.take(i as int));
            assert(old_rows.take(i + 1).last() == old_rows[i as int]);
            if row_needs_status_repair(row) {
                n = n + 1;
            }
            out.push(repair_status(row));
            i = i + 1;
        }
        assert(old_rows.take(i as int) =~= old_rows);
        let ghost new_rows = row_views(out@);
        assert(new_rows =~= repair_rows(old_rows));
        proof {
            lemma_same_ids_distinct(old_rows, new_rows);
        }
        self.rows = out;
        n
    }

    /// Moves every overdue to-do (see [`is_overdue`]) to `today`: it becomes
    /// pending, remembers the day it first belonged to, is stamped updated
    /// at `now` and must be uploaded again. Returns the number moved.
    pub fn rollover_overdue_todos_at(&mut self, today: &str, now: &str) -> (n: usize)
        ensures
            final(self)@ == rollover_rows(old(self)@, today@, now@),
            n == count_overdue(old(self)@, today@),
    {
        proof {
            use_type_invariant(&*self);
        }
        let ghost old_rows = self@;
        let mut out: Vec<StoredRecord> = Vec::new();
        let mut n: usize = 0;
        let mut i: usize = 0;
        while i < self.rows.len()
            invariant
                self@ == old_rows,
                0 <= i <= self.rows.len(),
                out@.len() == i,
                forall|k: int|
                    0 <= k < i ==> #[trigger] out@[k]@ == rollover_row(old_rows[k], today@, now@),
                n == count_overdue(old_rows.take(i as int), today@),
                n <= i,
            decreases self.rows.len() - i,
        {
            let row: &StoredRecord = &self.rows[i];
            assert(row@ == old_rows[i as int]);
            assert(old_rows.take(i + 1).drop_last() =~= old_rows.take(i as int));
            assert(old_rows.take(i + 1).last() == old_rows[i as int]);
            if row_is_overdue(row, today) {
                n = n + 1;
                out.push(roll_over(row, today, now));
            } else {
                out.push(row.duplicate());
            }
            i = i + 1;
        }
        assert(old_rows.take(i as int) =~= old_rows);
        let ghost new_rows = row_views(out@);
        assert(new_rows =~= rollover_rows(old_rows, today@, now@));
        proof {
            lemma_same_ids_distinct(old_rows, new_rows);
        }
        self.rows = out;
        n
    }

    /// Moves every overdue to-do to `today` (see
    /// [`RecordStore::rollover_overdue_todos_at`]); the time is read from the
    /// clock.
    pub fn rollover_overdue_todos(&mut self, today: &str) -> (n: usize)
        ensures
            exists|now: Seq<char>|
                now.len() >= 19 && final(self)@ == rollover_rows(old(self)@, today@, now),
            n == count_overdue(old(self)@, today@),
    {
        let now: String = now_rfc3339();
        self.rollover_overdue_todos_at(today, now.as_str())
    }

    /// Rolls overdue to-dos over to `today`, then reads what the user sees.
    pub fn rollover_todos(&mut self, today: &str) -> (r: Vec<RecordItem>)
        ensures
            exists|now: Seq<char>|
                now.len() >= 19 && final(self)@ == rollover_rows(old(self)@, today@, now),
            record_views(r@) == visible_records(final(self)@),
    {
        self.rollover_overdue_todos(today);
        self.read_visible_records()
    }
}

/// A to-do row with this id.
pub open spec fn is_todo_row(r: RowView, id: Seq<char>) -> bool {
    &&& r.record.id == id
    &&& r.record.record_type == crate::record::todo_type()
}

/// A to-do with this id is stored.
pub open spec fn is_todo_id(rows: Seq<RowView>, id: Seq<char>) -> bool {
    exists|i: int| 0 <= i < rows.len() && #[trigger] is_todo_row(rows[i], id)
}

/// A to-do row with this id and a status.
pub open spec fn is_status_todo_row(r: RowView, id: Seq<char>) -> bool {
    &&& is_todo_row(r, id)
    &&& r.record.status is Some
}

/// The status of the to-do `id`, when it is stored and has one.
pub open spec fn current_todo_status(rows: Seq<RowView>, id: Seq<char>) -> Option<Seq<char>> {
    if exists|i: int| 0 <= i < rows.len() && #[trigger] is_status_todo_row(rows[i], id) {
        rows[choose|i: int|
            0 <= i < rows.len() && #[trigger] is_status_todo_row(rows[i], id)].record.status
    } else {
        None
    }
}

/// The rows after toggling the check mark of record `id`, the completion
/// being stamped `completion_time` and the update `now`. Only a to-do
/// toggles: a note, or an id that is not stored, changes nothing.
pub open spec fn toggle_rows(
    rows: Seq<RowView>,
    id: Seq<char>,
    completion_time: Seq<char>,
    now: Seq<char>,
) -> Seq<RowView> {
    if is_todo_id(rows, id) {
        let cur = current_todo_status(rows, id);
        set_status_rows(
            rows,
            id,
            Some(next_status(cur)),
            next_completed_at(cur, completion_time),
            now,
        )
    } else {
        rows
    }
}

/// A new row holding `rec` with sync status `sync`.
pub open spec fn new_row(rec: RecordView, sync: SyncStatus) -> RowView {
    RowView { record: rec, sync }
}

/// Why a record cannot be added.
#[derive(Clone, Copy, Debug, PartialEq, Eq, Structural)]
pub enum StoreError {
    /// A record with the same id is already stored (tombstones included).
    DuplicateId,
}

/// A row after the remote record `rec` was merged: a stored row with the
/// same id is replaced by `rec`, as uploaded, only when it was updated
/// strictly earlier than `rec`.
pub open spec fn merge_row(r: RowView, rec: RecordView) -> RowView {
    if r.record.id == rec.id && text_less(r.record.updated_at, rec.updated_at) {
        new_row(rec, SyncStatus::Synced)
    } else {
        r
    }
}

/// The rows after merging one remote record: it replaces an older local
/// copy, is ignored when the local copy is as new or newer, and is added,
/// as uploaded, when there is no local copy.
pub open spec fn merge_remote(rows: Seq<RowView>, rec: RecordView) -> Seq<RowView> {
    if has_id(rows, rec.id) {
        rows.map_values(|r: RowView| merge_row(r, rec))
    } else {
        rows.push(new_row(rec, SyncStatus::Synced))
    }
}

/// The rows after merging remote records one after the other.
pub open spec fn merge_remote_all(rows: Seq<RowView>, recs: Seq<RecordView>) -> Seq<RowView>
    decreases recs.len(),
{
    if recs.len() == 0 {
        rows
    } else {
        merge_remote(merge_remote_all(rows, recs.drop_last()), recs.last())
    }
}

/// The rows after adding `rec`, to be uploaded, unless its id is stored.
pub open spec fn insert_if_absent(rows: Seq<RowView>, rec: RecordView) -> Seq<RowView> {
    if has_id(rows, rec.id) {
        rows
    } else {
        rows.push(new_row(rec, SyncStatus::Dirty))
    }
}

/// The rows after adding records one after the other, each unless its id is
/// already stored.
pub open spec fn insert_all_if_absent(rows: Seq<RowView>, recs: Seq<RecordView>) -> Seq<RowView>
    decreases recs.len(),
{
    if recs.len() == 0 {
        rows
    } else {
        insert_if_absent(insert_all_if_absent(rows, recs.drop_last()), recs.last())
    }
}

/// The rows after importing records kept by an earlier version: each is
/// added unless its id is stored, then to-do statuses are repaired.
pub open spec fn migrate_rows(rows: Seq<RowView>, recs: Seq<RecordView>) -> Seq<RowView> {
    repair_rows(insert_all_if_absent(rows, recs))
}

/// Adding a row whose id is not stored keeps ids distinct.
proof fn lemma_push_new_id(rows: Seq<RowView>, r: RowView)
    requires
        ids_distinct(rows),
        !has_id(rows, r.record.id),
    ensures
        ids_distinct(rows.push(r)),
{
    let s = rows.push(r);
    assert forall|i: int, j: int|
        0 <= i < s.len() && 0 <= j < s.len() && i != j implies #[trigger] s[i].record.id
        != #[trigger] s[j].record.id by {
        if i < rows.len() && j < rows.len() {
            assert(s[i] == rows[i] && s[j] == rows[j]);
        } else if i < rows.len() {
            assert(s[i] == rows[i]);
            if rows[i].record.id == r.record.id {
                assert(has_id_before(rows, r.record.id, rows.len() as int));
            }
        } else {
            assert(s[j] == rows[j]);
            if rows[j].record.id == r.record.id {
                assert(has_id_before(rows, r.record.id, rows.len() as int));
            }
        }
    }
}

impl RecordStore {
    /// Appends a row whose id is not stored.
    fn push_row(&mut self, row: StoredRecord)
        requires
            !has_id(old(self)@, row@.record.id),
        ensures
            final(self)@ == old(self)@.push(row@),
    {
        proof {
            use_type_invariant(&*self);
            lemma_push_new_id(self@, row@);
        }
        let ghost old_rows = self@;
        let mut rows: Vec<StoredRecord> = Vec::new();
        std::mem::swap(&mut rows, &mut self.rows);
        rows.push(row);
        assert(row_views(rows@) =~= old_rows.push(row@));
        self.rows = rows;
    }

    /// The index of the row with this id, if any.
    fn find_id(&self, id: &str) -> (r: Option<usize>)
        ensures
            r matches Some(i) ==> i < self@.len() && self@[i as int].record.id == id@,
            r is None ==> !has_id(self@, id@),
    {
        let mut i: usize = 0;
        while i < self.rows.len()
            invariant
                0 <= i <= self.rows.len(),
                !has_id_before(self@, id@, i as int),
            decreases self.rows.len() - i,
        {
            assert(self.rows[i as int]@ == self@[i as int]);
            if text_eq(self.rows[i].record.id.as_str(), id) {
                return Some(i);
            }
            i = i + 1;
        }
        None
    }

    /// The status of the to-do `id`, when it is stored and has one.
    pub fn todo_status(&self, id: &str) -> (r: Option<String>)
        ensures
            opt_text(r) == current_todo_status(self@, id@),
    {
        proof {
            use_type_invariant(self);
        }
        match self.find_id(id) {
            None => {
                proof {
                    if exists|i: int|
                        0 <= i < self@.len() && #[trigger] is_status_todo_row(self@[i], id@) {
                        let i = choose|i: int|
                            0 <= i < self@.len() && #[trigger] is_status_todo_row(self@[i], id@);
                        assert(has_id_before(self@, id@, self@.len() as int));
                    }
                }
                None
            },
            Some(i) => {
                let row: &StoredRecord = &self.rows[i];
                assert(row@ == self@[i as int]);
                if crate::record::is_todo_text(row.record.record_type.as_str())
                    && row.record.status.is_some() {
                    proof {
                        assert(is_status_todo_row(self@[i as int], id@));
                        let j = choose|j: int|
                            0 <= j < self@.len() && #[trigger] is_status_todo_row(self@[j], id@);
                        assert(self@[j].record.id == self@[i as int].record.id);
                    }
                    crate::record::copy_opt_text(&row.record.status)
                } else {
                    proof {
                        if exists|j: int|
                            0 <= j < self@.len() && #[trigger] is_status_todo_row(self@[j], id@) {
                            let j = choose|j: int|
                                0 <= j < self@.len() && #[trigger] is_status_todo_row(
                                    self@[j],
                                    id@,
                                );
                            assert(self@[j].record.id == self@[i as int].record.id);
                        }
                    }
                    None
                }
            },
        }
    }

    /// Toggles the check mark of the to-do `id`: a to-do that is `done` goes
    /// back to `pending` with no completion time; any other to-do becomes
    /// `done`, completed at `completion_time`. The to-do is stamped updated at
    /// `now` and must be uploaded again. A note, or an id that is not stored,
    /// changes nothing.
    pub fn toggle_todo_at(&mut self, id: &str, completion_time: &str, now: &str)
        ensures
            final(self)@ == toggle_rows(old(self)@, id@, completion_time@, now@),
    {
        proof {
            use_type_invariant(&*self);
        }
        let ghost old_rows = self@;
        match self.find_id(id) {
            None => {
                proof {
                    if is_todo_id(old_rows, id@) {
                        let j = choose|j: int|
                            0 <= j < old_rows.len() && #[trigger] is_todo_row(old_rows[j], id@);
                        assert(has_id_before(old_rows, id@, old_rows.len() as int));
                    }
                }
            },
            Some(i) => {
                assert(self.rows[i as int]@ == old_rows[i as int]);
                if crate::record::is_todo_text(self.rows[i].record.record_type.as_str()) {
                    assert(is_todo_row(old_rows[i as int], id@));
                    let cur: Option<String> = self.todo_status(id);
                    let cur_ref: Option<&str> = match &cur {
                        Some(s) => Some(s.as_str()),
                        None => None,
                    };
                    assert(opt_str(cur_ref) == current_todo_status(old_rows, id@));
                    let (status, completed_at) = next_todo_status_at(cur_ref, completion_time);
                    self.set_todo_status_at(id, status, completed_at, now);
                } else {
                    proof {
                        if is_todo_id(old_rows, id@) {
                            let j = choose|j: int|
                                0 <= j < old_rows.len() && #[trigger] is_todo_row(
                                    old_rows[j],
                                    id@,
                                );
                            assert(old_rows[j].record.id == old_rows[i as int].record.id);
                        }
                    }
                }
            },
        }
    }

    /// Toggles the check mark of the to-do `id` (see
    /// [`RecordStore::toggle_todo_at`]); the completion time and the update
    /// time are each read from the clock.
    pub fn toggle_todo(&mut self, id: &str)
        ensures
            exists|completion_time: Seq<char>, now: Seq<char>|
                completion_time.len() >= 19 && now.len() >= 19 && final(self)@ == toggle_rows(
                    old(self)@,
                    id@,
                    completion_time,
                    now,
                ),
    {
        let completion_time: String = now_rfc3339();
        let now: String = now_rfc3339();
        self.toggle_todo_at(id, completion_time.as_str(), now.as_str());
    }

    /// Adds a new record, to be uploaded; fails when its id is already
    /// stored.
    pub fn add_record(&mut self, record: RecordItem) -> (r: Result<(), StoreError>)
        ensures
            r is Ok <==> !has_id(old(self)@, record@.id),
            r is Ok ==> final(self)@ == old(self)@.push(new_row(record@, SyncStatus::Dirty)),
            r is Err ==> r == Err::<(), StoreError>(StoreError::DuplicateId) && final(self)@
                == old(self)@,
    {
        match self.find_id(record.id.as_str()) {
            Some(i) => {
                assert(has_id_before(self@, record@.id, self@.len() as int)) by {
                    assert(self@[i as int].record.id == record@.id);
                }
                Err(StoreError::DuplicateId)
            },
            None => {
                self.push_row(StoredRecord { record, sync_status: SyncStatus::Dirty });
                Ok(())
            },
        }
    }

    /// Merges one remote record (see [`merge_remote`]).
    fn merge_remote_record(&mut self, rec: &RecordItem)
        ensures
            final(self)@ == merge_remote(old(self)@, rec@),
    {
        proof {
            use_type_invariant(&*self);
        }
        let ghost old_rows = self@;
        let mut out: Vec<StoredRecord> = Vec::new();
        let mut found: bool = false;
        let mut i: usize = 0;
        while i < self.rows.len()
            invariant
                self@ == old_rows,
                0 <= i <= self.rows.len(),
                out@.len() == i,
                forall|k: int| 0 <= k < i ==> #[trigger] out@[k]@ == merge_row(old_rows[k], rec@),
                found == has_id_before(old_rows, rec@.id, i as int),
            decreases self.rows.len() - i,
        {
            let row: &StoredRecord = &self.rows[i];
            assert(row@ == old_rows[i as int]);
            if text_eq(row.record.id.as_str(), rec.id.as_str()) {
                found = true;
                if text_lt(row.record.updated_at.as_str(), rec.updated_at.as_str()) {
                    let new_r = StoredRecord {
                        record: rec.duplicate(),
                        sync_status: SyncStatus::Synced,
                    };
                    out.push(new_r);
                } else {
                    out.push(row.duplicate());
                }
            } else {
                out.push(row.duplicate());
            }
            assert(has_id_before(old_rows, rec@.id, i + 1) == (has_id_before(
                old_rows,
                rec@.id,
                i as int,
            ) || old_rows[i as int].record.id == rec@.id));
            i = i + 1;
        }
        if found {
            let ghost new_rows = row_views(out@);
            assert(new_rows =~= old_rows.map_values(|r: RowView| merge_row(r, rec@)));
            proof {
                lemma_same_ids_distinct(old_rows, new_rows);
            }
            self.rows = out;
        } else {
            self.push_row(StoredRecord { record: rec.duplicate(), sync_status: SyncStatus::Synced });
        }
    }

    /// Merges remote records one after the other: each replaces an older
    /// local copy, is ignored when the local copy is as new or newer, and is
    /// added, as uploaded, when there is none.
    pub fn apply_remote_records_to_db(&mut self, records: &Vec<RecordItem>)
        ensures
            final(self)@ == merge_remote_all(old(self)@, record_views(records@)),
    {
        proof {
            use_type_invariant(&*self);
        }
        let ghost old_rows = self@;
        let mut k: usize = 0;
        while k < records.len()
            invariant
                0 <= k <= records.len(),
                self@ == merge_remote_all(old_rows, record_views(records@).take(k as int)),
            decreases records.len() - k,
        {
            assert(record_views(records@).take(k + 1).drop_last() =~= record_views(records@).take(
                k as int,
            ));
            assert(record_views(records@).take(k + 1).last() == records@[k as int]@);
            self.merge_remote_record(&records[k]);
            k = k + 1;
        }
        assert(record_views(records@).take(k as int) =~= record_views(records@));
    }

    /// Adds a record, to be uploaded, unless its id is stored.
    fn insert_record_if_absent(&mut self, rec: &RecordItem)
        ensures
            final(self)@ == insert_if_absent(old(self)@, rec@),
    {
        match self.find_id(rec.id.as_str()) {
            Some(i) => {
                assert(has_id_before(self@, rec@.id, self@.len() as int)) by {
                    assert(self@[i as int].record.id == rec@.id);
                }
            },
            None => {
                self.push_row(StoredRecord { record: rec.duplicate(), sync_status: SyncStatus::Dirty });
            },
        }
    }

    /// Imports records kept by an earlier version: each is added, to be
    /// uploaded, unless its id is already stored; then to-do statuses are
    /// repaired.
    pub fn migrate_records(&mut self, records: &Vec<RecordItem>)
        ensures
            final(self)@ == migrate_rows(old(self)@, record_views(records@)),
    {
        proof {
            use_type_invariant(&*self);
        }
        let ghost old_rows = self@;
        let mut k: usize = 0;
        while k < records.len()
            invariant
                0 <= k <= records.len(),
                self@ == insert_all_if_absent(old_rows, record_views(records@).take(k as int)),
            decreases records.len() - k,
        {
            assert(record_views(records@).take(k + 1).drop_last() =~= record_views(records@).take(
                k as int,
            ));
            assert(record_views(records@).take(k + 1).last() == records@[k as int]@);
            self.insert_record_if_absent(&records[k]);
            k = k + 1;
        }
        assert(record_views(records@).take(k as int) =~= record_views(records@));
        self.normalize_todo_statuses();
    }
}

} // verus!
