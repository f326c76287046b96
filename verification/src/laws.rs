//! Properties of the store and of the window decisions that hold across
//! operations.
use vstd::prelude::*;
use crate::record::{done_status, pending_status, todo_type, RecordView, RowView, SyncStatus};
use crate::schema::{added_column, sync_column_changes, sync_status_of, sync_status_text};
use crate::store::{
    count_needing_repair, count_overdue, current_todo_status, dirty_records, has_id,
    has_id_before, ids_distinct, insert_all_if_absent, insert_if_absent,
    lemma_records_in_from_rows, lemma_row_in_records_in, mark_synced_rows, merge_remote,
    merge_remote_all, merge_row, migrate_rows, new_row, repair_rows, rollover_rows,
    soft_delete_rows, soft_deleted_row, sync_records, toggle_rows, visible_records, ReadScope,
    is_status_todo_row, is_todo_id, is_todo_row, edit_rows, edited_row,
};
use crate::text::{
    lemma_text_less_irreflexive, lemma_text_less_transitive, text_less,
};
use crate::todo::{is_overdue, needs_status_repair, repair_row, rollover_row};
use crate::window::{
    elapsed_ms, restores_at, since_before, waiting, watch_next, Look, WatchState,
    RESTORE_AFTER_MS,
};

verus! {

/// The store holds a copy of `rec` at least as new as `rec`.
pub open spec fn covers(rows: Seq<RowView>, rec: RecordView) -> bool {
    exists|i: int|
        0 <= i < rows.len() && #[trigger] rows[i].record.id == rec.id && !text_less(
            rows[i].record.updated_at,
            rec.updated_at,
        )
}

/// The store holds a copy of each of `recs` at least as new as it.
pub open spec fn covers_all(rows: Seq<RowView>, recs: Seq<RecordView>) -> bool {
    forall|k: int| 0 <= k < recs.len() ==> covers(rows, #[trigger] recs[k])
}

/// Merging keeps ids distinct.
pub proof fn lemma_merge_remote_distinct(rows: Seq<RowView>, rec: RecordView)
    requires
        ids_distinct(rows),
    ensures
        ids_distinct(merge_remote(rows, rec)),
        merge_remote(rows, rec).len() >= rows.len(),
        forall|i: int|
            0 <= i < rows.len() ==> #[trigger] merge_remote(rows, rec)[i].record.id
                == rows[i].record.id,
{
    let m = merge_remote(rows, rec);
    if has_id(rows, rec.id) {
        assert forall|i: int, j: int|
            0 <= i < m.len() && 0 <= j < m.len() && i != j implies #[trigger] m[i].record.id
            != #[trigger] m[j].record.id by {
            assert(m[i] == merge_row(rows[i], rec));
            assert(m[j] == merge_row(rows[j], rec));
            assert(rows[i].record.id != rows[j].record.id);
        }
    } else {
        assert forall|i: int, j: int|
            0 <= i < m.len() && 0 <= j < m.len() && i != j implies #[trigger] m[i].record.id
            != #[trigger] m[j].record.id by {
            if i < rows.len() && j < rows.len() {
                assert(m[i] == rows[i] && m[j] == rows[j]);
            } else if i < rows.len() {
                assert(m[i] == rows[i]);
                if rows[i].record.id == rec.id {
                    assert(has_id_before(rows, rec.id, rows.len() as int));
                }
            } else {
                assert(m[j] == rows[j]);
                if rows[j].record.id == rec.id {
                    assert(has_id_before(rows, rec.id, rows.len() as int));
                }
            }
        }
    }
}

/// Merging `rec` leaves a copy at least as new as `rec`, and every copy that
/// was at least as new as some record stays at least as new as it.
pub proof fn lemma_merge_remote_covers(rows: Seq<RowView>, rec: RecordView, other: RecordView)
    requires
        ids_distinct(rows),
    ensures
        covers(merge_remote(rows, rec), rec),
        covers(rows, other) ==> covers(merge_remote(rows, rec), other),
{
    let m = merge_remote(rows, rec);
    if has_id(rows, rec.id) {
        let i = choose|i: int| 0 <= i < rows.len() && #[trigger] rows[i].record.id == rec.id;
        assert(m[i] == merge_row(rows[i], rec));
        if text_less(rows[i].record.updated_at, rec.updated_at) {
            lemma_text_less_irreflexive(rec.updated_at);
        }
        assert(m[i].record.id == rec.id);
        if covers(rows, other) {
            let j = choose|j: int|
                0 <= j < rows.len() && #[trigger] rows[j].record.id == other.id && !text_less(
                    rows[j].record.updated_at,
                    other.updated_at,
                );
            assert(m[j] == merge_row(rows[j], rec));
            if rows[j].record.id == rec.id && text_less(rows[j].record.updated_at, rec.updated_at) {
                if text_less(rec.updated_at, other.updated_at) {
                    lemma_text_less_transitive(
                        rows[j].record.updated_at,
                        rec.updated_at,
                        other.updated_at,
                    );
                }
            }
            assert(m[j].record.id == other.id);
        }
    } else {
        lemma_text_less_irreflexive(rec.updated_at);
        assert(m[rows.len() as int] == new_row(rec, SyncStatus::Synced));
        if covers(rows, other) {
            let j = choose|j: int|
                0 <= j < rows.len() && #[trigger] rows[j].record.id == other.id && !text_less(
                    rows[j].record.updated_at,
                    other.updated_at,
                );
            assert(m[j] == rows[j]);
        }
    }
}

/// Merging a record of which the store already holds a copy at least as
/// new changes nothing.
pub proof fn lemma_merge_remote_covered_noop(rows: Seq<RowView>, rec: RecordView)
    requires
        ids_distinct(rows),
        covers(rows, rec),
    ensures
        merge_remote(rows, rec) == rows,
{
    let i = choose|i: int|
        0 <= i < rows.len() && #[trigger] rows[i].record.id == rec.id && !text_less(
            rows[i].record.updated_at,
            rec.updated_at,
        );
    assert(has_id_before(rows, rec.id, rows.len() as int));
    let m = merge_remote(rows, rec);
    assert forall|j: int| 0 <= j < rows.len() implies #[trigger] m[j] == rows[j] by {
        assert(m[j] == merge_row(rows[j], rec));
        if j != i {
            assert(rows[j].record.id != rows[i].record.id);
        }
    }
    assert(m =~= rows);
}

/// After merging a batch, the store holds a copy of each record of the
/// batch at least as new as it, and ids stay distinct.
pub proof fn lemma_merge_remote_all_covers(rows: Seq<RowView>, recs: Seq<RecordView>)
    requires
        ids_distinct(rows),
    ensures
        ids_distinct(merge_remote_all(rows, recs)),
        covers_all(merge_remote_all(rows, recs), recs),
    decreases recs.len(),
{
    if recs.len() > 0 {
        let prev = merge_remote_all(rows, recs.drop_last());
        lemma_merge_remote_all_covers(rows, recs.drop_last());
        lemma_merge_remote_distinct(prev, recs.last());
        assert forall|k: int| 0 <= k < recs.len() implies covers(
            merge_remote_all(rows, recs),
            #[trigger] recs[k],
        ) by {
            lemma_merge_remote_covers(prev, recs.last(), recs[k]);
            if k < recs.len() - 1 {
                assert(recs.drop_last()[k] == recs[k]);
            }
        }
    }
}

/// Merging a batch of which the store already holds copies at least as new
/// changes nothing.
pub proof fn lemma_merge_remote_all_covered_noop(rows: Seq<RowView>, recs: Seq<RecordView>)
    requires
        ids_distinct(rows),
        covers_all(rows, recs),
    ensures
        merge_remote_all(rows, recs) == rows,
    decreases recs.len(),
{
    if recs.len() > 0 {
        assert forall|k: int| 0 <= k < recs.drop_last().len() implies covers(
            rows,
            #[trigger] recs.drop_last()[k],
        ) by {
            assert(recs.drop_last()[k] == recs[k]);
        }
        lemma_merge_remote_all_covered_noop(rows, recs.drop_last());
        assert(covers(rows, recs[recs.len() - 1]));
        lemma_merge_remote_covered_noop(rows, recs.last());
    }
}

/// Last writer wins: after merging the remote record `rec`, the copy of its
/// id is `rec` itself, as uploaded, when the local copy was updated strictly
/// earlier or there was none; otherwise the local copy stays as it was.
pub proof fn law_merge_keeps_newer(rows: Seq<RowView>, rec: RecordView, i: int)
    requires
        ids_distinct(rows),
        0 <= i < rows.len(),
        rows[i].record.id == rec.id,
    ensures
        merge_remote(rows, rec).len() == rows.len(),
        text_less(rows[i].record.updated_at, rec.updated_at) ==> merge_remote(rows, rec)[i]
            == (RowView { record: rec, sync: SyncStatus::Synced }),
        !text_less(rows[i].record.updated_at, rec.updated_at) ==> merge_remote(rows, rec)[i]
            == rows[i],
        forall|j: int| 0 <= j < rows.len() && j != i ==> #[trigger] merge_remote(rows, rec)[j] == rows[j],
{
    assert(has_id_before(rows, rec.id, rows.len() as int));
    let m = merge_remote(rows, rec);
    assert forall|j: int| 0 <= j < rows.len() && j != i implies #[trigger] m[j] == rows[j] by {
        assert(m[j] == merge_row(rows[j], rec));
        assert(rows[j].record.id != rows[i].record.id);
    }
}

/// Synchronisation converges: merging the same batch of remote records a
/// second time changes nothing, so a record deleted remotely (a newer
/// tombstone) is not brought back by a repeated merge.
pub proof fn law_merge_idempotent(rows: Seq<RowView>, recs: Seq<RecordView>)
    requires
        ids_distinct(rows),
    ensures
        merge_remote_all(merge_remote_all(rows, recs), recs) == merge_remote_all(rows, recs),
{
    lemma_merge_remote_all_covers(rows, recs);
    lemma_merge_remote_all_covered_noop(merge_remote_all(rows, recs), recs);
}

/// A soft-deleted record leaves what the user sees, stays in what is
/// synchronised as a tombstone stamped with the deletion time, and is among
/// the records to upload.
pub proof fn law_soft_delete_tombstone(
    rows: Seq<RowView>,
    id: Seq<char>,
    now: Seq<char>,
    i: int,
)
    requires
        ids_distinct(rows),
        0 <= i < rows.len(),
        rows[i].record.id == id,
    ensures
        forall|k: int|
            0 <= k < visible_records(soft_delete_rows(rows, id, now)).len() ==> (
            #[trigger] visible_records(soft_delete_rows(rows, id, now))[k]).id != id,
        sync_records(soft_delete_rows(rows, id, now))[i].id == id,
        sync_records(soft_delete_rows(rows, id, now))[i].deleted_at == Some(now),
        dirty_records(soft_delete_rows(rows, id, now)).contains(
            soft_deleted_row(rows[i], id, now).record,
        ),
{
    let after = soft_delete_rows(rows, id, now);
    assert forall|k: int|
        0 <= k < visible_records(after).len() implies (#[trigger] visible_records(
        after,
    )[k]).id != id by {
        lemma_records_in_from_rows(after, ReadScope::Visible, k);
        let j = choose|j: int|
            0 <= j < after.len() && crate::store::in_scope(ReadScope::Visible, #[trigger] after[j])
                && after[j].record == visible_records(after)[k];
        assert(after[j] == soft_deleted_row(rows[j], id, now));
    }
    assert(after[i] == soft_deleted_row(rows[i], id, now));
    lemma_row_in_records_in(after, ReadScope::Dirty, i);
}

/// Rollover leaves no overdue to-do behind, so a second rollover on the same
/// day changes nothing and moves none.
pub proof fn law_rollover_idempotent(
    rows: Seq<RowView>,
    today: Seq<char>,
    now: Seq<char>,
    later: Seq<char>,
)
    ensures
        rollover_rows(rollover_rows(rows, today, now), today, later) == rollover_rows(
            rows,
            today,
            now,
        ),
        count_overdue(rollover_rows(rows, today, now), today) == 0,
{
    let once = rollover_rows(rows, today, now);
    lemma_text_less_irreflexive(today);
    assert forall|k: int| 0 <= k < once.len() implies !is_overdue(#[trigger] once[k], today) by {
        assert(once[k] == rollover_row(rows[k], today, now));
    }
    assert(rollover_rows(once, today, later) =~= once);
    lemma_count_overdue_zero(once, today);
}

proof fn lemma_count_overdue_zero(rows: Seq<RowView>, today: Seq<char>)
    requires
        forall|k: int| 0 <= k < rows.len() ==> !is_overdue(#[trigger] rows[k], today),
    ensures
        count_overdue(rows, today) == 0,
    decreases rows.len(),
{
    if rows.len() > 0 {
        assert forall|k: int| 0 <= k < rows.drop_last().len() implies !is_overdue(
            #[trigger] rows.drop_last()[k],
            today,
        ) by {
            assert(rows.drop_last()[k] == rows[k]);
        }
        lemma_count_overdue_zero(rows.drop_last(), today);
        assert(rows.last() == rows[rows.len() - 1]);
    }
}

/// A rolled-over to-do keeps the first day it belonged to: moving it again
/// later does not overwrite where it came from.
pub proof fn law_rollover_keeps_origin(
    rows: Seq<RowView>,
    day1: Seq<char>,
    now1: Seq<char>,
    day2: Seq<char>,
    now2: Seq<char>,
    i: int,
)
    requires
        0 <= i < rows.len(),
        is_overdue(rows[i], day1),
    ensures
        rollover_rows(rows, day1, now1)[i].record.rolled_over_from_date == Some(
            crate::todo::rolled_from(rows[i].record),
        ),
        rollover_rows(rollover_rows(rows, day1, now1), day2, now2)[i].record.rolled_over_from_date
            == Some(crate::todo::rolled_from(rows[i].record)),
{
    let once = rollover_rows(rows, day1, now1);
    assert(once[i] == rollover_row(rows[i], day1, now1));
    assert(rollover_rows(once, day2, now2)[i] == rollover_row(once[i], day2, now2));
}

/// After status repair every to-do is `pending` or `done`, and repairing
/// again changes nothing.
pub proof fn law_repair_complete(rows: Seq<RowView>)
    ensures
        forall|k: int|
            0 <= k < repair_rows(rows).len() && (#[trigger] repair_rows(rows)[k]).record.record_type
                == todo_type() ==> repair_rows(rows)[k].record.status == Some(pending_status())
                || repair_rows(rows)[k].record.status == Some(done_status()),
        repair_rows(repair_rows(rows)) == repair_rows(rows),
        count_needing_repair(repair_rows(rows)) == 0,
{
    let once = repair_rows(rows);
    assert forall|k: int| 0 <= k < once.len() implies !needs_status_repair(#[trigger] once[k]) by {
        assert(once[k] == repair_row(rows[k]));
    }
    assert(repair_rows(once) =~= once);
    lemma_count_repair_zero(once);
}

proof fn lemma_count_repair_zero(rows: Seq<RowView>)
    requires
        forall|k: int| 0 <= k < rows.len() ==> !needs_status_repair(#[trigger] rows[k]),
    ensures
        count_needing_repair(rows) == 0,
    decreases rows.len(),
{
    if rows.len() > 0 {
        assert forall|k: int| 0 <= k < rows.drop_last().len() implies !needs_status_repair(
            #[trigger] rows.drop_last()[k],
        ) by {
            assert(rows.drop_last()[k] == rows[k]);
        }
        lemma_count_repair_zero(rows.drop_last());
        assert(rows.last() == rows[rows.len() - 1]);
    }
}

/// The current status of a stored to-do with a status is that status.
proof fn lemma_current_todo_status(rows: Seq<RowView>, id: Seq<char>, i: int)
    requires
        ids_distinct(rows),
        0 <= i < rows.len(),
        is_status_todo_row(rows[i], id),
    ensures
        current_todo_status(rows, id) == rows[i].record.status,
{
    let j = choose|j: int| 0 <= j < rows.len() && #[trigger] is_status_todo_row(rows[j], id);
    assert(rows[j].record.id == rows[i].record.id);
}

/// Toggling a to-do's check mark twice gives back its status: a done to-do
/// goes back to pending (never to no status) and a pending one becomes done,
/// and the second toggle undoes the first.
pub proof fn law_toggle_twice(
    rows: Seq<RowView>,
    id: Seq<char>,
    i: int,
    t1: Seq<char>,
    n1: Seq<char>,
    t2: Seq<char>,
    n2: Seq<char>,
)
    requires
        ids_distinct(rows),
        0 <= i < rows.len(),
        rows[i].record.id == id,
        rows[i].record.record_type == todo_type(),
        rows[i].record.status == Some(pending_status()) || rows[i].record.status == Some(
            done_status(),
        ),
    ensures
        rows[i].record.status == Some(done_status()) ==> toggle_rows(rows, id, t1, n1)[i].record.status
            == Some(pending_status()) && toggle_rows(rows, id, t1, n1)[i].record.completed_at
            is None,
        rows[i].record.status == Some(pending_status()) ==> toggle_rows(
            rows,
            id,
            t1,
            n1,
        )[i].record.status == Some(done_status()) && toggle_rows(
            rows,
            id,
            t1,
            n1,
        )[i].record.completed_at == Some(t1),
        toggle_rows(toggle_rows(rows, id, t1, n1), id, t2, n2)[i].record.status
            == rows[i].record.status,
{
    assert(is_todo_row(rows[i], id));
    assert(is_status_todo_row(rows[i], id));
    lemma_current_todo_status(rows, id, i);
    let once = toggle_rows(rows, id, t1, n1);
    assert(pending_status() != done_status()) by {
        assert(pending_status().len() != done_status().len());
    }
    assert(once[i].record.id == id);
    assert forall|a: int, b: int|
        0 <= a < once.len() && 0 <= b < once.len() && a != b implies #[trigger] once[a].record.id
        != #[trigger] once[b].record.id by {
        assert(rows[a].record.id != rows[b].record.id);
    }
    assert(is_todo_row(once[i], id));
    assert(is_status_todo_row(once[i], id));
    lemma_current_todo_status(once, id, i);
}

/// Toggling the check mark of a note, or of an id that is not stored,
/// changes nothing: notes take no part in completion.
pub proof fn law_toggle_leaves_notes(
    rows: Seq<RowView>,
    id: Seq<char>,
    completion_time: Seq<char>,
    now: Seq<char>,
)
    requires
        forall|k: int|
            0 <= k < rows.len() && #[trigger] rows[k].record.id == id ==> rows[k].record.record_type
                != todo_type(),
    ensures
        toggle_rows(rows, id, completion_time, now) == rows,
{
    if is_todo_id(rows, id) {
        let j = choose|j: int| 0 <= j < rows.len() && #[trigger] is_todo_row(rows[j], id);
        assert(rows[j].record.id == id);
    }
}

/// What was just uploaded is not read as still to upload, and a record
/// edited locally is read as to upload.
pub proof fn law_dirty_tracking(rows: Seq<RowView>, ids: Seq<Seq<char>>, rec: RecordView, i: int)
    requires
        0 <= i < rows.len(),
        rows[i].record.id == rec.id,
    ensures
        forall|k: int|
            0 <= k < dirty_records(mark_synced_rows(rows, ids)).len() ==> !ids.contains(
                (#[trigger] dirty_records(mark_synced_rows(rows, ids))[k]).id,
            ),
        dirty_records(crate::store::edit_rows(rows, rec)).contains(
            crate::store::edited_row(rows[i], rec).record,
        ),
{
    let after = mark_synced_rows(rows, ids);
    assert forall|k: int| 0 <= k < dirty_records(after).len() implies !ids.contains(
        (#[trigger] dirty_records(after)[k]).id,
    ) by {
        lemma_records_in_from_rows(after, ReadScope::Dirty, k);
        let j = choose|j: int|
            0 <= j < after.len() && crate::store::in_scope(ReadScope::Dirty, #[trigger] after[j])
                && after[j].record == dirty_records(after)[k];
        assert(after[j] == crate::store::synced_row(rows[j], ids));
    }
    let edited = crate::store::edit_rows(rows, rec);
    assert(edited[i] == crate::store::edited_row(rows[i], rec));
    lemma_row_in_records_in(edited, ReadScope::Dirty, i);
}

/// Every record of the batch is stored after inserting it unless present,
/// and stored rows are kept, in place.
proof fn lemma_insert_all_if_absent(rows: Seq<RowView>, recs: Seq<RecordView>)
    ensures
        insert_all_if_absent(rows, recs).len() >= rows.len(),
        forall|i: int|
            0 <= i < rows.len() ==> #[trigger] insert_all_if_absent(rows, recs)[i] == rows[i],
        forall|k: int|
            0 <= k < recs.len() ==> has_id(insert_all_if_absent(rows, recs), #[trigger] recs[k].id),
    decreases recs.len(),
{
    if recs.len() > 0 {
        let prev = insert_all_if_absent(rows, recs.drop_last());
        lemma_insert_all_if_absent(rows, recs.drop_last());
        let after = insert_if_absent(prev, recs.last());
        assert forall|k: int| 0 <= k < recs.len() implies has_id(after, #[trigger] recs[k].id) by {
            if k < recs.len() - 1 {
                assert(recs.drop_last()[k] == recs[k]);
                assert(has_id(prev, recs[k].id));
                let j = choose|j: int| 0 <= j < prev.len() && #[trigger] prev[j].record.id
                    == recs[k].id;
                assert(after[j] == prev[j]);
                assert(has_id_before(after, recs[k].id, after.len() as int));
            } else if !has_id(prev, recs.last().id) {
                assert(after[prev.len() as int].record.id == recs.last().id);
                assert(has_id_before(after, recs[k].id, after.len() as int));
            }
        }
    }
}

/// Inserting records whose ids are all stored changes nothing.
proof fn lemma_insert_all_present_noop(rows: Seq<RowView>, recs: Seq<RecordView>)
    requires
        forall|k: int| 0 <= k < recs.len() ==> has_id(rows, #[trigger] recs[k].id),
    ensures
        insert_all_if_absent(rows, recs) == rows,
    decreases recs.len(),
{
    if recs.len() > 0 {
        assert forall|k: int| 0 <= k < recs.drop_last().len() implies has_id(
            rows,
            #[trigger] recs.drop_last()[k].id,
        ) by {
            assert(recs.drop_last()[k] == recs[k]);
        }
        lemma_insert_all_present_noop(rows, recs.drop_last());
        assert(has_id(rows, recs[recs.len() - 1].id));
    }
}

/// Importing records kept by an earlier version never overwrites a stored
/// record (it only repairs to-do statuses), and importing the same records
/// again changes nothing.
pub proof fn law_migrate(rows: Seq<RowView>, recs: Seq<RecordView>)
    ensures
        migrate_rows(rows, recs).len() >= rows.len(),
        forall|i: int|
            0 <= i < rows.len() ==> #[trigger] migrate_rows(rows, recs)[i] == repair_row(rows[i]),
        migrate_rows(migrate_rows(rows, recs), recs) == migrate_rows(rows, recs),
{
    let ins = insert_all_if_absent(rows, recs);
    lemma_insert_all_if_absent(rows, recs);
    let once = repair_rows(ins);
    assert forall|i: int| 0 <= i < rows.len() implies #[trigger] once[i] == repair_row(rows[i]) by {
        assert(once[i] == repair_row(ins[i]));
    }
    assert forall|k: int| 0 <= k < recs.len() implies has_id(once, #[trigger] recs[k].id) by {
        let j = choose|j: int| 0 <= j < ins.len() && #[trigger] ins[j].record.id == recs[k].id;
        assert(once.len() == ins.len());
        assert(once[j] == repair_row(ins[j]));
        assert(once[j].record.id == recs[k].id);
        assert(has_id_before(once, recs[k].id, once.len() as int));
    }
    lemma_insert_all_present_noop(once, recs);
    law_repair_complete(ins);
}

/// The text stored for a sync status reads back as that status.
pub proof fn law_sync_status_round_trip(s: SyncStatus)
    ensures
        sync_status_of(Some(sync_status_text(s))) == s,
{
    assert(crate::schema::dirty_text() != crate::schema::synced_text()) by {
        assert(crate::schema::dirty_text().len() != crate::schema::synced_text().len());
    }
}

/// Once the missing sync columns are added, the table needs no further
/// change.
pub proof fn law_schema_complete(columns: Seq<Seq<char>>)
    ensures
        sync_column_changes(
            columns + sync_column_changes(columns).map_values(|c| added_column(c)),
        ).len() == 0,
{
    let changes = sync_column_changes(columns);
    let added = changes.map_values(|c| added_column(c));
    let all = columns + added;
    if !columns.contains(crate::schema::deleted_at_column()) {
        assert(changes[0] == crate::schema::SchemaChange::AddDeletedAt);
        assert(all[columns.len() as int] == crate::schema::deleted_at_column());
    } else {
        let k = choose|k: int| 0 <= k < columns.len() && columns[k]
            == crate::schema::deleted_at_column();
        assert(all[k] == columns[k]);
    }
    if !columns.contains(crate::schema::sync_status_column()) {
        let last = changes.len() - 1;
        assert(changes[last] == crate::schema::SchemaChange::AddSyncStatus);
        assert(all[columns.len() + last] == crate::schema::sync_status_column());
    } else {
        let k = choose|k: int| 0 <= k < columns.len() && columns[k]
            == crate::schema::sync_status_column();
        assert(all[k] == columns[k]);
    }
    assert(sync_column_changes(all) =~= Seq::<crate::schema::SchemaChange>::empty());
}

/// The watcher restores a window only when it is minimised in the
/// foreground, its minimisation is not one the user asked for, and it has
/// been seen so for at least `RESTORE_AFTER_MS`; the first look at such a
/// window never restores it.
pub proof fn law_watch_restores_only_after_delay(
    s: WatchState,
    minimized: bool,
    foreground: bool,
    now: u64,
)
    ensures
        watch_next(s, minimized, foreground, now).restore ==> minimized && foreground
            && !s.restore_guard && (s.minimized_since_ms matches Some(t) && elapsed_ms(now, t)
            >= RESTORE_AFTER_MS),
        !(minimized && foreground) ==> watch_next(
            s,
            minimized,
            foreground,
            now,
        ).state.minimized_since_ms is None,
{
}

/// What the watcher remembers before a look is the time of a look in an
/// unbroken run of waiting looks that reaches up to it.
proof fn lemma_since_from_run(looks: Seq<Look>, n: int, x: u64)
    requires
        0 <= n <= looks.len(),
        since_before(looks, n) == Some(x),
    ensures
        exists|s: int|
            0 <= s < n && #[trigger] looks[s].now == x && forall|i: int|
                s <= i < n ==> waiting(#[trigger] looks[i]),
    decreases n,
{
    let prev = since_before(looks, n - 1);
    match prev {
        Some(y) => {
            if y == x {
                lemma_since_from_run(looks, n - 1, x);
                let s = choose|s: int|
                    0 <= s < n - 1 && #[trigger] looks[s].now == x && forall|i: int|
                        s <= i < n - 1 ==> waiting(#[trigger] looks[i]);
                assert forall|i: int| s <= i < n implies waiting(#[trigger] looks[i]) by {
                    if i < n - 1 {
                        assert(waiting(looks[i]));
                    }
                }
            } else {
                assert(looks[n - 1].now == x);
                assert forall|i: int| n - 1 <= i < n implies waiting(#[trigger] looks[i]) by {
                    assert(i == n - 1);
                }
            }
        },
        None => {
            assert(looks[n - 1].now == x);
            assert forall|i: int| n - 1 <= i < n implies waiting(#[trigger] looks[i]) by {
                assert(i == n - 1);
            }
        },
    }
}

/// Over any run of looks, the watcher restores the window only at a look
/// where it is minimised in the foreground with the guard down, and only
/// when an earlier look began an unbroken run of such looks at least
/// `RESTORE_AFTER_MS` before.
pub proof fn law_watch_run_restores_only_after_delay(looks: Seq<Look>, t: int)
    requires
        0 <= t < looks.len(),
        restores_at(looks, t),
    ensures
        waiting(looks[t]),
        exists|s: int|
            0 <= s < t && elapsed_ms(looks[t].now, #[trigger] looks[s].now) >= RESTORE_AFTER_MS
                && forall|i: int| s <= i <= t ==> waiting(#[trigger] looks[i]),
{
    match since_before(looks, t) {
        Some(x) => {
            lemma_since_from_run(looks, t, x);
            let s = choose|s: int|
                0 <= s < t && #[trigger] looks[s].now == x && forall|i: int|
                    s <= i < t ==> waiting(#[trigger] looks[i]);
            assert forall|i: int| s <= i <= t implies waiting(#[trigger] looks[i]) by {
                if i < t {
                    assert(waiting(looks[i]));
                }
            }
            assert(elapsed_ms(looks[t].now, looks[s].now) >= RESTORE_AFTER_MS);
        },
        None => {},
    }
}

/// Within a run of waiting looks that starts at look `s`, the watcher counts
/// from look `s`: it does not restore while less than `RESTORE_AFTER_MS`
/// has passed since look `s`, and remembers look `s` meanwhile.
proof fn lemma_run_counts_from_start(looks: Seq<Look>, s: int, t: int, k: int)
    requires
        0 <= s <= k <= t < looks.len(),
        s == 0 || !waiting(looks[s - 1]),
        forall|i: int| s <= i <= t ==> waiting(#[trigger] looks[i]),
        forall|i: int| s <= i < t ==> elapsed_ms(#[trigger] looks[i].now, looks[s].now) < RESTORE_AFTER_MS,
    ensures
        since_before(looks, k) == (if k == s { None } else { Some(looks[s].now) }),
        k < t ==> !restores_at(looks, k),
    decreases k - s,
{
    if k > s {
        lemma_run_counts_from_start(looks, s, t, k - 1);
        assert(waiting(looks[k - 1]));
        assert(elapsed_ms(looks[k - 1].now, looks[s].now) < RESTORE_AFTER_MS);
    }
    assert(waiting(looks[k]));
    if k < t {
        assert(elapsed_ms(looks[k].now, looks[s].now) < RESTORE_AFTER_MS);
    }
}

/// A window left minimised in the foreground, with the guard down, from
/// look `s` on (the look before `s`, if any, saw otherwise) is restored at
/// the first look `t` at which `RESTORE_AFTER_MS` have passed since look
/// `s`, and not before; after restoring, the wait starts over.
pub proof fn law_watch_run_restores_after_delay(looks: Seq<Look>, s: int, t: int)
    requires
        0 <= s <= t < looks.len(),
        s == 0 || !waiting(looks[s - 1]),
        forall|i: int| s <= i <= t ==> waiting(#[trigger] looks[i]),
        forall|i: int| s <= i < t ==> elapsed_ms(#[trigger] looks[i].now, looks[s].now) < RESTORE_AFTER_MS,
    ensures
        forall|i: int| s <= i < t ==> !#[trigger] restores_at(looks, i),
        restores_at(looks, t) == (elapsed_ms(looks[t].now, looks[s].now) >= RESTORE_AFTER_MS),
        restores_at(looks, t) ==> since_before(looks, t + 1) is None,
{
    assert forall|i: int| s <= i < t implies !#[trigger] restores_at(looks, i) by {
        lemma_run_counts_from_start(looks, s, t, i);
    }
    lemma_run_counts_from_start(looks, s, t, t);
    assert(waiting(looks[t]));
}

/// Whether a record is not deleted.
pub open spec fn undeleted() -> spec_fn(RecordView) -> bool {
    |r: RecordView| r.deleted_at is None
}

/// What the user sees is every record, tombstones included, with the
/// deleted ones left out, in the same order.
pub proof fn law_visible_is_undeleted(rows: Seq<RowView>)
    ensures
        visible_records(rows) == sync_records(rows).filter(undeleted()),
    decreases rows.len(),
{
    reveal(Seq::filter);
    if rows.len() > 0 {
        law_visible_is_undeleted(rows.drop_last());
        assert(sync_records(rows).drop_last() =~= sync_records(rows.drop_last()));
        assert(sync_records(rows).last() == rows.last().record);
    } else {
        assert(sync_records(rows) =~= Seq::<RecordView>::empty());
    }
}

/// A record just added is read back: it is the last record synchronised,
/// it is among the records to upload, and the user sees it unless it is a
/// tombstone.
pub proof fn law_add_read_back(rows: Seq<RowView>, rec: RecordView)
    ensures
        sync_records(rows.push(new_row(rec, SyncStatus::Dirty))).last() == rec,
        dirty_records(rows.push(new_row(rec, SyncStatus::Dirty))).contains(rec),
        rec.deleted_at is None ==> visible_records(rows.push(new_row(rec, SyncStatus::Dirty))).contains(rec),
{
    let after = rows.push(new_row(rec, SyncStatus::Dirty));
    lemma_row_in_records_in(after, ReadScope::Dirty, rows.len() as int);
    if rec.deleted_at is None {
        lemma_row_in_records_in(after, ReadScope::Visible, rows.len() as int);
    }
}

/// Rollover leaves notes, finished to-dos and deleted records as they were.
pub proof fn law_rollover_leaves_others(rows: Seq<RowView>, today: Seq<char>, now: Seq<char>, k: int)
    requires
        0 <= k < rows.len(),
        rows[k].record.record_type != todo_type() || rows[k].record.status == Some(done_status())
            || rows[k].record.deleted_at is Some,
    ensures
        rollover_rows(rows, today, now)[k] == rows[k],
{
    assert(pending_status() != done_status()) by {
        assert(pending_status().len() != done_status().len());
    }
    assert(rollover_rows(rows, today, now)[k] == rollover_row(rows[k], today, now));
}

/// A remote deletion wins over an older local copy: once a remote tombstone
/// updated strictly later than the local copy (or with no local copy) is
/// merged, the user no longer sees the record.
pub proof fn law_remote_tombstone_hides(rows: Seq<RowView>, rec: RecordView)
    requires
        ids_distinct(rows),
        rec.deleted_at is Some,
        forall|i: int|
            0 <= i < rows.len() && #[trigger] rows[i].record.id == rec.id ==> text_less(
                rows[i].record.updated_at,
                rec.updated_at,
            ),
    ensures
        forall|k: int|
            0 <= k < visible_records(merge_remote(rows, rec)).len() ==> (
            #[trigger] visible_records(merge_remote(rows, rec))[k]).id != rec.id,
{
    let after = merge_remote(rows, rec);
    assert forall|k: int|
        0 <= k < visible_records(after).len() implies (#[trigger] visible_records(
        after,
    )[k]).id != rec.id by {
        lemma_records_in_from_rows(after, ReadScope::Visible, k);
        let j = choose|j: int|
            0 <= j < after.len() && crate::store::in_scope(ReadScope::Visible, #[trigger] after[j])
                && after[j].record == visible_records(after)[k];
        if has_id(rows, rec.id) {
            assert(after[j] == merge_row(rows[j], rec));
        } else if j < rows.len() {
            assert(after[j] == rows[j]);
            if rows[j].record.id == rec.id {
                assert(has_id_before(rows, rec.id, rows.len() as int));
            }
        }
    }
}

/// Whether rollover to `today` at `now` changes a row.
pub open spec fn moved_by_rollover(today: Seq<char>, now: Seq<char>) -> spec_fn(RowView) -> bool {
    |r: RowView| rollover_row(r, today, now) != r
}

proof fn lemma_count_overdue_is_moved(rows: Seq<RowView>, today: Seq<char>, now: Seq<char>)
    requires
        forall|k: int|
            0 <= k < rows.len() ==> (rollover_row(#[trigger] rows[k], today, now) != rows[k]
                <==> is_overdue(rows[k], today)),
    ensures
        count_overdue(rows, today) == rows.filter(moved_by_rollover(today, now)).len(),
    decreases rows.len(),
{
    reveal(Seq::filter);
    if rows.len() > 0 {
        assert forall|k: int| 0 <= k < rows.drop_last().len() implies (rollover_row(
            #[trigger] rows.drop_last()[k],
            today,
            now,
        ) != rows.drop_last()[k] <==> is_overdue(rows.drop_last()[k], today)) by {
            assert(rows.drop_last()[k] == rows[k]);
        }
        lemma_count_overdue_is_moved(rows.drop_last(), today, now);
        assert(rows.last() == rows[rows.len() - 1]);
    }
}

/// Rollover moves exactly the pending to-dos, not deleted, of a day before
/// `today` (each to `today`, as pending, remembering the first day it
/// belonged to, updated at `now` and to be uploaded); every other row stays
/// as it was; and the count it returns is the number of rows it changed.
pub proof fn law_rollover_moves_and_counts(rows: Seq<RowView>, today: Seq<char>, now: Seq<char>)
    ensures
        rollover_rows(rows, today, now).len() == rows.len(),
        forall|k: int|
            0 <= k < rows.len() && rows[k].record.record_type == todo_type() && (
            rows[k].record.status == Some(pending_status()) || (rows[k].record.status is None
                && rows[k].record.completed_at is None)) && rows[k].record.deleted_at is None
                && text_less(rows[k].record.date, today) ==> #[trigger] rollover_rows(
                rows,
                today,
                now,
            )[k] == (RowView {
                record: RecordView {
                    date: today,
                    status: Some(pending_status()),
                    rolled_over_from_date: Some(
                        match rows[k].record.rolled_over_from_date {
                            Some(d) => d,
                            None => rows[k].record.date,
                        },
                    ),
                    updated_at: now,
                    ..rows[k].record
                },
                sync: SyncStatus::Dirty,
            }),
        forall|k: int|
            0 <= k < rows.len() && !(rows[k].record.record_type == todo_type() && (
            rows[k].record.status == Some(pending_status()) || (rows[k].record.status is None
                && rows[k].record.completed_at is None)) && rows[k].record.deleted_at is None
                && text_less(rows[k].record.date, today)) ==> #[trigger] rollover_rows(
                rows,
                today,
                now,
            )[k] == rows[k],
        forall|k: int|
            0 <= k < rows.len() ==> (#[trigger] rollover_rows(rows, today, now)[k] != rows[k]
                <==> is_overdue(rows[k], today)),
        count_overdue(rows, today) == rows.filter(moved_by_rollover(today, now)).len(),
{
    lemma_text_less_irreflexive(today);
    assert forall|k: int| 0 <= k < rows.len() implies (rollover_row(
        #[trigger] rows[k],
        today,
        now,
    ) != rows[k] <==> is_overdue(rows[k], today)) by {
        if is_overdue(rows[k], today) {
            assert(rollover_row(rows[k], today, now).record.date == today);
            assert(rows[k].record.date != today);
        }
    }
    assert forall|k: int| 0 <= k < rows.len() implies (#[trigger] rollover_rows(
        rows,
        today,
        now,
    )[k] != rows[k] <==> is_overdue(rows[k], today)) by {
        assert(rollover_rows(rows, today, now)[k] == rollover_row(rows[k], today, now));
    }
    lemma_count_overdue_is_moved(rows, today, now);
}

/// Whether status repair changes a row.
pub open spec fn changed_by_repair() -> spec_fn(RowView) -> bool {
    |r: RowView| repair_row(r) != r
}

proof fn lemma_count_repair_is_changed(rows: Seq<RowView>)
    requires
        forall|k: int|
            0 <= k < rows.len() ==> (repair_row(#[trigger] rows[k]) != rows[k]
                <==> needs_status_repair(rows[k])),
    ensures
        count_needing_repair(rows) == rows.filter(changed_by_repair()).len(),
    decreases rows.len(),
{
    reveal(Seq::filter);
    if rows.len() > 0 {
        assert forall|k: int| 0 <= k < rows.drop_last().len() implies (repair_row(
            #[trigger] rows.drop_last()[k],
        ) != rows.drop_last()[k] <==> needs_status_repair(rows.drop_last()[k])) by {
            assert(rows.drop_last()[k] == rows[k]);
        }
        lemma_count_repair_is_changed(rows.drop_last());
        assert(rows.last() == rows[rows.len() - 1]);
    }
}

/// Status repair gives every to-do whose status is neither `pending` nor
/// `done` (none included) the status `done` when it has a completion time
/// and `pending` when it has none, and changes nothing else; every other
/// row stays as it was; the count it returns is the number of rows changed.
pub proof fn law_repair_by_completion(rows: Seq<RowView>)
    ensures
        repair_rows(rows).len() == rows.len(),
        forall|k: int|
            0 <= k < rows.len() && rows[k].record.record_type == todo_type()
                && rows[k].record.status != Some(pending_status()) && rows[k].record.status
                != Some(done_status()) ==> #[trigger] repair_rows(rows)[k] == (RowView {
                record: RecordView {
                    status: Some(
                        if rows[k].record.completed_at is Some {
                            done_status()
                        } else {
                            pending_status()
                        },
                    ),
                    ..rows[k].record
                },
                sync: rows[k].sync,
            }),
        forall|k: int|
            0 <= k < rows.len() && !(rows[k].record.record_type == todo_type()
                && rows[k].record.status != Some(pending_status()) && rows[k].record.status
                != Some(done_status())) ==> #[trigger] repair_rows(rows)[k] == rows[k],
        count_needing_repair(rows) == rows.filter(changed_by_repair()).len(),
{
    assert(pending_status() != done_status()) by {
        assert(pending_status().len() != done_status().len());
    }
    assert forall|k: int| 0 <= k < rows.len() implies (repair_row(#[trigger] rows[k]) != rows[k]
        <==> needs_status_repair(rows[k])) by {
        if needs_status_repair(rows[k]) {
            assert(repair_row(rows[k]).record.status != rows[k].record.status);
        }
    }
    lemma_count_repair_is_changed(rows);
}

/// Importing a record whose id is not stored appends it exactly as given,
/// every field kept, to be uploaded; a record whose id is stored changes
/// nothing.
pub proof fn law_import_keeps_record(rows: Seq<RowView>, rec: RecordView)
    ensures
        (forall|k: int| 0 <= k < rows.len() ==> #[trigger] rows[k].record.id != rec.id)
            ==> insert_if_absent(rows, rec) == rows.push(RowView { record: rec, sync: SyncStatus::Dirty }),
        (exists|k: int| 0 <= k < rows.len() && #[trigger] rows[k].record.id == rec.id)
            ==> insert_if_absent(rows, rec) == rows,
{
    if exists|k: int| 0 <= k < rows.len() && #[trigger] rows[k].record.id == rec.id {
        let k = choose|k: int| 0 <= k < rows.len() && #[trigger] rows[k].record.id == rec.id;
        assert(has_id_before(rows, rec.id, rows.len() as int));
    }
}

/// Importing records whose ids are all new and distinct appends them all,
/// in order and with every field kept, to be uploaded, and then repairs
/// to-do statuses of the whole table.
pub proof fn law_migrate_appends_new(rows: Seq<RowView>, recs: Seq<RecordView>)
    requires
        forall|i: int, k: int|
            0 <= i < rows.len() && 0 <= k < recs.len() ==> #[trigger] rows[i].record.id
                != #[trigger] recs[k].id,
        forall|j: int, k: int|
            0 <= j < k < recs.len() ==> #[trigger] recs[j].id != #[trigger] recs[k].id,
    ensures
        migrate_rows(rows, recs) == repair_rows(
            rows + recs.map_values(|r: RecordView| RowView { record: r, sync: SyncStatus::Dirty }),
        ),
{
    lemma_insert_all_fresh(rows, recs);
}

proof fn lemma_insert_all_fresh(rows: Seq<RowView>, recs: Seq<RecordView>)
    requires
        forall|i: int, k: int|
            0 <= i < rows.len() && 0 <= k < recs.len() ==> #[trigger] rows[i].record.id
                != #[trigger] recs[k].id,
        forall|j: int, k: int|
            0 <= j < k < recs.len() ==> #[trigger] recs[j].id != #[trigger] recs[k].id,
    ensures
        insert_all_if_absent(rows, recs) == rows + recs.map_values(
            |r: RecordView| RowView { record: r, sync: SyncStatus::Dirty },
        ),
    decreases recs.len(),
{
    if recs.len() > 0 {
        let init = recs.drop_last();
        assert forall|i: int, k: int|
            0 <= i < rows.len() && 0 <= k < init.len() implies #[trigger] rows[i].record.id
            != #[trigger] init[k].id by {
            assert(init[k] == recs[k]);
        }
        assert forall|j: int, k: int| 0 <= j < k < init.len() implies #[trigger] init[j].id
            != #[trigger] init[k].id by {
            assert(init[j] == recs[j]);
            assert(init[k] == recs[k]);
        }
        lemma_insert_all_fresh(rows, init);
        let prev = rows + init.map_values(|r: RecordView| RowView { record: r, sync: SyncStatus::Dirty });
        let last = recs.last();
        if has_id(prev, last.id) {
            let j = choose|j: int| 0 <= j < prev.len() && #[trigger] prev[j].record.id == last.id;
            if j < rows.len() {
                assert(prev[j] == rows[j]);
                assert(rows[j].record.id != recs[recs.len() - 1].id);
            } else {
                assert(prev[j].record == init[j - rows.len()]);
                assert(init[j - rows.len()] == recs[j - rows.len()]);
                assert(recs[j - rows.len()].id != recs[recs.len() - 1].id);
            }
        }
        assert(insert_if_absent(prev, last) == prev.push(new_row(last, SyncStatus::Dirty)));
        assert(prev.push(new_row(last, SyncStatus::Dirty)) =~= rows + recs.map_values(
            |r: RecordView| RowView { record: r, sync: SyncStatus::Dirty },
        ));
    } else {
        assert(rows + recs.map_values(|r: RecordView| RowView { record: r, sync: SyncStatus::Dirty })
            =~= rows);
    }
}

/// A local edit of a stored record gives its row every field of the edit
/// but the id and the creation time, and marks it to be uploaded; rows of
/// other ids stay as they were.
pub proof fn law_edit_takes_fields(rows: Seq<RowView>, rec: RecordView)
    ensures
        edit_rows(rows, rec).len() == rows.len(),
        forall|k: int|
            0 <= k < rows.len() && rows[k].record.id == rec.id ==> #[trigger] edit_rows(
                rows,
                rec,
            )[k] == (RowView {
                record: RecordView {
                    id: rows[k].record.id,
                    created_at: rows[k].record.created_at,
                    ..rec
                },
                sync: SyncStatus::Dirty,
            }),
        forall|k: int|
            0 <= k < rows.len() && rows[k].record.id != rec.id ==> #[trigger] edit_rows(
                rows,
                rec,
            )[k] == rows[k],
{
    assert forall|k: int| 0 <= k < rows.len() && rows[k].record.id == rec.id implies #[trigger] edit_rows(
        rows,
        rec,
    )[k] == (RowView {
        record: RecordView { id: rows[k].record.id, created_at: rows[k].record.created_at, ..rec },
        sync: SyncStatus::Dirty,
    }) by {
        assert(edit_rows(rows, rec)[k] == edited_row(rows[k], rec));
    }
    assert forall|k: int| 0 <= k < rows.len() && rows[k].record.id != rec.id implies #[trigger] edit_rows(
        rows,
        rec,
    )[k] == rows[k] by {
        assert(edit_rows(rows, rec)[k] == edited_row(rows[k], rec));
    }
}

/// Whether a row still has to be uploaded.
pub open spec fn is_dirty() -> spec_fn(RowView) -> bool {
    |r: RowView| r.sync == SyncStatus::Dirty
}

/// The records still to upload are the records of the dirty rows, in row
/// order.
pub proof fn law_dirty_is_filtered(rows: Seq<RowView>)
    ensures
        dirty_records(rows) == rows.filter(is_dirty()).map_values(|r: RowView| r.record),
    decreases rows.len(),
{
    reveal(Seq::filter);
    if rows.len() > 0 {
        law_dirty_is_filtered(rows.drop_last());
        let f = rows.drop_last().filter(is_dirty());
        assert(f.push(rows.last()).map_values(|r: RowView| r.record) =~= f.map_values(
            |r: RowView| r.record,
        ).push(rows.last().record));
    } else {
        assert(rows.filter(is_dirty()).map_values(|r: RowView| r.record) =~= Seq::<
            RecordView,
        >::empty());
    }
}

/// Marking records as uploaded changes only the sync status, and only of the
/// rows whose ids were uploaded.
pub proof fn law_mark_synced_only_sync(rows: Seq<RowView>, ids: Seq<Seq<char>>)
    ensures
        mark_synced_rows(rows, ids).len() == rows.len(),
        forall|k: int|
            0 <= k < rows.len() && ids.contains(rows[k].record.id) ==> #[trigger] mark_synced_rows(
                rows,
                ids,
            )[k] == (RowView { record: rows[k].record, sync: SyncStatus::Synced }),
        forall|k: int|
            0 <= k < rows.len() && !ids.contains(rows[k].record.id) ==> #[trigger] mark_synced_rows(
                rows,
                ids,
            )[k] == rows[k],
{
    assert forall|k: int| 0 <= k < rows.len() implies #[trigger] mark_synced_rows(rows, ids)[k]
        == crate::store::synced_row(rows[k], ids) by {}
}

/// Soft deletion stamps the record of that id deleted and updated at `now`,
/// keeps all its other fields, marks it to be uploaded, and leaves every
/// other row as it was.
pub proof fn law_soft_delete_exact(rows: Seq<RowView>, id: Seq<char>, now: Seq<char>)
    ensures
        soft_delete_rows(rows, id, now).len() == rows.len(),
        forall|k: int|
            0 <= k < rows.len() && rows[k].record.id == id ==> #[trigger] soft_delete_rows(
                rows,
                id,
                now,
            )[k] == (RowView {
                record: RecordView { deleted_at: Some(now), updated_at: now, ..rows[k].record },
                sync: SyncStatus::Dirty,
            }),
        forall|k: int|
            0 <= k < rows.len() && rows[k].record.id != id ==> #[trigger] soft_delete_rows(
                rows,
                id,
                now,
            )[k] == rows[k],
{
    assert forall|k: int| 0 <= k < rows.len() implies #[trigger] soft_delete_rows(rows, id, now)[k]
        == soft_deleted_row(rows[k], id, now) by {}
}

/// Toggling a stored to-do changes only that to-do: a `done` to-do becomes
/// `pending` with no completion time, any other becomes `done` completed at
/// `completion_time`; it is stamped updated at `now`, keeps its other
/// fields and must be uploaded again.
pub proof fn law_toggle_exact(
    rows: Seq<RowView>,
    i: int,
    completion_time: Seq<char>,
    now: Seq<char>,
)
    requires
        ids_distinct(rows),
        0 <= i < rows.len(),
        rows[i].record.record_type == todo_type(),
    ensures
        toggle_rows(rows, rows[i].record.id, completion_time, now).len() == rows.len(),
        rows[i].record.status == Some(done_status()) ==> toggle_rows(
            rows,
            rows[i].record.id,
            completion_time,
            now,
        )[i] == (RowView {
            record: RecordView {
                status: Some(pending_status()),
                completed_at: None,
                updated_at: now,
                ..rows[i].record
            },
            sync: SyncStatus::Dirty,
        }),
        rows[i].record.status != Some(done_status()) ==> toggle_rows(
            rows,
            rows[i].record.id,
            completion_time,
            now,
        )[i] == (RowView {
            record: RecordView {
                status: Some(done_status()),
                completed_at: Some(completion_time),
                updated_at: now,
                ..rows[i].record
            },
            sync: SyncStatus::Dirty,
        }),
        forall|k: int|
            0 <= k < rows.len() && k != i ==> #[trigger] toggle_rows(
                rows,
                rows[i].record.id,
                completion_time,
                now,
            )[k] == rows[k],
{
    let id = rows[i].record.id;
    assert(is_todo_row(rows[i], id));
    if rows[i].record.status is Some {
        assert(is_status_todo_row(rows[i], id));
        lemma_current_todo_status(rows, id, i);
    } else {
        if exists|j: int| 0 <= j < rows.len() && #[trigger] is_status_todo_row(rows[j], id) {
            let j = choose|j: int| 0 <= j < rows.len() && #[trigger] is_status_todo_row(rows[j], id);
            assert(rows[j].record.id == rows[i].record.id);
        }
    }
    assert forall|k: int| 0 <= k < rows.len() && k != i implies #[trigger] toggle_rows(
        rows,
        id,
        completion_time,
        now,
    )[k] == rows[k] by {
        assert(rows[k].record.id != rows[i].record.id);
    }
}

/// Merging a remote record whose id is not stored appends it exactly as
/// received, marked as uploaded.
pub proof fn law_merge_adds_new(rows: Seq<RowView>, rec: RecordView)
    requires
        forall|k: int| 0 <= k < rows.len() ==> #[trigger] rows[k].record.id != rec.id,
    ensures
        merge_remote(rows, rec) == rows.push(RowView { record: rec, sync: SyncStatus::Synced }),
{
    if has_id(rows, rec.id) {
        let k = choose|k: int| 0 <= k < rows.len() && #[trigger] rows[k].record.id == rec.id;
        assert(rows[k].record.id != rec.id);
    }
}

} // verus!
