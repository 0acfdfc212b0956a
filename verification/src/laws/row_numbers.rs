//! Laws of row ids.

use vstd::prelude::*;

use crate::builder::{BuilderModel, NodeModel};
use crate::entry::{DataContentType, EntryModel, TrackingModel, TrackingStatus};
use crate::node_build::{build_done, with_final_statuses};
use crate::row_ids::{
    assigned_batches, assigned_entries, assigned_rows, batch_cursor_before, cursor_before,
    row_cursor_before, row_ids_fit, row_span, takes_row_ids,
};

verus! {

/// Whether no entry covers a negative number of rows.
pub open spec fn spans_are_natural(entries: Seq<EntryModel>) -> bool {
    forall|i: int| 0 <= i < entries.len() ==> row_span(#[trigger] entries[i]) >= 0
}

/// The number of row ids that the first `n` of some live data files take.
pub open spec fn rows_before(entries: Seq<EntryModel>, n: int) -> int
    decreases n,
{
    if n <= 0 {
        0
    } else {
        rows_before(entries, n - 1) + entries[n - 1].record_count
    }
}

/// Where an entry's range of row ids starts after assignment.
pub open spec fn first_id(entries: Seq<EntryModel>, start: int, i: int) -> int {
    match entries[i].tracking.first_row_id {
        Some(id) => id as int,
        None => cursor_before(entries, start, i),
    }
}

/// A first row id that is there stays.
pub proof fn law_existing_ids_stay(entries: Seq<EntryModel>, start: int, i: int)
    requires
        0 <= i < entries.len(),
        entries[i].tracking.first_row_id is Some,
    ensures
        assigned_entries(entries, start)[i] == entries[i],
{
}

/// Deleted entries and entries of other content keep what they have, and take no ids.
pub proof fn law_dead_entries_take_no_ids(entries: Seq<EntryModel>, start: int, i: int)
    requires
        0 <= i < entries.len(),
        !takes_row_ids(entries[i]),
    ensures
        assigned_entries(entries, start)[i] == entries[i],
        cursor_before(entries, start, i + 1) == cursor_before(entries, start, i),
{
}

/// Assignment changes nothing but first row ids.
pub proof fn law_assignment_changes_ids_alone(entries: Seq<EntryModel>, start: int, i: int)
    requires
        0 <= i < entries.len(),
    ensures
        ({
            let after = assigned_entries(entries, start)[i];
            after == EntryModel {
                tracking: crate::entry::TrackingModel {
                    first_row_id: after.tracking.first_row_id,
                    ..entries[i].tracking
                },
                ..entries[i]
            }
        }),
{
}

/// Assigning at once is as good as inheriting: where all entries are live data files without
/// ids, the id of a file is that of the manifest plus the records of the files before it.
pub proof fn law_ids_are_inherited(entries: Seq<EntryModel>, start: int, i: int)
    requires
        0 <= i <= entries.len(),
        row_ids_fit(entries, start),
        forall|j: int|
            0 <= j < entries.len() ==> (#[trigger] entries[j]).content_type
                == DataContentType::Data && entries[j].tracking.status != TrackingStatus::Deleted
                && entries[j].tracking.first_row_id is None,
    ensures
        cursor_before(entries, start, i) == start + rows_before(entries, i),
        i < entries.len() ==> assigned_entries(entries, start)[i].tracking.first_row_id == Some(
            (start + rows_before(entries, i)) as i64,
        ),
    decreases i,
{
    if i > 0 {
        law_ids_are_inherited(entries, start, i - 1);
        assert(entries[i - 1].content_type == DataContentType::Data);
    }
    if i < entries.len() {
        assert(entries[i].content_type == DataContentType::Data);
    }
}

/// The cursor never goes back.
pub proof fn law_cursor_never_goes_back(entries: Seq<EntryModel>, start: int, i: int, j: int)
    requires
        0 <= i <= j <= entries.len(),
        spans_are_natural(entries),
    ensures
        cursor_before(entries, start, i) <= cursor_before(entries, start, j),
    decreases j,
{
    if i < j {
        law_cursor_never_goes_back(entries, start, i, j - 1);
        assert(row_span(entries[j - 1]) >= 0);
    }
}

/// A range that is newly assigned starts behind the range of every entry before it, whether
/// that was newly assigned or not.
pub proof fn law_new_ranges_overlap_no_earlier_range(
    entries: Seq<EntryModel>,
    start: int,
    i: int,
    j: int,
)
    requires
        0 <= i < j < entries.len(),
        spans_are_natural(entries),
        takes_row_ids(entries[i]),
        takes_row_ids(entries[j]),
        entries[j].tracking.first_row_id is None,
    ensures
        first_id(entries, start, i) + row_span(entries[i]) <= first_id(entries, start, j),
{
    law_cursor_never_goes_back(entries, start, i + 1, j);
}

/// Newly assigned ranges start at or behind the cursor, so that they overlap no range below it.
pub proof fn law_new_ranges_start_at_the_cursor(entries: Seq<EntryModel>, start: int, j: int)
    requires
        0 <= j < entries.len(),
        spans_are_natural(entries),
        takes_row_ids(entries[j]),
        entries[j].tracking.first_row_id is None,
    ensures
        start <= first_id(entries, start, j),
        first_id(entries, start, j) + row_span(entries[j]) <= cursor_before(
            entries,
            start,
            entries.len() as int,
        ),
{
    law_cursor_never_goes_back(entries, start, 0, j);
    law_cursor_never_goes_back(entries, start, j + 1, entries.len() as int);
}

/// The cursor ends up behind every range, that of entries with ids included.
pub proof fn law_cursor_ends_behind_all_ranges(entries: Seq<EntryModel>, start: int, i: int)
    requires
        0 <= i < entries.len(),
        spans_are_natural(entries),
        takes_row_ids(entries[i]),
    ensures
        first_id(entries, start, i) + row_span(entries[i]) <= cursor_before(
            entries,
            start,
            entries.len() as int,
        ),
{
    law_cursor_never_goes_back(entries, start, i + 1, entries.len() as int);
}

/// Assigning a second time changes no id.
pub proof fn law_assignment_is_stable(
    entries: Seq<EntryModel>,
    start: int,
    again: int,
    i: int,
)
    requires
        0 <= i < entries.len(),
    ensures
        assigned_entries(assigned_entries(entries, start), again)[i] == assigned_entries(
            entries,
            start,
        )[i],
{
}

/// Rows of a transformed batch: a row without an id is given the cursor in front of it, one
/// with an id keeps it.
pub proof fn law_batch_rows_keep_ids(rows: Seq<EntryModel>, start: int, i: int)
    requires
        0 <= i < rows.len(),
    ensures
        rows[i].tracking.first_row_id is Some ==> assigned_rows(rows, start)[i] == rows[i],
        rows[i].tracking.first_row_id is None ==> assigned_rows(
            rows,
            start,
        )[i].tracking.first_row_id == Some(row_cursor_before(rows, start, i) as i64),
{
}

/// A row of a batch without an id takes as many ids as it has records; one with an id takes none.
/// Nothing but the first row id of a row changes.
pub proof fn law_batch_rows_take_their_records(rows: Seq<EntryModel>, start: int, i: int)
    requires
        0 <= i < rows.len(),
    ensures
        row_cursor_before(rows, start, 0) == start,
        row_cursor_before(rows, start, i + 1) == row_cursor_before(rows, start, i) + (
        if rows[i].tracking.first_row_id is None {
            rows[i].record_count as int
        } else {
            0int
        }),
        ({
            let after = assigned_rows(rows, start)[i];
            &&& after.tracking == TrackingModel {
                first_row_id: after.tracking.first_row_id,
                ..rows[i].tracking
            }
            &&& after == EntryModel { tracking: after.tracking, ..rows[i] }
        }),
{
}

/// Batches take row ids one after the other.
pub proof fn law_batches_take_ids_in_order(batches: Seq<Seq<EntryModel>>, start: int, b: int)
    requires
        0 <= b < batches.len(),
    ensures
        batch_cursor_before(batches, start, 0) == start,
        batch_cursor_before(batches, start, b + 1) == row_cursor_before(
            batches[b],
            batch_cursor_before(batches, start, b),
            batches[b].len() as int,
        ),
        assigned_batches(batches, start).len() == batches.len(),
        assigned_batches(batches, start)[b] == assigned_rows(
            batches[b],
            batch_cursor_before(batches, start, b),
        ),
{
}

/// The rows of a node are numbered without a gap: the batches go on where the entries end.
pub proof fn law_batches_go_on_where_entries_end(
    before: BuilderModel,
    snapshot_id: i64,
    start: int,
    after: BuilderModel,
    node: NodeModel,
    end: int,
    b: int,
    i: int,
)
    requires
        build_done(before, snapshot_id, start, after, node, end),
        0 <= b < before.batches.len(),
        0 <= i < before.batches[b].len(),
        before.batches[b][i].tracking.first_row_id is None,
    ensures
        ({
            let place = b + (if after.entries.len() == 0 {
                0int
            } else {
                1int
            });
            let cursor = cursor_before(
                with_final_statuses(before.entries, before.caches),
                start,
                before.entries.len() as int,
            );
            &&& node.data[place][i].tracking.first_row_id == Some(
                row_cursor_before(
                    before.batches[b],
                    batch_cursor_before(before.batches, cursor, b),
                    i,
                ) as i64,
            )
            &&& end == batch_cursor_before(before.batches, cursor, before.batches.len() as int)
        }),
{
}

} // verus!
