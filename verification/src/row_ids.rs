//! Row ids: the allocator, and how the ids of the entries of a node follow from it.

use vstd::prelude::*;

use crate::columns::SelectedColumns;
use crate::entry::{entry_models, ContentTreeNodeEntry, DataContentType, EntryModel, TrackingStatus};
use crate::schema::{long_type, DataType};

verus! {

/// Hands out ranges of row ids from a cursor upwards.
#[derive(Debug)]
pub struct CursorRowIdAllocator {
    cursor: i64,
}

impl View for CursorRowIdAllocator {
    type V = int;

    closed spec fn view(&self) -> int {
        self.cursor as int
    }
}

impl CursorRowIdAllocator {
    /// An allocator whose first id is `start`.
    pub fn new(start: i64) -> (allocator: Self)
        ensures
            allocator@ == start,
    {
        CursorRowIdAllocator { cursor: start }
    }

    /// The next id.
    pub fn current(&self) -> (id: i64)
        ensures
            id == self@,
    {
        self.cursor
    }

    /// Reserves `count` ids and returns the first of them.
    pub fn reserve_row_ids(&mut self, count: i64) -> (first: i64)
        requires
            i64::MIN <= old(self)@ + count <= i64::MAX,
        ensures
            first == old(self)@,
            final(self)@ == old(self)@ + count,
    {
        let first = self.cursor;
        self.cursor = self.cursor + count;
        first
    }

    /// Reserves all ids below `end` and returns the first of them.
    pub fn reserve_until(&mut self, end: i64) -> (first: i64)
        ensures
            first == old(self)@,
            final(self)@ == end,
    {
        let first = self.cursor;
        self.cursor = end;
        first
    }

    /// Moves the cursor up to `bound` where it is below.
    pub fn advance_to(&mut self, bound: i64)
        ensures
            final(self)@ == (if old(self)@ < bound {
                bound as int
            } else {
                old(self)@
            }),
    {
        if self.cursor < bound {
            self.cursor = bound;
        }
    }
}

/// Whether `n` is a 64-bit number.
pub open spec fn is_i64(n: int) -> bool {
    i64::MIN <= n <= i64::MAX
}

/// Whether an entry takes part in row id assignment: live data files and data manifests.
pub open spec fn takes_row_ids(entry: EntryModel) -> bool {
    &&& entry.tracking.status != TrackingStatus::Deleted
    &&& entry.content_type == DataContentType::Data || entry.content_type
        == DataContentType::DataManifest
}

/// The number of row ids that an entry covers: the records of a data file, the added and
/// existing rows of a manifest.
pub open spec fn row_span(entry: EntryModel) -> int {
    if entry.content_type == DataContentType::Data {
        entry.record_count as int
    } else {
        match entry.manifest_info {
            Some(info) => info.added_rows_count + info.existing_rows_count,
            None => 0,
        }
    }
}

/// The cursor after an entry: past the range that the entry is given, or past the range that
/// it has already.
pub open spec fn cursor_after(entry: EntryModel, cursor: int) -> int {
    if !takes_row_ids(entry) {
        cursor
    } else {
        match entry.tracking.first_row_id {
            None => cursor + row_span(entry),
            Some(id) => if cursor < id + row_span(entry) {
                id + row_span(entry)
            } else {
                cursor
            },
        }
    }
}

/// The cursor in front of entry `n`, which `start` was in front of entry 0.
pub open spec fn cursor_before(entries: Seq<EntryModel>, start: int, n: int) -> int
    decreases n,
{
    if n <= 0 {
        start
    } else {
        cursor_after(entries[n - 1], cursor_before(entries, start, n - 1))
    }
}

/// The entry with its first row id, given the cursor in front of it.
pub open spec fn assigned_entry(entry: EntryModel, cursor: int) -> EntryModel {
    if takes_row_ids(entry) && entry.tracking.first_row_id is None {
        entry.with_first_row_id(cursor as i64)
    } else {
        entry
    }
}

/// The entries with their first row ids.
pub open spec fn assigned_entries(entries: Seq<EntryModel>, start: int) -> Seq<EntryModel> {
    Seq::new(entries.len(), |i: int| assigned_entry(entries[i], cursor_before(entries, start, i)))
}

/// The cursor stays a 64-bit number all along.
pub open spec fn row_ids_fit(entries: Seq<EntryModel>, start: int) -> bool {
    forall|n: int|
        0 <= n <= entries.len() ==> is_i64(#[trigger] cursor_before(entries, start, n))
}

/// The cursor after a row of a transformed batch: only a row without an id is given one, and
/// it takes as many as it has records.
pub open spec fn row_cursor_after(row: EntryModel, cursor: int) -> int {
    match row.tracking.first_row_id {
        Some(_) => cursor,
        None => cursor + row.record_count,
    }
}

/// The cursor in front of row `n` of a batch.
pub open spec fn row_cursor_before(rows: Seq<EntryModel>, start: int, n: int) -> int
    decreases n,
{
    if n <= 0 {
        start
    } else {
        row_cursor_after(rows[n - 1], row_cursor_before(rows, start, n - 1))
    }
}

/// The cursor in front of batch `n`.
pub open spec fn batch_cursor_before(batches: Seq<Seq<EntryModel>>, start: int, n: int) -> int
    decreases n,
{
    if n <= 0 {
        start
    } else {
        row_cursor_before(
            batches[n - 1],
            batch_cursor_before(batches, start, n - 1),
            batches[n - 1].len() as int,
        )
    }
}

/// The row with its first row id.
pub open spec fn assigned_row(row: EntryModel, cursor: int) -> EntryModel {
    match row.tracking.first_row_id {
        Some(_) => row,
        None => row.with_first_row_id(cursor as i64),
    }
}

/// The rows of a batch with their first row ids.
pub open spec fn assigned_rows(rows: Seq<EntryModel>, start: int) -> Seq<EntryModel> {
    Seq::new(rows.len(), |i: int| assigned_row(rows[i], row_cursor_before(rows, start, i)))
}

/// The batches with their first row ids.
pub open spec fn assigned_batches(batches: Seq<Seq<EntryModel>>, start: int) -> Seq<
    Seq<EntryModel>,
> {
    Seq::new(
        batches.len(),
        |i: int| assigned_rows(batches[i], batch_cursor_before(batches, start, i)),
    )
}

/// The cursor stays a 64-bit number over all rows of all batches.
pub open spec fn batch_row_ids_fit(batches: Seq<Seq<EntryModel>>, start: int) -> bool {
    forall|b: int, n: int|
        0 <= b < batches.len() && 0 <= n <= batches[b].len() ==> is_i64(
            #[trigger] row_cursor_before(batches[b], batch_cursor_before(batches, start, b), n),
        )
}

/// Gives first row ids to the entries that need one.
///
/// Deleted entries keep what they have and take no ids. A data file takes its records, a data
/// manifest its added and existing rows. An entry that has an id keeps it, and the cursor is
/// moved past its range.
pub fn assign_row_ids(
    entries: &mut Vec<ContentTreeNodeEntry>,
    allocator: &mut CursorRowIdAllocator,
)
    requires
        row_ids_fit(entry_models(old(entries)@), old(allocator)@),
    ensures
        entry_models(final(entries)@) == assigned_entries(
            entry_models(old(entries)@),
            old(allocator)@,
        ),
        final(allocator)@ == cursor_before(
            entry_models(old(entries)@),
            old(allocator)@,
            old(entries)@.len() as int,
        ),
{
    let ghost before = entry_models(entries@);
    let ghost start = allocator@;
    let mut i: usize = 0;
    while i < entries.len()
        invariant
            i <= entries@.len(),
            entries@.len() == before.len(),
            row_ids_fit(before, start),
            allocator@ == cursor_before(before, start, i as int),
            forall|j: int|
                0 <= j < i ==> (#[trigger] entries@[j])@ == assigned_entries(before, start)[j],
            forall|j: int| i <= j < before.len() ==> (#[trigger] entries@[j])@ == before[j],
        decreases entries@.len() - i,
    {
        assert(is_i64(cursor_before(before, start, i as int)));
        assert(is_i64(cursor_before(before, start, i + 1)));
        let takes = match entries[i].tracking.status {
            TrackingStatus::Deleted => false,
            _ => match entries[i].content_type {
                DataContentType::Data => true,
                DataContentType::DataManifest => true,
                _ => false,
            },
        };
        if takes {
            let span: i128 = match entries[i].content_type {
                DataContentType::Data => entries[i].record_count as i128,
                _ => match &entries[i].manifest_info {
                    Some(info) => info.added_rows_count as i128 + info.existing_rows_count as i128,
                    None => 0,
                },
            };
            match entries[i].tracking.first_row_id {
                None => {
                    let end: i128 = allocator.current() as i128 + span;
                    let first = allocator.reserve_until(end as i64);
                    entries[i].tracking.first_row_id = Some(first);
                },
                Some(id) => {
                    let end: i128 = id as i128 + span;
                    if end > allocator.current() as i128 {
                        allocator.advance_to(end as i64);
                    }
                },
            }
        }
        i += 1;
    }
    assert(entry_models(entries@) =~= assigned_entries(before, start));
}

/// Reads the record counts and first row ids of the rows of a batch.
#[derive(Debug)]
pub struct RecordCountVisitor {
    pub record_counts: Vec<i64>,
    pub first_row_ids: Vec<Option<i64>>,
}

impl RecordCountVisitor {
    /// A visitor that has seen no rows.
    pub fn with_capacity(cap: usize) -> (visitor: Self)
        ensures
            visitor.record_counts@ == Seq::<i64>::empty(),
            visitor.first_row_ids@ == Seq::<Option<i64>>::empty(),
    {
        RecordCountVisitor {
            record_counts: Vec::with_capacity(cap),
            first_row_ids: Vec::with_capacity(cap),
        }
    }

    /// The columns that the visitor reads.
    pub fn selected_column_names_and_types(&self) -> (columns: SelectedColumns)
        ensures
            columns.wf(),
            columns@ == Seq::empty().push(("recordCount"@, long_type())).push(
                ("tracking.firstRowId"@, long_type()),
            ),
    {
        SelectedColumns::new().with("recordCount", DataType::long()).with(
            "tracking.firstRowId",
            DataType::long(),
        )
    }

    /// Adds the counts and ids of the rows.
    pub fn visit(&mut self, rows: &Vec<ContentTreeNodeEntry>)
        ensures
            final(self).record_counts@ == old(self).record_counts@ + Seq::new(
                rows@.len(),
                |i: int| rows@[i]@.record_count,
            ),
            final(self).first_row_ids@ == old(self).first_row_ids@ + Seq::new(
                rows@.len(),
                |i: int| rows@[i]@.tracking.first_row_id,
            ),
    {
        let ghost counts = Seq::new(rows@.len(), |i: int| rows@[i]@.record_count);
        let ghost ids = Seq::new(rows@.len(), |i: int| rows@[i]@.tracking.first_row_id);
        let mut i: usize = 0;
        while i < rows.len()
            invariant
                i <= rows@.len(),
                counts == Seq::new(rows@.len(), |i: int| rows@[i]@.record_count),
                ids == Seq::new(rows@.len(), |i: int| rows@[i]@.tracking.first_row_id),
                self.record_counts@ =~= old(self).record_counts@ + counts.take(i as int),
                self.first_row_ids@ =~= old(self).first_row_ids@ + ids.take(i as int),
            decreases rows@.len() - i,
        {
            self.record_counts.push(rows[i].record_count);
            self.first_row_ids.push(rows[i].tracking.first_row_id);
            i += 1;
        }
        assert(counts.take(i as int) =~= counts);
        assert(ids.take(i as int) =~= ids);
    }
}

/// Gives first row ids to the rows of a batch that have none.
pub fn assign_row_ids_to_batch(
    rows: &mut Vec<ContentTreeNodeEntry>,
    allocator: &mut CursorRowIdAllocator,
)
    requires
        forall|n: int|
            0 <= n <= old(rows)@.len() ==> is_i64(
                #[trigger] row_cursor_before(entry_models(old(rows)@), old(allocator)@, n),
            ),
    ensures
        entry_models(final(rows)@) == assigned_rows(entry_models(old(rows)@), old(allocator)@),
        final(allocator)@ == row_cursor_before(
            entry_models(old(rows)@),
            old(allocator)@,
            old(rows)@.len() as int,
        ),
{
    let ghost before = entry_models(rows@);
    let ghost start = allocator@;
    let mut visitor = RecordCountVisitor::with_capacity(rows.len());
    visitor.visit(rows);
    let mut i: usize = 0;
    while i < rows.len()
        invariant
            i <= rows@.len(),
            rows@.len() == before.len(),
            visitor.record_counts@.len() == before.len(),
            visitor.first_row_ids@.len() == before.len(),
            forall|j: int|
                0 <= j < before.len() ==> #[trigger] visitor.record_counts@[j]
                    == before[j].record_count,
            forall|j: int|
                0 <= j < before.len() ==> #[trigger] visitor.first_row_ids@[j]
                    == before[j].tracking.first_row_id,
            forall|n: int|
                0 <= n <= before.len() ==> is_i64(#[trigger] row_cursor_before(before, start, n)),
            allocator@ == row_cursor_before(before, start, i as int),
            forall|j: int|
                0 <= j < i ==> (#[trigger] rows@[j])@ == assigned_rows(before, start)[j],
            forall|j: int| i <= j < before.len() ==> (#[trigger] rows@[j])@ == before[j],
        decreases rows@.len() - i,
    {
        assert(is_i64(row_cursor_before(before, start, i + 1)));
        if visitor.first_row_ids[i].is_none() {
            let first = allocator.reserve_row_ids(visitor.record_counts[i]);
            rows[i].tracking.first_row_id = Some(first);
        }
        i += 1;
    }
    assert(entry_models(rows@) =~= assigned_rows(before, start));
}

} // verus!
