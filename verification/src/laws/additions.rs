//! Laws of what goes into a builder: loaded entries and added files.

use vstd::prelude::*;

use crate::add_action::{
    action_added, partition_data, partition_index, partition_scalar, partition_scalars, AddModel,
    PartitionModel,
};
use crate::builder::{
    carried_entries, carried_entry, empty_builder, entries_added, entry_added,
    entry_at_commit_start, loaded_builder, BuilderModel, Version,
};
use crate::deletion_vector::{extracted_dv, DvModel};
use crate::entry::{DataContentType, EntryModel, TrackingStatus};
use crate::error::ErrorModel;
use crate::expression::{ScalarModel, StructDataModel};
use crate::json::integer_under;
use crate::location::LocationModel;
use crate::schema::FieldModel;

verus! {

/// Adding entries changes nothing of a builder but its entries and the caches of the manifests
/// among them: table root, schema, version and partition type stay.
pub proof fn law_added_entries_change_entries_alone(
    builder: BuilderModel,
    entries: Seq<EntryModel>,
    n: int,
    leaf: Seq<char>,
)
    requires
        0 <= n <= entries.len(),
    ensures
        ({
            let after = entries_added(builder, entries, n);
            &&& after.table_root == builder.table_root
            &&& after.table_schema == builder.table_schema
            &&& after.version == builder.version
            &&& after.partition_type == builder.partition_type
            &&& after.seen == builder.seen
            &&& after.batches == builder.batches
            &&& after.aggregates == builder.aggregates
            &&& after.entries.len() == builder.entries.len() + n
            &&& after.caches.contains_key(leaf) <==> builder.caches.contains_key(leaf) || exists|
                i: int,
            |
                0 <= i < n && (#[trigger] entries[i]).location == Some(leaf) && (
                entries[i].content_type == DataContentType::DataManifest || entries[i].content_type
                    == DataContentType::DeleteManifest)
        }),
    decreases n,
{
    if n > 0 {
        law_added_entries_change_entries_alone(builder, entries, n - 1, leaf);
        let before = entries_added(builder, entries, n - 1);
        let after = entries_added(builder, entries, n);
        let last = entries[n - 1];
        assert(after == entry_added(before, last));
        if before.caches.contains_key(leaf) && !builder.caches.contains_key(leaf) {
            let i = choose|i: int|
                0 <= i < n - 1 && (#[trigger] entries[i]).location == Some(leaf) && (
                entries[i].content_type == DataContentType::DataManifest || entries[i].content_type
                    == DataContentType::DeleteManifest);
            assert(entries[i].location == Some(leaf));
        }
    }
}

/// A builder that a content root was loaded into has the table root, schema, version and
/// partition type that it was given, and the entries of the root in their order: only their
/// status can have aged, and the bitmaps of earlier commits are gone. It knows the leaf manifests
/// of the root and no others.
pub proof fn law_loaded_builders_hold_what_they_are_given(
    entries: Seq<EntryModel>,
    table_root: LocationModel,
    table_schema: Seq<FieldModel>,
    new_version: Version,
    partition_type: Option<Seq<FieldModel>>,
    i: int,
    leaf: Seq<char>,
)
    requires
        0 <= i < entries.len(),
    ensures
        ({
            let builder = loaded_builder(
                entries,
                table_root,
                table_schema,
                new_version,
                partition_type,
            );
            let held = builder.entries[i];
            &&& builder.table_root == table_root
            &&& builder.table_schema == table_schema
            &&& builder.version == new_version
            &&& builder.partition_type == partition_type
            &&& builder.seen == Set::<Seq<char>>::empty()
            &&& builder.batches.len() == 0
            &&& builder.aggregates.len() == 0
            &&& builder.entries.len() == entries.len()
            &&& held == EntryModel { tracking: held.tracking, ..entries[i] }
            &&& held.tracking.sequence_number == entries[i].tracking.sequence_number
            &&& held.tracking.file_sequence_number == entries[i].tracking.file_sequence_number
            &&& held.tracking.snapshot_id == entries[i].tracking.snapshot_id
            &&& held.tracking.first_row_id == entries[i].tracking.first_row_id
            &&& held.tracking.status == if entries[i].tracking.status == TrackingStatus::Added
                && entries[i].tracking.sequence_number != Some(new_version as i64) {
                TrackingStatus::Existing
            } else {
                entries[i].tracking.status
            }
            &&& builder.caches.contains_key(leaf) <==> exists|j: int|
                0 <= j < entries.len() && (#[trigger] entries[j]).location == Some(leaf) && (
                entries[j].content_type == DataContentType::DataManifest || entries[j].content_type
                    == DataContentType::DeleteManifest)
        }),
{
    let carried = carried_entries(entries, new_version);
    let start = BuilderModel {
        partition_type,
        ..empty_builder(table_root, new_version, table_schema)
    };
    law_added_entries_change_entries_alone(start, carried, entries.len() as int, leaf);
    crate::laws::entries::law_added_entries_come_behind(start, carried, entries.len() as int);
    let builder = loaded_builder(entries, table_root, table_schema, new_version, partition_type);
    assert(builder.entries[start.entries.len() + i] == entry_at_commit_start(carried[i]));
    assert(builder.entries[i] == entry_at_commit_start(carried_entry(entries[i], new_version)));
    if exists|j: int|
        0 <= j < entries.len() && (#[trigger] entries[j]).location == Some(leaf) && (
        entries[j].content_type == DataContentType::DataManifest || entries[j].content_type
            == DataContentType::DeleteManifest) {
        let j = choose|j: int|
            0 <= j < entries.len() && (#[trigger] entries[j]).location == Some(leaf) && (
            entries[j].content_type == DataContentType::DataManifest || entries[j].content_type
                == DataContentType::DeleteManifest);
        assert(carried[j].location == Some(leaf));
        assert(builder.caches.contains_key(leaf));
    }
    if builder.caches.contains_key(leaf) {
        let j = choose|j: int|
            0 <= j < carried.len() && (#[trigger] carried[j]).location == Some(leaf) && (
            carried[j].content_type == DataContentType::DataManifest || carried[j].content_type
                == DataContentType::DeleteManifest);
        assert(entries[j].location == Some(leaf));
    }
}

/// An empty content root makes a builder without entries, for the table that it was given.
pub proof fn law_empty_roots_load_for_their_table(
    table_root: LocationModel,
    table_schema: Seq<FieldModel>,
    new_version: Version,
    partition_type: Option<Seq<FieldModel>>,
)
    ensures
        ({
            let builder = loaded_builder(
                Seq::empty(),
                table_root,
                table_schema,
                new_version,
                partition_type,
            );
            &&& builder.table_root == table_root
            &&& builder.table_schema == table_schema
            &&& builder.version == new_version
            &&& builder.partition_type == partition_type
            &&& builder.entries.len() == 0
            &&& builder.seen == Set::<Seq<char>>::empty()
            &&& builder.caches == Map::<Seq<char>, crate::dv_cache::CacheModel>::empty()
        }),
{
}

/// The index of the value of a column.
proof fn lemma_partition_index(values: Seq<PartitionModel>, column: Seq<char>, from: int)
    requires
        0 <= from <= values.len(),
    ensures
        from <= partition_index(values, column, from) <= values.len(),
        partition_index(values, column, from) < values.len() ==> values[partition_index(
            values,
            column,
            from,
        )].column == column,
        forall|j: int|
            from <= j < partition_index(values, column, from) ==> (#[trigger] values[j]).column
                != column,
    decreases values.len() - from,
{
    if from < values.len() && values[from].column != column {
        lemma_partition_index(values, column, from + 1);
    }
}

/// The partition values of fields stand at the places of the fields.
proof fn lemma_partition_scalars(
    fields: Seq<FieldModel>,
    values: Seq<PartitionModel>,
    n: int,
    k: int,
)
    requires
        0 <= k < n <= fields.len(),
        partition_scalars(fields, values, n) is Ok,
    ensures
        partition_scalars(fields, values, n)->Ok_0.len() == n,
        partition_scalar(fields[k], values) == Ok::<ScalarModel, ErrorModel>(
            partition_scalars(fields, values, n)->Ok_0[k],
        ),
    decreases n,
{
    if n > 1 && k < n - 1 {
        lemma_partition_scalars(fields, values, n - 1, k);
    } else if n > 1 {
        lemma_partition_scalars(fields, values, n - 1, 0);
    } else {
        assert(partition_scalars(fields, values, 0) == Ok::<Seq<ScalarModel>, ErrorModel>(
            Seq::empty(),
        ));
    }
}

/// Whether partition values are those that an action names: one for each partition field, under
/// its name; null where the action names none.
pub open spec fn holds_values(
    partition: Option<StructDataModel>,
    fields: Seq<FieldModel>,
    values: Seq<PartitionModel>,
) -> bool {
    partition matches Some(data) && {
        &&& data.fields == fields
        &&& data.values.len() == fields.len()
        &&& forall|k: int, j: int|
            0 <= k < fields.len() && 0 <= j < values.len() && (#[trigger] values[j]).column == (
            #[trigger] fields[k]).name && (forall|i: int|
                0 <= i < j ==> (#[trigger] values[i]).column != fields[k].name)
                ==> values[j].value == Ok::<ScalarModel, ErrorModel>(data.values[k])
        &&& forall|k: int|
            0 <= k < fields.len() && (forall|j: int|
                0 <= j < values.len() ==> (#[trigger] values[j]).column != fields[k].name)
                ==> data.values[k] == ScalarModel::Null((#[trigger] fields[k]).data_type)
    }
}

/// A file that is added carries the partition values that its action names, by the partition
/// type of the builder, and none where the table is not partitioned.
pub proof fn law_added_files_carry_their_partition_values(
    builder: BuilderModel,
    add: AddModel,
    stats: Result<Option<StructDataModel>, ErrorModel>,
    version: Version,
    snapshot_id: i64,
    status: TrackingStatus,
)
    requires
        !builder.seen.contains(add.path),
        action_added(builder, add, stats, version, snapshot_id, status).1 is Ok,
    ensures
        ({
            let after = action_added(builder, add, stats, version, snapshot_id, status).0;
            let entry = after.entries.last();
            match builder.partition_type {
                Some(fields) => if fields.len() > 0 {
                    holds_values(entry.partition, fields, add.partition_values)
                } else {
                    entry.partition is None
                },
                None => entry.partition is None,
            }
        }),
{
    if let Some(fields) = builder.partition_type {
        if fields.len() > 0 {
            lemma_values_held(fields, add.partition_values);
        }
    }
}

/// Partition data holds the values that are named.
proof fn lemma_values_held(fields: Seq<FieldModel>, values: Seq<PartitionModel>)
    requires
        fields.len() > 0,
        partition_data(Some(fields), values) is Ok,
    ensures
        holds_values(partition_data(Some(fields), values)->Ok_0, fields, values),
{
    let n = fields.len() as int;
    let data = partition_data(Some(fields), values)->Ok_0->0;
    assert forall|k: int, j: int|
        0 <= k < fields.len() && 0 <= j < values.len() && (#[trigger] values[j]).column == (
        #[trigger] fields[k]).name && (forall|i: int|
            0 <= i < j ==> (#[trigger] values[i]).column != fields[k].name) implies values[j].value
        == Ok::<ScalarModel, ErrorModel>(data.values[k]) by {
        lemma_partition_scalars(fields, values, n, k);
        lemma_partition_index(values, fields[k].name, 0);
        let at = partition_index(values, fields[k].name, 0);
        if at > j {
            assert(values[j].column != fields[k].name);
        } else if at < j {
            assert(values[at].column != fields[k].name);
        }
    }
    assert forall|k: int|
        0 <= k < fields.len() && (forall|j: int|
            0 <= j < values.len() ==> (#[trigger] values[j]).column != fields[k].name)
        implies data.values[k] == ScalarModel::Null((#[trigger] fields[k]).data_type) by {
        lemma_partition_scalars(fields, values, n, k);
        lemma_partition_index(values, fields[k].name, 0);
    }
    lemma_partition_scalars(fields, values, n, 0);
}

/// A file that is added to a loaded builder carries the values that its action names, by the
/// partition type that the builder was loaded with.
pub proof fn law_loaded_builders_take_partition_values(
    entries: Seq<EntryModel>,
    table_root: LocationModel,
    table_schema: Seq<FieldModel>,
    new_version: Version,
    fields: Seq<FieldModel>,
    add: AddModel,
    stats: Result<Option<StructDataModel>, ErrorModel>,
    version: Version,
    snapshot_id: i64,
    status: TrackingStatus,
)
    requires
        fields.len() > 0,
        action_added(
            loaded_builder(entries, table_root, table_schema, new_version, Some(fields)),
            add,
            stats,
            version,
            snapshot_id,
            status,
        ).1 is Ok,
    ensures
        ({
            let loaded = loaded_builder(
                entries,
                table_root,
                table_schema,
                new_version,
                Some(fields),
            );
            let after = action_added(loaded, add, stats, version, snapshot_id, status).0;
            &&& after.entries.len() == entries.len() + 1
            &&& after.entries.last().location == Some(add.path)
            &&& holds_values(after.entries.last().partition, fields, add.partition_values)
        }),
{
    let loaded = loaded_builder(entries, table_root, table_schema, new_version, Some(fields));
    let start = BuilderModel {
        partition_type: Some(fields),
        ..empty_builder(table_root, new_version, table_schema)
    };
    law_added_entries_change_entries_alone(
        start,
        carried_entries(entries, new_version),
        entries.len() as int,
        add.path,
    );
    law_added_files_carry_their_partition_values(
        loaded,
        add,
        stats,
        version,
        snapshot_id,
        status,
    );
}

/// A file that is added is a data file with what its action names: path, size, tags and deletion
/// vector, as many records as its statistics say, none without statistics, and the content
/// statistics that it was handed in with. Nothing else of the builder changes but that the path
/// counts as seen.
pub proof fn law_added_files_carry_what_their_action_names(
    builder: BuilderModel,
    add: AddModel,
    stats: Result<Option<StructDataModel>, ErrorModel>,
    version: Version,
    snapshot_id: i64,
    status: TrackingStatus,
)
    requires
        !builder.seen.contains(add.path),
        action_added(builder, add, stats, version, snapshot_id, status).1 is Ok,
    ensures
        ({
            let after = action_added(builder, add, stats, version, snapshot_id, status).0;
            let entry = after.entries.last();
            &&& after.entries == builder.entries.push(entry)
            &&& after == BuilderModel {
                entries: after.entries,
                seen: builder.seen.insert(add.path),
                ..builder
            }
            &&& entry.content_type == DataContentType::Data
            &&& entry.location == Some(add.path)
            &&& entry.file_size_in_bytes == add.size
            &&& entry.tags == add.tags
            &&& entry.manifest_info is None
            &&& stats == Ok::<Option<StructDataModel>, ErrorModel>(entry.content_stats)
            &&& match add.deletion_vector {
                Some(dv) => entry.deletion_vector matches Some(info) && extracted_dv(dv) == Ok::<
                    DvModel,
                    ErrorModel,
                >(info),
                None => entry.deletion_vector is None,
            }
            &&& match add.stats {
                Some(json) => integer_under(json, "numRecords"@) == Ok::<Option<i64>, Seq<char>>(
                    Some(entry.record_count),
                ),
                None => entry.record_count == 0,
            }
            &&& entry.tracking.status == status
            &&& entry.tracking.sequence_number == Some(version as i64)
            &&& entry.tracking.file_sequence_number == Some(version as i64)
            &&& entry.tracking.snapshot_id == Some(snapshot_id)
            &&& entry.tracking.first_row_id is None
            &&& entry.tracking.deleted_positions is None
            &&& entry.tracking.replaced_positions is None
        }),
{
}

/// An action is refused exactly where its path is new and one of its parts cannot be used: its
/// deletion vector, its record count, its statistics or its partition values. Its path counts as
/// seen all the same, and nothing is added.
pub proof fn law_unusable_actions_are_refused(
    builder: BuilderModel,
    add: AddModel,
    stats: Result<Option<StructDataModel>, ErrorModel>,
    version: Version,
    snapshot_id: i64,
    status: TrackingStatus,
)
    ensures
        ({
            let (after, result) = action_added(builder, add, stats, version, snapshot_id, status);
            &&& result is Err <==> {
                &&& !builder.seen.contains(add.path)
                &&& {
                    ||| add.deletion_vector matches Some(dv) && extracted_dv(dv) is Err
                    ||| add.stats matches Some(json) && !(integer_under(json, "numRecords"@) matches
                        Ok(Some(_)))
                    ||| stats is Err
                    ||| partition_data(builder.partition_type, add.partition_values) is Err
                }
            }
            &&& result is Err ==> after == BuilderModel {
                seen: builder.seen.insert(add.path),
                ..builder
            }
            &&& builder.seen.contains(add.path) ==> after == builder
        }),
{
}

/// Partition values cannot be used exactly where a value of a partition field could not be read,
/// or where a field that has a value is not of primitive type.
pub proof fn law_unreadable_partition_values_are_refused(
    fields: Seq<FieldModel>,
    values: Seq<PartitionModel>,
    n: int,
)
    requires
        0 <= n <= fields.len(),
    ensures
        partition_scalars(fields, values, n) is Err <==> exists|k: int, j: int|
            0 <= k < n && 0 <= j < values.len() && (#[trigger] values[j]).column == (
            #[trigger] fields[k]).name && (forall|i: int|
                0 <= i < j ==> (#[trigger] values[i]).column != fields[k].name) && (
            values[j].value is Err || !(fields[k].data_type is Primitive)),
    decreases n,
{
    if n > 0 {
        law_unreadable_partition_values_are_refused(fields, values, n - 1);
        let last = fields[n - 1];
        lemma_partition_index(values, last.name, 0);
        let at = partition_index(values, last.name, 0);
        if partition_scalars(fields, values, n - 1) is Ok {
            if partition_scalar(last, values) is Err {
                assert(values[at].column == fields[n - 1].name);
            } else {
                assert forall|j: int|
                    0 <= j < values.len() && (#[trigger] values[j]).column == fields[n - 1].name
                        && (forall|i: int|
                        0 <= i < j ==> (#[trigger] values[i]).column != fields[n - 1].name)
                    implies !(values[j].value is Err || !(
                fields[n - 1].data_type is Primitive)) by {
                    if at > j {
                        assert(values[j].column != last.name);
                    } else if at < j {
                        assert(values[at].column != last.name);
                    }
                }
            }
        }
    }
}

} // verus!
