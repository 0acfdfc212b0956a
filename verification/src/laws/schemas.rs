//! Laws of the schemas: which fields they hold, where and of which types.

use vstd::prelude::*;

use crate::ingest::write_fields;
use crate::laws::statistics::lemma_distinct_push;
use crate::names::{
    DEFAULT_ROW_COMMIT_VERSION_NAME, DV_CARDINALITY, DV_LOCATION, DV_OFFSET, DV_SIZE_IN_BYTES, TAGS,
};
use crate::projection::{
    dv_info_fields, entry_fields, flat_dv_fields, leading_entry_fields, log_add_field,
    manifest_info_fields, tracking_fields,
};
use crate::schema::{
    binary_type, boolean_type, distinct_fields, field_index, find_field, integer_type,
    lemma_field_index_bounds, long_type, nullable_field, put_field, required_field,
    string_map_type, string_type, struct_type, FieldModel, PrimitiveType, TypeModel,
};
use crate::stats_schema::content_stats_of;

verus! {

/// No two fields have the same name.
pub open spec fn apart(fields: Seq<FieldModel>) -> bool {
    forall|i: int, j: int|
        0 <= i < j < fields.len() ==> (#[trigger] fields[i]).name != (#[trigger] fields[j]).name
}

/// A field whose name no other has is found under it, at its place.
pub proof fn lemma_place(fields: Seq<FieldModel>, k: int)
    requires
        apart(fields),
        0 <= k < fields.len(),
    ensures
        field_index(fields, fields[k].name, 0) == k,
        find_field(fields, fields[k].name) == Some(fields[k]),
{
    lemma_field_index_bounds(fields, fields[k].name, 0);
    let found = field_index(fields, fields[k].name, 0);
    if found > k {
        assert(fields[k].name != fields[k].name);
    } else if found < k {
        assert(fields[found].name != fields[k].name);
    }
}

/// Fields with different names make a struct type with these very fields.
pub proof fn lemma_distinct_same(fields: Seq<FieldModel>)
    requires
        apart(fields),
    ensures
        distinct_fields(fields) == fields,
    decreases fields.len(),
{
    if fields.len() > 0 {
        let head = fields.drop_last();
        lemma_distinct_same(head);
        lemma_field_index_bounds(head, fields.last().name, 0);
        let i = field_index(head, fields.last().name, 0);
        if i < head.len() {
            assert(fields[i].name != fields[fields.len() - 1].name);
        }
        assert(put_field(head, fields.last()) =~= fields);
    } else {
        assert(distinct_fields(fields) =~= fields);
    }
}

/// A field of a list behind which no other has its name is found in the struct type.
pub proof fn lemma_last_found(fields: Seq<FieldModel>, k: int)
    requires
        0 <= k < fields.len(),
        forall|j: int| k < j < fields.len() ==> (#[trigger] fields[j]).name != fields[k].name,
    ensures
        find_field(distinct_fields(fields), fields[k].name) == Some(fields[k]),
    decreases fields.len(),
{
    let head = fields.drop_last();
    assert(head.push(fields.last()) =~= fields);
    lemma_distinct_push(head, fields.last(), fields[k].name);
    if k < head.len() {
        lemma_last_found(head, k);
    }
}

/// A name that no field of a list has is not found in the struct type.
pub proof fn lemma_not_found(fields: Seq<FieldModel>, name: Seq<char>)
    requires
        forall|j: int| 0 <= j < fields.len() ==> (#[trigger] fields[j]).name != name,
    ensures
        find_field(distinct_fields(fields), name) is None,
    decreases fields.len(),
{
    if fields.len() > 0 {
        let head = fields.drop_last();
        assert(head.push(fields.last()) =~= fields);
        lemma_distinct_push(head, fields.last(), name);
        lemma_not_found(head, name);
    }
}

/// The tracking info of an entry holds the status, the snapshots, both sequence numbers, the
/// first row id and the positions that were deleted and replaced, in this order.
pub proof fn law_tracking_fields()
    ensures
        apart(tracking_fields()),
        distinct_fields(tracking_fields()) == tracking_fields(),
        tracking_fields() == seq![
            nullable_field("status"@, integer_type()),
            nullable_field("snapshotId"@, long_type()),
            nullable_field("dvSnapshotId"@, long_type()),
            nullable_field("sequenceNumber"@, long_type()),
            nullable_field("fileSequenceNumber"@, long_type()),
            nullable_field("firstRowId"@, long_type()),
            nullable_field("deletedPositions"@, binary_type()),
            nullable_field("replacedPositions"@, binary_type()),
        ],
{
    reveal_strlit("status");
    reveal_strlit("snapshotId");
    reveal_strlit("dvSnapshotId");
    reveal_strlit("sequenceNumber");
    reveal_strlit("fileSequenceNumber");
    reveal_strlit("firstRowId");
    reveal_strlit("deletedPositions");
    reveal_strlit("replacedPositions");
    assert("status"@.len() == 6);
    assert("snapshotId"@.len() == 10 && "snapshotId"@[0] == 's');
    assert("dvSnapshotId"@.len() == 12);
    assert("sequenceNumber"@.len() == 14);
    assert("fileSequenceNumber"@.len() == 18);
    assert("firstRowId"@.len() == 10 && "firstRowId"@[0] == 'f');
    assert("deletedPositions"@.len() == 16);
    assert("replacedPositions"@.len() == 17);
    assert(apart(tracking_fields()));
    lemma_distinct_same(tracking_fields());
}

/// The deletion vector of an entry holds its location, offset, size and cardinality, in this
/// order.
pub proof fn law_dv_info_fields()
    ensures
        apart(dv_info_fields()),
        distinct_fields(dv_info_fields()) == dv_info_fields(),
        dv_info_fields() == seq![
            nullable_field("location"@, string_type()),
            nullable_field("offset"@, long_type()),
            nullable_field("sizeInBytes"@, long_type()),
            nullable_field("cardinality"@, long_type()),
        ],
{
    reveal_strlit("location");
    reveal_strlit("offset");
    reveal_strlit("sizeInBytes");
    reveal_strlit("cardinality");
    assert("location"@.len() == 8);
    assert("offset"@.len() == 6);
    assert("sizeInBytes"@.len() == 11 && "sizeInBytes"@[0] == 's');
    assert("cardinality"@.len() == 11 && "cardinality"@[0] == 'c');
    assert(apart(dv_info_fields()));
    lemma_distinct_same(dv_info_fields());
}

/// The flat columns of a deletion vector are its location, offset, size and cardinality.
pub proof fn law_flat_dv_fields()
    ensures
        apart(flat_dv_fields()),
        flat_dv_fields() == seq![
            nullable_field("_dv_location"@, string_type()),
            nullable_field("_dv_offset"@, long_type()),
            nullable_field("_dv_size_in_bytes"@, long_type()),
            nullable_field("_dv_cardinality"@, long_type()),
        ],
{
    reveal_strlit("_dv_location");
    reveal_strlit("_dv_offset");
    reveal_strlit("_dv_size_in_bytes");
    reveal_strlit("_dv_cardinality");
    assert("_dv_location"@.len() == 12);
    assert("_dv_offset"@.len() == 10);
    assert("_dv_size_in_bytes"@.len() == 17);
    assert("_dv_cardinality"@.len() == 15);
    let list = seq![
        nullable_field("_dv_location"@, string_type()),
        nullable_field("_dv_offset"@, long_type()),
        nullable_field("_dv_size_in_bytes"@, long_type()),
        nullable_field("_dv_cardinality"@, long_type()),
    ];
    assert(apart(list));
    lemma_distinct_same(list);
    assert(list =~= Seq::empty().push(nullable_field(DV_LOCATION@, string_type())).push(
        nullable_field(DV_OFFSET@, long_type()),
    ).push(nullable_field(DV_SIZE_IN_BYTES@, long_type())).push(
        nullable_field(DV_CARDINALITY@, long_type()),
    ));
}

/// What a replay keeps of an add is its path, size, commit version, partition values and tags.
pub proof fn law_log_add_fields()
    ensures
        log_add_field() == nullable_field(
            "add"@,
            TypeModel::Struct(
                seq![
                    nullable_field("path"@, string_type()),
                    nullable_field("size"@, long_type()),
                    nullable_field("defaultRowCommitVersion"@, long_type()),
                    nullable_field("partitionValues"@, string_map_type()),
                    nullable_field("tags"@, string_map_type()),
                ],
            ),
        ),
        log_add_field().data_type matches TypeModel::Struct(fields) && apart(fields),
{
    reveal_strlit("path");
    reveal_strlit("size");
    reveal_strlit("defaultRowCommitVersion");
    reveal_strlit("partitionValues");
    reveal_strlit("tags");
    assert("path"@.len() == 4 && "path"@[0] == 'p');
    assert("size"@.len() == 4 && "size"@[0] == 's');
    assert("defaultRowCommitVersion"@.len() == 23);
    assert("partitionValues"@.len() == 15);
    assert("tags"@.len() == 4 && "tags"@[0] == 't');
    let list = seq![
        nullable_field("path"@, string_type()),
        nullable_field("size"@, long_type()),
        nullable_field("defaultRowCommitVersion"@, long_type()),
        nullable_field("partitionValues"@, string_map_type()),
        nullable_field("tags"@, string_map_type()),
    ];
    assert(apart(list));
    lemma_distinct_same(list);
    assert(list =~= Seq::empty().push(nullable_field("path"@, string_type())).push(
        nullable_field("size"@, long_type()),
    ).push(nullable_field(DEFAULT_ROW_COMMIT_VERSION_NAME@, long_type())).push(
        nullable_field("partitionValues"@, string_map_type()),
    ).push(nullable_field(TAGS@, string_map_type())));
}

/// The names of the fields of an entry differ.
pub proof fn lemma_entry_names()
    ensures
        "contentType"@.len() == 11 && "contentType"@[0] == 'c',
        "location"@.len() == 8 && "location"@[0] == 'l',
        "fileFormat"@.len() == 10,
        "tracking"@.len() == 8 && "tracking"@[0] == 't',
        "deletionVector"@.len() == 14,
        "partitionSpecId"@.len() == 15 && "partitionSpecId"@[0] == 'p',
        "partition"@.len() == 9,
        "sortOrderId"@.len() == 11 && "sortOrderId"@[0] == 's',
        "recordCount"@.len() == 11 && "recordCount"@[0] == 'r',
        "fileSizeInBytes"@.len() == 15 && "fileSizeInBytes"@[0] == 'f',
        "contentStats"@.len() == 12 && "contentStats"@[0] == 'c',
        "manifestInfo"@.len() == 12 && "manifestInfo"@[0] == 'm',
        "tags"@.len() == 4,
{
    reveal_strlit("contentType");
    reveal_strlit("location");
    reveal_strlit("fileFormat");
    reveal_strlit("tracking");
    reveal_strlit("deletionVector");
    reveal_strlit("partitionSpecId");
    reveal_strlit("partition");
    reveal_strlit("sortOrderId");
    reveal_strlit("recordCount");
    reveal_strlit("fileSizeInBytes");
    reveal_strlit("contentStats");
    reveal_strlit("manifestInfo");
    reveal_strlit("tags");
}

/// An entry holds its content type, location, format, tracking info, deletion vector, partition
/// spec and sort order, record count, size, content statistics, manifest info and tags, and its
/// partition values exactly where the table is partitioned.
pub proof fn law_entry_fields(table: Seq<FieldModel>, partition_type: Option<Seq<FieldModel>>)
    ensures
        ({
            let fields = entry_fields(table, partition_type);
            &&& find_field(fields, "contentType"@) == Some(
                nullable_field("contentType"@, integer_type()),
            )
            &&& find_field(fields, "location"@) == Some(nullable_field("location"@, string_type()))
            &&& find_field(fields, "fileFormat"@) == Some(
                nullable_field("fileFormat"@, string_type()),
            )
            &&& find_field(fields, "tracking"@) == Some(
                nullable_field("tracking"@, TypeModel::Struct(tracking_fields())),
            )
            &&& find_field(fields, "deletionVector"@) == Some(
                nullable_field("deletionVector"@, TypeModel::Struct(dv_info_fields())),
            )
            &&& find_field(fields, "partitionSpecId"@) == Some(
                nullable_field("partitionSpecId"@, integer_type()),
            )
            &&& find_field(fields, "partition"@) == (match partition_type {
                Some(partition) => Some(
                    nullable_field("partition"@, TypeModel::Struct(partition)),
                ),
                None => None,
            })
            &&& find_field(fields, "sortOrderId"@) == Some(
                nullable_field("sortOrderId"@, integer_type()),
            )
            &&& find_field(fields, "recordCount"@) == Some(
                nullable_field("recordCount"@, long_type()),
            )
            &&& find_field(fields, "fileSizeInBytes"@) == Some(
                nullable_field("fileSizeInBytes"@, long_type()),
            )
            &&& find_field(fields, "contentStats"@) == Some(
                nullable_field("contentStats"@, TypeModel::Struct(content_stats_of(table))),
            )
            &&& find_field(fields, "manifestInfo"@) == Some(
                nullable_field("manifestInfo"@, struct_type(manifest_info_fields())),
            )
            &&& find_field(fields, "tags"@) == Some(nullable_field("tags"@, string_map_type()))
        }),
{
    lemma_entry_names();
    law_tracking_fields();
    law_dv_info_fields();
    let leading = match partition_type {
        Some(partition) => leading_entry_fields().push(
            nullable_field("partition"@, TypeModel::Struct(partition)),
        ),
        None => leading_entry_fields(),
    };
    let list = leading.push(nullable_field("sortOrderId"@, integer_type())).push(
        nullable_field("recordCount"@, long_type()),
    ).push(nullable_field("fileSizeInBytes"@, long_type())).push(
        nullable_field("contentStats"@, TypeModel::Struct(content_stats_of(table))),
    ).push(nullable_field("manifestInfo"@, struct_type(manifest_info_fields()))).push(
        nullable_field("tags"@, string_map_type()),
    );
    assert(entry_fields(table, partition_type) == distinct_fields(list));
    let n = leading.len() as int;
    assert(leading.len() >= 6);
    lemma_last_found(list, 0);
    lemma_last_found(list, 1);
    lemma_last_found(list, 2);
    lemma_last_found(list, 3);
    lemma_last_found(list, 4);
    lemma_last_found(list, 5);
    match partition_type {
        Some(_) => {
            lemma_last_found(list, 6);
        },
        None => {
            lemma_not_found(list, "partition"@);
        },
    }
    lemma_last_found(list, n);
    lemma_last_found(list, n + 1);
    lemma_last_found(list, n + 2);
    lemma_last_found(list, n + 3);
    lemma_last_found(list, n + 4);
    lemma_last_found(list, n + 5);
}

/// The manifest info of an entry holds the counts of files and rows by status, the smallest
/// sequence number, and the masked positions with their number, in this order.
pub proof fn law_manifest_info_fields()
    ensures
        struct_type(manifest_info_fields()) == TypeModel::Struct(
            seq![
                nullable_field("addedFilesCount"@, integer_type()),
                nullable_field("existingFilesCount"@, integer_type()),
                nullable_field("deletedFilesCount"@, integer_type()),
                nullable_field("replacedFilesCount"@, integer_type()),
                nullable_field("addedRowsCount"@, long_type()),
                nullable_field("existingRowsCount"@, long_type()),
                nullable_field("deletedRowsCount"@, long_type()),
                nullable_field("replacedRowsCount"@, long_type()),
                nullable_field("minSequenceNumber"@, long_type()),
                nullable_field("dv"@, binary_type()),
                nullable_field("dvCardinality"@, long_type()),
            ],
        ),
{
    reveal_strlit("addedFilesCount");
    reveal_strlit("existingFilesCount");
    reveal_strlit("deletedFilesCount");
    reveal_strlit("replacedFilesCount");
    reveal_strlit("addedRowsCount");
    reveal_strlit("existingRowsCount");
    reveal_strlit("deletedRowsCount");
    reveal_strlit("replacedRowsCount");
    reveal_strlit("minSequenceNumber");
    reveal_strlit("dv");
    reveal_strlit("dvCardinality");
    assert("addedFilesCount"@.len() == 15);
    assert("existingFilesCount"@.len() == 18 && "existingFilesCount"@[0] == 'e');
    assert("deletedFilesCount"@.len() == 17 && "deletedFilesCount"@[7] == 'F');
    assert("replacedFilesCount"@.len() == 18 && "replacedFilesCount"@[0] == 'r');
    assert("addedRowsCount"@.len() == 14);
    assert("existingRowsCount"@.len() == 17 && "existingRowsCount"@[7] == 'g');
    assert("deletedRowsCount"@.len() == 16);
    assert("replacedRowsCount"@.len() == 17 && "replacedRowsCount"@[7] == 'd');
    assert("minSequenceNumber"@.len() == 17 && "minSequenceNumber"@[7] == 'e');
    assert("dv"@.len() == 2);
    assert("dvCardinality"@.len() == 13);
    let list = manifest_info_fields();
    assert(apart(list));
    lemma_distinct_same(list);
    assert(list =~= seq![
        nullable_field("addedFilesCount"@, integer_type()),
        nullable_field("existingFilesCount"@, integer_type()),
        nullable_field("deletedFilesCount"@, integer_type()),
        nullable_field("replacedFilesCount"@, integer_type()),
        nullable_field("addedRowsCount"@, long_type()),
        nullable_field("existingRowsCount"@, long_type()),
        nullable_field("deletedRowsCount"@, long_type()),
        nullable_field("replacedRowsCount"@, long_type()),
        nullable_field("minSequenceNumber"@, long_type()),
        nullable_field("dv"@, binary_type()),
        nullable_field("dvCardinality"@, long_type()),
    ]);
}

/// The columns of write metadata: path, partition values, size and modification time are always
/// there; the statistics can be null.
pub proof fn law_write_fields(stats: Seq<FieldModel>)
    ensures
        write_fields(stats) == seq![
            required_field("path"@, string_type()),
            required_field("partitionValues"@, string_map_type()),
            required_field("size"@, long_type()),
            required_field("modificationTime"@, long_type()),
            nullable_field("stats"@, TypeModel::Struct(stats)),
        ],
{
    reveal_strlit("path");
    reveal_strlit("partitionValues");
    reveal_strlit("size");
    reveal_strlit("modificationTime");
    reveal_strlit("stats");
    assert("path"@.len() == 4 && "path"@[0] == 'p');
    assert("partitionValues"@.len() == 15);
    assert("size"@.len() == 4 && "size"@[0] == 's');
    assert("modificationTime"@.len() == 16);
    assert("stats"@.len() == 5);
    let list = seq![
        required_field("path"@, string_type()),
        required_field("partitionValues"@, string_map_type()),
        required_field("size"@, long_type()),
        required_field("modificationTime"@, long_type()),
        nullable_field("stats"@, TypeModel::Struct(stats)),
    ];
    assert(apart(list));
    lemma_distinct_same(list);
    assert(list =~= Seq::empty().push(required_field("path"@, string_type())).push(
        required_field("partitionValues"@, string_map_type()),
    ).push(required_field("size"@, long_type())).push(
        required_field("modificationTime"@, long_type()),
    ).push(nullable_field("stats"@, TypeModel::Struct(stats))));
}

/// The types that schemas are made of: string, 64-bit and 32-bit integer, boolean and binary, and
/// maps from strings to strings whose values can be null.
pub proof fn law_schema_types()
    ensures
        string_type() == TypeModel::Primitive(PrimitiveType::String),
        long_type() == TypeModel::Primitive(PrimitiveType::Long),
        integer_type() == TypeModel::Primitive(PrimitiveType::Integer),
        boolean_type() == TypeModel::Primitive(PrimitiveType::Boolean),
        binary_type() == TypeModel::Primitive(PrimitiveType::Binary),
        string_map_type() == TypeModel::MapOf(
            Box::new(TypeModel::Primitive(PrimitiveType::String)),
            Box::new(TypeModel::Primitive(PrimitiveType::String)),
            true,
        ),
{
}

/// Of fields with one name the last one counts, and it is the only one of that name.
pub proof fn law_last_field_counts(fields: Seq<FieldModel>, field: FieldModel, name: Seq<char>)
    ensures
        find_field(distinct_fields(fields.push(field)), name) == if field.name == name {
            Some(field)
        } else {
            find_field(distinct_fields(fields), name)
        },
{
    lemma_distinct_push(fields, field, name);
}

} // verus!
