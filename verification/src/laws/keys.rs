//! Laws of what identifies files: paths, deletion vectors and partition columns.

use vstd::prelude::*;

use crate::add_action::{absolute_path, directory_text, joined_path};
use crate::bitmap::big_endian;
use crate::deletion_vector::{
    base85_chunk, base85_number, base85_value, extracted_dv, hex_text, relative_dv_path, uuid_text,
    DeletionVectorStorageType, DescriptorModel, DvModel,
};
use crate::dv_columns::{decoded_row, first_undecodable, DvRowModel};
use crate::entry::{DataContentType, EntryModel, TrackingStatus};
use crate::error::{ErrorKind, ErrorModel};
use crate::laws::replays::action_key;
use crate::laws::schemas::{apart, lemma_distinct_same};
use crate::laws::statistics::lemma_distinct_push;
use crate::location::parsed_url;
use crate::projection::{partition_field, partition_fields, partition_type_of};
use crate::replay::{entry_key, ActionModel};
use crate::row_ids::{assigned_entry, cursor_after};
use crate::schema::{distinct_fields, find_field, lemma_field_index_bounds, FieldModel};

verus! {

/// An add and the entry that is made of it have one key: the path, and the location of the
/// deletion vector where there is one. So a replay finds out of the log which entries of the
/// root are superseded.
pub proof fn law_actions_and_entries_have_one_key(
    action: ActionModel,
    path: Seq<char>,
    entry: EntryModel,
)
    requires
        action.add_path == Some(path),
        decoded_row(action.add_dv) == Ok::<Option<DvModel>, ErrorModel>(entry.deletion_vector),
    ensures
        action_key(action) == Some(entry_key(path, entry)),
        entry_key(path, entry).0 == path,
        match entry.deletion_vector {
            Some(info) => entry_key(path, entry).1 == Some(info.location),
            None => entry_key(path, entry).1 is None,
        },
{
}

/// A remove has the key of the add whose path and deletion vector it names.
pub proof fn law_removes_have_the_key_of_their_add(add: ActionModel, remove: ActionModel)
    requires
        add.add_path is Some,
        remove.add_path is None,
        remove.remove_path == add.add_path,
        remove.remove_dv.storage_type == add.add_dv.storage_type,
        remove.remove_dv.path_or_inline_dv == add.add_dv.path_or_inline_dv,
    ensures
        action_key(remove) == action_key(add),
{
}

/// Whether two keys are one depends on path and location alone: files with different paths, or
/// with deletion vectors at different places, or of which only one has a deletion vector, are
/// different.
pub proof fn law_keys_tell_files_apart(
    path: Seq<char>,
    entry: EntryModel,
    other_path: Seq<char>,
    other: EntryModel,
)
    ensures
        entry_key(path, entry) == entry_key(other_path, other) <==> path == other_path && match (
            entry.deletion_vector,
            other.deletion_vector,
        ) {
            (Some(one), Some(two)) => one.location == two.location,
            (None, None) => true,
            _ => false,
        },
{
}

/// The deletion vector of a row is decoded from its columns: there is none without a storage
/// type; else path, size and cardinality have to be there, and come out with the offset, which is
/// 0 where there is none, and with a size that counts the frame of eight bytes.
pub proof fn law_rows_decode_to_their_deletion_vectors(row: DvRowModel)
    ensures
        row.storage_type is None ==> decoded_row(row) == Ok::<Option<DvModel>, ErrorModel>(None),
        row.storage_type is Some ==> !(decoded_row(row) matches Ok(None)),
        decoded_row(row) matches Ok(Some(info)) ==> {
            &&& row.size_in_bytes matches Some(size) && info.size_in_bytes == size + 8
            &&& row.cardinality == Some(info.cardinality)
            &&& info.offset == match row.offset {
                Some(offset) => offset as int,
                None => 0int,
            }
            &&& row.path_or_inline_dv matches Some(path) && {
                ||| row.storage_type == Some("p"@) && info.location == path
                ||| row.storage_type == Some("u"@) && relative_dv_path(path) == Ok::<
                    Seq<char>,
                    ErrorModel,
                >(info.location)
            }
        },
        row.storage_type == Some("p"@) && row.path_or_inline_dv is Some && row.size_in_bytes is Some
            && row.cardinality is Some ==> decoded_row(row) is Ok,
{
    reveal_strlit("p");
    reveal_strlit("u");
    reveal_strlit("i");
    assert("p"@[0] == 'p' && "u"@[0] == 'u' && "i"@[0] == 'i');
}

/// A persisted deletion vector can be located, an inline one cannot. An absolute path is its own
/// location.
pub proof fn law_persisted_deletion_vectors_are_located(dv: DescriptorModel)
    ensures
        dv.storage_type == DeletionVectorStorageType::PersistedAbsolute ==> (extracted_dv(
            dv,
        ) matches Ok(info) && info.location == dv.path_or_inline_dv),
        dv.storage_type == DeletionVectorStorageType::Inline ==> (extracted_dv(dv) matches Err(e)
            && e.kind == ErrorKind::DeletionVector),
        dv.storage_type == DeletionVectorStorageType::PersistedRelative ==> (extracted_dv(dv) is Ok
            <==> relative_dv_path(dv.path_or_inline_dv) is Ok),
        extracted_dv(dv) matches Err(e) ==> e.kind == ErrorKind::DeletionVector,
{
}

/// Two digits stand for each byte.
proof fn lemma_hex_len(bytes: Seq<u8>, from: int, to: int)
    requires
        from <= to,
    ensures
        hex_text(bytes, from, to).len() == 2 * (to - from),
    decreases to - from,
{
    if from < to {
        lemma_hex_len(bytes, from, to - 1);
    }
}

/// The path of a relative deletion vector is a file `deletion_vector_<uuid>.bin`, in the
/// directory that the prefix names where there is one.
pub proof fn law_relative_deletion_vectors_are_files(encoded: Seq<char>)
    ensures
        relative_dv_path(encoded) matches Ok(path) ==> {
            let prefix = encoded.len() - 20;
            let file = if prefix == 0 {
                path
            } else {
                path.skip(prefix + 1)
            };
            &&& prefix >= 0
            &&& file.len() == 56
            &&& "deletion_vector_"@.is_prefix_of(file)
            &&& file.skip(52) == ".bin"@
            &&& file[24] == '-' && file[29] == '-' && file[34] == '-' && file[39] == '-'
            &&& prefix > 0 ==> path.take(prefix) == encoded.take(prefix) && path[prefix] == '/'
        },
{
    if let Ok(path) = relative_dv_path(encoded) {
        reveal_strlit("deletion_vector_");
        reveal_strlit(".bin");
        reveal_strlit("-");
        reveal_strlit("/");
        let prefix = encoded.len() - 20;
        let uuid = crate::deletion_vector::base85_bytes(encoded.skip(prefix), 4)->0;
        lemma_hex_len(uuid, 0, 4);
        lemma_hex_len(uuid, 4, 6);
        lemma_hex_len(uuid, 6, 8);
        lemma_hex_len(uuid, 8, 10);
        lemma_hex_len(uuid, 10, 16);
        let text = uuid_text(uuid);
        assert(text.len() == 36);
        assert(text[8] == '-' && text[13] == '-' && text[18] == '-' && text[23] == '-');
        let file = "deletion_vector_"@ + text + ".bin"@;
        assert(file.len() == 56);
        assert(file.skip(52) =~= ".bin"@);
        assert(file[24] == text[8] && file[29] == text[13] && file[34] == text[18] && file[39]
            == text[23]);
        assert("deletion_vector_"@ =~= file.take(16));
        if prefix > 0 {
            assert(path.skip(prefix + 1) =~= file);
            assert(path.take(prefix) =~= encoded.take(prefix));
        }
    }
}

/// Five base-85 digits of a 32-bit number, most significant first, stand for its four bytes,
/// most significant first.
pub proof fn law_base85_digits_read_back(n: u32, text: Seq<char>)
    requires
        text.len() == 5,
        base85_value(text[0]) == Some(n as int / 52200625),
        base85_value(text[1]) == Some(n as int / 614125 % 85),
        base85_value(text[2]) == Some(n as int / 7225 % 85),
        base85_value(text[3]) == Some(n as int / 85 % 85),
        base85_value(text[4]) == Some(n as int % 85),
    ensures
        base85_chunk(text) matches Some(bytes) && bytes.len() == 4 && n == bytes[0] * 0x1000000
            + bytes[1] * 0x10000 + bytes[2] * 0x100 + bytes[3],
{
    let v = n as int;
    lemma_next_digit(v, 614125);
    lemma_next_digit(v, 7225);
    lemma_next_digit(v, 85);
    lemma_next_digit(v, 1);
    lemma_digit_read(text, 1, 0, v / 52200625);
    lemma_digit_read(text, 2, v / 52200625, v / 614125 % 85);
    lemma_digit_read(text, 3, v / 614125, v / 7225 % 85);
    lemma_digit_read(text, 4, v / 7225, v / 85 % 85);
    lemma_digit_read(text, 5, v / 85, v % 85);
    assert(base85_number(text, 5) == Some(v));
    lemma_big_endian(n);
}

/// The digits of a number without its last digit, and the last digit.
proof fn lemma_next_digit(v: int, unit: int)
    requires
        0 <= v,
        0 < unit,
    ensures
        v / (unit * 85) * 85 + v / unit % 85 == v / unit,
{
    vstd::arithmetic::div_mod::lemma_div_denominator(v, unit, 85);
    vstd::arithmetic::div_mod::lemma_fundamental_div_mod(v / unit, 85);
}

/// One digit more is read.
proof fn lemma_digit_read(text: Seq<char>, n: int, high: int, low: int)
    requires
        n > 0,
        base85_number(text, n - 1) == Some(high),
        base85_value(text[n - 1]) == Some(low),
    ensures
        base85_number(text, n) == Some(high * 85 + low),
{
}

/// The bytes of a number, most significant first.
proof fn lemma_big_endian(n: u32)
    ensures
        big_endian(n).len() == 4,
        n == big_endian(n)[0] * 0x1000000 + big_endian(n)[1] * 0x10000 + big_endian(n)[2] * 0x100
            + big_endian(n)[3],
{
    let v = n as int;
    let bytes = big_endian(n);
    assert(bytes[0] == v / 0x1000000);
    assert(bytes[1] == v / 0x10000 % 0x100);
    assert(bytes[2] == v / 0x100 % 0x100);
    assert(bytes[3] == v % 0x100);
}

/// A path that is a URL stands for itself; any other path stands for what it is under the table
/// root as a directory. It is refused exactly where it is neither.
pub proof fn law_paths_are_made_absolute(
    absolute: Result<Seq<char>, Seq<char>>,
    path: Seq<char>,
    table_root: Seq<char>,
)
    ensures
        ({
            let joined = joined_path(table_root, path);
            let directory = directory_text(table_root);
            let result = absolute_path(absolute, joined, path, table_root);
            &&& absolute matches Ok(url) ==> result == Ok::<Seq<char>, ErrorModel>(url)
            &&& absolute is Err ==> match parsed_url(directory) {
                Ok(base) => match base.join(path) {
                    Ok(url) => result == Ok::<Seq<char>, ErrorModel>(url),
                    Err(_) => result is Err,
                },
                Err(_) => result is Err,
            }
            &&& directory.len() > 0 && directory.last() == '/'
            &&& table_root.is_prefix_of(directory)
            &&& directory.len() <= table_root.len() + 1
            &&& table_root.len() > 0 && table_root.last() == '/' ==> directory == table_root
        }),
{
    reveal_strlit("/");
    let directory = directory_text(table_root);
    assert(table_root =~= directory.take(table_root.len() as int));
}

/// The partition type of a table has one field for each partition column, in the order of the
/// columns: nullable, with the name and the type of the column and its Parquet field id.
pub proof fn law_partition_types_follow_their_columns(
    columns: Seq<Seq<char>>,
    table: Seq<FieldModel>,
    i: int,
)
    requires
        0 <= i < columns.len(),
        forall|a: int, b: int|
            0 <= a < b < columns.len() ==> #[trigger] columns[a] != #[trigger] columns[b],
        forall|a: int|
            0 <= a < columns.len() ==> find_field(table, #[trigger] columns[a]) is Some,
    ensures
        partition_type_of(columns, table) matches Some(fields) && {
            let column = find_field(table, columns[i])->0;
            &&& fields.len() == columns.len()
            &&& fields[i].name == columns[i]
            &&& fields[i].data_type == column.data_type
            &&& fields[i].nullable
            &&& column.metadata.contains_key("PARQUET:field_id"@)
                && column.metadata["PARQUET:field_id"@] is Number
                ==> fields[i].metadata.contains_key("PARQUET:field_id"@)
                && fields[i].metadata["PARQUET:field_id"@]
                == column.metadata["PARQUET:field_id"@]
            &&& forall|key: Seq<char>| #[trigger]
                fields[i].metadata.contains_key(key) ==> key == "PARQUET:field_id"@
                    && column.metadata.contains_key(key) && fields[i].metadata[key]
                    == column.metadata[key]
        },
{
    let n = columns.len() as int;
    let list = partition_fields(columns, table, n);
    lemma_partition_list(columns, table, n);
    assert(apart(list)) by {
        assert forall|a: int, b: int| 0 <= a < b < list.len() implies (#[trigger] list[a]).name != (
        #[trigger] list[b]).name by {
            assert(columns[a] != columns[b]);
        }
    }
    lemma_distinct_same(list);
    assert(partition_field(columns[i], table) == Some(list[i]));
}

/// Where the table has every partition column, each has its partition field.
proof fn lemma_partition_list(columns: Seq<Seq<char>>, table: Seq<FieldModel>, n: int)
    requires
        0 <= n <= columns.len(),
        forall|a: int|
            0 <= a < columns.len() ==> find_field(table, #[trigger] columns[a]) is Some,
    ensures
        partition_fields(columns, table, n).len() == n,
        forall|a: int|
            0 <= a < n ==> partition_field(#[trigger] columns[a], table) == Some(
                partition_fields(columns, table, n)[a],
            ),
        forall|a: int|
            0 <= a < n ==> (#[trigger] partition_fields(columns, table, n)[a]).name == columns[a],
    decreases n,
{
    if n > 0 {
        lemma_partition_list(columns, table, n - 1);
        let head = partition_fields(columns, table, n - 1);
        let all = partition_fields(columns, table, n);
        assert(find_field(table, columns[n - 1]) is Some);
        assert(all == head.push(partition_field(columns[n - 1], table)->0));
        assert forall|a: int| 0 <= a < n implies partition_field(#[trigger] columns[a], table)
            == Some(all[a]) by {
            if a < n - 1 {
                assert(all[a] == head[a]);
            }
        }
        assert forall|a: int| 0 <= a < n implies (#[trigger] all[a]).name == columns[a] by {
            if a < n - 1 {
                assert(all[a] == head[a]);
            }
        }
    }
}

/// Row ids are for live data files and live data manifests: such an entry without a first row id
/// is given the cursor, and any other entry stays as it is. The cursor moves past the records of
/// a data file, and past the added and existing rows of a manifest; past an entry that has its
/// range already only where that reaches further.
pub proof fn law_row_ids_are_for_live_rows(entry: EntryModel, cursor: int)
    ensures
        ({
            let live = entry.tracking.status != TrackingStatus::Deleted && (entry.content_type
                == DataContentType::Data || entry.content_type == DataContentType::DataManifest);
            let span = if entry.content_type == DataContentType::Data {
                entry.record_count as int
            } else {
                match entry.manifest_info {
                    Some(info) => info.added_rows_count + info.existing_rows_count,
                    None => 0int,
                }
            };
            let after = assigned_entry(entry, cursor);
            &&& after.tracking.first_row_id == if live && entry.tracking.first_row_id is None {
                Some(cursor as i64)
            } else {
                entry.tracking.first_row_id
            }
            &&& after == EntryModel { tracking: after.tracking, ..entry }
            &&& after.tracking.status == entry.tracking.status
            &&& after.tracking.snapshot_id == entry.tracking.snapshot_id
            &&& after.tracking.sequence_number == entry.tracking.sequence_number
            &&& after.tracking.file_sequence_number == entry.tracking.file_sequence_number
            &&& cursor_after(entry, cursor) == if !live {
                cursor
            } else {
                match entry.tracking.first_row_id {
                    None => cursor + span,
                    Some(first) => if first + span > cursor {
                        first + span
                    } else {
                        cursor
                    },
                }
            }
        }),
{
}

/// Every partition column that the table has is in the partition type, and no other column.
pub proof fn law_partition_types_hold_the_columns_there_are(
    columns: Seq<Seq<char>>,
    table: Seq<FieldModel>,
    name: Seq<char>,
)
    ensures
        columns.contains(name) && find_field(table, name) is Some <==> (partition_type_of(
            columns,
            table,
        ) matches Some(fields) && find_field(fields, name) is Some),
{
    let n = columns.len() as int;
    let list = partition_fields(columns, table, n);
    lemma_partition_found(columns, table, n, name);
    if partition_type_of(columns, table) is None {
        assert(distinct_fields(list) =~= Seq::empty());
    }
    if columns.contains(name) {
        let i = choose|i: int| 0 <= i < columns.len() && columns[i] == name;
        assert(columns[i] == name);
    }
}

/// A name is found among partition fields exactly where it is a partition column of the table.
proof fn lemma_partition_found(
    columns: Seq<Seq<char>>,
    table: Seq<FieldModel>,
    n: int,
    name: Seq<char>,
)
    requires
        0 <= n <= columns.len(),
    ensures
        find_field(distinct_fields(partition_fields(columns, table, n)), name) is Some <==> {
            &&& find_field(table, name) is Some
            &&& exists|i: int| 0 <= i < n && #[trigger] columns[i] == name
        },
    decreases n,
{
    if n > 0 {
        lemma_partition_found(columns, table, n - 1, name);
        let head = partition_fields(columns, table, n - 1);
        if let Some(field) = partition_field(columns[n - 1], table) {
            lemma_distinct_push(head, field, name);
        }
        if exists|i: int| 0 <= i < n - 1 && #[trigger] columns[i] == name {
            let i = choose|i: int| 0 <= i < n - 1 && #[trigger] columns[i] == name;
            assert(columns[i] == name);
        }
    } else {
        lemma_field_index_bounds(distinct_fields(partition_fields(columns, table, 0)), name, 0);
    }
}

/// The first row that cannot be decoded.
pub proof fn law_first_undecodable_row_is_found(rows: Seq<DvRowModel>, from: int)
    requires
        0 <= from <= rows.len(),
    ensures
        ({
            let at = first_undecodable(rows, from);
            &&& from <= at <= rows.len()
            &&& at < rows.len() ==> decoded_row(rows[at]) is Err
            &&& forall|i: int| from <= i < at ==> decoded_row(#[trigger] rows[i]) is Ok
        }),
    decreases rows.len() - from,
{
    if from < rows.len() && decoded_row(rows[from]) is Ok {
        law_first_undecodable_row_is_found(rows, from + 1);
    }
}

/// The numbers of content types and statuses tell them apart.
pub proof fn law_numbers_tell_kinds_apart(
    one: DataContentType,
    other: DataContentType,
    status: TrackingStatus,
    other_status: TrackingStatus,
)
    ensures
        one.number() == other.number() <==> one == other,
        status.number() == other_status.number() <==> status == other_status,
        0 <= one.number() <= 5,
        0 <= status.number() <= 4,
{
}

} // verus!
