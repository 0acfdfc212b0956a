//! Adding the files that `add` actions name.

use vstd::prelude::*;

use crate::builder::{BuilderModel, ContentTreeNodeBuilder, Version};
use crate::deletion_vector::{
    extract_deletion_vector_content, extracted_dv, DeletionVectorDescriptor, DescriptorModel,
    DvModel,
};
use crate::entry::{
    fresh_entry, fresh_tracking, ContentTreeNodeEntryBuilder, DataContentType, EntryModel, Tags,
    TrackingStatus,
};
use crate::error::{generic, outcome, viewed, DeltaResult, Error, ErrorKind, ErrorModel};
use crate::expression::{Scalar, ScalarModel, StructData, StructDataModel};
use crate::json::{integer_under, read_json_integer};
use crate::location::{join_url, made_text, parse_url, parsed_url, url_str};
use crate::schema::{DataType, FieldModel, StructField, StructType, TypeModel};
use crate::type_text::{describe_type, type_text};

verus! {

/// The value of a partition column, read as a value of the column's type.
pub struct PartitionValue {
    pub column: String,
    pub value: DeltaResult<Scalar>,
}

/// What the library reads of an `add` action.
pub struct Add {
    pub path: String,
    pub partition_values: Vec<PartitionValue>,
    pub size: i64,
    pub stats: Option<String>,
    pub tags: Option<Tags>,
    pub deletion_vector: Option<DeletionVectorDescriptor>,
}

/// The model of a [`PartitionValue`].
pub ghost struct PartitionModel {
    pub column: Seq<char>,
    pub value: Result<ScalarModel, ErrorModel>,
}

/// The model of an [`Add`].
pub ghost struct AddModel {
    pub path: Seq<char>,
    pub partition_values: Seq<PartitionModel>,
    pub size: i64,
    pub stats: Option<Seq<char>>,
    pub tags: Option<Seq<(Seq<char>, Seq<char>)>>,
    pub deletion_vector: Option<DescriptorModel>,
}

/// The models of a list of partition values.
pub open spec fn partition_models(values: Seq<PartitionValue>) -> Seq<PartitionModel> {
    Seq::new(
        values.len(),
        |i: int| PartitionModel { column: values[i].column@, value: outcome(values[i].value) },
    )
}

impl View for Add {
    type V = AddModel;

    open spec fn view(&self) -> AddModel {
        AddModel {
            path: self.path@,
            partition_values: partition_models(self.partition_values@),
            size: self.size,
            stats: viewed(self.stats),
            tags: viewed(self.tags),
            deletion_vector: viewed(self.deletion_vector),
        }
    }
}

/// The error for a partition column whose type is not primitive.
pub open spec fn partition_not_primitive(column: Seq<char>, data_type: TypeModel) -> ErrorModel {
    generic("partition field '"@ + column + "' has non-primitive type "@ + type_text(data_type))
}

/// The index at or after `from` of the value of a column, `values.len()` where there is none.
pub open spec fn partition_index(values: Seq<PartitionModel>, column: Seq<char>, from: int) -> int
    decreases values.len() - from,
{
    if from >= values.len() {
        values.len() as int
    } else if values[from].column == column {
        from
    } else {
        partition_index(values, column, from + 1)
    }
}

/// The partition value of a field: the null of its type where the action names none.
pub open spec fn partition_scalar(
    field: FieldModel,
    values: Seq<PartitionModel>,
) -> Result<ScalarModel, ErrorModel> {
    let at = partition_index(values, field.name, 0);
    if at >= values.len() {
        Ok(ScalarModel::Null(field.data_type))
    } else if field.data_type is Primitive {
        values[at].value
    } else {
        Err(partition_not_primitive(field.name, field.data_type))
    }
}

/// The partition values of the first `n` fields; the error of the first field that has one.
pub open spec fn partition_scalars(
    fields: Seq<FieldModel>,
    values: Seq<PartitionModel>,
    n: int,
) -> Result<Seq<ScalarModel>, ErrorModel>
    decreases n,
{
    if n <= 0 {
        Ok(Seq::empty())
    } else {
        match partition_scalars(fields, values, n - 1) {
            Ok(head) => match partition_scalar(fields[n - 1], values) {
                Ok(scalar) => Ok(head.push(scalar)),
                Err(e) => Err(e),
            },
            Err(e) => Err(e),
        }
    }
}

/// The partition tuple of a file, `None` for a table without partition columns.
pub open spec fn partition_data(
    partition_type: Option<Seq<FieldModel>>,
    values: Seq<PartitionModel>,
) -> Result<Option<StructDataModel>, ErrorModel> {
    match partition_type {
        None => Ok(None),
        Some(fields) => if fields.len() == 0 {
            Ok(None)
        } else {
            match partition_scalars(fields, values, fields.len() as int) {
                Ok(scalars) => Ok(Some(StructDataModel { fields, values: scalars })),
                Err(e) => Err(e),
            }
        },
    }
}

/// An error among the first fields is the error of all of them.
proof fn lemma_partition_error(
    fields: Seq<FieldModel>,
    values: Seq<PartitionModel>,
    m: int,
    n: int,
)
    requires
        0 <= m <= n,
        partition_scalars(fields, values, m) is Err,
    ensures
        partition_scalars(fields, values, n) == partition_scalars(fields, values, m),
    decreases n,
{
    if m < n {
        lemma_partition_error(fields, values, m, n - 1);
    }
}

/// The number of records, given what was found under `numRecords` in the statistics.
pub open spec fn record_count_found(found: Result<Option<i64>, Seq<char>>) -> Result<i64, ErrorModel> {
    match found {
        Ok(Some(n)) => Ok(n),
        Ok(None) => Err(ErrorModel { kind: ErrorKind::MissingData, message: "numRecords"@ }),
        Err(cause) => Err(generic("failed to parse stats JSON: "@ + cause)),
    }
}

/// The number of records of a file: none without statistics.
pub open spec fn record_count_of(stats: Option<Seq<char>>) -> Result<i64, ErrorModel> {
    match stats {
        Some(json) => record_count_found(integer_under(json, "numRecords"@)),
        None => Ok(0),
    }
}

/// The deletion vector of an action.
pub open spec fn dv_of(dv: Option<DescriptorModel>) -> Result<Option<DvModel>, ErrorModel> {
    match dv {
        Some(d) => match extracted_dv(d) {
            Ok(info) => Ok(Some(info)),
            Err(e) => Err(e),
        },
        None => Ok(None),
    }
}

/// The model of the statistics that an action was handed in with.
pub open spec fn stats_outcome(stats: DeltaResult<Option<StructData>>) -> Result<
    Option<StructDataModel>,
    ErrorModel,
> {
    match stats {
        Ok(s) => Ok(viewed(s)),
        Err(e) => Err(e@),
    }
}

/// The entry of an `add` action. Of several errors, the first counts: deletion vector, record
/// count, statistics, partition values.
pub open spec fn added_entry(
    add: AddModel,
    partition_type: Option<Seq<FieldModel>>,
    content_stats: Result<Option<StructDataModel>, ErrorModel>,
    version: Version,
    snapshot_id: i64,
    status: TrackingStatus,
) -> Result<EntryModel, ErrorModel> {
    match (
        dv_of(add.deletion_vector),
        record_count_of(add.stats),
        content_stats,
        partition_data(partition_type, add.partition_values),
    ) {
        (Ok(deletion_vector), Ok(record_count), Ok(content_stats), Ok(partition)) => Ok(
            EntryModel {
                location: Some(add.path),
                tracking: fresh_tracking(status, Some(version as i64), Some(snapshot_id)),
                deletion_vector,
                record_count,
                file_size_in_bytes: add.size,
                content_stats,
                tags: add.tags,
                partition,
                ..fresh_entry(DataContentType::Data)
            },
        ),
        (Err(e), _, _, _) => Err(e),
        (_, Err(e), _, _) => Err(e),
        (_, _, Err(e), _) => Err(e),
        (_, _, _, Err(e)) => Err(e),
    }
}

/// What adding an action does to a builder: nothing where the path was seen before.
pub open spec fn action_added(
    builder: BuilderModel,
    add: AddModel,
    content_stats: Result<Option<StructDataModel>, ErrorModel>,
    version: Version,
    snapshot_id: i64,
    status: TrackingStatus,
) -> (BuilderModel, Result<(), ErrorModel>) {
    if builder.seen.contains(add.path) {
        (builder, Ok(()))
    } else {
        let noted = BuilderModel { seen: builder.seen.insert(add.path), ..builder };
        match added_entry(
            add,
            builder.partition_type,
            content_stats,
            version,
            snapshot_id,
            status,
        ) {
            Ok(entry) => (BuilderModel { entries: builder.entries.push(entry), ..noted }, Ok(())),
            Err(e) => (noted, Err(e)),
        }
    }
}

/// The text of a directory URL: with a `/` at its end.
pub open spec fn directory_text(url: Seq<char>) -> Seq<char> {
    if url.len() > 0 && url.last() == '/' {
        url
    } else {
        url + "/"@
    }
}

/// The error for a path that cannot be joined to the table root.
pub open spec fn path_unjoinable(
    path: Seq<char>,
    table_root: Seq<char>,
    cause: Seq<char>,
) -> ErrorModel {
    generic(
        "Failed to join path '"@ + path + "' with table root '"@ + table_root + "': "@ + cause,
    )
}

/// What a path under a table root stands for.
pub open spec fn joined_path(table_root: Seq<char>, path: Seq<char>) -> Result<
    Seq<char>,
    Seq<char>,
> {
    match parsed_url(directory_text(table_root)) {
        Ok(base) => base.join(path),
        Err(cause) => Err(cause),
    }
}

/// The model of a text, or of the text of an error.
pub open spec fn text_outcome(text: Result<String, String>) -> Result<Seq<char>, Seq<char>> {
    match text {
        Ok(t) => Ok(t@),
        Err(cause) => Err(cause@),
    }
}

/// The absolute form of a path: the URL that it is, else the URL that it stands for under the
/// table root.
pub open spec fn absolute_path(
    absolute: Result<Seq<char>, Seq<char>>,
    joined: Result<Seq<char>, Seq<char>>,
    path: Seq<char>,
    table_root: Seq<char>,
) -> Result<Seq<char>, ErrorModel> {
    match (absolute, joined) {
        (Ok(url), _) => Ok(url),
        (Err(_), Ok(url)) => Ok(url),
        (Err(_), Err(cause)) => Err(path_unjoinable(path, table_root, cause)),
    }
}

/// The model of what was found in a JSON text, or of the text of the error.
pub open spec fn lookup_model(found: Result<Option<i64>, String>) -> Result<
    Option<i64>,
    Seq<char>,
> {
    match found {
        Ok(number) => Ok(number),
        Err(cause) => Err(cause@),
    }
}

/// The number of records, given what was found under `numRecords` in the statistics.
pub fn record_count_from_lookup(found: Result<Option<i64>, String>) -> (count: DeltaResult<i64>)
    ensures
        match count {
            Ok(n) => record_count_found(lookup_model(found)) == Ok::<i64, ErrorModel>(n),
            Err(e) => record_count_found(lookup_model(found)) == Err::<i64, ErrorModel>(e@),
        },
{
    match found {
        Ok(Some(n)) => Ok(n),
        Ok(None) => Err(Error::new(ErrorKind::MissingData, "numRecords".to_owned())),
        Err(cause) => {
            let mut message = "failed to parse stats JSON: ".to_owned();
            message.append(cause.as_str());
            Err(Error::generic(message))
        },
    }
}

/// The number of records that the statistics of a file name.
pub fn record_count_from_stats(stats: &Option<String>) -> (count: DeltaResult<i64>)
    ensures
        match count {
            Ok(n) => record_count_of(viewed(*stats)) == Ok::<i64, ErrorModel>(n),
            Err(e) => record_count_of(viewed(*stats)) == Err::<i64, ErrorModel>(e@),
        },
{
    match stats {
        Some(json) => record_count_from_lookup(read_json_integer(json.as_str(), "numRecords")),
        None => Ok(0),
    }
}

/// The absolute form of a path, given the URLs that it was parsed and joined to.
pub fn resolve_path(
    absolute: Result<String, String>,
    joined: Result<String, String>,
    path: &str,
    table_root: &str,
) -> (resolved: DeltaResult<String>)
    ensures
        outcome(resolved) == absolute_path(
            text_outcome(absolute),
            text_outcome(joined),
            path@,
            table_root@,
        ),
{
    match absolute {
        Ok(url) => Ok(url),
        Err(_) => match joined {
            Ok(url) => Ok(url),
            Err(cause) => {
                let mut message = "Failed to join path '".to_owned();
                message.append(path);
                message.append("' with table root '");
                message.append(table_root);
                message.append("': ");
                message.append(cause.as_str());
                Err(Error::generic(message))
            },
        },
    }
}

impl ContentTreeNodeBuilder {
    /// The partition tuple of a file, by the partition type of the builder.
    pub fn build_partition_data(&self, partition_values: &Vec<PartitionValue>) -> (data: DeltaResult<
        Option<StructData>,
    >)
        ensures
            match data {
                Ok(d) => partition_data(
                    self@.partition_type,
                    partition_models(partition_values@),
                ) == Ok::<Option<StructDataModel>, ErrorModel>(viewed(d)),
                Err(e) => partition_data(
                    self@.partition_type,
                    partition_models(partition_values@),
                ) == Err::<Option<StructDataModel>, ErrorModel>(e@),
            },
    {
        let partition_type: &StructType = match &self.partition_type {
            Some(fields) => fields,
            None => {
                return Ok(None);
            },
        };
        if partition_type.fields.len() == 0 {
            return Ok(None);
        }
        let ghost models = partition_models(partition_values@);
        let ghost all = partition_type@;
        let mut fields: Vec<StructField> = Vec::new();
        let mut values: Vec<Scalar> = Vec::new();
        let mut i: usize = 0;
        assert(Seq::new(0, |j: int| values@[j]@) =~= Seq::<ScalarModel>::empty());
        while i < partition_type.fields.len()
            invariant
                i <= partition_type.fields@.len(),
                models == partition_models(partition_values@),
                all == partition_type@,
                self@.partition_type == Some(all),
                all.len() > 0,
                fields@.len() == i,
                values@.len() == i,
                forall|j: int| 0 <= j < i ==> (#[trigger] fields@[j])@ == all[j],
                partition_scalars(all, models, i as int) == Ok::<Seq<ScalarModel>, ErrorModel>(
                    Seq::new(i as nat, |j: int| values@[j]@),
                ),
            decreases partition_type.fields@.len() - i,
        {
            let field = &partition_type.fields[i];
            assert(field@ == all[i as int]);
            let ghost so_far = values@;
            let scalar = match self.partition_scalar(field, partition_values) {
                Ok(scalar) => scalar,
                Err(e) => {
                    proof {
                        lemma_partition_error(all, models, i + 1, all.len() as int);
                    }
                    return Err(e);
                },
            };
            fields.push(field.clone());
            values.push(scalar);
            assert(Seq::new(i as nat, |j: int| so_far[j]@).push(scalar@) =~= Seq::new(
                (i + 1) as nat,
                |j: int| values@[j]@,
            ));
            i += 1;
        }
        let data = StructData { fields, values };
        assert(data@.fields =~= all);
        assert(data@.values =~= Seq::new(i as nat, |j: int| values@[j]@));
        Ok(Some(data))
    }

    /// The partition value of one field.
    fn partition_scalar(&self, field: &StructField, partition_values: &Vec<PartitionValue>) -> (scalar:
        DeltaResult<Scalar>)
        ensures
            outcome(scalar) == partition_scalar(field@, partition_models(partition_values@)),
    {
        let ghost models = partition_models(partition_values@);
        let mut i: usize = 0;
        while i < partition_values.len()
            invariant
                i <= partition_values@.len(),
                models == partition_models(partition_values@),
                partition_index(models, field@.name, 0) == partition_index(
                    models,
                    field@.name,
                    i as int,
                ),
            decreases partition_values@.len() - i,
        {
            if partition_values[i].column == field.name {
                let primitive = match field.data_type {
                    DataType::Primitive(_) => true,
                    _ => false,
                };
                if !primitive {
                    let mut message = "partition field '".to_owned();
                    message.append(field.name.as_str());
                    message.append("' has non-primitive type ");
                    message.append(describe_type(&field.data_type).as_str());
                    return Err(Error::generic(message));
                }
                return match &partition_values[i].value {
                    Ok(scalar) => Ok(scalar.clone()),
                    Err(e) => Err(e.clone()),
                };
            }
            i += 1;
        }
        Ok(Scalar::Null(field.data_type.clone()))
    }

    /// Adds the file of an action with the given status. An action whose path was seen before
    /// is passed over. `content_stats` are the statistics of the action in the form that
    /// entries have them; `version` becomes the sequence number.
    pub fn add_with_status(
        &mut self,
        add: Add,
        content_stats: DeltaResult<Option<StructData>>,
        version: Version,
        snapshot_id: i64,
        status: TrackingStatus,
    ) -> (added: DeltaResult<()>)
        requires
            old(self).wf(),
        ensures
            final(self).wf(),
            ({
                let (builder, result) = action_added(
                    old(self)@,
                    add@,
                    stats_outcome(content_stats),
                    version,
                    snapshot_id,
                    status,
                );
                &&& final(self)@ == builder
                &&& outcome(added) == result
            }),
    {
        if !self.values_seen.insert(add.path.clone()) {
            assert(self@.seen =~= old(self)@.seen);
            return Ok(());
        }
        let deletion_vector = match &add.deletion_vector {
            Some(dv) => match extract_deletion_vector_content(dv) {
                Ok(info) => Some(info),
                Err(e) => {
                    return Err(e);
                },
            },
            None => None,
        };
        let record_count = match record_count_from_stats(&add.stats) {
            Ok(count) => count,
            Err(e) => {
                return Err(e);
            },
        };
        let stats = match content_stats {
            Ok(stats) => stats,
            Err(e) => {
                return Err(e);
            },
        };
        let partition = match self.build_partition_data(&add.partition_values) {
            Ok(partition) => partition,
            Err(e) => {
                return Err(e);
            },
        };
        let entry = ContentTreeNodeEntryBuilder::new(DataContentType::Data).location(
            add.path.as_str(),
        ).with_tracking(status, version, snapshot_id).deletion_vector_opt(
            deletion_vector,
        ).record_count(record_count).file_size_in_bytes(add.size).content_stats_opt(stats).tags_opt(
            add.tags,
        ).partition_opt(partition).build();
        self.pending_entries.push(entry);
        assert(self@.entries =~= old(self)@.entries.push(entry@));
        Ok(())
    }

    /// Adds the file of an action as a new file.
    pub fn add(
        &mut self,
        add: Add,
        content_stats: DeltaResult<Option<StructData>>,
        version: Version,
        snapshot_id: i64,
    ) -> (added: DeltaResult<()>)
        requires
            old(self).wf(),
        ensures
            final(self).wf(),
            ({
                let (builder, result) = action_added(
                    old(self)@,
                    add@,
                    stats_outcome(content_stats),
                    version,
                    snapshot_id,
                    TrackingStatus::Added,
                );
                &&& final(self)@ == builder
                &&& outcome(added) == result
            }),
    {
        self.add_with_status(add, content_stats, version, snapshot_id, TrackingStatus::Added)
    }

    /// The absolute form of a path: an absolute URL stays as it is, a relative one is joined
    /// to the table root.
    pub fn path_to_absolute(&self, path: &str) -> (resolved: DeltaResult<String>)
        ensures
            outcome(resolved) == absolute_path(
                made_text(parsed_url(path@)),
                joined_path(self@.table_root.text, path@),
                path@,
                self@.table_root.text,
            ),
    {
        let root = url_str(&self.table_root);
        let absolute = match parse_url(path) {
            Ok(url) => {
                return Ok(url_str(&url).to_owned());
            },
            Err(cause) => Err(cause),
        };
        let mut directory = root.to_owned();
        let length: usize = root.unicode_len();
        let closed = length > 0 && root.get_char(length - 1) == '/';
        if !closed {
            directory.append("/");
        }
        assert(directory@ == directory_text(root@));
        let joined = match parse_url(directory.as_str()) {
            Ok(base) => match join_url(&base, path) {
                Ok(url) => Ok(url_str(&url).to_owned()),
                Err(cause) => Err(cause),
            },
            Err(cause) => Err(cause),
        };
        resolve_path(absolute, joined, path, root)
    }
}

} // verus!
