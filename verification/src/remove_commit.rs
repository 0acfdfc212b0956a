//! Remove actions that are committed to the log of a table with a metadata tree: they carry
//! extended file metadata and statistics.

use vstd::prelude::*;

use crate::columns::SelectedColumns;
use crate::error::{generic, viewed, DeltaResult, Error, ErrorKind, ErrorModel};
use crate::expression::{
    column, struct_from, texts, Expression, ExpressionList, ExpressionModel, FieldTransform,
    StepModel, Transform,
};
use crate::names::{DELTA_STATS_NUM_RECORDS, NEW_DELETION_VECTOR_NAME, STATS_PARSED_NAME};
use crate::projection::{EvaluatorRequest, RequestModel};
use crate::schema::{
    find_field, long_type, nullable_field, string_type, struct_type, DataType, FieldList,
    FieldModel, StructField, StructType,
};
use crate::selection::is_selected;

verus! {

/// The row of a removed file, as far as it is checked.
#[derive(Debug)]
pub struct RemoveRow {
    pub path: Option<String>,
    pub size: Option<i64>,
    pub stats: Option<String>,
    /// The manifest of the back reference.
    pub manifest: Option<String>,
    /// The position of the back reference.
    pub position: Option<i64>,
}

/// A batch of removed files.
#[derive(Debug)]
pub struct RemoveBatch {
    /// Whether the batch has a column of parsed statistics.
    pub has_stats_parsed: bool,
    /// Whether the batch has a column of record counts.
    pub has_num_records: bool,
    pub rows: Vec<RemoveRow>,
    pub selection_vector: Vec<bool>,
}

/// The model of a [`RemoveRow`].
pub ghost struct RemoveModel {
    pub path: Option<Seq<char>>,
    pub size: Option<i64>,
    pub stats: Option<Seq<char>>,
    pub manifest: Option<Seq<char>>,
    pub position: Option<i64>,
}

/// The model of a [`RemoveBatch`].
pub ghost struct RemoveBatchModel {
    pub has_stats_parsed: bool,
    pub has_num_records: bool,
    pub rows: Seq<RemoveModel>,
    pub selection: Seq<bool>,
}

impl View for RemoveRow {
    type V = RemoveModel;

    open spec fn view(&self) -> RemoveModel {
        RemoveModel {
            path: viewed(self.path),
            size: self.size,
            stats: viewed(self.stats),
            manifest: viewed(self.manifest),
            position: self.position,
        }
    }
}

impl View for RemoveBatch {
    type V = RemoveBatchModel;

    open spec fn view(&self) -> RemoveBatchModel {
        RemoveBatchModel {
            has_stats_parsed: self.has_stats_parsed,
            has_num_records: self.has_num_records,
            rows: Seq::new(self.rows@.len(), |i: int| self.rows@[i]@),
            selection: self.selection_vector@,
        }
    }
}

/// The models of a list of batches.
pub open spec fn remove_batch_models(batches: Seq<RemoveBatch>) -> Seq<RemoveBatchModel> {
    Seq::new(batches.len(), |i: int| batches[i]@)
}

/// The error for a removed file without size or statistics.
pub open spec fn remove_metadata_missing(path: Seq<char>) -> ErrorModel {
    ErrorModel {
        kind: ErrorKind::InvalidTransactionState,
        message: "metadataTree-experimental log commits require remove actions to carry stats and size (extended file metadata), but they are missing for file '"@
            + path + "'"@,
    }
}

/// The error for a back reference of which one half is missing.
pub open spec fn back_reference_incomplete() -> ErrorModel {
    generic(
        "fileConstantValues.backReference.manifest and fileConstantValues.backReference.pos must both be present or absent"@,
    )
}

/// What is wrong with the row of a removed file: half of a back reference, or no size, or no
/// statistics where they can come from nowhere else. A row without a path is passed over, and
/// a back reference is not required.
pub open spec fn remove_row_error(row: RemoveModel, stats_required: bool) -> Option<ErrorModel> {
    match row.path {
        None => None,
        Some(path) => if row.manifest is Some != row.position is Some {
            Some(back_reference_incomplete())
        } else if row.size is None || (stats_required && row.stats is None) {
            Some(remove_metadata_missing(path))
        } else {
            None
        },
    }
}

impl RemoveBatchModel {
    /// Whether the statistics can come only from the JSON text of a row.
    pub open spec fn stats_required(self) -> bool {
        !self.has_stats_parsed && !self.has_num_records
    }

    /// What is wrong with the first bad row among the first `n` selected rows.
    pub open spec fn error(self, n: int) -> Option<ErrorModel>
        decreases n,
    {
        if n <= 0 {
            None
        } else if self.error(n - 1) is Some {
            self.error(n - 1)
        } else if is_selected(self.selection, n - 1) {
            remove_row_error(self.rows[n - 1], self.stats_required())
        } else {
            None
        }
    }
}

/// What is wrong with the first bad batch among the first `n` batches.
pub open spec fn remove_error(batches: Seq<RemoveBatchModel>, n: int) -> Option<ErrorModel>
    decreases n,
{
    if n <= 0 {
        None
    } else if remove_error(batches, n - 1) is Some {
        remove_error(batches, n - 1)
    } else {
        batches[n - 1].error(batches[n - 1].rows.len() as int)
    }
}

/// An error among the first rows is the error of all of them.
proof fn lemma_row_error(batch: RemoveBatchModel, m: int, n: int)
    requires
        0 <= m <= n,
        batch.error(m) is Some,
    ensures
        batch.error(n) == batch.error(m),
    decreases n,
{
    if m < n {
        lemma_row_error(batch, m, n - 1);
    }
}

/// An error among the first batches is the error of all of them.
proof fn lemma_batch_error(batches: Seq<RemoveBatchModel>, m: int, n: int)
    requires
        0 <= m <= n,
        remove_error(batches, m) is Some,
    ensures
        remove_error(batches, n) == remove_error(batches, m),
    decreases n,
{
    if m < n {
        lemma_batch_error(batches, m, n - 1);
    }
}

/// Checks the row of one removed file.
fn check_remove_row(row: &RemoveRow, stats_required: bool) -> (checked: DeltaResult<()>)
    ensures
        match checked {
            Ok(_) => remove_row_error(row@, stats_required) is None,
            Err(e) => remove_row_error(row@, stats_required) == Some(e@),
        },
{
    let path: &String = match &row.path {
        Some(path) => path,
        None => {
            return Ok(());
        },
    };
    if row.manifest.is_some() != row.position.is_some() {
        return Err(
            Error::generic(
                "fileConstantValues.backReference.manifest and fileConstantValues.backReference.pos must both be present or absent".to_owned(),
            ),
        );
    }
    if row.size.is_none() || (stats_required && row.stats.is_none()) {
        let mut message =
            "metadataTree-experimental log commits require remove actions to carry stats and size (extended file metadata), but they are missing for file '".to_owned();
        message.append(path.as_str());
        message.append("'");
        return Err(Error::new(ErrorKind::InvalidTransactionState, message));
    }
    Ok(())
}

/// Checks one batch of removed files.
fn check_remove_batch(batch: &RemoveBatch) -> (checked: DeltaResult<()>)
    ensures
        match checked {
            Ok(_) => batch@.error(batch@.rows.len() as int) is None,
            Err(e) => batch@.error(batch@.rows.len() as int) == Some(e@),
        },
{
    let stats_required = !batch.has_stats_parsed && !batch.has_num_records;
    let mut i: usize = 0;
    while i < batch.rows.len()
        invariant
            i <= batch.rows@.len(),
            stats_required == batch@.stats_required(),
            batch@.error(i as int) is None,
        decreases batch.rows@.len() - i,
    {
        assert(batch@.rows[i as int] == batch.rows@[i as int]@);
        if i >= batch.selection_vector.len() || batch.selection_vector[i] {
            match check_remove_row(&batch.rows[i], stats_required) {
                Ok(_) => {},
                Err(e) => {
                    proof {
                        lemma_row_error(batch@, i + 1, batch@.rows.len() as int);
                    }
                    return Err(e);
                },
            }
        }
        i += 1;
    }
    Ok(())
}

/// Checks the files that are to be removed by log actions: each selected row has a size and
/// statistics. Statistics come from the JSON text of a row, from a column of record counts or
/// from a column of parsed statistics; the JSON text is required only where the batch has
/// neither of the columns.
pub fn validate_remove_metadata_for_amt_log_commit(batches: &Vec<RemoveBatch>) -> (checked:
    DeltaResult<()>)
    ensures
        match checked {
            Ok(_) => remove_error(remove_batch_models(batches@), batches@.len() as int) is None,
            Err(e) => remove_error(remove_batch_models(batches@), batches@.len() as int) == Some(
                e@,
            ),
        },
{
    let ghost models = remove_batch_models(batches@);
    let mut i: usize = 0;
    while i < batches.len()
        invariant
            i <= batches@.len(),
            models == remove_batch_models(batches@),
            remove_error(models, i as int) is None,
        decreases batches@.len() - i,
    {
        assert(models[i as int] == batches@[i as int]@);
        match check_remove_batch(&batches[i]) {
            Ok(_) => {},
            Err(e) => {
                proof {
                    lemma_batch_error(models, i + 1, models.len() as int);
                }
                return Err(e);
            },
        }
        i += 1;
    }
    Ok(())
}

/// The columns that the check reads.
pub fn remove_metadata_columns() -> (columns: SelectedColumns)
    ensures
        columns.wf(),
        columns@ == Seq::empty().push(("path"@, string_type())).push(("size"@, long_type())).push(
            ("stats"@, string_type()),
        ).push(("fileConstantValues.backReference.manifest"@, string_type())).push(
            ("fileConstantValues.backReference.pos"@, long_type()),
        ),
{
    SelectedColumns::new().with("path", DataType::string()).with("size", DataType::long()).with(
        "stats",
        DataType::string(),
    ).with("fileConstantValues.backReference.manifest", DataType::string()).with(
        "fileConstantValues.backReference.pos",
        DataType::long(),
    )
}

/// The fields of parsed statistics that hold the number of records alone.
pub open spec fn minimal_stats_field() -> FieldModel {
    nullable_field(
        STATS_PARSED_NAME@,
        struct_type(Seq::empty().push(nullable_field(DELTA_STATS_NUM_RECORDS@, long_type()))),
    )
}

/// The transform that appends parsed statistics made of the record count.
pub open spec fn stats_prep_request(input: Seq<FieldModel>) -> RequestModel {
    RequestModel {
        input_schema: input,
        expression: ExpressionModel::Transform(
            Seq::empty(),
            Seq::empty().push(
                StepModel::Inserted(
                    if input.len() == 0 {
                        None
                    } else {
                        Some(input.last().name)
                    },
                    struct_from(Seq::empty().push(column(DELTA_STATS_NUM_RECORDS@))),
                ),
            ),
        ),
        output_type: struct_type(input.push(minimal_stats_field())),
    }
}

/// Requests the transform that appends parsed statistics, made of the record count, behind the
/// last column.
pub fn build_stats_prep_evaluator_for_input(input_schema: StructType) -> (request: EvaluatorRequest)
    ensures
        request@ == stats_prep_request(input_schema@),
{
    let insert_after: Option<String> = if input_schema.fields.len() == 0 {
        None
    } else {
        Some(input_schema.fields[input_schema.fields.len() - 1].name.clone())
    };
    let stats = StructType::new_unchecked(
        FieldList::new().with(StructField::nullable(DELTA_STATS_NUM_RECORDS, DataType::long())),
    );
    let output_schema = StructType::new_unchecked(
        FieldList::new().with_all(&input_schema).with(
            StructField::nullable(STATS_PARSED_NAME, DataType::structure(stats)),
        ),
    );
    proof {
        assert(Seq::<FieldModel>::empty() + input_schema@ =~= input_schema@);
    }
    let made = Expression::struct_from(
        ExpressionList::new().with(Expression::column(DELTA_STATS_NUM_RECORDS)),
    );
    let mut steps: Vec<FieldTransform> = Vec::new();
    steps.push(FieldTransform::Inserted(insert_after, made));
    let expression = Expression::Transform(Transform { input_path: Vec::new(), steps });
    proof {
        assert(texts(Seq::<String>::empty()) =~= Seq::<Seq<char>>::empty());
        assert(expression@->Transform_0 =~= stats_prep_request(
            input_schema@,
        ).expression->Transform_0);
        let step = stats_prep_request(input_schema@).expression->Transform_1[0];
        assert(input_schema@.len() > 0 ==> input_schema@.last()
            == input_schema.fields@.last()@);
        assert(steps@[0].view() == step);
        assert(expression@->Transform_1 =~= Seq::empty().push(step));
    }
    EvaluatorRequest { input_schema, expression, output_type: DataType::structure(output_schema) }
}

/// Whether the columns that are dropped mark a batch of deletion vector updates.
pub fn is_deletion_vector_update(columns_to_drop: &Vec<String>) -> (update: bool)
    ensures
        update == texts(columns_to_drop@).contains(NEW_DELETION_VECTOR_NAME@),
{
    let wanted = NEW_DELETION_VECTOR_NAME.to_owned();
    let mut i: usize = 0;
    while i < columns_to_drop.len()
        invariant
            i <= columns_to_drop@.len(),
            wanted@ == NEW_DELETION_VECTOR_NAME@,
            forall|j: int|
                0 <= j < i ==> #[trigger] texts(columns_to_drop@)[j] != NEW_DELETION_VECTOR_NAME@,
        decreases columns_to_drop@.len() - i,
    {
        if columns_to_drop[i] == wanted {
            assert(texts(columns_to_drop@)[i as int] == NEW_DELETION_VECTOR_NAME@);
            return true;
        }
        i += 1;
    }
    false
}

/// Requests the transform that `prepare_remove_scan_batch_for_amt` uses, where removes are
/// committed to the log of a table with a metadata tree. Batches of deletion vector updates
/// have a schema of their own.
pub fn build_remove_stats_prep_evaluator(
    uses_amt_log_commit: bool,
    columns_to_drop: &Vec<String>,
    scan_row_schema: &StructType,
    intermediate_dv_schema: &StructType,
) -> (request: Option<EvaluatorRequest>)
    ensures
        viewed(request) == (if !uses_amt_log_commit {
            None
        } else if texts(columns_to_drop@).contains(NEW_DELETION_VECTOR_NAME@) {
            Some(stats_prep_request(intermediate_dv_schema@))
        } else {
            Some(stats_prep_request(scan_row_schema@))
        }),
{
    if !uses_amt_log_commit {
        return None;
    }
    let input_schema = if is_deletion_vector_update(columns_to_drop) {
        intermediate_dv_schema.clone()
    } else {
        scan_row_schema.clone()
    };
    Some(build_stats_prep_evaluator_for_input(input_schema))
}

/// Says which transform, if any, a batch has to go through before removes are made of it: none
/// without a transform, where the batch has parsed statistics, and where it has no record
/// counts to make them of.
pub fn prepare_remove_scan_batch_for_amt<'a>(
    prep_evaluator: Option<&'a EvaluatorRequest>,
    batch_schema: &StructType,
) -> (request: Option<&'a EvaluatorRequest>)
    ensures
        request == (if find_field(batch_schema@, STATS_PARSED_NAME@) is None && find_field(
            batch_schema@,
            DELTA_STATS_NUM_RECORDS@,
        ) is Some {
            prep_evaluator
        } else {
            None
        }),
{
    if prep_evaluator.is_none() {
        return None;
    }
    if batch_schema.field(STATS_PARSED_NAME).is_some() {
        return None;
    }
    if batch_schema.field(DELTA_STATS_NUM_RECORDS).is_none() {
        return None;
    }
    prep_evaluator
}

} // verus!
