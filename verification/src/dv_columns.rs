//! Deletion vectors of rows, decoded into flat columns.

use vstd::prelude::*;

use crate::columns::SelectedColumns;
use crate::deletion_vector::{
    extract_deletion_vector_content, extracted_dv, storage_type_of, unknown_storage_type,
    DeletionVectorDescriptor, DeletionVectorStorageType, DescriptorModel, DvModel,
};
use crate::error::{viewed, DeltaResult, Error, ErrorKind, ErrorModel};
use crate::expression::{scalar_models, Scalar, ScalarModel};
use crate::projection::{dv_decoded_flat_schema, flat_dv_fields};
use crate::schema::{integer_type, long_type, string_type, DataType, StructType, TypeModel};

verus! {

/// The deletion vector columns of a row, as the engine reads them.
#[derive(Debug)]
pub struct DvRow {
    pub storage_type: Option<String>,
    pub path_or_inline_dv: Option<String>,
    pub offset: Option<i32>,
    pub size_in_bytes: Option<i32>,
    pub cardinality: Option<i64>,
}

/// The model of a [`DvRow`].
pub ghost struct DvRowModel {
    pub storage_type: Option<Seq<char>>,
    pub path_or_inline_dv: Option<Seq<char>>,
    pub offset: Option<i32>,
    pub size_in_bytes: Option<i32>,
    pub cardinality: Option<i64>,
}

impl View for DvRow {
    type V = DvRowModel;

    open spec fn view(&self) -> DvRowModel {
        DvRowModel {
            storage_type: viewed(self.storage_type),
            path_or_inline_dv: viewed(self.path_or_inline_dv),
            offset: self.offset,
            size_in_bytes: self.size_in_bytes,
            cardinality: self.cardinality,
        }
    }
}

/// The models of a list of rows.
pub open spec fn dv_row_models(rows: Seq<DvRow>) -> Seq<DvRowModel> {
    Seq::new(rows.len(), |i: int| rows[i]@)
}

/// The error for a column that is null where a value is needed.
pub open spec fn value_missing(field: Seq<char>) -> ErrorModel {
    ErrorModel { kind: ErrorKind::MissingData, message: "Data missing for field "@ + field }
}

/// Makes the error for a column that is null where a value is needed.
pub fn missing_value(field: &str) -> (error: Error)
    ensures
        error@ == value_missing(field@),
{
    let mut message = "Data missing for field ".to_owned();
    message.append(field);
    Error::new(ErrorKind::MissingData, message)
}

/// The deletion vector of a row: none without a storage type, else all of it has to be there
/// and to be usable.
pub open spec fn decoded_row(row: DvRowModel) -> Result<Option<DvModel>, ErrorModel> {
    match row.storage_type {
        None => Ok(None),
        Some(letter) => match storage_type_of(letter) {
            None => Err(unknown_storage_type(letter)),
            Some(storage_type) => match (
                row.path_or_inline_dv,
                row.size_in_bytes,
                row.cardinality,
            ) {
                (None, _, _) => Err(value_missing("deletionVector.pathOrInlineDv"@)),
                (_, None, _) => Err(value_missing("deletionVector.sizeInBytes"@)),
                (_, _, None) => Err(value_missing("deletionVector.cardinality"@)),
                (Some(path_or_inline_dv), Some(size_in_bytes), Some(cardinality)) => {
                    match extracted_dv(
                        DescriptorModel {
                            storage_type,
                            path_or_inline_dv,
                            offset: row.offset,
                            size_in_bytes,
                            cardinality,
                        },
                    ) {
                        Ok(info) => Ok(Some(info)),
                        Err(e) => Err(e),
                    }
                },
            },
        },
    }
}

/// The four flat columns.
#[verifier::ext_equal]
pub ghost struct DvColumns {
    pub paths: Seq<ScalarModel>,
    pub offsets: Seq<ScalarModel>,
    pub sizes: Seq<ScalarModel>,
    pub cardinalities: Seq<ScalarModel>,
}

impl DvColumns {
    /// The columns with one row more: the values of its deletion vector, or four nulls.
    pub open spec fn push(self, dv: Option<DvModel>) -> DvColumns {
        match dv {
            Some(info) => DvColumns {
                paths: self.paths.push(ScalarModel::String(info.location)),
                offsets: self.offsets.push(ScalarModel::Long(info.offset)),
                sizes: self.sizes.push(ScalarModel::Long(info.size_in_bytes)),
                cardinalities: self.cardinalities.push(ScalarModel::Long(info.cardinality)),
            },
            None => DvColumns {
                paths: self.paths.push(ScalarModel::Null(string_type())),
                offsets: self.offsets.push(ScalarModel::Null(long_type())),
                sizes: self.sizes.push(ScalarModel::Null(long_type())),
                cardinalities: self.cardinalities.push(ScalarModel::Null(long_type())),
            },
        }
    }

    /// Whether any row has a deletion vector.
    pub open spec fn has_any(self) -> bool {
        exists|i: int| 0 <= i < self.paths.len() && !(#[trigger] self.paths[i] is Null)
    }
}

/// The columns without rows.
pub open spec fn no_dv_columns() -> DvColumns {
    DvColumns {
        paths: Seq::empty(),
        offsets: Seq::empty(),
        sizes: Seq::empty(),
        cardinalities: Seq::empty(),
    }
}

/// The columns after the first `n` rows; the error of the first row that has one.
pub open spec fn decoded_columns(
    start: DvColumns,
    rows: Seq<DvRowModel>,
    n: int,
) -> Result<DvColumns, ErrorModel>
    decreases n,
{
    if n <= 0 {
        Ok(start)
    } else {
        match decoded_columns(start, rows, n - 1) {
            Ok(columns) => match decoded_row(rows[n - 1]) {
                Ok(dv) => Ok(columns.push(dv)),
                Err(e) => Err(e),
            },
            Err(e) => Err(e),
        }
    }
}

/// The index at or after `from` of the first row that cannot be decoded, `rows.len()` where there
/// is none.
pub open spec fn first_undecodable(rows: Seq<DvRowModel>, from: int) -> int
    decreases rows.len() - from,
{
    if from >= rows.len() {
        rows.len() as int
    } else if decoded_row(rows[from]) is Err {
        from
    } else {
        first_undecodable(rows, from + 1)
    }
}

/// An error among the first rows is the error of all of them.
pub proof fn lemma_decoded_error(start: DvColumns, rows: Seq<DvRowModel>, m: int, n: int)
    requires
        0 <= m <= n,
        decoded_columns(start, rows, m) is Err,
    ensures
        decoded_columns(start, rows, n) == decoded_columns(start, rows, m),
    decreases n,
{
    if m < n {
        lemma_decoded_error(start, rows, m, n - 1);
    }
}

/// Columns to append to a batch, with their schema.
#[derive(Debug)]
pub struct AppendedColumns {
    pub schema: StructType,
    pub columns: Vec<Vec<Scalar>>,
}

/// Decodes the deletion vectors of rows into flat columns: path, offset, size of the blob and
/// cardinality, or four nulls.
#[derive(Debug)]
pub struct DecodedDvVisitor {
    pub decoded_paths: Vec<Scalar>,
    pub decoded_offsets: Vec<Scalar>,
    pub decoded_sizes: Vec<Scalar>,
    pub decoded_cardinalities: Vec<Scalar>,
    /// Whether the rows are log actions; else they are rows of a scan.
    pub is_log_batch: bool,
}

impl View for DecodedDvVisitor {
    type V = DvColumns;

    open spec fn view(&self) -> DvColumns {
        DvColumns {
            paths: scalar_models(self.decoded_paths@),
            offsets: scalar_models(self.decoded_offsets@),
            sizes: scalar_models(self.decoded_sizes@),
            cardinalities: scalar_models(self.decoded_cardinalities@),
        }
    }
}

/// The columns that hold the deletion vector under a prefix.
pub open spec fn dv_source_columns(is_log_batch: bool) -> Seq<(Seq<char>, TypeModel)> {
    if is_log_batch {
        Seq::empty().push(("add.deletionVector.storageType"@, string_type())).push(
            ("add.deletionVector.pathOrInlineDv"@, string_type()),
        ).push(("add.deletionVector.offset"@, integer_type())).push(
            ("add.deletionVector.sizeInBytes"@, integer_type()),
        ).push(("add.deletionVector.cardinality"@, long_type()))
    } else {
        Seq::empty().push(("deletionVector.storageType"@, string_type())).push(
            ("deletionVector.pathOrInlineDv"@, string_type()),
        ).push(("deletionVector.offset"@, integer_type())).push(
            ("deletionVector.sizeInBytes"@, integer_type()),
        ).push(("deletionVector.cardinality"@, long_type()))
    }
}

/// Decodes the deletion vector of a row.
pub fn decode_dv_row(row: &DvRow) -> (dv: DeltaResult<Option<crate::deletion_vector::DeletionVectorInfo>>)
    ensures
        match dv {
            Ok(info) => decoded_row(row@) == Ok::<Option<DvModel>, ErrorModel>(viewed(info)),
            Err(e) => decoded_row(row@) == Err::<Option<DvModel>, ErrorModel>(e@),
        },
{
    let letter: &String = match &row.storage_type {
        Some(letter) => letter,
        None => {
            return Ok(None);
        },
    };
    let storage_type = match DeletionVectorStorageType::parse(letter) {
        Ok(storage_type) => storage_type,
        Err(e) => {
            return Err(e);
        },
    };
    let path_or_inline_dv = match &row.path_or_inline_dv {
        Some(path) => path.clone(),
        None => {
            return Err(missing_value("deletionVector.pathOrInlineDv"));
        },
    };
    let size_in_bytes = match row.size_in_bytes {
        Some(size) => size,
        None => {
            return Err(missing_value("deletionVector.sizeInBytes"));
        },
    };
    let cardinality = match row.cardinality {
        Some(cardinality) => cardinality,
        None => {
            return Err(missing_value("deletionVector.cardinality"));
        },
    };
    let descriptor = DeletionVectorDescriptor {
        storage_type,
        path_or_inline_dv,
        offset: row.offset,
        size_in_bytes,
        cardinality,
    };
    match extract_deletion_vector_content(&descriptor) {
        Ok(info) => Ok(Some(info)),
        Err(e) => Err(e),
    }
}

impl DecodedDvVisitor {
    /// A visitor for rows of a scan that has seen none.
    pub fn for_scan_rows(n: usize) -> (visitor: Self)
        ensures
            visitor@ == no_dv_columns(),
            !visitor.is_log_batch,
    {
        let visitor = DecodedDvVisitor {
            decoded_paths: Vec::with_capacity(n),
            decoded_offsets: Vec::with_capacity(n),
            decoded_sizes: Vec::with_capacity(n),
            decoded_cardinalities: Vec::with_capacity(n),
            is_log_batch: false,
        };
        assert(visitor@ =~= no_dv_columns());
        visitor
    }

    /// A visitor for log actions that has seen none.
    pub fn for_log_batch(n: usize) -> (visitor: Self)
        ensures
            visitor@ == no_dv_columns(),
            visitor.is_log_batch,
    {
        let visitor = DecodedDvVisitor {
            decoded_paths: Vec::with_capacity(n),
            decoded_offsets: Vec::with_capacity(n),
            decoded_sizes: Vec::with_capacity(n),
            decoded_cardinalities: Vec::with_capacity(n),
            is_log_batch: true,
        };
        assert(visitor@ =~= no_dv_columns());
        visitor
    }

    /// Whether any row has a deletion vector.
    pub fn has_any_dv(&self) -> (any: bool)
        ensures
            any == self@.has_any(),
    {
        let mut i: usize = 0;
        while i < self.decoded_paths.len()
            invariant
                i <= self.decoded_paths@.len(),
                forall|j: int| 0 <= j < i ==> #[trigger] self@.paths[j] is Null,
            decreases self.decoded_paths@.len() - i,
        {
            if !self.decoded_paths[i].is_null() {
                assert(!(self@.paths[i as int] is Null));
                return true;
            }
            i += 1;
        }
        false
    }

    /// The flat columns with their schema, to be appended to the batch.
    pub fn append_decoded_dv_columns(self) -> (appended: AppendedColumns)
        ensures
            appended.schema@ == flat_dv_fields(),
            appended.columns@.len() == 4,
            scalar_models(appended.columns@[0]@) == self@.paths,
            scalar_models(appended.columns@[1]@) == self@.offsets,
            scalar_models(appended.columns@[2]@) == self@.sizes,
            scalar_models(appended.columns@[3]@) == self@.cardinalities,
    {
        let mut columns: Vec<Vec<Scalar>> = Vec::new();
        columns.push(self.decoded_paths);
        columns.push(self.decoded_offsets);
        columns.push(self.decoded_sizes);
        columns.push(self.decoded_cardinalities);
        AppendedColumns { schema: dv_decoded_flat_schema(), columns }
    }

    /// The columns that the visitor reads.
    pub fn selected_column_names_and_types(&self) -> (columns: SelectedColumns)
        ensures
            columns.wf(),
            columns@ == dv_source_columns(self.is_log_batch),
    {
        if self.is_log_batch {
            SelectedColumns::new().with("add.deletionVector.storageType", DataType::string()).with(
                "add.deletionVector.pathOrInlineDv",
                DataType::string(),
            ).with("add.deletionVector.offset", DataType::integer()).with(
                "add.deletionVector.sizeInBytes",
                DataType::integer(),
            ).with("add.deletionVector.cardinality", DataType::long())
        } else {
            SelectedColumns::new().with("deletionVector.storageType", DataType::string()).with(
                "deletionVector.pathOrInlineDv",
                DataType::string(),
            ).with("deletionVector.offset", DataType::integer()).with(
                "deletionVector.sizeInBytes",
                DataType::integer(),
            ).with("deletionVector.cardinality", DataType::long())
        }
    }

    /// Adds one decoded row to the columns.
    pub(crate) fn push_row(&mut self, dv: Option<crate::deletion_vector::DeletionVectorInfo>)
        ensures
            final(self)@ == old(self)@.push(viewed(dv)),
            final(self).is_log_batch == old(self).is_log_batch,
    {
        match dv {
            Some(info) => {
                self.decoded_paths.push(Scalar::String(info.location));
                self.decoded_offsets.push(Scalar::Long(info.offset));
                self.decoded_sizes.push(Scalar::Long(info.size_in_bytes));
                self.decoded_cardinalities.push(Scalar::Long(info.cardinality));
            },
            None => {
                self.decoded_paths.push(Scalar::Null(DataType::string()));
                self.decoded_offsets.push(Scalar::Null(DataType::long()));
                self.decoded_sizes.push(Scalar::Null(DataType::long()));
                self.decoded_cardinalities.push(Scalar::Null(DataType::long()));
            },
        }
        assert(self@ =~= old(self)@.push(viewed(dv)));
    }

    /// Decodes the deletion vectors of rows. Stops at the first row that cannot be decoded; the
    /// rows in front of it stay decoded.
    pub fn visit(&mut self, rows: &Vec<DvRow>) -> (visited: DeltaResult<()>)
        ensures
            final(self).is_log_batch == old(self).is_log_batch,
            match visited {
                Ok(_) => decoded_columns(old(self)@, dv_row_models(rows@), rows@.len() as int)
                    == Ok::<DvColumns, ErrorModel>(final(self)@),
                Err(e) => {
                    let stop = first_undecodable(dv_row_models(rows@), 0);
                    &&& decoded_columns(old(self)@, dv_row_models(rows@), rows@.len() as int)
                        == Err::<DvColumns, ErrorModel>(e@)
                    &&& stop < rows@.len()
                    &&& decoded_columns(old(self)@, dv_row_models(rows@), stop) == Ok::<
                        DvColumns,
                        ErrorModel,
                    >(final(self)@)
                },
            },
    {
        let ghost models = dv_row_models(rows@);
        let mut i: usize = 0;
        while i < rows.len()
            invariant
                i <= rows@.len(),
                models == dv_row_models(rows@),
                self.is_log_batch == old(self).is_log_batch,
                first_undecodable(models, 0) == first_undecodable(models, i as int),
                decoded_columns(old(self)@, models, i as int) == Ok::<DvColumns, ErrorModel>(
                    self@,
                ),
            decreases rows@.len() - i,
        {
            match decode_dv_row(&rows[i]) {
                Ok(dv) => self.push_row(dv),
                Err(e) => {
                    proof {
                        lemma_decoded_error(old(self)@, models, i + 1, models.len() as int);
                    }
                    return Err(e);
                },
            }
            i += 1;
        }
        Ok(())
    }
}

} // verus!
