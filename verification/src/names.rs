//! Names of columns and fields.

use vstd::prelude::*;

verus! {

/// The column of `add` actions.
pub const ADD_NAME: &'static str = "add";

/// The column of `remove` actions.
pub const REMOVE_NAME: &'static str = "remove";

/// The column of parsed statistics.
pub const STATS_PARSED_NAME: &'static str = "stats_parsed";

/// The column of values that all rows of a file share.
pub const FILE_CONSTANT_VALUES_NAME: &'static str = "fileConstantValues";

/// The commit version that the rows of a file start out with.
pub const DEFAULT_ROW_COMMIT_VERSION_NAME: &'static str = "defaultRowCommitVersion";

/// The column of the new deletion vector in batches of deletion vector updates.
pub const NEW_DELETION_VECTOR_NAME: &'static str = "newDeletionVector";

/// The number of records in log statistics.
pub const DELTA_STATS_NUM_RECORDS: &'static str = "numRecords";

/// The null counts in log statistics.
pub const DELTA_STATS_NULL_COUNT: &'static str = "nullCount";

/// The smallest values in log statistics.
pub const DELTA_STATS_MIN_VALUES: &'static str = "minValues";

/// The largest values in log statistics.
pub const DELTA_STATS_MAX_VALUES: &'static str = "maxValues";

/// Whether the bounds in log statistics are tight.
pub const DELTA_STATS_TIGHT_BOUNDS: &'static str = "tightBounds";

/// The lower bound in content statistics.
pub const LOWER_BOUND: &'static str = "lower_bound";

/// The upper bound in content statistics.
pub const UPPER_BOUND: &'static str = "upper_bound";

/// Whether the bounds in content statistics are tight.
pub const TIGHT_BOUNDS: &'static str = "tight_bounds";

/// The number of values in content statistics.
pub const VALUE_COUNT: &'static str = "value_count";

/// The number of nulls in content statistics.
pub const NULL_VALUE_COUNT: &'static str = "null_value_count";

/// The number of values that are not a number in content statistics.
pub const NAN_VALUE_COUNT: &'static str = "nan_value_count";

/// The average size of a value in content statistics.
pub const AVG_VALUE_SIZE_IN_BYTES: &'static str = "avg_value_size_in_bytes";

/// The content type of an entry.
pub const CONTENT_TYPE: &'static str = "contentType";

/// The location of an entry.
pub const LOCATION: &'static str = "location";

/// The file format of an entry.
pub const FILE_FORMAT: &'static str = "fileFormat";

/// The tracking info of an entry.
pub const TRACKING: &'static str = "tracking";

/// The deletion vector of an entry.
pub const DV_INFO: &'static str = "deletionVector";

/// The partition spec of an entry.
pub const PARTITION_SPEC_ID: &'static str = "partitionSpecId";

/// The partition values of an entry.
pub const PARTITION: &'static str = "partition";

/// The sort order of an entry.
pub const SORT_ORDER_ID: &'static str = "sortOrderId";

/// The number of records of an entry.
pub const RECORD_COUNT: &'static str = "recordCount";

/// The size of the file of an entry.
pub const FILE_SIZE_IN_BYTES: &'static str = "fileSizeInBytes";

/// The content statistics of an entry.
pub const CONTENT_STATS_FIELD_NAME: &'static str = "contentStats";

/// The manifest info of an entry.
pub const MANIFEST_INFO: &'static str = "manifestInfo";

/// The tags of an entry.
pub const TAGS: &'static str = "tags";

/// The location in the flat columns of a decoded deletion vector.
pub const DV_LOCATION: &'static str = "_dv_location";

/// The offset in the flat columns of a decoded deletion vector.
pub const DV_OFFSET: &'static str = "_dv_offset";

/// The size in the flat columns of a decoded deletion vector.
pub const DV_SIZE_IN_BYTES: &'static str = "_dv_size_in_bytes";

/// The cardinality in the flat columns of a decoded deletion vector.
pub const DV_CARDINALITY: &'static str = "_dv_cardinality";

/// The metadata key of the Parquet field id of a column.
pub const PARQUET_FIELD_ID: &'static str = "PARQUET:field_id";

} // verus!
