//! Building, updating and replaying the nodes of a table's adaptive metadata tree.

pub mod add_action;
pub mod bitmap;
pub mod buffer;
pub mod builder;
pub mod columns;
pub mod commit_builder;
pub mod deletion_vector;
pub mod dv_cache;
pub mod dv_columns;
pub mod entry;
pub mod error;
pub mod evaluation;
pub mod expression;
pub mod ingest;
pub mod json;
pub mod laws;
pub mod leaf;
pub mod leaf_updates;
pub mod location;
pub mod manifest_commit;
pub mod names;
pub mod node_build;
pub mod projection;
pub mod remove_commit;
pub mod replay;
pub mod row_ids;
pub mod scan_updates;
pub mod schema;
pub mod selection;
pub mod sequence;
pub mod stats_schema;
pub mod string_map;
pub mod text;
pub mod type_text;
