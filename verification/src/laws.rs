//! Laws of the library as a whole: what holds of several operations together, stated over the
//! models that the contracts of the operations speak of.

pub mod additions;
pub mod bitmaps;
pub mod commits;
pub mod entries;
pub mod keys;
pub mod leaves;
pub mod placements;
pub mod rebuilds;
pub mod references;
pub mod replays;
pub mod roots;
pub mod row_numbers;
pub mod schemas;
pub mod statistics;
pub mod texts;
pub mod transforms;
pub mod types;
