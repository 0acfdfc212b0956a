# content_tree

Builds the nodes of an adaptive metadata tree: the manifests that say which data files a table
has, which of them are masked or deleted, and which row ids they hold.

- `src/` is the library. Every executable function carries a contract that Verus proves; the laws
  that hold across functions are the proof functions under `src/laws/`.
- `tests/` runs the library on concrete values.
- `app/` drives the library with an engine that reads and writes Parquet files, hands out columns
  and evaluates expressions.

A commit goes through the library like this. `commit_builder` tells where the baseline comes from
and makes it: a content root as it is, or a replay of the log (`replay`) above it. Files come in
through `add_action` and `ingest`; moved and removed files through `scan_updates`,
`manifest_commit` and `leaf_updates`. `node_build` seals the bitmaps of leaf manifests and hands
out row ids, and `leaf` makes the entry by which a root refers to a leaf.

Outside crates are called in four modules only: `bitmap` (roaring), `buffer` (bytes), `location`
(url) and `json` (serde_json). What is believed of them is stated there, function by function.
