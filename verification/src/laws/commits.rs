//! Laws that span a commit and the next one: what was built is what is read back.

use vstd::prelude::*;

use crate::builder::{
    all_rows, cache_of_entry, carried_entries, carried_entry, empty_builder, entries_added,
    entry_at_commit_start, entry_sealed, leaf_positions_updated, loaded_builder, sealed_up_to,
    BuilderModel, NodeModel, Version,
};
use crate::dv_cache::{sealed, LeafPositionUpdate};
use crate::entry::EntryModel;
use crate::error::ErrorModel;
use crate::laws::entries::law_added_entries_come_behind;
use crate::laws::leaves::law_nodes_hold_all_rows;
use crate::node_build::build_done;
use crate::row_ids::assigned_entries;
use crate::schema::FieldModel;

verus! {

/// Whether an entry refers to the leaf manifest at a location.
pub open spec fn refers_to(entry: EntryModel, leaf: Seq<char>) -> bool {
    entry.is_manifest() && entry.location == Some(leaf)
}

/// The builder of the next commit: what was built, read back.
pub open spec fn read_back(node: NodeModel, table_schema: Seq<FieldModel>, version: Version) -> BuilderModel {
    loaded_builder(all_rows(node.data), node.table_root, table_schema, version, None)
}

/// The entries of a node are read back in order: with the status that they have in the next
/// commit, without the bitmaps of the last one, and otherwise as they were built.
pub proof fn law_built_entries_are_read_back(
    before: BuilderModel,
    snapshot_id: i64,
    start: int,
    after: BuilderModel,
    node: NodeModel,
    end: int,
    table_schema: Seq<FieldModel>,
    version: Version,
    i: int,
)
    requires
        build_done(before, snapshot_id, start, after, node, end),
        0 <= i < after.entries.len(),
    ensures
        ({
            let loaded = read_back(node, table_schema, version);
            &&& loaded.entries.len() == all_rows(node.data).len()
            &&& loaded.entries[i] == entry_at_commit_start(
                carried_entry(after.entries[i], version),
            )
        }),
{
    law_nodes_hold_all_rows(before, snapshot_id, start, after, node, end);
    let rows = all_rows(node.data);
    assert(rows[i] == after.entries[i]);
    let blank = BuilderModel {
        partition_type: None,
        ..empty_builder(node.table_root, version, table_schema)
    };
    law_added_entries_come_behind(blank, carried_entries(rows, version), rows.len() as int);
    let loaded = read_back(node, table_schema, version);
    assert(loaded.entries[blank.entries.len() + i] == entry_at_commit_start(
        carried_entries(rows, version)[i],
    ));
}

/// The cache of a leaf is that of the last entry that refers to it.
proof fn lemma_last_reference_counts(
    builder: BuilderModel,
    entries: Seq<EntryModel>,
    leaf: Seq<char>,
    i: int,
    n: int,
)
    requires
        0 <= i < n <= entries.len(),
        refers_to(entries[i], leaf),
        forall|j: int| i < j < n ==> !refers_to(#[trigger] entries[j], leaf),
    ensures
        entries_added(builder, entries, n).caches.contains_key(leaf),
        entries_added(builder, entries, n).caches[leaf] == cache_of_entry(entries[i]),
    decreases n,
{
    if i < n - 1 {
        lemma_last_reference_counts(builder, entries, leaf, i, n - 1);
        assert(!refers_to(entries[n - 1], leaf));
    }
}

/// Masking reaches the next commit: the positions that a commit masks in a leaf, and all that
/// were masked before, are masked when the node is read back.
pub proof fn law_masked_positions_are_read_back(
    builder: BuilderModel,
    leaf: Seq<char>,
    indices: Set<u64>,
    kind: LeafPositionUpdate,
    updated: BuilderModel,
    snapshot_id: i64,
    start: int,
    after: BuilderModel,
    node: NodeModel,
    end: int,
    table_schema: Seq<FieldModel>,
    version: Version,
    i: int,
)
    requires
        leaf_positions_updated(builder, leaf, indices, kind) == Ok::<BuilderModel, ErrorModel>(
            updated,
        ),
        build_done(updated, snapshot_id, start, after, node, end),
        0 <= i < builder.entries.len(),
        refers_to(builder.entries[i], leaf),
        forall|j: int| i < j < builder.entries.len() ==> !refers_to(
            #[trigger] builder.entries[j],
            leaf,
        ),
        forall|j: int|
            builder.entries.len() <= j < all_rows(node.data).len() ==> !refers_to(
                #[trigger] all_rows(node.data)[j],
                leaf,
            ),
    ensures
        ({
            let loaded = read_back(node, table_schema, version);
            &&& loaded.caches.contains_key(leaf)
            &&& loaded.caches[leaf].masked() == Some(
                builder.caches[leaf].masked()->Some_0.union(indices),
            )
        }),
{
    law_nodes_hold_all_rows(updated, snapshot_id, start, after, node, end);
    let rows = all_rows(node.data);
    let sealed_entries = choose|sealed_entries: Seq<EntryModel>|
        {
            &&& #[trigger] sealed_up_to(
                updated.entries,
                updated.caches,
                snapshot_id,
                sealed_entries,
                updated.entries.len() as int,
            )
            &&& after.entries == assigned_entries(sealed_entries, start)
        };
    let cache = updated.caches[leaf];
    assert forall|j: int| 0 <= j < updated.entries.len() implies refers_to(
        #[trigger] rows[j],
        leaf,
    ) == refers_to(updated.entries[j], leaf) by {
        assert(rows[j] == after.entries[j]);
        assert(entry_sealed(
            updated.entries[j],
            updated.caches,
            snapshot_id,
            sealed_entries[j],
        ));
    }
    assert(entry_sealed(updated.entries[i], updated.caches, snapshot_id, sealed_entries[i]));
    assert(sealed(updated.entries[i], cache, snapshot_id, sealed_entries[i]));
    assert(rows[i] == after.entries[i]);
    assert(rows[i].manifest_info == sealed_entries[i].manifest_info);
    let carried = carried_entries(rows, version);
    assert(carried[i].manifest_info == rows[i].manifest_info);
    assert(refers_to(rows[i], leaf));
    assert forall|j: int| i < j < carried.len() implies !refers_to(#[trigger] carried[j], leaf) by {
        if j < updated.entries.len() {
            assert(!refers_to(builder.entries[j], leaf));
            assert(refers_to(rows[j], leaf) == refers_to(updated.entries[j], leaf));
        } else {
            assert(!refers_to(rows[j], leaf));
        }
    }
    let blank = BuilderModel {
        partition_type: None,
        ..empty_builder(node.table_root, version, table_schema)
    };
    lemma_last_reference_counts(blank, carried, leaf, i, carried.len() as int);
}

} // verus!
