//! Laws of removed and updated files: what is done with a row by where its file stands.

use vstd::prelude::*;

use crate::error::ErrorKind;
use crate::remove_commit::{remove_error, remove_row_error, RemoveBatchModel, RemoveModel};
use crate::scan_updates::{decisions, is_chosen, removals, RemovalModel, ScanRowModel};
use crate::selection::is_selected;

verus! {

/// The row names a file at a position of a manifest other than the root.
pub open spec fn in_leaf(row: ScanRowModel, root: Option<Seq<char>>, leaf: Seq<char>) -> bool {
    row.path is Some && row.manifest == Some(leaf) && row.position is Some && root != Some(leaf)
}

/// The row names a file of the root manifest.
pub open spec fn in_root(row: ScanRowModel, root: Option<Seq<char>>) -> bool {
    row.path is Some && row.manifest is Some && row.position is Some && root == row.manifest
}

/// The row names a file, and a manifest without a position or a position without a manifest.
pub open spec fn half_placed(row: ScanRowModel) -> bool {
    row.path is Some && row.manifest is Some != row.position is Some
}

/// Whether row `i` counts: there is no selection for it, or it is selected.
pub open spec fn counts(selection: Seq<bool>, i: int) -> bool {
    i >= selection.len() || selection[i]
}

/// Removed files are noted where they stand: the positions of a leaf are those of the rows that
/// count and name a file there, and what was noted before; nothing is noted of rows that do not
/// count. A row that names only half of a place is refused.
pub proof fn law_removals_go_where_files_stand(
    state: RemovalModel,
    rows: Seq<ScanRowModel>,
    selection: Seq<bool>,
    root: Option<Seq<char>>,
    n: int,
    leaf: Seq<char>,
    position: u64,
)
    requires
        0 <= n <= rows.len(),
    ensures
        ({
            let (after, error) = removals(state, rows, selection, root, n);
            &&& error is Some <==> exists|i: int|
                0 <= i < n && counts(selection, i) && half_placed(#[trigger] rows[i])
            &&& error is None ==> {
                &&& after.leaves.contains_key(leaf) <==> state.leaves.contains_key(leaf) || exists|
                    i: int,
                |
                    0 <= i < n && counts(selection, i) && in_leaf(#[trigger] rows[i], root, leaf)
                &&& after.leaves.contains_key(leaf) && after.leaves[leaf].contains(position)
                    <==> state.leaves.contains_key(leaf) && state.leaves[leaf].contains(position)
                    || exists|i: int|
                    0 <= i < n && counts(selection, i) && in_leaf(#[trigger] rows[i], root, leaf)
                        && rows[i].position->0 as u64 == position
            }
        }),
    decreases n,
{
    if n > 0 {
        law_removals_go_where_files_stand(state, rows, selection, root, n - 1, leaf, position);
        let (before, error) = removals(state, rows, selection, root, n - 1);
        let (after, now) = removals(state, rows, selection, root, n);
        let last = rows[n - 1];
        assert(is_selected(selection, n - 1) == counts(selection, n - 1));
        if error is Some {
            let i = choose|i: int|
                0 <= i < n - 1 && counts(selection, i) && half_placed(#[trigger] rows[i]);
            assert(half_placed(rows[i]));
        } else {
            if now is Some {
                assert(half_placed(rows[n - 1]));
            }
            if now is None {
                if before.leaves.contains_key(leaf) && !state.leaves.contains_key(leaf) {
                    let i = choose|i: int|
                        0 <= i < n - 1 && counts(selection, i) && in_leaf(
                            #[trigger] rows[i],
                            root,
                            leaf,
                        );
                    assert(in_leaf(rows[i], root, leaf));
                }
                if counts(selection, n - 1) && in_leaf(last, root, leaf) {
                    assert(in_leaf(rows[n - 1], root, leaf));
                }
                if before.leaves.contains_key(leaf) && before.leaves[leaf].contains(position)
                    && !(state.leaves.contains_key(leaf) && state.leaves[leaf].contains(
                    position,
                )) {
                    let i = choose|i: int|
                        0 <= i < n - 1 && counts(selection, i) && in_leaf(
                            #[trigger] rows[i],
                            root,
                            leaf,
                        ) && rows[i].position->0 as u64 == position;
                    assert(in_leaf(rows[i], root, leaf));
                }
            }
        }
    }
}

/// The removed files of the root are those of the rows that count and name a file there, each
/// with its deletion vector, in the order of the rows, behind what was noted before.
pub proof fn law_root_removals_are_noted(
    state: RemovalModel,
    rows: Seq<ScanRowModel>,
    selection: Seq<bool>,
    root: Option<Seq<char>>,
    n: int,
    path: Seq<char>,
    dv: Option<Seq<char>>,
)
    requires
        0 <= n <= rows.len(),
        removals(state, rows, selection, root, n).1 is None,
    ensures
        ({
            let after = removals(state, rows, selection, root, n).0;
            &&& state.root.is_prefix_of(after.root)
            &&& after.root.contains((path, dv)) <==> state.root.contains((path, dv)) || exists|
                i: int,
            |
                0 <= i < n && counts(selection, i) && in_root(#[trigger] rows[i], root)
                    && rows[i].path == Some(path) && rows[i].dv_path == dv
            &&& n > 0 && counts(selection, n - 1) && in_root(rows[n - 1], root)
                ==> after.root == removals(state, rows, selection, root, n - 1).0.root.push(
                (rows[n - 1].path->0, rows[n - 1].dv_path),
            )
            &&& n > 0 && !(counts(selection, n - 1) && in_root(rows[n - 1], root)) ==> after.root
                == removals(state, rows, selection, root, n - 1).0.root
        }),
    decreases n,
{
    if n > 0 {
        let before = removals(state, rows, selection, root, n - 1).0;
        assert(is_selected(selection, n - 1) == counts(selection, n - 1));
        law_root_removals_are_noted(state, rows, selection, root, n - 1, path, dv);
        let after = removals(state, rows, selection, root, n).0;
        let item = (path, dv);
        if before.root.contains(item) {
            let k = choose|k: int| 0 <= k < before.root.len() && before.root[k] == item;
            assert(after.root[k] == item);
            if !state.root.contains(item) {
                let i = choose|i: int|
                    0 <= i < n - 1 && counts(selection, i) && in_root(#[trigger] rows[i], root)
                        && rows[i].path == Some(path) && rows[i].dv_path == dv;
                assert(in_root(rows[i], root));
            }
        }
        if counts(selection, n - 1) && in_root(rows[n - 1], root) && rows[n - 1].path == Some(path)
            && rows[n - 1].dv_path == dv {
            assert(after.root[before.root.len() as int] == item);
        }
        if after.root.contains(item) && !before.root.contains(item) {
            let k = choose|k: int| 0 <= k < after.root.len() && after.root[k] == item;
            if k < before.root.len() {
                assert(before.root[k] == item);
            }
            assert(in_root(rows[n - 1], root));
        }
    }
}

/// Nothing is noted behind a row that is refused.
pub proof fn law_removals_stop_at_a_refused_row(
    state: RemovalModel,
    rows: Seq<ScanRowModel>,
    selection: Seq<bool>,
    root: Option<Seq<char>>,
    m: int,
    n: int,
)
    requires
        0 <= m <= n <= rows.len(),
        removals(state, rows, selection, root, m).1 is Some,
    ensures
        removals(state, rows, selection, root, n) == removals(state, rows, selection, root, m),
        removals(state, rows, selection, root, m).1->0.kind == ErrorKind::MissingData,
    decreases n,
{
    if m < n {
        law_removals_stop_at_a_refused_row(state, rows, selection, root, m, n - 1);
    } else if m > 0 && removals(state, rows, selection, root, m - 1).1 is Some {
        law_removals_stop_at_a_refused_row(state, rows, selection, root, m - 1, m - 1);
    }
}

/// The new deletion vectors of files are decided by where the files stand: a file of a leaf is
/// masked there and added again, one of the root changes in place, and one that is in no manifest
/// is added. A row takes part only where it is selected, and a row without a file is passed over.
pub proof fn law_dv_updates_go_where_files_stand(
    rows: Seq<ScanRowModel>,
    selection: Seq<bool>,
    root: Option<Seq<char>>,
    n: int,
    i: int,
    leaf: Seq<char>,
    position: u64,
)
    requires
        0 <= i < n <= rows.len(),
    ensures
        decisions(rows, selection, root, n) is Err <==> exists|j: int|
            0 <= j < n && j < selection.len() && selection[j] && half_placed(#[trigger] rows[j]),
        decisions(rows, selection, root, n) matches Err(e) ==> e.kind == ErrorKind::MissingData,
        decisions(rows, selection, root, n) matches Ok(made) ==> {
            let chosen = i < selection.len() && selection[i];
            &&& made.selection.len() == n
            &&& made.selection[i] <==> chosen && rows[i].path is Some && !in_root(rows[i], root)
            &&& chosen && in_root(rows[i], root) ==> made.root_paths.contains(rows[i].path->0)
            &&& made.leaves.contains_key(leaf) <==> exists|j: int|
                0 <= j < n && j < selection.len() && selection[j] && in_leaf(
                    #[trigger] rows[j],
                    root,
                    leaf,
                )
            &&& made.leaves.contains_key(leaf) && made.leaves[leaf].contains(position) <==> exists|
                j: int,
            |
                0 <= j < n && j < selection.len() && selection[j] && in_leaf(
                    #[trigger] rows[j],
                    root,
                    leaf,
                ) && rows[j].position->0 as u64 == position
        },
    decreases n,
{
    lemma_decisions(rows, selection, root, n, leaf, position);
    if decisions(rows, selection, root, n) is Ok {
        lemma_decision_of(rows, selection, root, n, i);
    }
}

/// The decision on one row.
proof fn lemma_decision_of(
    rows: Seq<ScanRowModel>,
    selection: Seq<bool>,
    root: Option<Seq<char>>,
    n: int,
    i: int,
)
    requires
        0 <= i < n <= rows.len(),
        decisions(rows, selection, root, n) is Ok,
    ensures
        ({
            let made = decisions(rows, selection, root, n)->Ok_0;
            let chosen = i < selection.len() && selection[i];
            &&& made.selection.len() == n
            &&& made.selection[i] <==> chosen && rows[i].path is Some && !in_root(rows[i], root)
            &&& chosen && in_root(rows[i], root) ==> made.root_paths.contains(rows[i].path->0)
        }),
    decreases n,
{
    let before = decisions(rows, selection, root, n - 1)->Ok_0;
    let made = decisions(rows, selection, root, n)->Ok_0;
    lemma_decisions_counted(rows, selection, root, n - 1);
    if i < n - 1 {
        lemma_decision_of(rows, selection, root, n - 1, i);
        assert(made.selection[i] == before.selection[i]);
        if before.root_paths.contains(rows[i].path->0) {
            let k = choose|k: int|
                0 <= k < before.root_paths.len() && before.root_paths[k] == rows[i].path->0;
            assert(made.root_paths[k] == rows[i].path->0);
        }
    } else if is_chosen(selection, i) && in_root(rows[i], root) {
        assert(made.root_paths[before.root_paths.len() as int] == rows[i].path->0);
    }
}

/// There is one decision for each row.
proof fn lemma_decisions_counted(
    rows: Seq<ScanRowModel>,
    selection: Seq<bool>,
    root: Option<Seq<char>>,
    n: int,
)
    requires
        0 <= n <= rows.len(),
        decisions(rows, selection, root, n) is Ok,
    ensures
        decisions(rows, selection, root, n)->Ok_0.selection.len() == n,
    decreases n,
{
    if n > 0 {
        lemma_decisions_counted(rows, selection, root, n - 1);
    }
}

/// The files of the root that change in place are those of the rows that take part and name a
/// file there.
pub proof fn law_root_updates_are_noted(
    rows: Seq<ScanRowModel>,
    selection: Seq<bool>,
    root: Option<Seq<char>>,
    n: int,
    path: Seq<char>,
)
    requires
        0 <= n <= rows.len(),
        decisions(rows, selection, root, n) is Ok,
    ensures
        decisions(rows, selection, root, n)->Ok_0.root_paths.contains(path) <==> exists|j: int|
            0 <= j < n && j < selection.len() && selection[j] && in_root(#[trigger] rows[j], root)
                && rows[j].path == Some(path),
    decreases n,
{
    if n > 0 {
        law_root_updates_are_noted(rows, selection, root, n - 1, path);
        let before = decisions(rows, selection, root, n - 1)->Ok_0;
        let made = decisions(rows, selection, root, n)->Ok_0;
        if before.root_paths.contains(path) {
            let j = choose|j: int|
                0 <= j < n - 1 && j < selection.len() && selection[j] && in_root(
                    #[trigger] rows[j],
                    root,
                ) && rows[j].path == Some(path);
            assert(in_root(rows[j], root));
            let k = choose|k: int| 0 <= k < before.root_paths.len() && before.root_paths[k] == path;
            assert(made.root_paths[k] == path);
        }
        if is_chosen(selection, n - 1) && in_root(rows[n - 1], root) && rows[n - 1].path == Some(
            path,
        ) {
            assert(made.root_paths[before.root_paths.len() as int] == path);
        }
        if made.root_paths.contains(path) && !before.root_paths.contains(path) {
            let k = choose|k: int| 0 <= k < made.root_paths.len() && made.root_paths[k] == path;
            if k < before.root_paths.len() {
                assert(before.root_paths[k] == path);
            }
            assert(in_root(rows[n - 1], root));
        }
    }
}

/// What is masked, and when rows are refused.
proof fn lemma_decisions(
    rows: Seq<ScanRowModel>,
    selection: Seq<bool>,
    root: Option<Seq<char>>,
    n: int,
    leaf: Seq<char>,
    position: u64,
)
    requires
        0 <= n <= rows.len(),
    ensures
        decisions(rows, selection, root, n) is Err <==> exists|j: int|
            0 <= j < n && j < selection.len() && selection[j] && half_placed(#[trigger] rows[j]),
        decisions(rows, selection, root, n) matches Err(e) ==> e.kind == ErrorKind::MissingData,
        decisions(rows, selection, root, n) matches Ok(made) ==> {
            &&& made.leaves.contains_key(leaf) <==> exists|j: int|
                0 <= j < n && j < selection.len() && selection[j] && in_leaf(
                    #[trigger] rows[j],
                    root,
                    leaf,
                )
            &&& made.leaves.contains_key(leaf) && made.leaves[leaf].contains(position) <==> exists|
                j: int,
            |
                0 <= j < n && j < selection.len() && selection[j] && in_leaf(
                    #[trigger] rows[j],
                    root,
                    leaf,
                ) && rows[j].position->0 as u64 == position
        },
    decreases n,
{
    if n > 0 {
        lemma_decisions(rows, selection, root, n - 1, leaf, position);
        let last = rows[n - 1];
        match decisions(rows, selection, root, n - 1) {
            Err(_) => {
                let j = choose|j: int|
                    0 <= j < n - 1 && j < selection.len() && selection[j] && half_placed(
                        #[trigger] rows[j],
                    );
                assert(half_placed(rows[j]));
            },
            Ok(before) => {
                if decisions(rows, selection, root, n) is Err {
                    assert(half_placed(rows[n - 1]));
                } else {
                    if before.leaves.contains_key(leaf) {
                        let j = choose|j: int|
                            0 <= j < n - 1 && j < selection.len() && selection[j] && in_leaf(
                                #[trigger] rows[j],
                                root,
                                leaf,
                            );
                        assert(in_leaf(rows[j], root, leaf));
                        if before.leaves[leaf].contains(position) {
                            let k = choose|k: int|
                                0 <= k < n - 1 && k < selection.len() && selection[k] && in_leaf(
                                    #[trigger] rows[k],
                                    root,
                                    leaf,
                                ) && rows[k].position->0 as u64 == position;
                            assert(in_leaf(rows[k], root, leaf));
                        }
                    }
                    if is_chosen(selection, n - 1) && in_leaf(last, root, leaf) {
                        assert(in_leaf(rows[n - 1], root, leaf));
                    }
                }
            },
        }
    }
}

/// The row of a removed file is complete: it names both halves of a reference back to its
/// manifest or none, its size, and its statistics where they can come from nowhere else. A row
/// without a path asks for nothing.
pub open spec fn complete(row: RemoveModel, batch: RemoveBatchModel) -> bool {
    row.path is Some ==> {
        &&& row.manifest is Some <==> row.position is Some
        &&& row.size is Some
        &&& batch.has_stats_parsed || batch.has_num_records || row.stats is Some
    }
}

/// Removes pass exactly where each row that counts is complete.
pub proof fn law_removes_pass_where_rows_are_complete(batches: Seq<RemoveBatchModel>, n: int)
    requires
        0 <= n <= batches.len(),
    ensures
        remove_error(batches, n) is None <==> forall|b: int, i: int|
            0 <= b < n && 0 <= i < batches[b].rows.len() && #[trigger] counts(
                batches[b].selection,
                i,
            ) ==> complete(#[trigger] batches[b].rows[i], batches[b]),
    decreases n,
{
    if n > 0 {
        law_removes_pass_where_rows_are_complete(batches, n - 1);
        let last = batches[n - 1];
        lemma_batch_complete(last, last.rows.len() as int);
        if remove_error(batches, n) is None {
            assert(remove_error(batches, n - 1) is None);
            assert(last.error(last.rows.len() as int) is None);
            assert forall|b: int, i: int|
                0 <= b < n && 0 <= i < batches[b].rows.len() && #[trigger] counts(
                    batches[b].selection,
                    i,
                ) implies complete(#[trigger] batches[b].rows[i], batches[b]) by {
                if b == n - 1 {
                    assert(counts(last.selection, i));
                    assert(complete(last.rows[i], last));
                }
            }
        } else if remove_error(batches, n - 1) is None {
            let i = choose|i: int|
                0 <= i < last.rows.len() && #[trigger] counts(last.selection, i) && !complete(
                    #[trigger] last.rows[i],
                    last,
                );
            assert(counts(batches[n - 1].selection, i) && !complete(
                batches[n - 1].rows[i],
                batches[n - 1],
            ));
        } else {
            let (b, i) = choose|b: int, i: int|
                0 <= b < n - 1 && 0 <= i < batches[b].rows.len() && #[trigger] counts(
                    batches[b].selection,
                    i,
                ) && !complete(#[trigger] batches[b].rows[i], batches[b]);
            assert(counts(batches[b].selection, i) && !complete(batches[b].rows[i], batches[b]));
        }
    }
}

/// A batch passes exactly where its rows that count are complete.
proof fn lemma_batch_complete(batch: RemoveBatchModel, n: int)
    requires
        0 <= n <= batch.rows.len(),
    ensures
        batch.error(n) is None <==> forall|i: int|
            0 <= i < n && #[trigger] counts(batch.selection, i) ==> complete(
                #[trigger] batch.rows[i],
                batch,
            ),
    decreases n,
{
    if n > 0 {
        lemma_batch_complete(batch, n - 1);
        assert(is_selected(batch.selection, n - 1) == counts(batch.selection, n - 1));
        assert(remove_row_error(batch.rows[n - 1], batch.stats_required()) is None <==> complete(
            batch.rows[n - 1],
            batch,
        ));
        if batch.error(n) is None {
            assert forall|i: int|
                0 <= i < n && #[trigger] counts(batch.selection, i) implies complete(
                #[trigger] batch.rows[i],
                batch,
            ) by {
                if i < n - 1 {
                    assert(batch.error(n - 1) is None);
                }
            }
        } else if batch.error(n - 1) is None {
            assert(counts(batch.selection, n - 1) && !complete(batch.rows[n - 1], batch));
        } else {
            let i = choose|i: int|
                0 <= i < n - 1 && #[trigger] counts(batch.selection, i) && !complete(
                    #[trigger] batch.rows[i],
                    batch,
                );
            assert(counts(batch.selection, i) && !complete(batch.rows[i], batch));
        }
    }
}

/// Of the rows of a batch that are not complete the first is reported: half of a reference as
/// such, else what its file lacks.
pub proof fn law_first_incomplete_remove_is_reported(batch: RemoveBatchModel, i: int, n: int)
    requires
        0 <= i < n <= batch.rows.len(),
        counts(batch.selection, i),
        !complete(batch.rows[i], batch),
        forall|j: int|
            0 <= j < i && #[trigger] counts(batch.selection, j) ==> complete(
                #[trigger] batch.rows[j],
                batch,
            ),
    ensures
        batch.error(n) matches Some(e) && e.kind == (if batch.rows[i].manifest is Some
            == batch.rows[i].position is Some {
            ErrorKind::InvalidTransactionState
        } else {
            crate::error::generic(Seq::empty()).kind
        }),
        batch.error(n) == remove_row_error(batch.rows[i], batch.stats_required()),
    decreases n,
{
    if i < n - 1 {
        law_first_incomplete_remove_is_reported(batch, i, n - 1);
    } else {
        lemma_batch_complete(batch, i);
        assert(is_selected(batch.selection, i));
    }
}

} // verus!
