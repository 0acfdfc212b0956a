//! Laws of the replay of a log and of the content root below it.

use vstd::prelude::*;

use crate::dv_columns::{decoded_columns, no_dv_columns, DvColumns};
use crate::entry::{EntryModel, TrackingStatus};
use crate::error::ErrorModel;
use crate::remove_commit::{remove_error, remove_row_error, RemoveBatchModel};
use crate::replay::{
    batch_plan, commit_replayed, commits_replayed, dv_key, entry_key, kept_entries, kept_entry,
    replay_step, replayed,
    ActionModel, CommitModel, FileActionKey, ReplayModel,
};
use crate::builder::Version;
use crate::scan_updates::{decisions, is_chosen, placement, DecisionModel, Placement, ScanRowModel};
use crate::selection::{is_selected, selected_rows};

verus! {

/// The key of an action on a file: none for rows that are no such action, and for those whose
/// deletion vector cannot be located.
pub open spec fn action_key(action: ActionModel) -> Option<FileActionKey> {
    match (action.add_path, action.remove_path) {
        (Some(path), _) => match dv_key(
            action.add_dv.storage_type,
            action.add_dv.path_or_inline_dv,
        ) {
            Ok(dv) => Some((path, dv)),
            Err(_) => None,
        },
        (None, Some(path)) => match dv_key(
            action.remove_dv.storage_type,
            action.remove_dv.path_or_inline_dv,
        ) {
            Ok(dv) => Some((path, dv)),
            Err(_) => None,
        },
        (None, None) => None,
    }
}

/// The keys that were seen before action `i`.
pub open spec fn keys_before(state: ReplayModel, actions: Seq<ActionModel>, i: int) -> Set<
    FileActionKey,
> {
    replayed(state, actions, i).0.keys
}

/// No key is ever forgotten.
pub proof fn law_keys_are_never_forgotten(
    state: ReplayModel,
    actions: Seq<ActionModel>,
    i: int,
    j: int,
)
    requires
        0 <= i <= j,
    ensures
        keys_before(state, actions, i).subset_of(keys_before(state, actions, j)),
    decreases j,
{
    if i < j {
        law_keys_are_never_forgotten(state, actions, i, j - 1);
    }
}

/// A replay that succeeds succeeded all along.
pub proof fn lemma_replay_prefix(
    state: ReplayModel,
    actions: Seq<ActionModel>,
    selection: Seq<bool>,
    i: int,
    n: int,
)
    requires
        0 <= i <= n,
        replayed(state, actions, n).1 == Ok::<Seq<bool>, ErrorModel>(selection),
    ensures
        selection.len() == n,
        replayed(state, actions, i).1 == Ok::<Seq<bool>, ErrorModel>(selection.take(i)),
    decreases n,
{
    if n > 0 {
        let (_, before) = replayed(state, actions, n - 1);
        let head = before->Ok_0;
        assert(before == Ok::<Seq<bool>, ErrorModel>(head));
        lemma_replay_prefix(state, actions, head, if i < n {
            i
        } else {
            n - 1
        }, n - 1);
        if i < n {
            assert(selection.take(i) =~= head.take(i));
        } else {
            assert(selection.take(n) =~= selection);
        }
    } else {
        assert(selection.take(0) =~= selection);
    }
}

/// The first action on a file and deletion vector counts: a row survives exactly where it is an
/// `add` whose key was not seen before it.
pub proof fn law_first_seen_wins(
    state: ReplayModel,
    actions: Seq<ActionModel>,
    selection: Seq<bool>,
    i: int,
)
    requires
        0 <= i < actions.len(),
        replayed(state, actions, actions.len() as int).1 == Ok::<Seq<bool>, ErrorModel>(selection),
    ensures
        selection.len() == actions.len(),
        selection[i] <==> (actions[i].add_path is Some && !keys_before(state, actions, i).contains(
            action_key(actions[i])->Some_0,
        )),
        action_key(actions[i]) matches Some(key) ==> keys_before(
            state,
            actions,
            i + 1,
        ).contains(key),
        actions[i].add_path is Some ==> action_key(actions[i]) is Some,
{
    lemma_replay_prefix(state, actions, selection, i, actions.len() as int);
    lemma_replay_prefix(state, actions, selection, i + 1, actions.len() as int);
    assert(selection.take(i + 1)[i] == selection[i]);
    let (before, head) = replayed(state, actions, i);
    let (after, survives) = replay_step(before, actions[i]);
    assert(selection.take(i + 1) == head->Ok_0.push(survives->Ok_0));
}

/// Of two rows with one key at most one survives, and none if the key was seen before.
pub proof fn law_no_key_survives_twice(
    state: ReplayModel,
    actions: Seq<ActionModel>,
    selection: Seq<bool>,
    i: int,
    j: int,
)
    requires
        0 <= i < j < actions.len(),
        replayed(state, actions, actions.len() as int).1 == Ok::<Seq<bool>, ErrorModel>(selection),
        action_key(actions[i]) is Some,
        action_key(actions[i]) == action_key(actions[j]),
    ensures
        !selection[j],
        state.keys.contains(action_key(actions[i])->Some_0) ==> !selection[i],
{
    law_first_seen_wins(state, actions, selection, i);
    law_first_seen_wins(state, actions, selection, j);
    law_keys_are_never_forgotten(state, actions, i + 1, j);
    law_keys_are_never_forgotten(state, actions, 0, i);
}

/// Replaying the same actions again selects nothing.
pub proof fn law_replaying_again_selects_nothing(
    state: ReplayModel,
    actions: Seq<ActionModel>,
    selection: Seq<bool>,
    again: Seq<bool>,
    i: int,
)
    requires
        0 <= i < actions.len(),
        replayed(state, actions, actions.len() as int).1 == Ok::<Seq<bool>, ErrorModel>(selection),
        replayed(
            replayed(state, actions, actions.len() as int).0,
            actions,
            actions.len() as int,
        ).1 == Ok::<Seq<bool>, ErrorModel>(again),
    ensures
        !again[i],
{
    let after = replayed(state, actions, actions.len() as int).0;
    law_first_seen_wins(state, actions, selection, i);
    law_first_seen_wins(after, actions, again, i);
    law_keys_are_never_forgotten(state, actions, i + 1, actions.len() as int);
    law_keys_are_never_forgotten(after, actions, 0, i);
}

/// What a newer batch did to a file is final: no older batch brings the file back.
pub proof fn law_newer_batches_are_final(
    state: ReplayModel,
    newer: Seq<ActionModel>,
    older: Seq<ActionModel>,
    newer_selection: Seq<bool>,
    older_selection: Seq<bool>,
    i: int,
    j: int,
)
    requires
        0 <= i < newer.len(),
        0 <= j < older.len(),
        replayed(state, newer, newer.len() as int).1 == Ok::<Seq<bool>, ErrorModel>(
            newer_selection,
        ),
        replayed(
            replayed(state, newer, newer.len() as int).0,
            older,
            older.len() as int,
        ).1 == Ok::<Seq<bool>, ErrorModel>(older_selection),
        action_key(newer[i]) is Some,
        action_key(newer[i]) == action_key(older[j]),
    ensures
        !older_selection[j],
{
    let after = replayed(state, newer, newer.len() as int).0;
    law_first_seen_wins(state, newer, newer_selection, i);
    law_first_seen_wins(after, older, older_selection, j);
    law_keys_are_never_forgotten(state, newer, i + 1, newer.len() as int);
    law_keys_are_never_forgotten(after, older, 0, j);
}

/// An entry of the content root is kept exactly where it has a location and no action on its
/// key was seen. It is kept as it is, except that it is not new.
pub proof fn law_untouched_root_entries_are_kept(
    keys: Set<FileActionKey>,
    entry: EntryModel,
)
    ensures
        kept_entry(keys, entry) is Some <==> (entry.location matches Some(location)
            && !keys.contains(entry_key(location, entry))),
        kept_entry(keys, entry) matches Some(kept) ==> {
            &&& kept.tracking.status != TrackingStatus::Added
            &&& kept == entry.with_status(kept.tracking.status)
            &&& entry.tracking.status != TrackingStatus::Added ==> kept == entry
        },
{
}

/// What is kept of a batch of the content root is what is kept of its entries.
pub proof fn law_root_batches_are_kept_entrywise(
    keys: Set<FileActionKey>,
    entries: Seq<EntryModel>,
    n: int,
    kept: EntryModel,
)
    requires
        0 <= n <= entries.len(),
    ensures
        kept_entries(keys, entries, n).contains(kept) <==> exists|i: int|
            0 <= i < n && kept_entry(keys, #[trigger] entries[i]) == Some(kept),
    decreases n,
{
    if n > 0 {
        let head = kept_entries(keys, entries, n - 1);
        let all = kept_entries(keys, entries, n);
        law_root_batches_are_kept_entrywise(keys, entries, n - 1, kept);
        match kept_entry(keys, entries[n - 1]) {
            Some(last) => {
                assert(all == head.push(last));
                assert(all[head.len() as int] == last);
                if head.contains(kept) {
                    let i = choose|i: int| 0 <= i < head.len() && head[i] == kept;
                    assert(all[i] == kept);
                }
                if all.contains(kept) && kept != last {
                    let i = choose|i: int| 0 <= i < all.len() && all[i] == kept;
                    assert(head[i] == kept);
                }
                if kept == last {
                    assert(kept_entry(keys, entries[n - 1]) == Some(kept));
                }
            },
            None => {},
        }
        if exists|i: int| 0 <= i < n && kept_entry(keys, #[trigger] entries[i]) == Some(kept) {
            let i = choose|i: int|
                0 <= i < n && kept_entry(keys, #[trigger] entries[i]) == Some(kept);
            if i < n - 1 {
                assert(kept_entry(keys, entries[i]) == Some(kept));
            }
        }
    }
}

/// Log and root do not both supply a file: an entry of the content root whose key an action of
/// the log has is not kept.
pub proof fn law_log_supersedes_root(
    state: ReplayModel,
    actions: Seq<ActionModel>,
    selection: Seq<bool>,
    i: int,
    entry: EntryModel,
)
    requires
        0 <= i < actions.len(),
        replayed(state, actions, actions.len() as int).1 == Ok::<Seq<bool>, ErrorModel>(selection),
        entry.location is Some,
        action_key(actions[i]) == Some(entry_key(entry.location->Some_0, entry)),
    ensures
        kept_entry(replayed(state, actions, actions.len() as int).0.keys, entry) is None,
{
    law_first_seen_wins(state, actions, selection, i);
    law_keys_are_never_forgotten(state, actions, i + 1, actions.len() as int);
}

/// Commits below the version from which a replay starts change nothing.
pub proof fn law_covered_commits_are_passed_over(
    state: ReplayModel,
    commit: CommitModel,
    from_version: Version,
)
    requires
        commit.version < from_version,
    ensures
        commit_replayed(state, commit, from_version) == (
            state,
            Ok::<Option<Seq<EntryModel>>, ErrorModel>(None),
        ),
{
    reveal(commit_replayed);
}

/// A replay keeps no more rows than a batch has.
pub proof fn law_selection_only_drops_rows(rows: Seq<EntryModel>, selection: Seq<bool>, n: int)
    requires
        0 <= n <= rows.len(),
    ensures
        selected_rows(rows, selection, n).len() <= n,
        forall|row: EntryModel| #[trigger]
            selected_rows(rows, selection, n).contains(row) ==> rows.contains(row),
    decreases n,
{
    if n > 0 {
        law_selection_only_drops_rows(rows, selection, n - 1);
        let head = selected_rows(rows, selection, n - 1);
        let all = selected_rows(rows, selection, n);
        assert forall|row: EntryModel| #[trigger] all.contains(row) implies rows.contains(row) by {
            let i = choose|i: int| 0 <= i < all.len() && all[i] == row;
            if i < head.len() {
                assert(head[i] == row);
                assert(head.contains(row));
            } else {
                assert(rows[n - 1] == row);
            }
        }
    }
}

/// Removes pass the check exactly where every selected row of every batch does.
pub proof fn law_removes_pass_row_by_row(batches: Seq<RemoveBatchModel>)
    ensures
        remove_error(batches, batches.len() as int) is None <==> forall|b: int, i: int|
            0 <= b < batches.len() && 0 <= i < batches[b].rows.len() && #[trigger] is_selected(
                batches[b].selection,
                i,
            ) ==> remove_row_error(#[trigger] batches[b].rows[i], batches[b].stats_required())
                is None,
{
    lemma_removes_pass(batches, batches.len() as int);
}

/// A batch passes exactly where its selected rows do.
proof fn lemma_batch_passes(batch: RemoveBatchModel, n: int)
    requires
        0 <= n <= batch.rows.len(),
    ensures
        batch.error(n) is None <==> forall|i: int|
            0 <= i < n && #[trigger] is_selected(batch.selection, i) ==> remove_row_error(
                #[trigger] batch.rows[i],
                batch.stats_required(),
            ) is None,
    decreases n,
{
    if n > 0 {
        lemma_batch_passes(batch, n - 1);
        if batch.error(n) is None {
            assert forall|i: int| 0 <= i < n && #[trigger] is_selected(
                batch.selection,
                i,
            ) implies remove_row_error(#[trigger] batch.rows[i], batch.stats_required()) is None by {
                if i == n - 1 {
                    assert(batch.error(n - 1) is None);
                }
            }
        } else if batch.error(n - 1) is None {
            assert(is_selected(batch.selection, n - 1));
            assert(remove_row_error(batch.rows[n - 1], batch.stats_required()) is Some);
        }
    }
}

/// The first batches pass exactly where their selected rows do.
proof fn lemma_removes_pass(batches: Seq<RemoveBatchModel>, n: int)
    requires
        0 <= n <= batches.len(),
    ensures
        remove_error(batches, n) is None <==> forall|b: int, i: int|
            0 <= b < n && 0 <= i < batches[b].rows.len() && #[trigger] is_selected(
                batches[b].selection,
                i,
            ) ==> remove_row_error(#[trigger] batches[b].rows[i], batches[b].stats_required())
                is None,
    decreases n,
{
    if n > 0 {
        lemma_removes_pass(batches, n - 1);
        let last = batches[n - 1];
        lemma_batch_passes(last, last.rows.len() as int);
        if remove_error(batches, n) is None {
            assert forall|b: int, i: int|
                0 <= b < n && 0 <= i < batches[b].rows.len() && #[trigger] is_selected(
                    batches[b].selection,
                    i,
                ) implies remove_row_error(
                #[trigger] batches[b].rows[i],
                batches[b].stats_required(),
            ) is None by {
                if b == n - 1 {
                    assert(last.error(last.rows.len() as int) is None);
                }
            }
        } else if remove_error(batches, n - 1) is None {
            assert(last.error(last.rows.len() as int) is Some);
            let i = choose|i: int|
                0 <= i < last.rows.len() && #[trigger] is_selected(last.selection, i)
                    && !(remove_row_error(#[trigger] last.rows[i], last.stats_required()) is None);
            assert(is_selected(batches[n - 1].selection, i));
            assert(remove_row_error(batches[n - 1].rows[i], batches[n - 1].stats_required())
                is Some);
        }
    }
}

/// A row that gets a new deletion vector is either changed in place or added again, never both:
/// it is added again exactly where it takes part, names a file and is not in the root.
pub proof fn law_dv_updates_are_in_place_or_readded(
    rows: Seq<ScanRowModel>,
    selection: Seq<bool>,
    root: Option<Seq<char>>,
    made: DecisionModel,
    i: int,
    n: int,
)
    requires
        0 <= i < n <= rows.len(),
        decisions(rows, selection, root, n) == Ok::<DecisionModel, ErrorModel>(made),
    ensures
        made.selection.len() == n,
        made.selection[i] <==> (is_chosen(selection, i) && (placement(rows[i], root)->Ok_0 is Leaf
            || placement(rows[i], root)->Ok_0 is Untracked)),
        is_chosen(selection, i) ==> placement(rows[i], root) is Ok,
        is_chosen(selection, i) && placement(rows[i], root) == Ok::<Placement, ErrorModel>(
            Placement::Root,
        ) ==> made.root_paths.contains(rows[i].path->Some_0),
    decreases n,
{
    let before = decisions(rows, selection, root, n - 1)->Ok_0;
    assert(decisions(rows, selection, root, n - 1) == Ok::<DecisionModel, ErrorModel>(before));
    lemma_decisions_len(rows, selection, root, before, n - 1);
    if i < n - 1 {
        law_dv_updates_are_in_place_or_readded(rows, selection, root, before, i, n - 1);
        assert(made.selection[i] == before.selection[i]);
        if before.root_paths.contains(rows[i].path->Some_0) {
            let k = choose|k: int|
                0 <= k < before.root_paths.len() && before.root_paths[k] == rows[i].path->Some_0;
            assert(made.root_paths[k] == rows[i].path->Some_0);
        }
    } else {
        if placement(rows[i], root) == Ok::<Placement, ErrorModel>(Placement::Root) && is_chosen(
            selection,
            i,
        ) {
            assert(made.root_paths[before.root_paths.len() as int] == rows[i].path->Some_0);
        }
    }
}

/// There is one decision for each row.
proof fn lemma_decisions_len(
    rows: Seq<ScanRowModel>,
    selection: Seq<bool>,
    root: Option<Seq<char>>,
    made: DecisionModel,
    n: int,
)
    requires
        0 <= n <= rows.len(),
        decisions(rows, selection, root, n) == Ok::<DecisionModel, ErrorModel>(made),
    ensures
        made.selection.len() == n,
    decreases n,
{
    if n > 0 {
        let before = decisions(rows, selection, root, n - 1)->Ok_0;
        lemma_decisions_len(rows, selection, root, before, n - 1);
    }
}

/// An action is refused exactly where its deletion vector cannot be located, or where it removes
/// a row at a negative position.
pub proof fn law_unusable_actions_stop_a_replay(state: ReplayModel, action: ActionModel)
    ensures
        replay_step(state, action).1 is Err <==> {
            ||| action.add_path is Some && dv_key(
                action.add_dv.storage_type,
                action.add_dv.path_or_inline_dv,
            ) is Err
            ||| action.add_path is None && action.remove_path is Some && {
                ||| dv_key(action.remove_dv.storage_type, action.remove_dv.path_or_inline_dv) is Err
                ||| action.remove_manifest is Some && action.remove_position is Some
                    && action.remove_position->0 < 0
            }
        },
{
}

/// A deletion vector cannot be located exactly where it has a storage type and its path is
/// missing, its storage type is unknown or inline, or its relative path cannot be decoded.
pub proof fn law_deletion_vectors_are_located(
    storage_type: Option<Seq<char>>,
    path: Option<Seq<char>>,
)
    ensures
        dv_key(storage_type, path) == Ok::<Option<Seq<char>>, ErrorModel>(None) <==> storage_type
            is None,
        dv_key(storage_type, path) is Err <==> (storage_type matches Some(letter) && {
            ||| path is None
            ||| letter != "u"@ && letter != "p"@
            ||| letter == "u"@ && crate::deletion_vector::relative_dv_path(path->0) is Err
        }),
        storage_type == Some("p"@) && path is Some ==> dv_key(storage_type, path) == Ok::<
            Option<Seq<char>>,
            ErrorModel,
        >(path),
{
    reveal_strlit("u");
    reveal_strlit("i");
    reveal_strlit("p");
    assert("u"@[0] == 'u' && "i"@[0] == 'i' && "p"@[0] == 'p');
}

/// The deletion vectors of a batch are decoded exactly where one of its rows survives.
pub proof fn law_dropped_batches_are_not_decoded(
    selection: Seq<bool>,
    actions: Seq<ActionModel>,
    i: int,
)
    requires
        0 <= i < selection.len(),
    ensures
        selection[i] ==> !(batch_plan(selection, actions) matches Ok(None)),
        (forall|j: int| 0 <= j < selection.len() ==> !#[trigger] selection[j]) ==> batch_plan(
            selection,
            actions,
        ) == Ok::<Option<DvColumns>, ErrorModel>(None),
        batch_plan(selection, actions) matches Ok(Some(columns)) ==> decoded_columns(
            no_dv_columns(),
            Seq::new(actions.len(), |k: int| actions[k].add_dv),
            actions.len() as int,
        ) == Ok::<DvColumns, ErrorModel>(columns),
{
}

/// A replayed commit hands on those of its evaluated rows whose actions survive, in their order.
pub proof fn law_commits_hand_on_surviving_rows(
    state: ReplayModel,
    commit: CommitModel,
    from_version: Version,
)
    ensures
        commit_replayed(state, commit, from_version).1 matches Ok(Some(kept)) ==> {
            &&& commit.version >= from_version
            &&& replayed(state, commit.actions, commit.actions.len() as int).1 matches Ok(
                selection,
            ) && (commit.evaluated matches Ok(rows) && selection.len() <= rows.len() && kept
                == selected_rows(rows, selection, rows.len() as int))
        },
        commit_replayed(state, commit, from_version).1 matches Ok(None) ==> commit.version
            < from_version || (replayed(
            state,
            commit.actions,
            commit.actions.len() as int,
        ).1 matches Ok(selection) && forall|i: int|
            0 <= i < selection.len() ==> !#[trigger] selection[i]),
        commit.version >= from_version ==> commit_replayed(state, commit, from_version).0
            == replayed(state, commit.actions, commit.actions.len() as int).0,
{
    reveal(commit_replayed);
}

/// The batches that a replay hands on are those of its commits, in the order of the commits.
pub proof fn law_replays_hand_on_commit_by_commit(
    state: ReplayModel,
    commits: Seq<CommitModel>,
    from_version: Version,
    n: int,
)
    requires
        0 < n <= commits.len(),
        commits_replayed(state, commits, from_version, n).1 is Ok,
    ensures
        commits_replayed(state, commits, from_version, n - 1) matches (before, Ok(batches)) && (
        commit_replayed(before, commits[n - 1], from_version) matches (after, Ok(rows))
            && commits_replayed(state, commits, from_version, n) == (
            after,
            Ok::<Seq<Seq<EntryModel>>, ErrorModel>(
                match rows {
                    Some(rows) => batches.push(rows),
                    None => batches,
                },
            ),
        )),
{
}

/// The entries of the content root are kept in their order.
pub proof fn law_root_entries_keep_their_order(
    keys: Set<FileActionKey>,
    entries: Seq<EntryModel>,
    n: int,
    i: int,
)
    requires
        0 <= i < n <= entries.len(),
        kept_entry(keys, entries[i]) is Some,
    ensures
        ({
            let place = kept_entries(keys, entries, i).len() as int;
            let kept = kept_entries(keys, entries, n);
            &&& place < kept.len()
            &&& Some(kept[place]) == kept_entry(keys, entries[i])
            &&& kept_entries(keys, entries, i + 1).len() == place + 1
        }),
    decreases n,
{
    if i < n - 1 {
        law_root_entries_keep_their_order(keys, entries, n - 1, i);
    }
}

} // verus!
