//! Laws of a rebuilt content root: what the log and the existing root come to together.

use vstd::prelude::*;

use crate::builder::{all_rows, entry_at_commit_start, BuilderModel, Version};
use crate::commit_builder::{
    baseline_plan, batches_added, blank_builder, is_baseline, leaf_removals, log_replayed,
    nothing_seen, removed_positions, root_replayed, PlanModel,
};
use crate::dv_cache::LeafPositionUpdate;
use crate::entry::{EntryModel, TrackingStatus};
use crate::error::ErrorModel;
use crate::laws::entries::law_added_entries_come_behind;
use crate::laws::replays::{
    action_key, law_first_seen_wins, law_keys_are_never_forgotten,
    law_root_batches_are_kept_entrywise,
};
use crate::leaf_updates::leaf_updates_made;
use crate::manifest_commit::ManifestCommitModel;
use crate::replay::{
    commit_replayed, commits_replayed, entry_key, kept_entries, kept_entry, replayed, ActionModel,
    CommitModel, FileActionKey, ReplayModel,
};

verus! {

/// The row of a leaf manifest that an action removes: none for an action that is no remove and
/// for a remove that refers to no manifest.
pub open spec fn removed_row(action: ActionModel) -> Option<(Seq<char>, u64)> {
    match (action.add_path, action.remove_path, action.remove_manifest, action.remove_position) {
        (None, Some(_), Some(manifest), Some(position)) => Some((manifest, position as u64)),
        _ => None,
    }
}

/// Whether one of the first `n` commits is replayed and has an action on a key.
pub open spec fn log_touches(
    commits: Seq<CommitModel>,
    from_version: Version,
    n: int,
    key: FileActionKey,
) -> bool {
    exists|c: int, a: int|
        0 <= c < n && commits[c].version >= from_version && 0 <= a < commits[c].actions.len()
            && action_key(#[trigger] commits[c].actions[a]) == Some(key)
}

/// Whether one of the first `n` commits is replayed and removes a row of a leaf manifest.
pub open spec fn log_removes(
    commits: Seq<CommitModel>,
    from_version: Version,
    n: int,
    row: (Seq<char>, u64),
) -> bool {
    exists|c: int, a: int|
        0 <= c < n && commits[c].version >= from_version && 0 <= a < commits[c].actions.len()
            && removed_row(#[trigger] commits[c].actions[a]) == Some(row)
}

/// Which rows of commit `c` survive a replay.
pub open spec fn survivors(commits: Seq<CommitModel>, from_version: Version, c: int) -> Seq<bool> {
    replayed(
        commits_replayed(nothing_seen(), commits, from_version, c).0,
        commits[c].actions,
        commits[c].actions.len() as int,
    ).1->Ok_0
}

/// The keys that a batch leaves behind are those that were there and those of its actions.
pub proof fn law_seen_keys_are_those_of_the_actions(
    state: ReplayModel,
    actions: Seq<ActionModel>,
    n: int,
    key: FileActionKey,
)
    requires
        0 <= n <= actions.len(),
        replayed(state, actions, n).1 is Ok,
    ensures
        replayed(state, actions, n).0.keys.contains(key) <==> (state.keys.contains(key)
            || exists|i: int| 0 <= i < n && action_key(#[trigger] actions[i]) == Some(key)),
    decreases n,
{
    if n > 0 {
        law_seen_keys_are_those_of_the_actions(state, actions, n - 1, key);
        if action_key(actions[n - 1]) == Some(key) {
            assert(replayed(state, actions, n).0.keys.contains(key));
        }
    }
}

/// The removed rows that a batch leaves behind are those that were there and those that its
/// actions remove.
pub proof fn law_seen_removes_are_those_of_the_actions(
    state: ReplayModel,
    actions: Seq<ActionModel>,
    n: int,
    row: (Seq<char>, u64),
)
    requires
        0 <= n <= actions.len(),
        replayed(state, actions, n).1 is Ok,
    ensures
        replayed(state, actions, n).0.removes.contains(row) <==> (state.removes.contains(row)
            || exists|i: int| 0 <= i < n && removed_row(#[trigger] actions[i]) == Some(row)),
    decreases n,
{
    if n > 0 {
        law_seen_removes_are_those_of_the_actions(state, actions, n - 1, row);
        let before = replayed(state, actions, n - 1).0.removes;
        let after = replayed(state, actions, n).0.removes;
        match removed_row(actions[n - 1]) {
            Some(last) => {
                assert(after == before.push(last));
                lemma_push_contains(before, last, row);
                if last == row {
                    assert(removed_row(actions[n - 1]) == Some(row));
                }
            },
            None => {
                assert(after == before);
            },
        }
    }
}

/// What a sequence holds after a push.
proof fn lemma_push_contains<A>(items: Seq<A>, last: A, item: A)
    ensures
        items.push(last).contains(item) <==> (items.contains(item) || item == last),
{
    if items.contains(item) {
        let i = choose|i: int| 0 <= i < items.len() && items[i] == item;
        assert(items.push(last)[i] == item);
    }
    if item == last {
        assert(items.push(last)[items.len() as int] == item);
    }
    if items.push(last).contains(item) && item != last {
        let i = choose|i: int| 0 <= i < items.push(last).len() && items.push(last)[i] == item;
        assert(items[i] == item);
    }
}

/// A replay of commits that succeeds succeeded all along.
proof fn lemma_commits_prefix(
    state: ReplayModel,
    commits: Seq<CommitModel>,
    from_version: Version,
    m: int,
    n: int,
)
    requires
        0 <= m <= n,
        commits_replayed(state, commits, from_version, n).1 is Ok,
    ensures
        commits_replayed(state, commits, from_version, m).1 is Ok,
    decreases n,
{
    if m < n {
        lemma_commits_prefix(state, commits, from_version, m, n - 1);
    }
}

/// The keys that a replay leaves behind are those of the actions of the commits that it goes
/// through: no action is overlooked, and no other key is noted.
pub proof fn law_replays_see_every_key(
    commits: Seq<CommitModel>,
    from_version: Version,
    n: int,
    key: FileActionKey,
)
    requires
        0 <= n <= commits.len(),
        commits_replayed(nothing_seen(), commits, from_version, n).1 is Ok,
    ensures
        commits_replayed(nothing_seen(), commits, from_version, n).0.keys.contains(key)
            <==> log_touches(commits, from_version, n, key),
    decreases n,
{
    if n > 0 {
        reveal(commit_replayed);
        law_replays_see_every_key(commits, from_version, n - 1, key);
        let before = commits_replayed(nothing_seen(), commits, from_version, n - 1).0;
        let last = commits[n - 1];
        if last.version >= from_version {
            law_seen_keys_are_those_of_the_actions(
                before,
                last.actions,
                last.actions.len() as int,
                key,
            );
            if exists|a: int|
                0 <= a < last.actions.len() && action_key(#[trigger] last.actions[a]) == Some(
                    key,
                ) {
                let a = choose|a: int|
                    0 <= a < last.actions.len() && action_key(#[trigger] last.actions[a]) == Some(
                        key,
                    );
                assert(action_key(commits[n - 1].actions[a]) == Some(key));
            }
        }
        if log_touches(commits, from_version, n - 1, key) {
            let (c, a) = choose|c: int, a: int|
                0 <= c < n - 1 && commits[c].version >= from_version && 0 <= a
                    < commits[c].actions.len() && action_key(#[trigger] commits[c].actions[a])
                    == Some(key);
            assert(action_key(commits[c].actions[a]) == Some(key));
        }
        if log_touches(commits, from_version, n, key) {
            let (c, a) = choose|c: int, a: int|
                0 <= c < n && commits[c].version >= from_version && 0 <= a
                    < commits[c].actions.len() && action_key(#[trigger] commits[c].actions[a])
                    == Some(key);
            if c == n - 1 {
                assert(action_key(last.actions[a]) == Some(key));
            } else {
                assert(action_key(commits[c].actions[a]) == Some(key));
            }
        }
    }
}

/// The removed rows that a replay leaves behind are those that the actions of the commits that
/// it goes through remove.
pub proof fn law_replays_see_every_remove(
    commits: Seq<CommitModel>,
    from_version: Version,
    n: int,
    row: (Seq<char>, u64),
)
    requires
        0 <= n <= commits.len(),
        commits_replayed(nothing_seen(), commits, from_version, n).1 is Ok,
    ensures
        commits_replayed(nothing_seen(), commits, from_version, n).0.removes.contains(row)
            <==> log_removes(commits, from_version, n, row),
    decreases n,
{
    if n > 0 {
        reveal(commit_replayed);
        law_replays_see_every_remove(commits, from_version, n - 1, row);
        let before = commits_replayed(nothing_seen(), commits, from_version, n - 1).0;
        let last = commits[n - 1];
        if last.version >= from_version {
            law_seen_removes_are_those_of_the_actions(
                before,
                last.actions,
                last.actions.len() as int,
                row,
            );
            if exists|a: int|
                0 <= a < last.actions.len() && removed_row(#[trigger] last.actions[a]) == Some(
                    row,
                ) {
                let a = choose|a: int|
                    0 <= a < last.actions.len() && removed_row(#[trigger] last.actions[a]) == Some(
                        row,
                    );
                assert(removed_row(commits[n - 1].actions[a]) == Some(row));
            }
        }
        if log_removes(commits, from_version, n - 1, row) {
            let (c, a) = choose|c: int, a: int|
                0 <= c < n - 1 && commits[c].version >= from_version && 0 <= a
                    < commits[c].actions.len() && removed_row(#[trigger] commits[c].actions[a])
                    == Some(row);
            assert(removed_row(commits[c].actions[a]) == Some(row));
        }
        if log_removes(commits, from_version, n, row) {
            let (c, a) = choose|c: int, a: int|
                0 <= c < n && commits[c].version >= from_version && 0 <= a
                    < commits[c].actions.len() && removed_row(#[trigger] commits[c].actions[a])
                    == Some(row);
            if c == n - 1 {
                assert(removed_row(last.actions[a]) == Some(row));
            } else {
                assert(removed_row(commits[c].actions[a]) == Some(row));
            }
        }
    }
}

/// What a newer commit did to a file is final, however many commits lie between: no row of an
/// older commit with its key survives.
pub proof fn law_newer_commits_are_final(
    commits: Seq<CommitModel>,
    from_version: Version,
    newer: int,
    a: int,
    older: int,
    b: int,
)
    requires
        0 <= newer < older < commits.len(),
        commits[newer].version >= from_version,
        commits[older].version >= from_version,
        0 <= a < commits[newer].actions.len(),
        0 <= b < commits[older].actions.len(),
        action_key(commits[newer].actions[a]) is Some,
        action_key(commits[newer].actions[a]) == action_key(commits[older].actions[b]),
        commits_replayed(nothing_seen(), commits, from_version, commits.len() as int).1 is Ok,
    ensures
        !survivors(commits, from_version, older)[b],
{
    let n = commits.len() as int;
    let key = action_key(commits[newer].actions[a])->Some_0;
    lemma_commits_prefix(nothing_seen(), commits, from_version, older, n);
    lemma_commits_prefix(nothing_seen(), commits, from_version, older + 1, n);
    law_replays_see_every_key(commits, from_version, older, key);
    let before = commits_replayed(nothing_seen(), commits, from_version, older).0;
    let actions = commits[older].actions;
    reveal(commit_replayed);
    assert(commit_replayed(before, commits[older], from_version).1 is Ok);
    let selection = replayed(before, actions, actions.len() as int).1->Ok_0;
    assert(replayed(before, actions, actions.len() as int).1 == Ok::<Seq<bool>, ErrorModel>(
        selection,
    ));
    law_first_seen_wins(before, actions, selection, b);
    law_keys_are_never_forgotten(before, actions, 0, b);
}

/// A row of a commit survives exactly where it is an `add` and no newer commit, and no row in
/// front of it in its own commit, has an action on its key.
pub proof fn law_latest_adds_survive(
    commits: Seq<CommitModel>,
    from_version: Version,
    c: int,
    i: int,
)
    requires
        0 <= c < commits.len(),
        commits[c].version >= from_version,
        0 <= i < commits[c].actions.len(),
        commits_replayed(nothing_seen(), commits, from_version, commits.len() as int).1 is Ok,
    ensures
        survivors(commits, from_version, c)[i] <==> (commits[c].actions[i].add_path is Some
            && !log_touches(
            commits,
            from_version,
            c,
            action_key(commits[c].actions[i])->Some_0,
        ) && forall|j: int|
            0 <= j < i ==> action_key(#[trigger] commits[c].actions[j]) != action_key(
                commits[c].actions[i],
            )),
{
    let n = commits.len() as int;
    lemma_commits_prefix(nothing_seen(), commits, from_version, c, n);
    lemma_commits_prefix(nothing_seen(), commits, from_version, c + 1, n);
    let before = commits_replayed(nothing_seen(), commits, from_version, c).0;
    let actions = commits[c].actions;
    reveal(commit_replayed);
    assert(commit_replayed(before, commits[c], from_version).1 is Ok);
    let selection = replayed(before, actions, actions.len() as int).1->Ok_0;
    assert(replayed(before, actions, actions.len() as int).1 == Ok::<Seq<bool>, ErrorModel>(
        selection,
    ));
    law_first_seen_wins(before, actions, selection, i);
    if actions[i].add_path is Some {
        let key = action_key(actions[i])->Some_0;
        law_replays_see_every_key(commits, from_version, c, key);
        crate::laws::replays::lemma_replay_prefix(
            before,
            actions,
            selection,
            i,
            actions.len() as int,
        );
        law_seen_keys_are_those_of_the_actions(before, actions, i, key);
        if exists|j: int| 0 <= j < i && action_key(#[trigger] actions[j]) == Some(key) {
            let j = choose|j: int| 0 <= j < i && action_key(#[trigger] actions[j]) == Some(key);
            assert(action_key(commits[c].actions[j]) == action_key(commits[c].actions[i]));
        }
        if !(forall|j: int|
            0 <= j < i ==> action_key(#[trigger] commits[c].actions[j]) != action_key(
                commits[c].actions[i],
            )) {
            let j = choose|j: int|
                0 <= j < i && action_key(#[trigger] commits[c].actions[j]) == action_key(
                    commits[c].actions[i],
                );
            assert(action_key(actions[j]) == Some(key));
        }
    }
}

/// The entry as it stands in a root that a later commit rebuilds: there already, and without
/// the bitmaps of the last commit.
pub open spec fn as_rebuilt(entry: EntryModel) -> EntryModel {
    entry_at_commit_start(
        if entry.tracking.status == TrackingStatus::Added {
            entry.with_status(TrackingStatus::Existing)
        } else {
            entry
        },
    )
}

/// Adding batches leaves the entries and the bitmaps of a builder as they were.
proof fn lemma_batches_keep_entries(
    builder: BuilderModel,
    batches: Seq<Seq<EntryModel>>,
    n: int,
)
    requires
        0 <= n <= batches.len(),
    ensures
        batches_added(builder, batches, n) matches Ok(after) ==> after.entries == builder.entries
            && after.caches == builder.caches,
    decreases n,
{
    if n > 0 {
        lemma_batches_keep_entries(builder, batches, n - 1);
    }
}

/// The entries of a rebuilt root are those of the existing root that no replayed commit touches:
/// each of them, and no other.
pub proof fn law_rebuilt_roots_keep_what_the_log_leaves(
    commit: ManifestCommitModel,
    commits: Seq<CommitModel>,
    root_batches: Seq<Seq<EntryModel>>,
    from_version: Version,
    path: Seq<char>,
    builder: BuilderModel,
    entry: EntryModel,
)
    requires
        baseline_plan(commit) == PlanModel::Replay(from_version, Some(path)),
        is_baseline(commit, commits, root_batches, Ok(builder)),
    ensures
        builder.entries.contains(entry) <==> exists|i: int|
            {
                &&& 0 <= i < all_rows(root_batches).len()
                &&& (#[trigger] all_rows(root_batches)[i]).location is Some
                &&& !log_touches(
                    commits,
                    from_version,
                    commits.len() as int,
                    entry_key(all_rows(root_batches)[i].location->Some_0, all_rows(root_batches)[i]),
                )
                &&& entry == as_rebuilt(all_rows(root_batches)[i])
            },
{
    let rows = all_rows(root_batches);
    let n = commits.len() as int;
    let (replay, with_log) = log_replayed(commit, commits, from_version)->Ok_0;
    let batches = commits_replayed(nothing_seen(), commits, from_version, n).1->Ok_0;
    lemma_batches_keep_entries(blank_builder(commit), batches, batches.len() as int);
    assert(with_log.entries.len() == 0);
    let kept = kept_entries(replay.keys, rows, rows.len() as int);
    law_added_entries_come_behind(with_log, kept, kept.len() as int);
    let with_root = root_replayed(replay, with_log, rows);
    assert(builder.entries == with_root.entries);
    assert forall|j: int| 0 <= j < kept.len() implies #[trigger] builder.entries[j]
        == entry_at_commit_start(kept[j]) by {
        assert(with_root.entries[with_log.entries.len() + j] == entry_at_commit_start(kept[j]));
    }
    if builder.entries.contains(entry) {
        let j = choose|j: int| 0 <= j < builder.entries.len() && builder.entries[j] == entry;
        assert(kept.contains(kept[j]));
        law_root_batches_are_kept_entrywise(replay.keys, rows, rows.len() as int, kept[j]);
        let i = choose|i: int|
            0 <= i < rows.len() && kept_entry(replay.keys, #[trigger] rows[i]) == Some(kept[j]);
        law_replays_see_every_key(
            commits,
            from_version,
            n,
            entry_key(rows[i].location->Some_0, rows[i]),
        );
        assert(entry == as_rebuilt(rows[i]));
    }
    if exists|i: int|
        {
            &&& 0 <= i < rows.len()
            &&& (#[trigger] rows[i]).location is Some
            &&& !log_touches(
                commits,
                from_version,
                n,
                entry_key(rows[i].location->Some_0, rows[i]),
            )
            &&& entry == as_rebuilt(rows[i])
        } {
        let i = choose|i: int|
            {
                &&& 0 <= i < rows.len()
                &&& (#[trigger] rows[i]).location is Some
                &&& !log_touches(
                    commits,
                    from_version,
                    n,
                    entry_key(rows[i].location->Some_0, rows[i]),
                )
                &&& entry == as_rebuilt(rows[i])
            };
        law_replays_see_every_key(
            commits,
            from_version,
            n,
            entry_key(rows[i].location->Some_0, rows[i]),
        );
        let survivor = kept_entry(replay.keys, rows[i])->Some_0;
        law_root_batches_are_kept_entrywise(replay.keys, rows, rows.len() as int, survivor);
        assert(kept_entry(replay.keys, rows[i]) == Some(survivor));
        assert(kept.contains(survivor));
        let j = choose|j: int| 0 <= j < kept.len() && kept[j] == survivor;
        assert(builder.entries[j] == entry);
    }
}

/// The rows of the leaf manifests of a rebuilt root that replayed commits remove are masked and
/// recorded as deleted; nothing else is masked that was not masked before.
pub proof fn law_rebuilt_roots_mask_removed_rows(
    commit: ManifestCommitModel,
    commits: Seq<CommitModel>,
    root_batches: Seq<Seq<EntryModel>>,
    from_version: Version,
    path: Seq<char>,
    builder: BuilderModel,
    leaf: Seq<char>,
    position: u64,
)
    requires
        baseline_plan(commit) == PlanModel::Replay(from_version, Some(path)),
        is_baseline(commit, commits, root_batches, Ok(builder)),
        builder.caches.contains_key(leaf),
    ensures
        ({
            let (replay, with_log) = log_replayed(commit, commits, from_version)->Ok_0;
            let before = root_replayed(replay, with_log, all_rows(root_batches)).caches[leaf];
            let after = builder.caches[leaf];
            let removed = log_removes(
                commits,
                from_version,
                commits.len() as int,
                (leaf, position),
            );
            &&& removed ==> after.masked() is Some && after.masked()->Some_0.contains(position)
            &&& after.deleted.contains(position) <==> (before.deleted.contains(position)
                || removed)
            &&& before.masked() is Some ==> after.masked() is Some && (
            after.masked()->Some_0.contains(position) <==> (before.masked()->Some_0.contains(
                position,
            ) || removed))
        }),
{
    let n = commits.len() as int;
    let (replay, with_log) = log_replayed(commit, commits, from_version)->Ok_0;
    let with_root = root_replayed(replay, with_log, all_rows(root_batches));
    let removals = leaf_removals(replay, with_root);
    assert(builder == leaf_updates_made(with_root, removals, LeafPositionUpdate::Delete));
    law_replays_see_every_remove(commits, from_version, n, (leaf, position));
    assert(with_root.caches.contains_key(leaf));
    if replay.removes.contains((leaf, position)) {
        assert(removed_positions(replay.removes).contains_key(leaf));
        assert(removals.contains_key(leaf));
    }
    if removals.contains_key(leaf) {
        assert(crate::builder::leaf_positions_updated(
            with_root,
            leaf,
            removals[leaf],
            LeafPositionUpdate::Delete,
        ) is Ok);
        assert(removals[leaf].contains(position) == replay.removes.contains((leaf, position)));
    }
}

} // verus!
