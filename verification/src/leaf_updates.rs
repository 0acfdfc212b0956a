//! Updates of the positions of several leaf manifests at once.

use roaring::RoaringTreemap;
use vstd::prelude::*;

use crate::bitmap::positions;
use crate::builder::{leaf_positions_updated, BuilderModel, ContentTreeNodeBuilder};
use crate::dv_cache::{CacheModel, LeafPositionUpdate};
use crate::error::{DeltaResult, ErrorModel};
use crate::scan_updates::bitmap_models;
use crate::string_map::StringMap;

verus! {

/// Whether each of the updates can be made.
pub open spec fn leaf_updates_possible(
    builder: BuilderModel,
    updates: Map<Seq<char>, Set<u64>>,
    kind: LeafPositionUpdate,
) -> bool {
    forall|leaf: Seq<char>| #[trigger]
        updates.contains_key(leaf) ==> leaf_positions_updated(
            builder,
            leaf,
            updates[leaf],
            kind,
        ) is Ok
}

/// The cache of a leaf after the updates.
pub open spec fn cache_after_updates(
    builder: BuilderModel,
    updates: Map<Seq<char>, Set<u64>>,
    kind: LeafPositionUpdate,
    leaf: Seq<char>,
) -> CacheModel {
    if updates.contains_key(leaf) {
        builder.caches[leaf].updated(updates[leaf], kind)->Ok_0
    } else {
        builder.caches[leaf]
    }
}

/// The builder after the updates: they concern different leaves, so that their order is of no
/// account.
pub open spec fn leaf_updates_made(
    builder: BuilderModel,
    updates: Map<Seq<char>, Set<u64>>,
    kind: LeafPositionUpdate,
) -> BuilderModel {
    BuilderModel {
        caches: Map::new(
            |leaf: Seq<char>| builder.caches.contains_key(leaf),
            |leaf: Seq<char>| cache_after_updates(builder, updates, kind, leaf),
        ),
        ..builder
    }
}

/// Whether an error is that of one of the updates.
pub open spec fn leaf_update_failed(
    builder: BuilderModel,
    updates: Map<Seq<char>, Set<u64>>,
    kind: LeafPositionUpdate,
    error: ErrorModel,
) -> bool {
    exists|leaf: Seq<char>|
        {
            &&& #[trigger] updates.contains_key(leaf)
            &&& leaf_positions_updated(builder, leaf, updates[leaf], kind) == Err::<
                BuilderModel,
                ErrorModel,
            >(error)
        }
}

/// Whether a builder is what is left of another one where the updates stopped at one that
/// failed: the leaves are the same, and the cache of each is as it was or as its update leaves
/// it.
pub open spec fn leaf_updates_begun(
    before: BuilderModel,
    updates: Map<Seq<char>, Set<u64>>,
    kind: LeafPositionUpdate,
    after: BuilderModel,
) -> bool {
    &&& after == (BuilderModel { caches: after.caches, ..before })
    &&& after.caches.dom() == before.caches.dom()
    &&& forall|leaf: Seq<char>| #[trigger]
        after.caches.contains_key(leaf) ==> {
            ||| after.caches[leaf] == before.caches[leaf]
            ||| updates.contains_key(leaf) && before.caches[leaf].updated(updates[leaf], kind)
                == Ok::<CacheModel, ErrorModel>(after.caches[leaf])
        }
}

/// The updates of the first `n` keys of an order.
spec fn first_updates(
    updates: Map<Seq<char>, Set<u64>>,
    order: Seq<Seq<char>>,
    n: int,
    known: Set<Seq<char>>,
) -> Map<Seq<char>, Set<u64>> {
    Map::new(
        |leaf: Seq<char>|
            known.contains(leaf) && exists|i: int| 0 <= i < n && #[trigger] order[i] == leaf,
        |leaf: Seq<char>| updates[leaf],
    )
}

/// One more key of an order, one more update.
proof fn lemma_first_updates_step(
    updates: Map<Seq<char>, Set<u64>>,
    order: Seq<Seq<char>>,
    n: int,
    known: Set<Seq<char>>,
)
    requires
        0 <= n < order.len(),
        order.no_duplicates(),
    ensures
        !first_updates(updates, order, n, known).contains_key(order[n]),
        first_updates(updates, order, n + 1, known) == (if known.contains(order[n]) {
            first_updates(updates, order, n, known).insert(order[n], updates[order[n]])
        } else {
            first_updates(updates, order, n, known)
        }),
{
    let before = first_updates(updates, order, n, known);
    let after = first_updates(updates, order, n + 1, known);
    assert forall|leaf: Seq<char>| after.contains_key(leaf) <==> (before.contains_key(leaf) || (
    leaf == order[n] && known.contains(leaf))) by {
        if leaf == order[n] && known.contains(leaf) {
            assert(order[n] == leaf);
        }
    }
    if known.contains(order[n]) {
        assert(after =~= before.insert(order[n], updates[order[n]]));
    } else {
        assert(after =~= before);
    }
}

impl ContentTreeNodeBuilder {
    /// Masks positions of several leaf manifests. With `only_known`, leaves that the builder
    /// does not hold are passed over. Where an update fails, those before it stay made.
    pub fn update_leaves(
        &mut self,
        updates: &StringMap<RoaringTreemap>,
        update_kind: LeafPositionUpdate,
        only_known: bool,
    ) -> (updated: DeltaResult<()>)
        requires
            old(self).wf(),
            updates.wf(),
        ensures
            final(self).wf(),
            ({
                let wanted = bitmap_models(updates@);
                let relevant = if only_known {
                    wanted.restrict(old(self)@.caches.dom())
                } else {
                    wanted
                };
                match updated {
                    Ok(_) => {
                        &&& leaf_updates_possible(old(self)@, relevant, update_kind)
                        &&& final(self)@ == leaf_updates_made(old(self)@, relevant, update_kind)
                    },
                    Err(e) => {
                        &&& leaf_update_failed(old(self)@, relevant, update_kind, e@)
                        &&& leaf_updates_begun(
                            old(self)@,
                            relevant,
                            update_kind,
                            final(self)@,
                        )
                    },
                }
            }),
    {
        let ghost before = self@;
        let ghost wanted = bitmap_models(updates@);
        let ghost order = updates.order();
        let ghost known: Set<Seq<char>> = if only_known {
            before.caches.dom()
        } else {
            Set::full()
        };
        let ghost relevant = if only_known {
            wanted.restrict(before.caches.dom())
        } else {
            wanted
        };
        proof {
            updates.lemma_order();
            assert(leaf_updates_made(
                before,
                first_updates(wanted, order, 0, known),
                update_kind,
            ).caches =~= before.caches);
        }
        let mut i: usize = 0;
        while i < updates.len()
            invariant
                self.wf(),
                updates.wf(),
                i <= order.len(),
                order == updates.order(),
                order.no_duplicates(),
                wanted == bitmap_models(updates@),
                before == old(self)@,
                known == (if only_known {
                    before.caches.dom()
                } else {
                    Set::full()
                }),
                relevant == (if only_known {
                    wanted.restrict(before.caches.dom())
                } else {
                    wanted
                }),
                forall|leaf: Seq<char>| #[trigger]
                    updates@.contains_key(leaf) <==> order.contains(leaf),
                leaf_updates_possible(
                    before,
                    first_updates(wanted, order, i as int, known),
                    update_kind,
                ),
                self@ == leaf_updates_made(
                    before,
                    first_updates(wanted, order, i as int, known),
                    update_kind,
                ),
            decreases order.len() - i,
        {
            let ghost made = first_updates(wanted, order, i as int, known);
            let leaf = updates.key(i);
            proof {
                lemma_first_updates_step(wanted, order, i as int, known);
                assert(order.contains(order[i as int]));
                assert(wanted.contains_key(leaf@));
                assert(wanted[leaf@] == positions(updates@[leaf@]));
            }
            if !only_known || self.has_leaf_manifest(leaf.as_str()) {
                let ghost now = self@;
                assert(relevant.contains_key(leaf@) && relevant[leaf@] == wanted[leaf@]);
                assert(now.caches.contains_key(leaf@) ==> now.caches[leaf@]
                    == before.caches[leaf@]);
                match self.update_leaf_positions(leaf.as_str(), updates.value(i), update_kind) {
                    Ok(_) => {
                        assert(self@.caches =~= leaf_updates_made(
                            before,
                            made.insert(leaf@, wanted[leaf@]),
                            update_kind,
                        ).caches);
                    },
                    Err(e) => {
                        proof {
                            assert(self@.caches.dom() =~= before.caches.dom());
                            assert forall|other: Seq<char>| #[trigger]
                                self@.caches.contains_key(other) implies {
                                ||| self@.caches[other] == before.caches[other]
                                ||| relevant.contains_key(other)
                                    && before.caches[other].updated(relevant[other], update_kind)
                                    == Ok::<CacheModel, ErrorModel>(self@.caches[other])
                            } by {
                                if made.contains_key(other) {
                                    assert(updates@.contains_key(other));
                                    assert(leaf_positions_updated(
                                        before,
                                        other,
                                        made[other],
                                        update_kind,
                                    ) is Ok);
                                }
                            }
                        }
                        return Err(e);
                    },
                }
            }
            i += 1;
        }
        proof {
            assert(first_updates(wanted, order, order.len() as int, known) =~= relevant) by {
                assert forall|leaf: Seq<char>|
                    first_updates(wanted, order, order.len() as int, known).contains_key(leaf)
                    <==> relevant.contains_key(leaf) by {
                    assert(updates@.contains_key(leaf) <==> order.contains(leaf));
                }
            }
        }
        Ok(())
    }
}

} // verus!
