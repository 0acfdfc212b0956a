//! Position bitmaps of the leaf manifests that a node refers to, read on first use.

use bytes::Bytes;
use roaring::RoaringTreemap;
use vstd::prelude::*;

use crate::bitmap::{
    count_positions, deserialize_roaring_treemap, empty_bitmap, frame_error, framed_positions,
    frames, has_no_positions, positions, serialize_roaring_treemap, union_positions,
};
use crate::entry::{
    optional_contents, ContentTreeNodeEntry, EntryModel, ManifestModel, TrackingModel,
    TrackingStatus,
};
use crate::error::{generic, DeltaResult, Error, ErrorModel};
use crate::text::{decimal, unsigned_text};

verus! {

/// How the positions of a leaf manifest changed in the current commit. Every kind masks the
/// positions in the manifest; they differ in the bitmap of the commit that records them.
#[derive(Clone, Copy, Debug, PartialEq, Eq, Structural)]
pub enum LeafPositionUpdate {
    /// The files were removed and nothing takes their place.
    Delete,
    /// The files were added again in another version.
    Replace,
    /// The entries carry over: their live version stands elsewhere in the tree.
    Carryover,
}

/// The bitmaps of one leaf manifest.
#[derive(Debug)]
pub struct DvCache {
    /// The masked positions as earlier commits left them, as a framed bitmap.
    pub serialized_manifest_dv: Option<Bytes>,
    /// All masked positions, once they were needed.
    pub manifest_dv: Option<RoaringTreemap>,
    /// The positions that the current commit deleted.
    pub deleted_positions: RoaringTreemap,
    /// The positions that the current commit replaced.
    pub replaced_positions: RoaringTreemap,
    /// Whether the masked positions were loaded.
    pub dirty: bool,
    /// Whether the entry of the manifest says how many entries it holds.
    pub described: bool,
    /// The number of entries of the manifest.
    pub total_entry_count: i64,
}

/// The model of a [`DvCache`].
#[verifier::ext_equal]
pub ghost struct CacheModel {
    pub serialized: Option<Seq<u8>>,
    pub manifest_dv: Option<Set<u64>>,
    pub deleted: Set<u64>,
    pub replaced: Set<u64>,
    pub dirty: bool,
    pub described: bool,
    pub total: i64,
}

impl View for DvCache {
    type V = CacheModel;

    open spec fn view(&self) -> CacheModel {
        CacheModel {
            serialized: optional_contents(self.serialized_manifest_dv),
            manifest_dv: match self.manifest_dv {
                Some(map) => Some(positions(map)),
                None => None,
            },
            deleted: positions(self.deleted_positions),
            replaced: positions(self.replaced_positions),
            dirty: self.dirty,
            described: self.described,
            total: self.total_entry_count,
        }
    }
}

/// The cache that a manifest entry starts a commit with.
pub open spec fn fresh_cache(serialized: Option<Seq<u8>>, described: bool, total: i64) -> CacheModel {
    CacheModel {
        serialized,
        manifest_dv: None,
        deleted: Set::empty(),
        replaced: Set::empty(),
        dirty: false,
        described,
        total,
    }
}

impl CacheModel {
    /// The masked positions: those loaded, else those of the framed bitmap, else none.
    pub open spec fn masked(self) -> Option<Set<u64>> {
        match self.manifest_dv {
            Some(set) => Some(set),
            None => match self.serialized {
                Some(frame) => framed_positions(frame),
                None => Some(Set::empty()),
            },
        }
    }

    /// The invariant of a cache: it is dirty exactly where its masked positions are loaded, and
    /// what the commit deleted or replaced is masked.
    pub open spec fn coherent(self) -> bool {
        &&& self.dirty == (self.manifest_dv is Some)
        &&& match self.manifest_dv {
            Some(masked) => self.deleted.subset_of(masked) && self.replaced.subset_of(masked),
            None => self.deleted == Set::<u64>::empty() && self.replaced == Set::<u64>::empty(),
        }
    }

    /// The cache with its masked positions loaded.
    pub open spec fn loaded(self) -> Result<CacheModel, ErrorModel> {
        match self.masked() {
            Some(set) => if self.manifest_dv is Some {
                Ok(self)
            } else {
                Ok(CacheModel { manifest_dv: Some(set), dirty: true, ..self })
            },
            None => Err(frame_error(self.serialized->Some_0)),
        }
    }

    /// The cache after an update: the positions are masked, and recorded in the bitmap of the
    /// commit that the kind of update names.
    pub open spec fn updated(
        self,
        indices: Set<u64>,
        kind: LeafPositionUpdate,
    ) -> Result<CacheModel, ErrorModel> {
        match self.masked() {
            Some(set) => Ok(
                CacheModel {
                    manifest_dv: Some(set.union(indices)),
                    dirty: true,
                    deleted: if kind == LeafPositionUpdate::Delete {
                        self.deleted.union(indices)
                    } else {
                        self.deleted
                    },
                    replaced: if kind == LeafPositionUpdate::Replace {
                        self.replaced.union(indices)
                    } else {
                        self.replaced
                    },
                    ..self
                },
            ),
            None => Err(frame_error(self.serialized->Some_0)),
        }
    }
}

/// An update keeps the invariant of a cache.
pub proof fn lemma_update_coherent(
    cache: CacheModel,
    indices: Set<u64>,
    kind: LeafPositionUpdate,
)
    requires
        cache.coherent(),
    ensures
        cache.updated(indices, kind) matches Ok(updated) ==> updated.coherent(),
{
}

impl DvCache {
    /// A cache for a manifest entry at the start of a commit.
    pub fn new(
        serialized_manifest_dv: Option<Bytes>,
        described: bool,
        total_entry_count: i64,
    ) -> (cache: Self)
        ensures
            cache@ == fresh_cache(
                optional_contents(serialized_manifest_dv),
                described,
                total_entry_count,
            ),
    {
        DvCache {
            serialized_manifest_dv,
            manifest_dv: None,
            deleted_positions: empty_bitmap(),
            replaced_positions: empty_bitmap(),
            dirty: false,
            described,
            total_entry_count,
        }
    }

    /// Loads the masked positions on first use.
    pub fn ensure_manifest_dv_loaded(&mut self) -> (loaded: DeltaResult<()>)
        ensures
            match loaded {
                Ok(_) => old(self)@.loaded() == Ok::<CacheModel, ErrorModel>(final(self)@)
                    && final(self).manifest_dv is Some,
                Err(e) => old(self)@.loaded() == Err::<CacheModel, ErrorModel>(e@)
                    && final(self)@ == old(self)@,
            },
    {
        if self.manifest_dv.is_some() {
            return Ok(());
        }
        let dv = match &self.serialized_manifest_dv {
            Some(bytes) => match deserialize_roaring_treemap(bytes) {
                Ok(map) => map,
                Err(e) => {
                    return Err(e);
                },
            },
            None => empty_bitmap(),
        };
        self.manifest_dv = Some(dv);
        self.dirty = true;
        Ok(())
    }

    /// Masks positions, and records them in the bitmap that the kind of update names.
    pub fn apply_position_update(
        &mut self,
        indices: &RoaringTreemap,
        update_kind: LeafPositionUpdate,
    ) -> (applied: DeltaResult<()>)
        ensures
            match applied {
                Ok(_) => old(self)@.updated(positions(*indices), update_kind) == Ok::<
                    CacheModel,
                    ErrorModel,
                >(final(self)@),
                Err(e) => old(self)@.updated(positions(*indices), update_kind) == Err::<
                    CacheModel,
                    ErrorModel,
                >(e@) && final(self)@ == old(self)@,
            },
    {
        match self.ensure_manifest_dv_loaded() {
            Ok(_) => {},
            Err(e) => {
                return Err(e);
            },
        }
        self.dirty = true;
        match &mut self.manifest_dv {
            Some(map) => union_positions(map, indices),
            None => {},
        }
        match update_kind {
            LeafPositionUpdate::Delete => union_positions(&mut self.deleted_positions, indices),
            LeafPositionUpdate::Replace => union_positions(&mut self.replaced_positions, indices),
            LeafPositionUpdate::Carryover => {},
        }
        Ok(())
    }
}

/// The error for a bitmap that masks more positions than a signed number can count.
pub open spec fn cardinality_overflow(count: int) -> ErrorModel {
    generic("manifest DV cardinality "@ + decimal(count) + " exceeds i64::MAX"@)
}

/// The error for an entry that has masked positions and no manifest info to put them in.
pub open spec fn manifest_info_missing() -> ErrorModel {
    generic("manifest entry has a dirty DV cache but no manifest_info"@)
}

/// Why the bitmaps of a cache cannot be put into an entry.
pub open spec fn seal_error(entry: EntryModel, cache: CacheModel) -> Option<ErrorModel> {
    match cache.manifest_dv {
        Some(dv) => if dv.len() > i64::MAX {
            Some(cardinality_overflow(dv.len() as int))
        } else if entry.manifest_info is None {
            Some(manifest_info_missing())
        } else {
            None
        },
        None => None,
    }
}

/// Whether `after` holds `set` as a framed bitmap, or what was there `before` where the set is
/// empty.
pub open spec fn records_positions(
    before: Option<Seq<u8>>,
    set: Set<u64>,
    after: Option<Seq<u8>>,
) -> bool {
    if set == Set::<u64>::empty() {
        after == before
    } else {
        after matches Some(frame) && frames(frame, set)
    }
}

/// Whether the manifest is dead: as many positions are masked as it has live entries.
pub open spec fn all_masked(entry: EntryModel, cache: CacheModel) -> bool {
    match (cache.manifest_dv, entry.manifest_info) {
        (Some(dv), Some(info)) => dv.len() == info.active_entry_count(),
        _ => false,
    }
}

/// Whether `after` is the entry `before` with the bitmaps of the cache put in:
/// - the masked positions and their number, where they were loaded;
/// - the positions that the commit deleted and replaced, where there are any;
/// - the status `Deleted` where every live entry of the manifest is masked, and the snapshot
///   of the commit where the status is `Deleted`.
///
/// Nothing else changes.
pub open spec fn sealed(
    before: EntryModel,
    cache: CacheModel,
    snapshot_id: i64,
    after: EntryModel,
) -> bool {
    let status = if all_masked(before, cache) {
        TrackingStatus::Deleted
    } else {
        before.tracking.status
    };
    &&& match (cache.manifest_dv, before.manifest_info, after.manifest_info) {
        (Some(dv), Some(old_info), Some(info)) => {
            &&& info.dv matches Some(frame) && frames(frame, dv)
            &&& info == ManifestModel {
                dv: info.dv,
                dv_cardinality: Some(dv.len() as i64),
                ..old_info
            }
        },
        (Some(_), _, _) => false,
        (None, _, _) => after.manifest_info == before.manifest_info,
    }
    &&& records_positions(
        before.tracking.deleted_positions,
        cache.deleted,
        after.tracking.deleted_positions,
    )
    &&& records_positions(
        before.tracking.replaced_positions,
        cache.replaced,
        after.tracking.replaced_positions,
    )
    &&& after == EntryModel {
        manifest_info: after.manifest_info,
        tracking: TrackingModel {
            status,
            snapshot_id: if status == TrackingStatus::Deleted {
                Some(snapshot_id)
            } else {
                before.tracking.snapshot_id
            },
            deleted_positions: after.tracking.deleted_positions,
            replaced_positions: after.tracking.replaced_positions,
            ..before.tracking
        },
        ..before
    }
}

/// Puts the bitmaps of a cache into the entry of its manifest.
pub fn seal_entry(
    entry: &mut ContentTreeNodeEntry,
    cache: &DvCache,
    snapshot_id: i64,
) -> (done: DeltaResult<()>)
    ensures
        match done {
            Ok(_) => seal_error(old(entry)@, cache@) is None && sealed(
                old(entry)@,
                cache@,
                snapshot_id,
                final(entry)@,
            ),
            Err(e) => seal_error(old(entry)@, cache@) == Some(e@) && final(entry)@ == old(entry)@,
        },
{
    if let Some(manifest_dv) = &cache.manifest_dv {
        let dv_bytes = match serialize_roaring_treemap(manifest_dv) {
            Ok(bytes) => bytes,
            Err(e) => {
                return Err(e);
            },
        };
        let count: u64 = count_positions(manifest_dv);
        if count > i64::MAX as u64 {
            let mut message = "manifest DV cardinality ".to_owned();
            message.append(unsigned_text(count).as_str());
            message.append(" exceeds i64::MAX");
            return Err(Error::generic(message));
        }
        let cardinality: i64 = count as i64;
        match &mut entry.manifest_info {
            Some(info) => {
                info.dv = Some(dv_bytes);
                info.dv_cardinality = Some(cardinality);
                if cardinality == info.active_entry_count() {
                    entry.tracking.status = TrackingStatus::Deleted;
                }
            },
            None => {
                return Err(
                    Error::generic(
                        "manifest entry has a dirty DV cache but no manifest_info".to_owned(),
                    ),
                );
            },
        }
    }
    if !has_no_positions(&cache.deleted_positions) {
        match serialize_roaring_treemap(&cache.deleted_positions) {
            Ok(bytes) => {
                entry.tracking.deleted_positions = Some(bytes);
            },
            Err(e) => {
                return Err(e);
            },
        }
    }
    if !has_no_positions(&cache.replaced_positions) {
        match serialize_roaring_treemap(&cache.replaced_positions) {
            Ok(bytes) => {
                entry.tracking.replaced_positions = Some(bytes);
            },
            Err(e) => {
                return Err(e);
            },
        }
    }
    if entry.tracking.status == TrackingStatus::Deleted {
        entry.tracking.snapshot_id = Some(snapshot_id);
    }
    Ok(())
}

} // verus!
