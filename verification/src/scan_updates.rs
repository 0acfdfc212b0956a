//! Rows of a scan that a commit removes or gives new deletion vectors: which of them stand in
//! the root manifest, and which in a leaf.

use roaring::RoaringTreemap;
use vstd::prelude::*;

use crate::bitmap::{empty_bitmap, insert_position, positions};
use crate::columns::SelectedColumns;
use crate::error::{viewed, DeltaResult, Error, ErrorKind, ErrorModel};
use crate::expression::texts;
use crate::schema::{long_type, string_type, DataType};
use crate::selection::is_selected;
use crate::string_map::StringMap;

verus! {

/// The sets of a map of bitmaps.
pub open spec fn bitmap_models(map: Map<Seq<char>, RoaringTreemap>) -> Map<Seq<char>, Set<u64>> {
    map.map_values(|bitmap: RoaringTreemap| positions(bitmap))
}

/// The map with one position more under a key.
pub open spec fn with_position(
    map: Map<Seq<char>, Set<u64>>,
    key: Seq<char>,
    position: u64,
) -> Map<Seq<char>, Set<u64>> {
    map.insert(
        key,
        (if map.contains_key(key) {
            map[key]
        } else {
            Set::empty()
        }).insert(position),
    )
}

/// Adds a position to the bitmap of a key.
pub fn note_position(map: &mut StringMap<RoaringTreemap>, key: &str, position: u64)
    requires
        old(map).wf(),
    ensures
        final(map).wf(),
        bitmap_models(final(map)@) == with_position(bitmap_models(old(map)@), key@, position),
{
    match map.get_mut(key) {
        Some(bitmap) => insert_position(bitmap, position),
        None => {
            let mut bitmap = empty_bitmap();
            insert_position(&mut bitmap, position);
            map.insert(key.to_owned(), bitmap);
        },
    }
    assert(bitmap_models(map@) =~= with_position(bitmap_models(old(map)@), key@, position));
}

/// A row of a scan, as far as it says where its file stands.
#[derive(Debug)]
pub struct ScanRow {
    pub path: Option<String>,
    /// The path of the deletion vector, or its content.
    pub dv_path: Option<String>,
    /// The manifest that holds the file, none where the file is older than the tree.
    pub data_manifest_path: Option<String>,
    /// The position of the file in the manifest.
    pub data_manifest_position: Option<i64>,
}

/// The model of a [`ScanRow`].
pub ghost struct ScanRowModel {
    pub path: Option<Seq<char>>,
    pub dv_path: Option<Seq<char>>,
    pub manifest: Option<Seq<char>>,
    pub position: Option<i64>,
}

impl View for ScanRow {
    type V = ScanRowModel;

    open spec fn view(&self) -> ScanRowModel {
        ScanRowModel {
            path: viewed(self.path),
            dv_path: viewed(self.dv_path),
            manifest: viewed(self.data_manifest_path),
            position: self.data_manifest_position,
        }
    }
}

/// The models of a list of rows.
pub open spec fn scan_row_models(rows: Seq<ScanRow>) -> Seq<ScanRowModel> {
    Seq::new(rows.len(), |i: int| rows[i]@)
}

/// Where the file of a row stands.
pub ghost enum Placement {
    /// The row names no file.
    Nowhere,
    /// In a leaf manifest, at a position.
    Leaf(Seq<char>, u64),
    /// In the root manifest.
    Root,
    /// In no manifest: the file is older than the tree.
    Untracked,
}

/// The error for a row that names a manifest without a position, or a position without a
/// manifest.
pub open spec fn place_incomplete(path: Seq<char>) -> ErrorModel {
    ErrorModel {
        kind: ErrorKind::MissingData,
        message: "data_manifest_path and data_manifest_position must both be present or absent for entry: "@
            + path,
    }
}

/// Where the file of a row stands. A manifest that is not the root manifest is a leaf.
pub open spec fn placement(row: ScanRowModel, root: Option<Seq<char>>) -> Result<
    Placement,
    ErrorModel,
> {
    match row.path {
        None => Ok(Placement::Nowhere),
        Some(path) => match (row.manifest, row.position) {
            (Some(manifest), Some(position)) => if root == Some(manifest) {
                Ok(Placement::Root)
            } else {
                Ok(Placement::Leaf(manifest, position as u64))
            },
            (None, None) => Ok(Placement::Untracked),
            _ => Err(place_incomplete(path)),
        },
    }
}

/// What is to be removed.
#[verifier::ext_equal]
pub ghost struct RemovalModel {
    /// The files of the root manifest, with their deletion vectors.
    pub root: Seq<(Seq<char>, Option<Seq<char>>)>,
    /// The positions of the leaf manifests.
    pub leaves: Map<Seq<char>, Set<u64>>,
}

/// What one row adds to what is to be removed.
pub open spec fn removal_step(state: RemovalModel, row: ScanRowModel, root: Option<Seq<char>>) -> Result<
    RemovalModel,
    ErrorModel,
> {
    match placement(row, root) {
        Err(e) => Err(e),
        Ok(Placement::Leaf(manifest, position)) => Ok(
            RemovalModel { leaves: with_position(state.leaves, manifest, position), ..state },
        ),
        Ok(Placement::Root) => Ok(
            RemovalModel { root: state.root.push((row.path->Some_0, row.dv_path)), ..state },
        ),
        Ok(_) => Ok(state),
    }
}

/// What the first `n` rows add to what is to be removed, and the error of the first selected
/// row that has one. Nothing is added after it.
pub open spec fn removals(
    state: RemovalModel,
    rows: Seq<ScanRowModel>,
    selection: Seq<bool>,
    root: Option<Seq<char>>,
    n: int,
) -> (RemovalModel, Option<ErrorModel>)
    decreases n,
{
    if n <= 0 {
        (state, None)
    } else {
        let (before, error) = removals(state, rows, selection, root, n - 1);
        if error is Some || !is_selected(selection, n - 1) {
            (before, error)
        } else {
            match removal_step(before, rows[n - 1], root) {
                Ok(after) => (after, None),
                Err(e) => (before, Some(e)),
            }
        }
    }
}

/// After an error nothing is added.
proof fn lemma_removals_stop(
    state: RemovalModel,
    rows: Seq<ScanRowModel>,
    selection: Seq<bool>,
    root: Option<Seq<char>>,
    m: int,
    n: int,
)
    requires
        0 <= m <= n,
        removals(state, rows, selection, root, m).1 is Some,
    ensures
        removals(state, rows, selection, root, n) == removals(state, rows, selection, root, m),
    decreases n,
{
    if m < n {
        lemma_removals_stop(state, rows, selection, root, m, n - 1);
    }
}

/// A file of the root manifest that is to be removed.
#[derive(Debug)]
pub struct RootDeletion {
    pub path: String,
    pub dv_path: Option<String>,
}

/// The models of a list of root deletions.
pub open spec fn root_deletion_models(deletions: Seq<RootDeletion>) -> Seq<
    (Seq<char>, Option<Seq<char>>),
> {
    Seq::new(deletions.len(), |i: int| (deletions[i].path@, viewed(deletions[i].dv_path)))
}

/// Sorts the rows of removed files by where the files stand.
pub struct ScanMetadataRemoveVisitor {
    pub root_manifest_path: Option<String>,
    /// The files of the root manifest.
    pub root_deletions: Vec<RootDeletion>,
    /// The positions of the leaf manifests.
    pub leaf_deletions: StringMap<RoaringTreemap>,
}

impl View for ScanMetadataRemoveVisitor {
    type V = RemovalModel;

    open spec fn view(&self) -> RemovalModel {
        RemovalModel {
            root: root_deletion_models(self.root_deletions@),
            leaves: bitmap_models(self.leaf_deletions@),
        }
    }
}

/// Where the file of a row stands, for the visitors.
enum Place {
    Nowhere,
    Leaf(String, u64),
    Root,
    Untracked,
}

/// Whether a place is the placement.
spec fn is_placement(place: Place, of: Placement) -> bool {
    match (place, of) {
        (Place::Nowhere, Placement::Nowhere) => true,
        (Place::Leaf(manifest, position), Placement::Leaf(m, p)) => manifest@ == m && position
            == p,
        (Place::Root, Placement::Root) => true,
        (Place::Untracked, Placement::Untracked) => true,
        _ => false,
    }
}

/// Finds out where the file of a row stands.
fn place_of(row: &ScanRow, root: &Option<String>) -> (place: DeltaResult<Place>)
    ensures
        match place {
            Ok(p) => placement(row@, viewed(*root)) matches Ok(of) && is_placement(p, of),
            Err(e) => placement(row@, viewed(*root)) == Err::<Placement, ErrorModel>(e@),
        },
{
    let path: &String = match &row.path {
        Some(path) => path,
        None => {
            return Ok(Place::Nowhere);
        },
    };
    match &row.data_manifest_path {
        Some(manifest) => match row.data_manifest_position {
            Some(position) => {
                let is_root = match root {
                    Some(root) => *root == *manifest,
                    None => false,
                };
                if is_root {
                    Ok(Place::Root)
                } else {
                    Ok(Place::Leaf(manifest.clone(), position as u64))
                }
            },
            None => Err(incomplete_place(path)),
        },
        None => match row.data_manifest_position {
            Some(_) => Err(incomplete_place(path)),
            None => Ok(Place::Untracked),
        },
    }
}

/// Makes the error for a row that names half of a place.
fn incomplete_place(path: &String) -> (error: Error)
    ensures
        error@ == place_incomplete(path@),
{
    let mut message =
        "data_manifest_path and data_manifest_position must both be present or absent for entry: ".to_owned();
    message.append(path.as_str());
    Error::new(ErrorKind::MissingData, message)
}

impl ScanMetadataRemoveVisitor {
    /// The index of the leaf manifests agrees with them.
    pub open spec fn wf(&self) -> bool {
        self.leaf_deletions.wf()
    }

    /// A visitor that has seen no rows.
    pub fn new(root_manifest_path: Option<String>) -> (visitor: Self)
        ensures
            visitor.wf(),
            visitor@ == (RemovalModel { root: Seq::empty(), leaves: Map::empty() }),
            visitor.root_manifest_path == root_manifest_path,
    {
        let visitor = ScanMetadataRemoveVisitor {
            root_manifest_path,
            root_deletions: Vec::new(),
            leaf_deletions: StringMap::new(),
        };
        assert(visitor@ =~= (RemovalModel { root: Seq::empty(), leaves: Map::empty() }));
        visitor
    }

    /// The columns that the visitor reads.
    pub fn selected_column_names_and_types(&self) -> (columns: SelectedColumns)
        ensures
            columns.wf(),
            columns@ == Seq::empty().push(("path"@, string_type())).push(
                ("deletionVector.pathOrInlineDv"@, string_type()),
            ).push(("fileConstantValues.dataManifestPath"@, string_type())).push(
                ("fileConstantValues.dataManifestPosition"@, long_type()),
            ),
    {
        SelectedColumns::new().with("path", DataType::string()).with(
            "deletionVector.pathOrInlineDv",
            DataType::string(),
        ).with("fileConstantValues.dataManifestPath", DataType::string()).with(
            "fileConstantValues.dataManifestPosition",
            DataType::long(),
        )
    }

    /// Sorts the selected rows of a batch. Rows behind the end of the selection vector are
    /// selected.
    pub fn visit(&mut self, rows: &Vec<ScanRow>, selection_vector: &Vec<bool>) -> (visited:
        DeltaResult<()>)
        requires
            old(self).wf(),
        ensures
            final(self).wf(),
            final(self).root_manifest_path == old(self).root_manifest_path,
            ({
                let (state, error) = removals(
                    old(self)@,
                    scan_row_models(rows@),
                    selection_vector@,
                    viewed(old(self).root_manifest_path),
                    rows@.len() as int,
                );
                &&& final(self)@ == state
                &&& match visited {
                    Ok(_) => error is None,
                    Err(e) => error == Some(e@),
                }
            }),
    {
        let ghost models = scan_row_models(rows@);
        let ghost root = viewed(self.root_manifest_path);
        let mut i: usize = 0;
        while i < rows.len()
            invariant
                self.wf(),
                i <= rows@.len(),
                models == scan_row_models(rows@),
                self.root_manifest_path == old(self).root_manifest_path,
                root == viewed(self.root_manifest_path),
                removals(old(self)@, models, selection_vector@, root, i as int) == (
                    self@,
                    None::<ErrorModel>,
                ),
            decreases rows@.len() - i,
        {
            assert(models[i as int] == rows@[i as int]@);
            let ghost before = self@;
            if i >= selection_vector.len() || selection_vector[i] {
                match place_of(&rows[i], &self.root_manifest_path) {
                    Ok(Place::Leaf(manifest, position)) => {
                        note_position(&mut self.leaf_deletions, manifest.as_str(), position);
                    },
                    Ok(Place::Root) => {
                        if let Some(path) = &rows[i].path {
                            let dv_path: Option<String> = match &rows[i].dv_path {
                                Some(dv) => Some(dv.clone()),
                                None => None,
                            };
                            self.root_deletions.push(
                                RootDeletion { path: path.clone(), dv_path },
                            );
                            assert(root_deletion_models(self.root_deletions@) =~= before.root.push(
                                (path@, viewed(dv_path)),
                            ));
                        }
                    },
                    Ok(_) => {},
                    Err(e) => {
                        proof {
                            lemma_removals_stop(
                                old(self)@,
                                models,
                                selection_vector@,
                                root,
                                i + 1,
                                models.len() as int,
                            );
                        }
                        return Err(e);
                    },
                }
            }
            i += 1;
        }
        Ok(())
    }
}

/// What is to be done with rows that get new deletion vectors.
#[verifier::ext_equal]
pub ghost struct DecisionModel {
    /// The files of the root manifest: their entries change in place.
    pub root_paths: Seq<Seq<char>>,
    /// The positions of the leaf manifests to mask.
    pub leaves: Map<Seq<char>, Set<u64>>,
    /// Which rows are added to the root again.
    pub selection: Seq<bool>,
}

/// Whether a row takes part. Rows behind the end of the selection vector do not.
pub open spec fn is_chosen(selection: Seq<bool>, i: int) -> bool {
    i < selection.len() && selection[i]
}

/// What one row adds to the decisions. A file of a leaf is masked there and added to the root
/// again; a file of the root changes in place; a file that is older than the tree is added to
/// the root.
pub open spec fn decision_step(
    state: DecisionModel,
    row: ScanRowModel,
    chosen: bool,
    root: Option<Seq<char>>,
) -> Result<DecisionModel, ErrorModel> {
    if !chosen {
        Ok(DecisionModel { selection: state.selection.push(false), ..state })
    } else {
        match placement(row, root) {
            Err(e) => Err(e),
            Ok(Placement::Nowhere) => Ok(
                DecisionModel { selection: state.selection.push(false), ..state },
            ),
            Ok(Placement::Leaf(manifest, position)) => Ok(
                DecisionModel {
                    leaves: with_position(state.leaves, manifest, position),
                    selection: state.selection.push(true),
                    ..state
                },
            ),
            Ok(Placement::Root) => Ok(
                DecisionModel {
                    root_paths: state.root_paths.push(row.path->Some_0),
                    selection: state.selection.push(false),
                    ..state
                },
            ),
            Ok(Placement::Untracked) => Ok(
                DecisionModel { selection: state.selection.push(true), ..state },
            ),
        }
    }
}

/// The decisions on the first `n` rows; the error of the first row that has one.
pub open spec fn decisions(
    rows: Seq<ScanRowModel>,
    selection: Seq<bool>,
    root: Option<Seq<char>>,
    n: int,
) -> Result<DecisionModel, ErrorModel>
    decreases n,
{
    if n <= 0 {
        Ok(
            DecisionModel {
                root_paths: Seq::empty(),
                leaves: Map::empty(),
                selection: Seq::empty(),
            },
        )
    } else {
        match decisions(rows, selection, root, n - 1) {
            Ok(state) => decision_step(state, rows[n - 1], is_chosen(selection, n - 1), root),
            Err(e) => Err(e),
        }
    }
}

/// An error among the first rows is the error of all of them.
proof fn lemma_decisions_stop(
    rows: Seq<ScanRowModel>,
    selection: Seq<bool>,
    root: Option<Seq<char>>,
    m: int,
    n: int,
)
    requires
        0 <= m <= n,
        decisions(rows, selection, root, m) is Err,
    ensures
        decisions(rows, selection, root, n) == decisions(rows, selection, root, m),
    decreases n,
{
    if m < n {
        lemma_decisions_stop(rows, selection, root, m, n - 1);
    }
}

/// What is to be done with the rows of a batch that get new deletion vectors.
pub struct DvUpdateDecisions {
    /// The files whose entries in the root change in place.
    pub root_paths: Vec<String>,
    /// The positions of the leaf manifests to mask.
    pub leaf_deletions: StringMap<RoaringTreemap>,
    /// Which rows are added to the root again: one element for each row.
    pub leaf_only_selection: Vec<bool>,
}

impl View for DvUpdateDecisions {
    type V = DecisionModel;

    open spec fn view(&self) -> DecisionModel {
        DecisionModel {
            root_paths: texts(self.root_paths@),
            leaves: bitmap_models(self.leaf_deletions@),
            selection: self.leaf_only_selection@,
        }
    }
}

/// The columns that the decisions are made by.
pub fn dv_update_decision_columns() -> (columns: SelectedColumns)
    ensures
        columns.wf(),
        columns@ == Seq::empty().push(("path"@, string_type())).push(
            ("fileConstantValues.dataManifestPath"@, string_type()),
        ).push(("fileConstantValues.dataManifestPosition"@, long_type())),
{
    SelectedColumns::new().with("path", DataType::string()).with(
        "fileConstantValues.dataManifestPath",
        DataType::string(),
    ).with("fileConstantValues.dataManifestPosition", DataType::long())
}

/// Decides what is to be done with the rows of a batch that get new deletion vectors.
pub fn collect_dv_update_decisions(
    rows: &Vec<ScanRow>,
    selection_vector: &Vec<bool>,
    root_manifest_path: &Option<String>,
) -> (made: DeltaResult<DvUpdateDecisions>)
    ensures
        match made {
            Ok(d) => d.leaf_deletions.wf() && decisions(
                scan_row_models(rows@),
                selection_vector@,
                viewed(*root_manifest_path),
                rows@.len() as int,
            ) == Ok::<DecisionModel, ErrorModel>(d@),
            Err(e) => decisions(
                scan_row_models(rows@),
                selection_vector@,
                viewed(*root_manifest_path),
                rows@.len() as int,
            ) == Err::<DecisionModel, ErrorModel>(e@),
        },
{
    let ghost models = scan_row_models(rows@);
    let ghost root = viewed(*root_manifest_path);
    let mut made = DvUpdateDecisions {
        root_paths: Vec::new(),
        leaf_deletions: StringMap::new(),
        leaf_only_selection: Vec::new(),
    };
    assert(made@ =~= decisions(models, selection_vector@, root, 0)->Ok_0);
    let mut i: usize = 0;
    while i < rows.len()
        invariant
            i <= rows@.len(),
            models == scan_row_models(rows@),
            root == viewed(*root_manifest_path),
            made.leaf_deletions.wf(),
            decisions(models, selection_vector@, root, i as int) == Ok::<
                DecisionModel,
                ErrorModel,
            >(made@),
        decreases rows@.len() - i,
    {
        assert(models[i as int] == rows@[i as int]@);
        let ghost before = made@;
        let chosen = i < selection_vector.len() && selection_vector[i];
        if !chosen {
            made.leaf_only_selection.push(false);
        } else {
            match place_of(&rows[i], root_manifest_path) {
                Ok(Place::Nowhere) => {
                    made.leaf_only_selection.push(false);
                },
                Ok(Place::Leaf(manifest, position)) => {
                    note_position(&mut made.leaf_deletions, manifest.as_str(), position);
                    made.leaf_only_selection.push(true);
                },
                Ok(Place::Root) => {
                    if let Some(path) = &rows[i].path {
                        made.root_paths.push(path.clone());
                        assert(texts(made.root_paths@) =~= before.root_paths.push(path@));
                    }
                    made.leaf_only_selection.push(false);
                },
                Ok(Place::Untracked) => {
                    made.leaf_only_selection.push(true);
                },
                Err(e) => {
                    proof {
                        lemma_decisions_stop(
                            models,
                            selection_vector@,
                            root,
                            i + 1,
                            models.len() as int,
                        );
                    }
                    return Err(e);
                },
            }
        }
        i += 1;
    }
    Ok(made)
}

} // verus!
