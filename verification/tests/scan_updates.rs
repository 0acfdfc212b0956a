use content_tree::error::ErrorKind;
use content_tree::scan_updates::{
    collect_dv_update_decisions, dv_update_decision_columns, ScanMetadataRemoveVisitor, ScanRow,
};
use roaring::RoaringTreemap;

fn row(path: Option<&str>, dv: Option<&str>, manifest: Option<&str>, position: Option<i64>) -> ScanRow {
    ScanRow {
        path: path.map(str::to_string),
        dv_path: dv.map(str::to_string),
        data_manifest_path: manifest.map(str::to_string),
        data_manifest_position: position,
    }
}

fn bitmap(positions: &[u64]) -> RoaringTreemap {
    positions.iter().copied().collect()
}

#[test]
fn removed_files_are_sorted_by_place() {
    let mut visitor = ScanMetadataRemoveVisitor::new(Some("root".to_string()));
    let rows = vec![
        row(Some("a"), Some("dv-a"), Some("root"), Some(0)),
        row(Some("b"), None, Some("leaf-1"), Some(4)),
        row(None, None, Some("leaf-1"), None),
        row(Some("c"), None, None, None),
        row(Some("d"), None, Some("leaf-1"), Some(2)),
        row(Some("e"), None, Some("leaf-2"), Some(0)),
    ];
    // rows behind the end of the selection vector are selected
    visitor.visit(&rows, &vec![true, true, true, true, false]).unwrap();
    assert_eq!(visitor.root_deletions.len(), 1);
    assert_eq!(visitor.root_deletions[0].path, "a");
    assert_eq!(visitor.root_deletions[0].dv_path.as_deref(), Some("dv-a"));
    assert_eq!(visitor.leaf_deletions.len(), 2);
    assert_eq!(visitor.leaf_deletions.get("leaf-1"), Some(&bitmap(&[4])));
    assert_eq!(visitor.leaf_deletions.get("leaf-2"), Some(&bitmap(&[0])));

    visitor.visit(&rows, &Vec::new()).unwrap();
    assert_eq!(visitor.leaf_deletions.get("leaf-1"), Some(&bitmap(&[2, 4])));
    assert_eq!(visitor.root_deletions.len(), 2);
}

#[test]
fn without_a_root_every_manifest_is_a_leaf() {
    let mut visitor = ScanMetadataRemoveVisitor::new(None);
    visitor
        .visit(&vec![row(Some("a"), None, Some("root"), Some(0))], &Vec::new())
        .unwrap();
    assert!(visitor.root_deletions.is_empty());
    assert_eq!(visitor.leaf_deletions.get("root"), Some(&bitmap(&[0])));
}

#[test]
fn half_a_place_is_refused() {
    for (manifest, position) in [(Some("leaf"), None), (None, Some(1))] {
        let rows = vec![row(Some("a"), None, manifest, position)];
        let mut visitor = ScanMetadataRemoveVisitor::new(None);
        let error = visitor.visit(&rows, &Vec::new()).unwrap_err();
        assert_eq!(error.kind, ErrorKind::MissingData);
        assert_eq!(
            error.to_string(),
            "data_manifest_path and data_manifest_position must both be present or absent for \
             entry: a"
        );
        assert!(collect_dv_update_decisions(&rows, &vec![true], &None).is_err());
        assert!(collect_dv_update_decisions(&rows, &vec![false], &None).is_ok());
    }
}

#[test]
fn the_visitor_reads_four_columns() {
    let columns = ScanMetadataRemoveVisitor::new(None).selected_column_names_and_types();
    assert_eq!(
        columns.names,
        [
            "path",
            "deletionVector.pathOrInlineDv",
            "fileConstantValues.dataManifestPath",
            "fileConstantValues.dataManifestPosition"
        ]
    );
    assert_eq!(
        dv_update_decision_columns().names,
        [
            "path",
            "fileConstantValues.dataManifestPath",
            "fileConstantValues.dataManifestPosition"
        ]
    );
}

#[test]
fn dv_updates_change_roots_in_place_and_readd_leaf_files() {
    let rows = vec![
        row(Some("a"), None, Some("root"), Some(0)),
        row(Some("b"), None, Some("leaf"), Some(4)),
        row(None, None, None, None),
        row(Some("c"), None, None, None),
        row(Some("d"), None, Some("leaf"), Some(9)),
        row(Some("e"), None, Some("leaf"), Some(10)),
    ];
    // rows behind the end of the selection vector take no part
    let decisions = collect_dv_update_decisions(
        &rows,
        &vec![true, true, true, true, false],
        &Some("root".to_string()),
    )
    .unwrap();
    assert_eq!(decisions.root_paths, ["a"]);
    assert_eq!(decisions.leaf_deletions.len(), 1);
    assert_eq!(decisions.leaf_deletions.get("leaf"), Some(&bitmap(&[4])));
    assert_eq!(
        decisions.leaf_only_selection,
        [false, true, false, true, false, false]
    );
}
