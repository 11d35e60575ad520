use yed::doc::YamlModel;
use yed::path::NodePath;
use yed::strset::StrSet;
use yed::visible::{flatten_visible, visible_row_by_path, VisibleRow};

fn paths(rows: &[VisibleRow]) -> Vec<String> {
    rows.iter().map(|r| r.path.dot_path()).collect()
}

fn model(text: &str) -> YamlModel {
    let (m, err, _raw) = YamlModel::from_text(String::new(), text);
    assert!(err.is_none());
    m
}

fn root_only() -> StrSet {
    let mut ex = StrSet::new();
    ex.insert(String::new());
    ex
}

#[test]
fn collapsed_containers_hide_children() {
    let m = model("server:\n  tls:\n    enabled: true\nitems:\n  - 1\n");
    let tree = m.build_tree();
    let ex = root_only();
    let rows = flatten_visible(&tree, &ex, None);
    // Only the root and its direct children show while nothing is expanded.
    assert_eq!(paths(&rows), vec!["", "server", "items"]);
    let mut ex = ex;
    ex.insert("server".into());
    let rows = flatten_visible(&tree, &ex, None);
    assert_eq!(paths(&rows), vec!["", "server", "server.tls", "items"]);
    ex.insert("server.tls".into());
    let rows = flatten_visible(&tree, &ex, None);
    assert_eq!(
        paths(&rows),
        vec!["", "server", "server.tls", "server.tls.enabled", "items"]
    );
}

#[test]
fn flatten_is_idempotent_and_toggle_restores() {
    let m = model("a:\n  b: 1\nc: 2\n");
    let tree = m.build_tree();
    let mut ex = root_only();
    let first = paths(&flatten_visible(&tree, &ex, None));
    let second = paths(&flatten_visible(&tree, &ex, None));
    assert_eq!(first, second);
    // Toggling a container's expand-state and toggling it back restores the
    // row list exactly.
    ex.insert("a".into());
    let expanded_rows = paths(&flatten_visible(&tree, &ex, None));
    assert_ne!(first, expanded_rows);
    ex.remove("a");
    let restored = paths(&flatten_visible(&tree, &ex, None));
    assert_eq!(first, restored);
}

#[test]
fn search_includes_ancestors_and_excludes_other_subtrees() {
    // Only one deeply nested node matches; every ancestor of it shows even
    // though nothing is expanded, and the sibling subtree stays hidden.
    let m = model("outer:\n  inner:\n    target: 1\nother:\n  nested: 2\n");
    let tree = m.build_tree();
    let ex = root_only();
    let rows = flatten_visible(&tree, &ex, Some("target"));
    assert_eq!(
        paths(&rows),
        vec!["", "outer", "outer.inner", "outer.inner.target"]
    );
}

#[test]
fn search_is_case_insensitive_and_matches_keys() {
    let m = model("Server:\n  TLS: on\n");
    let tree = m.build_tree();
    let ex = root_only();
    let rows = flatten_visible(&tree, &ex, Some("tls"));
    assert_eq!(paths(&rows), vec!["", "Server", "Server.TLS"]);
}

#[test]
fn empty_document_shows_one_root_row() {
    let (m, err, _raw) = YamlModel::from_text(String::new(), "");
    assert!(err.is_none());
    let tree = m.build_tree();
    let ex = root_only();
    let rows = flatten_visible(&tree, &ex, None);
    assert_eq!(rows.len(), 1);
    assert_eq!(rows[0].display_key, "(root)");
    assert_eq!(rows[0].depth, 0);
    assert!(rows[0].is_container);
    assert_eq!(rows[0].display_value_preview, "");
}

#[test]
fn root_scalar_document_has_no_rows() {
    let m = model("just a string");
    let tree = m.build_tree();
    let ex = root_only();
    let rows = flatten_visible(&tree, &ex, None);
    assert_eq!(rows.len(), 0);
}

#[test]
fn visible_row_lookup_finds_first_index() {
    let m = model("a: 1\nb: 2\n");
    let tree = m.build_tree();
    let ex = root_only();
    let rows = flatten_visible(&tree, &ex, None);
    let b = NodePath(Vec::new()).child_key("b");
    assert_eq!(visible_row_by_path(&rows, &b), Some(2));
    let missing = NodePath(Vec::new()).child_key("zz");
    assert_eq!(visible_row_by_path(&rows, &missing), None);
}

#[test]
fn sequence_rows_show_element_labels() {
    let m = model("items:\n  - name: one\n  - name: two\n");
    let tree = m.build_tree();
    let mut ex = root_only();
    ex.insert("items".into());
    let rows = flatten_visible(&tree, &ex, None);
    assert_eq!(paths(&rows), vec!["", "items", "items.0", "items.1"]);
    // A sequence element that is a mapping is labelled by its first key.
    assert_eq!(rows[2].display_key, "name");
    assert!(rows[2].is_container);
}
