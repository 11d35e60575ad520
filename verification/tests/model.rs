use yed::doc::{DocValue, YamlModel};
use yed::errors::ModelError;
use yed::path::NodePath;
use yed::scalar::{parse_scalar_input, ScalarNumber, ScalarValue};
use yed::tree::NodeType;

fn root() -> NodePath {
    NodePath(Vec::new())
}

#[test]
fn empty_doc_add_first_key() {
    // An empty document is an empty mapping, so it takes its first key
    // directly; the rebuilt tree shows the one previewed child.
    let mut m = YamlModel::empty();
    m.add_mapping_child(&root(), "name", ScalarValue::String("x".into()))
        .unwrap();
    let tree = m.build_tree();
    assert_eq!(tree.node_type, NodeType::Mapping);
    assert_eq!(tree.children.len(), 1);
    assert_eq!(tree.children[0].key, "name");
    assert_eq!(tree.children[0].value_preview, "\"x\"");
    assert_eq!(tree.children[0].path.dot_path(), "name");
}

#[test]
fn add_mapping_child_then_duplicate_fails() {
    let mut m = YamlModel::empty();
    m.add_mapping_child(&root(), "k", ScalarValue::Number(ScalarNumber::Integer(1)))
        .unwrap();
    let before = m.build_tree();
    let err = m.add_mapping_child(&root(), "k", ScalarValue::Number(ScalarNumber::Integer(2)));
    assert_eq!(err, Err(ModelError::DuplicateKey));
    // The tree is unchanged by the failed insert.
    let after = m.build_tree();
    assert_eq!(after.children.len(), before.children.len());
    assert_eq!(after.children[0].value_preview, "1");
}

#[test]
fn delete_node_removes_and_root_fails() {
    let (mut m, err, _raw) = YamlModel::from_text(String::new(), "a: 1\nb: 2\n");
    assert!(err.is_none());
    assert_eq!(m.delete_node(&root()), Err(ModelError::InvalidTarget));
    m.delete_node(&root().child_key("a")).unwrap();
    let tree = m.build_tree();
    assert_eq!(tree.children.len(), 1);
    assert_eq!(tree.children[0].key, "b");
}

#[test]
fn delete_sequence_middle_shifts_later_siblings() {
    // Sequence [1,2,3]: deleting index 1 leaves [1,3], and the stale path to
    // the old index-2 element resolves to the value formerly at index 1:
    // index reuse after a delete is expected.
    let (mut m, err, _raw) = YamlModel::from_text(String::new(), "[1, 2, 3]");
    assert!(err.is_none());
    m.delete_node(&root().child_index(1)).unwrap();
    let tree = m.build_tree();
    assert_eq!(tree.node_type, NodeType::Sequence);
    assert_eq!(tree.children.len(), 2);
    assert_eq!(tree.children[0].value_preview, "1");
    assert_eq!(tree.children[1].value_preview, "3");
    assert_eq!(tree.children[1].path.dot_path(), "1");
}

#[test]
fn delete_out_of_range_index_not_found() {
    let (mut m, _e, _r) = YamlModel::from_text(String::new(), "[1]");
    assert_eq!(
        m.delete_node(&root().child_index(5)),
        Err(ModelError::NotFound)
    );
}

#[test]
fn rename_key_collision_and_success() {
    let (mut m, err, _raw) = YamlModel::from_text(String::new(), "a: 1\nb: 2\n");
    assert!(err.is_none());
    // Collision leaves the original key and value intact.
    assert_eq!(
        m.rename_key(&root().child_key("a"), "b"),
        Err(ModelError::DuplicateKey)
    );
    let tree = m.build_tree();
    assert_eq!(tree.children[0].key, "a");
    assert_eq!(tree.children[0].value_preview, "1");
    // A successful rename moves the value under the new name, re-inserted at
    // the end of the mapping's order.
    m.rename_key(&root().child_key("a"), "z").unwrap();
    let tree = m.build_tree();
    assert_eq!(tree.children.len(), 2);
    assert_eq!(tree.children[0].key, "b");
    assert_eq!(tree.children[1].key, "z");
    assert_eq!(tree.children[1].value_preview, "1");
}

#[test]
fn rename_root_or_index_invalid_target() {
    let (mut m, _e, _r) = YamlModel::from_text(String::new(), "[1, 2]");
    assert_eq!(m.rename_key(&root(), "x"), Err(ModelError::InvalidTarget));
    assert_eq!(
        m.rename_key(&root().child_index(0), "x"),
        Err(ModelError::InvalidTarget)
    );
}

#[test]
fn edit_value_replaces_and_missing_not_found() {
    let (mut m, _e, _r) = YamlModel::from_text(String::new(), "a: 1\n");
    m.edit_value(&root().child_key("a"), ScalarValue::Bool(true))
        .unwrap();
    let tree = m.build_tree();
    assert_eq!(tree.children[0].value_preview, "true");
    assert_eq!(tree.children[0].node_type, NodeType::Bool);
    assert_eq!(
        m.edit_value(&root().child_key("zz"), ScalarValue::Null),
        Err(ModelError::NotFound)
    );
    assert_eq!(
        m.edit_value(
            &root().child_key("a").child_key("deep"),
            ScalarValue::Null
        ),
        Err(ModelError::NotFound)
    );
}

#[test]
fn add_sequence_value_and_empty_map() {
    let (mut m, _e, _r) = YamlModel::from_text(String::new(), "items:\n  - 1\n");
    let seq_path = root().child_key("items");
    m.add_sequence_value(&seq_path, ScalarValue::String("two".into()))
        .unwrap();
    let new_path = m.add_sequence_empty_map(&seq_path).unwrap();
    assert_eq!(new_path.dot_path(), "items.2");
    let tree = m.build_tree();
    let items = &tree.children[0];
    assert_eq!(items.children.len(), 3);
    assert_eq!(items.children[1].value_preview, "\"two\"");
    assert_eq!(items.children[2].node_type, NodeType::Mapping);
    // Adding a sequence value to a mapping is an invalid target.
    assert_eq!(
        m.add_sequence_value(&root(), ScalarValue::Null),
        Err(ModelError::InvalidTarget)
    );
    assert_eq!(
        m.add_mapping_child(&seq_path, "k", ScalarValue::Null),
        Err(ModelError::InvalidTarget)
    );
}

#[test]
fn serialize_round_trips_through_parser() {
    let (m, err, _raw) = YamlModel::from_text(String::new(), "a: 1\nb:\n  c: x\n");
    assert!(err.is_none());
    let out = m.serialize().unwrap();
    let (m2, err2, _r2) = YamlModel::from_text(String::new(), &out);
    assert!(err2.is_none());
    let t1 = m.build_tree();
    let t2 = m2.build_tree();
    assert_eq!(t1.children.len(), t2.children.len());
    assert_eq!(t1.children[0].key, t2.children[0].key);
    assert_eq!(t1.children[1].children[0].value_preview, "\"x\"");
    assert_eq!(t2.children[1].children[0].value_preview, "\"x\"");
}

#[test]
fn parse_failure_reports_error_and_raw_text() {
    let (m, err, raw) = YamlModel::from_text(String::new(), "a: [1, 2\n");
    assert!(err.is_some());
    assert_eq!(raw.as_deref(), Some("a: [1, 2\n"));
    // The model falls back to an empty document.
    let tree = m.build_tree();
    assert_eq!(tree.node_type, NodeType::Null);
}

#[test]
fn scalar_previews_render_naturally() {
    assert_eq!(yed::tree::scalar_preview(&DocValue::Integer(-5)), "-5");
    assert_eq!(yed::tree::scalar_preview(&DocValue::Integer(0)), "0");
    assert_eq!(
        yed::tree::scalar_preview(&DocValue::Integer(i64::MIN)),
        "-9223372036854775808"
    );
    assert_eq!(yed::tree::scalar_preview(&DocValue::Boolean(false)), "false");
    assert_eq!(yed::tree::scalar_preview(&DocValue::Null), "null");
    assert_eq!(
        yed::tree::scalar_preview(&DocValue::String("a\"b".into())),
        "\"a\\\"b\""
    );
    assert_eq!(
        yed::tree::scalar_preview(&DocValue::Real("2.5".into())),
        "2.5"
    );
}

#[test]
fn empty_text_parses_to_empty_mapping() {
    // Empty text is the empty document: an empty mapping that can take keys.
    let (mut m, err, raw) = YamlModel::from_text(String::new(), "");
    assert!(err.is_none());
    assert!(raw.is_none());
    let tree = m.build_tree();
    assert_eq!(tree.node_type, NodeType::Mapping);
    assert_eq!(tree.children.len(), 0);
    m.add_mapping_child(&root(), "first", ScalarValue::Null).unwrap();
    assert_eq!(m.build_tree().children.len(), 1);
}

#[test]
fn convert_scalar_to_empty_map() {
    let (mut m, _e, _r) = YamlModel::from_text(String::new(), "a: 1\n");
    m.convert_to_empty_map(&root().child_key("a")).unwrap();
    m.add_mapping_child(&root().child_key("a"), "b", ScalarValue::Bool(true))
        .unwrap();
    let tree = m.build_tree();
    assert_eq!(tree.children[0].node_type, NodeType::Mapping);
    assert_eq!(tree.children[0].children[0].key, "b");
}

#[test]
fn float_tokens_follow_yaml_grammar() {
    // The YAML scalar grammar classifies floats: dotted infinities are
    // floats, bare `inf` is a string, and the token's text is kept verbatim.
    assert!(matches!(
        parse_scalar_input(".inf"),
        ScalarValue::Number(ScalarNumber::Float(_))
    ));
    assert_eq!(
        parse_scalar_input("inf"),
        ScalarValue::String("inf".into())
    );
    assert_eq!(
        parse_scalar_input(" 3.140 "),
        ScalarValue::Number(ScalarNumber::Float("3.140".into()))
    );
}
