use yed::path::{NodePath, PathSegment};
use yed::scalar::{parse_scalar_input, ScalarNumber, ScalarValue};
use yed::search::{matches_row, next_match, prev_match};
use yed::tree::NodeType;
use yed::visible::VisibleRow;

fn row(path: &str, key: &str) -> VisibleRow {
    let path = NodePath(
        path.split('.')
            .filter(|s| !s.is_empty())
            .map(|seg| {
                if let Ok(idx) = seg.parse::<usize>() {
                    PathSegment::Index(idx)
                } else {
                    PathSegment::Key(seg.to_string())
                }
            })
            .collect(),
    );
    VisibleRow {
        path,
        depth: 0,
        display_key: key.to_string(),
        display_value_preview: String::new(),
        node_type: NodeType::String,
        is_container: false,
    }
}

#[test]
fn match_logic() {
    let row = row("server.tls.enabled", "enabled");
    assert!(matches_row(&row, "tls"));
    assert!(matches_row(&row, "enabled"));
    assert!(!matches_row(&row, "missing"));
}

#[test]
fn next_prev_navigation() {
    let matches = vec![1, 3, 5];
    assert_eq!(next_match(&matches, 1), Some(3));
    assert_eq!(next_match(&matches, 5), Some(1));
    assert_eq!(prev_match(&matches, 1), Some(5));
    assert_eq!(prev_match(&matches, 3), Some(1));
}

#[test]
fn dot_path_generation() {
    let path = NodePath(vec![
        PathSegment::Key("items".into()),
        PathSegment::Index(0),
        PathSegment::Key("name".into()),
    ]);
    assert_eq!(path.dot_path(), "items.0.name");
}

#[test]
fn depth_computation() {
    let path = NodePath(vec![
        PathSegment::Key("server".into()),
        PathSegment::Key("tls".into()),
        PathSegment::Key("enabled".into()),
    ]);
    assert_eq!(path.depth(), 3);
}

#[test]
fn scalar_parsing_rules() {
    assert_eq!(
        parse_scalar_input("\"hello\""),
        ScalarValue::String("hello".into())
    );
    assert_eq!(parse_scalar_input("true"), ScalarValue::Bool(true));
    assert_eq!(parse_scalar_input("null"), ScalarValue::Null);
    assert_eq!(
        parse_scalar_input("42"),
        ScalarValue::Number(ScalarNumber::Integer(42))
    );
    assert_eq!(
        parse_scalar_input("3.14"),
        ScalarValue::Number(ScalarNumber::Float("3.14".into()))
    );
    assert_eq!(
        parse_scalar_input("hello"),
        ScalarValue::String("hello".into())
    );
    assert_eq!(parse_scalar_input(""), ScalarValue::Null);
    assert_eq!(parse_scalar_input("   "), ScalarValue::Null);
}

#[test]
fn scalar_parsing_round_trip_kinds() {
    assert!(matches!(
        parse_scalar_input("42"),
        ScalarValue::Number(ScalarNumber::Integer(42))
    ));
    assert!(matches!(
        parse_scalar_input("3.14"),
        ScalarValue::Number(ScalarNumber::Float(_))
    ));
    assert!(matches!(parse_scalar_input("true"), ScalarValue::Bool(true)));
    assert!(matches!(parse_scalar_input("null"), ScalarValue::Null));
    assert!(matches!(parse_scalar_input("hello"), ScalarValue::String(_)));
    // Quoting overrides keyword detection.
    assert_eq!(
        parse_scalar_input("\"true\""),
        ScalarValue::String("true".into())
    );
}

#[test]
fn scalar_parsing_case_and_edges() {
    assert_eq!(parse_scalar_input("TRUE"), ScalarValue::Bool(true));
    assert_eq!(parse_scalar_input("False"), ScalarValue::Bool(false));
    assert_eq!(parse_scalar_input("NULL"), ScalarValue::Null);
    assert_eq!(
        parse_scalar_input("  -17  "),
        ScalarValue::Number(ScalarNumber::Integer(-17))
    );
    assert_eq!(
        parse_scalar_input("9223372036854775807"),
        ScalarValue::Number(ScalarNumber::Integer(i64::MAX))
    );
    assert_eq!(
        parse_scalar_input("-9223372036854775808"),
        ScalarValue::Number(ScalarNumber::Integer(i64::MIN))
    );
    // One past the integer range reads as a float token, not an integer.
    assert!(matches!(
        parse_scalar_input("9223372036854775808"),
        ScalarValue::Number(ScalarNumber::Float(_))
    ));
    // An unknown escape keeps its backslash; known escapes decode.
    assert_eq!(
        parse_scalar_input("\"a\\nb\\qc\""),
        ScalarValue::String("a\nb\\qc".into())
    );
}

#[test]
fn escape_unescape_round_trip() {
    let original = "say \"hi\"\twith\\a\nnewline";
    let escaped = yed::scalar::escape_yaml_string(original);
    assert_eq!(escaped, "say \\\"hi\\\"\\twith\\\\a\\nnewline");
    assert_eq!(yed::scalar::unescape_yaml_string(&escaped), original);
}

#[test]
fn dot_path_of_root_is_empty() {
    assert_eq!(NodePath(Vec::new()).dot_path(), "");
    assert_eq!(NodePath(Vec::new()).depth(), 0);
}

#[test]
fn child_extension_and_split() {
    let p = NodePath(Vec::new()).child_key("items").child_index(2);
    assert_eq!(p.dot_path(), "items.2");
    let (parent, last) = yed::path::split_parent(&p);
    assert_eq!(parent.dot_path(), "items");
    assert_eq!(last, PathSegment::Index(2));
    let err = yed::path::split_parent_key(&p);
    assert!(matches!(err, Err(yed::errors::ModelError::InvalidTarget)));
    let ok = yed::path::split_parent_key(&parent);
    assert!(matches!(ok, Ok((_, k)) if k == "items"));
}
