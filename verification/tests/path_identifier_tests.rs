use bpmn_engine::path_identifier::{LoopIdentifier, PathIdentifier};
use bpmn_engine::runtime_errors::PathIdentifierParseError;

#[test]
fn test_path_identifier_formats_plain_element() {
    let p = PathIdentifier::new_for_event("startEvent".to_string(), None);
    assert_eq!(p.to_text(), "startEvent");
}

#[test]
fn test_path_identifier_formats_with_loop_index() {
    let p = PathIdentifier::new_for_flow_object(
        "task7".to_string(),
        Some(LoopIdentifier { loop_index: 3 }),
        None,
    );
    assert_eq!(p.to_text(), "task7/3");
}

#[test]
fn test_path_identifier_formats_with_parent() {
    let p = PathIdentifier::new_for_sequence_flow("flow2".to_string(), Some("parent-a".to_string()));
    assert_eq!(p.to_text(), "flow2/parent-a");
}

#[test]
fn test_path_identifier_formats_with_loop_and_parent() {
    let p = PathIdentifier::new_for_flow_object(
        "task7".to_string(),
        Some(LoopIdentifier { loop_index: 12 }),
        Some("parent-a".to_string()),
    );
    assert_eq!(p.to_text(), "task7/12/parent-a");
}

#[test]
fn test_path_identifier_round_trip_all_combinations() {
    let cases = vec![
        PathIdentifier::new_for_event("node".to_string(), None),
        PathIdentifier::new_for_flow_object(
            "node".to_string(),
            Some(LoopIdentifier { loop_index: 0 }),
            None,
        ),
        PathIdentifier::new_for_event("node".to_string(), Some("parent-x".to_string())),
        PathIdentifier::new_for_flow_object(
            "node".to_string(),
            Some(LoopIdentifier { loop_index: 42 }),
            Some("parent-x".to_string()),
        ),
    ];
    for p in cases {
        let text = p.to_text();
        let parsed = PathIdentifier::from_text(&text).unwrap();
        assert_eq!(parsed.flow_element_id, p.flow_element_id);
        assert_eq!(parsed.loop_id, p.loop_id);
        assert_eq!(parsed.parent_token_id, p.parent_token_id);
    }
}

#[test]
fn test_path_identifier_parse_consumes_numeric_second_segment_as_loop() {
    let parsed = PathIdentifier::from_text("task/15/rest").unwrap();
    assert_eq!(parsed.flow_element_id, "task");
    assert_eq!(parsed.loop_id, Some(LoopIdentifier { loop_index: 15 }));
    assert_eq!(parsed.parent_token_id, Some("rest".to_string()));
}

#[test]
fn test_path_identifier_parse_non_numeric_second_segment_is_parent() {
    let parsed = PathIdentifier::from_text("task/parent-1").unwrap();
    assert_eq!(parsed.flow_element_id, "task");
    assert_eq!(parsed.loop_id, None);
    assert_eq!(parsed.parent_token_id, Some("parent-1".to_string()));
}

#[test]
fn test_path_identifier_parse_empty_input_fails() {
    match PathIdentifier::from_text("") {
        Err(PathIdentifierParseError { message }) => {
            assert_eq!(message, "Input string is empty.");
        }
        Ok(_) => panic!("Expected a parse error"),
    }
}

#[test]
fn test_path_identifier_parse_error_message() {
    let err = PathIdentifier::from_text("").unwrap_err();
    assert_eq!(
        err.message(),
        "PathIdentifier string parse error: Input string is empty."
    );
}
