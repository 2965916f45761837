use bpmn_engine::event::{self, Event, EventType};
use bpmn_engine::flow_objects::{FlowObject, FlowObjectType};
use bpmn_engine::process::{Process, ProcessError};
use bpmn_engine::runtime_errors::{PathIdentifierParseError, ProcessEngineError};
use bpmn_engine::sequence_flows::SequenceFlow;

#[test]
fn test_remove_missing_flow_object_fails() {
    let mut process = Process::new();
    match process.remove_flow_object("ghost") {
        Err(ProcessError::FlowObjectNotFound(id)) => assert_eq!(id, "ghost"),
        _ => panic!("Expected FlowObjectNotFound"),
    }
}

#[test]
fn test_remove_missing_sequence_flow_fails() {
    let mut process = Process::new();
    match process.remove_sequence_flow("ghost") {
        Err(ProcessError::SequenceFlowNotFound(id)) => assert_eq!(id, "ghost"),
        _ => panic!("Expected SequenceFlowNotFound"),
    }
}

#[test]
fn test_remove_sequence_flow_removes_first_match_only() {
    let mut process = Process::new();
    for id in ["a", "b", "a"] {
        let mut f = SequenceFlow::new();
        f.set_id(id.to_string());
        process.add_sequence_flow(f);
    }
    process.remove_sequence_flow("a").unwrap();
    let ids: Vec<&str> = process.sequence_flows().iter().map(|f| f.id().as_str()).collect();
    assert_eq!(ids, vec!["b", "a"]);
}

#[test]
fn test_flow_objects_lookup() {
    let mut process = Process::new();
    let fo = FlowObject {
        id: "n1".to_string(),
        flow_object_type: FlowObjectType::Event(EventType::StartEvent(Event::new(
            "S",
            event::Type::StartEvent,
        ))),
    };
    process.add_flow_object(fo.clone()).unwrap();
    assert!(process.flow_objects().contains_id("n1"));
    assert!(!process.flow_objects().contains_id("n2"));
    assert_eq!(process.flow_objects().get("n1"), Some(&fo));
    assert_eq!(process.flow_objects().get("n2"), None);
    assert_eq!(process.flow_objects().values().len(), 1);
}

#[test]
fn test_process_engine_error_messages() {
    let parse = ProcessEngineError::PathIdentifierFromStringError(PathIdentifierParseError {
        message: "Input string is empty.".to_string(),
    });
    assert_eq!(
        parse.message(),
        "PathIdentifier string parse error: Input string is empty."
    );
    assert_eq!(
        ProcessEngineError::NoStartEvent.message(),
        "No start event found in the process."
    );
    assert_eq!(
        ProcessEngineError::PausedTokenNotFound("tok".to_string()).message(),
        "No paused token with id: tok"
    );
}

#[test]
fn test_process_error_names() {
    assert_eq!(
        ProcessError::FlowObjectAlreadyExists("x".to_string()).name(),
        "FlowObjectAlreadyExists"
    );
    assert_eq!(
        ProcessError::FlowObjectNotFound("x".to_string()).name(),
        "FlowObjectNotFound"
    );
    assert_eq!(
        ProcessError::SequenceFlowNotFound("x".to_string()).name(),
        "SequenceFlowNotFound"
    );
}

#[test]
fn test_flow_object_kind_names() {
    let fo = FlowObject {
        id: "n1".to_string(),
        flow_object_type: FlowObjectType::Event(EventType::StartEvent(Event::new(
            "S",
            event::Type::StartEvent,
        ))),
    };
    assert_eq!(fo.flow_object_type.kind_name(), "StartEvent");
}
