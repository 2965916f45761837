use bpmn_engine::activity::ActivityType;
use bpmn_engine::errors::BPMNParseError;
use bpmn_engine::event::{self, Event, EventType};
use bpmn_engine::flow_objects::FlowObjectType;
use bpmn_engine::gateway::{ExclusiveGateway, GatewayDirection, GatewayType, ParallelGateway};
use bpmn_engine::script::ScriptType;
use bpmn_engine::sequence_flows::SequenceFlowBehavior;
use bpmn_engine::task::{self, Task, TaskType};
use bpmn_engine::xml_parser::{parse_bpmn_from_events, XmlNode};

fn attrs(pairs: &[(&str, &str)]) -> Vec<(String, String)> {
    pairs
        .iter()
        .map(|(k, v)| (k.to_string(), v.to_string()))
        .collect()
}

fn empty_el(tag: &str, a: &[(&str, &str)]) -> XmlNode {
    XmlNode::Empty {
        tag: tag.to_string(),
        attributes: attrs(a),
    }
}

fn start_el(tag: &str, a: &[(&str, &str)]) -> XmlNode {
    XmlNode::Start {
        tag: tag.to_string(),
        attributes: attrs(a),
    }
}

fn end_el(tag: &str) -> XmlNode {
    XmlNode::End {
        tag: tag.to_string(),
    }
}

fn simple_process_events() -> Vec<XmlNode> {
    vec![
        start_el("definitions", &[]),
        start_el("process", &[("id", "p1"), ("isExecutable", "true")]),
        empty_el("startEvent", &[("id", "startEvent"), ("name", "Start Event")]),
        empty_el("task", &[("id", "userTask"), ("name", "User Task")]),
        empty_el(
            "exclusiveGateway",
            &[
                ("id", "gateway1"),
                ("name", "Decision Gateway"),
                ("gatewayDirection", "Diverging"),
            ],
        ),
        empty_el("endEvent", &[("id", "endEvent1"), ("name", "End Event 1")]),
        empty_el("endEvent", &[("id", "endEvent2"), ("name", "End Event 2")]),
        empty_el(
            "sequenceFlow",
            &[("id", "flow1"), ("sourceRef", "startEvent"), ("targetRef", "userTask")],
        ),
        empty_el(
            "sequenceFlow",
            &[("id", "flow2"), ("sourceRef", "userTask"), ("targetRef", "gateway1")],
        ),
        start_el(
            "sequenceFlow",
            &[("id", "flow3"), ("sourceRef", "gateway1"), ("targetRef", "endEvent1")],
        ),
        start_el(
            "conditionExpression",
            &[("language", "http://www.javascript.com")],
        ),
        XmlNode::CData("  return myVariable == true;\n".to_string()),
        end_el("conditionExpression"),
        end_el("sequenceFlow"),
        empty_el(
            "sequenceFlow",
            &[("id", "flow4"), ("sourceRef", "gateway1"), ("targetRef", "endEvent2")],
        ),
        end_el("process"),
    ]
}

#[test]
fn test_parse_simple_process_events() {
    let process = parse_bpmn_from_events(&simple_process_events()).unwrap();

    assert_eq!(process.flow_objects().len(), 5, "Flow objects count mismatch");

    let start_event = process
        .flow_objects()
        .get("startEvent")
        .expect("Start event not found");
    assert_eq!(
        start_event.flow_object_type,
        FlowObjectType::Event(EventType::StartEvent(Event::new(
            "Start Event",
            event::Type::StartEvent
        ))),
        "Incorrect start event type"
    );

    let user_task = process
        .flow_objects()
        .get("userTask")
        .expect("User task not found");
    assert_eq!(
        user_task.flow_object_type,
        FlowObjectType::Activity(ActivityType::Task(TaskType::UserTask(Task::new(
            "User Task",
            task::Type::UserTask
        )))),
        "Incorrect task type"
    );

    let gateway = process
        .flow_objects()
        .get("gateway1")
        .expect("Gateway not found");
    assert_eq!(
        gateway.flow_object_type,
        FlowObjectType::Gateway(GatewayType::ExclusiveGateway(ExclusiveGateway::new(
            "Decision Gateway",
            GatewayDirection::Diverging,
            None
        ))),
        "Incorrect gateway type"
    );

    let sequence_flows = process.sequence_flows();
    assert_eq!(sequence_flows.len(), 4, "Sequence flows count mismatch");

    let flow1 = sequence_flows
        .iter()
        .find(|flow| flow.id() == "flow1")
        .expect("Sequence flow 'flow1' not found");
    assert_eq!(flow1.source_ref(), "startEvent");
    assert_eq!(flow1.target_ref(), "userTask");
    assert!(matches!(flow1.sequence_flow_behavior(), SequenceFlowBehavior::Normal));

    let flow3 = sequence_flows
        .iter()
        .find(|flow| flow.id() == "flow3")
        .expect("Sequence flow 'flow3' not found");
    assert_eq!(flow3.source_ref(), "gateway1");
    assert_eq!(flow3.target_ref(), "endEvent1");
    match flow3.sequence_flow_behavior() {
        SequenceFlowBehavior::Conditional(c) => {
            let script = c.condition_expression().expect("condition expected");
            assert_eq!(script.script(), "return myVariable == true;");
            assert_eq!(script.script_type(), ScriptType::JavaScript);
        }
        _ => panic!("Expected a conditional flow"),
    }
}

#[test]
fn test_parse_condition_language_defaults_to_xpath() {
    let events = vec![
        start_el("process", &[]),
        empty_el("startEvent", &[("id", "s"), ("name", "S")]),
        empty_el("endEvent", &[("id", "e"), ("name", "E")]),
        start_el(
            "sequenceFlow",
            &[("id", "f"), ("sourceRef", "s"), ("targetRef", "e")],
        ),
        start_el("conditionExpression", &[]),
        XmlNode::CData("${resendRequest == 'Yes'}".to_string()),
        end_el("conditionExpression"),
        end_el("sequenceFlow"),
        end_el("process"),
    ];
    let process = parse_bpmn_from_events(&events).unwrap();
    let flow = &process.sequence_flows()[0];
    match flow.sequence_flow_behavior() {
        SequenceFlowBehavior::Conditional(c) => {
            let script = c.condition_expression().unwrap();
            assert_eq!(script.script(), "${resendRequest == 'Yes'}");
            assert_eq!(script.script_type(), ScriptType::XPath);
        }
        _ => panic!("Expected a conditional flow"),
    }
}

#[test]
fn test_parse_unsupported_element_fails() {
    let events = vec![
        start_el("process", &[]),
        start_el("subProcess", &[("id", "x")]),
        end_el("process"),
    ];
    match parse_bpmn_from_events(&events) {
        Err(BPMNParseError::UnsupportedElement(tag)) => assert_eq!(tag, "subProcess"),
        _ => panic!("Expected UnsupportedElement"),
    }
}

#[test]
fn test_parse_duplicate_flow_object_id_fails() {
    let events = vec![
        start_el("process", &[]),
        empty_el("startEvent", &[("id", "n"), ("name", "A")]),
        empty_el("endEvent", &[("id", "n"), ("name", "B")]),
        end_el("process"),
    ];
    match parse_bpmn_from_events(&events) {
        Err(BPMNParseError::ProcessError(_)) => (),
        _ => panic!("Expected ProcessError"),
    }
}

#[test]
fn test_parse_missing_attribute_fails() {
    let events = vec![
        start_el("process", &[]),
        empty_el("startEvent", &[("name", "missing id")]),
        end_el("process"),
    ];
    assert!(parse_bpmn_from_events(&events).is_err());
}

#[test]
fn test_parse_truncated_input_fails() {
    let events = vec![
        start_el("process", &[]),
        empty_el("startEvent", &[("id", "s"), ("name", "S")]),
    ];
    assert!(parse_bpmn_from_events(&events).is_err());
}

#[test]
fn test_parse_process_attributes() {
    let events = vec![
        start_el(
            "process",
            &[
                ("processType", "Public"),
                ("isExecutable", "true"),
                ("isClosed", "true"),
                ("definitionalCollaborationRef", "collab_1"),
            ],
        ),
        end_el("process"),
    ];
    let process = parse_bpmn_from_events(&events).unwrap();
    assert_eq!(
        process.process_type(),
        &bpmn_engine::process::ProcessType::Public
    );
    assert_eq!(
        process.executable_status(),
        &bpmn_engine::process::ExecutableStatus::Executable
    );
    assert_eq!(
        process.process_state(),
        &bpmn_engine::process::ProcessState::Closed
    );
    assert_eq!(
        process.definitional_collaboration_ref(),
        &bpmn_engine::process::CollaborationRef::Defined("collab_1".to_string())
    );
}

#[test]
fn test_parsed_process_runs_on_the_engine() {
    let process = parse_bpmn_from_events(&simple_process_events()).unwrap();
    let mut engine = bpmn_engine::process_engine::ProcessEngine::new(
        bpmn_engine::process_instance::ProcessInstance::new(process),
    )
    .unwrap();
    let quiesced = engine.run();
    assert!(quiesced);
    // The user task parks the single token.
    let paused = engine
        .process_instance
        .tokens
        .iter()
        .filter(|t| t.state == bpmn_engine::token::TokenState::Paused)
        .count();
    assert_eq!(paused, 1);
}
