use bpmn_engine::activity::ActivityType;
use bpmn_engine::event::{self, Event, EventType};
use bpmn_engine::flow_objects::{FlowObject, FlowObjectType};
use bpmn_engine::gateway::{ComplexGateway, EventBasedGateway, EventBasedGatewayType,
    GatewayDirection, GatewayType, InclusiveGateway};
use bpmn_engine::process::Process;
use bpmn_engine::process_instance::ProcessInstance;
use bpmn_engine::process_engine::ProcessEngine;
use bpmn_engine::script::{Script, ScriptType};
use bpmn_engine::sequence_flows::SequenceFlow;
use bpmn_engine::task::{Task, TaskType};
use bpmn_engine::token::TokenState;

fn end_node(id: &str) -> FlowObject {
    FlowObject {
        id: id.to_string(),
        flow_object_type: FlowObjectType::Event(EventType::EndEvent(Event::new(
            id,
            event::Type::EndEvent,
        ))),
    }
}

fn start_node(id: &str) -> FlowObject {
    FlowObject {
        id: id.to_string(),
        flow_object_type: FlowObjectType::Event(EventType::StartEvent(Event::new(
            id,
            event::Type::StartEvent,
        ))),
    }
}

fn flow(id: &str, source: &str, target: &str, conditional: bool) -> SequenceFlow {
    let mut f = SequenceFlow::new();
    f.set_id(id.to_string());
    f.set_source_ref(source.to_string());
    f.set_target_ref(target.to_string());
    if conditional {
        f.as_conditional(Some(Script::new("guard", &ScriptType::XPath)));
    } else {
        f.as_normal();
    }
    f
}

fn completed_at(engine: &ProcessEngine, node: &str) -> usize {
    engine
        .process_instance
        .tokens
        .iter()
        .filter(|t| t.state == TokenState::Completed && t.current_node_id == node)
        .count()
}

#[test]
fn test_inclusive_gateway_takes_every_true_condition() {
    let mut process = Process::new();
    process.add_flow_object(start_node("start")).unwrap();
    process
        .add_flow_object(FlowObject {
            id: "gw".to_string(),
            flow_object_type: FlowObjectType::Gateway(GatewayType::InclusiveGateway(
                InclusiveGateway::new("Join", GatewayDirection::Diverging, Some("D".to_string())),
            )),
        })
        .unwrap();
    for end in ["endA", "endB", "endC", "endD"] {
        process.add_flow_object(end_node(end)).unwrap();
    }
    process.add_sequence_flow(flow("f1", "start", "gw", false));
    process.add_sequence_flow(flow("A", "gw", "endA", true));
    process.add_sequence_flow(flow("B", "gw", "endB", true));
    process.add_sequence_flow(flow("C", "gw", "endC", true));

    let mut engine = ProcessEngine::new(ProcessInstance::new(process)).unwrap();
    engine.set_condition_result("A", true);
    engine.set_condition_result("B", false);
    engine.set_condition_result("C", true);
    let quiesced = engine.run();
    assert!(quiesced);
    assert_eq!(completed_at(&engine, "endA"), 1);
    assert_eq!(completed_at(&engine, "endB"), 0);
    assert_eq!(completed_at(&engine, "endC"), 1);
}

#[test]
fn test_inclusive_gateway_falls_back_to_default() {
    let mut process = Process::new();
    process.add_flow_object(start_node("start")).unwrap();
    process
        .add_flow_object(FlowObject {
            id: "gw".to_string(),
            flow_object_type: FlowObjectType::Gateway(GatewayType::InclusiveGateway(
                InclusiveGateway::new("Join", GatewayDirection::Diverging, Some("D".to_string())),
            )),
        })
        .unwrap();
    for end in ["endA", "endD"] {
        process.add_flow_object(end_node(end)).unwrap();
    }
    process.add_sequence_flow(flow("f1", "start", "gw", false));
    process.add_sequence_flow(flow("A", "gw", "endA", true));
    process.add_sequence_flow(flow("D", "gw", "endD", true));

    let mut engine = ProcessEngine::new(ProcessInstance::new(process)).unwrap();
    engine.set_condition_result("A", false);
    engine.set_condition_result("D", false);
    let quiesced = engine.run();
    assert!(quiesced);
    assert_eq!(completed_at(&engine, "endD"), 1);
    assert_eq!(completed_at(&engine, "endA"), 0);
}

#[test]
fn test_complex_gateway_takes_flows_with_true_activation_conditions() {
    let mut process = Process::new();
    process.add_flow_object(start_node("start")).unwrap();
    process
        .add_flow_object(FlowObject {
            id: "gw".to_string(),
            flow_object_type: FlowObjectType::Gateway(GatewayType::ComplexGateway(
                ComplexGateway::new(
                    "Complex",
                    GatewayDirection::Diverging,
                    vec!["cond_one".to_string(), "cond_two".to_string()],
                ),
            )),
        })
        .unwrap();
    for end in ["endA", "endB"] {
        process.add_flow_object(end_node(end)).unwrap();
    }
    process.add_sequence_flow(flow("f1", "start", "gw", false));
    process.add_sequence_flow(flow("A", "gw", "endA", false));
    process.add_sequence_flow(flow("B", "gw", "endB", false));

    let mut engine = ProcessEngine::new(ProcessInstance::new(process)).unwrap();
    engine.set_condition_result("cond_one", false);
    engine.set_condition_result("cond_two", true);
    let quiesced = engine.run();
    assert!(quiesced);
    assert_eq!(completed_at(&engine, "endA"), 0);
    assert_eq!(completed_at(&engine, "endB"), 1);
}

#[test]
fn test_complex_gateway_without_true_conditions_terminates_token() {
    let mut process = Process::new();
    process.add_flow_object(start_node("start")).unwrap();
    process
        .add_flow_object(FlowObject {
            id: "gw".to_string(),
            flow_object_type: FlowObjectType::Gateway(GatewayType::ComplexGateway(
                ComplexGateway::new("Complex", GatewayDirection::Diverging, Vec::new()),
            )),
        })
        .unwrap();
    process.add_flow_object(end_node("endA")).unwrap();
    process.add_sequence_flow(flow("f1", "start", "gw", false));
    process.add_sequence_flow(flow("A", "gw", "endA", false));

    let mut engine = ProcessEngine::new(ProcessInstance::new(process)).unwrap();
    let quiesced = engine.run();
    assert!(quiesced);
    assert_eq!(engine.process_instance.failures.len(), 1);
    assert_eq!(engine.process_instance.failures[0].node_id, "gw");
}

#[test]
fn test_event_based_gateway_parks_the_token() {
    let mut process = Process::new();
    process.add_flow_object(start_node("start")).unwrap();
    process
        .add_flow_object(FlowObject {
            id: "gw".to_string(),
            flow_object_type: FlowObjectType::Gateway(GatewayType::EventBasedGateway(
                EventBasedGateway::new(
                    "Events",
                    GatewayDirection::Diverging,
                    EventBasedGatewayType::Exclusive,
                    false,
                ),
            )),
        })
        .unwrap();
    process.add_flow_object(end_node("endA")).unwrap();
    process.add_sequence_flow(flow("f1", "start", "gw", false));
    process.add_sequence_flow(flow("A", "gw", "endA", false));

    let mut engine = ProcessEngine::new(ProcessInstance::new(process)).unwrap();
    let quiesced = engine.run();
    assert!(quiesced);
    let paused: Vec<String> = engine
        .process_instance
        .tokens
        .iter()
        .filter(|t| t.state == TokenState::Paused)
        .map(|t| t.id.clone())
        .collect();
    assert_eq!(paused.len(), 1);

    // An external event signal resumes the parked token and it proceeds.
    engine.resume(&paused[0], Vec::new()).unwrap();
    let quiesced = engine.run();
    assert!(quiesced);
    assert_eq!(completed_at(&engine, "endA"), 1);
}

#[test]
fn test_intermediate_event_passes_through() {
    let mut process = Process::new();
    process.add_flow_object(start_node("start")).unwrap();
    process
        .add_flow_object(FlowObject {
            id: "mid".to_string(),
            flow_object_type: FlowObjectType::Event(EventType::IntermediateEvent(Event::new(
                "Mid",
                event::Type::IntermediateEvent,
            ))),
        })
        .unwrap();
    process.add_flow_object(end_node("endA")).unwrap();
    process.add_sequence_flow(flow("f1", "start", "mid", false));
    process.add_sequence_flow(flow("f2", "mid", "endA", false));

    let mut engine = ProcessEngine::new(ProcessInstance::new(process)).unwrap();
    let quiesced = engine.run();
    assert!(quiesced);
    assert_eq!(completed_at(&engine, "endA"), 1);
}

#[test]
fn test_service_task_advances_automatically() {
    let mut process = Process::new();
    process.add_flow_object(start_node("start")).unwrap();
    process
        .add_flow_object(FlowObject {
            id: "svc".to_string(),
            flow_object_type: FlowObjectType::Activity(ActivityType::Task(TaskType::ServiceTask(
                Task::new("Svc", bpmn_engine::task::Type::ServiceTask),
            ))),
        })
        .unwrap();
    process.add_flow_object(end_node("endA")).unwrap();
    process.add_sequence_flow(flow("f1", "start", "svc", false));
    process.add_sequence_flow(flow("f2", "svc", "endA", false));

    let mut engine = ProcessEngine::new(ProcessInstance::new(process)).unwrap();
    let quiesced = engine.run();
    assert!(quiesced);
    assert_eq!(completed_at(&engine, "endA"), 1);
}
