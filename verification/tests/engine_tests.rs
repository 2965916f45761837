use bpmn_engine::event::{self, Event, EventType};
use bpmn_engine::flow_objects::{FlowObject, FlowObjectType};
use bpmn_engine::gateway::{ExclusiveGateway, GatewayDirection, GatewayType, ParallelGateway};
use bpmn_engine::process::Process;
use bpmn_engine::process_instance::ProcessInstance;
use bpmn_engine::process_engine::ProcessEngine;
use bpmn_engine::runtime_errors::ProcessEngineError;
use bpmn_engine::script::{Script, ScriptType};
use bpmn_engine::sequence_flows::SequenceFlow;
use bpmn_engine::task::{self, Task, TaskType};
use bpmn_engine::token::{Token, TokenState};

fn event_node(id: &str, name: &str, kind: event::Type) -> FlowObject {
    let ev = Event::new(name, kind);
    let event_type = match kind {
        event::Type::StartEvent => EventType::StartEvent(ev),
        event::Type::EndEvent => EventType::EndEvent(ev),
        event::Type::IntermediateEvent => EventType::IntermediateEvent(ev),
    };
    FlowObject {
        id: id.to_string(),
        flow_object_type: FlowObjectType::Event(event_type),
    }
}

fn task_node(id: &str, name: &str, kind: task::Type) -> FlowObject {
    let t = Task::new(name, kind);
    let task_type = match kind {
        task::Type::UserTask => TaskType::UserTask(t),
        task::Type::ServiceTask => TaskType::ServiceTask(t),
        task::Type::ScriptTask => TaskType::ScriptTask(t),
    };
    FlowObject {
        id: id.to_string(),
        flow_object_type: FlowObjectType::Activity(
            bpmn_engine::activity::ActivityType::Task(task_type),
        ),
    }
}

fn normal_flow(id: &str, source: &str, target: &str) -> SequenceFlow {
    let mut f = SequenceFlow::new();
    f.set_id(id.to_string());
    f.set_source_ref(source.to_string());
    f.set_target_ref(target.to_string());
    f.as_normal();
    f
}

fn conditional_flow(id: &str, source: &str, target: &str) -> SequenceFlow {
    let mut f = SequenceFlow::new();
    f.set_id(id.to_string());
    f.set_source_ref(source.to_string());
    f.set_target_ref(target.to_string());
    f.as_conditional(Some(Script::new("guard", &ScriptType::XPath)));
    f
}

fn completed_at(engine: &ProcessEngine, node: &str) -> usize {
    engine
        .process_instance
        .tokens
        .iter()
        .filter(|t| t.state == TokenState::Completed && t.current_node_id == node)
        .count()
}

#[test]
fn test_engine_rejects_process_without_start_event() {
    let process = Process::new();
    match ProcessEngine::new(ProcessInstance::new(process)) {
        Err(ProcessEngineError::NoStartEvent) => (),
        _ => panic!("Expected NoStartEvent"),
    }
}

#[test]
fn test_straight_line_process_runs_to_quiescence() {
    let mut process = Process::new();
    process
        .add_flow_object(event_node("start", "Start", event::Type::StartEvent))
        .unwrap();
    process
        .add_flow_object(task_node("work", "Work", task::Type::ServiceTask))
        .unwrap();
    process
        .add_flow_object(event_node("finish", "Finish", event::Type::EndEvent))
        .unwrap();
    process.add_sequence_flow(normal_flow("f1", "start", "work"));
    process.add_sequence_flow(normal_flow("f2", "work", "finish"));

    let mut engine = ProcessEngine::new(ProcessInstance::new(process)).unwrap();
    let quiesced = engine.run();
    assert!(quiesced);
    let active = engine.process_instance.get_active_tokens();
    assert_eq!(active.len(), 0);
    assert_eq!(completed_at(&engine, "finish"), 1);
    assert!(engine.process_instance.failures.is_empty());
}

#[test]
fn test_exclusive_gateway_takes_first_true_condition() {
    let mut process = Process::new();
    process
        .add_flow_object(event_node("start", "Start", event::Type::StartEvent))
        .unwrap();
    process
        .add_flow_object(FlowObject {
            id: "gw".to_string(),
            flow_object_type: FlowObjectType::Gateway(GatewayType::ExclusiveGateway(
                ExclusiveGateway::new("Choice", GatewayDirection::Diverging, Some("D".to_string())),
            )),
        })
        .unwrap();
    for end in ["endA", "endB", "endC", "endD"] {
        process
            .add_flow_object(event_node(end, end, event::Type::EndEvent))
            .unwrap();
    }
    process.add_sequence_flow(normal_flow("f1", "start", "gw"));
    process.add_sequence_flow(conditional_flow("A", "gw", "endA"));
    process.add_sequence_flow(conditional_flow("B", "gw", "endB"));
    process.add_sequence_flow(conditional_flow("C", "gw", "endC"));
    process.add_sequence_flow(normal_flow("D", "gw", "endD"));

    let mut engine = ProcessEngine::new(ProcessInstance::new(process)).unwrap();
    engine.set_condition_result("A", false);
    engine.set_condition_result("B", true);
    engine.set_condition_result("C", true);
    let quiesced = engine.run();
    assert!(quiesced);
    assert_eq!(completed_at(&engine, "endB"), 1);
    assert_eq!(completed_at(&engine, "endA"), 0);
    assert_eq!(completed_at(&engine, "endC"), 0);
    assert_eq!(completed_at(&engine, "endD"), 0);
}

#[test]
fn test_exclusive_gateway_falls_back_to_default_flow() {
    let mut process = Process::new();
    process
        .add_flow_object(event_node("start", "Start", event::Type::StartEvent))
        .unwrap();
    process
        .add_flow_object(FlowObject {
            id: "gw".to_string(),
            flow_object_type: FlowObjectType::Gateway(GatewayType::ExclusiveGateway(
                ExclusiveGateway::new("Choice", GatewayDirection::Diverging, Some("D".to_string())),
            )),
        })
        .unwrap();
    for end in ["endA", "endB", "endD"] {
        process
            .add_flow_object(event_node(end, end, event::Type::EndEvent))
            .unwrap();
    }
    process.add_sequence_flow(normal_flow("f1", "start", "gw"));
    process.add_sequence_flow(conditional_flow("A", "gw", "endA"));
    process.add_sequence_flow(conditional_flow("B", "gw", "endB"));
    process.add_sequence_flow(normal_flow("D", "gw", "endD"));

    let mut engine = ProcessEngine::new(ProcessInstance::new(process)).unwrap();
    engine.set_condition_result("A", false);
    engine.set_condition_result("B", false);
    let quiesced = engine.run();
    assert!(quiesced);
    assert_eq!(completed_at(&engine, "endD"), 1);
    assert_eq!(completed_at(&engine, "endA"), 0);
    assert_eq!(completed_at(&engine, "endB"), 0);
}

#[test]
fn test_parallel_gateway_spawns_one_token_per_flow() {
    let mut process = Process::new();
    process
        .add_flow_object(event_node("start", "Start", event::Type::StartEvent))
        .unwrap();
    process
        .add_flow_object(FlowObject {
            id: "split".to_string(),
            flow_object_type: FlowObjectType::Gateway(GatewayType::ParallelGateway(
                ParallelGateway::new("Split", GatewayDirection::Diverging),
            )),
        })
        .unwrap();
    for t in ["t1", "t2", "t3"] {
        process
            .add_flow_object(task_node(t, t, task::Type::UserTask))
            .unwrap();
    }
    process.add_sequence_flow(normal_flow("f1", "start", "split"));
    process.add_sequence_flow(normal_flow("p1", "split", "t1"));
    process.add_sequence_flow(normal_flow("p2", "split", "t2"));
    process.add_sequence_flow(normal_flow("p3", "split", "t3"));

    let mut engine = ProcessEngine::new(ProcessInstance::new(process)).unwrap();
    let token = Token {
        id: "tok-root".to_string(),
        current_node_id: "split".to_string(),
        state: TokenState::Active,
        parent_token_id: None,
        child_tokens: Vec::new(),
        process_variables: vec![("k".to_string(), "v".to_string())],
    };
    engine.process_instance.tokens.clear();
    engine.process_token(token);

    let active = engine.process_instance.get_active_tokens();
    assert_eq!(active.len(), 3);
    let mut ids = Vec::new();
    for t in &active {
        assert_eq!(
            t.process_variables,
            vec![("k".to_string(), "v".to_string())]
        );
        ids.push(t.id.clone());
    }
    ids.sort();
    ids.dedup();
    assert_eq!(ids.len(), 3);
    let targets: Vec<String> = active.iter().map(|t| t.current_node_id.clone()).collect();
    assert!(targets.contains(&"t1".to_string()));
    assert!(targets.contains(&"t2".to_string()));
    assert!(targets.contains(&"t3".to_string()));
    let children: Vec<&Token> = active
        .iter()
        .filter(|t| t.parent_token_id == Some("tok-root".to_string()))
        .cloned()
        .collect();
    assert_eq!(children.len(), 2);
}

#[test]
fn test_duplicate_flow_object_leaves_process_untouched() {
    let mut process = Process::new();
    let original = event_node("node", "First", event::Type::StartEvent);
    process.add_flow_object(original.clone()).unwrap();

    let duplicate = task_node("node", "Second", task::Type::UserTask);
    let result = process.add_flow_object(duplicate);
    match result {
        Err(bpmn_engine::process::ProcessError::FlowObjectAlreadyExists(id)) => {
            assert_eq!(id, "node");
        }
        _ => panic!("Expected FlowObjectAlreadyExists"),
    }
    assert_eq!(process.flow_objects().len(), 1);
    assert_eq!(process.flow_objects().get("node").unwrap(), &original);
}

#[test]
fn test_user_task_pauses_and_resume_routes_through_gateway() {
    let mut process = Process::new();
    process
        .add_flow_object(event_node("startEvent", "Start Event", event::Type::StartEvent))
        .unwrap();
    process
        .add_flow_object(task_node("userTask", "User Task", task::Type::UserTask))
        .unwrap();
    process
        .add_flow_object(FlowObject {
            id: "gateway1".to_string(),
            flow_object_type: FlowObjectType::Gateway(GatewayType::ExclusiveGateway(
                ExclusiveGateway::new(
                    "Decision Gateway",
                    GatewayDirection::Diverging,
                    Some("flow4".to_string()),
                ),
            )),
        })
        .unwrap();
    process
        .add_flow_object(event_node("endEvent1", "End Event 1", event::Type::EndEvent))
        .unwrap();
    process
        .add_flow_object(event_node("endEvent2", "End Event 2", event::Type::EndEvent))
        .unwrap();
    process.add_sequence_flow(normal_flow("flow1", "startEvent", "userTask"));
    process.add_sequence_flow(normal_flow("flow2", "userTask", "gateway1"));
    process.add_sequence_flow(conditional_flow("flow3", "gateway1", "endEvent1"));
    process.add_sequence_flow(normal_flow("flow4", "gateway1", "endEvent2"));

    let mut engine = ProcessEngine::new(ProcessInstance::new(process)).unwrap();
    assert_eq!(engine.process_instance.tokens.len(), 1);
    assert_eq!(engine.process_instance.tokens[0].current_node_id, "startEvent");
    assert_eq!(engine.process_instance.tokens[0].state, TokenState::Active);

    let quiesced = engine.run();
    assert!(quiesced);
    let paused: Vec<Token> = engine
        .process_instance
        .tokens
        .iter()
        .filter(|t| t.state == TokenState::Paused)
        .cloned()
        .collect();
    assert_eq!(paused.len(), 1);
    assert_eq!(paused[0].current_node_id, "userTask");

    engine.set_condition_result("flow3", true);
    engine
        .resume(&paused[0].id.clone(), vec![("approved".to_string(), "yes".to_string())])
        .unwrap();
    let quiesced = engine.run();
    assert!(quiesced);
    assert_eq!(completed_at(&engine, "endEvent1"), 1);
    assert_eq!(completed_at(&engine, "endEvent2"), 0);
}

#[test]
fn test_resume_routes_to_default_when_condition_is_false() {
    let mut process = Process::new();
    process
        .add_flow_object(event_node("startEvent", "Start Event", event::Type::StartEvent))
        .unwrap();
    process
        .add_flow_object(task_node("userTask", "User Task", task::Type::UserTask))
        .unwrap();
    process
        .add_flow_object(FlowObject {
            id: "gateway1".to_string(),
            flow_object_type: FlowObjectType::Gateway(GatewayType::ExclusiveGateway(
                ExclusiveGateway::new(
                    "Decision Gateway",
                    GatewayDirection::Diverging,
                    Some("flow4".to_string()),
                ),
            )),
        })
        .unwrap();
    process
        .add_flow_object(event_node("endEvent1", "End Event 1", event::Type::EndEvent))
        .unwrap();
    process
        .add_flow_object(event_node("endEvent2", "End Event 2", event::Type::EndEvent))
        .unwrap();
    process.add_sequence_flow(normal_flow("flow1", "startEvent", "userTask"));
    process.add_sequence_flow(normal_flow("flow2", "userTask", "gateway1"));
    process.add_sequence_flow(conditional_flow("flow3", "gateway1", "endEvent1"));
    process.add_sequence_flow(normal_flow("flow4", "gateway1", "endEvent2"));

    let mut engine = ProcessEngine::new(ProcessInstance::new(process)).unwrap();
    engine.run();
    let paused_id = engine
        .process_instance
        .tokens
        .iter()
        .find(|t| t.state == TokenState::Paused)
        .unwrap()
        .id
        .clone();
    engine.set_condition_result("flow3", false);
    engine.resume(&paused_id, Vec::new()).unwrap();
    let quiesced = engine.run();
    assert!(quiesced);
    assert_eq!(completed_at(&engine, "endEvent2"), 1);
    assert_eq!(completed_at(&engine, "endEvent1"), 0);
}

#[test]
fn test_token_without_eligible_flow_is_terminated_and_recorded() {
    let mut process = Process::new();
    process
        .add_flow_object(event_node("start", "Start", event::Type::StartEvent))
        .unwrap();
    // The start event has no outgoing flow at all.
    let mut engine = ProcessEngine::new(ProcessInstance::new(process)).unwrap();
    let quiesced = engine.run();
    assert!(quiesced);
    assert_eq!(engine.process_instance.failures.len(), 1);
    assert_eq!(engine.process_instance.failures[0].node_id, "start");
    let terminated = engine
        .process_instance
        .tokens
        .iter()
        .filter(|t| t.state == TokenState::Terminated)
        .count();
    assert_eq!(terminated, 1);
}

#[test]
fn test_run_reports_quiescence_exactly() {
    let mut process = Process::new();
    process
        .add_flow_object(event_node("start", "Start", event::Type::StartEvent))
        .unwrap();
    process
        .add_flow_object(event_node("finish", "Finish", event::Type::EndEvent))
        .unwrap();
    process.add_sequence_flow(normal_flow("f1", "start", "finish"));

    let mut engine = ProcessEngine::new(ProcessInstance::new(process)).unwrap();
    assert!(engine.has_active_token());
    let before = engine.process_instance.tokens.len();
    let quiesced = engine.run();
    assert!(quiesced);
    assert!(!engine.has_active_token());
    // Processed tokens are retained in history, never dropped.
    assert!(engine.process_instance.tokens.len() >= before);
}

#[test]
fn test_resume_unknown_token_fails() {
    let mut process = Process::new();
    process
        .add_flow_object(event_node("start", "Start", event::Type::StartEvent))
        .unwrap();
    let mut engine = ProcessEngine::new(ProcessInstance::new(process)).unwrap();
    match engine.resume("no-such-token", Vec::new()) {
        Err(ProcessEngineError::PausedTokenNotFound(id)) => assert_eq!(id, "no-such-token"),
        _ => panic!("Expected PausedTokenNotFound"),
    }
}
