use bpmn_engine::event::{self, Event, EventType};
use bpmn_engine::flow_objects::{flowobject_is_start_event, FlowObject, FlowObjectType};

#[test]
fn test_flowobject_is_start_event() {
    let flow_object = FlowObject {
        id: "1".to_string(),
        flow_object_type: FlowObjectType::Event(EventType::StartEvent(Event::new(
            "Start Event",
            event::Type::StartEvent,
        ))),
    };
    assert_eq!(flowobject_is_start_event(&flow_object), true);
}

#[test]
fn test_flowobject_is_not_start_event() {
    let flow_object = FlowObject {
        id: "1".to_string(),
        flow_object_type: FlowObjectType::Event(EventType::IntermediateEvent(Event::new(
            "Intermediate Event",
            event::Type::IntermediateEvent,
        ))),
    };
    assert_eq!(flowobject_is_start_event(&flow_object), false);
}
