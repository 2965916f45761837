use bpmn_engine::gateway::{ComplexGateway, EventBasedGateway, EventBasedGatewayType,
    ExclusiveGateway, GatewayDirection, InclusiveGateway, ParallelGateway, Type};

#[test]
fn test_exclusive_gateway_creation() {
    let name = "Exclusive Gateway";
    let direction = GatewayDirection::Diverging;
    let default_flow = Some("flow_1".to_string());

    let gateway = ExclusiveGateway::new(name, direction.clone(), default_flow.clone());

    assert_eq!(gateway.name, name);
    assert_eq!(gateway.direction, direction);
    assert_eq!(gateway.default_flow, default_flow);
}

#[test]
fn test_parallel_gateway_creation() {
    let name = "Parallel Gateway";
    let direction = GatewayDirection::Converging;

    let gateway = ParallelGateway::new(name, direction.clone());

    assert_eq!(gateway.name, name);
    assert_eq!(gateway.direction, direction);
}

#[test]
fn test_inclusive_gateway_creation() {
    let name = "Inclusive Gateway";
    let direction = GatewayDirection::Mixed;
    let default_flow = Some("flow_2".to_string());

    let gateway = InclusiveGateway::new(name, direction.clone(), default_flow.clone());

    assert_eq!(gateway.name, name);
    assert_eq!(gateway.direction, direction);
    assert_eq!(gateway.default_flow, default_flow);
}

#[test]
fn test_complex_gateway_creation() {
    let name = "Complex Gateway";
    let direction = GatewayDirection::Unspecified;
    let activation_conditions = vec!["condition_1".to_string(), "condition_2".to_string()];

    let gateway = ComplexGateway::new(name, direction.clone(), activation_conditions.clone());

    assert_eq!(gateway.name, name);
    assert_eq!(gateway.direction, direction);
    assert_eq!(gateway.activation_conditions, activation_conditions);
}

#[test]
fn test_event_based_gateway_creation() {
    let name = "Event-Based Gateway";
    let direction = GatewayDirection::Diverging;
    let event_gateway_type = EventBasedGatewayType::Exclusive;
    let instantiate = true;

    let gateway =
        EventBasedGateway::new(name, direction.clone(), event_gateway_type.clone(), instantiate);

    assert_eq!(gateway.name, name);
    assert_eq!(gateway.direction, direction);
    assert_eq!(gateway.event_gateway_type, event_gateway_type);
    assert_eq!(gateway.instantiate, instantiate);
}

#[test]
fn test_exclusive_gateway_behavior() {
    let name = "Exclusive Gateway";
    let direction = GatewayDirection::Diverging;
    let default_flow = Some("flow_3".to_string());

    let gateway = ExclusiveGateway::new(name, direction.clone(), default_flow.clone());

    assert_eq!(gateway.gateway_type(), Type::ExclusiveGateway);
    assert_eq!(gateway.direction(), &direction);
    assert_eq!(gateway.default_flow(), default_flow.as_ref());
}

#[test]
fn test_parallel_gateway_behavior() {
    let name = "Parallel Gateway";
    let direction = GatewayDirection::Converging;

    let gateway = ParallelGateway::new(name, direction.clone());

    assert_eq!(gateway.gateway_type(), Type::ParallelGateway);
    assert_eq!(gateway.direction(), &direction);
    assert_eq!(gateway.default_flow(), None);
}

#[test]
fn test_inclusive_gateway_behavior() {
    let name = "Inclusive Gateway";
    let direction = GatewayDirection::Mixed;
    let default_flow = Some("flow_4".to_string());

    let gateway = InclusiveGateway::new(name, direction.clone(), default_flow.clone());

    assert_eq!(gateway.gateway_type(), Type::InclusiveGateway);
    assert_eq!(gateway.direction(), &direction);
    assert_eq!(gateway.default_flow(), default_flow.as_ref());
}

#[test]
fn test_complex_gateway_behavior() {
    let name = "Complex Gateway";
    let direction = GatewayDirection::Unspecified;
    let activation_conditions = vec!["condition_3".to_string(), "condition_4".to_string()];

    let gateway = ComplexGateway::new(name, direction.clone(), activation_conditions.clone());

    assert_eq!(gateway.gateway_type(), Type::ComplexGateway);
    assert_eq!(gateway.direction(), &direction);
    assert_eq!(gateway.default_flow(), None);
}

#[test]
fn test_event_based_gateway_behavior() {
    let name = "Event-Based Gateway";
    let direction = GatewayDirection::Diverging;
    let event_gateway_type = EventBasedGatewayType::Parallel;
    let instantiate = false;

    let gateway =
        EventBasedGateway::new(name, direction.clone(), event_gateway_type.clone(), instantiate);

    assert_eq!(gateway.gateway_type(), Type::EventBasedGateway);
    assert_eq!(gateway.direction(), &direction);
    assert_eq!(gateway.default_flow(), None);
}
