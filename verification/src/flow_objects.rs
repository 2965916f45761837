//! Flow objects: the nodes of the process graph. A flow object is an
//! activity, an event, or a gateway, identified by a process-wide unique ID.

use vstd::prelude::*;
use crate::activity::ActivityType;
use crate::event::EventType;
use crate::gateway::GatewayType;

verus! {

/// Alias for flow object identifiers used in the process model.
pub type FlowObjectId = String;

/// A node of the process graph: its identifier and its kind.
#[derive(Clone, PartialEq, Debug)]
pub struct FlowObject {
    pub id: FlowObjectId,
    pub flow_object_type: FlowObjectType,
}

/// The kind of a flow object, with the kind-specific payload.
#[derive(Clone, PartialEq, Debug)]
pub enum FlowObjectType {
    Activity(ActivityType),
    Event(EventType),
    Gateway(GatewayType),
}

/// The tag name of each flow object kind.
pub open spec fn spec_kind_name(t: FlowObjectType) -> Seq<char> {
    match t {
        FlowObjectType::Activity(ActivityType::Task(_)) => "Task"@,
        FlowObjectType::Event(EventType::StartEvent(_)) => "StartEvent"@,
        FlowObjectType::Event(EventType::EndEvent(_)) => "EndEvent"@,
        FlowObjectType::Event(EventType::IntermediateEvent(_)) => "IntermediateEvent"@,
        FlowObjectType::Gateway(GatewayType::ExclusiveGateway(_)) => "ExclusiveGateway"@,
        FlowObjectType::Gateway(GatewayType::ParallelGateway(_)) => "ParallelGateway"@,
        FlowObjectType::Gateway(GatewayType::ComplexGateway(_)) => "ComplexGateway"@,
        FlowObjectType::Gateway(GatewayType::EventBasedGateway(_)) => "EventBasedGateway"@,
        FlowObjectType::Gateway(GatewayType::InclusiveGateway(_)) => "InclusiveGateway"@,
    }
}

impl FlowObjectType {
    /// Returns the tag name of the flow object's kind.
    pub fn kind_name(&self) -> (r: &str)
        ensures
            r@ == spec_kind_name(*self),
    {
        match self {
            FlowObjectType::Activity(ActivityType::Task(_)) => "Task",
            FlowObjectType::Event(EventType::StartEvent(_)) => "StartEvent",
            FlowObjectType::Event(EventType::EndEvent(_)) => "EndEvent",
            FlowObjectType::Event(EventType::IntermediateEvent(_)) => "IntermediateEvent",
            FlowObjectType::Gateway(GatewayType::ExclusiveGateway(_)) => "ExclusiveGateway",
            FlowObjectType::Gateway(GatewayType::ParallelGateway(_)) => "ParallelGateway",
            FlowObjectType::Gateway(GatewayType::ComplexGateway(_)) => "ComplexGateway",
            FlowObjectType::Gateway(GatewayType::EventBasedGateway(_)) => "EventBasedGateway",
            FlowObjectType::Gateway(GatewayType::InclusiveGateway(_)) => "InclusiveGateway",
        }
    }
}

/// The flow object is a start event.
pub open spec fn spec_is_start_event(fo: FlowObject) -> bool {
    fo.flow_object_type matches FlowObjectType::Event(EventType::StartEvent(_))
}

/// Tests whether a flow object is a start event.
pub fn flowobject_is_start_event(flow_object: &FlowObject) -> (r: bool)
    ensures
        r <==> spec_is_start_event(*flow_object),
{
    match &flow_object.flow_object_type {
        FlowObjectType::Event(EventType::StartEvent(_)) => true,
        _ => false,
    }
}

} // verus!
