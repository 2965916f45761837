//! Gateways: flow objects that split or merge control flow. Five kinds are
//! modeled: exclusive, parallel, inclusive, complex, and event-based.

use vstd::prelude::*;
use crate::sequence_flows::SequenceFlowId;

verus! {

/// The kind of a gateway, without its payload.
#[derive(Clone, Copy, PartialEq, Eq, Structural, Debug)]
pub enum Type {
    ExclusiveGateway,
    ParallelGateway,
    ComplexGateway,
    EventBasedGateway,
    InclusiveGateway,
}

/// The direction of flow through a gateway.
#[derive(Clone, Copy, PartialEq, Eq, Structural, Debug)]
pub enum GatewayDirection {
    Unspecified,
    Converging,
    Diverging,
    Mixed,
}

/// Whether an event-based gateway behaves exclusively or in parallel.
#[derive(Clone, Copy, PartialEq, Eq, Structural, Debug)]
pub enum EventBasedGatewayType {
    Exclusive,
    Parallel,
}

/// A gateway that routes a token along the first qualifying outgoing flow,
/// falling back to a declared default flow.
#[derive(Clone, PartialEq, Debug)]
pub struct ExclusiveGateway {
    pub name: String,
    pub direction: GatewayDirection,
    pub default_flow: Option<SequenceFlowId>,
}

impl ExclusiveGateway {
    /// Builds an exclusive gateway.
    pub fn new(name: &str, direction: GatewayDirection, default_flow: Option<SequenceFlowId>) -> (r:
        Self)
        ensures
            r.name@ == name@,
            r.direction == direction,
            r.default_flow == default_flow,
    {
        ExclusiveGateway { name: String::from_str(name), direction, default_flow }
    }

    /// Returns the kind of the gateway.
    pub fn gateway_type(&self) -> (r: Type)
        ensures
            r == Type::ExclusiveGateway,
    {
        Type::ExclusiveGateway
    }

    /// Returns the direction of the gateway.
    pub fn direction(&self) -> (r: &GatewayDirection)
        ensures
            *r == self.direction,
    {
        &self.direction
    }

    /// Returns the declared default flow, if any.
    pub fn default_flow(&self) -> (r: Option<&SequenceFlowId>)
        ensures
            r is Some <==> self.default_flow is Some,
            r is Some ==> self.default_flow->0 == r->0,
    {
        self.default_flow.as_ref()
    }
}

/// A gateway that takes every outgoing flow, spawning one token per extra
/// flow.
#[derive(Clone, PartialEq, Debug)]
pub struct ParallelGateway {
    pub name: String,
    pub direction: GatewayDirection,
}

impl ParallelGateway {
    /// Builds a parallel gateway.
    pub fn new(name: &str, direction: GatewayDirection) -> (r: Self)
        ensures
            r.name@ == name@,
            r.direction == direction,
    {
        ParallelGateway { name: String::from_str(name), direction }
    }

    /// Returns the kind of the gateway.
    pub fn gateway_type(&self) -> (r: Type)
        ensures
            r == Type::ParallelGateway,
    {
        Type::ParallelGateway
    }

    /// Returns the direction of the gateway.
    pub fn direction(&self) -> (r: &GatewayDirection)
        ensures
            *r == self.direction,
    {
        &self.direction
    }

    /// A parallel gateway declares no default flow.
    pub fn default_flow(&self) -> (r: Option<&SequenceFlowId>)
        ensures
            r is None,
    {
        None
    }
}

/// A gateway that takes every outgoing flow whose condition holds, falling
/// back to a declared default flow.
#[derive(Clone, PartialEq, Debug)]
pub struct InclusiveGateway {
    pub name: String,
    pub direction: GatewayDirection,
    pub default_flow: Option<SequenceFlowId>,
}

impl InclusiveGateway {
    /// Builds an inclusive gateway.
    pub fn new(name: &str, direction: GatewayDirection, default_flow: Option<SequenceFlowId>) -> (r:
        Self)
        ensures
            r.name@ == name@,
            r.direction == direction,
            r.default_flow == default_flow,
    {
        InclusiveGateway { name: String::from_str(name), direction, default_flow }
    }

    /// Returns the kind of the gateway.
    pub fn gateway_type(&self) -> (r: Type)
        ensures
            r == Type::InclusiveGateway,
    {
        Type::InclusiveGateway
    }

    /// Returns the direction of the gateway.
    pub fn direction(&self) -> (r: &GatewayDirection)
        ensures
            *r == self.direction,
    {
        &self.direction
    }

    /// Returns the declared default flow, if any.
    pub fn default_flow(&self) -> (r: Option<&SequenceFlowId>)
        ensures
            r is Some <==> self.default_flow is Some,
            r is Some ==> self.default_flow->0 == r->0,
    {
        self.default_flow.as_ref()
    }
}

/// A gateway whose routing is governed by a list of activation condition
/// expressions.
#[derive(Clone, PartialEq, Debug)]
pub struct ComplexGateway {
    pub name: String,
    pub direction: GatewayDirection,
    pub activation_conditions: Vec<String>,
}

impl ComplexGateway {
    /// Builds a complex gateway.
    pub fn new(name: &str, direction: GatewayDirection, activation_conditions: Vec<String>) -> (r:
        Self)
        ensures
            r.name@ == name@,
            r.direction == direction,
            r.activation_conditions == activation_conditions,
    {
        ComplexGateway { name: String::from_str(name), direction, activation_conditions }
    }

    /// Returns the kind of the gateway.
    pub fn gateway_type(&self) -> (r: Type)
        ensures
            r == Type::ComplexGateway,
    {
        Type::ComplexGateway
    }

    /// Returns the direction of the gateway.
    pub fn direction(&self) -> (r: &GatewayDirection)
        ensures
            *r == self.direction,
    {
        &self.direction
    }

    /// A complex gateway declares no default flow.
    pub fn default_flow(&self) -> (r: Option<&SequenceFlowId>)
        ensures
            r is None,
    {
        None
    }
}

/// A gateway that routes according to which of several subsequent events
/// fires first.
#[derive(Clone, PartialEq, Debug)]
pub struct EventBasedGateway {
    pub name: String,
    pub direction: GatewayDirection,
    pub event_gateway_type: EventBasedGatewayType,
    pub instantiate: bool,
}

impl EventBasedGateway {
    /// Builds an event-based gateway.
    pub fn new(
        name: &str,
        direction: GatewayDirection,
        event_gateway_type: EventBasedGatewayType,
        instantiate: bool,
    ) -> (r: Self)
        ensures
            r.name@ == name@,
            r.direction == direction,
            r.event_gateway_type == event_gateway_type,
            r.instantiate == instantiate,
    {
        EventBasedGateway {
            name: String::from_str(name),
            direction,
            event_gateway_type,
            instantiate,
        }
    }

    /// Returns the kind of the gateway.
    pub fn gateway_type(&self) -> (r: Type)
        ensures
            r == Type::EventBasedGateway,
    {
        Type::EventBasedGateway
    }

    /// Returns the direction of the gateway.
    pub fn direction(&self) -> (r: &GatewayDirection)
        ensures
            *r == self.direction,
    {
        &self.direction
    }

    /// An event-based gateway declares no default flow.
    pub fn default_flow(&self) -> (r: Option<&SequenceFlowId>)
        ensures
            r is None,
    {
        None
    }
}

/// A gateway together with its kind tag.
#[derive(Clone, PartialEq, Debug)]
pub enum GatewayType {
    ExclusiveGateway(ExclusiveGateway),
    ParallelGateway(ParallelGateway),
    ComplexGateway(ComplexGateway),
    EventBasedGateway(EventBasedGateway),
    InclusiveGateway(InclusiveGateway),
}

impl GatewayType {
    /// The declared default flow of the gateway, if its kind carries one.
    pub open spec fn spec_default_flow(&self) -> Option<SequenceFlowId> {
        match self {
            GatewayType::ExclusiveGateway(g) => g.default_flow,
            GatewayType::InclusiveGateway(g) => g.default_flow,
            GatewayType::ParallelGateway(_) => None,
            GatewayType::ComplexGateway(_) => None,
            GatewayType::EventBasedGateway(_) => None,
        }
    }
}

} // verus!
