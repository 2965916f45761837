//! Events: flow objects that mark where a process starts, ends, or waits.

use vstd::prelude::*;

verus! {

/// The kind of an event, without its payload.
#[derive(Clone, Copy, PartialEq, Eq, Structural, Debug)]
pub enum Type {
    StartEvent,
    EndEvent,
    IntermediateEvent,
}

impl Type {
    /// Wraps an event payload in the `EventType` variant of this kind.
    pub fn to_event_type(&self, event: Event) -> (r: EventType)
        ensures
            r == match *self {
                Type::StartEvent => EventType::StartEvent(event),
                Type::EndEvent => EventType::EndEvent(event),
                Type::IntermediateEvent => EventType::IntermediateEvent(event),
            },
    {
        match self {
            Type::StartEvent => EventType::StartEvent(event),
            Type::EndEvent => EventType::EndEvent(event),
            Type::IntermediateEvent => EventType::IntermediateEvent(event),
        }
    }
}

/// An event definition: a display name and its kind.
#[derive(Clone, PartialEq, Debug)]
pub struct Event {
    pub name: String,
    pub event_type: Type,
}

impl Event {
    /// Builds an event from a name and a kind.
    pub fn new(name: &str, event_type: Type) -> (r: Self)
        ensures
            r.name@ == name@,
            r.event_type == event_type,
    {
        Event { name: String::from_str(name), event_type }
    }

    /// Returns the kind of the event.
    pub fn event_type(&self) -> (r: &Type)
        ensures
            *r == self.event_type,
    {
        &self.event_type
    }
}

/// An event together with its role in the process: start, end, or
/// intermediate.
#[derive(Clone, PartialEq, Debug)]
pub enum EventType {
    StartEvent(Event),
    EndEvent(Event),
    IntermediateEvent(Event),
}

} // verus!
