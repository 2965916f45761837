//! Building a process model from a stream of markup events. The tokenizer
//! that turns text into events is outside this crate; everything here
//! works on plain tag names, attribute pairs, and character data, and is
//! specified by a side-effect-free walk over the event sequence.

use vstd::prelude::*;
use crate::errors::BPMNParseError;
use crate::event::{Event, EventType};
use crate::event;
use crate::flow_objects::{FlowObject, FlowObjectType};
use crate::activity::ActivityType;
use crate::gateway::{ComplexGateway, EventBasedGateway, EventBasedGatewayType, ExclusiveGateway,
    GatewayDirection, GatewayType, InclusiveGateway, ParallelGateway};
use crate::process::{contains_fo_id, CollaborationRef, ExecutableStatus, Process, ProcessError,
    ProcessState, ProcessType, ProcessView};
use crate::script::{spec_from_schema_ref, spec_script_text, spec_script_type, Script, ScriptType};
use crate::sequence_flows::{ImmediateFlag, SequenceFlow, SequenceFlowBehavior};
use crate::task::{Task, TaskType};
use crate::task;
use crate::text::str_eq;

verus! {

/// The shapes a markup event can take.
#[derive(Clone, Copy, PartialEq, Eq, Structural, Debug)]
pub enum XmlElementType {
    /// Start tag with attributes.
    Start,
    /// End tag.
    End,
    /// Empty element tag with attributes.
    Empty,
    /// Escaped character data between tags.
    Text,
    /// Unescaped character data.
    CData,
    /// A comment.
    Comment,
    /// The document declaration.
    Decl,
    /// A processing instruction.
    PI,
    /// A document type definition.
    DocType,
    /// End of the document.
    Eof,
}

/// One plain markup event: a tag with its attributes, character data, or
/// a marker without content.
#[derive(Clone, PartialEq, Debug)]
pub enum XmlNode {
    Start { tag: String, attributes: Vec<(String, String)> },
    Empty { tag: String, attributes: Vec<(String, String)> },
    End { tag: String },
    Text(String),
    CData(String),
    Comment,
    Decl,
    PI,
    DocType,
}

/// The value of the first attribute with the given name, scanning from
/// position `i`.
pub open spec fn attr_lookup_from(attrs: Seq<(String, String)>, name: Seq<char>, i: int) -> Option<
    String,
>
    decreases attrs.len() - i,
{
    if i < 0 || i >= attrs.len() {
        None
    } else if attrs[i].0@ == name {
        Some(attrs[i].1)
    } else {
        attr_lookup_from(attrs, name, i + 1)
    }
}

/// The value of the first attribute with the given name, if any.
pub open spec fn attr_lookup(attrs: Seq<(String, String)>, name: Seq<char>) -> Option<String> {
    attr_lookup_from(attrs, name, 0)
}

/// Extracts a required attribute value.
pub fn extract_attribute(attrs: &Vec<(String, String)>, name: &str) -> (r: Result<
    String,
    BPMNParseError,
>)
    ensures
        match attr_lookup(attrs@, name@) {
            Some(v) => r matches Ok(x) && x == v,
            None => r matches Err(BPMNParseError::XmlParseError(m)) && m@ == "Attribute "@ + name@
                + " not found"@,
        },
{
    let n = attrs.len();
    let mut i: usize = 0;
    while i < n
        invariant
            n == attrs@.len(),
            0 <= i <= n,
            attr_lookup(attrs@, name@) == attr_lookup_from(attrs@, name@, i as int),
        decreases n - i,
    {
        if str_eq(attrs[i].0.as_str(), name) {
            return Ok(attrs[i].1.clone());
        }
        i += 1;
    }
    proof {
        reveal_strlit(" not found");
    }
    Err(
        BPMNParseError::XmlParseError(
            String::from_str("Attribute ").concat(name).concat(" not found"),
        ),
    )
}

/// Extracts an optional attribute value.
pub fn extract_optional_attribute(attrs: &Vec<(String, String)>, name: &str) -> (r: Result<
    Option<String>,
    BPMNParseError,
>)
    ensures
        r matches Ok(v) && v == attr_lookup(attrs@, name@),
{
    let n = attrs.len();
    let mut i: usize = 0;
    while i < n
        invariant
            n == attrs@.len(),
            0 <= i <= n,
            attr_lookup(attrs@, name@) == attr_lookup_from(attrs@, name@, i as int),
        decreases n - i,
    {
        if str_eq(attrs[i].0.as_str(), name) {
            return Ok(Some(attrs[i].1.clone()));
        }
        i += 1;
    }
    Ok(None)
}

/// `a` equals `b_lower` up to uppercasing of ASCII letters in `a`;
/// `b_lower` is expected to hold lowercase letters only.
pub open spec fn ci_eq(a: Seq<char>, b_lower: Seq<char>) -> bool {
    a.len() == b_lower.len() && forall|i: int|
        0 <= i < a.len() ==> a[i] == b_lower[i] || a[i] as u32 + 32 == b_lower[i] as u32
}

/// Compares a string against a lowercase pattern, ignoring ASCII case.
pub fn ci_match(s: &str, lower: &str) -> (r: bool)
    ensures
        r <==> ci_eq(s@, lower@),
{
    let n = s.unicode_len();
    if n != lower.unicode_len() {
        return false;
    }
    let mut i: usize = 0;
    while i < n
        invariant
            n == s@.len(),
            n == lower@.len(),
            0 <= i <= n,
            forall|j: int| 0 <= j < i ==> s@[j] == lower@[j] || s@[j] as u32 + 32 == lower@[j] as u32,
        decreases n - i,
    {
        let c = s.get_char(i) as u32;
        let l = lower.get_char(i) as u32;
        if !(c == l || c + 32 == l) {
            proof {
                assert(!(s@[i as int] == lower@[i as int] || s@[i as int] as u32 + 32 == lower@[
                    i as int
                ] as u32));
            }
            return false;
        }
        i += 1;
    }
    true
}

/// Reads a boolean attribute value, ignoring ASCII case.
pub open spec fn spec_bool_of(s: Seq<char>) -> Option<bool> {
    if ci_eq(s, "true"@) {
        Some(true)
    } else if ci_eq(s, "false"@) {
        Some(false)
    } else {
        None
    }
}

/// Tests a string as a boolean value, ignoring ASCII case.
fn bool_of(s: &str) -> (r: Option<bool>)
    ensures
        r == spec_bool_of(s@),
{
    if ci_match(s, "true") {
        Some(true)
    } else if ci_match(s, "false") {
        Some(false)
    } else {
        None
    }
}

/// Extracts a required boolean attribute.
pub fn extract_bool_attribute(attrs: &Vec<(String, String)>, name: &str) -> (r: Result<
    bool,
    BPMNParseError,
>)
    ensures
        match attr_lookup(attrs@, name@) {
            Some(v) => match spec_bool_of(v@) {
                Some(b) => r == Ok::<bool, BPMNParseError>(b),
                None => r matches Err(BPMNParseError::XmlParseError(m)) && m@ == v@,
            },
            None => r matches Err(BPMNParseError::XmlParseError(_)),
        },
{
    let v = match extract_attribute(attrs, name) {
        Ok(v) => v,
        Err(e) => {
            return Err(e);
        }
    };
    match bool_of(v.as_str()) {
        Some(b) => Ok(b),
        None => Err(BPMNParseError::XmlParseError(v)),
    }
}

/// Extracts an optional boolean attribute; an absent or unreadable value
/// reads as absent.
pub fn extract_optional_bool_attribute(attrs: &Vec<(String, String)>, name: &str) -> (r: Result<
    Option<bool>,
    BPMNParseError,
>)
    ensures
        r matches Ok(v) && v == (match attr_lookup(attrs@, name@) {
            Some(s) => spec_bool_of(s@),
            None => None,
        }),
{
    match extract_optional_attribute(attrs, name) {
        Ok(Some(v)) => Ok(bool_of(v.as_str())),
        Ok(None) => Ok(None),
        Err(e) => Err(e),
    }
}

/// What one parsed flow object element means: the kind of node it
/// declares, with the declared payload.
pub enum ParsedKind {
    UserTaskNode { name: Seq<char> },
    StartEventNode { name: Seq<char> },
    EndEventNode { name: Seq<char> },
    IntermediateEventNode { name: Seq<char> },
    ExclusiveNode { name: Seq<char>, direction: GatewayDirection, default_flow: Option<Seq<char>> },
    ParallelNode { name: Seq<char>, direction: GatewayDirection },
    InclusiveNode { name: Seq<char>, direction: GatewayDirection, default_flow: Option<Seq<char>> },
    ComplexNode { name: Seq<char>, direction: GatewayDirection, conditions: Seq<Seq<char>> },
    EventBasedNode {
        name: Seq<char>,
        direction: GatewayDirection,
        event_gateway_type: EventBasedGatewayType,
        instantiate: bool,
    },
}

/// A parsed flow object: its identifier and its meaning.
pub struct ParsedFlowObject {
    pub id: Seq<char>,
    pub kind: ParsedKind,
}

/// A parsed sequence flow: its identifier, endpoints, immediacy, and
/// optional condition (language and source text).
pub struct ParsedFlow {
    pub id: Seq<char>,
    pub source_ref: Seq<char>,
    pub target_ref: Seq<char>,
    pub is_immediate: ImmediateFlag,
    pub condition: Option<(ScriptType, Seq<char>)>,
}

/// The flow object realizes the parsed element.
pub open spec fn matches_parsed_fo(fo: FlowObject, p: ParsedFlowObject) -> bool {
    fo.id@ == p.id && match p.kind {
        ParsedKind::UserTaskNode { name } => fo.flow_object_type matches FlowObjectType::Activity(
            ActivityType::Task(TaskType::UserTask(t)),
        ) && t.name@ == name && t.task_type == task::Type::UserTask,
        ParsedKind::StartEventNode { name } => fo.flow_object_type matches FlowObjectType::Event(
            EventType::StartEvent(e),
        ) && e.name@ == name && e.event_type == event::Type::StartEvent,
        ParsedKind::EndEventNode { name } => fo.flow_object_type matches FlowObjectType::Event(
            EventType::EndEvent(e),
        ) && e.name@ == name && e.event_type == event::Type::EndEvent,
        ParsedKind::IntermediateEventNode { name } => fo.flow_object_type
            matches FlowObjectType::Event(EventType::IntermediateEvent(e)) && e.name@ == name
            && e.event_type == event::Type::IntermediateEvent,
        ParsedKind::ExclusiveNode { name, direction, default_flow } => fo.flow_object_type
            matches FlowObjectType::Gateway(GatewayType::ExclusiveGateway(g)) && g.name@ == name
            && g.direction == direction && (match default_flow {
            Some(d) => g.default_flow matches Some(gd) && gd@ == d,
            None => g.default_flow is None,
        }),
        ParsedKind::ParallelNode { name, direction } => fo.flow_object_type
            matches FlowObjectType::Gateway(GatewayType::ParallelGateway(g)) && g.name@ == name
            && g.direction == direction,
        ParsedKind::InclusiveNode { name, direction, default_flow } => fo.flow_object_type
            matches FlowObjectType::Gateway(GatewayType::InclusiveGateway(g)) && g.name@ == name
            && g.direction == direction && (match default_flow {
            Some(d) => g.default_flow matches Some(gd) && gd@ == d,
            None => g.default_flow is None,
        }),
        ParsedKind::ComplexNode { name, direction, conditions } => fo.flow_object_type
            matches FlowObjectType::Gateway(GatewayType::ComplexGateway(g)) && g.name@ == name
            && g.direction == direction && g.activation_conditions@.len() == conditions.len() && (
        forall|i: int|
            0 <= i < conditions.len() ==> g.activation_conditions@[i]@ == conditions[i]),
        ParsedKind::EventBasedNode { name, direction, event_gateway_type, instantiate } => fo.flow_object_type
            matches FlowObjectType::Gateway(GatewayType::EventBasedGateway(g)) && g.name@ == name
            && g.direction == direction && g.event_gateway_type == event_gateway_type
            && g.instantiate == instantiate,
    }
}

/// The sequence flow realizes the parsed element.
pub open spec fn matches_parsed_flow(f: SequenceFlow, p: ParsedFlow) -> bool {
    &&& f@.id == p.id
    &&& f@.source_ref == p.source_ref
    &&& f@.target_ref == p.target_ref
    &&& f@.is_immediate == p.is_immediate
    &&& match p.condition {
        Some((st, txt)) => f@.behavior matches SequenceFlowBehavior::Conditional(c)
            && c.spec_condition() matches Some(sc) && spec_script_type(sc) == st
            && spec_script_text(sc) == txt,
        None => f@.behavior is Normal,
    }
}

/// Some parsed flow object carries the given identifier.
pub open spec fn contains_parsed_id(fos: Seq<ParsedFlowObject>, id: Seq<char>) -> bool {
    exists|i: int| 0 <= i < fos.len() && fos[i].id == id
}

/// The language and text of an optional script.
pub open spec fn script_pair(o: Option<Script>) -> Option<(ScriptType, Seq<char>)> {
    match o {
        Some(s) => Some((spec_script_type(s), spec_script_text(s))),
        None => None,
    }
}

/// What a task element declares, if well-formed: a user task with the
/// given identifier and name.
pub open spec fn task_parsed(attrs: Seq<(String, String)>) -> Option<ParsedFlowObject> {
    match attr_lookup(attrs, "id"@) {
        None => None,
        Some(id) => match attr_lookup(attrs, "name"@) {
            None => None,
            Some(name) => Some(
                ParsedFlowObject { id: id@, kind: ParsedKind::UserTaskNode { name: name@ } },
            ),
        },
    }
}

/// The event kind named by a tag, ignoring ASCII case.
pub open spec fn event_kind_from_tag(tag: Seq<char>) -> Option<event::Type> {
    if ci_eq(tag, "startevent"@) {
        Some(event::Type::StartEvent)
    } else if ci_eq(tag, "endevent"@) {
        Some(event::Type::EndEvent)
    } else if ci_eq(tag, "intermediateevent"@) {
        Some(event::Type::IntermediateEvent)
    } else {
        None
    }
}

/// What an event element declares, if well-formed.
pub open spec fn event_parsed(tag: Seq<char>, attrs: Seq<(String, String)>) -> Option<
    ParsedFlowObject,
> {
    match event_kind_from_tag(tag) {
        None => None,
        Some(k) => match attr_lookup(attrs, "id"@) {
            None => None,
            Some(id) => match attr_lookup(attrs, "name"@) {
                None => None,
                Some(name) => Some(
                    ParsedFlowObject {
                        id: id@,
                        kind: match k {
                            event::Type::StartEvent => ParsedKind::StartEventNode { name: name@ },
                            event::Type::EndEvent => ParsedKind::EndEventNode { name: name@ },
                            event::Type::IntermediateEvent => ParsedKind::IntermediateEventNode {
                                name: name@,
                            },
                        },
                    },
                ),
            },
        },
    }
}

/// The gateway kind named by a tag, ignoring ASCII case.
pub open spec fn gateway_kind_from_tag(tag: Seq<char>) -> Option<crate::gateway::Type> {
    if ci_eq(tag, "exclusivegateway"@) {
        Some(crate::gateway::Type::ExclusiveGateway)
    } else if ci_eq(tag, "parallelgateway"@) {
        Some(crate::gateway::Type::ParallelGateway)
    } else if ci_eq(tag, "complexgateway"@) {
        Some(crate::gateway::Type::ComplexGateway)
    } else if ci_eq(tag, "eventbasedgateway"@) {
        Some(crate::gateway::Type::EventBasedGateway)
    } else if ci_eq(tag, "inclusivegateway"@) {
        Some(crate::gateway::Type::InclusiveGateway)
    } else {
        None
    }
}

/// The gateway direction named exactly by a string.
pub open spec fn direction_from(s: Seq<char>) -> Option<GatewayDirection> {
    if s == "Unspecified"@ {
        Some(GatewayDirection::Unspecified)
    } else if s == "Converging"@ {
        Some(GatewayDirection::Converging)
    } else if s == "Diverging"@ {
        Some(GatewayDirection::Diverging)
    } else if s == "Mixed"@ {
        Some(GatewayDirection::Mixed)
    } else {
        None
    }
}

/// The declared direction of a gateway element: absent reads as
/// unspecified, an unknown word does not parse.
pub open spec fn direction_of_attrs(attrs: Seq<(String, String)>) -> Option<GatewayDirection> {
    match attr_lookup(attrs, "gatewayDirection"@) {
        None => Some(GatewayDirection::Unspecified),
        Some(s) => direction_from(s@),
    }
}

/// The event-based gateway flavor named exactly by a string.
pub open spec fn egt_from(s: Seq<char>) -> Option<EventBasedGatewayType> {
    if s == "Exclusive"@ {
        Some(EventBasedGatewayType::Exclusive)
    } else if s == "Parallel"@ {
        Some(EventBasedGatewayType::Parallel)
    } else {
        None
    }
}

/// What a gateway element declares, if well-formed; `conditions` are the
/// activation condition texts collected from a complex gateway's
/// children.
pub open spec fn gateway_parsed(
    tag: Seq<char>,
    attrs: Seq<(String, String)>,
    conditions: Seq<String>,
) -> Option<ParsedFlowObject> {
    match gateway_kind_from_tag(tag) {
        None => None,
        Some(k) => match (attr_lookup(attrs, "id"@), attr_lookup(attrs, "name"@)) {
            (Some(id), Some(name)) => match direction_of_attrs(attrs) {
                None => None,
                Some(direction) => match k {
                    crate::gateway::Type::ExclusiveGateway => Some(
                        ParsedFlowObject {
                            id: id@,
                            kind: ParsedKind::ExclusiveNode {
                                name: name@,
                                direction,
                                default_flow: match attr_lookup(attrs, "default"@) {
                                    Some(d) => Some(d@),
                                    None => None,
                                },
                            },
                        },
                    ),
                    crate::gateway::Type::ParallelGateway => Some(
                        ParsedFlowObject {
                            id: id@,
                            kind: ParsedKind::ParallelNode { name: name@, direction },
                        },
                    ),
                    crate::gateway::Type::InclusiveGateway => Some(
                        ParsedFlowObject {
                            id: id@,
                            kind: ParsedKind::InclusiveNode {
                                name: name@,
                                direction,
                                default_flow: match attr_lookup(attrs, "default"@) {
                                    Some(d) => Some(d@),
                                    None => None,
                                },
                            },
                        },
                    ),
                    crate::gateway::Type::ComplexGateway => Some(
                        ParsedFlowObject {
                            id: id@,
                            kind: ParsedKind::ComplexNode {
                                name: name@,
                                direction,
                                conditions: conditions.map_values(|s: String| s@),
                            },
                        },
                    ),
                    crate::gateway::Type::EventBasedGateway => match attr_lookup(
                        attrs,
                        "eventGatewayType"@,
                    ) {
                        None => None,
                        Some(e) => match egt_from(e@) {
                            None => None,
                            Some(egt) => match attr_lookup(attrs, "instantiate"@) {
                                None => None,
                                Some(iv) => match spec_bool_of(iv@) {
                                    None => None,
                                    Some(inst) => Some(
                                        ParsedFlowObject {
                                            id: id@,
                                            kind: ParsedKind::EventBasedNode {
                                                name: name@,
                                                direction,
                                                event_gateway_type: egt,
                                                instantiate: inst,
                                            },
                                        },
                                    ),
                                },
                            },
                        },
                    },
                },
            },
            _ => None,
        },
    }
}

/// What a sequence flow element declares, if well-formed, given the
/// condition read from its children.
pub open spec fn flow_parsed(
    attrs: Seq<(String, String)>,
    condition: Option<(ScriptType, Seq<char>)>,
) -> Option<ParsedFlow> {
    match (
        attr_lookup(attrs, "id"@),
        attr_lookup(attrs, "sourceRef"@),
        attr_lookup(attrs, "targetRef"@),
    ) {
        (Some(id), Some(src), Some(tgt)) => Some(
            ParsedFlow {
                id: id@,
                source_ref: src@,
                target_ref: tgt@,
                is_immediate: match attr_lookup(attrs, "isImmediate"@) {
                    Some(v) => match spec_bool_of(v@) {
                        Some(true) => ImmediateFlag::Immediate,
                        _ => ImmediateFlag::NonImmediate,
                    },
                    None => ImmediateFlag::NonImmediate,
                },
                condition,
            },
        ),
        _ => None,
    }
}

/// `post` is `pre` with one flow object appended that realizes `pfo`,
/// everything else untouched.
pub open spec fn fo_appended(pre: ProcessView, post: ProcessView, pfo: ParsedFlowObject) -> bool {
    &&& post.flow_objects.len() == pre.flow_objects.len() + 1
    &&& post.flow_objects.drop_last() == pre.flow_objects
    &&& matches_parsed_fo(post.flow_objects.last(), pfo)
    &&& post == (ProcessView { flow_objects: post.flow_objects, ..pre })
}

/// `post` is `pre` with one sequence flow appended that realizes `pf`,
/// everything else untouched.
pub open spec fn flow_appended(pre: ProcessView, post: ProcessView, pf: ParsedFlow) -> bool {
    &&& post.sequence_flows.len() == pre.sequence_flows.len() + 1
    &&& post.sequence_flows.drop_last() == pre.sequence_flows
    &&& matches_parsed_flow(post.sequence_flows.last(), pf)
    &&& post == (ProcessView { sequence_flows: post.sequence_flows, ..pre })
}

/// Parses a task element and adds it to the process. Every task element
/// is read as a user task; its kind is not taken from the markup.
pub fn parse_task_element(process: &mut Process, attrs: &Vec<(String, String)>) -> (r: Result<
    (),
    BPMNParseError,
>)
    ensures
        match task_parsed(attrs@) {
            None => r matches Err(BPMNParseError::XmlParseError(_)) && *final(process) == *old(
                process,
            ),
            Some(pfo) => if contains_fo_id(old(process)@.flow_objects, pfo.id) {
                r matches Err(BPMNParseError::ProcessError(ProcessError::FlowObjectAlreadyExists(_)))
                    && *final(process) == *old(process)
            } else {
                r is Ok && fo_appended(old(process)@, final(process)@, pfo)
            },
        },
{
    let id = match extract_attribute(attrs, "id") {
        Ok(v) => v,
        Err(e) => {
            return Err(e);
        }
    };
    let name = match extract_attribute(attrs, "name") {
        Ok(v) => v,
        Err(e) => {
            return Err(e);
        }
    };
    let tsk = Task { name, task_type: task::Type::UserTask };
    let flow_object = FlowObject {
        id,
        flow_object_type: FlowObjectType::Activity(ActivityType::Task(TaskType::UserTask(tsk))),
    };
    match process.add_flow_object(flow_object) {
        Ok(()) => {
            proof {
                assert(process@.flow_objects.drop_last() =~= old(process)@.flow_objects);
                assert(matches_parsed_fo(
                    process@.flow_objects.last(),
                    task_parsed(attrs@)->0,
                ));
            }
            Ok(())
        }
        Err(e) => Err(BPMNParseError::ProcessError(e)),
    }
}

/// Parses an event element named by its tag and adds it to the process.
pub fn parse_event_element(process: &mut Process, tag: &str, attrs: &Vec<(String, String)>) -> (r:
    Result<(), BPMNParseError>)
    ensures
        match event_parsed(tag@, attrs@) {
            None => r is Err && *final(process) == *old(process),
            Some(pfo) => if contains_fo_id(old(process)@.flow_objects, pfo.id) {
                r matches Err(BPMNParseError::ProcessError(ProcessError::FlowObjectAlreadyExists(_)))
                    && *final(process) == *old(process)
            } else {
                r is Ok && fo_appended(old(process)@, final(process)@, pfo)
            },
        },
{
    let kind: Option<event::Type> = if ci_match(tag, "startevent") {
        Some(event::Type::StartEvent)
    } else if ci_match(tag, "endevent") {
        Some(event::Type::EndEvent)
    } else if ci_match(tag, "intermediateevent") {
        Some(event::Type::IntermediateEvent)
    } else {
        None
    };
    let kind = match kind {
        Some(k) => k,
        None => {
            return Err(
                BPMNParseError::EnumParseError(
                    crate::errors::EnumParseError {
                        message: String::from_str("Unknown event element: ").concat(tag),
                    },
                ),
            );
        }
    };
    let id = match extract_attribute(attrs, "id") {
        Ok(v) => v,
        Err(e) => {
            return Err(e);
        }
    };
    let name = match extract_attribute(attrs, "name") {
        Ok(v) => v,
        Err(e) => {
            return Err(e);
        }
    };
    let ev = Event { name, event_type: kind };
    let event_type = match kind {
        event::Type::StartEvent => EventType::StartEvent(ev),
        event::Type::EndEvent => EventType::EndEvent(ev),
        event::Type::IntermediateEvent => EventType::IntermediateEvent(ev),
    };
    let flow_object = FlowObject { id, flow_object_type: FlowObjectType::Event(event_type) };
    match process.add_flow_object(flow_object) {
        Ok(()) => {
            proof {
                assert(process@.flow_objects.drop_last() =~= old(process)@.flow_objects);
                assert(matches_parsed_fo(
                    process@.flow_objects.last(),
                    event_parsed(tag@, attrs@)->0,
                ));
            }
            Ok(())
        }
        Err(e) => Err(BPMNParseError::ProcessError(e)),
    }
}

/// Reads the declared gateway direction from the attributes.
fn read_direction(attrs: &Vec<(String, String)>) -> (r: Result<GatewayDirection, BPMNParseError>)
    ensures
        match direction_of_attrs(attrs@) {
            Some(d) => r == Ok::<GatewayDirection, BPMNParseError>(d),
            None => r is Err,
        },
{
    match extract_optional_attribute(attrs, "gatewayDirection") {
        Ok(Some(s)) => {
            if str_eq(s.as_str(), "Unspecified") {
                Ok(GatewayDirection::Unspecified)
            } else if str_eq(s.as_str(), "Converging") {
                Ok(GatewayDirection::Converging)
            } else if str_eq(s.as_str(), "Diverging") {
                Ok(GatewayDirection::Diverging)
            } else if str_eq(s.as_str(), "Mixed") {
                Ok(GatewayDirection::Mixed)
            } else {
                Err(
                    BPMNParseError::EnumParseError(
                        crate::errors::EnumParseError {
                            message: String::from_str("Unknown gateway direction: ").concat(
                                s.as_str(),
                            ),
                        },
                    ),
                )
            }
        }
        Ok(None) => Ok(GatewayDirection::Unspecified),
        Err(e) => Err(e),
    }
}

/// Parses a gateway element named by its tag and adds it to the process;
/// `activation_conditions` carries the condition texts collected from a
/// complex gateway's children.
pub fn parse_gateway_element(
    process: &mut Process,
    tag: &str,
    attrs: &Vec<(String, String)>,
    activation_conditions: Vec<String>,
) -> (r: Result<(), BPMNParseError>)
    ensures
        match gateway_parsed(tag@, attrs@, activation_conditions@) {
            None => r is Err && *final(process) == *old(process),
            Some(pfo) => if contains_fo_id(old(process)@.flow_objects, pfo.id) {
                r matches Err(BPMNParseError::ProcessError(ProcessError::FlowObjectAlreadyExists(_)))
                    && *final(process) == *old(process)
            } else {
                r is Ok && fo_appended(old(process)@, final(process)@, pfo)
            },
        },
{
    let kind: Option<crate::gateway::Type> = if ci_match(tag, "exclusivegateway") {
        Some(crate::gateway::Type::ExclusiveGateway)
    } else if ci_match(tag, "parallelgateway") {
        Some(crate::gateway::Type::ParallelGateway)
    } else if ci_match(tag, "complexgateway") {
        Some(crate::gateway::Type::ComplexGateway)
    } else if ci_match(tag, "eventbasedgateway") {
        Some(crate::gateway::Type::EventBasedGateway)
    } else if ci_match(tag, "inclusivegateway") {
        Some(crate::gateway::Type::InclusiveGateway)
    } else {
        None
    };
    let kind = match kind {
        Some(k) => k,
        None => {
            return Err(
                BPMNParseError::EnumParseError(
                    crate::errors::EnumParseError {
                        message: String::from_str("Unknown gateway element: ").concat(tag),
                    },
                ),
            );
        }
    };
    let id = match extract_attribute(attrs, "id") {
        Ok(v) => v,
        Err(e) => {
            return Err(e);
        }
    };
    let name = match extract_attribute(attrs, "name") {
        Ok(v) => v,
        Err(e) => {
            return Err(e);
        }
    };
    let direction = match read_direction(attrs) {
        Ok(d) => d,
        Err(e) => {
            return Err(e);
        }
    };
    let gateway_type: GatewayType = match kind {
        crate::gateway::Type::ExclusiveGateway => {
            let default_flow = match extract_optional_attribute(attrs, "default") {
                Ok(v) => v,
                Err(e) => {
                    return Err(e);
                }
            };
            GatewayType::ExclusiveGateway(ExclusiveGateway { name, direction, default_flow })
        }
        crate::gateway::Type::ParallelGateway => GatewayType::ParallelGateway(
            ParallelGateway { name, direction },
        ),
        crate::gateway::Type::InclusiveGateway => {
            let default_flow = match extract_optional_attribute(attrs, "default") {
                Ok(v) => v,
                Err(e) => {
                    return Err(e);
                }
            };
            GatewayType::InclusiveGateway(InclusiveGateway { name, direction, default_flow })
        }
        crate::gateway::Type::ComplexGateway => GatewayType::ComplexGateway(
            ComplexGateway { name, direction, activation_conditions },
        ),
        crate::gateway::Type::EventBasedGateway => {
            let egt_str = match extract_attribute(attrs, "eventGatewayType") {
                Ok(v) => v,
                Err(e) => {
                    return Err(e);
                }
            };
            let event_gateway_type = if str_eq(egt_str.as_str(), "Exclusive") {
                EventBasedGatewayType::Exclusive
            } else if str_eq(egt_str.as_str(), "Parallel") {
                EventBasedGatewayType::Parallel
            } else {
                return Err(
                    BPMNParseError::XmlParseError(String::from_str("Invalid eventGatewayType")),
                );
            };
            let instantiate = match extract_bool_attribute(attrs, "instantiate") {
                Ok(b) => b,
                Err(e) => {
                    return Err(e);
                }
            };
            GatewayType::EventBasedGateway(
                EventBasedGateway { name, direction, event_gateway_type, instantiate },
            )
        }
    };
    let flow_object = FlowObject { id, flow_object_type: FlowObjectType::Gateway(gateway_type) };
    match process.add_flow_object(flow_object) {
        Ok(()) => {
            proof {
                assert(process@.flow_objects.drop_last() =~= old(process)@.flow_objects);
                assert(matches_parsed_fo(
                    process@.flow_objects.last(),
                    gateway_parsed(tag@, attrs@, activation_conditions@)->0,
                ));
            }
            Ok(())
        }
        Err(e) => Err(BPMNParseError::ProcessError(e)),
    }
}

/// Parses a sequence flow element and adds it to the process, with the
/// condition read from its children, if any.
pub fn parse_sequence_flow_element(
    process: &mut Process,
    attrs: &Vec<(String, String)>,
    condition: Option<Script>,
) -> (r: Result<(), BPMNParseError>)
    ensures
        match flow_parsed(attrs@, script_pair(condition)) {
            None => r is Err && *final(process) == *old(process),
            Some(pf) => r is Ok && flow_appended(old(process)@, final(process)@, pf),
        },
{
    let id = match extract_attribute(attrs, "id") {
        Ok(v) => v,
        Err(e) => {
            return Err(e);
        }
    };
    let source_ref = match extract_attribute(attrs, "sourceRef") {
        Ok(v) => v,
        Err(e) => {
            return Err(e);
        }
    };
    let target_ref = match extract_attribute(attrs, "targetRef") {
        Ok(v) => v,
        Err(e) => {
            return Err(e);
        }
    };
    let is_immediate = match extract_optional_bool_attribute(attrs, "isImmediate") {
        Ok(Some(true)) => ImmediateFlag::Immediate,
        Ok(_) => ImmediateFlag::NonImmediate,
        Err(e) => {
            return Err(e);
        }
    };
    let mut sequence_flow = SequenceFlow::new();
    sequence_flow.set_id(id);
    sequence_flow.set_source_ref(source_ref);
    sequence_flow.set_target_ref(target_ref);
    sequence_flow.set_is_immediate(is_immediate);
    let has_condition = match &condition {
        Some(_) => true,
        None => false,
    };
    if has_condition {
        sequence_flow.as_conditional(condition);
    } else {
        sequence_flow.as_normal();
    }
    process.add_sequence_flow(sequence_flow);
    proof {
        assert(process@.sequence_flows.drop_last() =~= old(process)@.sequence_flows);
        assert(matches_parsed_flow(
            process@.sequence_flows.last(),
            flow_parsed(attrs@, script_pair(condition))->0,
        ));
    }
    Ok(())
}

/// What the attributes of a process element set: the process type,
/// executability, open or closed state, and collaboration reference.
pub struct ProcessSettings {
    pub process_type: ProcessType,
    pub executable_status: ExecutableStatus,
    pub process_state: ProcessState,
    pub collaboration_ref: Option<Seq<char>>,
}

/// What a process element's attributes declare, if well-formed.
pub open spec fn process_settings_parsed(attrs: Seq<(String, String)>) -> Option<ProcessSettings> {
    let pt = match attr_lookup(attrs, "processType"@) {
        None => Some(ProcessType::Private),
        Some(s) => if s@ == "Private"@ {
            Some(ProcessType::Private)
        } else if s@ == "Public"@ {
            Some(ProcessType::Public)
        } else {
            None
        },
    };
    match pt {
        None => None,
        Some(process_type) => Some(
            ProcessSettings {
                process_type,
                executable_status: match attr_lookup(attrs, "isExecutable"@) {
                    Some(v) => if spec_bool_of(v@) == Some(true) {
                        ExecutableStatus::Executable
                    } else {
                        ExecutableStatus::NonExecutable
                    },
                    None => ExecutableStatus::NonExecutable,
                },
                process_state: match attr_lookup(attrs, "isClosed"@) {
                    Some(v) => if spec_bool_of(v@) == Some(true) {
                        ProcessState::Closed
                    } else {
                        ProcessState::Open
                    },
                    None => ProcessState::Open,
                },
                collaboration_ref: match attr_lookup(
                    attrs,
                    "definitionalCollaborationRef"@,
                ) {
                    Some(v) => Some(v@),
                    None => None,
                },
            },
        ),
    }
}

/// The process metadata reflects the settings; the collaboration
/// reference is only written when declared.
pub open spec fn settings_applied(
    pre: ProcessView,
    post: ProcessView,
    st: ProcessSettings,
) -> bool {
    &&& post.process_type == st.process_type
    &&& post.executable_status == st.executable_status
    &&& post.process_state == st.process_state
    &&& match st.collaboration_ref {
        Some(c) => post.definitional_collaboration_ref matches CollaborationRef::Defined(s) && s@
            == c,
        None => post.definitional_collaboration_ref == pre.definitional_collaboration_ref,
    }
    &&& post == (ProcessView {
        process_type: post.process_type,
        executable_status: post.executable_status,
        process_state: post.process_state,
        definitional_collaboration_ref: post.definitional_collaboration_ref,
        ..pre
    })
}

/// Applies a process element's attributes to the process metadata.
pub fn parse_process_element(process: &mut Process, attrs: &Vec<(String, String)>) -> (r: Result<
    (),
    BPMNParseError,
>)
    ensures
        match process_settings_parsed(attrs@) {
            None => r is Err && *final(process) == *old(process),
            Some(st) => r is Ok && settings_applied(old(process)@, final(process)@, st),
        },
{
    let process_type = match extract_optional_attribute(attrs, "processType") {
        Ok(Some(s)) => {
            if str_eq(s.as_str(), "Private") {
                ProcessType::Private
            } else if str_eq(s.as_str(), "Public") {
                ProcessType::Public
            } else {
                return Err(
                    BPMNParseError::EnumParseError(
                        crate::errors::EnumParseError {
                            message: String::from_str("Unknown process type: ").concat(s.as_str()),
                        },
                    ),
                );
            }
        }
        Ok(None) => ProcessType::Private,
        Err(e) => {
            return Err(e);
        }
    };
    let is_executable = match extract_optional_bool_attribute(attrs, "isExecutable") {
        Ok(v) => v,
        Err(e) => {
            return Err(e);
        }
    };
    let is_closed = match extract_optional_bool_attribute(attrs, "isClosed") {
        Ok(Some(b)) => b,
        Ok(None) => false,
        Err(e) => {
            return Err(e);
        }
    };
    let collaboration_ref = match extract_optional_attribute(attrs, "definitionalCollaborationRef")
    {
        Ok(v) => v,
        Err(e) => {
            return Err(e);
        }
    };
    process.set_process_type(process_type);
    process.set_executable_status(
        match is_executable {
            Some(true) => ExecutableStatus::Executable,
            _ => ExecutableStatus::NonExecutable,
        },
    );
    process.set_process_state(
        if is_closed {
            ProcessState::Closed
        } else {
            ProcessState::Open
        },
    );
    match collaboration_ref {
        Some(collab_ref) => {
            process.set_definitional_collaboration_ref(CollaborationRef::Defined(collab_ref));
        }
        None => {}
    }
    Ok(())
}

/// The character counts as trimmable space.
pub open spec fn is_space_char(c: char) -> bool {
    c == ' ' || c == '\t' || c == '\n' || c == '\r'
}

/// The first index at or after `i` holding something other than space.
pub open spec fn first_non_space(s: Seq<char>, i: int) -> int
    decreases s.len() - i,
{
    if i < 0 || i >= s.len() {
        s.len() as int
    } else if is_space_char(s[i]) {
        first_non_space(s, i + 1)
    } else {
        i
    }
}

/// One past the last index below `j` holding something other than space.
pub open spec fn last_non_space_end(s: Seq<char>, j: int) -> int
    decreases j,
{
    if j <= 0 || j > s.len() {
        0
    } else if is_space_char(s[j - 1]) {
        last_non_space_end(s, j - 1)
    } else {
        j
    }
}

/// The sequence with leading and trailing ASCII space removed.
pub open spec fn trim_spaces(s: Seq<char>) -> Seq<char> {
    let a = first_non_space(s, 0);
    let b = last_non_space_end(s, s.len() as int);
    if a >= b {
        Seq::<char>::empty()
    } else {
        s.subrange(a, b)
    }
}

/// Tests whether the character at `idx` is trimmable space.
fn is_space_at(s: &str, idx: usize) -> (r: bool)
    requires
        idx < s@.len(),
    ensures
        r == is_space_char(s@[idx as int]),
{
    let c = s.get_char(idx);
    c == ' ' || c == '\t' || c == '\n' || c == '\r'
}

/// Removes leading and trailing ASCII space from a string.
fn trim_text(s: &str) -> (r: String)
    ensures
        r@ == trim_spaces(s@),
{
    let n = s.unicode_len();
    let mut a: usize = 0;
    while a < n && is_space_at(s, a)
        invariant
            n == s@.len(),
            0 <= a <= n,
            first_non_space(s@, 0) == first_non_space(s@, a as int),
        decreases n - a,
    {
        a += 1;
    }
    proof {
        assert(first_non_space(s@, 0) == a);
    }
    let mut b: usize = n;
    while b > 0 && is_space_at(s, b - 1)
        invariant
            n == s@.len(),
            0 <= b <= n,
            last_non_space_end(s@, n as int) == last_non_space_end(s@, b as int),
        decreases b,
    {
        b -= 1;
    }
    proof {
        assert(last_non_space_end(s@, n as int) == b);
    }
    if a >= b {
        String::new()
    } else {
        String::from_str(s.substring_char(a, b))
    }
}

/// The first phase of reading a conditional flow: scanning for the
/// condition's opening tag. The result is the declared language (if
/// any), the next position, and whether the opening tag was seen; a
/// stray opening tag, an unknown language, or a typed-result declaration
/// does not parse.
pub open spec fn cond_first(events: Seq<XmlNode>, i: int) -> Option<(Option<ScriptType>, int, bool)>
    decreases events.len() - i,
{
    if i < 0 || i >= events.len() {
        Some((None, i, false))
    } else {
        match events[i] {
            XmlNode::Start { tag, attributes } => if tag@ == "conditionExpression"@ {
                if attr_lookup(attributes@, "evaluatesToTypeRef"@) is Some {
                    None
                } else {
                    match attr_lookup(attributes@, "language"@) {
                        None => Some((None, i + 1, true)),
                        Some(l) => match spec_from_schema_ref(l@) {
                            None => None,
                            Some(st) => Some((Some(st), i + 1, true)),
                        },
                    }
                }
            } else {
                None
            },
            XmlNode::Comment => cond_first(events, i + 1),
            XmlNode::PI => cond_first(events, i + 1),
            _ => Some((None, i, false)),
        }
    }
}

/// The second phase: reading the condition's text. Character data gives
/// the trimmed script text; anything else gives an empty script.
pub open spec fn cond_second(events: Seq<XmlNode>, i: int, lang: ScriptType) -> ((
    ScriptType,
    Seq<char>,
), int)
    decreases events.len() - i,
{
    if i < 0 || i >= events.len() {
        ((lang, Seq::<char>::empty()), i)
    } else {
        match events[i] {
            XmlNode::CData(text) => ((lang, trim_spaces(text@)), i + 1),
            XmlNode::Comment => cond_second(events, i + 1, lang),
            XmlNode::PI => cond_second(events, i + 1, lang),
            _ => ((lang, Seq::<char>::empty()), i + 1),
        }
    }
}

/// Reading the condition attached to a flow element that opened with a
/// start tag: the condition read and the next position, or nothing when
/// the events do not parse.
pub open spec fn cond_walk(events: Seq<XmlNode>, i: int) -> Option<(
    Option<(ScriptType, Seq<char>)>,
    int,
)> {
    match cond_first(events, i) {
        None => None,
        Some((lang_opt, j, _found)) => {
            let lang = match lang_opt {
                Some(l) => l,
                None => ScriptType::XPath,
            };
            let (pair, k) = cond_second(events, j, lang);
            Some((Some(pair), k))
        },
    }
}

/// Reads the condition of a sequence flow from the events that follow
/// its start tag. An empty element carries no condition and consumes
/// nothing.
pub fn extract_conditional_flow(
    events: &Vec<XmlNode>,
    pos: usize,
    xml_element_type: XmlElementType,
) -> (r: Result<(Option<Script>, usize), BPMNParseError>)
    requires
        pos <= events@.len(),
    ensures
        xml_element_type == XmlElementType::Empty ==> (r matches Ok((c, p)) && c is None && p
            == pos),
        xml_element_type != XmlElementType::Empty ==> match cond_walk(events@, pos as int) {
            None => r is Err,
            Some((cond, next)) => r matches Ok((c, p)) && p == next && script_pair(c) == cond,
        },
{
    if matches_empty(&xml_element_type) {
        return Ok((None, pos));
    }
    let first = match cond_first_exec(events, pos) {
        Ok(v) => v,
        Err(e) => {
            return Err(e);
        }
    };
    let (language, j, _found) = first;
    let script_language = match language {
        Some(l) => l,
        None => ScriptType::XPath,
    };
    let second = cond_second_exec(events, j, script_language);
    let (script_text, k) = second;
    let script = Script::new(script_text.as_str(), &script_language);
    Ok((Some(script), k))
}

/// Scans for the condition's opening tag, mirroring the first reading
/// phase.
fn cond_first_exec(events: &Vec<XmlNode>, i: usize) -> (r: Result<
    (Option<ScriptType>, usize, bool),
    BPMNParseError,
>)
    requires
        i <= events@.len(),
    ensures
        match cond_first(events@, i as int) {
            None => r is Err,
            Some((l, j, f)) => r matches Ok((lo, jo, fo)) && lo == l && jo as int == j && fo == f
                && jo <= events@.len(),
        },
    decreases events@.len() - i,
{
    if i >= events.len() {
        return Ok((None, i, false));
    }
    match &events[i] {
        XmlNode::Start { tag, attributes } => {
            if str_eq(tag.as_str(), "conditionExpression") {
                let ev = match extract_optional_attribute(attributes, "evaluatesToTypeRef") {
                    Ok(v) => v,
                    Err(e) => {
                        return Err(e);
                    }
                };
                if ev.is_some() {
                    return Err(
                        BPMNParseError::XmlParseError(
                            String::from_str("evaluatesToTypeRef not supported"),
                        ),
                    );
                }
                let lang_attr = match extract_optional_attribute(attributes, "language") {
                    Ok(v) => v,
                    Err(e) => {
                        return Err(e);
                    }
                };
                match lang_attr {
                    Some(l) => match ScriptType::from_schema_ref(l.as_str()) {
                        Ok(st) => Ok((Some(st), i + 1, true)),
                        Err(e) => Err(BPMNParseError::EnumParseError(e)),
                    },
                    None => Ok((None, i + 1, true)),
                }
            } else {
                Err(
                    BPMNParseError::XmlParseError(
                        String::from_str("Expected conditionExpression, got ").concat(
                            tag.as_str(),
                        ),
                    ),
                )
            }
        }
        XmlNode::Comment => cond_first_exec(events, i + 1),
        XmlNode::PI => cond_first_exec(events, i + 1),
        _ => Ok((None, i, false)),
    }
}

/// Reads the condition's text, mirroring the second reading phase.
fn cond_second_exec(events: &Vec<XmlNode>, i: usize, lang: ScriptType) -> (r: (String, usize))
    requires
        i <= events@.len(),
    ensures
        ({
            let ((l, txt), next) = cond_second(events@, i as int, lang);
            l == lang && r.1 as int == next && r.0@ == txt && r.1 <= events@.len()
        }),
    decreases events@.len() - i,
{
    if i >= events.len() {
        return (String::new(), i);
    }
    match &events[i] {
        XmlNode::CData(cdata) => (trim_text(cdata.as_str()), i + 1),
        XmlNode::Comment => cond_second_exec(events, i + 1, lang),
        XmlNode::PI => cond_second_exec(events, i + 1, lang),
        _ => (String::new(), i + 1),
    }
}

/// Tests the empty-element shape.
fn matches_empty(t: &XmlElementType) -> (r: bool)
    ensures
        r <==> *t == XmlElementType::Empty,
{
    match t {
        XmlElementType::Empty => true,
        _ => false,
    }
}

proof fn lemma_cond_first_bounds(events: Seq<XmlNode>, i: int)
    requires
        0 <= i <= events.len(),
    ensures
        cond_first(events, i) matches Some((_l, j, _f)) ==> i <= j <= events.len(),
    decreases events.len() - i,
{
    if i < events.len() {
        match events[i] {
            XmlNode::Comment => lemma_cond_first_bounds(events, i + 1),
            XmlNode::PI => lemma_cond_first_bounds(events, i + 1),
            _ => {}
        }
    }
}

proof fn lemma_cond_second_bounds(events: Seq<XmlNode>, i: int, lang: ScriptType)
    requires
        0 <= i <= events.len(),
    ensures
        i <= cond_second(events, i, lang).1 <= events.len(),
    decreases events.len() - i,
{
    if i < events.len() {
        match events[i] {
            XmlNode::Comment => lemma_cond_second_bounds(events, i + 1, lang),
            XmlNode::PI => lemma_cond_second_bounds(events, i + 1, lang),
            _ => {}
        }
    }
}

proof fn lemma_cond_walk_bounds(events: Seq<XmlNode>, i: int)
    requires
        0 <= i <= events.len(),
    ensures
        cond_walk(events, i) matches Some((_c, k)) ==> i <= k <= events.len(),
{
    lemma_cond_first_bounds(events, i);
    match cond_first(events, i) {
        Some((lang_opt, j, _f)) => {
            let lang = match lang_opt {
                Some(l) => l,
                None => ScriptType::XPath,
            };
            lemma_cond_second_bounds(events, j, lang);
        }
        None => {}
    }
}

/// The state accumulated while walking a process definition: the process
/// metadata and the elements parsed so far.
pub struct ParseState {
    pub process_type: ProcessType,
    pub executable_status: ExecutableStatus,
    pub process_state: ProcessState,
    pub collaboration_ref: Option<Seq<char>>,
    pub fos: Seq<ParsedFlowObject>,
    pub flows: Seq<ParsedFlow>,
}

/// The state before anything has been read: the documented defaults.
pub open spec fn init_parse_state() -> ParseState {
    ParseState {
        process_type: ProcessType::Private,
        executable_status: ExecutableStatus::NonExecutable,
        process_state: ProcessState::Open,
        collaboration_ref: None,
        fos: Seq::<ParsedFlowObject>::empty(),
        flows: Seq::<ParsedFlow>::empty(),
    }
}

/// Applies a process element's settings to the state.
pub open spec fn apply_settings(st: ParseState, s: ProcessSettings) -> ParseState {
    ParseState {
        process_type: s.process_type,
        executable_status: s.executable_status,
        process_state: s.process_state,
        collaboration_ref: match s.collaboration_ref {
            Some(c) => Some(c),
            None => st.collaboration_ref,
        },
        ..st
    }
}

/// One task element applied to the state: rejected when malformed or
/// when its identifier is already taken.
pub open spec fn task_step(attrs: Seq<(String, String)>, st: ParseState) -> Option<ParseState> {
    match task_parsed(attrs) {
        None => None,
        Some(pfo) => if contains_parsed_id(st.fos, pfo.id) {
            None
        } else {
            Some(ParseState { fos: st.fos.push(pfo), ..st })
        },
    }
}

/// One event element applied to the state.
pub open spec fn event_step(tag: Seq<char>, attrs: Seq<(String, String)>, st: ParseState) -> Option<
    ParseState,
> {
    match event_parsed(tag, attrs) {
        None => None,
        Some(pfo) => if contains_parsed_id(st.fos, pfo.id) {
            None
        } else {
            Some(ParseState { fos: st.fos.push(pfo), ..st })
        },
    }
}

/// One gateway element applied to the state; an empty element carries no
/// activation conditions.
pub open spec fn gateway_step(
    tag: Seq<char>,
    attrs: Seq<(String, String)>,
    st: ParseState,
) -> Option<ParseState> {
    match gateway_parsed(tag, attrs, Seq::<String>::empty()) {
        None => None,
        Some(pfo) => if contains_parsed_id(st.fos, pfo.id) {
            None
        } else {
            Some(ParseState { fos: st.fos.push(pfo), ..st })
        },
    }
}

/// Walks the children of a process element, applying each supported
/// element to the state, until the process's end tag. Unsupported
/// elements, malformed elements, and input that ends before the end tag
/// do not parse. The result carries the position just past the end tag.
pub open spec fn walk_children(events: Seq<XmlNode>, i: int, st: ParseState) -> Option<(
    ParseState,
    int,
)>
    decreases events.len() - i,
    via walk_children_decreases
{
    if i < 0 || i >= events.len() {
        None
    } else {
        match events[i] {
            XmlNode::Start { tag, attributes } => if tag@ == "task"@ {
                match task_step(attributes@, st) {
                    None => None,
                    Some(st2) => walk_children(events, i + 1, st2),
                }
            } else if tag@ == "sequenceFlow"@ {
                match cond_walk(events, i + 1) {
                    None => None,
                    Some((cond, k)) => match flow_parsed(attributes@, cond) {
                        None => None,
                        Some(pf) => walk_children(
                            events,
                            k,
                            ParseState { flows: st.flows.push(pf), ..st },
                        ),
                    },
                }
            } else {
                None
            },
            XmlNode::Empty { tag, attributes } => if tag@ == "startEvent"@ || tag@ == "endEvent"@ {
                match event_step(tag@, attributes@, st) {
                    None => None,
                    Some(st2) => walk_children(events, i + 1, st2),
                }
            } else if tag@ == "task"@ {
                match task_step(attributes@, st) {
                    None => None,
                    Some(st2) => walk_children(events, i + 1, st2),
                }
            } else if tag@ == "exclusiveGateway"@ || tag@ == "parallelGateway"@ {
                match gateway_step(tag@, attributes@, st) {
                    None => None,
                    Some(st2) => walk_children(events, i + 1, st2),
                }
            } else if tag@ == "sequenceFlow"@ {
                match flow_parsed(attributes@, None) {
                    None => None,
                    Some(pf) => walk_children(
                        events,
                        i + 1,
                        ParseState { flows: st.flows.push(pf), ..st },
                    ),
                }
            } else {
                None
            },
            XmlNode::End { tag } => if tag@ == "process"@ {
                Some((st, i + 1))
            } else {
                walk_children(events, i + 1, st)
            },
            _ => walk_children(events, i + 1, st),
        }
    }
}

#[via_fn]
proof fn walk_children_decreases(events: Seq<XmlNode>, i: int, st: ParseState) {
    if 0 <= i < events.len() {
        match events[i] {
            XmlNode::Start { tag, attributes } => {
                if tag@ == "sequenceFlow"@ {
                    lemma_cond_walk_bounds(events, i + 1);
                }
            }
            _ => {}
        }
    }
}

/// `Some((_st, j))` of a children walk stands past its starting point.
proof fn lemma_walk_children_bounds(events: Seq<XmlNode>, i: int, st: ParseState)
    requires
        0 <= i,
    ensures
        walk_children(events, i, st) matches Some((_st2, j)) ==> i < j <= events.len(),
    decreases events.len() - i,
{
    if 0 <= i < events.len() {
        match events[i] {
            XmlNode::Start { tag, attributes } => {
                if tag@ == "task"@ {
                    match task_step(attributes@, st) {
                        Some(st2) => lemma_walk_children_bounds(events, i + 1, st2),
                        None => {}
                    }
                } else if tag@ == "sequenceFlow"@ {
                    lemma_cond_walk_bounds(events, i + 1);
                    match cond_walk(events, i + 1) {
                        Some((cond, k)) => match flow_parsed(attributes@, cond) {
                            Some(pf) => {
                                lemma_walk_children_bounds(
                                    events,
                                    k,
                                    ParseState { flows: st.flows.push(pf), ..st },
                                );
                            }
                            None => {}
                        },
                        None => {}
                    }
                }
            }
            XmlNode::Empty { tag, attributes } => {
                if tag@ == "startEvent"@ || tag@ == "endEvent"@ {
                    match event_step(tag@, attributes@, st) {
                        Some(st2) => lemma_walk_children_bounds(events, i + 1, st2),
                        None => {}
                    }
                } else if tag@ == "task"@ {
                    match task_step(attributes@, st) {
                        Some(st2) => lemma_walk_children_bounds(events, i + 1, st2),
                        None => {}
                    }
                } else if tag@ == "exclusiveGateway"@ || tag@ == "parallelGateway"@ {
                    match gateway_step(tag@, attributes@, st) {
                        Some(st2) => lemma_walk_children_bounds(events, i + 1, st2),
                        None => {}
                    }
                } else if tag@ == "sequenceFlow"@ {
                    match flow_parsed(attributes@, None) {
                        Some(pf) => {
                            lemma_walk_children_bounds(
                                events,
                                i + 1,
                                ParseState { flows: st.flows.push(pf), ..st },
                            );
                        }
                        None => {}
                    }
                }
            }
            XmlNode::End { tag } => {
                if tag@ != "process"@ {
                    lemma_walk_children_bounds(events, i + 1, st);
                }
            }
            _ => {
                lemma_walk_children_bounds(events, i + 1, st);
            }
        }
    }
}

/// Walks the whole event sequence: definition wrappers are skipped, each
/// process element applies its attributes and children to the state, and
/// any other start tag does not parse.
pub open spec fn walk_events(events: Seq<XmlNode>, i: int, st: ParseState) -> Option<ParseState>
    decreases events.len() - i,
    via walk_events_decreases
{
    if i < 0 || i >= events.len() {
        Some(st)
    } else {
        match events[i] {
            XmlNode::Start { tag, attributes } => if tag@ == "definitions"@ {
                walk_events(events, i + 1, st)
            } else if tag@ == "process"@ {
                match process_settings_parsed(attributes@) {
                    None => None,
                    Some(s) => match walk_children(events, i + 1, apply_settings(st, s)) {
                        None => None,
                        Some((st2, j)) => walk_events(events, j, st2),
                    },
                }
            } else {
                None
            },
            _ => walk_events(events, i + 1, st),
        }
    }
}

#[via_fn]
proof fn walk_events_decreases(events: Seq<XmlNode>, i: int, st: ParseState) {
    if 0 <= i < events.len() {
        match events[i] {
            XmlNode::Start { tag, attributes } => {
                if tag@ != "definitions"@ && tag@ == "process"@ {
                    match process_settings_parsed(attributes@) {
                        Some(s) => {
                            lemma_walk_children_bounds(events, i + 1, apply_settings(st, s));
                        }
                        None => {}
                    }
                }
            }
            _ => {}
        }
    }
}

/// The process realizes the accumulated state: its metadata carries the
/// settings, nothing else was touched, and its flow objects and sequence
/// flows realize the parsed elements one for one, in order.
pub open spec fn state_matches(pv: ProcessView, st: ParseState) -> bool {
    &&& pv.process_type == st.process_type
    &&& pv.executable_status == st.executable_status
    &&& pv.process_state == st.process_state
    &&& match st.collaboration_ref {
        Some(c) => pv.definitional_collaboration_ref matches CollaborationRef::Defined(s) && s@
            == c,
        None => pv.definitional_collaboration_ref is Undefined,
    }
    &&& pv.id == Seq::<char>::empty()
    &&& pv.name == Seq::<char>::empty()
    &&& pv.auditing is Absent
    &&& pv.monitoring is Disabled
    &&& pv.process_roles == Seq::<String>::empty()
    &&& pv.properties == Seq::<String>::empty()
    &&& pv.lane_sets == Seq::<String>::empty()
    &&& pv.artifacts == Seq::<String>::empty()
    &&& pv.resource_roles == Seq::<String>::empty()
    &&& pv.correlation_subscriptions == Seq::<String>::empty()
    &&& pv.supports == Seq::<String>::empty()
    &&& pv.flow_objects.len() == st.fos.len()
    &&& forall|i: int|
        0 <= i < st.fos.len() ==> matches_parsed_fo(#[trigger] pv.flow_objects[i], st.fos[i])
    &&& pv.sequence_flows.len() == st.flows.len()
    &&& forall|i: int|
        0 <= i < st.flows.len() ==> matches_parsed_flow(#[trigger] pv.sequence_flows[i], st.flows[i])
}

/// Identifier presence agrees between a process and the state it
/// realizes.
proof fn lemma_contains_bridge(pv: ProcessView, st: ParseState, id: Seq<char>)
    requires
        state_matches(pv, st),
    ensures
        contains_fo_id(pv.flow_objects, id) <==> contains_parsed_id(st.fos, id),
{
    if contains_fo_id(pv.flow_objects, id) {
        let i = choose|i: int| 0 <= i < pv.flow_objects.len() && pv.flow_objects[i].id@ == id;
        assert(matches_parsed_fo(pv.flow_objects[i], st.fos[i]));
        assert(st.fos[i].id == id);
    }
    if contains_parsed_id(st.fos, id) {
        let i = choose|i: int| 0 <= i < st.fos.len() && st.fos[i].id == id;
        assert(matches_parsed_fo(pv.flow_objects[i], st.fos[i]));
        assert(pv.flow_objects[i].id@ == id);
    }
}

/// Walks the children of a process element, building them into the
/// process.
fn walk_children_exec(
    process: &mut Process,
    events: &Vec<XmlNode>,
    i: usize,
    Ghost(st): Ghost<ParseState>,
) -> (r: Result<usize, BPMNParseError>)
    requires
        i <= events@.len(),
        state_matches(old(process)@, st),
    ensures
        match walk_children(events@, i as int, st) {
            None => r is Err,
            Some((st2, j)) => r matches Ok(jo) && jo as int == j && jo <= events@.len()
                && state_matches(final(process)@, st2),
        },
    decreases events@.len() - i,
{
    if i >= events.len() {
        return Err(BPMNParseError::XmlParseError(String::from_str("Unexpected EOF")));
    }
    match &events[i] {
        XmlNode::Start { tag, attributes } => {
            if str_eq(tag.as_str(), "task") {
                match parse_task_element(process, attributes) {
                    Ok(()) => {
                        proof {
                            lemma_contains_bridge(old(process)@, st, task_parsed(attributes@)->0.id);
                            let st2 = task_step(attributes@, st)->0;
                            assert(state_matches(process@, st2)) by {
                                lemma_state_matches_push_fo(
                                    old(process)@,
                                    process@,
                                    st,
                                    task_parsed(attributes@)->0,
                                );
                            }
                        }
                        walk_children_exec(process, events, i + 1, Ghost(task_step(attributes@, st)->0))
                    }
                    Err(e) => {
                        proof {
                            lemma_contains_bridge_opt(old(process)@, st, task_parsed(attributes@));
                        }
                        Err(e)
                    }
                }
            } else if str_eq(tag.as_str(), "sequenceFlow") {
                let cond = match extract_conditional_flow(events, i + 1, XmlElementType::Start) {
                    Ok(v) => v,
                    Err(e) => {
                        return Err(e);
                    }
                };
                let (condition, k) = cond;
                proof {
                    lemma_cond_walk_bounds(events@, i + 1);
                }
                match parse_sequence_flow_element(process, attributes, condition) {
                    Ok(()) => {
                        let ghost pf = flow_parsed(attributes@, (cond_walk(events@, i + 1)->0).0)->0;
                        proof {
                            lemma_state_matches_push_flow(old(process)@, process@, st, pf);
                        }
                        walk_children_exec(
                            process,
                            events,
                            k,
                            Ghost(ParseState { flows: st.flows.push(pf), ..st }),
                        )
                    }
                    Err(e) => Err(e),
                }
            } else {
                Err(BPMNParseError::UnsupportedElement(tag.clone()))
            }
        }
        XmlNode::Empty { tag, attributes } => {
            if str_eq(tag.as_str(), "startEvent") || str_eq(tag.as_str(), "endEvent") {
                match parse_event_element(process, tag.as_str(), attributes) {
                    Ok(()) => {
                        proof {
                            lemma_contains_bridge(
                                old(process)@,
                                st,
                                event_parsed(tag@, attributes@)->0.id,
                            );
                            lemma_state_matches_push_fo(
                                old(process)@,
                                process@,
                                st,
                                event_parsed(tag@, attributes@)->0,
                            );
                        }
                        walk_children_exec(
                            process,
                            events,
                            i + 1,
                            Ghost(event_step(tag@, attributes@, st)->0),
                        )
                    }
                    Err(e) => {
                        proof {
                            lemma_contains_bridge_opt(old(process)@, st, event_parsed(tag@, attributes@));
                        }
                        Err(e)
                    }
                }
            } else if str_eq(tag.as_str(), "task") {
                match parse_task_element(process, attributes) {
                    Ok(()) => {
                        proof {
                            lemma_contains_bridge(old(process)@, st, task_parsed(attributes@)->0.id);
                            lemma_state_matches_push_fo(
                                old(process)@,
                                process@,
                                st,
                                task_parsed(attributes@)->0,
                            );
                        }
                        walk_children_exec(process, events, i + 1, Ghost(task_step(attributes@, st)->0))
                    }
                    Err(e) => {
                        proof {
                            lemma_contains_bridge_opt(old(process)@, st, task_parsed(attributes@));
                        }
                        Err(e)
                    }
                }
            } else if str_eq(tag.as_str(), "exclusiveGateway") || str_eq(
                tag.as_str(),
                "parallelGateway",
            ) {
                let no_conditions: Vec<String> = Vec::new();
                proof {
                    assert(no_conditions@ =~= Seq::<String>::empty());
                }
                match parse_gateway_element(process, tag.as_str(), attributes, no_conditions) {
                    Ok(()) => {
                        proof {
                            lemma_contains_bridge(
                                old(process)@,
                                st,
                                gateway_parsed(tag@, attributes@, Seq::<String>::empty())->0.id,
                            );
                            lemma_state_matches_push_fo(
                                old(process)@,
                                process@,
                                st,
                                gateway_parsed(tag@, attributes@, Seq::<String>::empty())->0,
                            );
                        }
                        walk_children_exec(
                            process,
                            events,
                            i + 1,
                            Ghost(gateway_step(tag@, attributes@, st)->0),
                        )
                    }
                    Err(e) => {
                        proof {
                            lemma_contains_bridge_opt(
                                old(process)@,
                                st,
                                gateway_parsed(tag@, attributes@, Seq::<String>::empty()),
                            );
                        }
                        Err(e)
                    }
                }
            } else if str_eq(tag.as_str(), "sequenceFlow") {
                match parse_sequence_flow_element(process, attributes, None) {
                    Ok(()) => {
                        let ghost pf = flow_parsed(attributes@, None)->0;
                        proof {
                            lemma_state_matches_push_flow(old(process)@, process@, st, pf);
                        }
                        walk_children_exec(
                            process,
                            events,
                            i + 1,
                            Ghost(ParseState { flows: st.flows.push(pf), ..st }),
                        )
                    }
                    Err(e) => Err(e),
                }
            } else {
                Err(BPMNParseError::UnsupportedElement(tag.clone()))
            }
        }
        XmlNode::End { tag } => {
            if str_eq(tag.as_str(), "process") {
                Ok(i + 1)
            } else {
                walk_children_exec(process, events, i + 1, Ghost(st))
            }
        }
        _ => walk_children_exec(process, events, i + 1, Ghost(st)),
    }
}

/// A process extended by one realized flow object still realizes the
/// extended state.
proof fn lemma_state_matches_push_fo(
    pre: ProcessView,
    post: ProcessView,
    st: ParseState,
    pfo: ParsedFlowObject,
)
    requires
        state_matches(pre, st),
        fo_appended(pre, post, pfo),
    ensures
        state_matches(post, ParseState { fos: st.fos.push(pfo), ..st }),
{
    let st2 = ParseState { fos: st.fos.push(pfo), ..st };
    assert forall|i: int| 0 <= i < st2.fos.len() implies matches_parsed_fo(
        #[trigger] post.flow_objects[i],
        st2.fos[i],
    ) by {
        if i < st.fos.len() {
            assert(post.flow_objects.drop_last()[i] == post.flow_objects[i]);
            assert(matches_parsed_fo(pre.flow_objects[i], st.fos[i]));
        } else {
            assert(post.flow_objects[i] == post.flow_objects.last());
        }
    }
}

/// A process extended by one realized sequence flow still realizes the
/// extended state.
proof fn lemma_state_matches_push_flow(
    pre: ProcessView,
    post: ProcessView,
    st: ParseState,
    pf: ParsedFlow,
)
    requires
        state_matches(pre, st),
        flow_appended(pre, post, pf),
    ensures
        state_matches(post, ParseState { flows: st.flows.push(pf), ..st }),
{
    let st2 = ParseState { flows: st.flows.push(pf), ..st };
    assert forall|i: int| 0 <= i < st2.flows.len() implies matches_parsed_flow(
        #[trigger] post.sequence_flows[i],
        st2.flows[i],
    ) by {
        if i < st.flows.len() {
            assert(post.sequence_flows.drop_last()[i] == post.sequence_flows[i]);
            assert(matches_parsed_flow(pre.sequence_flows[i], st.flows[i]));
        } else {
            assert(post.sequence_flows[i] == post.sequence_flows.last());
        }
    }
}

/// Bridges identifier presence for an optional parsed element.
proof fn lemma_contains_bridge_opt(pv: ProcessView, st: ParseState, pfo: Option<ParsedFlowObject>)
    requires
        state_matches(pv, st),
    ensures
        pfo matches Some(p) ==> (contains_fo_id(pv.flow_objects, p.id) <==> contains_parsed_id(
            st.fos,
            p.id,
        )),
{
    match pfo {
        Some(p) => lemma_contains_bridge(pv, st, p.id),
        None => {}
    }
}

/// Walks the whole event sequence, building the process.
fn walk_events_exec(
    process: &mut Process,
    events: &Vec<XmlNode>,
    i: usize,
    Ghost(st): Ghost<ParseState>,
) -> (r: Result<(), BPMNParseError>)
    requires
        i <= events@.len(),
        state_matches(old(process)@, st),
    ensures
        match walk_events(events@, i as int, st) {
            None => r is Err,
            Some(st2) => r is Ok && state_matches(final(process)@, st2),
        },
    decreases events@.len() - i,
{
    if i >= events.len() {
        return Ok(());
    }
    match &events[i] {
        XmlNode::Start { tag, attributes } => {
            if str_eq(tag.as_str(), "definitions") {
                walk_events_exec(process, events, i + 1, Ghost(st))
            } else if str_eq(tag.as_str(), "process") {
                match parse_process_element(process, attributes) {
                    Ok(()) => {
                        let ghost s = process_settings_parsed(attributes@)->0;
                        let ghost st1 = apply_settings(st, s);
                        proof {
                            assert(state_matches(process@, st1));
                        }
                        let j = match walk_children_exec(process, events, i + 1, Ghost(st1)) {
                            Ok(j) => j,
                            Err(e) => {
                                return Err(e);
                            }
                        };
                        proof {
                            lemma_walk_children_bounds(events@, i + 1 as int, st1);
                        }
                        let ghost st2 = (walk_children(events@, i + 1, st1)->0).0;
                        walk_events_exec(process, events, j, Ghost(st2))
                    }
                    Err(e) => Err(e),
                }
            } else {
                Err(BPMNParseError::UnsupportedElement(tag.clone()))
            }
        }
        _ => walk_events_exec(process, events, i + 1, Ghost(st)),
    }
}

/// Builds a process model from a sequence of markup events: definition
/// wrappers are skipped, and each process element contributes its
/// settings, flow objects, and sequence flows. The result realizes,
/// element for element, the walk specified by `walk_events`; input the
/// walk rejects yields an error.
pub fn parse_bpmn_from_events(events: &Vec<XmlNode>) -> (r: Result<Process, BPMNParseError>)
    ensures
        match r {
            Ok(p) => walk_events(events@, 0, init_parse_state()) matches Some(st) && state_matches(
                p@,
                st,
            ),
            Err(_) => walk_events(events@, 0, init_parse_state()) is None,
        },
{
    let mut process = Process::new();
    proof {
        assert(state_matches(process@, init_parse_state()));
    }
    match walk_events_exec(&mut process, events, 0, Ghost(init_parse_state())) {
        Ok(()) => Ok(process),
        Err(e) => Err(e),
    }
}

} // verus!

