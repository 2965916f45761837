//! The process model: a named container of flow objects and sequence flows
//! together with descriptive metadata. Flow object identifiers are unique
//! within a process; mutating operations fail rather than overwrite.

use vstd::prelude::*;
use crate::flow_objects::FlowObject;
use crate::sequence_flows::SequenceFlow;
use crate::text::str_eq;

verus! {

/// Error raised by process-model mutations: inserting a duplicate flow
/// object, or removing something absent.
#[derive(Clone, PartialEq, Debug)]
pub enum ProcessError {
    FlowObjectAlreadyExists(String),
    FlowObjectNotFound(String),
    SequenceFlowNotFound(String),
}

impl ProcessError {
    /// Returns the name of the error variant.
    pub fn name(&self) -> (r: &str)
        ensures
            r@ == match *self {
                ProcessError::FlowObjectAlreadyExists(_) => "FlowObjectAlreadyExists"@,
                ProcessError::FlowObjectNotFound(_) => "FlowObjectNotFound"@,
                ProcessError::SequenceFlowNotFound(_) => "SequenceFlowNotFound"@,
            },
    {
        match self {
            ProcessError::FlowObjectAlreadyExists(_) => "FlowObjectAlreadyExists",
            ProcessError::FlowObjectNotFound(_) => "FlowObjectNotFound",
            ProcessError::SequenceFlowNotFound(_) => "SequenceFlowNotFound",
        }
    }
}

/// Whether a process is intended to be executed.
#[derive(Clone, Copy, PartialEq, Eq, Structural, Debug)]
pub enum ExecutableStatus {
    Executable,
    NonExecutable,
}

/// Whether a process is open or closed.
#[derive(Clone, Copy, PartialEq, Eq, Structural, Debug)]
pub enum ProcessState {
    Open,
    Closed,
}

/// Whether a process is internal to one organization or describes an
/// interaction between participants.
#[derive(Clone, Copy, PartialEq, Eq, Structural, Debug)]
pub enum ProcessType {
    Private,
    Public,
}

impl Default for ProcessType {
    /// A process is private unless declared otherwise.
    fn default() -> (r: Self)
        ensures
            r == ProcessType::Private,
    {
        ProcessType::Private
    }
}

/// An optional reference to a defining collaboration.
#[derive(Clone, PartialEq, Debug)]
pub enum CollaborationRef {
    Defined(String),
    Undefined,
}

/// Optional auditing information.
#[derive(Clone, PartialEq, Debug)]
pub enum AuditingInfo {
    Present(String),
    Absent,
}

/// Optional monitoring information.
#[derive(Clone, PartialEq, Debug)]
pub enum MonitoringInfo {
    Enabled(String),
    Disabled,
}

/// Some flow object in the sequence has the given identifier.
pub open spec fn contains_fo_id(s: Seq<FlowObject>, id: Seq<char>) -> bool {
    exists|i: int| 0 <= i < s.len() && s[i].id@ == id
}

/// The predicate keeping every flow object whose identifier differs from
/// `id`.
pub open spec fn fo_id_differs(id: Seq<char>) -> spec_fn(FlowObject) -> bool {
    |fo: FlowObject| fo.id@ != id
}

/// The predicate keeping every string whose characters differ from `x`.
pub open spec fn str_differs(x: Seq<char>) -> spec_fn(String) -> bool {
    |s: String| s@ != x
}

/// All flow object identifiers in the sequence are distinct.
pub open spec fn unique_fo_ids(s: Seq<FlowObject>) -> bool {
    forall|i: int, j: int| 0 <= i < j < s.len() ==> s[i].id@ != s[j].id@
}

/// The first flow object with the given identifier, scanning from
/// position `i`.
pub open spec fn fo_lookup_from(s: Seq<FlowObject>, id: Seq<char>, i: int) -> Option<FlowObject>
    decreases s.len() - i,
{
    if i < 0 || i >= s.len() {
        None
    } else if s[i].id@ == id {
        Some(s[i])
    } else {
        fo_lookup_from(s, id, i + 1)
    }
}

/// The first flow object with the given identifier, if any.
pub open spec fn fo_lookup(s: Seq<FlowObject>, id: Seq<char>) -> Option<FlowObject> {
    fo_lookup_from(s, id, 0)
}

/// The insertion-ordered collection of a process's flow objects, keyed by
/// their unique identifiers.
#[derive(Clone, Debug)]
pub struct FlowObjects {
    items: Vec<FlowObject>,
}

impl View for FlowObjects {
    type V = Seq<FlowObject>;

    closed spec fn view(&self) -> Seq<FlowObject> {
        self.items@
    }
}

impl FlowObjects {
    /// Builds an empty collection.
    pub fn new() -> (r: Self)
        ensures
            r@ == Seq::<FlowObject>::empty(),
    {
        FlowObjects { items: Vec::new() }
    }

    /// Returns how many flow objects the collection holds.
    pub fn len(&self) -> (r: usize)
        ensures
            r == self@.len(),
    {
        self.items.len()
    }

    /// The collection holds no flow objects.
    pub fn is_empty(&self) -> (r: bool)
        ensures
            r <==> self@.len() == 0,
    {
        self.items.len() == 0
    }

    /// Returns the flow objects in insertion order.
    pub fn values(&self) -> (r: &Vec<FlowObject>)
        ensures
            r@ == self@,
    {
        &self.items
    }

    /// Some flow object carries the given identifier.
    pub fn contains_id(&self, id: &str) -> (r: bool)
        ensures
            r <==> contains_fo_id(self@, id@),
    {
        let n = self.items.len();
        let mut i: usize = 0;
        while i < n
            invariant
                n == self@.len(),
                0 <= i <= n,
                forall|j: int| 0 <= j < i ==> self@[j].id@ != id@,
            decreases n - i,
        {
            if str_eq(self.items[i].id.as_str(), id) {
                return true;
            }
            i += 1;
        }
        false
    }

    /// Looks up a flow object by identifier, returning the first match.
    pub fn get(&self, id: &str) -> (r: Option<&FlowObject>)
        ensures
            match r {
                Some(fo) => fo_lookup(self@, id@) == Some(*fo) && fo.id@ == id@,
                None => fo_lookup(self@, id@) is None && !contains_fo_id(self@, id@),
            },
    {
        let n = self.items.len();
        let mut i: usize = 0;
        while i < n
            invariant
                n == self@.len(),
                0 <= i <= n,
                fo_lookup(self@, id@) == fo_lookup_from(self@, id@, i as int),
                forall|j: int| 0 <= j < i ==> self@[j].id@ != id@,
            decreases n - i,
        {
            if str_eq(self.items[i].id.as_str(), id) {
                return Some(&self.items[i]);
            }
            i += 1;
        }
        None
    }

    /// Appends a flow object; the caller checks for duplicates first.
    pub(crate) fn push(&mut self, fo: FlowObject)
        ensures
            final(self)@ == old(self)@.push(fo),
    {
        self.items.push(fo);
    }

    /// Removes every flow object carrying the given identifier.
    pub(crate) fn remove_id(&mut self, id: &str)
        ensures
            final(self)@ == old(self)@.filter(fo_id_differs(id@)),
    {
        let ghost orig = self.items@;
        let ghost n = orig.len() as int;
        let mut i: usize = 0;
        let ghost mut k: int = 0;
        while i < self.items.len()
            invariant
                0 <= i as int <= k <= n,
                n == orig.len(),
                self.items@ == orig.take(k).filter(fo_id_differs(id@)) + orig.skip(k),
                i as int == orig.take(k).filter(fo_id_differs(id@)).len(),
            decreases self.items@.len() - i,
        {
            proof {
                reveal(Seq::filter);
                assert(self.items@.len() == i + (n - k));
                assert(k < n);
                assert(self.items@[i as int] == orig.skip(k)[0]);
                assert(orig.skip(k)[0] == orig[k]);
                assert(orig.take(k + 1).drop_last() =~= orig.take(k));
                assert(orig.take(k + 1).last() == orig[k]);
                assert(orig.take(k + 1).filter(fo_id_differs(id@)) == if fo_id_differs(id@)(orig[k]) {
                    orig.take(k).filter(fo_id_differs(id@)).push(orig[k])
                } else {
                    orig.take(k).filter(fo_id_differs(id@))
                });
            }
            if str_eq(self.items[i].id.as_str(), id) {
                self.items.remove(i);
                proof {
                    assert(!fo_id_differs(id@)(orig[k]));
                    assert(self.items@ =~= orig.take(k + 1).filter(fo_id_differs(id@)) + orig.skip(k + 1));
                    k = k + 1;
                }
            } else {
                i += 1;
                proof {
                    assert(fo_id_differs(id@)(orig[k]));
                    assert(self.items@ =~= orig.take(k + 1).filter(fo_id_differs(id@)) + orig.skip(k + 1));
                    k = k + 1;
                }
            }
        }
        proof {
            assert(k == n);
            assert(orig.take(n) =~= orig);
            assert(orig.skip(n) =~= Seq::<FlowObject>::empty());
            assert(self.items@ =~= orig.filter(fo_id_differs(id@)));
        }
    }
}

/// The mathematical content of a process.
pub struct ProcessView {
    pub id: Seq<char>,
    pub name: Seq<char>,
    pub process_type: ProcessType,
    pub executable_status: ExecutableStatus,
    pub process_state: ProcessState,
    pub definitional_collaboration_ref: CollaborationRef,
    pub auditing: AuditingInfo,
    pub monitoring: MonitoringInfo,
    pub process_roles: Seq<String>,
    pub properties: Seq<String>,
    pub lane_sets: Seq<String>,
    pub artifacts: Seq<String>,
    pub resource_roles: Seq<String>,
    pub correlation_subscriptions: Seq<String>,
    pub supports: Seq<String>,
    pub flow_objects: Seq<FlowObject>,
    pub sequence_flows: Seq<SequenceFlow>,
}

/// The view of a freshly built process: empty identifiers and collections,
/// and the documented defaults for every status field.
pub open spec fn spec_default_process() -> ProcessView {
    ProcessView {
        id: Seq::<char>::empty(),
        name: Seq::<char>::empty(),
        process_type: ProcessType::Private,
        executable_status: ExecutableStatus::NonExecutable,
        process_state: ProcessState::Open,
        definitional_collaboration_ref: CollaborationRef::Undefined,
        auditing: AuditingInfo::Absent,
        monitoring: MonitoringInfo::Disabled,
        process_roles: Seq::<String>::empty(),
        properties: Seq::<String>::empty(),
        lane_sets: Seq::<String>::empty(),
        artifacts: Seq::<String>::empty(),
        resource_roles: Seq::<String>::empty(),
        correlation_subscriptions: Seq::<String>::empty(),
        supports: Seq::<String>::empty(),
        flow_objects: Seq::<FlowObject>::empty(),
        sequence_flows: Seq::<SequenceFlow>::empty(),
    }
}

/// A BPMN process: flow objects and sequence flows plus metadata.
#[derive(Clone, Debug)]
pub struct Process {
    id: String,
    name: String,
    process_type: ProcessType,
    executable_status: ExecutableStatus,
    process_state: ProcessState,
    definitional_collaboration_ref: CollaborationRef,
    auditing: AuditingInfo,
    monitoring: MonitoringInfo,
    process_roles: Vec<String>,
    properties: Vec<String>,
    lane_sets: Vec<String>,
    artifacts: Vec<String>,
    resource_roles: Vec<String>,
    correlation_subscriptions: Vec<String>,
    supports: Vec<String>,
    flow_objects: FlowObjects,
    sequence_flows: Vec<SequenceFlow>,
}

impl View for Process {
    type V = ProcessView;

    closed spec fn view(&self) -> ProcessView {
        ProcessView {
            id: self.id@,
            name: self.name@,
            process_type: self.process_type,
            executable_status: self.executable_status,
            process_state: self.process_state,
            definitional_collaboration_ref: self.definitional_collaboration_ref,
            auditing: self.auditing,
            monitoring: self.monitoring,
            process_roles: self.process_roles@,
            properties: self.properties@,
            lane_sets: self.lane_sets@,
            artifacts: self.artifacts@,
            resource_roles: self.resource_roles@,
            correlation_subscriptions: self.correlation_subscriptions@,
            supports: self.supports@,
            flow_objects: self.flow_objects@,
            sequence_flows: self.sequence_flows@,
        }
    }
}

impl Default for Process {
    /// Builds a process with default values.
    fn default() -> (r: Self)
        ensures
            r@ == spec_default_process(),
    {
        let r = Process {
            id: String::new(),
            name: String::new(),
            process_type: ProcessType::Private,
            executable_status: ExecutableStatus::NonExecutable,
            process_state: ProcessState::Open,
            definitional_collaboration_ref: CollaborationRef::Undefined,
            auditing: AuditingInfo::Absent,
            monitoring: MonitoringInfo::Disabled,
            process_roles: Vec::new(),
            properties: Vec::new(),
            lane_sets: Vec::new(),
            artifacts: Vec::new(),
            resource_roles: Vec::new(),
            correlation_subscriptions: Vec::new(),
            supports: Vec::new(),
            flow_objects: FlowObjects::new(),
            sequence_flows: Vec::new(),
        };
        proof {
            assert(r@.id =~= spec_default_process().id);
            assert(r@.name =~= spec_default_process().name);
        }
        r
    }
}

impl Process {
    /// Builds a process with default values.
    pub fn new() -> (r: Self)
        ensures
            r@ == spec_default_process(),
    {
        Process::default()
    }

    /// Returns the identifier.
    pub fn id(&self) -> (r: &str)
        ensures
            r@ == self@.id,
    {
        self.id.as_str()
    }

    /// Sets the identifier.
    pub fn set_id(&mut self, id: &str)
        ensures
            final(self)@ == (ProcessView { id: id@, ..old(self)@ }),
    {
        self.id = String::from_str(id);
    }

    /// Returns the name.
    pub fn name(&self) -> (r: &str)
        ensures
            r@ == self@.name,
    {
        self.name.as_str()
    }

    /// Sets the name.
    pub fn set_name(&mut self, name: &str)
        ensures
            final(self)@ == (ProcessView { name: name@, ..old(self)@ }),
    {
        self.name = String::from_str(name);
    }

    /// Returns the process type.
    pub fn process_type(&self) -> (r: &ProcessType)
        ensures
            *r == self@.process_type,
    {
        &self.process_type
    }

    /// Sets the process type.
    pub fn set_process_type(&mut self, process_type: ProcessType)
        ensures
            final(self)@ == (ProcessView { process_type: process_type, ..old(self)@ }),
    {
        self.process_type = process_type;
    }

    /// Returns whether the process is executable.
    pub fn executable_status(&self) -> (r: &ExecutableStatus)
        ensures
            *r == self@.executable_status,
    {
        &self.executable_status
    }

    /// Sets whether the process is executable.
    pub fn set_executable_status(&mut self, status: ExecutableStatus)
        ensures
            final(self)@ == (ProcessView { executable_status: status, ..old(self)@ }),
    {
        self.executable_status = status;
    }

    /// Returns whether the process is open or closed.
    pub fn process_state(&self) -> (r: &ProcessState)
        ensures
            *r == self@.process_state,
    {
        &self.process_state
    }

    /// Sets whether the process is open or closed.
    pub fn set_process_state(&mut self, state: ProcessState)
        ensures
            final(self)@ == (ProcessView { process_state: state, ..old(self)@ }),
    {
        self.process_state = state;
    }

    /// Returns the definitional collaboration reference.
    pub fn definitional_collaboration_ref(&self) -> (r: &CollaborationRef)
        ensures
            *r == self@.definitional_collaboration_ref,
    {
        &self.definitional_collaboration_ref
    }

    /// Sets the definitional collaboration reference.
    pub fn set_definitional_collaboration_ref(&mut self, ref_value: CollaborationRef)
        ensures
            final(self)@ == (ProcessView {
                definitional_collaboration_ref: ref_value,
                ..old(self)@
            }),
    {
        self.definitional_collaboration_ref = ref_value;
    }

    /// Returns the auditing information.
    pub fn auditing(&self) -> (r: &AuditingInfo)
        ensures
            *r == self@.auditing,
    {
        &self.auditing
    }

    /// Sets the auditing information.
    pub fn set_auditing(&mut self, auditing: AuditingInfo)
        ensures
            final(self)@ == (ProcessView { auditing: auditing, ..old(self)@ }),
    {
        self.auditing = auditing;
    }

    /// Returns the monitoring information.
    pub fn monitoring(&self) -> (r: &MonitoringInfo)
        ensures
            *r == self@.monitoring,
    {
        &self.monitoring
    }

    /// Sets the monitoring information.
    pub fn set_monitoring(&mut self, monitoring: MonitoringInfo)
        ensures
            final(self)@ == (ProcessView { monitoring: monitoring, ..old(self)@ }),
    {
        self.monitoring = monitoring;
    }

    /// Returns the process roles.
    pub fn process_roles(&self) -> (r: &Vec<String>)
        ensures
            r@ == self@.process_roles,
    {
        &self.process_roles
    }

    /// Returns the properties.
    pub fn properties(&self) -> (r: &Vec<String>)
        ensures
            r@ == self@.properties,
    {
        &self.properties
    }

    /// Returns the lane sets.
    pub fn lane_sets(&self) -> (r: &Vec<String>)
        ensures
            r@ == self@.lane_sets,
    {
        &self.lane_sets
    }

    /// Returns the artifacts.
    pub fn artifacts(&self) -> (r: &Vec<String>)
        ensures
            r@ == self@.artifacts,
    {
        &self.artifacts
    }

    /// Returns the resource roles.
    pub fn resource_roles(&self) -> (r: &Vec<String>)
        ensures
            r@ == self@.resource_roles,
    {
        &self.resource_roles
    }

    /// Returns the correlation subscriptions.
    pub fn correlation_subscriptions(&self) -> (r: &Vec<String>)
        ensures
            r@ == self@.correlation_subscriptions,
    {
        &self.correlation_subscriptions
    }

    /// Returns the supported process references.
    pub fn supports(&self) -> (r: &Vec<String>)
        ensures
            r@ == self@.supports,
    {
        &self.supports
    }

    /// Adds a process role.
    pub fn add_process_role(&mut self, role: String)
        ensures
            final(self)@ == (ProcessView {
                process_roles: old(self)@.process_roles.push(role),
                ..old(self)@
            }),
    {
        self.process_roles.push(role);
    }

    /// Removes every process role with the given text.
    pub fn remove_process_role(&mut self, role: &str)
        ensures
            final(self)@ == (ProcessView {
                process_roles: old(self)@.process_roles.filter(str_differs(role@)),
                ..old(self)@
            }),
    {
        remove_matching(&mut self.process_roles, role);
    }

    /// Adds a property.
    pub fn add_property(&mut self, property: String)
        ensures
            final(self)@ == (ProcessView {
                properties: old(self)@.properties.push(property),
                ..old(self)@
            }),
    {
        self.properties.push(property);
    }

    /// Removes every property with the given text.
    pub fn remove_property(&mut self, property: &str)
        ensures
            final(self)@ == (ProcessView {
                properties: old(self)@.properties.filter(str_differs(property@)),
                ..old(self)@
            }),
    {
        remove_matching(&mut self.properties, property);
    }

    /// Adds a lane set.
    pub fn add_lane_set(&mut self, lane: String)
        ensures
            final(self)@ == (ProcessView {
                lane_sets: old(self)@.lane_sets.push(lane),
                ..old(self)@
            }),
    {
        self.lane_sets.push(lane);
    }

    /// Removes every lane set with the given text.
    pub fn remove_lane_set(&mut self, lane: &str)
        ensures
            final(self)@ == (ProcessView {
                lane_sets: old(self)@.lane_sets.filter(str_differs(lane@)),
                ..old(self)@
            }),
    {
        remove_matching(&mut self.lane_sets, lane);
    }

    /// Adds an artifact.
    pub fn add_artifact(&mut self, artifact: String)
        ensures
            final(self)@ == (ProcessView {
                artifacts: old(self)@.artifacts.push(artifact),
                ..old(self)@
            }),
    {
        self.artifacts.push(artifact);
    }

    /// Removes every artifact with the given text.
    pub fn remove_artifact(&mut self, artifact: &str)
        ensures
            final(self)@ == (ProcessView {
                artifacts: old(self)@.artifacts.filter(str_differs(artifact@)),
                ..old(self)@
            }),
    {
        remove_matching(&mut self.artifacts, artifact);
    }

    /// Adds a resource role.
    pub fn add_resource_role(&mut self, role: String)
        ensures
            final(self)@ == (ProcessView {
                resource_roles: old(self)@.resource_roles.push(role),
                ..old(self)@
            }),
    {
        self.resource_roles.push(role);
    }

    /// Removes every resource role with the given text.
    pub fn remove_resource_role(&mut self, role: &str)
        ensures
            final(self)@ == (ProcessView {
                resource_roles: old(self)@.resource_roles.filter(str_differs(role@)),
                ..old(self)@
            }),
    {
        remove_matching(&mut self.resource_roles, role);
    }

    /// Adds a correlation subscription.
    pub fn add_correlation_subscription(&mut self, subscription: String)
        ensures
            final(self)@ == (ProcessView {
                correlation_subscriptions: old(self)@.correlation_subscriptions.push(subscription),
                ..old(self)@
            }),
    {
        self.correlation_subscriptions.push(subscription);
    }

    /// Removes every correlation subscription with the given text.
    pub fn remove_correlation_subscription(&mut self, subscription: &str)
        ensures
            final(self)@ == (ProcessView {
                correlation_subscriptions: old(self)@.correlation_subscriptions.filter(str_differs(subscription@)),
                ..old(self)@
            }),
    {
        remove_matching(&mut self.correlation_subscriptions, subscription);
    }

    /// Adds a supported process reference.
    pub fn add_support(&mut self, support: String)
        ensures
            final(self)@ == (ProcessView {
                supports: old(self)@.supports.push(support),
                ..old(self)@
            }),
    {
        self.supports.push(support);
    }

    /// Removes every supported process reference with the given text.
    pub fn remove_support(&mut self, support: &str)
        ensures
            final(self)@ == (ProcessView {
                supports: old(self)@.supports.filter(str_differs(support@)),
                ..old(self)@
            }),
    {
        remove_matching(&mut self.supports, support);
    }

    /// Returns the flow objects.
    pub fn flow_objects(&self) -> (r: &FlowObjects)
        ensures
            r@ == self@.flow_objects,
    {
        &self.flow_objects
    }

    /// Adds a flow object. Fails, leaving the process untouched, when a flow
    /// object with the same identifier already exists.
    pub fn add_flow_object(&mut self, flowobject: FlowObject) -> (r: Result<(), ProcessError>)
        ensures
            contains_fo_id(old(self)@.flow_objects, flowobject.id@) ==> {
                &&& r matches Err(ProcessError::FlowObjectAlreadyExists(id)) && id@
                    == flowobject.id@
                &&& *final(self) == *old(self)
            },
            !contains_fo_id(old(self)@.flow_objects, flowobject.id@) ==> {
                &&& r is Ok
                &&& final(self)@ == (ProcessView {
                    flow_objects: old(self)@.flow_objects.push(flowobject),
                    ..old(self)@
                })
            },
    {
        if self.flow_objects.contains_id(flowobject.id.as_str()) {
            return Err(ProcessError::FlowObjectAlreadyExists(flowobject.id.clone()));
        }
        self.flow_objects.push(flowobject);
        Ok(())
    }

    /// Removes the flow object with the given identifier. Fails when no flow
    /// object carries it.
    pub fn remove_flow_object(&mut self, flowobject_id: &str) -> (r: Result<(), ProcessError>)
        ensures
            !contains_fo_id(old(self)@.flow_objects, flowobject_id@) ==> {
                &&& r matches Err(ProcessError::FlowObjectNotFound(id)) && id@ == flowobject_id@
                &&& *final(self) == *old(self)
            },
            contains_fo_id(old(self)@.flow_objects, flowobject_id@) ==> {
                &&& r is Ok
                &&& final(self)@ == (ProcessView {
                    flow_objects: old(self)@.flow_objects.filter(fo_id_differs(flowobject_id@)),
                    ..old(self)@
                })
            },
    {
        if !self.flow_objects.contains_id(flowobject_id) {
            return Err(ProcessError::FlowObjectNotFound(String::from_str(flowobject_id)));
        }
        self.flow_objects.remove_id(flowobject_id);
        Ok(())
    }

    /// Returns the sequence flows in stored order.
    pub fn sequence_flows(&self) -> (r: &Vec<SequenceFlow>)
        ensures
            r@ == self@.sequence_flows,
    {
        &self.sequence_flows
    }

    /// Appends a sequence flow.
    pub fn add_sequence_flow(&mut self, sequence_flow: SequenceFlow)
        ensures
            final(self)@ == (ProcessView {
                sequence_flows: old(self)@.sequence_flows.push(sequence_flow),
                ..old(self)@
            }),
    {
        self.sequence_flows.push(sequence_flow);
    }

    /// Removes the first sequence flow with the given identifier. Fails when
    /// no sequence flow carries it.
    pub fn remove_sequence_flow(&mut self, sequence_flow_id: &str) -> (r: Result<
        (),
        ProcessError,
    >)
        ensures
            (forall|i: int|
                0 <= i < old(self)@.sequence_flows.len() ==> old(self)@.sequence_flows[i]@.id
                    != sequence_flow_id@) ==> {
                &&& r matches Err(ProcessError::SequenceFlowNotFound(id)) && id@
                    == sequence_flow_id@
                &&& *final(self) == *old(self)
            },
            (exists|i: int|
                0 <= i < old(self)@.sequence_flows.len() && old(self)@.sequence_flows[i]@.id
                    == sequence_flow_id@) ==> exists|i: int|
                {
                    &&& 0 <= i < old(self)@.sequence_flows.len()
                    &&& old(self)@.sequence_flows[i]@.id == sequence_flow_id@
                    &&& forall|j: int|
                        0 <= j < i ==> old(self)@.sequence_flows[j]@.id != sequence_flow_id@
                    &&& r is Ok
                    &&& final(self)@ == (ProcessView {
                        sequence_flows: old(self)@.sequence_flows.remove(i),
                        ..old(self)@
                    })
                },
    {
        let n = self.sequence_flows.len();
        let mut i: usize = 0;
        while i < n
            invariant
                *self == *old(self),
                n == self.sequence_flows@.len(),
                0 <= i <= n,
                forall|j: int| 0 <= j < i ==> self.sequence_flows@[j]@.id != sequence_flow_id@,
            decreases n - i,
        {
            if str_eq(self.sequence_flows[i].id().as_str(), sequence_flow_id) {
                proof {
                    assert(old(self)@.sequence_flows[i as int]@.id == sequence_flow_id@);
                }
                self.sequence_flows.remove(i);
                proof {
                    let ghost ii = i as int;
                    assert(forall|j: int|
                        0 <= j < ii ==> old(self)@.sequence_flows[j]@.id != sequence_flow_id@);
                    assert(self@ == (ProcessView {
                        sequence_flows: old(self)@.sequence_flows.remove(ii),
                        ..old(self)@
                    }));
                }
                return Ok(());
            }
            i += 1;
        }
        Err(ProcessError::SequenceFlowNotFound(String::from_str(sequence_flow_id)))
    }
}

/// Removes from the vector every string equal to `x`, keeping the order of
/// the rest.
fn remove_matching(v: &mut Vec<String>, x: &str)
    ensures
        final(v)@ == old(v)@.filter(str_differs(x@)),
{
    let n = v.len();
    let mut kept: Vec<String> = Vec::new();
    let mut i: usize = 0;
    while i < n
        invariant
            n == v@.len(),
            0 <= i <= n,
            kept@ == v@.take(i as int).filter(str_differs(x@)),
        decreases n - i,
    {
        proof {
            reveal(Seq::filter);
            assert(v@.take(i + 1).drop_last() =~= v@.take(i as int));
            assert(v@.take(i + 1).last() == v@[i as int]);
            assert(v@.take(i + 1).filter(str_differs(x@)) == if str_differs(x@)(v@[i as int]) {
                v@.take(i as int).filter(str_differs(x@)).push(v@[i as int])
            } else {
                v@.take(i as int).filter(str_differs(x@))
            });
        }
        if !str_eq(v[i].as_str(), x) {
            kept.push(v[i].clone());
        }
        i += 1;
    }
    proof {
        assert(v@.take(n as int) =~= v@);
    }
    *v = kept;
}

} // verus!
