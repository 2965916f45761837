//! Sequence flows: the directed edges of the process graph, optionally
//! guarded by a condition script.

use vstd::prelude::*;
use crate::flow_objects::FlowObjectId;
use crate::script::Script;

verus! {

/// Alias for sequence flow identifiers used in the process model.
pub type SequenceFlowId = String;

/// Whether the flow fires as soon as its source completes, or may be
/// delayed.
#[derive(Clone, Copy, PartialEq, Eq, Structural, Debug)]
pub enum ImmediateFlag {
    Immediate,
    NonImmediate,
}

impl Default for ImmediateFlag {
    /// A flow is non-immediate unless declared otherwise.
    fn default() -> (r: Self)
        ensures
            r == ImmediateFlag::NonImmediate,
    {
        ImmediateFlag::NonImmediate
    }
}

/// The kind of a sequence flow, without its payload.
#[derive(Clone, Copy, PartialEq, Eq, Structural, Debug)]
pub enum SequenceFlowType {
    Normal,
    Conditional,
}

/// A conditional flow's payload: an optional guard script.
#[derive(Clone, PartialEq, Debug)]
pub struct ConditionalFlow {
    condition: Option<Script>,
}

impl ConditionalFlow {
    /// The guard script, for use in contracts.
    pub closed spec fn spec_condition(&self) -> Option<Script> {
        self.condition
    }

    /// Builds a conditional flow payload.
    pub fn new(condition: Option<Script>) -> (r: Self)
        ensures
            r.spec_condition() == condition,
    {
        ConditionalFlow { condition }
    }

    /// Returns the guard script, if one was declared.
    pub fn condition_expression(&self) -> (r: Option<&Script>)
        ensures
            r is Some <==> self.spec_condition() is Some,
            r is Some ==> self.spec_condition()->0 == r->0,
    {
        self.condition.as_ref()
    }
}

/// How a sequence flow behaves: unconditionally, or guarded by an optional
/// condition script.
#[derive(Clone, PartialEq, Debug)]
pub enum SequenceFlowBehavior {
    Normal,
    Conditional(ConditionalFlow),
}

impl SequenceFlowBehavior {
    /// Returns the kind tag of the behavior.
    pub fn flow_type(&self) -> (r: SequenceFlowType)
        ensures
            r == (match *self {
                SequenceFlowBehavior::Normal => SequenceFlowType::Normal,
                SequenceFlowBehavior::Conditional(_) => SequenceFlowType::Conditional,
            }),
    {
        match self {
            SequenceFlowBehavior::Normal => SequenceFlowType::Normal,
            SequenceFlowBehavior::Conditional(_) => SequenceFlowType::Conditional,
        }
    }
}

/// The mathematical content of a sequence flow.
pub struct SequenceFlowView {
    pub id: Seq<char>,
    pub source_ref: Seq<char>,
    pub target_ref: Seq<char>,
    pub is_immediate: ImmediateFlag,
    pub behavior: SequenceFlowBehavior,
}

/// A directed edge between two flow objects.
#[derive(Clone, Debug)]
pub struct SequenceFlow {
    id: SequenceFlowId,
    source_ref: FlowObjectId,
    target_ref: FlowObjectId,
    is_immediate: ImmediateFlag,
    sequence_flow_behavior: SequenceFlowBehavior,
}

impl View for SequenceFlow {
    type V = SequenceFlowView;

    closed spec fn view(&self) -> SequenceFlowView {
        SequenceFlowView {
            id: self.id@,
            source_ref: self.source_ref@,
            target_ref: self.target_ref@,
            is_immediate: self.is_immediate,
            behavior: self.sequence_flow_behavior,
        }
    }
}

impl SequenceFlow {
    /// Builds a sequence flow with empty references, non-immediate, and
    /// normal behavior.
    pub fn new() -> (r: Self)
        ensures
            r@.id == Seq::<char>::empty(),
            r@.source_ref == Seq::<char>::empty(),
            r@.target_ref == Seq::<char>::empty(),
            r@.is_immediate == ImmediateFlag::NonImmediate,
            r@.behavior == SequenceFlowBehavior::Normal,
    {
        SequenceFlow {
            id: String::new(),
            source_ref: String::new(),
            target_ref: String::new(),
            is_immediate: ImmediateFlag::NonImmediate,
            sequence_flow_behavior: SequenceFlowBehavior::Normal,
        }
    }

    /// Returns the identifier of the flow.
    pub fn id(&self) -> (r: &SequenceFlowId)
        ensures
            r@ == self@.id,
    {
        &self.id
    }

    /// Sets the identifier of the flow.
    pub fn set_id(&mut self, id: FlowObjectId)
        ensures
            final(self)@ == (SequenceFlowView { id: id@, ..old(self)@ }),
    {
        self.id = id;
    }

    /// Returns the identifier of the source flow object.
    pub fn source_ref(&self) -> (r: &FlowObjectId)
        ensures
            r@ == self@.source_ref,
    {
        &self.source_ref
    }

    /// Sets the identifier of the source flow object.
    pub fn set_source_ref(&mut self, source_ref: FlowObjectId)
        ensures
            final(self)@ == (SequenceFlowView { source_ref: source_ref@, ..old(self)@ }),
    {
        self.source_ref = source_ref;
    }

    /// Returns the identifier of the target flow object.
    pub fn target_ref(&self) -> (r: &FlowObjectId)
        ensures
            r@ == self@.target_ref,
    {
        &self.target_ref
    }

    /// Sets the identifier of the target flow object.
    pub fn set_target_ref(&mut self, target_ref: FlowObjectId)
        ensures
            final(self)@ == (SequenceFlowView { target_ref: target_ref@, ..old(self)@ }),
    {
        self.target_ref = target_ref;
    }

    /// Returns the immediacy flag.
    pub fn is_immediate(&self) -> (r: ImmediateFlag)
        ensures
            r == self@.is_immediate,
    {
        self.is_immediate
    }

    /// Sets the immediacy flag.
    pub fn set_is_immediate(&mut self, is_immediate: ImmediateFlag)
        ensures
            final(self)@ == (SequenceFlowView { is_immediate: is_immediate, ..old(self)@ }),
    {
        self.is_immediate = is_immediate;
    }

    /// Returns the behavior of the flow.
    pub fn sequence_flow_behavior(&self) -> (r: &SequenceFlowBehavior)
        ensures
            *r == self@.behavior,
    {
        &self.sequence_flow_behavior
    }

    /// Sets the behavior of the flow.
    pub fn set_behavior(&mut self, behavior: SequenceFlowBehavior)
        ensures
            final(self)@ == (SequenceFlowView { behavior: behavior, ..old(self)@ }),
    {
        self.sequence_flow_behavior = behavior;
    }

    /// Makes the flow unconditional.
    pub fn as_normal(&mut self)
        ensures
            final(self)@ == (SequenceFlowView { behavior: SequenceFlowBehavior::Normal, ..old(
                self,
            )@ }),
    {
        self.sequence_flow_behavior = SequenceFlowBehavior::Normal;
    }

    /// Makes the flow conditional on the given guard script.
    pub fn as_conditional(&mut self, condition: Option<Script>)
        ensures
            final(self)@.behavior matches SequenceFlowBehavior::Conditional(c) && c.spec_condition()
                == condition,
            final(self)@.id == old(self)@.id,
            final(self)@.source_ref == old(self)@.source_ref,
            final(self)@.target_ref == old(self)@.target_ref,
            final(self)@.is_immediate == old(self)@.is_immediate,
    {
        self.sequence_flow_behavior = SequenceFlowBehavior::Conditional(ConditionalFlow::new(
            condition,
        ));
    }
}

} // verus!
