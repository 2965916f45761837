//! The process engine: the interpreter that drives a process instance to
//! quiescence. It finds the start event, spawns the first token, and then
//! repeatedly takes an active token and processes the flow object it sits
//! on — executing tasks, routing at gateways, and consuming tokens at end
//! events.
//!
//! Condition outcomes are supplied as data: callers record, per
//! conditional-flow identifier (and per complex-gateway activation
//! condition text), whether the condition holds. This is the script
//! evaluator seam: a condition with no recorded outcome is not taken.

use vstd::prelude::*;
use vstd::arithmetic::power::{lemma_pow_increases, lemma_pow_positive,
    lemma_pow_strictly_increases, pow};
use crate::activity::ActivityType;
use crate::event::EventType;
use crate::flow_objects::{spec_is_start_event, FlowObject, FlowObjectType};
use crate::gateway::GatewayType;
use crate::path_identifier::{path_string_of, PathIdentifier};
use crate::runtime_errors::ProcessEngineError;
use crate::process::{fo_lookup, Process, ProcessView};
use crate::process_instance::{states_updated, FlowObjectState, ProcessInstance, RoutingFailure,
    TokenFailure};
use crate::sequence_flows::{SequenceFlow, SequenceFlowBehavior};
use crate::task::TaskType;
use crate::text::str_eq;
use crate::token::{token_moved_to, token_with_state, Token, TokenState};
use crate::token_id::{generate_token_id, is_token_suffix};

verus! {

/// The first start event of the process, scanning the flow objects in
/// insertion order from position `i`.
pub open spec fn first_start_event_from(s: Seq<FlowObject>, i: int) -> Option<FlowObject>
    decreases s.len() - i,
{
    if i < 0 || i >= s.len() {
        None
    } else if spec_is_start_event(s[i]) {
        Some(s[i])
    } else {
        first_start_event_from(s, i + 1)
    }
}

/// The first start event of the process in insertion order, if any.
pub open spec fn first_start_event(s: Seq<FlowObject>) -> Option<FlowObject> {
    first_start_event_from(s, 0)
}

/// The recorded outcome of a condition, scanning the table from position
/// `i`; the earliest entry for a key wins.
pub open spec fn cond_lookup_from(table: Seq<(String, bool)>, key: Seq<char>, i: int) -> Option<
    bool,
>
    decreases table.len() - i,
{
    if i < 0 || i >= table.len() {
        None
    } else if table[i].0@ == key {
        Some(table[i].1)
    } else {
        cond_lookup_from(table, key, i + 1)
    }
}

/// The recorded outcome of a condition, if any.
pub open spec fn cond_lookup(table: Seq<(String, bool)>, key: Seq<char>) -> Option<bool> {
    cond_lookup_from(table, key, 0)
}

/// The predicate keeping every sequence flow leaving the given node.
pub open spec fn flow_from(src: Seq<char>) -> spec_fn(SequenceFlow) -> bool {
    |f: SequenceFlow| f@.source_ref == src
}

/// The outgoing flows of a node, in stored order.
pub open spec fn outgoing_flows(flows: Seq<SequenceFlow>, src: Seq<char>) -> Seq<SequenceFlow> {
    flows.filter(flow_from(src))
}

/// A flow may be taken: unconditionally for a normal flow, and only on a
/// recorded true outcome for a conditional one.
pub open spec fn flow_eligible(f: SequenceFlow, table: Seq<(String, bool)>) -> bool {
    match f@.behavior {
        SequenceFlowBehavior::Normal => true,
        SequenceFlowBehavior::Conditional(_) => cond_lookup(table, f@.id) == Some(true),
    }
}

/// The index of the first eligible flow at or after position `i`.
pub open spec fn first_eligible_from(
    flows: Seq<SequenceFlow>,
    table: Seq<(String, bool)>,
    i: int,
) -> Option<int>
    decreases flows.len() - i,
{
    if i < 0 || i >= flows.len() {
        None
    } else if flow_eligible(flows[i], table) {
        Some(i)
    } else {
        first_eligible_from(flows, table, i + 1)
    }
}

/// The index of the first conditional flow with a recorded true outcome,
/// at or after position `i`.
pub open spec fn first_true_conditional_from(
    flows: Seq<SequenceFlow>,
    table: Seq<(String, bool)>,
    i: int,
) -> Option<int>
    decreases flows.len() - i,
{
    if i < 0 || i >= flows.len() {
        None
    } else if flows[i]@.behavior is Conditional && cond_lookup(table, flows[i]@.id) == Some(true) {
        Some(i)
    } else {
        first_true_conditional_from(flows, table, i + 1)
    }
}

/// The index of the first flow with the given identifier, at or after
/// position `i`.
pub open spec fn flow_index_with_id_from(flows: Seq<SequenceFlow>, id: Seq<char>, i: int) -> Option<
    int,
>
    decreases flows.len() - i,
{
    if i < 0 || i >= flows.len() {
        None
    } else if flows[i]@.id == id {
        Some(i)
    } else {
        flow_index_with_id_from(flows, id, i + 1)
    }
}

/// The routing decision of an exclusive gateway: the first conditional
/// flow whose condition holds; failing that, the declared default flow,
/// located among the outgoing flows by its identifier.
pub open spec fn exclusive_choice(
    flows: Seq<SequenceFlow>,
    table: Seq<(String, bool)>,
    default_flow: Option<String>,
) -> Option<int> {
    match first_true_conditional_from(flows, table, 0) {
        Some(i) => Some(i),
        None => match default_flow {
            Some(d) => flow_index_with_id_from(flows, d@, 0),
            None => None,
        },
    }
}

/// The indices of every eligible flow at or after position `i`, in order.
pub open spec fn eligible_indices_from(
    flows: Seq<SequenceFlow>,
    table: Seq<(String, bool)>,
    i: int,
) -> Seq<int>
    decreases flows.len() - i,
{
    if i < 0 || i >= flows.len() {
        Seq::<int>::empty()
    } else if flow_eligible(flows[i], table) {
        seq![i] + eligible_indices_from(flows, table, i + 1)
    } else {
        eligible_indices_from(flows, table, i + 1)
    }
}

/// The indices of every flow a complex gateway takes, at or after
/// position `i`: the flow at a position is taken when the activation
/// condition at the same position has a recorded true outcome.
pub open spec fn complex_indices_from(
    flows: Seq<SequenceFlow>,
    table: Seq<(String, bool)>,
    conditions: Seq<String>,
    i: int,
) -> Seq<int>
    decreases flows.len() - i,
{
    if i < 0 || i >= flows.len() {
        Seq::<int>::empty()
    } else if i < conditions.len() && cond_lookup(table, conditions[i]@) == Some(true) {
        seq![i] + complex_indices_from(flows, table, conditions, i + 1)
    } else {
        complex_indices_from(flows, table, conditions, i + 1)
    }
}

/// `t` is a child token spawned from `parent` along `flow`: named after
/// the flow with the parent recorded in its path, sitting at the flow's
/// target, active, and carrying the parent's variable snapshot.
pub open spec fn spawned_child(parent: Token, t: Token, flow: SequenceFlow) -> bool {
    &&& exists|sfx: Seq<char>|
        is_token_suffix(sfx) && t.id@ == flow@.id + seq!['/'] + parent.id@ + seq!['-'] + sfx
    &&& t.current_node_id@ == flow@.target_ref
    &&& t.state == TokenState::Active
    &&& t.parent_token_id matches Some(p) && p@ == parent.id@
    &&& t.child_tokens@ == Seq::<String>::empty()
    &&& t.process_variables@ == parent.process_variables@
}

/// The first token that is paused and carries the given identifier,
/// scanning from position `i`.
pub open spec fn paused_token_index_from(tokens: Seq<Token>, id: Seq<char>, i: int) -> Option<int>
    decreases tokens.len() - i,
{
    if i < 0 || i >= tokens.len() {
        None
    } else if tokens[i].state == TokenState::Paused && tokens[i].id@ == id {
        Some(i)
    } else {
        paused_token_index_from(tokens, id, i + 1)
    }
}

/// The initial token of a run: sitting at the start event, active, with
/// no ancestry and no variables, named after the start event.
pub open spec fn initial_token(t: Token, start: FlowObject) -> bool {
    &&& exists|sfx: Seq<char>| is_token_suffix(sfx) && t.id@ == start.id@ + seq!['-'] + sfx
    &&& t.current_node_id@ == start.id@
    &&& t.state == TokenState::Active
    &&& t.parent_token_id is None
    &&& t.child_tokens@ == Seq::<String>::empty()
    &&& t.process_variables@ == Seq::<(String, String)>::empty()
}

/// The engine leaves the model and the recorded condition outcomes alone.
pub open spec fn model_unchanged(pre: ProcessEngine, post: ProcessEngine) -> bool {
    &&& post.process_instance.process == pre.process_instance.process
    &&& post.condition_results == pre.condition_results
}

/// `post` is `pre` with `token` terminated: the token is retained with
/// state `Terminated` and a failure naming it is recorded.
pub open spec fn terminated_with_failure(
    pre: ProcessEngine,
    post: ProcessEngine,
    token: Token,
    reason: RoutingFailure,
) -> bool {
    &&& post.process_instance.tokens@.len() == pre.process_instance.tokens@.len() + 1
    &&& post.process_instance.tokens@.drop_last() == pre.process_instance.tokens@
    &&& token_with_state(token, post.process_instance.tokens@.last(), TokenState::Terminated)
    &&& post.process_instance.failures@.len() == pre.process_instance.failures@.len() + 1
    &&& post.process_instance.failures@.drop_last() == pre.process_instance.failures@
    &&& post.process_instance.failures@.last().token_id@ == token.id@
    &&& post.process_instance.failures@.last().node_id@ == token.current_node_id@
    &&& post.process_instance.failures@.last().reason == reason
}

/// `post` is `pre` with `token` kept under the given terminal or parked
/// state, the visited node's execution state recorded, and no failure.
pub open spec fn parked_with_state(
    pre: ProcessEngine,
    post: ProcessEngine,
    token: Token,
    token_state: TokenState,
    node_state: FlowObjectState,
) -> bool {
    &&& post.process_instance.tokens@.len() == pre.process_instance.tokens@.len() + 1
    &&& post.process_instance.tokens@.drop_last() == pre.process_instance.tokens@
    &&& token_with_state(token, post.process_instance.tokens@.last(), token_state)
    &&& post.process_instance.failures == pre.process_instance.failures
    &&& states_updated(
        pre.process_instance.flow_object_states@,
        post.process_instance.flow_object_states@,
        token.current_node_id@,
        node_state,
    )
}

/// `post` is `pre` with `token` terminated for want of an eligible flow,
/// and the node marked failed.
pub open spec fn stuck_at_node(pre: ProcessEngine, post: ProcessEngine, token: Token) -> bool {
    &&& terminated_with_failure(pre, post, token, RoutingFailure::NoEligibleFlow)
    &&& states_updated(
        pre.process_instance.flow_object_states@,
        post.process_instance.flow_object_states@,
        token.current_node_id@,
        FlowObjectState::Failed,
    )
}

/// `post` is `pre` with the token advanced along the first eligible
/// outgoing flow of its node, or terminated when none is eligible. This
/// is the advance rule for tasks and events.
pub open spec fn advanced_one(pre: ProcessEngine, post: ProcessEngine, token: Token) -> bool {
    let flows = outgoing_flows(
        pre.process_instance.process@.sequence_flows,
        token.current_node_id@,
    );
    match first_eligible_from(flows, pre.condition_results@, 0) {
        Some(fi) => moved_to_target(pre, post, token, flows[fi]@.target_ref),
        None => stuck_at_node(pre, post, token),
    }
}

/// The process engine: a running instance plus the recorded condition
/// outcomes that stand in for a script evaluator.
pub struct ProcessEngine {
    /// The running process instance.
    pub process_instance: ProcessInstance,
    /// Recorded condition outcomes, keyed by conditional-flow identifier
    /// or by complex-gateway activation condition text; the newest entry
    /// for a key wins.
    pub condition_results: Vec<(String, bool)>,
}

impl ProcessEngine {
    /// Builds an engine over the instance and spawns the initial token at
    /// the first start event in insertion order. A process without a
    /// start event cannot run and is rejected.
    pub fn new(process: ProcessInstance) -> (r: Result<ProcessEngine, ProcessEngineError>)
        ensures
            match r {
                Ok(e) => {
                    &&& first_start_event(process.process@.flow_objects) matches Some(start)
                        && initial_token(e.process_instance.tokens@.last(), start)
                    &&& e.process_instance.tokens@.len() == process.tokens@.len() + 1
                    &&& e.process_instance.tokens@.drop_last() == process.tokens@
                    &&& e.process_instance.process == process.process
                    &&& e.process_instance.flow_object_states == process.flow_object_states
                    &&& e.process_instance.failures == process.failures
                    &&& e.condition_results@ == Seq::<(String, bool)>::empty()
                },
                Err(err) => err is NoStartEvent && first_start_event(
                    process.process@.flow_objects,
                ) is None,
            },
    {
        let mut engine = ProcessEngine { process_instance: process, condition_results: Vec::new() };
        match engine.initialize_tokens() {
            Ok(()) => Ok(engine),
            Err(e) => Err(e),
        }
    }

    /// Locates the start event and adds the initial token for it.
    fn initialize_tokens(&mut self) -> (r: Result<(), ProcessEngineError>)
        ensures
            match r {
                Ok(()) => {
                    &&& first_start_event(
                        old(self).process_instance.process@.flow_objects,
                    ) matches Some(start) && initial_token(
                        final(self).process_instance.tokens@.last(),
                        start,
                    )
                    &&& final(self).process_instance.tokens@.len() == old(self).process_instance.tokens@.len() + 1
                    &&& final(self).process_instance.tokens@.drop_last() == old(self).process_instance.tokens@
                    &&& final(self).process_instance.process == old(self).process_instance.process
                    &&& final(self).process_instance.flow_object_states == old(self).process_instance.flow_object_states
                    &&& final(self).process_instance.failures == old(self).process_instance.failures
                    &&& final(self).condition_results == old(self).condition_results
                },
                Err(err) => err is NoStartEvent && first_start_event(
                    old(self).process_instance.process@.flow_objects,
                ) is None && *final(self) == *old(self),
            },
    {
        let start_id: Option<String> = match self.find_start_event() {
            Some(fo) => Some(fo.id.clone()),
            None => None,
        };
        match start_id {
            Some(sid) => {
                let path_identifier = PathIdentifier::new_for_event(sid.clone(), None);
                let id = generate_token_id(path_identifier, None);
                proof {
                    assert(path_string_of(
                        PathIdentifier {
                            flow_element_id: sid,
                            loop_id: None,
                            parent_token_id: None,
                        }@,
                    ) =~= sid@);
                }
                let token = Token {
                    id,
                    current_node_id: sid,
                    state: TokenState::Active,
                    parent_token_id: None,
                    child_tokens: Vec::new(),
                    process_variables: Vec::new(),
                };
                self.process_instance.add_token(token);
                Ok(())
            }
            None => Err(ProcessEngineError::NoStartEvent),
        }
    }

    /// Finds the start event: the first flow object in insertion order
    /// whose kind is a start event.
    pub fn find_start_event(&self) -> (r: Option<&FlowObject>)
        ensures
            match r {
                Some(fo) => first_start_event(self.process_instance.process@.flow_objects) == Some(
                    *fo,
                ),
                None => first_start_event(self.process_instance.process@.flow_objects) is None,
            },
    {
        let values = self.process_instance.process.flow_objects().values();
        let ghost s = self.process_instance.process@.flow_objects;
        let n = values.len();
        let mut i: usize = 0;
        while i < n
            invariant
                s == self.process_instance.process@.flow_objects,
                n == s.len(),
                values@ == s,
                0 <= i <= n,
                first_start_event(s) == first_start_event_from(s, i as int),
            decreases n - i,
        {
            if crate::flow_objects::flowobject_is_start_event(&values[i]) {
                let fo = &values[i];
                proof {
                    assert(*fo == s[i as int]);
                    assert(first_start_event_from(s, i as int) == Some(s[i as int]));
                    assert(first_start_event(s) == Some(*fo));
                }
                return Some(fo);
            }
            i += 1;
        }
        None
    }

    /// Records the outcome of a condition; the newest entry for a key
    /// wins.
    pub fn set_condition_result(&mut self, key: &str, value: bool)
        ensures
            final(self).condition_results@.len() == old(self).condition_results@.len() + 1,
            final(self).condition_results@[0].0@ == key@,
            final(self).condition_results@[0].1 == value,
            final(self).condition_results@.skip(1) == old(self).condition_results@,
            cond_lookup(final(self).condition_results@, key@) == Some(value),
            final(self).process_instance == old(self).process_instance,
    {
        self.condition_results.insert(0, (String::from_str(key), value));
        proof {
            assert(self.condition_results@.skip(1) =~= old(self).condition_results@);
        }
    }

    /// Looks up the recorded outcome of a condition.
    fn cond_value(&self, key: &str) -> (r: Option<bool>)
        ensures
            r == cond_lookup(self.condition_results@, key@),
    {
        let ghost table = self.condition_results@;
        let n = self.condition_results.len();
        let mut i: usize = 0;
        while i < n
            invariant
                n == table.len(),
                table == self.condition_results@,
                0 <= i <= n,
                cond_lookup(table, key@) == cond_lookup_from(table, key@, i as int),
            decreases n - i,
        {
            if str_eq(self.condition_results[i].0.as_str(), key) {
                return Some(self.condition_results[i].1);
            }
            i += 1;
        }
        None
    }

    /// Runs the instance until no active token remains, processing the
    /// most recently added active token first. The result reports
    /// quiescence exactly: it is true precisely when no active token is
    /// left. The final state arises from the initial one by a finite
    /// trace of scheduling steps, each governed by the full step
    /// relation, and no token is ever dropped from the history. An
    /// astronomically large step budget bounds the loop, so a cyclic
    /// model cannot spin the engine forever; whenever some ranking
    /// bounds the engine's descent — every acyclic model whose token
    /// measure fits the budget — quiescence is reached outright.
    pub fn run(&mut self) -> (quiesced: bool)
        ensures
            model_unchanged(*old(self), *final(self)),
            quiesced <==> forall|i: int|
                0 <= i < final(self).process_instance.tokens@.len() ==> final(self).process_instance.tokens@[i].state != TokenState::Active,
            quiescence_guaranteed(*old(self)) ==> quiesced,
            final(self).process_instance.tokens@.len() >= old(self).process_instance.tokens@.len(),
            exists|n: nat| engine_reaches(*old(self), *final(self), n),
    {
        let ghost base = split_base(self.process_instance.process@);
        let ghost grank = choose|rank: spec_fn(Seq<char>) -> nat| descent_bounded(*self, rank);
        let ghost mut steps: nat = 0;
        proof {
            assert(engine_reaches(*old(self), *self, 0));
        }
        let mut fuel: u64 = u64::MAX;
        while fuel > 0
            invariant
                model_unchanged(*old(self), *self),
                base == split_base(self.process_instance.process@),
                self.process_instance.tokens@.len() >= old(self).process_instance.tokens@.len(),
                engine_reaches(*old(self), *self, steps),
                quiescence_guaranteed(*old(self)) ==> flow_ranked(
                    self.process_instance.process@,
                    grank,
                ) && active_measure(self.process_instance.tokens@, grank, base) <= fuel,
            decreases fuel,
        {
            let ghost prev = *self;
            let next = self.take_last_active();
            match next {
                Some(token) => {
                    let ghost mid = *self;
                    let ghost i = choose|i: int|
                        {
                            &&& 0 <= i < prev.process_instance.tokens@.len()
                            &&& prev.process_instance.tokens@[i] == token
                            &&& mid.process_instance.tokens@ == prev.process_instance.tokens@.remove(
                                i,
                            )
                            &&& forall|j: int|
                                i < j < prev.process_instance.tokens@.len()
                                    ==> prev.process_instance.tokens@[j].state
                                    != TokenState::Active
                        };
                    proof {
                        if quiescence_guaranteed(*old(self)) {
                            lemma_measure_remove(prev.process_instance.tokens@, i, grank, base);
                        }
                    }
                    self.process_token(token);
                    proof {
                        lemma_token_step_conserves(mid, *self, token);
                        if quiescence_guaranteed(*old(self)) {
                            lemma_token_step_measure(mid, *self, token, grank);
                        }
                        assert(engine_step(prev, *self)) by {
                            assert({
                                &&& 0 <= i < prev.process_instance.tokens@.len()
                                &&& prev.process_instance.tokens@[i].state == TokenState::Active
                                &&& forall|j: int|
                                    i < j < prev.process_instance.tokens@.len()
                                        ==> prev.process_instance.tokens@[j].state
                                        != TokenState::Active
                                &&& mid.process_instance.tokens@
                                    == prev.process_instance.tokens@.remove(i)
                                &&& mid.process_instance.process == prev.process_instance.process
                                &&& mid.process_instance.flow_object_states
                                    == prev.process_instance.flow_object_states
                                &&& mid.process_instance.failures == prev.process_instance.failures
                                &&& mid.condition_results == prev.condition_results
                                &&& token_step(mid, *self, prev.process_instance.tokens@[i])
                            });
                        }
                        steps = steps + 1;
                        assert(engine_reaches(*old(self), *self, steps));
                    }
                }
                None => {
                    return true;
                }
            }
            fuel -= 1;
        }
        let any_active = self.has_active_token();
        proof {
            if quiescence_guaranteed(*old(self)) && any_active {
                let i = choose|i: int|
                    0 <= i < self.process_instance.tokens@.len()
                        && self.process_instance.tokens@[i].state == TokenState::Active;
                lemma_measure_at_least_token(self.process_instance.tokens@, i, grank, base);
                lemma_pow_positive(
                    base as int,
                    grank(self.process_instance.tokens@[i].current_node_id@),
                );
            }
        }
        !any_active
    }

    /// Some token of the instance is active.
    pub fn has_active_token(&self) -> (r: bool)
        ensures
            r <==> exists|i: int|
                0 <= i < self.process_instance.tokens@.len()
                    && self.process_instance.tokens@[i].state == TokenState::Active,
    {
        let n = self.process_instance.tokens.len();
        let mut i: usize = 0;
        while i < n
            invariant
                n == self.process_instance.tokens@.len(),
                0 <= i <= n,
                forall|j: int|
                    0 <= j < i ==> self.process_instance.tokens@[j].state != TokenState::Active,
            decreases n - i,
        {
            let active = match self.process_instance.tokens[i].state {
                TokenState::Active => true,
                _ => false,
            };
            if active {
                return true;
            }
            i += 1;
        }
        false
    }

    /// Removes and returns the most recently added active token, if any.
    fn take_last_active(&mut self) -> (r: Option<Token>)
        ensures
            final(self).process_instance.process == old(self).process_instance.process,
            final(self).process_instance.flow_object_states == old(self).process_instance.flow_object_states,
            final(self).process_instance.failures == old(self).process_instance.failures,
            final(self).condition_results == old(self).condition_results,
            match r {
                Some(t) => {
                    &&& t.state == TokenState::Active
                    &&& exists|i: int|
                        {
                            &&& 0 <= i < old(self).process_instance.tokens@.len()
                            &&& old(self).process_instance.tokens@[i] == t
                            &&& final(self).process_instance.tokens@ == old(self).process_instance.tokens@.remove(i)
                            &&& forall|j: int|
                                i < j < old(self).process_instance.tokens@.len() ==> old(self).process_instance.tokens@[j].state != TokenState::Active
                        }
                },
                None => {
                    &&& final(self).process_instance.tokens == old(self).process_instance.tokens
                    &&& forall|i: int|
                        0 <= i < old(self).process_instance.tokens@.len() ==> old(self).process_instance.tokens@[i].state != TokenState::Active
                },
            },
    {
        let mut i = self.process_instance.tokens.len();
        while i > 0
            invariant
                *self == *old(self),
                0 <= i <= self.process_instance.tokens@.len(),
                forall|j: int|
                    i <= j < self.process_instance.tokens@.len() ==> self.process_instance.tokens@[
                        j
                    ].state != TokenState::Active,
            decreases i,
        {
            i -= 1;
            let active = match self.process_instance.tokens[i].state {
                TokenState::Active => true,
                _ => false,
            };
            if active {
                let t = self.process_instance.tokens.remove(i);
                proof {
                    let ghost ii = i as int;
                    assert(old(self).process_instance.tokens@[ii] == t);
                }
                return Some(t);
            }
        }
        None
    }
}

/// An owned summary of one outgoing flow: what routing needs to know.
struct OutFlow {
    id: String,
    target_ref: String,
    conditional: bool,
}

/// The summaries describe exactly the given flows, in order.
spec fn out_corresponds(ofs: Seq<OutFlow>, flows: Seq<SequenceFlow>) -> bool {
    &&& ofs.len() == flows.len()
    &&& forall|i: int|
        0 <= i < flows.len() ==> ofs[i].id@ == flows[i]@.id && ofs[i].target_ref@ == flows[i]@.target_ref
            && (ofs[i].conditional <==> flows[i]@.behavior is Conditional)
}

/// Collects summaries of the flows leaving the given node, in stored
/// order.
fn outgoing_of(process: &Process, node_id: &str) -> (r: Vec<OutFlow>)
    ensures
        out_corresponds(r@, outgoing_flows(process@.sequence_flows, node_id@)),
{
    let flows = process.sequence_flows();
    let ghost all = process@.sequence_flows;
    let n = flows.len();
    let mut out: Vec<OutFlow> = Vec::new();
    let mut i: usize = 0;
    while i < n
        invariant
            n == all.len(),
            flows@ == all,
            0 <= i <= n,
            out_corresponds(out@, all.take(i as int).filter(flow_from(node_id@))),
        decreases n - i,
    {
        proof {
            reveal(Seq::filter);
            assert(all.take(i + 1).drop_last() =~= all.take(i as int));
            assert(all.take(i + 1).last() == all[i as int]);
            assert(all.take(i + 1).filter(flow_from(node_id@)) == if flow_from(node_id@)(
                all[i as int],
            ) {
                all.take(i as int).filter(flow_from(node_id@)).push(all[i as int])
            } else {
                all.take(i as int).filter(flow_from(node_id@))
            });
        }
        if str_eq(flows[i].source_ref().as_str(), node_id) {
            let conditional = match flows[i].sequence_flow_behavior() {
                SequenceFlowBehavior::Normal => false,
                SequenceFlowBehavior::Conditional(_) => true,
            };
            out.push(
                OutFlow {
                    id: flows[i].id().clone(),
                    target_ref: flows[i].target_ref().clone(),
                    conditional,
                },
            );
        }
        i += 1;
    }
    proof {
        assert(all.take(n as int) =~= all);
    }
    out
}

/// Copies a vector of name-value pairs.
fn clone_pairs(v: &Vec<(String, String)>) -> (r: Vec<(String, String)>)
    ensures
        r@ == v@,
{
    let n = v.len();
    let mut out: Vec<(String, String)> = Vec::new();
    let mut i: usize = 0;
    while i < n
        invariant
            n == v@.len(),
            0 <= i <= n,
            out@ =~= v@.take(i as int),
        decreases n - i,
    {
        let entry = (v[i].0.clone(), v[i].1.clone());
        proof {
            assert(entry =~= v@[i as int]);
        }
        out.push(entry);
        i += 1;
    }
    proof {
        assert(v@.take(n as int) =~= v@);
    }
    out
}

/// Copies a vector of strings.
fn clone_strings(v: &Vec<String>) -> (r: Vec<String>)
    ensures
        r@ == v@,
{
    let n = v.len();
    let mut out: Vec<String> = Vec::new();
    let mut i: usize = 0;
    while i < n
        invariant
            n == v@.len(),
            0 <= i <= n,
            out@ =~= v@.take(i as int),
        decreases n - i,
    {
        out.push(v[i].clone());
        i += 1;
    }
    proof {
        assert(v@.take(n as int) =~= v@);
    }
    out
}

/// What routing needs to know of a flow object: which rule applies, plus
/// the gateway's default flow or activation conditions where it has them.
enum NodeKind {
    UserTask,
    AutomaticTask,
    StartEvent,
    EndEvent,
    IntermediateEvent,
    ExclusiveGw(Option<String>),
    ParallelGw,
    InclusiveGw(Option<String>),
    ComplexGw(Vec<String>),
    EventBasedGw,
}

/// The summary matches the flow object's kind.
spec fn node_kind_matches(t: FlowObjectType, k: NodeKind) -> bool {
    match t {
        FlowObjectType::Activity(ActivityType::Task(tt)) => if tt is UserTask {
            k is UserTask
        } else {
            k is AutomaticTask
        },
        FlowObjectType::Event(EventType::StartEvent(_)) => k is StartEvent,
        FlowObjectType::Event(EventType::EndEvent(_)) => k is EndEvent,
        FlowObjectType::Event(EventType::IntermediateEvent(_)) => k is IntermediateEvent,
        FlowObjectType::Gateway(GatewayType::ExclusiveGateway(g)) => k matches NodeKind::ExclusiveGw(
            d,
        ) && d == g.default_flow,
        FlowObjectType::Gateway(GatewayType::InclusiveGateway(g)) => k matches NodeKind::InclusiveGw(
            d,
        ) && d == g.default_flow,
        FlowObjectType::Gateway(GatewayType::ParallelGateway(_)) => k is ParallelGw,
        FlowObjectType::Gateway(GatewayType::ComplexGateway(g)) => k matches NodeKind::ComplexGw(cs)
            && cs@ == g.activation_conditions@,
        FlowObjectType::Gateway(GatewayType::EventBasedGateway(_)) => k is EventBasedGw,
    }
}

/// Summarizes a flow object for routing.
fn classify(fo: &FlowObject) -> (k: NodeKind)
    ensures
        node_kind_matches(fo.flow_object_type, k),
{
    match &fo.flow_object_type {
        FlowObjectType::Activity(ActivityType::Task(tt)) => match tt {
            TaskType::UserTask(_) => NodeKind::UserTask,
            TaskType::ServiceTask(_) => NodeKind::AutomaticTask,
            TaskType::ScriptTask(_) => NodeKind::AutomaticTask,
        },
        FlowObjectType::Event(EventType::StartEvent(_)) => NodeKind::StartEvent,
        FlowObjectType::Event(EventType::EndEvent(_)) => NodeKind::EndEvent,
        FlowObjectType::Event(EventType::IntermediateEvent(_)) => NodeKind::IntermediateEvent,
        FlowObjectType::Gateway(GatewayType::ExclusiveGateway(g)) => NodeKind::ExclusiveGw(
            match &g.default_flow {
                Some(d) => Some(d.clone()),
                None => None,
            },
        ),
        FlowObjectType::Gateway(GatewayType::InclusiveGateway(g)) => NodeKind::InclusiveGw(
            match &g.default_flow {
                Some(d) => Some(d.clone()),
                None => None,
            },
        ),
        FlowObjectType::Gateway(GatewayType::ParallelGateway(_)) => NodeKind::ParallelGw,
        FlowObjectType::Gateway(GatewayType::ComplexGateway(g)) => NodeKind::ComplexGw(
            clone_strings(&g.activation_conditions),
        ),
        FlowObjectType::Gateway(GatewayType::EventBasedGateway(_)) => NodeKind::EventBasedGw,
    }
}

/// `post` is `pre` with `token` advanced to the node named `target` and
/// the left node marked completed.
pub open spec fn moved_to_target(
    pre: ProcessEngine,
    post: ProcessEngine,
    token: Token,
    target: Seq<char>,
) -> bool {
    &&& post.process_instance.tokens@.len() == pre.process_instance.tokens@.len() + 1
    &&& post.process_instance.tokens@.drop_last() == pre.process_instance.tokens@
    &&& token_moved_to(token, post.process_instance.tokens@.last(), target)
    &&& post.process_instance.failures == pre.process_instance.failures
    &&& states_updated(
        pre.process_instance.flow_object_states@,
        post.process_instance.flow_object_states@,
        token.current_node_id@,
        FlowObjectState::Completed,
    )
}

/// `post` is `pre` with `token` split along the flows at the given
/// indices: the token itself continues along the first, one child token
/// is spawned per further index, and the parent records its children.
pub open spec fn split_case(
    pre: ProcessEngine,
    post: ProcessEngine,
    token: Token,
    flows: Seq<SequenceFlow>,
    els: Seq<int>,
) -> bool {
    let pn = pre.process_instance.tokens@.len() as int;
    let k = els.len() as int;
    let par = post.process_instance.tokens@.last();
    &&& post.process_instance.tokens@.len() == pn + k
    &&& post.process_instance.tokens@.take(pn) == pre.process_instance.tokens@
    &&& forall|ci: int|
        1 <= ci < k ==> spawned_child(token, post.process_instance.tokens@[pn + ci - 1], flows[els[ci]])
    &&& par.id == token.id
    &&& par.current_node_id@ == flows[els[0]]@.target_ref
    &&& par.state == TokenState::Active
    &&& par.parent_token_id == token.parent_token_id
    &&& par.process_variables == token.process_variables
    &&& par.child_tokens@.len() == token.child_tokens@.len() + k - 1
    &&& par.child_tokens@.take(token.child_tokens@.len() as int) == token.child_tokens@
    &&& forall|ci: int|
        #![trigger par.child_tokens@[token.child_tokens@.len() + ci - 1]]
        1 <= ci < k ==> par.child_tokens@[token.child_tokens@.len() + ci - 1]@
            == post.process_instance.tokens@[pn + ci - 1].id@
    &&& post.process_instance.failures == pre.process_instance.failures
    &&& states_updated(
        pre.process_instance.flow_object_states@,
        post.process_instance.flow_object_states@,
        token.current_node_id@,
        FlowObjectState::Completed,
    )
}

/// The outcome at an exclusive gateway: the chosen flow is taken, or the
/// token is terminated when neither a true condition nor a usable default
/// exists.
pub open spec fn exclusive_outcome(
    pre: ProcessEngine,
    post: ProcessEngine,
    token: Token,
    default_flow: Option<String>,
) -> bool {
    let flows = outgoing_flows(
        pre.process_instance.process@.sequence_flows,
        token.current_node_id@,
    );
    match exclusive_choice(flows, pre.condition_results@, default_flow) {
        Some(fi) => moved_to_target(pre, post, token, flows[fi]@.target_ref),
        None => stuck_at_node(pre, post, token),
    }
}

/// The outcome at a parallel gateway: every outgoing flow is taken, or
/// the token is terminated when the gateway has none.
pub open spec fn parallel_outcome(pre: ProcessEngine, post: ProcessEngine, token: Token) -> bool {
    let flows = outgoing_flows(
        pre.process_instance.process@.sequence_flows,
        token.current_node_id@,
    );
    if flows.len() == 0 {
        stuck_at_node(pre, post, token)
    } else {
        split_case(pre, post, token, flows, Seq::new(flows.len(), |i: int| i))
    }
}

/// The outcome at an inclusive gateway: every eligible flow is taken;
/// with none eligible, the declared default flow; with neither, the
/// token is terminated.
pub open spec fn inclusive_outcome(
    pre: ProcessEngine,
    post: ProcessEngine,
    token: Token,
    default_flow: Option<String>,
) -> bool {
    let flows = outgoing_flows(
        pre.process_instance.process@.sequence_flows,
        token.current_node_id@,
    );
    let els = eligible_indices_from(flows, pre.condition_results@, 0);
    if els.len() > 0 {
        split_case(pre, post, token, flows, els)
    } else {
        match default_flow {
            Some(d) => match flow_index_with_id_from(flows, d@, 0) {
                Some(fi) => moved_to_target(pre, post, token, flows[fi]@.target_ref),
                None => stuck_at_node(pre, post, token),
            },
            None => stuck_at_node(pre, post, token),
        }
    }
}

/// The outcome at a complex gateway: every flow whose activation
/// condition holds is taken, or the token is terminated when none does.
pub open spec fn complex_outcome(
    pre: ProcessEngine,
    post: ProcessEngine,
    token: Token,
    conditions: Seq<String>,
) -> bool {
    let flows = outgoing_flows(
        pre.process_instance.process@.sequence_flows,
        token.current_node_id@,
    );
    let els = complex_indices_from(flows, pre.condition_results@, conditions, 0);
    if els.len() > 0 {
        split_case(pre, post, token, flows, els)
    } else {
        stuck_at_node(pre, post, token)
    }
}

impl ProcessEngine {
    /// Terminates a token, recording the failure against the instance.
    fn terminate_token(&mut self, token: Token, reason: RoutingFailure)
        ensures
            model_unchanged(*old(self), *final(self)),
            terminated_with_failure(*old(self), *final(self), token, reason),
            final(self).process_instance.flow_object_states == old(self).process_instance.flow_object_states,
    {
        let failure = TokenFailure {
            token_id: token.id.clone(),
            node_id: token.current_node_id.clone(),
            reason,
        };
        self.process_instance.failures.push(failure);
        self.process_instance.tokens.push(Token { state: TokenState::Terminated, ..token });
        proof {
            assert(self.process_instance.tokens@.drop_last() =~= old(self).process_instance.tokens@);
            assert(self.process_instance.failures@.drop_last() =~= old(self).process_instance.failures@);
        }
    }

    /// Terminates a token that found no eligible flow, marking its node
    /// failed.
    fn stuck_token(&mut self, token: Token)
        ensures
            model_unchanged(*old(self), *final(self)),
            stuck_at_node(*old(self), *final(self), token),
    {
        let node = token.current_node_id.clone();
        self.process_instance.update_task_state(node.as_str(), FlowObjectState::Failed);
        self.terminate_token(token, RoutingFailure::NoEligibleFlow);
    }

    /// Keeps a token under a parked or terminal state and records its
    /// node's execution state.
    fn park_token(&mut self, token: Token, token_state: TokenState, node_state: FlowObjectState)
        ensures
            model_unchanged(*old(self), *final(self)),
            parked_with_state(*old(self), *final(self), token, token_state, node_state),
    {
        let node = token.current_node_id.clone();
        self.process_instance.tokens.push(Token { state: token_state, ..token });
        proof {
            assert(self.process_instance.tokens@.drop_last() =~= old(self).process_instance.tokens@);
        }
        self.process_instance.update_task_state(node.as_str(), node_state);
    }

    /// Advances a token to the named node and marks the node it left
    /// completed.
    fn advance_to(&mut self, token: Token, target: String)
        ensures
            model_unchanged(*old(self), *final(self)),
            moved_to_target(*old(self), *final(self), token, target@),
    {
        let node = token.current_node_id.clone();
        self.process_instance.tokens.push(
            Token { current_node_id: target, state: TokenState::Active, ..token },
        );
        proof {
            assert(self.process_instance.tokens@.drop_last() =~= old(self).process_instance.tokens@);
        }
        self.process_instance.update_task_state(node.as_str(), FlowObjectState::Completed);
    }

    /// Finds the first eligible flow among the summaries.
    fn first_eligible_of(&self, ofs: &Vec<OutFlow>, Ghost(flows): Ghost<Seq<SequenceFlow>>) -> (r:
        Option<usize>)
        requires
            out_corresponds(ofs@, flows),
        ensures
            match r {
                Some(i) => i < ofs@.len() && first_eligible_from(flows, self.condition_results@, 0)
                    == Some(i as int),
                None => first_eligible_from(flows, self.condition_results@, 0) is None,
            },
    {
        let n = ofs.len();
        let mut i: usize = 0;
        while i < n
            invariant
                out_corresponds(ofs@, flows),
                n == ofs@.len(),
                0 <= i <= n,
                first_eligible_from(flows, self.condition_results@, 0) == first_eligible_from(
                    flows,
                    self.condition_results@,
                    i as int,
                ),
            decreases n - i,
        {
            let ok = if ofs[i].conditional {
                match self.cond_value(ofs[i].id.as_str()) {
                    Some(true) => true,
                    _ => false,
                }
            } else {
                true
            };
            if ok {
                proof {
                    assert(flow_eligible(flows[i as int], self.condition_results@));
                }
                return Some(i);
            }
            proof {
                assert(!flow_eligible(flows[i as int], self.condition_results@));
            }
            i += 1;
        }
        None
    }

    /// Finds the first conditional flow with a recorded true outcome.
    fn first_true_conditional_of(
        &self,
        ofs: &Vec<OutFlow>,
        Ghost(flows): Ghost<Seq<SequenceFlow>>,
    ) -> (r: Option<usize>)
        requires
            out_corresponds(ofs@, flows),
        ensures
            match r {
                Some(i) => i < ofs@.len() && first_true_conditional_from(
                    flows,
                    self.condition_results@,
                    0,
                ) == Some(i as int),
                None => first_true_conditional_from(flows, self.condition_results@, 0) is None,
            },
    {
        let n = ofs.len();
        let mut i: usize = 0;
        while i < n
            invariant
                out_corresponds(ofs@, flows),
                n == ofs@.len(),
                0 <= i <= n,
                first_true_conditional_from(flows, self.condition_results@, 0)
                    == first_true_conditional_from(flows, self.condition_results@, i as int),
            decreases n - i,
        {
            let ok = if ofs[i].conditional {
                match self.cond_value(ofs[i].id.as_str()) {
                    Some(true) => true,
                    _ => false,
                }
            } else {
                false
            };
            if ok {
                return Some(i);
            }
            i += 1;
        }
        None
    }

    /// Collects the indices of every eligible flow, in order.
    fn eligible_list(&self, ofs: &Vec<OutFlow>, Ghost(flows): Ghost<Seq<SequenceFlow>>) -> (r: Vec<
        usize,
    >)
        requires
            out_corresponds(ofs@, flows),
        ensures
            r@.map_values(|u: usize| u as int) == eligible_indices_from(
                flows,
                self.condition_results@,
                0,
            ),
            forall|ci: int| 0 <= ci < r@.len() ==> r@[ci] < ofs@.len(),
    {
        let n = ofs.len();
        let mut out: Vec<usize> = Vec::new();
        let mut i: usize = 0;
        while i < n
            invariant
                out_corresponds(ofs@, flows),
                n == ofs@.len(),
                0 <= i <= n,
                eligible_indices_from(flows, self.condition_results@, 0) =~= out@.map_values(
                    |u: usize| u as int,
                ) + eligible_indices_from(flows, self.condition_results@, i as int),
                forall|ci: int| 0 <= ci < out@.len() ==> out@[ci] < n,
            decreases n - i,
        {
            let ok = if ofs[i].conditional {
                match self.cond_value(ofs[i].id.as_str()) {
                    Some(true) => true,
                    _ => false,
                }
            } else {
                true
            };
            if ok {
                proof {
                    assert(flow_eligible(flows[i as int], self.condition_results@));
                }
                let ghost before = out@;
                out.push(i);
                proof {
                    assert(out@.map_values(|u: usize| u as int) =~= before.map_values(
                        |u: usize| u as int,
                    ).push(i as int));
                }
            } else {
                proof {
                    assert(!flow_eligible(flows[i as int], self.condition_results@));
                }
            }
            i += 1;
        }
        proof {
            assert(eligible_indices_from(flows, self.condition_results@, 0) =~= out@.map_values(
                |u: usize| u as int,
            ));
        }
        out
    }

    /// Collects the indices of every flow whose activation condition has
    /// a recorded true outcome, in order.
    fn complex_list(
        &self,
        ofs: &Vec<OutFlow>,
        conditions: &Vec<String>,
        Ghost(flows): Ghost<Seq<SequenceFlow>>,
    ) -> (r: Vec<usize>)
        requires
            out_corresponds(ofs@, flows),
        ensures
            r@.map_values(|u: usize| u as int) == complex_indices_from(
                flows,
                self.condition_results@,
                conditions@,
                0,
            ),
            forall|ci: int| 0 <= ci < r@.len() ==> r@[ci] < ofs@.len(),
    {
        let n = ofs.len();
        let mut out: Vec<usize> = Vec::new();
        let mut i: usize = 0;
        while i < n
            invariant
                out_corresponds(ofs@, flows),
                n == ofs@.len(),
                0 <= i <= n,
                complex_indices_from(flows, self.condition_results@, conditions@, 0)
                    =~= out@.map_values(|u: usize| u as int) + complex_indices_from(
                    flows,
                    self.condition_results@,
                    conditions@,
                    i as int,
                ),
                forall|ci: int| 0 <= ci < out@.len() ==> out@[ci] < n,
            decreases n - i,
        {
            let ok = if i < conditions.len() {
                match self.cond_value(conditions[i].as_str()) {
                    Some(true) => true,
                    _ => false,
                }
            } else {
                false
            };
            if ok {
                let ghost before = out@;
                out.push(i);
                proof {
                    assert(out@.map_values(|u: usize| u as int) =~= before.map_values(
                        |u: usize| u as int,
                    ).push(i as int));
                }
            }
            i += 1;
        }
        proof {
            assert(complex_indices_from(flows, self.condition_results@, conditions@, 0)
                =~= out@.map_values(|u: usize| u as int));
        }
        out
    }

    /// Finds the first flow carrying the given identifier.
    fn flow_with_id_of(
        &self,
        ofs: &Vec<OutFlow>,
        id: &str,
        Ghost(flows): Ghost<Seq<SequenceFlow>>,
    ) -> (r: Option<usize>)
        requires
            out_corresponds(ofs@, flows),
        ensures
            match r {
                Some(i) => i < ofs@.len() && flow_index_with_id_from(flows, id@, 0) == Some(
                    i as int,
                ),
                None => flow_index_with_id_from(flows, id@, 0) is None,
            },
    {
        let n = ofs.len();
        let mut i: usize = 0;
        while i < n
            invariant
                out_corresponds(ofs@, flows),
                n == ofs@.len(),
                0 <= i <= n,
                flow_index_with_id_from(flows, id@, 0) == flow_index_with_id_from(
                    flows,
                    id@,
                    i as int,
                ),
            decreases n - i,
        {
            if str_eq(ofs[i].id.as_str(), id) {
                return Some(i);
            }
            i += 1;
        }
        None
    }

    /// Splits a token along the flows at the given indices: the token
    /// continues along the first, a child token is spawned per further
    /// flow, and the parent records its children.
    fn split_along(
        &mut self,
        token: Token,
        ofs: &Vec<OutFlow>,
        els: &Vec<usize>,
        Ghost(flows): Ghost<Seq<SequenceFlow>>,
    )
        requires
            out_corresponds(ofs@, flows),
            els@.len() >= 1,
            forall|ci: int| 0 <= ci < els@.len() ==> els@[ci] < ofs@.len(),
        ensures
            model_unchanged(*old(self), *final(self)),
            split_case(
                *old(self),
                *final(self),
                token,
                flows,
                els@.map_values(|u: usize| u as int),
            ),
    {
        let node = token.current_node_id.clone();
        let parent_id = token.id.clone();
        let k = els.len();
        let mut new_children = clone_strings(&token.child_tokens);
        let ghost pn = self.process_instance.tokens@.len() as int;
        let ghost base = token.child_tokens@.len() as int;
        let mut ci: usize = 1;
        while ci < k
            invariant
                out_corresponds(ofs@, flows),
                k == els@.len(),
                forall|cj: int| 0 <= cj < els@.len() ==> els@[cj] < ofs@.len(),
                1 <= ci <= k,
                parent_id == token.id,
                pn == old(self).process_instance.tokens@.len() as int,
                base == token.child_tokens@.len() as int,
                model_unchanged(*old(self), *self),
                self.process_instance.flow_object_states == old(self).process_instance.flow_object_states,
                self.process_instance.failures == old(self).process_instance.failures,
                self.process_instance.tokens@.len() == pn + ci - 1,
                self.process_instance.tokens@.take(pn) == old(self).process_instance.tokens@,
                forall|cj: int|
                    1 <= cj < ci ==> spawned_child(
                        token,
                        self.process_instance.tokens@[pn + cj - 1],
                        flows[els@[cj] as int],
                    ),
                new_children@.len() == base + ci - 1,
                new_children@.take(base) == token.child_tokens@,
                forall|cj: int|
                    #![trigger new_children@[base + cj - 1]]
                    1 <= cj < ci ==> new_children@[base + cj - 1]@ == self.process_instance.tokens@[
                        pn + cj - 1
                    ].id@,
            decreases k - ci,
        {
            let fi = els[ci];
            let path = PathIdentifier::new_for_sequence_flow(
                ofs[fi].id.clone(),
                Some(parent_id.clone()),
            );
            let tid = generate_token_id(path, None);
            proof {
                assert(path_string_of(path@) =~= ofs@[fi as int].id@ + seq!['/'] + parent_id@);
                let sfx = choose|sfx: Seq<char>|
                    is_token_suffix(sfx) && tid@ == Seq::<char>::empty() + path_string_of(path@)
                        + seq!['-'] + sfx;
                assert(tid@ =~= flows[els@[ci as int] as int]@.id + seq!['/'] + token.id@
                    + seq!['-'] + sfx);
            }
            let tid_copy = tid.clone();
            let child = Token {
                id: tid,
                current_node_id: ofs[fi].target_ref.clone(),
                state: TokenState::Active,
                parent_token_id: Some(parent_id.clone()),
                child_tokens: Vec::new(),
                process_variables: clone_pairs(&token.process_variables),
            };
            proof {
                assert(spawned_child(token, child, flows[els@[ci as int] as int]));
            }
            new_children.push(tid_copy);
            self.process_instance.tokens.push(child);
            proof {
                assert(self.process_instance.tokens@.take(pn) =~= old(self).process_instance.tokens@);
                assert(new_children@.take(base) =~= token.child_tokens@);
            }
            ci += 1;
        }
        let target = ofs[els[0]].target_ref.clone();
        let parent_tok = Token {
            current_node_id: target,
            state: TokenState::Active,
            child_tokens: new_children,
            ..token
        };
        self.process_instance.tokens.push(parent_tok);
        self.process_instance.update_task_state(node.as_str(), FlowObjectState::Completed);
        proof {
            assert(self.process_instance.tokens@.take(pn) =~= old(self).process_instance.tokens@);
            let els_int = els@.map_values(|u: usize| u as int);
            assert(els_int[0] == els@[0] as int);
            assert forall|cj: int| 1 <= cj < els_int.len() implies spawned_child(
                token,
                self.process_instance.tokens@[pn + cj - 1],
                flows[els_int[cj]],
            ) by {
                assert(els_int[cj] == els@[cj] as int);
            }
        }
    }

    /// Processes one token: dispatches on the kind of the flow object it
    /// sits on and advances, parks, splits, or terminates it.
    pub fn process_token(&mut self, token: Token)
        ensures
            model_unchanged(*old(self), *final(self)),
            token_step(*old(self), *final(self), token),
    {
        let kind_opt: Option<NodeKind> = match self.process_instance.process.flow_objects().get(
            token.current_node_id.as_str(),
        ) {
            Some(fo) => Some(classify(fo)),
            None => None,
        };
        let ghost flows = outgoing_flows(
            self.process_instance.process@.sequence_flows,
            token.current_node_id@,
        );
        match kind_opt {
            None => {
                self.terminate_token(token, RoutingFailure::NodeNotFound);
            }
            Some(NodeKind::UserTask) => {
                self.park_token(token, TokenState::Paused, FlowObjectState::Suspended);
            }
            Some(NodeKind::EventBasedGw) => {
                self.park_token(token, TokenState::Paused, FlowObjectState::Suspended);
            }
            Some(NodeKind::AutomaticTask) => {
                self.move_token_to_next_node(token);
            }
            Some(NodeKind::StartEvent) => {
                self.move_token_to_next_node(token);
            }
            Some(NodeKind::IntermediateEvent) => {
                self.move_token_to_next_node(token);
            }
            Some(NodeKind::EndEvent) => {
                self.park_token(token, TokenState::Completed, FlowObjectState::Completed);
            }
            Some(NodeKind::ExclusiveGw(default_flow)) => {
                let ofs = outgoing_of(&self.process_instance.process, token.current_node_id.as_str());
                let first_cond = self.first_true_conditional_of(&ofs, Ghost(flows));
                let choice: Option<usize> = match first_cond {
                    Some(i) => Some(i),
                    None => match &default_flow {
                        Some(d) => self.flow_with_id_of(&ofs, d.as_str(), Ghost(flows)),
                        None => None,
                    },
                };
                match choice {
                    Some(fi) => {
                        let target = ofs[fi].target_ref.clone();
                        self.advance_to(token, target);
                    }
                    None => {
                        self.stuck_token(token);
                    }
                }
            }
            Some(NodeKind::ParallelGw) => {
                let ofs = outgoing_of(&self.process_instance.process, token.current_node_id.as_str());
                let k = ofs.len();
                if k == 0 {
                    self.stuck_token(token);
                } else {
                    let mut els: Vec<usize> = Vec::new();
                    let mut i: usize = 0;
                    while i < k
                        invariant
                            0 <= i <= k,
                            els@.len() == i,
                            forall|ci: int| 0 <= ci < i ==> els@[ci] == ci,
                        decreases k - i,
                    {
                        els.push(i);
                        i += 1;
                    }
                    proof {
                        assert(els@.map_values(|u: usize| u as int) =~= Seq::new(
                            flows.len(),
                            |i: int| i,
                        ));
                    }
                    self.split_along(token, &ofs, &els, Ghost(flows));
                }
            }
            Some(NodeKind::InclusiveGw(default_flow)) => {
                let ofs = outgoing_of(&self.process_instance.process, token.current_node_id.as_str());
                let els = self.eligible_list(&ofs, Ghost(flows));
                if els.len() > 0 {
                    self.split_along(token, &ofs, &els, Ghost(flows));
                } else {
                    let choice: Option<usize> = match &default_flow {
                        Some(d) => self.flow_with_id_of(&ofs, d.as_str(), Ghost(flows)),
                        None => None,
                    };
                    match choice {
                        Some(fi) => {
                            let target = ofs[fi].target_ref.clone();
                            self.advance_to(token, target);
                        }
                        None => {
                            self.stuck_token(token);
                        }
                    }
                }
            }
            Some(NodeKind::ComplexGw(conditions)) => {
                let ofs = outgoing_of(&self.process_instance.process, token.current_node_id.as_str());
                let els = self.complex_list(&ofs, &conditions, Ghost(flows));
                if els.len() > 0 {
                    self.split_along(token, &ofs, &els, Ghost(flows));
                } else {
                    self.stuck_token(token);
                }
            }
        }
    }

    /// Advances a token along the first eligible outgoing flow of its
    /// node, or terminates it when none is eligible.
    fn move_token_to_next_node(&mut self, token: Token)
        ensures
            model_unchanged(*old(self), *final(self)),
            advanced_one(*old(self), *final(self), token),
    {
        let ofs = outgoing_of(&self.process_instance.process, token.current_node_id.as_str());
        let ghost flows = outgoing_flows(
            self.process_instance.process@.sequence_flows,
            token.current_node_id@,
        );
        match self.first_eligible_of(&ofs, Ghost(flows)) {
            Some(fi) => {
                let target = ofs[fi].target_ref.clone();
                self.advance_to(token, target);
            }
            None => {
                self.stuck_token(token);
            }
        }
    }

    /// Reactivates a paused token: its parked work counts as done, the
    /// given variables merge into its bindings, and it advances off its
    /// node, so that a further `run` carries it on. Fails when no paused
    /// token carries the identifier.
    pub fn resume(&mut self, token_id: &str, variables: Vec<(String, String)>) -> (r: Result<
        (),
        ProcessEngineError,
    >)
        ensures
            model_unchanged(*old(self), *final(self)),
            match paused_token_index_from(old(self).process_instance.tokens@, token_id@, 0) {
                Some(i) => r is Ok && resumed_token_advanced(
                    *old(self),
                    *final(self),
                    old(self).process_instance.tokens@[i],
                    old(self).process_instance.tokens@[i].process_variables@ + variables@,
                    old(self).process_instance.tokens@.remove(i),
                ),
                None => r matches Err(ProcessEngineError::PausedTokenNotFound(id)) && id@
                    == token_id@ && *final(self) == *old(self),
            },
    {
        let n = self.process_instance.tokens.len();
        let mut i: usize = 0;
        while i < n
            invariant
                *self == *old(self),
                n == self.process_instance.tokens@.len(),
                0 <= i <= n,
                paused_token_index_from(self.process_instance.tokens@, token_id@, 0)
                    == paused_token_index_from(self.process_instance.tokens@, token_id@, i as int),
            decreases n - i,
        {
            let hit = match self.process_instance.tokens[i].state {
                TokenState::Paused => str_eq(self.process_instance.tokens[i].id.as_str(), token_id),
                _ => false,
            };
            if hit {
                let t = self.process_instance.tokens.remove(i);
                let Token {
                    id,
                    current_node_id,
                    state: _,
                    parent_token_id,
                    child_tokens,
                    process_variables,
                } = t;
                let mut pv = process_variables;
                let ghost pv0 = pv@;
                let vn = variables.len();
                let mut vi: usize = 0;
                while vi < vn
                    invariant
                        vn == variables@.len(),
                        0 <= vi <= vn,
                        pv@ =~= pv0 + variables@.take(vi as int),
                    decreases vn - vi,
                {
                    let entry = (variables[vi].0.clone(), variables[vi].1.clone());
                    proof {
                        assert(entry =~= variables@[vi as int]);
                    }
                    pv.push(entry);
                    proof {
                        assert(pv@ =~= pv0 + variables@.take(vi + 1));
                    }
                    vi += 1;
                }
                proof {
                    assert(variables@.take(vn as int) =~= variables@);
                }
                let nt = Token {
                    id,
                    current_node_id,
                    state: TokenState::Active,
                    parent_token_id,
                    child_tokens,
                    process_variables: pv,
                };
                proof {
                    assert(self.process_instance.tokens@ =~= old(
                        self,
                    ).process_instance.tokens@.remove(i as int));
                }
                self.move_token_to_next_node(nt);
                return Ok(());
            }
            i += 1;
        }
        Err(ProcessEngineError::PausedTokenNotFound(String::from_str(token_id)))
    }
}

/// `post` is `pre` with the paused token `o` reactivated under the merged
/// variable bindings and advanced off its node — the completion of the
/// work the token was parked for: it moves along the first eligible
/// outgoing flow, or is terminated when none is eligible. `others` are
/// the remaining tokens, which stay untouched.
pub open spec fn resumed_token_advanced(
    pre: ProcessEngine,
    post: ProcessEngine,
    o: Token,
    merged_vars: Seq<(String, String)>,
    others: Seq<Token>,
) -> bool {
    let flows = outgoing_flows(pre.process_instance.process@.sequence_flows, o.current_node_id@);
    match first_eligible_from(flows, pre.condition_results@, 0) {
        Some(fi) => {
            &&& post.process_instance.tokens@.len() == others.len() + 1
            &&& post.process_instance.tokens@.drop_last() == others
            &&& ({
                let t = post.process_instance.tokens@.last();
                &&& t.id == o.id
                &&& t.current_node_id@ == flows[fi]@.target_ref
                &&& t.state == TokenState::Active
                &&& t.parent_token_id == o.parent_token_id
                &&& t.child_tokens == o.child_tokens
                &&& t.process_variables@ == merged_vars
            })
            &&& post.process_instance.failures == pre.process_instance.failures
            &&& states_updated(
                pre.process_instance.flow_object_states@,
                post.process_instance.flow_object_states@,
                o.current_node_id@,
                FlowObjectState::Completed,
            )
        },
        None => {
            &&& post.process_instance.tokens@.len() == others.len() + 1
            &&& post.process_instance.tokens@.drop_last() == others
            &&& ({
                let t = post.process_instance.tokens@.last();
                &&& t.id == o.id
                &&& t.current_node_id == o.current_node_id
                &&& t.state == TokenState::Terminated
                &&& t.parent_token_id == o.parent_token_id
                &&& t.child_tokens == o.child_tokens
                &&& t.process_variables@ == merged_vars
            })
            &&& post.process_instance.failures@.len() == pre.process_instance.failures@.len() + 1
            &&& post.process_instance.failures@.drop_last() == pre.process_instance.failures@
            &&& post.process_instance.failures@.last().token_id@ == o.id@
            &&& post.process_instance.failures@.last().node_id@ == o.current_node_id@
            &&& post.process_instance.failures@.last().reason == RoutingFailure::NoEligibleFlow
            &&& states_updated(
                pre.process_instance.flow_object_states@,
                post.process_instance.flow_object_states@,
                o.current_node_id@,
                FlowObjectState::Failed,
            )
        },
    }
}

/// The full step relation of the engine: what processing one token does,
/// by the kind of the flow object it sits on.
pub open spec fn token_step(pre: ProcessEngine, post: ProcessEngine, token: Token) -> bool {
    match fo_lookup(pre.process_instance.process@.flow_objects, token.current_node_id@) {
        None => terminated_with_failure(pre, post, token, RoutingFailure::NodeNotFound)
            && post.process_instance.flow_object_states == pre.process_instance.flow_object_states,
        Some(fo) => match fo.flow_object_type {
            FlowObjectType::Activity(ActivityType::Task(tt)) => if tt is UserTask {
                parked_with_state(
                    pre,
                    post,
                    token,
                    TokenState::Paused,
                    FlowObjectState::Suspended,
                )
            } else {
                advanced_one(pre, post, token)
            },
            FlowObjectType::Event(EventType::StartEvent(_)) => advanced_one(pre, post, token),
            FlowObjectType::Event(EventType::IntermediateEvent(_)) => advanced_one(
                pre,
                post,
                token,
            ),
            FlowObjectType::Event(EventType::EndEvent(_)) => parked_with_state(
                pre,
                post,
                token,
                TokenState::Completed,
                FlowObjectState::Completed,
            ),
            FlowObjectType::Gateway(GatewayType::ExclusiveGateway(g)) => exclusive_outcome(
                pre,
                post,
                token,
                g.default_flow,
            ),
            FlowObjectType::Gateway(GatewayType::InclusiveGateway(g)) => inclusive_outcome(
                pre,
                post,
                token,
                g.default_flow,
            ),
            FlowObjectType::Gateway(GatewayType::ParallelGateway(_)) => parallel_outcome(
                pre,
                post,
                token,
            ),
            FlowObjectType::Gateway(GatewayType::ComplexGateway(g)) => complex_outcome(
                pre,
                post,
                token,
                g.activation_conditions@,
            ),
            FlowObjectType::Gateway(GatewayType::EventBasedGateway(_)) => parked_with_state(
                pre,
                post,
                token,
                TokenState::Paused,
                FlowObjectState::Suspended,
            ),
        },
    }
}

/// One scheduling step of the run loop: the most recently added active
/// token is taken out and processed, and everything else is carried
/// along untouched into the processing.
pub open spec fn engine_step(pre: ProcessEngine, post: ProcessEngine) -> bool {
    exists|i: int, mid: ProcessEngine|
        {
            &&& 0 <= i < pre.process_instance.tokens@.len()
            &&& pre.process_instance.tokens@[i].state == TokenState::Active
            &&& forall|j: int|
                i < j < pre.process_instance.tokens@.len() ==> pre.process_instance.tokens@[
                    j
                ].state != TokenState::Active
            &&& mid.process_instance.tokens@ == pre.process_instance.tokens@.remove(i)
            &&& mid.process_instance.process == pre.process_instance.process
            &&& mid.process_instance.flow_object_states == pre.process_instance.flow_object_states
            &&& mid.process_instance.failures == pre.process_instance.failures
            &&& mid.condition_results == pre.condition_results
            &&& token_step(mid, post, pre.process_instance.tokens@[i])
        }
}

/// The run loop's trace relation: `post` arises from `pre` by `n`
/// scheduling steps.
pub open spec fn engine_reaches(pre: ProcessEngine, post: ProcessEngine, n: nat) -> bool
    decreases n,
{
    if n == 0 {
        post == pre
    } else {
        exists|mid: ProcessEngine| engine_reaches(pre, mid, (n - 1) as nat) && engine_step(mid, post)
    }
}

/// A ranking of flow object identifiers under which every sequence flow
/// descends: each flow's target ranks strictly below its source. Such a
/// ranking exists exactly when the flow graph has no cycle.
pub open spec fn flow_ranked(p: ProcessView, rank: spec_fn(Seq<char>) -> nat) -> bool {
    forall|i: int|
        0 <= i < p.sequence_flows.len() ==> rank((#[trigger] p.sequence_flows[i])@.target_ref)
            < rank(p.sequence_flows[i]@.source_ref)
}

/// The branching base of a process: one more than its flow count, so
/// that a single routing step can never spawn `base` tokens.
pub open spec fn split_base(p: ProcessView) -> nat {
    p.sequence_flows.len() + 1
}

/// What one token contributes to the termination measure: an active
/// token weighs the base raised to its node's rank, others weigh
/// nothing.
pub open spec fn token_weight(t: Token, rank: spec_fn(Seq<char>) -> nat, base: nat) -> int {
    if t.state == TokenState::Active {
        pow(base as int, rank(t.current_node_id@))
    } else {
        0
    }
}

/// The termination measure of a token list under a ranking: the summed
/// weight of its active tokens.
pub open spec fn active_measure(tokens: Seq<Token>, rank: spec_fn(Seq<char>) -> nat, base: nat) -> int
    decreases tokens.len(),
{
    if tokens.len() == 0 {
        0
    } else {
        active_measure(tokens.drop_last(), rank, base) + token_weight(tokens.last(), rank, base)
    }
}

/// The ranking witnesses that the engine must quiesce: every flow
/// descends under it, and the measure of the live tokens fits the
/// engine's step budget.
pub open spec fn descent_bounded(e: ProcessEngine, rank: spec_fn(Seq<char>) -> nat) -> bool {
    &&& flow_ranked(e.process_instance.process@, rank)
    &&& active_measure(
        e.process_instance.tokens@,
        rank,
        split_base(e.process_instance.process@),
    ) <= u64::MAX
}

/// The engine is sure to reach quiescence: some ranking bounds its
/// descent. Every acyclic model whose weighted token measure fits the
/// step budget qualifies; a cyclic model qualifies under no ranking.
pub open spec fn quiescence_guaranteed(e: ProcessEngine) -> bool {
    exists|rank: spec_fn(Seq<char>) -> nat| descent_bounded(e, rank)
}

proof fn lemma_measure_nonneg(tokens: Seq<Token>, rank: spec_fn(Seq<char>) -> nat, base: nat)
    requires
        base >= 1,
    ensures
        active_measure(tokens, rank, base) >= 0,
    decreases tokens.len(),
{
    if tokens.len() > 0 {
        lemma_measure_nonneg(tokens.drop_last(), rank, base);
        lemma_pow_positive(base as int, rank(tokens.last().current_node_id@));
    }
}

proof fn lemma_measure_at_least_token(
    tokens: Seq<Token>,
    i: int,
    rank: spec_fn(Seq<char>) -> nat,
    base: nat,
)
    requires
        base >= 1,
        0 <= i < tokens.len(),
    ensures
        active_measure(tokens, rank, base) >= token_weight(tokens[i], rank, base),
    decreases tokens.len(),
{
    lemma_pow_positive(base as int, rank(tokens.last().current_node_id@));
    if i == tokens.len() - 1 {
        lemma_measure_nonneg(tokens.drop_last(), rank, base);
    } else {
        assert(tokens.drop_last()[i] == tokens[i]);
        lemma_measure_at_least_token(tokens.drop_last(), i, rank, base);
    }
}

proof fn lemma_measure_remove(
    tokens: Seq<Token>,
    i: int,
    rank: spec_fn(Seq<char>) -> nat,
    base: nat,
)
    requires
        0 <= i < tokens.len(),
    ensures
        active_measure(tokens.remove(i), rank, base) == active_measure(tokens, rank, base)
            - token_weight(tokens[i], rank, base),
    decreases tokens.len(),
{
    if i == tokens.len() - 1 {
        assert(tokens.remove(i) =~= tokens.drop_last());
    } else {
        assert(tokens.remove(i).drop_last() =~= tokens.drop_last().remove(i));
        assert(tokens.remove(i).last() == tokens.last());
        assert(tokens.drop_last()[i] == tokens[i]);
        lemma_measure_remove(tokens.drop_last(), i, rank, base);
    }
}

proof fn lemma_measure_suffix_bound(
    tokens: Seq<Token>,
    pn: int,
    rank: spec_fn(Seq<char>) -> nat,
    base: nat,
    wc: int,
)
    requires
        0 <= pn <= tokens.len(),
        wc >= 0,
        forall|j: int| pn <= j < tokens.len() ==> token_weight(#[trigger] tokens[j], rank, base) <= wc,
    ensures
        active_measure(tokens, rank, base) <= active_measure(tokens.take(pn), rank, base) + (
        tokens.len() - pn) * wc,
    decreases tokens.len() - pn,
{
    if pn == tokens.len() {
        assert(tokens.take(pn) =~= tokens);
    } else {
        assert(tokens.drop_last().take(pn) =~= tokens.take(pn));
        assert(forall|j: int|
            pn <= j < tokens.drop_last().len() ==> token_weight(
                #[trigger] tokens.drop_last()[j],
                rank,
                base,
            ) <= wc);
        lemma_measure_suffix_bound(tokens.drop_last(), pn, rank, base, wc);
        assert(token_weight(tokens.last(), rank, base) <= wc);
        assert((tokens.len() - 1 - pn) * wc + wc == (tokens.len() - pn) * wc) by (nonlinear_arith);
    }
}

proof fn lemma_first_eligible_bounds(flows: Seq<SequenceFlow>, table: Seq<(String, bool)>, i: int)
    requires
        0 <= i,
    ensures
        first_eligible_from(flows, table, i) matches Some(j) ==> i <= j < flows.len(),
    decreases flows.len() - i,
{
    if i < flows.len() && !flow_eligible(flows[i], table) {
        lemma_first_eligible_bounds(flows, table, i + 1);
    }
}

proof fn lemma_first_true_conditional_bounds(
    flows: Seq<SequenceFlow>,
    table: Seq<(String, bool)>,
    i: int,
)
    requires
        0 <= i,
    ensures
        first_true_conditional_from(flows, table, i) matches Some(j) ==> i <= j < flows.len(),
    decreases flows.len() - i,
{
    if i < flows.len() && !(flows[i]@.behavior is Conditional && cond_lookup(table, flows[i]@.id)
        == Some(true)) {
        lemma_first_true_conditional_bounds(flows, table, i + 1);
    }
}

proof fn lemma_flow_index_bounds(flows: Seq<SequenceFlow>, id: Seq<char>, i: int)
    requires
        0 <= i,
    ensures
        flow_index_with_id_from(flows, id, i) matches Some(j) ==> i <= j < flows.len(),
    decreases flows.len() - i,
{
    if i < flows.len() && flows[i]@.id != id {
        lemma_flow_index_bounds(flows, id, i + 1);
    }
}

proof fn lemma_eligible_indices_bounds(flows: Seq<SequenceFlow>, table: Seq<(String, bool)>, i: int)
    requires
        0 <= i,
    ensures
        eligible_indices_from(flows, table, i).len() <= flows.len() - i || flows.len() < i,
        forall|ci: int|
            0 <= ci < eligible_indices_from(flows, table, i).len() ==> i <= #[trigger] eligible_indices_from(
                flows,
                table,
                i,
            )[ci] < flows.len(),
    decreases flows.len() - i,
{
    if i < flows.len() {
        lemma_eligible_indices_bounds(flows, table, i + 1);
    }
}

proof fn lemma_complex_indices_bounds(
    flows: Seq<SequenceFlow>,
    table: Seq<(String, bool)>,
    conditions: Seq<String>,
    i: int,
)
    requires
        0 <= i,
    ensures
        complex_indices_from(flows, table, conditions, i).len() <= flows.len() - i || flows.len()
            < i,
        forall|ci: int|
            0 <= ci < complex_indices_from(flows, table, conditions, i).len() ==> i
                <= #[trigger] complex_indices_from(flows, table, conditions, i)[ci] < flows.len(),
    decreases flows.len() - i,
{
    if i < flows.len() {
        lemma_complex_indices_bounds(flows, table, conditions, i + 1);
    }
}

/// An outgoing flow of a node leaves that node and is one of the
/// process's flows, so a ranking makes it descend.
proof fn lemma_outgoing_descends(
    all: Seq<SequenceFlow>,
    src: Seq<char>,
    fi: int,
    rank: spec_fn(Seq<char>) -> nat,
)
    requires
        0 <= fi < outgoing_flows(all, src).len(),
        forall|i: int|
            0 <= i < all.len() ==> rank((#[trigger] all[i])@.target_ref) < rank(all[i]@.source_ref),
    ensures
        outgoing_flows(all, src)[fi]@.source_ref == src,
        rank(outgoing_flows(all, src)[fi]@.target_ref) < rank(src),
        outgoing_flows(all, src).len() <= all.len(),
{
    let flows = outgoing_flows(all, src);
    all.lemma_filter_pred(flow_from(src), fi);
    assert(flows.contains(flows[fi]));
    all.lemma_filter_contains_rev(flow_from(src), flows[fi]);
    let j = choose|j: int| 0 <= j < all.len() && all[j] == flows[fi];
    assert(rank(all[j]@.target_ref) < rank(all[j]@.source_ref));
    all.lemma_filter_len(flow_from(src));
}

/// One engine step spends more measure than it creates: whatever the
/// node kind, the tokens a step leaves behind weigh strictly less than
/// the token it consumed.
proof fn lemma_token_step_measure(
    pre: ProcessEngine,
    post: ProcessEngine,
    token: Token,
    rank: spec_fn(Seq<char>) -> nat,
)
    requires
        token_step(pre, post, token),
        flow_ranked(pre.process_instance.process@, rank),
        token.state == TokenState::Active,
    ensures
        active_measure(
            post.process_instance.tokens@,
            rank,
            split_base(pre.process_instance.process@),
        ) < active_measure(
            pre.process_instance.tokens@,
            rank,
            split_base(pre.process_instance.process@),
        ) + token_weight(token, rank, split_base(pre.process_instance.process@)),
{
    let p = pre.process_instance.process@;
    let base = split_base(p);
    let all = p.sequence_flows;
    let node = token.current_node_id@;
    let r = rank(node);
    let flows = outgoing_flows(all, node);
    let table = pre.condition_results@;
    let pre_tokens = pre.process_instance.tokens@;
    let post_tokens = post.process_instance.tokens@;
    lemma_pow_positive(base as int, r);
    match fo_lookup(p.flow_objects, node) {
        None => {
            lemma_parked_measure(pre, post, token, rank);
        }
        Some(fo) => match fo.flow_object_type {
            FlowObjectType::Activity(ActivityType::Task(tt)) => {
                if tt is UserTask {
                    lemma_parked_measure(pre, post, token, rank);
                } else {
                    lemma_advanced_measure(pre, post, token, rank);
                }
            }
            FlowObjectType::Event(EventType::StartEvent(_)) => {
                lemma_advanced_measure(pre, post, token, rank);
            }
            FlowObjectType::Event(EventType::IntermediateEvent(_)) => {
                lemma_advanced_measure(pre, post, token, rank);
            }
            FlowObjectType::Event(EventType::EndEvent(_)) => {
                lemma_parked_measure(pre, post, token, rank);
            }
            FlowObjectType::Gateway(GatewayType::ExclusiveGateway(g)) => {
                match exclusive_choice(flows, table, g.default_flow) {
                    Some(fi) => {
                        lemma_first_true_conditional_bounds(flows, table, 0);
                        match g.default_flow {
                            Some(d) => lemma_flow_index_bounds(flows, d@, 0),
                            None => {}
                        }
                        lemma_moved_measure(pre, post, token, rank, fi);
                    }
                    None => {
                        lemma_parked_measure(pre, post, token, rank);
                    }
                }
            }
            FlowObjectType::Gateway(GatewayType::InclusiveGateway(g)) => {
                let els = eligible_indices_from(flows, table, 0);
                if els.len() > 0 {
                    lemma_eligible_indices_bounds(flows, table, 0);
                    lemma_split_measure(pre, post, token, rank, els);
                } else {
                    match g.default_flow {
                        Some(d) => match flow_index_with_id_from(flows, d@, 0) {
                            Some(fi) => {
                                lemma_flow_index_bounds(flows, d@, 0);
                                lemma_moved_measure(pre, post, token, rank, fi);
                            }
                            None => {
                                lemma_parked_measure(pre, post, token, rank);
                            }
                        },
                        None => {
                            lemma_parked_measure(pre, post, token, rank);
                        }
                    }
                }
            }
            FlowObjectType::Gateway(GatewayType::ParallelGateway(_)) => {
                if flows.len() == 0 {
                    lemma_parked_measure(pre, post, token, rank);
                } else {
                    let els = Seq::new(flows.len(), |i: int| i);
                    lemma_split_measure(pre, post, token, rank, els);
                }
            }
            FlowObjectType::Gateway(GatewayType::ComplexGateway(g)) => {
                let els = complex_indices_from(flows, table, g.activation_conditions@, 0);
                if els.len() > 0 {
                    lemma_complex_indices_bounds(flows, table, g.activation_conditions@, 0);
                    lemma_split_measure(pre, post, token, rank, els);
                } else {
                    lemma_parked_measure(pre, post, token, rank);
                }
            }
            FlowObjectType::Gateway(GatewayType::EventBasedGateway(_)) => {
                lemma_parked_measure(pre, post, token, rank);
            }
        },
    }
}

/// No step loses a token: processing consumes one token and leaves at
/// least one behind — advanced, parked, split, or terminated — so the
/// instance's history only grows.
proof fn lemma_token_step_conserves(pre: ProcessEngine, post: ProcessEngine, token: Token)
    requires
        token_step(pre, post, token),
    ensures
        post.process_instance.tokens@.len() >= pre.process_instance.tokens@.len() + 1,
{
    let p = pre.process_instance.process@;
    let node = token.current_node_id@;
    let flows = outgoing_flows(p.sequence_flows, node);
    let table = pre.condition_results@;
    match fo_lookup(p.flow_objects, node) {
        None => {}
        Some(fo) => match fo.flow_object_type {
            FlowObjectType::Gateway(GatewayType::ParallelGateway(_)) => {
                if flows.len() > 0 {
                    assert(Seq::new(flows.len(), |i: int| i).len() >= 1);
                }
            }
            _ => {}
        },
    }
}

/// An advance along the first eligible flow spends more measure than it
/// creates.
proof fn lemma_advanced_measure(
    pre: ProcessEngine,
    post: ProcessEngine,
    token: Token,
    rank: spec_fn(Seq<char>) -> nat,
)
    requires
        advanced_one(pre, post, token),
        flow_ranked(pre.process_instance.process@, rank),
        token.state == TokenState::Active,
    ensures
        active_measure(
            post.process_instance.tokens@,
            rank,
            split_base(pre.process_instance.process@),
        ) < active_measure(
            pre.process_instance.tokens@,
            rank,
            split_base(pre.process_instance.process@),
        ) + token_weight(token, rank, split_base(pre.process_instance.process@)),
{
    let flows = outgoing_flows(
        pre.process_instance.process@.sequence_flows,
        token.current_node_id@,
    );
    let table = pre.condition_results@;
    match first_eligible_from(flows, table, 0) {
        Some(fi) => {
            lemma_first_eligible_bounds(flows, table, 0);
            lemma_moved_measure(pre, post, token, rank, fi);
        }
        None => {
            lemma_parked_measure(pre, post, token, rank);
        }
    }
}

/// A step that keeps the token under an inactive state — parked,
/// completed, or terminated — adds no weight at all.
proof fn lemma_parked_measure(
    pre: ProcessEngine,
    post: ProcessEngine,
    token: Token,
    rank: spec_fn(Seq<char>) -> nat,
)
    requires
        token.state == TokenState::Active,
        post.process_instance.tokens@.len() == pre.process_instance.tokens@.len() + 1,
        post.process_instance.tokens@.drop_last() == pre.process_instance.tokens@,
        post.process_instance.tokens@.last().state != TokenState::Active,
    ensures
        active_measure(
            post.process_instance.tokens@,
            rank,
            split_base(pre.process_instance.process@),
        ) < active_measure(
            pre.process_instance.tokens@,
            rank,
            split_base(pre.process_instance.process@),
        ) + token_weight(token, rank, split_base(pre.process_instance.process@)),
{
    let base = split_base(pre.process_instance.process@);
    lemma_pow_positive(base as int, rank(token.current_node_id@));
}

/// A step that moves the token along outgoing flow `fi` trades its
/// weight for the strictly smaller weight of a lower-ranked node.
proof fn lemma_moved_measure(
    pre: ProcessEngine,
    post: ProcessEngine,
    token: Token,
    rank: spec_fn(Seq<char>) -> nat,
    fi: int,
)
    requires
        flow_ranked(pre.process_instance.process@, rank),
        token.state == TokenState::Active,
        0 <= fi < outgoing_flows(
            pre.process_instance.process@.sequence_flows,
            token.current_node_id@,
        ).len(),
        moved_to_target(
            pre,
            post,
            token,
            outgoing_flows(
                pre.process_instance.process@.sequence_flows,
                token.current_node_id@,
            )[fi]@.target_ref,
        ),
    ensures
        active_measure(
            post.process_instance.tokens@,
            rank,
            split_base(pre.process_instance.process@),
        ) < active_measure(
            pre.process_instance.tokens@,
            rank,
            split_base(pre.process_instance.process@),
        ) + token_weight(token, rank, split_base(pre.process_instance.process@)),
{
    let p = pre.process_instance.process@;
    let base = split_base(p);
    let all = p.sequence_flows;
    let node = token.current_node_id@;
    let flows = outgoing_flows(all, node);
    lemma_outgoing_descends(all, node, fi, rank);
    let rt = rank(flows[fi]@.target_ref);
    let r = rank(node);
    assert(base >= 2);
    lemma_pow_strictly_increases(base, rt, r);
    assert(token_weight(post.process_instance.tokens@.last(), rank, base) < token_weight(
        token,
        rank,
        base,
    ));
}

/// A split step trades the token's weight for at most one lower-ranked
/// weight per flow of the process, which in sum stays strictly below it.
proof fn lemma_split_measure(
    pre: ProcessEngine,
    post: ProcessEngine,
    token: Token,
    rank: spec_fn(Seq<char>) -> nat,
    els: Seq<int>,
)
    requires
        flow_ranked(pre.process_instance.process@, rank),
        token.state == TokenState::Active,
        split_case(
            pre,
            post,
            token,
            outgoing_flows(
                pre.process_instance.process@.sequence_flows,
                token.current_node_id@,
            ),
            els,
        ),
        els.len() >= 1,
        els.len() <= pre.process_instance.process@.sequence_flows.len(),
        forall|ci: int|
            0 <= ci < els.len() ==> 0 <= #[trigger] els[ci] < outgoing_flows(
                pre.process_instance.process@.sequence_flows,
                token.current_node_id@,
            ).len(),
    ensures
        active_measure(
            post.process_instance.tokens@,
            rank,
            split_base(pre.process_instance.process@),
        ) < active_measure(
            pre.process_instance.tokens@,
            rank,
            split_base(pre.process_instance.process@),
        ) + token_weight(token, rank, split_base(pre.process_instance.process@)),
{
    let p = pre.process_instance.process@;
    let base = split_base(p);
    let all = p.sequence_flows;
    let node = token.current_node_id@;
    let flows = outgoing_flows(all, node);
    let r = rank(node);
    let pn = pre.process_instance.tokens@.len() as int;
    let k = els.len() as int;
    let post_tokens = post.process_instance.tokens@;
    lemma_outgoing_descends(all, node, els[0], rank);
    assert(r >= 1);
    assert(base >= 2);
    let wc = pow(base as int, (r - 1) as nat);
    lemma_pow_positive(base as int, (r - 1) as nat);
    assert forall|j: int| pn <= j < post_tokens.len() implies token_weight(
        #[trigger] post_tokens[j],
        rank,
        base,
    ) <= wc by {
        if j == post_tokens.len() - 1 {
            lemma_outgoing_descends(all, node, els[0], rank);
            let rt = rank(flows[els[0]]@.target_ref);
            lemma_pow_increases(base, rt, (r - 1) as nat);
        } else {
            let ci = j - pn + 1;
            assert(spawned_child(token, post_tokens[pn + ci - 1], flows[els[ci]]));
            lemma_outgoing_descends(all, node, els[ci], rank);
            let rt = rank(flows[els[ci]]@.target_ref);
            lemma_pow_increases(base, rt, (r - 1) as nat);
        }
    }
    assert(post_tokens.take(pn) == pre.process_instance.tokens@);
    lemma_measure_suffix_bound(post_tokens, pn, rank, base, wc);
    assert(post_tokens.len() - pn == k);
    assert(k * wc < base * wc) by (nonlinear_arith)
        requires
            1 <= k < base,
            wc >= 1,
    ;
    assert(base * wc == pow(base as int, r)) by {
        reveal(pow);
        assert(pow(base as int, r) == base * pow(base as int, (r - 1) as nat));
    }
}

} // verus!
