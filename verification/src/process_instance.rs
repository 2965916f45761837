//! Process instances: the static process model paired with its runtime
//! state — live tokens, per-flow-object execution states, and the record
//! of tokens that failed.

use vstd::prelude::*;
use crate::process::Process;
use crate::text::str_eq;
use crate::token::{Token, TokenState};

verus! {

/// The execution state of one flow object, tracked across all tokens.
#[derive(Clone, Copy, PartialEq, Eq, Structural, Debug)]
pub enum FlowObjectState {
    /// Instantiated but not yet started.
    Created,
    /// Ready for execution.
    Ready,
    /// Currently executing.
    Active,
    /// Paused, e.g. waiting for a user task.
    Suspended,
    /// Finished executing.
    Completed,
    /// Encountered an error.
    Failed,
    /// Canceled before it could complete.
    Canceled,
}

/// Why a token could not continue.
#[derive(Clone, Copy, PartialEq, Eq, Structural, Debug)]
pub enum RoutingFailure {
    /// The token's current node names no flow object of the process.
    NodeNotFound,
    /// No outgoing flow qualified and no usable default flow was declared.
    NoEligibleFlow,
}

/// The record of one terminated token: which token, at which node, and
/// why.
#[derive(Clone, PartialEq, Debug)]
pub struct TokenFailure {
    pub token_id: String,
    pub node_id: String,
    pub reason: RoutingFailure,
}

/// The predicate keeping every state entry whose key differs from `id`.
pub open spec fn state_key_differs(id: Seq<char>) -> spec_fn((String, FlowObjectState)) -> bool {
    |e: (String, FlowObjectState)| e.0@ != id
}

/// The execution state recorded for a flow object: the first entry with
/// the given key, scanning from position `i`.
pub open spec fn state_lookup_from(
    s: Seq<(String, FlowObjectState)>,
    id: Seq<char>,
    i: int,
) -> Option<FlowObjectState>
    decreases s.len() - i,
{
    if i < 0 || i >= s.len() {
        None
    } else if s[i].0@ == id {
        Some(s[i].1)
    } else {
        state_lookup_from(s, id, i + 1)
    }
}

/// The execution state recorded for a flow object, if any.
pub open spec fn state_lookup(s: Seq<(String, FlowObjectState)>, id: Seq<char>) -> Option<
    FlowObjectState,
> {
    state_lookup_from(s, id, 0)
}

/// `post` is `pre` with the state entry for `id` replaced by `st`: every
/// other entry kept in order, and the new binding at the end.
pub open spec fn states_updated(
    pre: Seq<(String, FlowObjectState)>,
    post: Seq<(String, FlowObjectState)>,
    id: Seq<char>,
    st: FlowObjectState,
) -> bool {
    &&& post.len() == pre.filter(state_key_differs(id)).len() + 1
    &&& post.drop_last() == pre.filter(state_key_differs(id))
    &&& post.last().0@ == id
    &&& post.last().1 == st
}

/// A running process: the immutable model, the live tokens, the tracked
/// flow object states, and the failures recorded against it.
#[derive(Clone, Debug)]
pub struct ProcessInstance {
    /// The tokens of the instance, live and terminal.
    pub tokens: Vec<Token>,
    /// The tracked execution state of each visited flow object.
    pub flow_object_states: Vec<(String, FlowObjectState)>,
    /// Tokens that could not continue, recorded rather than dropped.
    pub failures: Vec<TokenFailure>,
    /// The static process model; execution never mutates it.
    pub process: Process,
}

impl ProcessInstance {
    /// Builds an instance of the process with no tokens, no tracked
    /// states, and no failures.
    pub fn new(process: Process) -> (r: Self)
        ensures
            r.tokens@ == Seq::<Token>::empty(),
            r.flow_object_states@ == Seq::<(String, FlowObjectState)>::empty(),
            r.failures@ == Seq::<TokenFailure>::empty(),
            r.process == process,
    {
        ProcessInstance {
            tokens: Vec::new(),
            flow_object_states: Vec::new(),
            failures: Vec::new(),
            process,
        }
    }

    /// Adds a token to the instance.
    pub fn add_token(&mut self, token: Token)
        ensures
            final(self).tokens@ == old(self).tokens@.push(token),
            final(self).flow_object_states == old(self).flow_object_states,
            final(self).failures == old(self).failures,
            final(self).process == old(self).process,
    {
        self.tokens.push(token);
    }

    /// Returns references to the tokens that are currently active, in
    /// stored order.
    pub fn get_active_tokens(&self) -> (r: Vec<&Token>)
        ensures
            r@.map_values(|t: &Token| *t) == self.tokens@.filter(
                |t: Token| t.state == TokenState::Active,
            ),
    {
        let ghost pred = |t: Token| t.state == TokenState::Active;
        let n = self.tokens.len();
        let mut out: Vec<&Token> = Vec::new();
        let mut i: usize = 0;
        while i < n
            invariant
                n == self.tokens@.len(),
                0 <= i <= n,
                out@.map_values(|t: &Token| *t) =~= self.tokens@.take(i as int).filter(
                    |t: Token| t.state == TokenState::Active,
                ),
            decreases n - i,
        {
            proof {
                reveal(Seq::filter);
                assert(self.tokens@.take(i + 1).drop_last() =~= self.tokens@.take(i as int));
                assert(self.tokens@.take(i + 1).last() == self.tokens@[i as int]);
            }
            let t = &self.tokens[i];
            if matches_active(t) {
                out.push(t);
            }
            proof {
                assert(out@.map_values(|t: &Token| *t) =~= self.tokens@.take(i + 1).filter(
                    |t: Token| t.state == TokenState::Active,
                ));
            }
            i += 1;
        }
        proof {
            assert(self.tokens@.take(n as int) =~= self.tokens@);
        }
        out
    }

    /// Records the execution state of a flow object, replacing any earlier
    /// entry for it.
    pub fn update_task_state(&mut self, task_id: &str, state: FlowObjectState)
        ensures
            states_updated(
                old(self).flow_object_states@,
                final(self).flow_object_states@,
                task_id@,
                state,
            ),
            final(self).tokens == old(self).tokens,
            final(self).failures == old(self).failures,
            final(self).process == old(self).process,
    {
        let n = self.flow_object_states.len();
        let mut kept: Vec<(String, FlowObjectState)> = Vec::new();
        let mut i: usize = 0;
        while i < n
            invariant
                n == self.flow_object_states@.len(),
                0 <= i <= n,
                kept@ == self.flow_object_states@.take(i as int).filter(
                    state_key_differs(task_id@),
                ),
            decreases n - i,
        {
            proof {
                reveal(Seq::filter);
                assert(self.flow_object_states@.take(i + 1).drop_last()
                    =~= self.flow_object_states@.take(i as int));
                assert(self.flow_object_states@.take(i + 1).last()
                    == self.flow_object_states@[i as int]);
                assert(self.flow_object_states@.take(i + 1).filter(state_key_differs(task_id@))
                    == if state_key_differs(task_id@)(self.flow_object_states@[i as int]) {
                    self.flow_object_states@.take(i as int).filter(
                        state_key_differs(task_id@),
                    ).push(self.flow_object_states@[i as int])
                } else {
                    self.flow_object_states@.take(i as int).filter(state_key_differs(task_id@))
                });
            }
            if !str_eq(self.flow_object_states[i].0.as_str(), task_id) {
                let entry = (self.flow_object_states[i].0.clone(), self.flow_object_states[i].1);
                proof {
                    assert(entry =~= self.flow_object_states@[i as int]);
                }
                kept.push(entry);
            }
            i += 1;
        }
        proof {
            assert(self.flow_object_states@.take(n as int) =~= self.flow_object_states@);
        }
        kept.push((String::from_str(task_id), state));
        self.flow_object_states = kept;
        proof {
            assert(self.flow_object_states@.drop_last() =~= old(self).flow_object_states@.filter(
                state_key_differs(task_id@),
            ));
        }
    }
}

/// Tests whether a token is active.
fn matches_active(t: &Token) -> (r: bool)
    ensures
        r <==> t.state == TokenState::Active,
{
    match t.state {
        TokenState::Active => true,
        _ => false,
    }
}

} // verus!
