//! Tokens: the runtime cursors that carry control through the process
//! graph, one per thread of control.

use vstd::prelude::*;

verus! {

/// The lifecycle state of a token. Only `Active` tokens are processed by
/// the engine; the other states are terminal or parked.
#[derive(Clone, Copy, PartialEq, Eq, Structural, Debug)]
pub enum TokenState {
    /// The token is moving through the process.
    Active,
    /// The token is paused at a task waiting for input or external action.
    Paused,
    /// The token has reached the end of the process.
    Completed,
    /// The token has been consumed by a gateway or end event.
    Consumed,
    /// The token was terminated early.
    Terminated,
}

/// One thread of control: its unique identifier, the flow object it sits
/// on, its lifecycle state, its ancestry links, and its variable bindings.
#[derive(Clone, Debug)]
pub struct Token {
    /// Unique token identifier.
    pub id: String,
    /// The identifier of the flow object the token is at.
    pub current_node_id: String,
    /// The current lifecycle state.
    pub state: TokenState,
    /// The identifier of the token that spawned this one, if any.
    pub parent_token_id: Option<String>,
    /// The identifiers of tokens spawned by this one, recorded for
    /// traceability; the tokens themselves live in the instance's list.
    pub child_tokens: Vec<String>,
    /// Process variables as name-value bindings, in binding order.
    pub process_variables: Vec<(String, String)>,
}

/// `t` is `token` with its lifecycle state replaced and everything else
/// untouched.
pub open spec fn token_with_state(token: Token, t: Token, state: TokenState) -> bool {
    &&& t.id == token.id
    &&& t.current_node_id == token.current_node_id
    &&& t.state == state
    &&& t.parent_token_id == token.parent_token_id
    &&& t.child_tokens == token.child_tokens
    &&& t.process_variables == token.process_variables
}

/// `t` is `token` moved to the node named `target`, active, with
/// everything else untouched.
pub open spec fn token_moved_to(token: Token, t: Token, target: Seq<char>) -> bool {
    &&& t.id == token.id
    &&& t.current_node_id@ == target
    &&& t.state == TokenState::Active
    &&& t.parent_token_id == token.parent_token_id
    &&& t.child_tokens == token.child_tokens
    &&& t.process_variables == token.process_variables
}

} // verus!
