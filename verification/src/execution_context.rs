//! The execution context handed to behavior extensions: a token and the
//! variables in scope while it executes.

use vstd::prelude::*;
use crate::token::Token;

verus! {

/// A token together with the variable bindings tracked while it executes.
#[derive(Clone, Debug)]
pub struct ExecutionContext {
    pub token: Token,
    pub variables: Vec<(String, String)>,
}

impl ExecutionContext {
    /// Moves the context's token to another node, leaving everything else
    /// untouched.
    pub fn move_token(&mut self, new_node_id: &str)
        ensures
            final(self).token.id == old(self).token.id,
            final(self).token.current_node_id@ == new_node_id@,
            final(self).token.state == old(self).token.state,
            final(self).token.parent_token_id == old(self).token.parent_token_id,
            final(self).token.child_tokens == old(self).token.child_tokens,
            final(self).token.process_variables == old(self).token.process_variables,
            final(self).variables == old(self).variables,
    {
        self.token.current_node_id = String::from_str(new_node_id);
    }
}

} // verus!
